//! The rows of an object store, and what the requests of a transaction do to them.
use crate::net::indexeddb::engines::transaction::{
    fits, ActionModel, EventModel, OperationModel, Phase, Progress, PutItemResult, QueryModel,
    ReplyModel,
};
use vstd::prelude::*;
use vstd::seq_lib::lemma_seq_contains_after_push;

verus! {

/// A row of the table of an object store. Nothing keeps two rows from having the same key.
pub struct Row {
    pub key: Seq<u8>,
    pub value: Seq<u8>,
}

/// Whether there is a row with a key.
pub open spec fn has_key(rows: Seq<Row>, key: Seq<u8>) -> bool {
    exists|value: Seq<u8>| #[trigger] rows.contains(Row { key, value })
}

/// The rows that do not have a key, in order.
pub open spec fn without_key(rows: Seq<Row>, key: Seq<u8>) -> Seq<Row> {
    rows.filter(|row: Row| row.key != key)
}

/// Whether this can be the answer of a table to a query, and these its rows afterwards. A query
/// that fails changes nothing.
pub open spec fn answers(
    rows: Seq<Row>,
    query: QueryModel,
    event: EventModel,
    after: Seq<Row>,
) -> bool {
    match (query, event) {
        (QueryModel::Find(key), EventModel::Found(found)) => {
            &&& after == rows
            &&& match found {
                Ok(Some(value)) => rows.contains(Row { key, value }),
                Ok(None) => !has_key(rows, key),
                Err(_) => true,
            }
        },
        (QueryModel::Insert { key, value }, EventModel::Done(done)) => after == match done {
            Ok(_) => rows.push(Row { key, value }),
            Err(_) => rows,
        },
        (QueryModel::DeleteKey(key), EventModel::Done(done)) => after == match done {
            Ok(_) => without_key(rows, key),
            Err(_) => rows,
        },
        (QueryModel::FetchAll, EventModel::Fetched(fetched)) => {
            after == rows && (fetched matches Ok(in_range) ==> in_range.len() == rows.len())
        },
        (QueryModel::DeleteAll, EventModel::Done(done)) => after == match done {
            Ok(_) => Seq::empty(),
            Err(_) => rows,
        },
        _ => false,
    }
}

/// The reply that a transaction comes to, where its queries are answered like this, and the rows
/// at that time. The trace holds each answer with the rows after it. Nothing where a table cannot
/// answer like that, or the trace does not lead to the reply.
pub open spec fn replies(
    now: (Progress, ActionModel),
    connected: Set<Seq<char>>,
    rows: Seq<Row>,
    trace: Seq<(EventModel, Seq<Row>)>,
) -> Option<(ReplyModel, Seq<Row>)>
    decreases trace.len(),
{
    match now.1 {
        ActionModel::Reply(reply) => if trace.len() == 0 {
            Some((reply, rows))
        } else {
            None
        },
        ActionModel::Query(query) => if trace.len() > 0 && fits(now.0.phase, trace[0].0)
            && answers(rows, query, trace[0].0, trace[0].1) {
            replies(now.0.after(connected, trace[0].0), connected, trace[0].1, trace.skip(1))
        } else {
            None
        },
        _ => None,
    }
}

/// The reply to the request that a transaction is at, and the rows of its object store afterwards.
pub open spec fn served(
    progress: Progress,
    connected: Set<Seq<char>>,
    rows: Seq<Row>,
    trace: Seq<(EventModel, Seq<Row>)>,
) -> Option<(ReplyModel, Seq<Row>)> {
    replies(progress.after(connected, EventModel::Proceed), connected, rows, trace)
}

/// Whether a transaction is about to begin this operation.
pub open spec fn is_at(progress: Progress, operation: OperationModel) -> bool {
    &&& progress.phase == Phase::Ready
    &&& progress.next < progress.requests.len()
    &&& progress.current().operation == operation
}

proof fn lemma_without_key(rows: Seq<Row>, key: Seq<u8>, row: Row)
    ensures
        without_key(rows, key).contains(row) <==> rows.contains(row) && row.key != key,
    decreases rows.len(),
{
    reveal(Seq::filter);
    if rows.len() > 0 {
        let init = rows.drop_last();
        lemma_without_key(init, key, row);
        assert(rows =~= init.push(rows.last()));
        lemma_seq_contains_after_push(init, rows.last(), row);
        lemma_seq_contains_after_push(without_key(init, key), rows.last(), row);
    }
}

proof fn lemma_trace_of_one(
    now: (Progress, ActionModel),
    connected: Set<Seq<char>>,
    rows: Seq<Row>,
    trace: Seq<(EventModel, Seq<Row>)>,
)
    requires
        now.1 is Query,
        replies(now, connected, rows, trace) is Some,
        now.0.after(connected, trace[0].0).1 is Reply,
    ensures
        trace.len() == 1,
        replies(now, connected, rows, trace) == Some(
            (now.0.after(connected, trace[0].0).1->Reply_0, trace[0].1),
        ),
{
    let next = now.0.after(connected, trace[0].0);
    assert(replies(now, connected, rows, trace) == replies(
        next,
        connected,
        trace[0].1,
        trace.skip(1),
    ));
}

/// What a put does: where it is told that it succeeded, there is one more row, with its key and
/// value; where it is told that it may not overwrite, there was a row with its key; and where it is
/// told that it failed or may not overwrite, no row changes.
pub proof fn law_put_adds_a_row(
    progress: Progress,
    connected: Set<Seq<char>>,
    rows: Seq<Row>,
    trace: Seq<(EventModel, Seq<Row>)>,
    key: Seq<u8>,
    value: Seq<u8>,
    should_overwrite: bool,
)
    requires
        is_at(progress, OperationModel::PutItem { key: Ok(key), value, should_overwrite }),
        served(progress, connected, rows, trace) is Some,
    ensures
        ({
            let (reply, after) = served(progress, connected, rows, trace)->0;
            match reply {
                ReplyModel::Put(Ok(PutItemResult::Success)) => {
                    &&& after == rows.push(Row { key, value })
                    &&& !should_overwrite ==> !has_key(rows, key)
                },
                ReplyModel::Put(Ok(PutItemResult::CannotOverwrite)) => {
                    after == rows && !should_overwrite && has_key(rows, key)
                },
                ReplyModel::Put(Err(_)) => after == rows,
                _ => false,
            }
        }),
{
    let begun = progress.after(connected, EventModel::Proceed);
    assert(begun.1 is Query);
    let next = begun.0.after(connected, trace[0].0);
    if should_overwrite {
        lemma_trace_of_one(begun, connected, rows, trace);
    } else {
        match trace[0].0 {
            EventModel::Found(Ok(None)) => {
                assert(served(progress, connected, rows, trace) == replies(
                    next,
                    connected,
                    rows,
                    trace.skip(1),
                ));
                lemma_trace_of_one(next, connected, rows, trace.skip(1));
            },
            EventModel::Found(Ok(Some(there))) => {
                lemma_trace_of_one(begun, connected, rows, trace);
                assert(rows.contains(Row { key, value: there }));
            },
            _ => {},
        }
    }
}

/// What a get gives: the value of a row with its key, or nothing where there is none. No row
/// changes.
pub proof fn law_get_reads_a_row(
    progress: Progress,
    connected: Set<Seq<char>>,
    rows: Seq<Row>,
    trace: Seq<(EventModel, Seq<Row>)>,
    key: Seq<u8>,
)
    requires
        is_at(progress, OperationModel::GetItem { key }),
        served(progress, connected, rows, trace) is Some,
    ensures
        ({
            let (reply, after) = served(progress, connected, rows, trace)->0;
            &&& after == rows
            &&& match reply {
                ReplyModel::Get(Ok(Some(value))) => rows.contains(Row { key, value }),
                ReplyModel::Get(Ok(None)) => !has_key(rows, key),
                ReplyModel::Get(Err(_)) => true,
                _ => false,
            }
        }),
{
    lemma_trace_of_one(
        progress.after(connected, EventModel::Proceed),
        connected,
        rows,
        trace,
    );
}

/// What a remove does: where it succeeded, exactly the rows with its key are gone; otherwise no row
/// changes.
pub proof fn law_remove_takes_the_rows_of_its_key(
    progress: Progress,
    connected: Set<Seq<char>>,
    rows: Seq<Row>,
    trace: Seq<(EventModel, Seq<Row>)>,
    key: Seq<u8>,
    row: Row,
)
    requires
        is_at(progress, OperationModel::RemoveItem { key }),
        served(progress, connected, rows, trace) is Some,
    ensures
        ({
            let (reply, after) = served(progress, connected, rows, trace)->0;
            match reply {
                ReplyModel::Removed(Ok(_)) => {
                    &&& after.contains(row) <==> rows.contains(row) && row.key != key
                    &&& !has_key(after, key)
                },
                ReplyModel::Removed(Err(_)) => after == rows,
                _ => false,
            }
        }),
{
    lemma_trace_of_one(
        progress.after(connected, EventModel::Proceed),
        connected,
        rows,
        trace,
    );
    lemma_without_key(rows, key, row);
    assert forall|value: Seq<u8>| !(#[trigger] without_key(rows, key).contains(
        Row { key, value },
    )) by {
        lemma_without_key(rows, key, Row { key, value });
    }
}

/// What a clear does: where it succeeded, no row is left; otherwise no row changes.
pub proof fn law_clear_takes_all_rows(
    progress: Progress,
    connected: Set<Seq<char>>,
    rows: Seq<Row>,
    trace: Seq<(EventModel, Seq<Row>)>,
)
    requires
        is_at(progress, OperationModel::Clear),
        served(progress, connected, rows, trace) is Some,
    ensures
        ({
            let (reply, after) = served(progress, connected, rows, trace)->0;
            match reply {
                ReplyModel::Cleared(Ok(_)) => after == Seq::<Row>::empty(),
                ReplyModel::Cleared(Err(_)) => after == rows,
                _ => false,
            }
        }),
{
    lemma_trace_of_one(
        progress.after(connected, EventModel::Proceed),
        connected,
        rows,
        trace,
    );
}

/// A get after a put that succeeded finds a value, and where there was no row with the key before,
/// the value that was put.
pub proof fn law_get_after_put(
    putting: Progress,
    getting: Progress,
    connected: Set<Seq<char>>,
    rows: Seq<Row>,
    put_trace: Seq<(EventModel, Seq<Row>)>,
    get_trace: Seq<(EventModel, Seq<Row>)>,
    key: Seq<u8>,
    value: Seq<u8>,
    should_overwrite: bool,
    found: Option<Seq<u8>>,
)
    requires
        is_at(putting, OperationModel::PutItem { key: Ok(key), value, should_overwrite }),
        is_at(getting, OperationModel::GetItem { key }),
        served(putting, connected, rows, put_trace) matches Some((reply, between)) && {
            &&& reply == ReplyModel::Put(Ok(PutItemResult::Success))
            &&& served(getting, connected, between, get_trace) matches Some((answer, _)) && answer
                == ReplyModel::Get(Ok(found))
        },
    ensures
        found is Some,
        !has_key(rows, key) ==> found == Some(value),
{
    let between = (served(putting, connected, rows, put_trace)->0).1;
    law_put_adds_a_row(putting, connected, rows, put_trace, key, value, should_overwrite);
    law_get_reads_a_row(getting, connected, between, get_trace, key);
    assert(between.last() == Row { key, value });
    assert(between.contains(Row { key, value }));
    assert(has_key(between, key));
    if found is Some && !has_key(rows, key) {
        let row = Row { key, value: found->0 };
        lemma_seq_contains_after_push(rows, Row { key, value }, row);
    }
}

/// A get after a remove of its key, or after a clear, that succeeded finds nothing.
pub proof fn law_get_after_remove(
    removing: Progress,
    getting: Progress,
    connected: Set<Seq<char>>,
    rows: Seq<Row>,
    trace: Seq<(EventModel, Seq<Row>)>,
    get_trace: Seq<(EventModel, Seq<Row>)>,
    key: Seq<u8>,
    found: Option<Seq<u8>>,
)
    requires
        is_at(removing, OperationModel::RemoveItem { key }) || is_at(
            removing,
            OperationModel::Clear,
        ),
        is_at(getting, OperationModel::GetItem { key }),
        served(removing, connected, rows, trace) matches Some((reply, between)) && {
            &&& reply == ReplyModel::Removed(Ok(())) || reply == ReplyModel::Cleared(Ok(()))
            &&& served(getting, connected, between, get_trace) matches Some((answer, _)) && answer
                == ReplyModel::Get(Ok(found))
        },
    ensures
        found is None,
{
    let between = (served(removing, connected, rows, trace)->0).1;
    if is_at(removing, OperationModel::Clear) {
        law_clear_takes_all_rows(removing, connected, rows, trace);
    } else {
        law_remove_takes_the_rows_of_its_key(
            removing,
            connected,
            rows,
            trace,
            key,
            Row { key, value: Seq::empty() },
        );
    }
    law_get_reads_a_row(getting, connected, between, get_trace, key);
    if found is Some {
        assert(between.contains(Row { key, value: found->0 }));
        assert(has_key(between, key));
    }
}

} // verus!
