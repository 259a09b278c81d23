//! What a transaction does about each request: which queries it runs, in which order, and what it
//! replies. Nothing here supposes that a reply was reached.
use crate::net::indexeddb::engines::rows::{
    answers, has_key, is_at, replies, served, without_key, Row,
};
use crate::net::indexeddb::engines::transaction::{
    fits, ActionModel, AsyncOperation, EventModel, KvsRequest, OperationModel, Phase, Progress,
    PutItemResult, Query, QueryModel, Reply, ReplyModel,
};
use vstd::prelude::*;

verus! {

/// Whether a transaction is about to begin this operation on an object store that is connected.
pub open spec fn can_begin(
    progress: Progress,
    connected: Set<Seq<char>>,
    operation: OperationModel,
) -> bool {
    is_at(progress, operation) && connected.contains(progress.current().store)
}

/// Whether a transaction has left a request behind it and is about to begin the next one.
pub open spec fn has_moved_on(before: Progress, after: Progress) -> bool {
    &&& after.requests == before.requests
    &&& after.next == before.next + 1
    &&& after.phase == Phase::Ready
}

/// A transaction ends with nothing exactly where it comes to a request whose object store is not
/// connected, and it ends otherwise exactly where all requests are done or it was given up.
pub proof fn law_only_an_unconnected_store_ends_with_nothing(
    progress: Progress,
    connected: Set<Seq<char>>,
    event: EventModel,
)
    requires
        progress.valid(),
        fits(progress.phase, event),
    ensures
        progress.after(connected, event).1 == ActionModel::EndWithNothing <==> progress.phase
            == Phase::Ready && progress.next < progress.requests.len() && !connected.contains(
            progress.requests[progress.next as int].store,
        ),
        progress.after(connected, event).1 == ActionModel::End <==> progress.phase == Phase::Ended
            || (progress.phase == Phase::Ready && progress.next == progress.requests.len()),
{
}

/// A put that may overwrite adds a row with its key and its value, whatever is there, and replies
/// what came of that.
pub proof fn law_overwriting_put_inserts(
    progress: Progress,
    connected: Set<Seq<char>>,
    key: Seq<u8>,
    value: Seq<u8>,
    done: Result<(), Seq<char>>,
)
    requires
        can_begin(
            progress,
            connected,
            OperationModel::PutItem { key: Ok(key), value, should_overwrite: true },
        ),
    ensures
        ({
            let begun = progress.after(connected, EventModel::Proceed);
            let ended = begun.0.after(connected, EventModel::Done(done));
            &&& begun.1 == ActionModel::Query(QueryModel::Insert { key, value })
            &&& fits(begun.0.phase, EventModel::Done(done))
            &&& done is Ok ==> ended.1 == ActionModel::Reply(
                ReplyModel::Put(Ok(PutItemResult::Success)),
            )
            &&& done matches Err(text) ==> ended.1 == ActionModel::Reply(
                ReplyModel::Put(Err(text)),
            )
            &&& has_moved_on(progress, ended.0)
        }),
{
}

/// A put that may not overwrite first looks for its key. Where there is no row with it, it adds one
/// with its key and its value, and replies what came of that; where there is one, it adds none and
/// replies that it may not overwrite.
pub proof fn law_careful_put_looks_first(
    progress: Progress,
    connected: Set<Seq<char>>,
    key: Seq<u8>,
    value: Seq<u8>,
    there: Seq<u8>,
    done: Result<(), Seq<char>>,
)
    requires
        can_begin(
            progress,
            connected,
            OperationModel::PutItem { key: Ok(key), value, should_overwrite: false },
        ),
    ensures
        ({
            let begun = progress.after(connected, EventModel::Proceed);
            let free = begun.0.after(connected, EventModel::Found(Ok(None)));
            let taken = begun.0.after(connected, EventModel::Found(Ok(Some(there))));
            let ended = free.0.after(connected, EventModel::Done(done));
            &&& begun.1 == ActionModel::Query(QueryModel::Find(key))
            &&& fits(begun.0.phase, EventModel::Found(Ok(None)))
            &&& fits(begun.0.phase, EventModel::Found(Ok(Some(there))))
            &&& free.1 == ActionModel::Query(QueryModel::Insert { key, value })
            &&& fits(free.0.phase, EventModel::Done(done))
            &&& done is Ok ==> ended.1 == ActionModel::Reply(
                ReplyModel::Put(Ok(PutItemResult::Success)),
            )
            &&& done matches Err(text) ==> ended.1 == ActionModel::Reply(
                ReplyModel::Put(Err(text)),
            )
            &&& has_moved_on(progress, ended.0)
            &&& taken.1 == ActionModel::Reply(ReplyModel::Put(Ok(PutItemResult::CannotOverwrite)))
            &&& has_moved_on(progress, taken.0)
        }),
{
}

/// A put whose key could not be serialized is told why, and no request after it is begun.
pub proof fn law_put_without_a_key_gives_up(
    progress: Progress,
    connected: Set<Seq<char>>,
    text: Seq<char>,
    value: Seq<u8>,
    should_overwrite: bool,
)
    requires
        can_begin(
            progress,
            connected,
            OperationModel::PutItem { key: Err(text), value, should_overwrite },
        ),
    ensures
        ({
            let begun = progress.after(connected, EventModel::Proceed);
            &&& begun.1 == ActionModel::Reply(ReplyModel::Put(Err(text)))
            &&& begun.0.after(connected, EventModel::Proceed).1 == ActionModel::End
        }),
{
}

/// A get looks for its key and replies what was found, or why nothing could be.
pub proof fn law_get_replies_what_is_found(
    progress: Progress,
    connected: Set<Seq<char>>,
    key: Seq<u8>,
    found: Result<Option<Seq<u8>>, Seq<char>>,
)
    requires
        can_begin(progress, connected, OperationModel::GetItem { key }),
    ensures
        ({
            let begun = progress.after(connected, EventModel::Proceed);
            let ended = begun.0.after(connected, EventModel::Found(found));
            &&& begun.1 == ActionModel::Query(QueryModel::Find(key))
            &&& fits(begun.0.phase, EventModel::Found(found))
            &&& ended.1 == ActionModel::Reply(ReplyModel::Get(found))
            &&& has_moved_on(progress, ended.0)
        }),
{
}

/// A remove deletes the rows with its key, a clear deletes all rows, and each replies what came of
/// it.
pub proof fn law_removals_reply_what_came_of_them(
    progress: Progress,
    connected: Set<Seq<char>>,
    key: Seq<u8>,
    done: Result<(), Seq<char>>,
)
    ensures
        ({
            let begun = progress.after(connected, EventModel::Proceed);
            let ended = begun.0.after(connected, EventModel::Done(done));
            &&& can_begin(progress, connected, OperationModel::RemoveItem { key }) ==> {
                &&& begun.1 == ActionModel::Query(QueryModel::DeleteKey(key))
                &&& fits(begun.0.phase, EventModel::Done(done))
                &&& ended.1 == ActionModel::Reply(ReplyModel::Removed(done))
                &&& has_moved_on(progress, ended.0)
            }
            &&& can_begin(progress, connected, OperationModel::Clear) ==> {
                &&& begun.1 == ActionModel::Query(QueryModel::DeleteAll)
                &&& fits(begun.0.phase, EventModel::Done(done))
                &&& ended.1 == ActionModel::Reply(ReplyModel::Cleared(done))
                &&& has_moved_on(progress, ended.0)
            }
        }),
{
}

/// A count reads all rows, replies zero where that succeeds, and replies why it did not otherwise.
pub proof fn law_count_reads_all_rows(
    progress: Progress,
    connected: Set<Seq<char>>,
    fetched: Result<Seq<bool>, Seq<char>>,
)
    requires
        can_begin(progress, connected, OperationModel::Count),
    ensures
        ({
            let begun = progress.after(connected, EventModel::Proceed);
            let ended = begun.0.after(connected, EventModel::Fetched(fetched));
            &&& begun.1 == ActionModel::Query(QueryModel::FetchAll)
            &&& fits(begun.0.phase, EventModel::Fetched(fetched))
            &&& fetched is Ok ==> ended.1 == ActionModel::Reply(ReplyModel::Counted(Ok(0u64)))
            &&& fetched matches Err(text) ==> ended.1 == ActionModel::Reply(
                ReplyModel::Counted(Err(text)),
            )
            &&& has_moved_on(progress, ended.0)
        }),
{
}

/// Where the table answers, each request on a connected object store is served: a put leaves its row
/// in the table unless it may not overwrite and there is one with its key, a get gives the value of
/// a row, a remove and a clear take their rows, and each is told so.
pub proof fn law_requests_are_served(
    progress: Progress,
    connected: Set<Seq<char>>,
    rows: Seq<Row>,
    key: Seq<u8>,
    value: Seq<u8>,
)
    ensures
        can_begin(
            progress,
            connected,
            OperationModel::PutItem { key: Ok(key), value, should_overwrite: true },
        ) ==> served(
            progress,
            connected,
            rows,
            seq![(EventModel::Done(Ok(())), rows.push(Row { key, value }))],
        ) == Some(
            (ReplyModel::Put(Ok(PutItemResult::Success)), rows.push(Row { key, value })),
        ),
        can_begin(
            progress,
            connected,
            OperationModel::PutItem { key: Ok(key), value, should_overwrite: false },
        ) && !has_key(rows, key) ==> served(
            progress,
            connected,
            rows,
            seq![
                (EventModel::Found(Ok(None)), rows),
                (EventModel::Done(Ok(())), rows.push(Row { key, value })),
            ],
        ) == Some(
            (ReplyModel::Put(Ok(PutItemResult::Success)), rows.push(Row { key, value })),
        ),
        can_begin(progress, connected, OperationModel::GetItem { key }) && rows.contains(
            Row { key, value },
        ) ==> served(
            progress,
            connected,
            rows,
            seq![(EventModel::Found(Ok(Some(value))), rows)],
        ) == Some((ReplyModel::Get(Ok(Some(value))), rows)),
        can_begin(progress, connected, OperationModel::GetItem { key }) && !has_key(rows, key)
            ==> served(
            progress,
            connected,
            rows,
            seq![(EventModel::Found(Ok(None)), rows)],
        ) == Some((ReplyModel::Get(Ok(None)), rows)),
        can_begin(progress, connected, OperationModel::RemoveItem { key }) ==> served(
            progress,
            connected,
            rows,
            seq![(EventModel::Done(Ok(())), without_key(rows, key))],
        ) == Some((ReplyModel::Removed(Ok(())), without_key(rows, key))),
        can_begin(progress, connected, OperationModel::Clear) ==> served(
            progress,
            connected,
            rows,
            seq![(EventModel::Done(Ok(())), Seq::empty())],
        ) == Some((ReplyModel::Cleared(Ok(())), Seq::<Row>::empty())),
{
    let full = rows.push(Row { key, value });
    lemma_one_answer(progress, connected, rows, EventModel::Done(Ok(())), full);
    lemma_one_answer(progress, connected, rows, EventModel::Found(Ok(Some(value))), rows);
    lemma_one_answer(progress, connected, rows, EventModel::Found(Ok(None)), rows);
    lemma_one_answer(
        progress,
        connected,
        rows,
        EventModel::Done(Ok(())),
        without_key(rows, key),
    );
    lemma_one_answer(progress, connected, rows, EventModel::Done(Ok(())), Seq::empty());
    let trace = seq![
        (EventModel::Found(Ok(None)), rows),
        (EventModel::Done(Ok(())), full),
    ];
    if can_begin(
        progress,
        connected,
        OperationModel::PutItem { key: Ok(key), value, should_overwrite: false },
    ) && !has_key(rows, key) {
        let begun = progress.after(connected, EventModel::Proceed);
        let free = begun.0.after(connected, EventModel::Found(Ok(None)));
        let ended = free.0.after(connected, EventModel::Done(Ok(())));
        let rest = trace.skip(1);
        assert(rest.len() == 1 && rest[0] == trace[1]);
        assert(rest.skip(1).len() == 0);
        assert(replies(
            ended,
            connected,
            full,
            rest.skip(1),
        ) == Some((ReplyModel::Put(Ok(PutItemResult::Success)), full)));
        assert(replies(free, connected, rows, rest) == Some(
            (ReplyModel::Put(Ok(PutItemResult::Success)), full),
        ));
    }
}

/// A query that is followed by a reply is served by its one answer.
proof fn lemma_one_answer(
    progress: Progress,
    connected: Set<Seq<char>>,
    rows: Seq<Row>,
    event: EventModel,
    after: Seq<Row>,
)
    ensures
        ({
            let begun = progress.after(connected, EventModel::Proceed);
            let ended = begun.0.after(connected, event);
            begun.1 matches ActionModel::Query(query) && fits(begun.0.phase, event) && answers(
                rows,
                query,
                event,
                after,
            ) ==> (ended.1 matches ActionModel::Reply(reply) ==> served(
                progress,
                connected,
                rows,
                seq![(event, after)],
            ) == Some((reply, after)))
        }),
{
    let begun = progress.after(connected, EventModel::Proceed);
    let ended = begun.0.after(connected, event);
    let trace = seq![(event, after)];
    assert(trace.skip(1).len() == 0);
    if let ActionModel::Reply(reply) = ended.1 {
        assert(replies(
            ended,
            connected,
            after,
            trace.skip(1),
        ) == Some((reply, after)));
    }
}

/// A request stands for its own object store, key and value, a query for its own key and value, and a
/// reply for what it tells.
pub proof fn law_requests_stand_for_their_fields(
    request: KvsRequest,
    key: Vec<u8>,
    value: Vec<u8>,
    text: String,
    should_overwrite: bool,
)
    ensures
        request@.store == request.store_name@,
        request@.operation == request.operation@,
        (AsyncOperation::PutItem { key: Ok(key), value, should_overwrite })@
            == (OperationModel::PutItem { key: Ok(key@), value: value@, should_overwrite }),
        (AsyncOperation::PutItem { key: Err(text), value, should_overwrite })@
            == (OperationModel::PutItem { key: Err(text@), value: value@, should_overwrite }),
        (AsyncOperation::GetItem { key })@ == (OperationModel::GetItem { key: key@ }),
        (AsyncOperation::RemoveItem { key })@ == (OperationModel::RemoveItem { key: key@ }),
        AsyncOperation::Count@ == OperationModel::Count,
        AsyncOperation::Clear@ == OperationModel::Clear,
        Query::Find(key)@ == QueryModel::Find(key@),
        (Query::Insert { key, value })@ == (QueryModel::Insert { key: key@, value: value@ }),
        Query::DeleteKey(key)@ == QueryModel::DeleteKey(key@),
        Query::FetchAll@ == QueryModel::FetchAll,
        Query::DeleteAll@ == QueryModel::DeleteAll,
        Reply::Put(Ok(PutItemResult::Success))@ == ReplyModel::Put(Ok(PutItemResult::Success)),
        Reply::Put(Ok(PutItemResult::CannotOverwrite))@ == ReplyModel::Put(
            Ok(PutItemResult::CannotOverwrite),
        ),
        Reply::Put(Err(text))@ == ReplyModel::Put(Err(text@)),
        Reply::Get(Ok(Some(value)))@ == ReplyModel::Get(Ok(Some(value@))),
        Reply::Get(Ok(None))@ == ReplyModel::Get(Ok(None)),
        Reply::Get(Err(text))@ == ReplyModel::Get(Err(text@)),
        Reply::Removed(Err(text))@ == ReplyModel::Removed(Err(text@)),
        Reply::Cleared(Err(text))@ == ReplyModel::Cleared(Err(text@)),
        Reply::Counted(Err(text))@ == ReplyModel::Counted(Err(text@)),
        Reply::Counted(Ok(0u64))@ == ReplyModel::Counted(Ok(0u64)),
{
}

} // verus!
