//! How the SQLite engine runs a transaction: request by request, each by a query or two on the
//! table of its object store, each with one reply. Keys are handled in their serialized form.
use crate::net::indexeddb::engines::sqlite::SqliteEngine;
use crate::text::clone_bytes;
use itertools::Itertools;
use vstd::prelude::*;

verus! {

/// What a request of a transaction asks for.
#[allow(inconsistent_fields)]
pub enum AsyncOperation {
    /// Put a value under a key, whose serialization may have failed.
    PutItem { key: Result<Vec<u8>, String>, value: Vec<u8>, should_overwrite: bool },
    GetItem { key: Vec<u8> },
    RemoveItem { key: Vec<u8> },
    /// Count the records whose keys lie in a range.
    Count,
    Clear,
}

/// What an `AsyncOperation` stands for.
#[allow(inconsistent_fields)]
pub enum OperationModel {
    PutItem { key: Result<Seq<u8>, Seq<char>>, value: Seq<u8>, should_overwrite: bool },
    GetItem { key: Seq<u8> },
    RemoveItem { key: Seq<u8> },
    Count,
    Clear,
}

impl View for AsyncOperation {
    type V = OperationModel;

    open spec fn view(&self) -> OperationModel {
        match self {
            AsyncOperation::PutItem { key, value, should_overwrite } => OperationModel::PutItem {
                key: match *key {
                    Ok(bytes) => Ok(bytes@),
                    Err(text) => Err(text@),
                },
                value: value@,
                should_overwrite: *should_overwrite,
            },
            AsyncOperation::GetItem { key } => OperationModel::GetItem { key: key@ },
            AsyncOperation::RemoveItem { key } => OperationModel::RemoveItem { key: key@ },
            AsyncOperation::Count => OperationModel::Count,
            AsyncOperation::Clear => OperationModel::Clear,
        }
    }
}

/// A request of a transaction: an operation on one object store.
pub struct KvsRequest {
    pub store_name: String,
    pub operation: AsyncOperation,
}

/// What a `KvsRequest` stands for.
pub struct RequestModel {
    pub store: Seq<char>,
    pub operation: OperationModel,
}

impl View for KvsRequest {
    type V = RequestModel;

    open spec fn view(&self) -> RequestModel {
        RequestModel { store: self.store_name@, operation: self.operation@ }
    }
}

/// What came of a request to put a value.
#[derive(Clone, Copy, Debug, PartialEq, Eq, Structural)]
pub enum PutItemResult {
    Success,
    CannotOverwrite,
}

/// A query on the table of the object store that the current request is about.
pub enum Query {
    /// The value under a key.
    Find(Vec<u8>),
    /// Add a row.
    Insert { key: Vec<u8>, value: Vec<u8> },
    /// Delete the rows with a key.
    DeleteKey(Vec<u8>),
    /// All rows; for each, whether its key lies in the range that the request names.
    FetchAll,
    /// Delete all rows.
    DeleteAll,
}

/// What a `Query` stands for.
pub enum QueryModel {
    Find(Seq<u8>),
    Insert { key: Seq<u8>, value: Seq<u8> },
    DeleteKey(Seq<u8>),
    FetchAll,
    DeleteAll,
}

impl View for Query {
    type V = QueryModel;

    open spec fn view(&self) -> QueryModel {
        match self {
            Query::Find(key) => QueryModel::Find(key@),
            Query::Insert { key, value } => QueryModel::Insert { key: key@, value: value@ },
            Query::DeleteKey(key) => QueryModel::DeleteKey(key@),
            Query::FetchAll => QueryModel::FetchAll,
            Query::DeleteAll => QueryModel::DeleteAll,
        }
    }
}

/// The reply to a request.
pub enum Reply {
    Put(Result<PutItemResult, String>),
    Get(Result<Option<Vec<u8>>, String>),
    Removed(Result<(), String>),
    Counted(Result<u64, String>),
    Cleared(Result<(), String>),
}

/// What a `Reply` stands for.
pub enum ReplyModel {
    Put(Result<PutItemResult, Seq<char>>),
    Get(Result<Option<Seq<u8>>, Seq<char>>),
    Removed(Result<(), Seq<char>>),
    Counted(Result<u64, Seq<char>>),
    Cleared(Result<(), Seq<char>>),
}

/// What a value that may have been found stands for.
pub open spec fn found_model(found: Result<Option<Vec<u8>>, String>) -> Result<
    Option<Seq<u8>>,
    Seq<char>,
> {
    match found {
        Ok(Some(bytes)) => Ok(Some(bytes@)),
        Ok(None) => Ok(None),
        Err(text) => Err(text@),
    }
}

/// What a result that may be a failure stands for.
pub open spec fn text_model<T>(r: Result<T, String>) -> Result<T, Seq<char>> {
    match r {
        Ok(t) => Ok(t),
        Err(text) => Err(text@),
    }
}

impl View for Reply {
    type V = ReplyModel;

    open spec fn view(&self) -> ReplyModel {
        match self {
            Reply::Put(r) => ReplyModel::Put(text_model(*r)),
            Reply::Get(r) => ReplyModel::Get(found_model(*r)),
            Reply::Removed(r) => ReplyModel::Removed(text_model(*r)),
            Reply::Counted(r) => ReplyModel::Counted(text_model(*r)),
            Reply::Cleared(r) => ReplyModel::Cleared(text_model(*r)),
        }
    }
}

/// What the transaction waits for.
#[derive(Clone, Copy, Debug, PartialEq, Eq, Structural)]
pub enum Phase {
    /// To be told to go on with the next request.
    Ready,
    /// Whether there is a value under the key of a put.
    Existence,
    /// A row to be added.
    Insertion,
    /// The value under the key of a get.
    Value,
    /// The rows with the key of a remove to be deleted.
    Removal,
    /// All rows.
    Rows,
    /// All rows to be deleted.
    Clearance,
    /// Nothing more: it has ended.
    Ended,
}

/// What happened.
pub enum Event {
    /// Go on.
    Proceed,
    /// The result of `Find`.
    Found(Result<Option<Vec<u8>>, String>),
    /// The result of `Insert`, `DeleteKey` or `DeleteAll`.
    Done(Result<(), String>),
    /// The result of `FetchAll`.
    Fetched(Result<Vec<bool>, String>),
}

/// What an `Event` stands for.
pub enum EventModel {
    Proceed,
    Found(Result<Option<Seq<u8>>, Seq<char>>),
    Done(Result<(), Seq<char>>),
    Fetched(Result<Seq<bool>, Seq<char>>),
}

impl View for Event {
    type V = EventModel;

    open spec fn view(&self) -> EventModel {
        match self {
            Event::Proceed => EventModel::Proceed,
            Event::Found(r) => EventModel::Found(found_model(*r)),
            Event::Done(r) => EventModel::Done(text_model(*r)),
            Event::Fetched(r) => EventModel::Fetched(
                match *r {
                    Ok(flags) => Ok(flags@),
                    Err(text) => Err(text@),
                },
            ),
        }
    }
}

/// What is to be done next.
pub enum Action {
    /// Run a query on the table of the current request's object store, and come back with its
    /// result.
    Query(Query),
    /// Send the reply to the current request, and come back to proceed.
    Reply(Reply),
    /// Tell whoever waits for the transaction that it ended with nothing.
    EndWithNothing,
    /// Nothing: all requests are done, or the transaction was given up.
    End,
}

/// What an `Action` stands for.
pub enum ActionModel {
    Query(QueryModel),
    Reply(ReplyModel),
    EndWithNothing,
    End,
}

impl View for Action {
    type V = ActionModel;

    open spec fn view(&self) -> ActionModel {
        match self {
            Action::Query(q) => ActionModel::Query(q@),
            Action::Reply(r) => ActionModel::Reply(r@),
            Action::EndWithNothing => ActionModel::EndWithNothing,
            Action::End => ActionModel::End,
        }
    }
}

/// Asks `itertools::Itertools::try_len` for the length of a walk over the chosen items of a list.
/// What is claimed: such a walk knows no more of its length than that it is at most that of the
/// list, so `try_len` gives a length for the empty list only.
#[verifier::external_body]
fn chosen_len(chosen: &Vec<bool>) -> (r: Result<usize, (usize, Option<usize>)>)
    ensures
        r == if chosen@.len() == 0 {
            Ok::<usize, (usize, Option<usize>)>(0)
        } else {
            Err((0, Some(chosen@.len() as usize)))
        },
{
    chosen.iter().filter(|c| **c).try_len()
}

/// The count that is reported for the rows whose keys lie in the range asked for. The length of
/// the walk over them is not known in advance, and zero is reported for an unknown length.
pub fn reported_count(in_range: &Vec<bool>) -> (r: u64)
    ensures
        r == 0,
{
    match chosen_len(in_range) {
        Ok(count) => count as u64,
        Err(_) => 0,
    }
}

/// How far a transaction has come.
pub struct Progress {
    pub requests: Seq<RequestModel>,
    pub next: nat,
    pub phase: Phase,
}

/// The phase in which the transaction waits for an event of this kind. A failure to look up the
/// key of a put is not provided for.
pub open spec fn fits(phase: Phase, event: EventModel) -> bool {
    match event {
        EventModel::Proceed => phase == Phase::Ready || phase == Phase::Ended,
        EventModel::Found(r) => (phase == Phase::Existence && r is Ok) || phase == Phase::Value,
        EventModel::Done(_) => phase == Phase::Insertion || phase == Phase::Removal || phase
            == Phase::Clearance,
        EventModel::Fetched(_) => phase == Phase::Rows,
    }
}

impl Progress {
    /// Inside a request, that request is there and is of the kind that the phase belongs to.
    pub open spec fn valid(self) -> bool {
        &&& self.next <= self.requests.len()
        &&& self.phase == Phase::Ready || self.phase == Phase::Ended || {
            &&& self.next < self.requests.len()
            &&& match self.current().operation {
                OperationModel::PutItem { key, should_overwrite, .. } => {
                    &&& key is Ok
                    &&& self.phase == Phase::Insertion || (self.phase == Phase::Existence
                        && !should_overwrite)
                },
                OperationModel::GetItem { .. } => self.phase == Phase::Value,
                OperationModel::RemoveItem { .. } => self.phase == Phase::Removal,
                OperationModel::Count => self.phase == Phase::Rows,
                OperationModel::Clear => self.phase == Phase::Clearance,
            }
        }
    }

    /// The request that the transaction is at.
    pub open spec fn current(self) -> RequestModel {
        self.requests[self.next as int]
    }

    /// The same request, waited for in another phase.
    pub open spec fn waiting(self, phase: Phase) -> Progress {
        Progress { requests: self.requests, next: self.next, phase }
    }

    /// The current request done.
    pub open spec fn replied(self) -> Progress {
        Progress { requests: self.requests, next: self.next + 1, phase: Phase::Ready }
    }

    /// The first thing done about the current request. `connected` holds the object stores that
    /// have a connection.
    pub open spec fn begun(self, connected: Set<Seq<char>>) -> (Progress, ActionModel) {
        if !connected.contains(self.current().store) {
            (self.waiting(Phase::Ended), ActionModel::EndWithNothing)
        } else {
            match self.current().operation {
                OperationModel::PutItem { key, value, should_overwrite } => match key {
                    Err(text) => (
                        self.waiting(Phase::Ended),
                        ActionModel::Reply(ReplyModel::Put(Err(text))),
                    ),
                    Ok(key) => if should_overwrite {
                        (
                            self.waiting(Phase::Insertion),
                            ActionModel::Query(QueryModel::Insert { key, value }),
                        )
                    } else {
                        (
                            self.waiting(Phase::Existence),
                            ActionModel::Query(QueryModel::Find(key)),
                        )
                    },
                },
                OperationModel::GetItem { key } => (
                    self.waiting(Phase::Value),
                    ActionModel::Query(QueryModel::Find(key)),
                ),
                OperationModel::RemoveItem { key } => (
                    self.waiting(Phase::Removal),
                    ActionModel::Query(QueryModel::DeleteKey(key)),
                ),
                OperationModel::Count => (
                    self.waiting(Phase::Rows),
                    ActionModel::Query(QueryModel::FetchAll),
                ),
                OperationModel::Clear => (
                    self.waiting(Phase::Clearance),
                    ActionModel::Query(QueryModel::DeleteAll),
                ),
            }
        }
    }

    /// Where an event takes the transaction, and what is to be done about it.
    pub open spec fn after(
        self,
        connected: Set<Seq<char>>,
        event: EventModel,
    ) -> (Progress, ActionModel) {
        match event {
            EventModel::Proceed => if self.phase == Phase::Ended || self.next
                == self.requests.len() {
                (self.waiting(Phase::Ended), ActionModel::End)
            } else {
                self.begun(connected)
            },
            EventModel::Found(found) => if self.phase == Phase::Existence {
                if found == Ok::<Option<Seq<u8>>, Seq<char>>(None) {
                    (
                        self.waiting(Phase::Insertion),
                        ActionModel::Query(
                            QueryModel::Insert {
                                key: self.current().operation->PutItem_key->Ok_0,
                                value: self.current().operation->PutItem_value,
                            },
                        ),
                    )
                } else {
                    (
                        self.replied(),
                        ActionModel::Reply(ReplyModel::Put(Ok(PutItemResult::CannotOverwrite))),
                    )
                }
            } else {
                (self.replied(), ActionModel::Reply(ReplyModel::Get(found)))
            },
            EventModel::Done(done) => (
                self.replied(),
                ActionModel::Reply(
                    match self.phase {
                        Phase::Insertion => ReplyModel::Put(
                            match done {
                                Ok(_) => Ok(PutItemResult::Success),
                                Err(text) => Err(text),
                            },
                        ),
                        Phase::Removal => ReplyModel::Removed(done),
                        _ => ReplyModel::Cleared(done),
                    },
                ),
            ),
            EventModel::Fetched(fetched) => (
                self.replied(),
                ActionModel::Reply(
                    ReplyModel::Counted(
                        match fetched {
                            Ok(_) => Ok(0),
                            Err(text) => Err(text),
                        },
                    ),
                ),
            ),
        }
    }
}

/// A transaction that is being run.
pub struct RunningTransaction {
    requests: Vec<KvsRequest>,
    next: usize,
    phase: Phase,
}

impl View for RunningTransaction {
    type V = Progress;

    closed spec fn view(&self) -> Progress {
        Progress {
            requests: self.requests@.map_values(|r: KvsRequest| r@),
            next: self.next as nat,
            phase: self.phase,
        }
    }
}

impl RunningTransaction {
    /// A transaction at its first request.
    pub fn new(requests: Vec<KvsRequest>) -> (r: Self)
        ensures
            r@ == (Progress {
                requests: requests@.map_values(|r: KvsRequest| r@),
                next: 0,
                phase: Phase::Ready,
            }),
            r@.valid(),
    {
        RunningTransaction { requests, next: 0, phase: Phase::Ready }
    }

    /// What the transaction waits for.
    pub fn phase(&self) -> (r: Phase)
        ensures
            r == self@.phase,
    {
        self.phase
    }

    fn wait(&mut self, phase: Phase)
        ensures
            final(self)@ == old(self)@.waiting(phase),
            final(self).requests == old(self).requests,
    {
        self.phase = phase;
    }

    fn reply(&mut self, reply: Reply) -> (r: Action)
        requires
            old(self)@.next < old(self)@.requests.len(),
        ensures
            final(self)@ == old(self)@.replied(),
            r@ == ActionModel::Reply(reply@),
    {
        assert(self.requests@.len() == self.requests.len());
        self.next = self.next + 1;
        self.phase = Phase::Ready;
        Action::Reply(reply)
    }

    fn begin(&mut self, engine: &SqliteEngine) -> (r: Action)
        requires
            old(self)@.valid(),
            old(self)@.phase == Phase::Ready,
            old(self)@.next < old(self)@.requests.len(),
        ensures
            (final(self)@, r@) == old(self)@.begun(engine@.connections),
            final(self)@.valid(),
    {
        let request = &self.requests[self.next];
        assert(request@ == self@.current());
        if !engine.is_connected(&request.store_name) {
            self.wait(Phase::Ended);
            return Action::EndWithNothing;
        }
        match &request.operation {
            AsyncOperation::PutItem { key, value, should_overwrite } => match key {
                Err(text) => {
                    let text = text.clone();
                    self.wait(Phase::Ended);
                    Action::Reply(Reply::Put(Err(text)))
                },
                Ok(key) => {
                    let key = clone_bytes(key);
                    if *should_overwrite {
                        let value = clone_bytes(value);
                        self.wait(Phase::Insertion);
                        Action::Query(Query::Insert { key, value })
                    } else {
                        self.wait(Phase::Existence);
                        Action::Query(Query::Find(key))
                    }
                },
            },
            AsyncOperation::GetItem { key } => {
                let key = clone_bytes(key);
                self.wait(Phase::Value);
                Action::Query(Query::Find(key))
            },
            AsyncOperation::RemoveItem { key } => {
                let key = clone_bytes(key);
                self.wait(Phase::Removal);
                Action::Query(Query::DeleteKey(key))
            },
            AsyncOperation::Count => {
                self.wait(Phase::Rows);
                Action::Query(Query::FetchAll)
            },
            AsyncOperation::Clear => {
                self.wait(Phase::Clearance);
                Action::Query(Query::DeleteAll)
            },
        }
    }

    /// Takes note of what happened and tells what is to be done next.
    pub fn process(&mut self, engine: &SqliteEngine, event: Event) -> (r: Action)
        requires
            old(self)@.valid(),
            fits(old(self)@.phase, event@),
        ensures
            (final(self)@, r@) == old(self)@.after(engine@.connections, event@),
            final(self)@.valid(),
    {
        match event {
            Event::Proceed => {
                if self.phase == Phase::Ended || self.next == self.requests.len() {
                    self.wait(Phase::Ended);
                    Action::End
                } else {
                    self.begin(engine)
                }
            },
            Event::Found(found) => {
                if self.phase == Phase::Existence {
                    let there = match &found {
                        Ok(Some(_)) => true,
                        _ => false,
                    };
                    if there {
                        self.reply(Reply::Put(Ok(PutItemResult::CannotOverwrite)))
                    } else {
                        let request = &self.requests[self.next];
                        assert(request@ == self@.current());
                        match &request.operation {
                            AsyncOperation::PutItem { key: Ok(key), value, .. } => {
                                let key = clone_bytes(key);
                                let value = clone_bytes(value);
                                self.wait(Phase::Insertion);
                                Action::Query(Query::Insert { key, value })
                            },
                            _ => {
                                assert(false);
                                Action::End
                            },
                        }
                    }
                } else {
                    self.reply(Reply::Get(found))
                }
            },
            Event::Done(done) => match self.phase {
                Phase::Insertion => match done {
                    Ok(()) => self.reply(Reply::Put(Ok(PutItemResult::Success))),
                    Err(text) => self.reply(Reply::Put(Err(text))),
                },
                Phase::Removal => self.reply(Reply::Removed(done)),
                _ => self.reply(Reply::Cleared(done)),
            },
            Event::Fetched(fetched) => match fetched {
                Ok(in_range) => {
                    let count = reported_count(&in_range);
                    self.reply(Reply::Counted(Ok(count)))
                },
                Err(text) => self.reply(Reply::Counted(Err(text))),
            },
        }
    }
}

/// A row is only ever added for a put, and with the key and the value of that put; and unless
/// the put may overwrite, only after it was found that there is no value under its key.
pub proof fn law_put_respects_what_is_there(
    progress: Progress,
    connected: Set<Seq<char>>,
    event: EventModel,
    key: Seq<u8>,
    value: Seq<u8>,
)
    requires
        progress.valid(),
        fits(progress.phase, event),
        progress.after(connected, event).1 == ActionModel::Query(QueryModel::Insert { key, value }),
    ensures
        progress.next < progress.requests.len(),
        progress.current().operation matches OperationModel::PutItem {
            key: k,
            value: v,
            should_overwrite,
        } && k == Ok::<Seq<u8>, Seq<char>>(key) && v == value && (should_overwrite || event
            == EventModel::Found(Ok(None))),
{
}

/// Each request gets one reply: a reply is only sent by the request that the transaction is at,
/// and it moves on to the next with it, unless the key of a put could not be serialized, which
/// ends the transaction.
pub proof fn law_one_reply_per_request(
    progress: Progress,
    connected: Set<Seq<char>>,
    event: EventModel,
)
    requires
        progress.valid(),
        fits(progress.phase, event),
    ensures
        ({
            let (then, action) = progress.after(connected, event);
            &&& then.valid()
            &&& then.requests == progress.requests
            &&& action is Reply && then.phase != Phase::Ended ==> then == progress.replied()
            &&& !(action is Reply) ==> then.next == progress.next
            &&& action is Reply && then.phase == Phase::Ended ==> (
            progress.current().operation matches OperationModel::PutItem { key, .. } && key is Err)
        }),
{
}

/// How many more events a transaction can take in before it has ended.
pub open spec fn events_left(progress: Progress) -> int {
    4 * (progress.requests.len() - progress.next) + match progress.phase {
        Phase::Ended => 0int,
        Phase::Ready => 4int,
        Phase::Existence => 3int,
        _ => 2int,
    }
}

/// Every transaction ends: each event brings it closer to its end, until it has ended.
pub proof fn law_transaction_ends(
    progress: Progress,
    connected: Set<Seq<char>>,
    event: EventModel,
)
    requires
        progress.valid(),
        fits(progress.phase, event),
    ensures
        events_left(progress) >= 0,
        progress.phase == Phase::Ended ==> progress.after(connected, event) == (
            progress,
            ActionModel::End,
        ),
        progress.phase != Phase::Ended ==> progress.after(connected, event).0.phase == Phase::Ended
            || events_left(progress.after(connected, event).0) < events_left(progress),
{
}

} // verus!
