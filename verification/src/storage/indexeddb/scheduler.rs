//! The transactions of a database that wait to be run, and the order in which they are.
use crate::indexeddb::engine::TransactionModel;
use crate::indexeddb::types::IndexedDBTxnMode;
use crate::storage::indexeddb::engines::KvsTransaction;
use crate::text::texts;
use dashmap::DashMap;
use vstd::prelude::*;

verus! {

/// `dashmap::DashMap`, a map that threads can share.
#[verifier::external_type_specification]
#[verifier::external_body]
#[verifier::reject_recursive_types(K)]
#[verifier::reject_recursive_types(V)]
#[verifier::reject_recursive_types(S)]
pub struct ExDashMap<K, V, S>(DashMap<K, V, S>);

/// What a map of waiting transactions holds.
pub uninterp spec fn waiting(map: DashMap<u64, KvsTransaction>) -> Map<u64, KvsTransaction>;

/// Calls `DashMap::new`. What is claimed: the new map holds nothing.
#[verifier::external_body]
fn new_map() -> (r: DashMap<u64, KvsTransaction>)
    ensures
        (waiting(r) == Map::<u64, KvsTransaction>::empty()),
{
    DashMap::new()
}

/// Calls `DashMap::insert` on a map that nobody else holds. What is claimed: the map holds the
/// value under the key afterwards, in the place of any other that it had there, and is otherwise
/// as before.
#[verifier::external_body]
fn insert(map: &mut DashMap<u64, KvsTransaction>, id: u64, txn: KvsTransaction)
    ensures
        waiting(*final(map)) == waiting(*old(map)).insert(id, txn),
{
    map.insert(id, txn);
}

/// Calls `DashMap::remove` on a map that nobody else holds. What is claimed: the value under the
/// key comes back if there is one, the key is gone, and the map is otherwise as before.
#[verifier::external_body]
fn remove(map: &mut DashMap<u64, KvsTransaction>, id: u64) -> (r: Option<KvsTransaction>)
    ensures
        waiting(*final(map)) == waiting(*old(map)).remove(id),
        r == if waiting(*old(map)).contains_key(id) {
            Some(waiting(*old(map))[id])
        } else {
            None
        },
{
    map.remove(&id).map(|entry| entry.1)
}

/// Walks `DashMap::iter` on a map that nobody else holds and keeps the keys. What is claimed:
/// these are the keys of the map, each once, in whatever order; the map stays as it is.
#[verifier::external_body]
fn keys(map: &mut DashMap<u64, KvsTransaction>) -> (r: Vec<u64>)
    ensures
        waiting(*final(map)) == waiting(*old(map)),
        forall|id: u64| r@.contains(id) <==> waiting(*old(map)).contains_key(id),
        r@.no_duplicates(),
{
    map.iter().map(|entry| *entry.key()).collect()
}

/// The transactions that wait, by their numbers, the last number given out, and the number of the
/// transaction that is being run, if there is one.
pub struct QueueModel {
    pub waiting: Map<u64, TransactionModel>,
    pub last: u64,
    pub running: Option<u64>,
}

impl QueueModel {
    /// A queue with nothing in it, no number given out and nothing being run.
    pub open spec fn initial() -> QueueModel {
        QueueModel { waiting: Map::empty(), last: 0, running: None }
    }

    /// No number is used that was not given out.
    pub open spec fn valid(self) -> bool {
        forall|id: u64| #[trigger] self.waiting.contains_key(id) ==> 0 < id <= self.last
    }

    /// `id` is the lowest number among the transactions that wait.
    pub open spec fn is_next(self, id: u64) -> bool {
        &&& self.waiting.contains_key(id)
        &&& forall|other: u64| #[trigger] self.waiting.contains_key(other) ==> id <= other
    }
}

/// The transactions of one database that wait to be run, and the one that is.
pub struct TransactionQueue {
    transactions: DashMap<u64, KvsTransaction>,
    serial_number_counter: u64,
    running: Option<u64>,
}

impl View for TransactionQueue {
    type V = QueueModel;

    closed spec fn view(&self) -> QueueModel {
        QueueModel {
            waiting: waiting(self.transactions).map_values(|t: KvsTransaction| t@),
            last: self.serial_number_counter,
            running: self.running,
        }
    }
}

/// What the scheduler does next.
pub enum SchedulerAction {
    /// Leave the loop.
    Stop,
    /// Run a transaction to its end, and tell `ended` when it is there.
    Process(u64, KvsTransaction),
    /// Wait until a transaction is created.
    Wait,
    /// Wait until the transaction that is being run has ended.
    Busy,
}

/// What a `SchedulerAction` stands for.
pub enum TurnModel {
    Stop,
    Process(u64, TransactionModel),
    Wait,
    Busy,
}

impl View for SchedulerAction {
    type V = TurnModel;

    open spec fn view(&self) -> TurnModel {
        match self {
            SchedulerAction::Stop => TurnModel::Stop,
            SchedulerAction::Process(id, txn) => TurnModel::Process(*id, txn@),
            SchedulerAction::Wait => TurnModel::Wait,
            SchedulerAction::Busy => TurnModel::Busy,
        }
    }
}

/// What can happen to a queue.
pub enum QueueEvent {
    /// A transaction is created.
    Created(TransactionModel),
    /// The scheduler takes a turn, with this outcome.
    Turn { shutdown: bool, turn: TurnModel },
    /// The transaction that was being run has ended.
    Ended,
}

/// What an event does to a queue. Created transactions are numbered one after another. A turn takes
/// out the transaction with the lowest number, if none is being run; where one is, it waits for its
/// end, even to shut down.
pub open spec fn follows(before: QueueModel, event: QueueEvent, after: QueueModel) -> bool {
    match event {
        QueueEvent::Created(txn) => {
            &&& before.last < u64::MAX
            &&& after == (QueueModel {
                waiting: before.waiting.insert((before.last + 1) as u64, txn),
                last: (before.last + 1) as u64,
                running: before.running,
            })
        },
        QueueEvent::Turn { shutdown, turn } => if before.running is Some {
            turn == TurnModel::Busy && after == before
        } else if shutdown {
            turn == TurnModel::Stop && after == before
        } else {
            match turn {
                TurnModel::Wait => {
                    &&& before.waiting == Map::<u64, TransactionModel>::empty()
                    &&& after == before
                },
                TurnModel::Process(id, txn) => {
                    &&& before.is_next(id)
                    &&& txn == before.waiting[id]
                    &&& after == (QueueModel {
                        waiting: before.waiting.remove(id),
                        last: before.last,
                        running: Some(id),
                    })
                },
                _ => false,
            }
        },
        QueueEvent::Ended => after == (QueueModel { running: None, ..before }),
    }
}

impl TransactionQueue {
    /// A queue with nothing in it and no number given out.
    pub fn new() -> (r: Self)
        ensures
            r@.valid(),
            r@ == QueueModel::initial(),
    {
        let r = TransactionQueue { transactions: new_map(), serial_number_counter: 0, running: None };
        assert(r@.waiting =~= Map::empty());
        r
    }

    /// The last number given out: zero where none was.
    pub fn last_number(&self) -> (r: u64)
        ensures
            r == self@.last,
    {
        self.serial_number_counter
    }

    /// Puts a transaction into the queue under the next number, which it returns. The scheduler
    /// is to be notified.
    pub fn create_transaction(
        &mut self,
        mode: IndexedDBTxnMode,
        stores: Vec<String>,
        channel: u64,
    ) -> (r: u64)
        requires
            old(self)@.valid(),
            old(self)@.last < u64::MAX,
        ensures
            final(self)@.valid(),
            r == old(self)@.last + 1,
            !old(self)@.waiting.contains_key(r),
            follows(
                old(self)@,
                QueueEvent::Created(
                    TransactionModel { mode, stores: texts(stores@), start: None, channel },
                ),
                final(self)@,
            ),
    {
        self.serial_number_counter = self.serial_number_counter + 1;
        let id = self.serial_number_counter;
        let txn = KvsTransaction { mode, stores, channel };
        insert(&mut self.transactions, id, txn);
        assert(self@.waiting =~= old(self)@.waiting.insert(id, txn@));
        id
    }

    /// The number of the transaction that is next: the lowest.
    fn lowest(&mut self) -> (r: Option<u64>)
        ensures
            final(self)@ == old(self)@,
            waiting(final(self).transactions) == waiting(old(self).transactions),
            match r {
                Some(id) => old(self)@.is_next(id),
                None => old(self)@.waiting == Map::<u64, TransactionModel>::empty(),
            },
    {
        let ids = keys(&mut self.transactions);
        if ids.len() == 0 {
            proof {
                assert forall|id: u64| !old(self)@.waiting.contains_key(id) by {
                    assert(!ids@.contains(id));
                }
                assert(old(self)@.waiting =~= Map::<u64, TransactionModel>::empty());
            }
            return None;
        }
        let mut least: u64 = ids[0];
        let mut i: usize = 1;
        while i < ids.len()
            invariant
                1 <= i <= ids@.len(),
                ids@.contains(least),
                forall|j: int| 0 <= j < i ==> least <= ids@[j],
            decreases ids@.len() - i,
        {
            if ids[i] < least {
                least = ids[i];
            }
            i += 1;
        }
        proof {
            assert forall|other: u64| #[trigger]
                old(self)@.waiting.contains_key(other) implies least <= other by {
                assert(ids@.contains(other));
            }
        }
        Some(least)
    }

    /// One turn of the scheduler's loop: takes out the transaction with the lowest number, unless
    /// one is being run.
    pub fn next(&mut self, shutdown: bool) -> (r: SchedulerAction)
        requires
            old(self)@.valid(),
        ensures
            final(self)@.valid(),
            follows(old(self)@, QueueEvent::Turn { shutdown, turn: r@ }, final(self)@),
    {
        if self.running.is_some() {
            return SchedulerAction::Busy;
        }
        if shutdown {
            return SchedulerAction::Stop;
        }
        match self.lowest() {
            Some(id) => {
                let taken = remove(&mut self.transactions, id);
                assert(self@.waiting =~= old(self)@.waiting.remove(id));
                match taken {
                    Some(txn) => {
                        self.running = Some(id);
                        SchedulerAction::Process(id, txn)
                    },
                    None => {
                        assert(false);
                        SchedulerAction::Wait
                    },
                }
            },
            None => SchedulerAction::Wait,
        }
    }

    /// Takes note that the transaction that was being run has ended.
    pub fn ended(&mut self)
        requires
            old(self)@.valid(),
        ensures
            final(self)@.valid(),
            follows(old(self)@, QueueEvent::Ended, final(self)@),
    {
        self.running = None;
    }
}

/// Whether a queue went through these states by these events.
pub open spec fn is_history(states: Seq<QueueModel>, events: Seq<QueueEvent>) -> bool {
    &&& states.len() == events.len() + 1
    &&& states[0] == QueueModel::initial()
    &&& forall|i: int|
        0 <= i < events.len() ==> follows(states[i], #[trigger] events[i], states[i + 1])
}

/// Whether an event hands out the transaction with a number to be run.
pub open spec fn hands_out(event: QueueEvent, id: u64) -> bool {
    event matches QueueEvent::Turn { turn: TurnModel::Process(taken, _), .. } && taken == id
}

/// Whether the transaction that was being run ended at a time between two.
pub open spec fn ended_between(events: Seq<QueueEvent>, from: int, to: int) -> bool {
    exists|k: int| from < k < to && #[trigger] events[k] == QueueEvent::Ended
}

proof fn lemma_history_is_valid(states: Seq<QueueModel>, events: Seq<QueueEvent>, i: int)
    requires
        is_history(states, events),
        0 <= i < states.len(),
    ensures
        states[i].valid(),
    decreases i,
{
    if i > 0 {
        lemma_history_is_valid(states, events, i - 1);
        assert(follows(states[i - 1], events[i - 1], states[i - 1 + 1]));
    }
}

proof fn lemma_since(
    states: Seq<QueueModel>,
    events: Seq<QueueEvent>,
    from: int,
    id: u64,
    to: int,
)
    requires
        is_history(states, events),
        0 <= from < to < states.len(),
        hands_out(events[from], id),
    ensures
        states[to].running == Some(id) || ended_between(events, from, to),
        states[to].last >= id,
        forall|other: u64| #[trigger] states[to].waiting.contains_key(other) ==> id < other,
    decreases to,
{
    lemma_history_is_valid(states, events, from);
    lemma_history_is_valid(states, events, to - 1);
    assert(follows(states[to - 1], events[to - 1], states[to - 1 + 1]));
    if to > from + 1 {
        lemma_since(states, events, from, id, to - 1);
        if ended_between(events, from, to - 1) {
            let k = choose|k: int| from < k < to - 1 && #[trigger] events[k] == QueueEvent::Ended;
            assert(events[k] == QueueEvent::Ended);
            assert(ended_between(events, from, to));
        } else if events[to - 1] == QueueEvent::Ended {
            assert(ended_between(events, from, to));
        }
    }
}

/// Transactions are run one by one, in the order in which they were created: each that is handed
/// out has the lowest number among those that wait, between two that are handed out the first has
/// ended, and the second has the higher number, so that none is handed out twice.
pub proof fn law_run_one_by_one_in_order(
    states: Seq<QueueModel>,
    events: Seq<QueueEvent>,
    i: int,
    id: u64,
    j: int,
    later: u64,
)
    requires
        is_history(states, events),
        0 <= i < j < events.len(),
        hands_out(events[i], id),
        hands_out(events[j], later),
    ensures
        states[i].is_next(id),
        ended_between(events, i, j),
        id < later,
{
    assert(follows(states[i], events[i], states[i + 1]));
    assert(follows(states[j], events[j], states[j + 1]));
    lemma_since(states, events, i, id, j);
}

/// The scheduler stops only when it is to shut down, and not before the transaction that is being
/// run has ended.
pub proof fn law_stops_only_at_shutdown(before: QueueModel, shutdown: bool, after: QueueModel)
    requires
        follows(before, QueueEvent::Turn { shutdown, turn: TurnModel::Stop }, after),
    ensures
        shutdown,
        before.running is None,
        after == before,
{
}

} // verus!
