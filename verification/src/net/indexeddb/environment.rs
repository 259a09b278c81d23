//! The environment of an open database: its engine and the queue of its transactions.
use crate::indexeddb::engine::{answer, answered, EngineCall, StoreReply, StoreRequest, TransactionModel};
use crate::indexeddb::types::{
    backend_model, report, reported, BackendErrorModel, BackendResult, IndexedDBTxnMode,
};
use crate::keyed_map::StringMap;
use crate::net::indexeddb::engines::{KvsEngine, KvsTransaction};
use vstd::prelude::*;

verus! {

/// Whether a transaction may run next to the ones that hold the `locked` stores: one that only
/// reads, if no store of its scope is held by one that writes; any other, if no store of its
/// scope is held at all.
pub open spec fn startable(
    txn: TransactionModel,
    locked: Map<Seq<char>, IndexedDBTxnMode>,
) -> bool {
    forall|i: int|
        #![trigger txn.stores[i]]
        0 <= i < txn.stores.len() ==> (locked.contains_key(txn.stores[i]) ==> txn.mode
            == IndexedDBTxnMode::Readonly && locked[txn.stores[i]] == IndexedDBTxnMode::Readonly)
}

/// Whether a transaction may run next to the ones that hold the `locked` stores.
pub fn can_start(txn: &KvsTransaction, locked: &StringMap<IndexedDBTxnMode>) -> (r: bool)
    ensures
        r == startable(txn@, locked@),
{
    let mut i: usize = 0;
    while i < txn.stores.len()
        invariant
            i <= txn.stores@.len(),
            forall|j: int|
                #![trigger txn@.stores[j]]
                0 <= j < i ==> (locked@.contains_key(txn@.stores[j]) ==> txn.mode
                    == IndexedDBTxnMode::Readonly && locked@[txn@.stores[j]]
                    == IndexedDBTxnMode::Readonly),
        decreases txn.stores@.len() - i,
    {
        assert(txn@.stores[i as int] == txn.stores@[i as int]@);
        match locked.get(&txn.stores[i]) {
            Some(mode) => {
                if !(txn.mode == IndexedDBTxnMode::Readonly && *mode == IndexedDBTxnMode::Readonly) {
                    return false;
                }
            },
            None => {},
        }
        i += 1;
    }
    true
}

/// The transactions of a queue.
pub open spec fn queue(transactions: Seq<KvsTransaction>) -> Seq<TransactionModel> {
    transactions.map_values(|t: KvsTransaction| t@)
}

/// `i` is the place of the first transaction of the queue that may run.
pub open spec fn is_earliest(
    transactions: Seq<TransactionModel>,
    locked: Map<Seq<char>, IndexedDBTxnMode>,
    i: int,
) -> bool {
    &&& 0 <= i < transactions.len()
    &&& startable(transactions[i], locked)
    &&& forall|j: int| 0 <= j < i ==> !startable(#[trigger] transactions[j], locked)
}

/// The place of the first transaction of the queue that may run.
pub fn earliest(
    transactions: &Vec<KvsTransaction>,
    locked: &StringMap<IndexedDBTxnMode>,
) -> (r: Option<usize>)
    ensures
        match r {
            Some(i) => is_earliest(queue(transactions@), locked@, i as int),
            None => forall|j: int|
                0 <= j < transactions@.len() ==> !startable(
                    #[trigger] queue(transactions@)[j],
                    locked@,
                ),
        },
{
    let mut i: usize = 0;
    while i < transactions.len()
        invariant
            i <= transactions@.len(),
            forall|j: int| 0 <= j < i ==> !startable(#[trigger] queue(transactions@)[j], locked@),
        decreases transactions@.len() - i,
    {
        assert(queue(transactions@)[i as int] == transactions@[i as int]@);
        if can_start(&transactions[i], locked) {
            return Some(i);
        }
        i += 1;
    }
    None
}

/// A database as the manager sees it: the calls made of its engine, and its queue.
pub struct EnvironmentModel {
    pub calls: Seq<EngineCall>,
    pub transactions: Seq<TransactionModel>,
}

/// The engine of an open database and the transactions that wait for it, oldest first.
pub struct IndexedDBEnvironment<E: KvsEngine> {
    pub engine: E,
    pub transactions: Vec<KvsTransaction>,
}

impl<E: KvsEngine> View for IndexedDBEnvironment<E> {
    type V = EnvironmentModel;

    open spec fn view(&self) -> EnvironmentModel {
        EnvironmentModel { calls: self.engine.calls(), transactions: queue(self.transactions@) }
    }
}

/// The engine was asked which stores are held, and no transaction of the queue may run next to
/// the `locked` ones that it named.
pub open spec fn none_started(
    before: EnvironmentModel,
    after: EnvironmentModel,
    locked: Map<Seq<char>, IndexedDBTxnMode>,
) -> bool {
    &&& after.calls == before.calls.push(EngineCall::LockedStoreNames { result: locked })
    &&& after.transactions == before.transactions
    &&& forall|j: int|
        0 <= j < before.transactions.len() ==> !startable(
            #[trigger] before.transactions[j],
            locked,
        )
}

/// The engine was asked which stores are held, and the `i`th transaction of the queue, the first
/// that may run next to the `locked` ones that it named, was taken out and handed to it.
pub open spec fn started(
    before: EnvironmentModel,
    after: EnvironmentModel,
    locked: Map<Seq<char>, IndexedDBTxnMode>,
    i: int,
) -> bool {
    &&& is_earliest(before.transactions, locked, i)
    &&& after.transactions == before.transactions.remove(i)
    &&& after.calls == before.calls.push(EngineCall::LockedStoreNames { result: locked }).push(
        EngineCall::ProcessTransaction { transaction: before.transactions[i], result: None },
    )
}

/// One attempt to start a transaction next to the `locked` stores: the earliest of the queue
/// that may run was started, if there is one.
pub open spec fn attempted_next_to(
    before: EnvironmentModel,
    after: EnvironmentModel,
    locked: Map<Seq<char>, IndexedDBTxnMode>,
) -> bool {
    ||| none_started(before, after, locked)
    ||| exists|i: int| #[trigger] started(before, after, locked, i)
}

/// One attempt to start a transaction, next to whatever stores the engine named as held.
pub open spec fn attempted(before: EnvironmentModel, after: EnvironmentModel) -> bool {
    exists|locked: Map<Seq<char>, IndexedDBTxnMode>| #[trigger]
        attempted_next_to(before, after, locked)
}

impl<E: KvsEngine> IndexedDBEnvironment<E> {
    /// An environment on `engine` with nothing in its queue.
    pub fn new(engine: E) -> (r: Self)
        ensures
            r@ == (EnvironmentModel { calls: engine.calls(), transactions: Seq::empty() }),
    {
        let r = IndexedDBEnvironment { engine, transactions: Vec::new() };
        assert(queue(r.transactions@) =~= Seq::empty());
        r
    }

    /// Starts the earliest transaction of the queue that conflicts with no running one, if
    /// there is one.
    pub fn start_transaction(&mut self)
        ensures
            attempted(old(self)@, final(self)@),
    {
        let locked = self.engine.locked_store_names();
        let ghost held = locked@;
        match earliest(&self.transactions, &locked) {
            Some(index) => {
                let txn = self.transactions.remove(index);
                self.engine.process_transaction(txn);
                proof {
                    assert(queue(self.transactions@) =~= old(self)@.transactions.remove(
                        index as int,
                    ));
                    assert(started(old(self)@, self@, held, index as int));
                }
            },
            None => {
                assert(none_started(old(self)@, self@, held));
            },
        }
        assert(attempted_next_to(old(self)@, self@, held));
    }

    /// Answers a request on the object stores of this database.
    pub fn answer(&mut self, request: StoreRequest) -> (r: StoreReply)
        ensures
            final(self)@.transactions == old(self)@.transactions,
            final(self)@.calls == old(self)@.calls.push(final(self)@.calls.last()),
            answered(request@, final(self)@.calls.last(), r@),
    {
        answer(&mut self.engine, request)
    }

    /// Raises the version of the database to `version`, if that is higher than the version that
    /// it has, and tells the version that it has afterwards.
    pub fn upgrade_version(&mut self, version: u64) -> (r: BackendResult<u64>)
        ensures
            upgraded(old(self)@, version, final(self)@, backend_model(r)),
    {
        let current = match self.engine.version() {
            Ok(current) => current,
            Err(_) => 0,
        };
        if version > current {
            let _ = self.engine.set_version(version);
        }
        let last = self.engine.version();
        proof {
            let n = old(self)@.calls.len() as int;
            let after = self@.calls;
            if version > current {
                assert(after =~= old(self)@.calls + seq![after[n], after[n + 1], after[n + 2]]);
            } else {
                assert(after =~= old(self)@.calls + seq![after[n], after[n + 1]]);
            }
        }
        report(last)
    }
}

/// An attempt to raise the version of a database: its version was asked for, then set if the
/// one wanted is higher (an unknown version counts as none), then asked for again.
pub open spec fn upgraded(
    before: EnvironmentModel,
    version: u64,
    after: EnvironmentModel,
    reply: Result<u64, BackendErrorModel>,
) -> bool {
    let n = before.calls.len() as int;
    &&& after.transactions == before.transactions
    &&& after.calls.len() > n
    &&& after.calls[n] matches EngineCall::Version { result: current }
    &&& after.calls.last() matches EngineCall::Version { result: last }
    &&& reply == reported(last)
    &&& if version > (match current {
        Ok(v) => v,
        Err(_) => 0,
    }) {
        &&& after.calls.len() == n + 3
        &&& after.calls == before.calls + seq![
            after.calls[n],
            after.calls[n + 1],
            after.calls[n + 2],
        ]
        &&& after.calls[n + 1] matches EngineCall::SetVersion { version: v, .. }
        &&& v == version
    } else {
        &&& after.calls.len() == n + 2
        &&& after.calls == before.calls + seq![after.calls[n], after.calls[n + 1]]
    }
}

} // verus!
