//! Transactions and the engines that run them.
pub mod progress;
pub mod rows;
pub mod sqlite;
pub mod transaction;

use crate::indexeddb::engine::{EngineCall, StoreEngine, TransactionModel};
use crate::indexeddb::types::IndexedDBTxnMode;
use crate::keyed_map::StringMap;
use crate::text::texts;
use vstd::prelude::*;

verus! {

/// A transaction that waits to be run. `start` is the time at which it was registered, in
/// milliseconds since the Unix epoch; `channel` is the number of the channels on which its
/// operations come in and its state changes go out.
pub struct KvsTransaction {
    pub mode: IndexedDBTxnMode,
    pub stores: Vec<String>,
    pub start: i64,
    pub channel: u64,
}

impl View for KvsTransaction {
    type V = TransactionModel;

    open spec fn view(&self) -> TransactionModel {
        TransactionModel {
            mode: self.mode,
            stores: texts(self.stores@),
            start: Some(self.start),
            channel: self.channel,
        }
    }
}

/// An engine that runs transactions on its own threads and tells which stores they hold.
pub trait KvsEngine: StoreEngine {
    /// The stores that running transactions hold, each with the mode in which it is held.
    fn locked_store_names(&mut self) -> (r: StringMap<IndexedDBTxnMode>)
        ensures
            final(self).calls() == old(self).calls().push(
                EngineCall::LockedStoreNames { result: r@ },
            ),
    ;

    /// Hands a transaction over to be run.
    fn process_transaction(&mut self, transaction: KvsTransaction)
        ensures
            final(self).calls() == old(self).calls().push(
                EngineCall::ProcessTransaction { transaction: transaction@, result: None },
            ),
    ;
}

} // verus!
