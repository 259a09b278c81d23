//! Transactions and the engines that run them.
use crate::indexeddb::engine::{EngineCall, StoreEngine, TransactionModel};
use crate::indexeddb::types::IndexedDBTxnMode;
use crate::text::texts;
use vstd::prelude::*;

verus! {

/// A transaction that waits to be run. `channel` is the number of the channel on which its
/// operations come in.
pub struct KvsTransaction {
    pub mode: IndexedDBTxnMode,
    pub stores: Vec<String>,
    pub channel: u64,
}

impl View for KvsTransaction {
    type V = TransactionModel;

    open spec fn view(&self) -> TransactionModel {
        TransactionModel {
            mode: self.mode,
            stores: texts(self.stores@),
            start: None,
            channel: self.channel,
        }
    }
}

/// What the bytes that a transaction ended with stand for.
pub open spec fn opt_bytes(bytes: Option<Vec<u8>>) -> Option<Seq<u8>> {
    match bytes {
        Some(b) => Some(b@),
        None => None,
    }
}

/// An engine that runs one transaction at a time.
pub trait KvsEngine: StoreEngine {
    /// Runs a transaction to its end.
    fn process_transaction(&mut self, transaction: KvsTransaction) -> (r: Option<Vec<u8>>)
        ensures
            final(self).calls() == old(self).calls().push(
                EngineCall::ProcessTransaction {
                    transaction: transaction@,
                    result: opt_bytes(r),
                },
            ),
    ;
}

} // verus!
