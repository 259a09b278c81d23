//! IndexedDB for the network process: transactions wait in a queue until no running transaction
//! is in their way.
pub mod engines;
pub mod environment;
pub mod idb_thread;
pub mod laws;
