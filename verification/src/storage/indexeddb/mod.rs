//! IndexedDB for the storage process: transactions are numbered, and a scheduler runs them one
//! after the other in the order of their numbers.
pub mod engines;
pub mod idb_thread;
pub mod scheduler;
