//! The storage process's share: IndexedDB with scheduled transactions, the storage manager and
//! the cache manager.
pub mod cache;
pub mod indexeddb;
pub mod storage_manager;
