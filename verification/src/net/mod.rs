//! The network process's share: the HTTP state stores, and IndexedDB with queued transactions.
pub mod cookie;
pub mod cookie_storage;
pub mod hosts;
pub mod hsts;
pub mod http_state;
pub mod indexeddb;
pub mod url;
