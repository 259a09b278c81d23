//! Storage logic of a browser engine: the HTTP state stores, IndexedDB, the storage manager and
//! the script-facing pieces that go with them. Whatever touches a disk, a database connection, a
//! channel or a thread is left to the caller, which hands plain values in and takes plain values
//! back.
pub mod folder_names;
pub mod indexeddb;
pub mod keyed_map;
pub mod net;
pub mod script;
pub mod sql;
pub mod storage;
pub mod text;
