//! What the IndexedDB back ends have in common: names of databases, key paths, errors and the
//! operations of a storage engine.
pub mod description;
pub mod engine;
pub mod types;
