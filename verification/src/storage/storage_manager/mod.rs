//! Storage containers: which folders they are kept in, and which of them are loaded.
pub mod containers;
pub mod registry;
pub mod registry_statements;
pub mod registry_success;
pub mod registry_tables;
pub mod storage_manager_thread;
