//! Engines that keep the HTTP state in SQLite files. What to run on a connection, and what the
//! rows that come back mean, is decided here; the caller has the connection.
pub mod auth_cache_sqlite;
pub mod buckets;
pub mod cookie_jar_sqlite;
pub mod hsts_sqlite;
pub mod shared;
