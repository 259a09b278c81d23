//! What the network process remembers between requests: credentials, the hosts that are only
//! talked to over TLS, and cookies. Each is held in memory and written through to an engine.
pub mod auth_cache;
pub mod cookie_jar;
pub mod engines;
pub mod hsts;
pub mod stores;
