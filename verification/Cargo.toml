[package]
name = "servo_storage"
version = "0.1.0"
edition = "2021"
publish = false

[dependencies]
bincode = "1"
chrono = "0.4"
cookie = "0.18"
dashmap = "6"
headers = "0.4"
http = "1"
ipc-channel = "0.20"
itertools = "0.14"
log = "0.4"
parking_lot = "0.12"
rusqlite = { version = "0.32", features = ["bundled"] }
sea-orm = { version = "1", default-features = false, features = ["macros", "sqlx-sqlite", "runtime-tokio"] }
serde = { version = "1", features = ["derive"] }
serde_json = "1"
tokio = { version = "1", features = ["rt-multi-thread", "sync"] }
uuid = { version = "1", features = ["v5"] }
