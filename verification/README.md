# servo_storage

The storage logic of a browser engine, verified with Verus.

- `src/net/http_state`: credentials, HSTS hosts and cookies, each held in memory and written through
  to an engine; the statements that keep them in SQLite tables; what the stores start from.
- `src/net/cookie.rs`, `cookie_storage.rs`, `hsts.rs`, `hosts.rs`, `url.rs`: the rules behind them.
- `src/net/indexeddb`: IndexedDB with a queue of transactions per database, and an engine that keeps
  each object store in a file of its own.
- `src/storage/indexeddb`: IndexedDB with one scheduler per database.
- `src/storage/storage_manager`: containers, their folders and their registries.
- `src/storage/cache.rs`, `src/script`: the cache manager, cache objects, transactions as scripts see
  them, and the editor.
- `src/indexeddb`, `sql.rs`, `keyed_map.rs`, `text.rs`, `folder_names.rs`: what these share.

The library decides and the caller acts: where a decision needs a disk, a connection, a channel or a
clock, the library says what to do as a plain value and takes the outcome as a plain value. `app`
holds such a caller. The registrable domain of a host, whether a domain is a public suffix, and the
time are handed in.

The contracts are stated over models: each type has a view, and a public proof function whose name
starts with `law_` states what holds of several operations together.
