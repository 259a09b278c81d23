use rusqlite::types::Value as SqlValue;
use rusqlite::{params_from_iter, Connection};
use servo_storage::keyed_map::StringMap;
use servo_storage::net::cookie::{Cookie, CookieSource, ServoCookie};
use servo_storage::net::cookie_storage::CookieStorage;
use servo_storage::net::hsts::{HstsEntry, HstsList, IncludeSubdomains};
use servo_storage::net::http_state::auth_cache::{
    AuthCache, AuthCacheEngine, AuthCacheEntry, AuthCacheStore, AuthHistory,
};
use servo_storage::net::http_state::cookie_jar::{CookieJarEngine, CookieJarStore, JarHistory};
use servo_storage::net::http_state::engines::auth_cache_sqlite::{
    AuthChange, AuthRow, SqliteAuthCacheEngine,
};
use servo_storage::net::http_state::engines::cookie_jar_sqlite::{
    JarChange, JarRow, SqliteCookieJarEngine,
};
use servo_storage::net::http_state::engines::hsts_sqlite::{
    HstsChange, HstsRow, SqliteHstsListEngine,
};
use servo_storage::net::http_state::engines::shared::{
    transaction_end, OpenStep, TransactionEnd,
};
use servo_storage::net::http_state::hsts::{HstsHistory, HstsListEngine, HstsStore};
use servo_storage::net::http_state::stores::{
    create_http_state_stores, HttpStateStores, Origins,
};
use servo_storage::net::url::{Host, ServoUrl};
use servo_storage::sql::{Statement, Value};
use std::cell::{Cell, RefCell};
use std::rc::Rc;

fn open(steps: &[OpenStep]) -> rusqlite::Result<Connection> {
    let mut connection = Connection::open_in_memory()?;
    for step in steps {
        let result = match step {
            OpenStep::MakeFolder(_) | OpenStep::OpenFile(_) => Ok(()),
            OpenStep::OpenInMemory => {
                connection = Connection::open_in_memory()?;
                Ok(())
            },
            OpenStep::Pragma(sql) => connection.execute(sql, []).map(|_| ()),
            OpenStep::SetUserVersion(version) => {
                connection.pragma_update(None, "user_version", version)
            },
            OpenStep::Create(sql) => connection.execute(sql, []).map(|_| ()),
        };
        if step.is_required() {
            result?;
        }
    }
    Ok(connection)
}

fn bound(statement: &Statement) -> Vec<SqlValue> {
    statement
        .params
        .iter()
        .map(|value| match value {
            Value::Null => SqlValue::Null,
            Value::Integer(n) => SqlValue::Integer(*n),
            Value::Text(text) => SqlValue::Text(text.clone()),
        })
        .collect()
}

fn run(connection: &Connection, statement: &Statement) -> rusqlite::Result<usize> {
    connection.execute(statement.sql, params_from_iter(bound(statement)))
}

#[derive(Clone)]
struct AuthEngine {
    connection: Rc<Connection>,
    broken: Rc<Cell<bool>>,
}

impl AuthEngine {
    fn new() -> Self {
        AuthEngine {
            connection: Rc::new(open(&SqliteAuthCacheEngine::new(None)).unwrap()),
            broken: Rc::new(Cell::new(false)),
        }
    }

    fn change(&self, change: AuthChange) -> rusqlite::Result<()> {
        if self.broken.get() {
            return Err(rusqlite::Error::InvalidQuery);
        }
        run(&self.connection, &change.statement()).map(|_| ())
    }
}

impl AuthCacheEngine for AuthEngine {
    type Error = rusqlite::Error;

    fn calls(&self) -> AuthHistory {
        unreachable!()
    }

    fn load(&mut self) -> Result<AuthCache, rusqlite::Error> {
        if self.broken.get() {
            return Err(rusqlite::Error::InvalidQuery);
        }
        let statement = SqliteAuthCacheEngine::select();
        let mut prepared = self.connection.prepare(statement.sql)?;
        let rows = prepared.query_map([], |row| {
            Ok(AuthRow { origin: row.get(0)?, user_name: row.get(1)?, password: row.get(2)? })
        })?;
        Ok(SqliteAuthCacheEngine::load(rows.collect::<Result<Vec<_>, _>>()?))
    }

    fn set(&mut self, origin: &str, entry: &AuthCacheEntry) -> Result<(), rusqlite::Error> {
        self.change(SqliteAuthCacheEngine::set(origin, entry))
    }

    fn delete(&mut self, origin: &str) -> Result<(), rusqlite::Error> {
        self.change(SqliteAuthCacheEngine::delete(origin))
    }

    fn clear(&mut self) -> Result<(), rusqlite::Error> {
        self.change(SqliteAuthCacheEngine::clear())
    }

    fn save(&mut self, data: &AuthCache) -> Result<(), rusqlite::Error> {
        if self.broken.get() {
            return Err(rusqlite::Error::InvalidQuery);
        }
        let changes = SqliteAuthCacheEngine::save(data);
        in_transaction(
            &self.connection,
            changes.iter().map(|change| Some(change.statement())).collect(),
        )
    }
}

fn in_transaction(
    connection: &Connection,
    statements: Vec<Option<Statement>>,
) -> rusqlite::Result<()> {
    connection.execute("BEGIN", [])?;
    let failure = statements.into_iter().find_map(|statement| match statement {
        Some(statement) => run(connection, &statement).err(),
        None => Some(rusqlite::Error::InvalidQuery),
    });
    match transaction_end(&failure) {
        TransactionEnd::Commit => connection.execute("COMMIT", [])?,
        TransactionEnd::RollBack => connection.execute("ROLLBACK", [])?,
    };
    failure.map_or(Ok(()), Err)
}

fn base_of(host: &str) -> String {
    let parts: Vec<&str> = host.split('.').collect();
    parts[parts.len().saturating_sub(2)..].join(".")
}

fn seconds() -> u64 {
    std::time::SystemTime::now().duration_since(std::time::UNIX_EPOCH).unwrap().as_secs()
}

fn nanos() -> i128 {
    std::time::SystemTime::now().duration_since(std::time::UNIX_EPOCH).unwrap().as_nanos() as i128
}

#[derive(Clone)]
struct HstsEngine {
    connection: Rc<Connection>,
}

impl HstsEngine {
    fn new() -> Self {
        HstsEngine { connection: Rc::new(open(&SqliteHstsListEngine::new(None)).unwrap()) }
    }

    fn change(&self, change: HstsChange) -> rusqlite::Result<()> {
        match change.statement() {
            Some(statement) => run(&self.connection, &statement).map(|_| ()),
            None => Err(rusqlite::Error::InvalidQuery),
        }
    }
}

impl HstsListEngine for HstsEngine {
    type Error = rusqlite::Error;

    fn calls(&self) -> HstsHistory {
        unreachable!()
    }

    fn load(&mut self) -> Result<HstsList, rusqlite::Error> {
        self.change(SqliteHstsListEngine::clean())?;
        let statement = SqliteHstsListEngine::select();
        let mut prepared = self.connection.prepare(statement.sql)?;
        let rows = prepared.query_map([], |row| {
            let host: String = row.get(0)?;
            Ok(HstsRow {
                base_domain: base_of(&host),
                host,
                include_subdomains: row.get(1)?,
                expires_at: row.get(2)?,
            })
        })?;
        SqliteHstsListEngine::load(rows.collect::<Result<Vec<_>, _>>()?)
            .ok_or(rusqlite::Error::IntegralValueOutOfRange(2, -1))
    }

    fn upsert(&mut self, entry: &HstsEntry, base_domain: &str) -> Result<(), rusqlite::Error> {
        self.change(SqliteHstsListEngine::upsert(entry, base_domain))
    }

    fn delete(&mut self, host: &str) -> Result<(), rusqlite::Error> {
        self.change(SqliteHstsListEngine::delete(host))
    }

    fn clear(&mut self) -> Result<(), rusqlite::Error> {
        self.change(SqliteHstsListEngine::clear())
    }

    fn save(&mut self, data: &HstsList) -> Result<(), rusqlite::Error> {
        let changes = SqliteHstsListEngine::save(data);
        in_transaction(
            &self.connection,
            changes.iter().map(|change| change.statement()).collect(),
        )
    }
}

#[derive(Clone)]
struct JarEngine {
    connection: Rc<Connection>,
    written: Rc<RefCell<Vec<ServoCookie>>>,
}

impl JarEngine {
    fn new() -> Self {
        JarEngine {
            connection: Rc::new(open(&SqliteCookieJarEngine::new(None)).unwrap()),
            written: Rc::new(RefCell::new(Vec::new())),
        }
    }

    fn change(&self, change: JarChange) -> rusqlite::Result<()> {
        let mut payload = String::new();
        if let Some(cookie) = change.written() {
            let mut written = self.written.borrow_mut();
            payload = written.len().to_string();
            written.push(cookie.clone());
        }
        run(&self.connection, &change.statement(payload)).map(|_| ())
    }
}

impl CookieJarEngine for JarEngine {
    type Error = rusqlite::Error;

    fn calls(&self) -> JarHistory {
        unreachable!()
    }

    fn load(&mut self, max_per_host: usize) -> Result<CookieStorage, rusqlite::Error> {
        for change in SqliteCookieJarEngine::clean() {
            self.change(change)?;
        }
        let statement = SqliteCookieJarEngine::select();
        let mut prepared = self.connection.prepare(statement.sql)?;
        let rows = prepared.query_map([], |row| row.get::<_, String>(0))?;
        let mut cookies = Vec::new();
        for row in rows {
            let index: usize = row?.parse().unwrap();
            let cookie = self.written.borrow()[index].clone();
            let base = base_of(cookie.cookie.domain_text());
            cookies.push(JarRow { cookie, base });
        }
        Ok(SqliteCookieJarEngine::load(cookies, max_per_host))
    }

    fn upsert(&mut self, bucket: &str, cookie: &ServoCookie) -> Result<(), rusqlite::Error> {
        self.change(SqliteCookieJarEngine::upsert(bucket, cookie))
    }

    fn delete(
        &mut self,
        bucket: &str,
        name: &str,
        domain: &str,
        path: &str,
    ) -> Result<(), rusqlite::Error> {
        self.change(SqliteCookieJarEngine::delete(bucket, name, domain, path))
    }

    fn delete_for_reg_host(&mut self, reg_host: &str) -> Result<(), rusqlite::Error> {
        self.change(SqliteCookieJarEngine::delete_for_reg_host(reg_host))
    }

    fn delete_session_cookies(&mut self) -> Result<(), rusqlite::Error> {
        self.change(SqliteCookieJarEngine::delete_session_cookies())
    }

    fn clear(&mut self) -> Result<(), rusqlite::Error> {
        self.change(SqliteCookieJarEngine::clear())
    }

    fn save(&mut self, data: &CookieStorage) -> Result<(), rusqlite::Error> {
        for change in SqliteCookieJarEngine::save(data) {
            self.change(change)?;
        }
        Ok(())
    }
}

fn url(scheme: &str, host: &str, path: &str) -> ServoUrl {
    ServoUrl {
        scheme: scheme.to_owned(),
        host: Some(Host::Domain(host.to_owned())),
        path: path.to_owned(),
    }
}

fn credentials(user_name: &str, password: &str) -> AuthCacheEntry {
    AuthCacheEntry { user_name: user_name.to_owned(), password: password.to_owned() }
}

#[test]
fn round_trip() {
    let mut engine = AuthEngine::new();
    engine.set("https://servo.org", &credentials("alice", "secret")).unwrap();

    let data = engine.load().unwrap();
    let entry = data.entries.get(&"https://servo.org".to_owned()).unwrap();
    assert_eq!(entry.user_name, "alice");
    assert_eq!(entry.password, "secret");
}

#[test]
fn round_trip_and_session_clear() {
    let mut engine = JarEngine::new();
    let url = url("https", "servo.org", "/");
    let now = nanos();

    let persistent = ServoCookie::from_cookie_string(
        "persistent=yes; Max-Age=3600; Path=/",
        &url,
        CookieSource::HTTP,
        false,
        now,
    )
    .unwrap();
    let session = ServoCookie::new_wrapped(
        Cookie::new("session".to_owned(), "yes".to_owned()),
        &url,
        CookieSource::HTTP,
        false,
        now,
    )
    .unwrap();

    engine.upsert("servo.org", &persistent).unwrap();
    engine.upsert("servo.org", &session).unwrap();
    engine.delete_session_cookies().unwrap();

    let mut storage = engine.load(150).unwrap();
    let cookie_string =
        storage.cookies_for_url(&url, CookieSource::HTTP, "servo.org", now).unwrap();
    assert_eq!(cookie_string, "persistent=yes");
}

#[test]
fn round_trip_and_cleanup() {
    let mut engine = HstsEngine::new();
    engine
        .upsert(
            &HstsEntry {
                host: "servo.org".to_owned(),
                include_subdomains: true,
                expires_at: Some(4_102_444_800),
            },
            "servo.org",
        )
        .unwrap();
    engine
        .upsert(
            &HstsEntry {
                host: "expired-http-state.test".to_owned(),
                include_subdomains: false,
                expires_at: Some(1),
            },
            "expired-http-state.test",
        )
        .unwrap();

    let list = engine.load().unwrap();
    assert!(list.is_host_secure("servo.org", "servo.org", seconds()));
    assert!(!list.is_host_secure(
        "expired-http-state.test",
        "expired-http-state.test",
        seconds()
    ));
}

fn new_engine<E, D>(engine: E) -> Origins<E, D> {
    Origins { engine, had_sqlite: false, legacy: None }
}

fn old_engine<E: Clone, D>(engine: &E) -> Origins<E, D> {
    Origins { engine: engine.clone(), had_sqlite: true, legacy: None }
}

fn private_stores() -> HttpStateStores<AuthEngine, HstsEngine, JarEngine> {
    create_http_state_stores(
        new_engine(AuthEngine::new()),
        new_engine(HstsEngine::new()),
        new_engine(JarEngine::new()),
    )
}

#[test]
fn imports_legacy_json_when_sqlite_is_missing() {
    let mut auth_cache = AuthCache::default();
    auth_cache.entries.insert("https://servo.org".to_owned(), credentials("alice", "secret"));

    let engine = AuthEngine::new();
    let stores = create_http_state_stores(
        Origins { engine: engine.clone(), had_sqlite: false, legacy: Some(auth_cache) },
        new_engine(HstsEngine::new()),
        new_engine(JarEngine::new()),
    );
    let entry = stores.auth_cache.get("https://servo.org").unwrap();
    assert_eq!(entry.user_name, "alice");

    let dir = vec!["profile".to_owned()];
    let path = SqliteAuthCacheEngine::db_path(&dir);
    assert_eq!(path, vec!["profile".to_owned(), "auth_cache.sqlite".to_owned()]);
    assert!(SqliteAuthCacheEngine::new(Some(&dir))
        .iter()
        .any(|step| matches!(step, OpenStep::OpenFile(file) if *file == path)));
    let kept = AuthCacheStore::load(engine);
    assert_eq!(kept.get("https://servo.org").unwrap().password, "secret");
}

#[test]
fn sqlite_takes_precedence_over_legacy_json() {
    let engine = AuthEngine::new();
    let hsts = HstsEngine::new();
    let jar = JarEngine::new();
    let mut stores = create_http_state_stores(
        new_engine(engine.clone()),
        new_engine(hsts.clone()),
        new_engine(jar.clone()),
    );
    stores.auth_cache.set("https://servo.org".to_owned(), credentials("sqlite", "wins"));

    let mut legacy = AuthCache::default();
    legacy.entries.insert("https://servo.org".to_owned(), credentials("json", "loses"));

    let stores = create_http_state_stores(
        Origins { engine, had_sqlite: true, legacy: Some(legacy) },
        old_engine(&hsts),
        old_engine(&jar),
    );
    let entry = stores.auth_cache.get("https://servo.org").unwrap();
    assert_eq!(entry.user_name, "sqlite");
    assert_eq!(entry.password, "wins");
}

#[test]
fn public_state_persists_and_private_state_does_not() {
    let now = nanos();
    let auth = AuthEngine::new();
    let hsts = HstsEngine::new();
    let jar = JarEngine::new();
    let mut stores = create_http_state_stores(
        new_engine(auth.clone()),
        new_engine(hsts.clone()),
        new_engine(jar.clone()),
    );
    stores.auth_cache.set("https://servo.org".to_owned(), credentials("alice", "secret"));
    stores.hsts_list.push(
        HstsEntry::new("servo.org".to_owned(), IncludeSubdomains::NotIncluded, None, seconds())
            .unwrap(),
        "servo.org",
        seconds(),
    );
    let url = url("https", "servo.org", "/");
    let cookie = ServoCookie::new_wrapped(
        Cookie::new("session".to_owned(), "cookie".to_owned()),
        &url,
        CookieSource::HTTP,
        false,
        now,
    )
    .unwrap();
    stores.cookie_jar.push(cookie, &url, CookieSource::HTTP, "servo.org", now);
    assert_eq!(
        stores.cookie_jar.cookies_for_url(&url, CookieSource::HTTP, "servo.org", now),
        Some("session=cookie".to_owned()),
    );

    let mut stores =
        create_http_state_stores(old_engine(&auth), old_engine(&hsts), old_engine(&jar));
    assert!(stores.auth_cache.get("https://servo.org").is_some());
    assert!(stores.hsts_list.is_host_secure("servo.org", "servo.org", seconds()));
    assert_eq!(
        stores.cookie_jar.cookies_for_url(&url, CookieSource::HTTP, "servo.org", now),
        None,
    );

    let mut private = private_stores();
    private.auth_cache.set("https://servo.org".to_owned(), credentials("private", "secret"));
    private.hsts_list.push(
        HstsEntry::new(
            "private-http-state.test".to_owned(),
            IncludeSubdomains::NotIncluded,
            None,
            seconds(),
        )
        .unwrap(),
        "private-http-state.test",
        seconds(),
    );
    let private_cookie = ServoCookie::new_wrapped(
        Cookie::new("persistent".to_owned(), "cookie".to_owned()),
        &url,
        CookieSource::HTTP,
        false,
        now,
    )
    .unwrap();
    private.cookie_jar.push(private_cookie, &url, CookieSource::HTTP, "servo.org", now);

    let mut private = private_stores();
    assert!(private.auth_cache.get("https://servo.org").is_none());
    assert!(!private.hsts_list.is_host_secure(
        "private-http-state.test",
        "private-http-state.test",
        seconds()
    ));
    assert_eq!(
        private.cookie_jar.cookies_for_url(&url, CookieSource::HTTP, "servo.org", now),
        None,
    );
}

#[test]
fn a_failing_engine_changes_nothing_in_memory() {
    let engine = AuthEngine::new();
    let mut store = AuthCacheStore::load(engine.clone());
    store.set("https://a.test".to_owned(), credentials("a", "1"));
    engine.broken.set(true);
    store.set("https://b.test".to_owned(), credentials("b", "2"));
    store.delete("https://a.test");
    assert!(store.get("https://a.test").is_none());
    assert_eq!(store.get("https://b.test").unwrap().password, "2");
    assert!(AuthCacheStore::load(engine.clone()).get("https://b.test").is_none());
    engine.broken.set(false);
    let kept = AuthCacheStore::load(engine.clone());
    assert_eq!(kept.get("https://a.test").unwrap().user_name, "a");
    assert!(kept.get("https://b.test").is_none());
    store.clear();
    assert!(store.get("https://b.test").is_none());
    assert_eq!(AuthCacheStore::load(engine).get("https://a.test").is_none(), true);
}

#[test]
fn what_is_saved_is_loaded() {
    let mut engine = AuthEngine::new();
    engine.set("https://old.test", &credentials("old", "0")).unwrap();
    let mut entries = StringMap::new();
    entries.insert("https://a.test".to_owned(), credentials("a", "1"));
    entries.insert("https://b.test".to_owned(), credentials("b", "2"));
    let mut store = AuthCacheStore::load(engine.clone());
    store.replace_all(AuthCache { version: 1, entries });
    let loaded = engine.load().unwrap();
    assert_eq!(loaded.version, 1);
    assert_eq!(loaded.entries.len(), 2);
    assert_eq!(loaded.entries.get(&"https://b.test".to_owned()).unwrap().password, "2");
}

#[test]
fn hosts_outlive_the_process_until_they_end() {
    let now = seconds();
    let engine = HstsEngine::new();
    let mut store = HstsStore::load(engine.clone());
    for (host, max_age) in [("a.test", 1000), ("b.test", 0), ("sub.c.test", 1000)] {
        let entry =
            HstsEntry::new(host.to_owned(), IncludeSubdomains::Included, Some(max_age), now);
        store.push(entry.unwrap(), &base_of(host), now);
    }
    let again = HstsStore::load(engine.clone());
    assert!(again.is_host_secure("a.test", "a.test", now));
    assert!(again.is_host_secure("x.a.test", "a.test", now));
    assert!(!again.is_host_secure("xa.test", "xa.test", now));
    assert!(!again.is_host_secure("b.test", "b.test", now));
    assert!(again.is_host_secure("sub.c.test", "c.test", now));
    assert!(!again.is_host_secure("c.test", "c.test", now));
    assert!(!again.is_host_secure("a.test", "a.test", now + 1000));
    let end = HstsEntry::new("a.test".to_owned(), IncludeSubdomains::Included, Some(0), now);
    store.push(end.unwrap(), "a.test", now);
    assert!(!store.is_host_secure("a.test", "a.test", now));
    assert!(!HstsStore::load(engine).is_host_secure("a.test", "a.test", now));
}

#[test]
fn an_end_beyond_the_column_cannot_be_kept() {
    let mut engine = HstsEngine::new();
    let entry = HstsEntry {
        host: "a.test".to_owned(),
        include_subdomains: false,
        expires_at: Some(u64::MAX),
    };
    assert!(engine.upsert(&entry, "a.test").is_err());
    assert!(SqliteHstsListEngine::load(vec![HstsRow {
        host: "a.test".to_owned(),
        include_subdomains: 0,
        expires_at: Some(-1),
        base_domain: "a.test".to_owned(),
    }])
    .is_none());
    let list = SqliteHstsListEngine::load(vec![HstsRow {
        host: "a.test".to_owned(),
        include_subdomains: 2,
        expires_at: Some(0),
        base_domain: "a.test".to_owned(),
    }])
    .unwrap();
    assert!(list.is_host_secure("x.a.test", "a.test", u64::MAX));
}

#[test]
fn the_header_is_taken_note_of() {
    let now = seconds();
    let mut store = HstsStore::load(HstsEngine::new());
    let https = url("https", "a.test", "/");
    let mut headers = http::HeaderMap::new();
    store.update_from_response(&https, &headers, "a.test", now);
    assert!(!store.is_host_secure("a.test", "a.test", now));
    headers.insert(
        "Strict-Transport-Security",
        http::HeaderValue::from_static("max-age=31536000; includeSubdomains"),
    );
    store.update_from_response(&url("http", "a.test", "/"), &headers, "a.test", now);
    assert!(!store.is_host_secure("a.test", "a.test", now));
    store.update_from_response(&https, &headers, "a.test", now);
    assert!(store.is_host_secure("b.a.test", "a.test", now + 31_535_999));
    assert!(!store.is_host_secure("b.a.test", "a.test", now + 31_536_000));
    headers.append("strict-transport-security", http::HeaderValue::from_static("max-age=0"));
    store.update_from_response(&https, &headers, "a.test", now);
    assert!(store.is_host_secure("a.test", "a.test", now));
    headers.insert("strict-transport-security", http::HeaderValue::from_static("max-age=0"));
    store.update_from_response(&https, &headers, "a.test", now);
    assert!(!store.is_host_secure("a.test", "a.test", now));
    let address = ServoUrl {
        scheme: "https".to_owned(),
        host: Some(Host::Address("127.0.0.1".to_owned())),
        path: "/".to_owned(),
    };
    headers.insert("strict-transport-security", http::HeaderValue::from_static("max-age=9"));
    store.update_from_response(&address, &headers, "127.0.0.1", now);
    assert!(!store.is_host_secure("127.0.0.1", "127.0.0.1", now));
    store.update_from_header(&url("wss", "c.test", "/"), Some((5, false)), "c.test", now);
    assert!(store.is_host_secure("c.test", "c.test", now + 4));
    assert!(!store.is_host_secure("d.c.test", "c.test", now));
    store.clear();
    assert!(!store.is_host_secure("c.test", "c.test", now));
}

#[test]
fn schemes_are_upgraded() {
    let now = seconds();
    let mut store = HstsStore::load(HstsEngine::new());
    let entry = HstsEntry::new("a.test".to_owned(), IncludeSubdomains::NotIncluded, None, now);
    store.push(entry.unwrap(), "a.test", now);
    for (before, after) in [("http", "https"), ("ws", "wss"), ("https", "https"), ("ftp", "ftp")] {
        let mut asked = url(before, "a.test", "/x");
        store.apply_hsts_rules(&mut asked, "a.test", now);
        assert_eq!(asked.scheme, after);
        assert_eq!(asked.path, "/x");
    }
    let mut other = url("http", "b.test", "/");
    store.apply_hsts_rules(&mut other, "b.test", now);
    assert_eq!(other.scheme, "http");
}

#[test]
fn an_address_cannot_ask_for_tls() {
    for host in ["127.0.0.1", "::1", "1.2.3.300"] {
        let entry = HstsEntry::new(host.to_owned(), IncludeSubdomains::Included, None, 0);
        assert!(entry.is_none());
    }
    let entry = HstsEntry::new("a1.test".to_owned(), IncludeSubdomains::Included, Some(0), 0);
    assert_eq!(entry.unwrap().expires_at, Some(1));
    let entry = HstsEntry::new("a.test".to_owned(), IncludeSubdomains::Included, Some(9), u64::MAX);
    assert_eq!(entry.unwrap().expires_at, Some(u64::MAX));
}

fn stored(text: &str, from: &ServoUrl, now: i128) -> ServoCookie {
    ServoCookie::from_cookie_string(text, from, CookieSource::HTTP, false, now).unwrap()
}

#[test]
fn the_jar_writes_through() {
    let now = nanos();
    let engine = JarEngine::new();
    let mut jar = CookieJarStore::load(engine.clone(), 150);
    let a = url("https", "a.test", "/");
    let b = url("https", "b.test", "/");
    jar.set_cookie_for_url(&a, "k=1; Max-Age=100", CookieSource::HTTP, false, "a.test", now);
    jar.set_cookie_for_url(&a, "l=2; Max-Age=100", CookieSource::HTTP, false, "a.test", now + 1);
    jar.set_cookie_for_url(&a, "s=3", CookieSource::HTTP, false, "a.test", now + 2);
    jar.set_cookie_for_url(&b, "k=4; Max-Age=100", CookieSource::HTTP, false, "b.test", now + 3);
    jar.set_cookie_for_url(&a, "nothing", CookieSource::HTTP, false, "a.test", now);
    jar.set_cookie_for_url(&a, "x=1; Domain=b.test", CookieSource::HTTP, false, "b.test", now);
    let text = |jar: &mut CookieJarStore<JarEngine>, url: &ServoUrl, base: &str| {
        jar.cookies_for_url(url, CookieSource::HTTP, base, now + 10)
    };
    assert_eq!(text(&mut jar, &a, "a.test"), Some("k=1; l=2; s=3".to_owned()));
    let mut again = CookieJarStore::load(engine.clone(), 150);
    assert_eq!(text(&mut again, &a, "a.test"), Some("k=1; l=2".to_owned()));
    assert_eq!(text(&mut again, &b, "b.test"), Some("k=4".to_owned()));
    again.delete_cookie_with_name("a.test", "k");
    assert_eq!(text(&mut again, &a, "a.test"), Some("l=2".to_owned()));
    let mut names: Vec<String> =
        again.cookie_site_descriptors().into_iter().map(|site| site.name).collect();
    names.sort();
    assert_eq!(names, ["a.test", "b.test"]);
    again.delete_cookies_for_sites(&vec!["a.test".to_owned(), "z.test".to_owned()]);
    let mut third = CookieJarStore::load(engine.clone(), 150);
    assert_eq!(text(&mut third, &a, "a.test"), None);
    assert_eq!(text(&mut third, &b, "b.test"), Some("k=4".to_owned()));
    third.clear_storage(Some("b.test"));
    assert_eq!(text(&mut third, &b, "b.test"), None);
    assert_eq!(text(&mut CookieJarStore::load(engine, 150), &b, "b.test"), None);
}

#[test]
fn queries_are_for_scripts() {
    let now = nanos();
    let mut jar = CookieJarStore::load(JarEngine::new(), 150);
    let a = url("https", "a.test", "/deep/path");
    for text in ["k=1; Path=/", "k=2; Path=/deep", "h=3; HttpOnly", "e=4; Max-Age=1"] {
        jar.push(stored(text, &a, now), &a, CookieSource::HTTP, "a.test", now);
    }
    let later = now + 2_000_000_000;
    let seen: Vec<String> = jar
        .query_cookies(&a, Some("k".to_owned()), "a.test", later)
        .into_iter()
        .map(|cookie| cookie.value)
        .collect();
    assert_eq!(seen, ["2", "1"]);
    assert_eq!(jar.query_cookies(&a, None, "a.test", later).len(), 2);
    assert_eq!(jar.cookies_data_for_url(&a, CookieSource::HTTP, "a.test", later).len(), 3);
    jar.clear_session_cookies();
    assert!(jar.cookies_data_for_url(&a, CookieSource::HTTP, "a.test", later).is_empty());
    jar.save_snapshot();
    jar.remove_all_expired_cookies(later);
    jar.clear_storage(None);
    assert!(jar.cookie_site_descriptors().is_empty());
}

#[test]
fn a_save_is_all_or_nothing() {
    let now = seconds();
    let mut engine = HstsEngine::new();
    let entry = |host: &str, expires_at: Option<u64>| HstsEntry {
        host: host.to_owned(),
        include_subdomains: false,
        expires_at,
    };
    engine.upsert(&entry("old.test", None), "old.test").unwrap();
    let mut list = HstsList::default();
    list.push(entry("a.test", None), "a.test");
    list.push(entry("b.test", Some(u64::MAX)), "b.test");
    assert!(engine.save(&list).is_err());
    let kept = engine.load().unwrap();
    assert!(kept.is_host_secure("old.test", "old.test", now));
    assert!(!kept.is_host_secure("a.test", "a.test", now));
    list.push(entry("b.test", None), "b.test");
    engine.save(&list).unwrap();
    let kept = engine.load().unwrap();
    assert!(!kept.is_host_secure("old.test", "old.test", now));
    assert!(kept.is_host_secure("a.test", "a.test", now));
    assert!(kept.is_host_secure("b.test", "b.test", now));
}

#[test]
fn an_upsert_takes_the_place_of_an_earlier_one() {
    let now = nanos();
    let mut engine = JarEngine::new();
    let a = url("https", "a.test", "/");
    for text in ["k=1; Max-Age=100", "l=2; Max-Age=100", "k=3; Max-Age=100", "l=4"] {
        engine.upsert("a.test", &stored(text, &a, now)).unwrap();
    }
    let mut storage = engine.load(150).unwrap();
    assert_eq!(
        storage.cookies_for_url(&a, CookieSource::HTTP, "a.test", now),
        Some("k=3".to_owned())
    );
}
