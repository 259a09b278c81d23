//! The three stores as they are when the process starts.
use crate::net::cookie_storage::{CookieStorage, StorageModel};
use crate::net::hsts::{HstsList, HstsListModel};
use crate::net::http_state::auth_cache::{
    AuthCache, AuthCacheEngine, AuthCacheModel, AuthCacheStore, AuthCall, AuthStoreModel,
};
use crate::net::http_state::cookie_jar::{
    CookieJarEngine, CookieJarStore, JarCall, JarModel, DEFAULT_MAX_COOKIES_PER_HOST,
};
use crate::net::http_state::hsts::{HstsCall, HstsListEngine, HstsStore, HstsStoreModel};
use vstd::prelude::*;

verus! {

/// The file that credentials were kept in formerly.
pub const LEGACY_AUTH_CACHE: &'static str = "auth_cache.json";

/// The file that hosts were kept in formerly.
pub const LEGACY_HSTS_LIST: &'static str = "hsts_list.json";

/// The file that cookies were kept in formerly.
pub const LEGACY_COOKIE_JAR: &'static str = "cookie_jar.json";

/// What a store starts from.
pub struct Origins<E, D> {
    /// The engine that keeps its data.
    pub engine: E,
    /// Whether the file of the engine was there before the engine was opened.
    pub had_sqlite: bool,
    /// What the file holds that the data was kept in formerly, if there is one. Where it cannot
    /// be read, that is nothing.
    pub legacy: Option<D>,
}

/// The three stores.
pub struct HttpStateStores<A: AuthCacheEngine, H: HstsListEngine, C: CookieJarEngine> {
    pub auth_cache: AuthCacheStore<A>,
    pub hsts_list: HstsStore<H>,
    pub cookie_jar: CookieJarStore<C>,
}

/// The store of credentials at the start: what could be loaded, or what was kept formerly where
/// the engine is new.
pub open spec fn initial_auth_cache(
    calls: Seq<AuthCall>,
    had_sqlite: bool,
    legacy: Option<AuthCacheModel>,
    loaded: Option<AuthCacheModel>,
    ok: bool,
) -> AuthStoreModel {
    let store = AuthStoreModel::load(calls, loaded);
    match legacy {
        Some(data) => if had_sqlite {
            store
        } else {
            store.replace_all(data, ok)
        },
        None => store,
    }
}

/// The store of hosts at the start: what could be loaded, or what was kept formerly where the
/// engine is new.
pub open spec fn initial_hsts_list(
    calls: Seq<HstsCall>,
    had_sqlite: bool,
    legacy: Option<HstsListModel>,
    loaded: Option<HstsListModel>,
    ok: bool,
) -> HstsStoreModel {
    let store = HstsStoreModel::load(calls, loaded);
    match legacy {
        Some(data) => if had_sqlite {
            store
        } else {
            store.replace_all(data, ok)
        },
        None => store,
    }
}

/// The store of cookies at the start: what could be loaded, or what was kept formerly where the
/// engine is new.
pub open spec fn initial_cookie_jar(
    calls: Seq<JarCall>,
    had_sqlite: bool,
    legacy: Option<StorageModel>,
    loaded: Option<StorageModel>,
    ok: bool,
) -> JarModel {
    let store = JarModel::load(calls, DEFAULT_MAX_COOKIES_PER_HOST as nat, loaded);
    match legacy {
        Some(data) => if had_sqlite {
            store
        } else {
            store.holding(data).snapshot(ok)
        },
        None => store,
    }
}

/// What credentials may stand for that may be missing.
pub open spec fn optional_auth_cache(data: Option<AuthCache>) -> Option<AuthCacheModel> {
    match data {
        Some(data) => Some(data@),
        None => None,
    }
}

/// What hosts may stand for that may be missing.
pub open spec fn optional_hsts_list(data: Option<HstsList>) -> Option<HstsListModel> {
    match data {
        Some(data) => Some(data@),
        None => None,
    }
}

/// What cookies may stand for that may be missing.
pub open spec fn optional_cookie_jar(data: Option<CookieStorage>) -> Option<StorageModel> {
    match data {
        Some(data) => Some(data@),
        None => None,
    }
}

/// The store of credentials at the start.
pub fn load_auth_cache_store<E: AuthCacheEngine>(origins: Origins<E, AuthCache>) -> (r:
    AuthCacheStore<E>)
    ensures
        exists|loaded: Option<AuthCacheModel>, ok: bool|
            r@ == #[trigger] initial_auth_cache(
                origins.engine.calls(),
                origins.had_sqlite,
                optional_auth_cache(origins.legacy),
                loaded,
                ok,
            ),
{
    let ghost calls = origins.engine.calls();
    let ghost legacy = optional_auth_cache(origins.legacy);
    let had_sqlite = origins.had_sqlite;
    let mut store = AuthCacheStore::load(origins.engine);
    let ghost loaded = store@.calls.last()->Load_0;
    let ghost mut ok = true;
    if !had_sqlite {
        if let Some(data) = origins.legacy {
            let ghost before = store@;
            store.replace_all(data);
            proof {
                ok = choose|ok: bool| store@ == #[trigger] before.replace_all(data@, ok);
            }
        }
    }
    assert(store@ == initial_auth_cache(calls, had_sqlite, legacy, loaded, ok));
    store
}

/// The store of hosts at the start.
pub fn load_hsts_store<E: HstsListEngine>(origins: Origins<E, HstsList>) -> (r: HstsStore<E>)
    ensures
        exists|loaded: Option<HstsListModel>, ok: bool|
            r@ == #[trigger] initial_hsts_list(
                origins.engine.calls(),
                origins.had_sqlite,
                optional_hsts_list(origins.legacy),
                loaded,
                ok,
            ),
{
    let ghost calls = origins.engine.calls();
    let ghost legacy = optional_hsts_list(origins.legacy);
    let had_sqlite = origins.had_sqlite;
    let mut store = HstsStore::load(origins.engine);
    let ghost loaded = store@.calls.last()->Load_0;
    let ghost mut ok = true;
    if !had_sqlite {
        if let Some(data) = origins.legacy {
            let ghost before = store@;
            store.replace_all(data);
            proof {
                ok = choose|ok: bool| store@ == #[trigger] before.replace_all(data@, ok);
            }
        }
    }
    assert(store@ == initial_hsts_list(calls, had_sqlite, legacy, loaded, ok));
    store
}

/// The store of cookies at the start.
pub fn load_cookie_jar_store<E: CookieJarEngine>(origins: Origins<E, CookieStorage>) -> (r:
    CookieJarStore<E>)
    ensures
        exists|loaded: Option<StorageModel>, ok: bool|
            r@ == #[trigger] initial_cookie_jar(
                origins.engine.calls(),
                origins.had_sqlite,
                optional_cookie_jar(origins.legacy),
                loaded,
                ok,
            ),
{
    let ghost calls = origins.engine.calls();
    let ghost legacy = optional_cookie_jar(origins.legacy);
    let had_sqlite = origins.had_sqlite;
    let mut store = CookieJarStore::load(origins.engine, DEFAULT_MAX_COOKIES_PER_HOST);
    let ghost loaded = store@.calls.last()->loaded;
    let ghost mut ok = true;
    if !had_sqlite {
        if let Some(data) = origins.legacy {
            let ghost before = store@;
            store.replace_all(data);
            proof {
                ok = choose|ok: bool| store@ == #[trigger] before.holding(data@).snapshot(ok);
            }
        }
    }
    assert(store@ == initial_cookie_jar(calls, had_sqlite, legacy, loaded, ok));
    store
}

/// The three stores at the start.
pub fn create_http_state_stores<A: AuthCacheEngine, H: HstsListEngine, C: CookieJarEngine>(
    auth_cache: Origins<A, AuthCache>,
    hsts_list: Origins<H, HstsList>,
    cookie_jar: Origins<C, CookieStorage>,
) -> (r: HttpStateStores<A, H, C>)
    ensures
        exists|loaded: Option<AuthCacheModel>, ok: bool|
            r.auth_cache@ == #[trigger] initial_auth_cache(
                auth_cache.engine.calls(),
                auth_cache.had_sqlite,
                optional_auth_cache(auth_cache.legacy),
                loaded,
                ok,
            ),
        exists|loaded: Option<HstsListModel>, ok: bool|
            r.hsts_list@ == #[trigger] initial_hsts_list(
                hsts_list.engine.calls(),
                hsts_list.had_sqlite,
                optional_hsts_list(hsts_list.legacy),
                loaded,
                ok,
            ),
        exists|loaded: Option<StorageModel>, ok: bool|
            r.cookie_jar@ == #[trigger] initial_cookie_jar(
                cookie_jar.engine.calls(),
                cookie_jar.had_sqlite,
                optional_cookie_jar(cookie_jar.legacy),
                loaded,
                ok,
            ),
{
    HttpStateStores {
        auth_cache: load_auth_cache_store(auth_cache),
        hsts_list: load_hsts_store(hsts_list),
        cookie_jar: load_cookie_jar_store(cookie_jar),
    }
}

/// Where an engine had its file before, what was kept formerly does not matter.
pub proof fn law_sqlite_takes_precedence(
    auth_calls: Seq<AuthCall>,
    auth_legacy: Option<AuthCacheModel>,
    auth_loaded: Option<AuthCacheModel>,
    hsts_calls: Seq<HstsCall>,
    hsts_legacy: Option<HstsListModel>,
    hsts_loaded: Option<HstsListModel>,
    jar_calls: Seq<JarCall>,
    jar_legacy: Option<StorageModel>,
    jar_loaded: Option<StorageModel>,
    ok: bool,
)
    ensures
        initial_auth_cache(auth_calls, true, auth_legacy, auth_loaded, ok) == AuthStoreModel::load(
            auth_calls,
            auth_loaded,
        ),
        initial_hsts_list(hsts_calls, true, hsts_legacy, hsts_loaded, ok) == HstsStoreModel::load(
            hsts_calls,
            hsts_loaded,
        ),
        initial_cookie_jar(jar_calls, true, jar_legacy, jar_loaded, ok) == JarModel::load(
            jar_calls,
            DEFAULT_MAX_COOKIES_PER_HOST as nat,
            jar_loaded,
        ),
{
}

/// Where an engine is new, the store holds what was kept formerly, and so does the engine, if it
/// takes it.
pub proof fn law_legacy_is_imported(
    auth_calls: Seq<AuthCall>,
    auth_legacy: AuthCacheModel,
    auth_loaded: Option<AuthCacheModel>,
    hsts_calls: Seq<HstsCall>,
    hsts_legacy: HstsListModel,
    hsts_loaded: Option<HstsListModel>,
    jar_calls: Seq<JarCall>,
    jar_legacy: StorageModel,
    jar_loaded: Option<StorageModel>,
    ok: bool,
    now: u64,
)
    ensures
        ({
            let auth = initial_auth_cache(auth_calls, false, Some(auth_legacy), auth_loaded, ok);
            let hsts = initial_hsts_list(hsts_calls, false, Some(hsts_legacy), hsts_loaded, ok);
            let jar = initial_cookie_jar(jar_calls, false, Some(jar_legacy), jar_loaded, ok);
            &&& auth.data == auth_legacy
            &&& hsts.data == hsts_legacy
            &&& jar.data == jar_legacy
            &&& ok ==> auth.in_sync() && hsts.in_sync(now) && jar.in_sync()
        }),
{
    let auth = AuthStoreModel::load(auth_calls, auth_loaded);
    assert(auth.replace_all(auth_legacy, true).calls.drop_last() =~= auth.calls);
}

/// Where nothing can be loaded and nothing was kept formerly, the stores are empty, and a registrable
/// domain may have a hundred and fifty cookies.
pub proof fn law_stores_can_start_empty(
    auth_calls: Seq<AuthCall>,
    hsts_calls: Seq<HstsCall>,
    jar_calls: Seq<JarCall>,
    had_sqlite: bool,
    ok: bool,
    text: Seq<char>,
)
    ensures
        !initial_auth_cache(auth_calls, had_sqlite, None, None, ok).data.entries.contains_key(text),
        initial_hsts_list(hsts_calls, had_sqlite, None, None, ok).data.bucket(text).len() == 0,
        initial_cookie_jar(jar_calls, had_sqlite, None, None, ok).data.bucket(text).len() == 0,
        initial_cookie_jar(jar_calls, had_sqlite, None, None, ok).data.max_per_host == 150,
{
}

/// What was kept formerly is in these files.
pub proof fn law_legacy_files_have_these_names()
    ensures
        LEGACY_AUTH_CACHE@ == "auth_cache.json"@,
        LEGACY_HSTS_LIST@ == "hsts_list.json"@,
        LEGACY_COOKIE_JAR@ == "cookie_jar.json"@,
{
}

} // verus!
