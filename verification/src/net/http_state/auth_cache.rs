//! The credentials that were entered for an origin.
use crate::keyed_map::StringMap;
use vstd::prelude::*;

verus! {

/// The credentials for one origin.
#[derive(Debug)]
pub struct AuthCacheEntry {
    pub user_name: String,
    pub password: String,
}

/// What an `AuthCacheEntry` stands for.
pub struct AuthEntryModel {
    pub user_name: Seq<char>,
    pub password: Seq<char>,
}

impl View for AuthCacheEntry {
    type V = AuthEntryModel;

    open spec fn view(&self) -> AuthEntryModel {
        AuthEntryModel { user_name: self.user_name@, password: self.password@ }
    }
}

impl Clone for AuthCacheEntry {
    fn clone(&self) -> (r: Self)
        ensures
            r == *self,
    {
        AuthCacheEntry { user_name: self.user_name.clone(), password: self.password.clone() }
    }
}

/// The credentials for all origins, and the version of the format that they are kept in.
pub struct AuthCache {
    pub version: u32,
    pub entries: StringMap<AuthCacheEntry>,
}

/// What an `AuthCache` stands for.
pub struct AuthCacheModel {
    pub version: u32,
    pub entries: Map<Seq<char>, AuthEntryModel>,
}

impl View for AuthCache {
    type V = AuthCacheModel;

    open spec fn view(&self) -> AuthCacheModel {
        AuthCacheModel {
            version: self.version,
            entries: self.entries@.map_values(|entry: AuthCacheEntry| entry@),
        }
    }
}

impl AuthCacheModel {
    /// No credentials, in the current version.
    pub open spec fn initial() -> AuthCacheModel {
        AuthCacheModel { version: 1, entries: Map::empty() }
    }

    /// The same version with other entries.
    pub open spec fn with(self, entries: Map<Seq<char>, AuthEntryModel>) -> AuthCacheModel {
        AuthCacheModel { version: self.version, entries }
    }
}

impl Default for AuthCache {
    fn default() -> (r: Self)
        ensures
            r@ == AuthCacheModel::initial(),
    {
        let r = AuthCache { version: 1, entries: StringMap::new() };
        assert(r@.entries =~= Map::empty());
        r
    }
}

impl AuthCache {
    /// Sets the credentials for an origin.
    pub fn insert(&mut self, origin: String, entry: AuthCacheEntry)
        ensures
            final(self)@ == old(self)@.with(old(self)@.entries.insert(origin@, entry@)),
    {
        self.entries.insert(origin, entry);
        assert(self@.entries =~= old(self)@.entries.insert(origin@, entry@));
    }
}

/// A call that an engine answered. `ok` tells whether it succeeded.
#[allow(inconsistent_fields)]
pub enum AuthCall {
    /// Succeeded with what was loaded, or failed.
    Load(Option<AuthCacheModel>),
    Put { origin: Seq<char>, entry: AuthEntryModel, ok: bool },
    Delete { origin: Seq<char>, ok: bool },
    Clear { ok: bool },
    Save { data: AuthCacheModel, ok: bool },
}

/// The calls that an engine answered, in order.
pub type AuthHistory = Seq<AuthCall>;

/// Keeps credentials.
pub trait AuthCacheEngine: Sized {
    type Error;

    /// The calls that were answered, in order.
    spec fn calls(&self) -> AuthHistory;

    /// Everything that is kept.
    fn load(&mut self) -> (r: Result<AuthCache, Self::Error>)
        ensures
            final(self).calls() == old(self).calls().push(
                AuthCall::Load(
                    match r {
                        Ok(data) => Some(data@),
                        Err(_) => None,
                    },
                ),
            ),
    ;

    /// Keeps the credentials for an origin.
    fn set(&mut self, origin: &str, entry: &AuthCacheEntry) -> (r: Result<(), Self::Error>)
        ensures
            final(self).calls() == old(self).calls().push(
                AuthCall::Put { origin: origin@, entry: entry@, ok: r is Ok },
            ),
    ;

    /// Forgets the credentials for an origin.
    fn delete(&mut self, origin: &str) -> (r: Result<(), Self::Error>)
        ensures
            final(self).calls() == old(self).calls().push(
                AuthCall::Delete { origin: origin@, ok: r is Ok },
            ),
    ;

    /// Forgets everything.
    fn clear(&mut self) -> (r: Result<(), Self::Error>)
        ensures
            final(self).calls() == old(self).calls().push(AuthCall::Clear { ok: r is Ok }),
    ;

    /// Keeps exactly what is given.
    fn save(&mut self, data: &AuthCache) -> (r: Result<(), Self::Error>)
        ensures
            final(self).calls() == old(self).calls().push(
                AuthCall::Save { data: data@, ok: r is Ok },
            ),
    ;
}

/// What an `AuthCacheStore` stands for: what it holds, and what it asked of its engine.
pub struct AuthStoreModel {
    pub data: AuthCacheModel,
    pub calls: Seq<AuthCall>,
}

impl AuthStoreModel {
    /// The store that holds what an engine with these calls behind it was able to load.
    pub open spec fn load(calls: Seq<AuthCall>, loaded: Option<AuthCacheModel>) -> AuthStoreModel {
        AuthStoreModel {
            data: match loaded {
                Some(data) => data,
                None => AuthCacheModel::initial(),
            },
            calls: calls.push(AuthCall::Load(loaded)),
        }
    }

    /// Sets the credentials for an origin, in memory and in the engine.
    pub open spec fn set(
        self,
        origin: Seq<char>,
        entry: AuthEntryModel,
        ok: bool,
    ) -> AuthStoreModel {
        AuthStoreModel {
            data: self.data.with(self.data.entries.insert(origin, entry)),
            calls: self.calls.push(AuthCall::Put { origin, entry, ok }),
        }
    }

    /// Forgets the credentials for an origin, in memory and in the engine.
    pub open spec fn delete(self, origin: Seq<char>, ok: bool) -> AuthStoreModel {
        AuthStoreModel {
            data: self.data.with(self.data.entries.remove(origin)),
            calls: self.calls.push(AuthCall::Delete { origin, ok }),
        }
    }

    /// Forgets all credentials, in memory and in the engine.
    pub open spec fn clear(self, ok: bool) -> AuthStoreModel {
        AuthStoreModel {
            data: self.data.with(Map::empty()),
            calls: self.calls.push(AuthCall::Clear { ok }),
        }
    }

    /// Holds other data, in memory and in the engine.
    pub open spec fn replace_all(self, data: AuthCacheModel, ok: bool) -> AuthStoreModel {
        AuthStoreModel { data, calls: self.calls.push(AuthCall::Save { data, ok }) }
    }

    /// Whether the engine, if it keeps what it is told to keep, keeps what is in memory.
    pub open spec fn in_sync(self) -> bool {
        kept(self.calls) == self.data.entries
    }
}

/// What an engine keeps after some calls: what it loaded, as changed by the calls that succeeded.
pub open spec fn kept(calls: Seq<AuthCall>) -> Map<Seq<char>, AuthEntryModel>
    decreases calls.len(),
{
    if calls.len() == 0 {
        Map::empty()
    } else {
        let before = kept(calls.drop_last());
        match calls.last() {
            AuthCall::Load(Some(data)) => data.entries,
            AuthCall::Put { origin, entry, ok: true } => before.insert(origin, entry),
            AuthCall::Delete { origin, ok: true } => before.remove(origin),
            AuthCall::Clear { ok: true } => Map::empty(),
            AuthCall::Save { data, ok: true } => data.entries,
            _ => before,
        }
    }
}

/// The credentials in memory, written through to an engine. A failure of the engine changes
/// nothing in memory.
pub struct AuthCacheStore<E: AuthCacheEngine> {
    data: AuthCache,
    engine: E,
}

impl<E: AuthCacheEngine> View for AuthCacheStore<E> {
    type V = AuthStoreModel;

    closed spec fn view(&self) -> AuthStoreModel {
        AuthStoreModel { data: self.data@, calls: self.engine.calls() }
    }
}

impl<E: AuthCacheEngine> AuthCacheStore<E> {
    /// The store of what the engine keeps. Where it cannot be loaded, the store is empty.
    pub fn load(engine: E) -> (r: Self)
        ensures
            r@.calls.len() > 0,
            r@.calls.last() matches AuthCall::Load(loaded) && r@ == AuthStoreModel::load(
                engine.calls(),
                loaded,
            ),
    {
        let mut engine = engine;
        let data = match engine.load() {
            Ok(data) => data,
            Err(_) => AuthCache::default(),
        };
        Self::from_parts(data, engine)
    }

    /// A store of `data`, with an engine that is taken to keep the same.
    pub fn from_parts(data: AuthCache, engine: E) -> (r: Self)
        ensures
            r@ == (AuthStoreModel { data: data@, calls: engine.calls() }),
    {
        AuthCacheStore { data, engine }
    }

    /// The credentials for an origin.
    pub fn get(&self, origin: &str) -> (r: Option<AuthCacheEntry>)
        ensures
            match r {
                Some(entry) => self@.data.entries.contains_key(origin@)
                    && self@.data.entries[origin@] == entry@,
                None => !self@.data.entries.contains_key(origin@),
            },
    {
        match self.data.entries.get(&origin.to_owned()) {
            Some(entry) => Some(entry.clone()),
            None => None,
        }
    }

    /// Sets the credentials for an origin.
    pub fn set(&mut self, origin: String, entry: AuthCacheEntry)
        ensures
            exists|ok: bool| final(self)@ == #[trigger] old(self)@.set(origin@, entry@, ok),
    {
        let ghost key = origin@;
        self.data.insert(origin.clone(), entry.clone());
        let r = self.engine.set(origin.as_str(), &entry);
        assert(self@ == old(self)@.set(key, entry@, r is Ok));
    }

    /// Forgets the credentials for an origin.
    pub fn delete(&mut self, origin: &str)
        ensures
            exists|ok: bool| final(self)@ == #[trigger] old(self)@.delete(origin@, ok),
    {
        let _ = self.data.entries.remove(&origin.to_owned());
        let r = self.engine.delete(origin);
        assert(self@.data.entries =~= old(self)@.data.entries.remove(origin@));
        assert(self@ == old(self)@.delete(origin@, r is Ok));
    }

    /// Forgets all credentials.
    pub fn clear(&mut self)
        ensures
            exists|ok: bool| final(self)@ == #[trigger] old(self)@.clear(ok),
    {
        self.data.entries.clear();
        let r = self.engine.clear();
        assert(self@.data.entries =~= Map::empty());
        assert(self@ == old(self)@.clear(r is Ok));
    }

    /// Holds other data from now on.
    pub fn replace_all(&mut self, data: AuthCache)
        ensures
            exists|ok: bool| final(self)@ == #[trigger] old(self)@.replace_all(data@, ok),
    {
        self.data = data;
        let r = self.engine.save(&self.data);
        assert(self@ == old(self)@.replace_all(data@, r is Ok));
    }
}

/// A store that could be loaded is in sync with its engine.
pub proof fn law_loaded_store_is_in_sync(calls: Seq<AuthCall>, data: AuthCacheModel)
    ensures
        AuthStoreModel::load(calls, Some(data)).in_sync(),
{
    assert(calls.push(AuthCall::Load(Some(data))).drop_last() =~= calls);
}

/// A store that is in sync with its engine stays so as long as the engine does not fail. To
/// replace everything brings any store back into sync.
pub proof fn law_written_through(
    store: AuthStoreModel,
    origin: Seq<char>,
    entry: AuthEntryModel,
    data: AuthCacheModel,
)
    ensures
        store.in_sync() ==> store.set(origin, entry, true).in_sync(),
        store.in_sync() ==> store.delete(origin, true).in_sync(),
        store.clear(true).in_sync(),
        store.replace_all(data, true).in_sync(),
{
    assert(store.set(origin, entry, true).calls.drop_last() =~= store.calls);
    assert(store.delete(origin, true).calls.drop_last() =~= store.calls);
    assert(store.clear(true).calls.drop_last() =~= store.calls);
    assert(store.replace_all(data, true).calls.drop_last() =~= store.calls);
}

/// What was set for an origin is what it gets, whatever the engine said, until it is set again or
/// deleted; other origins keep theirs.
pub proof fn law_set_then_get(
    store: AuthStoreModel,
    origin: Seq<char>,
    entry: AuthEntryModel,
    ok: bool,
    other: Seq<char>,
)
    ensures
        store.set(origin, entry, ok).data.entries.contains_key(origin),
        store.set(origin, entry, ok).data.entries[origin] == entry,
        !store.delete(origin, ok).data.entries.contains_key(origin),
        !store.clear(ok).data.entries.contains_key(origin),
        other != origin ==> {
            let set = store.set(origin, entry, ok).data.entries;
            let deleted = store.delete(origin, ok).data.entries;
            &&& set.contains_key(other) == store.data.entries.contains_key(other)
            &&& set[other] == store.data.entries[other]
            &&& deleted.contains_key(other) == store.data.entries.contains_key(other)
            &&& deleted[other] == store.data.entries[other]
        },
{
}

/// A store holds what could be loaded, and no credentials, in the current version, where nothing
/// could.
pub proof fn law_store_starts_with_what_was_loaded(
    calls: Seq<AuthCall>,
    data: AuthCacheModel,
    origin: Seq<char>,
)
    ensures
        AuthStoreModel::load(calls, Some(data)).data == data,
        AuthStoreModel::load(calls, None).data.version == 1,
        !AuthStoreModel::load(calls, None).data.entries.contains_key(origin),
{
}

/// The engine is told of each change once, with the origin and the credentials that were set or the
/// origin that was forgotten, and memory has the change whatever the engine says.
pub proof fn law_engine_is_told_once(
    store: AuthStoreModel,
    origin: Seq<char>,
    entry: AuthEntryModel,
    data: AuthCacheModel,
    ok: bool,
)
    ensures
        store.set(origin, entry, ok).calls == store.calls.push(
            AuthCall::Put { origin, entry, ok },
        ),
        store.set(origin, entry, ok).data.entries == store.data.entries.insert(origin, entry),
        store.set(origin, entry, ok).data.version == store.data.version,
        store.delete(origin, ok).calls == store.calls.push(AuthCall::Delete { origin, ok }),
        store.delete(origin, ok).data.entries == store.data.entries.remove(origin),
        store.clear(ok).calls == store.calls.push(AuthCall::Clear { ok }),
        store.clear(ok).data.entries == Map::<Seq<char>, AuthEntryModel>::empty(),
        store.replace_all(data, ok).calls == store.calls.push(AuthCall::Save { data, ok }),
        store.replace_all(data, ok).data == data,
{
}

/// An entry stands for its own user name and its own password.
pub proof fn law_entry_stands_for_its_fields(entry: AuthCacheEntry)
    ensures
        entry@.user_name == entry.user_name@,
        entry@.password == entry.password@,
{
}

} // verus!
