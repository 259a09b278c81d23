//! The hosts that are talked to over TLS only, in memory and in an engine.
use crate::net::hosts::{is_address, is_subdomain};
use crate::net::hsts::{
    end_of, lemma_pushed, law_entry_takes_effect, law_wish_holds_for_these_hosts, HstsEntry, HstsEntryModel, HstsList,
    HstsListModel, IncludeSubdomains,
};
use crate::net::url::{ServoUrl, UrlModel};
use headers::{HeaderMapExt, StrictTransportSecurity};
use http::{HeaderMap, HeaderValue};
use vstd::prelude::*;

verus! {

/// The headers of a response.
#[verifier::external_type_specification]
#[verifier::external_body]
#[verifier::reject_recursive_types(T)]
pub struct ExHeaderMap<T>(http::HeaderMap<T>);

/// The value of a header.
#[verifier::external_type_specification]
#[verifier::external_body]
pub struct ExHeaderValue(http::HeaderValue);

/// The values in a header map, in order, by the name of the header in lower case.
pub uninterp spec fn header_values(headers: HeaderMap<HeaderValue>) -> Map<Seq<char>, Seq<Seq<u8>>>;

/// What a value of the header `Strict-Transport-Security` says: for how many seconds, and whether
/// for subdomains too. Nothing where the value is malformed.
pub uninterp spec fn transport_security(value: Seq<u8>) -> Option<(u64, bool)>;

/// The value of a header that has exactly one.
pub open spec fn single_value(values: Map<Seq<char>, Seq<Seq<u8>>>, name: Seq<char>) -> Option<
    Seq<u8>,
> {
    if values.contains_key(name) && values[name].len() == 1 {
        Some(values[name][0])
    } else {
        None
    }
}

/// What the header `Strict-Transport-Security` says, by `typed_get` of the `headers` crate: where
/// the header is there exactly once, what its value says, and nothing otherwise. What a value says
/// is left unsaid here but for its being a function of the value.
#[verifier::external_body]
fn strict_transport_security(headers: &HeaderMap<HeaderValue>) -> (r: Option<(u64, bool)>)
    ensures
        r == (match single_value(header_values(*headers), "strict-transport-security"@) {
            Some(value) => transport_security(value),
            None => None,
        }),
{
    headers
        .typed_get::<StrictTransportSecurity>()
        .map(|header| (header.max_age().as_secs(), header.include_subdomains()))
}

/// What headers with these values say about transport security.
pub open spec fn asked_for(values: Map<Seq<char>, Seq<Seq<u8>>>) -> Option<(u64, bool)> {
    match single_value(values, "strict-transport-security"@) {
        Some(value) => transport_security(value),
        None => None,
    }
}

/// A call that an engine answered. `ok` tells whether it succeeded.
#[allow(inconsistent_fields)]
pub enum HstsCall {
    /// Succeeded with what was loaded, or failed.
    Load(Option<HstsListModel>),
    Upsert { entry: HstsEntryModel, base_domain: Seq<char>, ok: bool },
    Delete { host: Seq<char>, ok: bool },
    Clear { ok: bool },
    Save { data: HstsListModel, ok: bool },
}

/// The calls that an engine answered, in order.
pub type HstsHistory = Seq<HstsCall>;

/// Keeps a list of hosts.
pub trait HstsListEngine: Sized {
    type Error;

    /// The calls that were answered, in order.
    spec fn calls(&self) -> HstsHistory;

    /// Everything that is kept.
    fn load(&mut self) -> (r: Result<HstsList, Self::Error>)
        ensures
            final(self).calls() == old(self).calls().push(
                HstsCall::Load(
                    match r {
                        Ok(data) => Some(data@),
                        Err(_) => None,
                    },
                ),
            ),
    ;

    /// Keeps an entry, in place of the one that its host had.
    fn upsert(&mut self, entry: &HstsEntry, base_domain: &str) -> (r: Result<(), Self::Error>)
        ensures
            final(self).calls() == old(self).calls().push(
                HstsCall::Upsert { entry: entry@, base_domain: base_domain@, ok: r is Ok },
            ),
    ;

    /// Forgets the entry of a host.
    fn delete(&mut self, host: &str) -> (r: Result<(), Self::Error>)
        ensures
            final(self).calls() == old(self).calls().push(
                HstsCall::Delete { host: host@, ok: r is Ok },
            ),
    ;

    /// Forgets everything.
    fn clear(&mut self) -> (r: Result<(), Self::Error>)
        ensures
            final(self).calls() == old(self).calls().push(HstsCall::Clear { ok: r is Ok }),
    ;

    /// Keeps exactly what is given.
    fn save(&mut self, data: &HstsList) -> (r: Result<(), Self::Error>)
        ensures
            final(self).calls() == old(self).calls().push(
                HstsCall::Save { data: data@, ok: r is Ok },
            ),
    ;
}

/// What an `HstsStore` stands for: what it holds, and what it asked of its engine.
pub struct HstsStoreModel {
    pub data: HstsListModel,
    pub calls: Seq<HstsCall>,
}

/// The entry that a response makes, if it makes one: it has to have come over TLS, from a host
/// with a name, with a header that says so.
pub open spec fn noted(url: UrlModel, header: Option<(u64, bool)>, now: u64) -> Option<
    HstsEntryModel,
> {
    match (url.domain(), header) {
        (Some(host), Some((max_age, include_subdomains))) => if url.is_secure() && !is_address(
            host,
        ) {
            Some(
                HstsEntryModel { host, include_subdomains, expires_at: Some(end_of(now, max_age)) },
            )
        } else {
            None
        },
        _ => None,
    }
}

impl HstsStoreModel {
    /// The store that holds what an engine with these calls behind it was able to load.
    pub open spec fn load(calls: Seq<HstsCall>, loaded: Option<HstsListModel>) -> HstsStoreModel {
        HstsStoreModel {
            data: match loaded {
                Some(data) => data,
                None => HstsListModel::empty(),
            },
            calls: calls.push(HstsCall::Load(loaded)),
        }
    }

    /// Puts an entry in. The engine keeps it, or forgets its host where it has ended.
    pub open spec fn push(
        self,
        entry: HstsEntryModel,
        base_domain: Seq<char>,
        now: u64,
        ok: bool,
    ) -> HstsStoreModel {
        HstsStoreModel {
            data: self.data.push(entry, base_domain),
            calls: self.calls.push(
                if entry.is_expired(now) {
                    HstsCall::Delete { host: entry.host, ok }
                } else {
                    HstsCall::Upsert { entry, base_domain, ok }
                },
            ),
        }
    }

    /// Puts the entry in that a response makes, if it makes one.
    pub open spec fn update(
        self,
        url: UrlModel,
        header: Option<(u64, bool)>,
        base_domain: Seq<char>,
        now: u64,
        ok: bool,
    ) -> HstsStoreModel {
        match noted(url, header, now) {
            Some(entry) => self.push(entry, base_domain, now, ok),
            None => self,
        }
    }

    /// Forgets all entries, in memory and in the engine.
    pub open spec fn clear(self, ok: bool) -> HstsStoreModel {
        HstsStoreModel {
            data: HstsListModel::empty(),
            calls: self.calls.push(HstsCall::Clear { ok }),
        }
    }

    /// Holds other data, in memory and in the engine.
    pub open spec fn replace_all(self, data: HstsListModel, ok: bool) -> HstsStoreModel {
        HstsStoreModel { data, calls: self.calls.push(HstsCall::Save { data, ok }) }
    }
}

/// The hosts in memory, written through to an engine. A failure of the engine changes nothing in
/// memory.
pub struct HstsStore<E: HstsListEngine> {
    data: HstsList,
    engine: E,
}

impl<E: HstsListEngine> View for HstsStore<E> {
    type V = HstsStoreModel;

    closed spec fn view(&self) -> HstsStoreModel {
        HstsStoreModel { data: self.data@, calls: self.engine.calls() }
    }
}

impl<E: HstsListEngine> HstsStore<E> {
    /// The store of what the engine keeps. Where it cannot be loaded, the store is empty.
    pub fn load(engine: E) -> (r: Self)
        ensures
            r@.calls.len() > 0,
            r@.calls.last() matches HstsCall::Load(loaded) && r@ == HstsStoreModel::load(
                engine.calls(),
                loaded,
            ),
    {
        let mut engine = engine;
        let data = match engine.load() {
            Ok(data) => data,
            Err(_) => HstsList::default(),
        };
        Self::from_parts(data, engine)
    }

    /// A store of `data`, with an engine that is taken to keep the same.
    pub fn from_parts(data: HstsList, engine: E) -> (r: Self)
        ensures
            r@ == (HstsStoreModel { data: data@, calls: engine.calls() }),
    {
        HstsStore { data, engine }
    }

    /// Whether a host is to be talked to over TLS only. `base_domain` is its registrable domain.
    pub fn is_host_secure(&self, host: &str, base_domain: &str, now: u64) -> (r: bool)
        ensures
            r == self@.data.is_host_secure(host@, base_domain@, now),
    {
        self.data.is_host_secure(host, base_domain, now)
    }

    /// Changes the scheme of a URL to the one over TLS where its host is to be talked to that way
    /// only. `base_domain` is the registrable domain of the host.
    pub fn apply_hsts_rules(&self, url: &mut ServoUrl, base_domain: &str, now: u64)
        ensures
            final(url)@ == self@.data.upgraded(old(url)@, base_domain@, now),
    {
        self.data.apply_hsts_rules(url, base_domain, now);
    }

    /// Puts an entry in. `base_domain` is the registrable domain of its host.
    pub fn push(&mut self, entry: HstsEntry, base_domain: &str, now: u64)
        ensures
            exists|ok: bool|
                final(self)@ == #[trigger] old(self)@.push(entry@, base_domain@, now, ok),
    {
        self.data.push(entry.clone(), base_domain);
        let ok = self.persist_entry(&entry, base_domain, now);
        assert(self@ == old(self)@.push(entry@, base_domain@, now, ok));
    }

    /// Takes note of what a response from a URL asks for. `base_domain` is the registrable domain
    /// of the URL's host.
    pub fn update_from_response(
        &mut self,
        url: &ServoUrl,
        headers: &HeaderMap<HeaderValue>,
        base_domain: &str,
        now: u64,
    )
        ensures
            exists|ok: bool|
                final(self)@ == #[trigger] old(self)@.update(
                    url@,
                    asked_for(header_values(*headers)),
                    base_domain@,
                    now,
                    ok,
                ),
    {
        let header = strict_transport_security(headers);
        self.update_from_header(url, header, base_domain, now);
    }

    /// Takes note of what the header of a response from a URL asks for: for how many seconds, and
    /// whether for subdomains too.
    pub fn update_from_header(
        &mut self,
        url: &ServoUrl,
        header: Option<(u64, bool)>,
        base_domain: &str,
        now: u64,
    )
        ensures
            exists|ok: bool|
                final(self)@ == #[trigger] old(self)@.update(
                    url@,
                    header,
                    base_domain@,
                    now,
                    ok,
                ),
    {
        assert(noted(url@, header, now) is None ==> old(self)@ == old(self)@.update(
            url@,
            header,
            base_domain@,
            now,
            true,
        ));
        if !url.is_secure_scheme() {
            return;
        }
        let (max_age, includes): (u64, bool) = match header {
            Some(said) => said,
            None => {
                return;
            },
        };
        let host = match url.domain() {
            Some(host) => host.to_owned(),
            None => {
                return;
            },
        };
        let subdomains = if includes {
            IncludeSubdomains::Included
        } else {
            IncludeSubdomains::NotIncluded
        };
        let entry = match HstsEntry::new(host, subdomains, Some(max_age), now) {
            Some(entry) => entry,
            None => {
                return;
            },
        };
        self.data.push(entry.clone(), base_domain);
        let ok = self.persist_entry(&entry, base_domain, now);
        assert(noted(url@, header, now) == Some(entry@));
        assert(self@ == old(self)@.update(url@, header, base_domain@, now, ok));
    }

    /// Forgets all entries.
    pub fn clear(&mut self)
        ensures
            exists|ok: bool| final(self)@ == #[trigger] old(self)@.clear(ok),
    {
        self.data.entries_map.clear();
        let r = self.engine.clear();
        assert(self@.data.entries_map =~= Map::empty());
        assert(self@ == old(self)@.clear(r is Ok));
    }

    /// Holds other data from now on.
    pub fn replace_all(&mut self, data: HstsList)
        ensures
            exists|ok: bool| final(self)@ == #[trigger] old(self)@.replace_all(data@, ok),
    {
        self.data = data;
        let r = self.engine.save(&self.data);
        assert(self@ == old(self)@.replace_all(data@, r is Ok));
    }

    fn persist_entry(&mut self, entry: &HstsEntry, base_domain: &str, now: u64) -> (ok: bool)
        ensures
            final(self)@ == (HstsStoreModel {
                data: old(self)@.data,
                calls: old(self)@.calls.push(
                    if entry@.is_expired(now) {
                        HstsCall::Delete { host: entry@.host, ok }
                    } else {
                        HstsCall::Upsert { entry: entry@, base_domain: base_domain@, ok }
                    },
                ),
            }),
    {
        if entry.is_expired(now) {
            return self.engine.delete(entry.host.as_str()).is_ok();
        }
        self.engine.upsert(entry, base_domain).is_ok()
    }
}

/// Whether an engine, if it keeps what it is told to keep, keeps an entry for a host in a
/// registrable domain after some calls.
pub open spec fn kept(calls: Seq<HstsCall>, base_domain: Seq<char>, entry: HstsEntryModel) -> bool
    decreases calls.len(),
{
    if calls.len() == 0 {
        false
    } else {
        let before = kept(calls.drop_last(), base_domain, entry);
        match calls.last() {
            HstsCall::Load(Some(data)) => data.bucket(base_domain).contains(entry),
            HstsCall::Upsert { entry: put, base_domain: base, ok: true } => if put.host
                == entry.host {
                put == entry && base == base_domain
            } else {
                before
            },
            HstsCall::Delete { host, ok: true } => host != entry.host && before,
            HstsCall::Clear { ok: true } => false,
            HstsCall::Save { data, ok: true } => data.bucket(base_domain).contains(entry),
            _ => before,
        }
    }
}

impl HstsStoreModel {
    /// Whether memory and engine have the same entries, but for those that have ended.
    pub open spec fn in_sync(self, now: u64) -> bool {
        forall|base_domain: Seq<char>, entry: HstsEntryModel|
            !entry.is_expired(now) ==> (#[trigger] self.data.bucket(base_domain).contains(entry)
                <==> kept(self.calls, base_domain, entry))
    }

    /// Whether each entry stands under the registrable domain of its host.
    pub open spec fn in_place(self, base_of: spec_fn(Seq<char>) -> Seq<char>) -> bool {
        forall|base_domain: Seq<char>, entry: HstsEntryModel| #[trigger]
            self.data.bucket(base_domain).contains(entry) ==> base_domain == base_of(entry.host)
    }
}

/// A store that could be loaded is in sync with its engine.
pub proof fn law_loaded_store_is_in_sync(calls: Seq<HstsCall>, data: HstsListModel, now: u64)
    ensures
        HstsStoreModel::load(calls, Some(data)).in_sync(now),
{
}

/// A store that is in sync with its engine stays so as long as the engine does not fail. To
/// replace or forget everything brings any store into sync.
pub proof fn law_written_through(
    store: HstsStoreModel,
    put: HstsEntryModel,
    data: HstsListModel,
    base_of: spec_fn(Seq<char>) -> Seq<char>,
    now: u64,
)
    requires
        store.in_place(base_of),
    ensures
        store.in_sync(now) ==> store.push(put, base_of(put.host), now, true).in_sync(now),
        store.push(put, base_of(put.host), now, true).in_place(base_of),
        store.clear(true).in_sync(now),
        store.replace_all(data, true).in_sync(now),
{
    let base = base_of(put.host);
    let after = store.push(put, base, now, true);
    assert(after.calls.drop_last() =~= store.calls);
    assert forall|base_domain: Seq<char>, entry: HstsEntryModel| #[trigger]
        after.data.bucket(base_domain).contains(entry) implies base_domain == base_of(
        entry.host,
    ) by {
        lemma_pushed(store.data, put, base, entry);
        assert(base_domain != base ==> after.data.bucket(base_domain) == store.data.bucket(
            base_domain,
        ));
        assert(store.data.bucket(base_domain).contains(entry) ==> base_domain == base_of(
            entry.host,
        ));
    }
    if store.in_sync(now) {
        assert forall|base_domain: Seq<char>, entry: HstsEntryModel|
            !entry.is_expired(now) implies (#[trigger] after.data.bucket(base_domain).contains(
            entry,
        ) <==> kept(after.calls, base_domain, entry)) by {
            lemma_pushed(store.data, put, base, entry);
            assert(base_domain != base ==> after.data.bucket(base_domain) == store.data.bucket(
                base_domain,
            ));
            assert(store.data.bucket(base_domain).contains(entry) <==> kept(
                store.calls,
                base_domain,
                entry,
            ));
        }
    }
    assert forall|base_domain: Seq<char>, entry: HstsEntryModel|
        !(#[trigger] store.clear(true).data.bucket(base_domain).contains(entry)) by {}
}

/// A response over a connection without TLS changes nothing, nor does one without a well-formed
/// header or one from an address.
pub proof fn law_response_without_a_claim_is_ignored(
    store: HstsStoreModel,
    url: UrlModel,
    header: Option<(u64, bool)>,
    base_domain: Seq<char>,
    now: u64,
    ok: bool,
)
    requires
        !url.is_secure() || header is None || url.domain() is None,
    ensures
        store.update(url, header, base_domain, now, ok) == store,
{
}

/// After a response whose header asks for it for a while, its host is talked to over TLS only.
pub proof fn law_response_takes_effect(
    store: HstsStoreModel,
    url: UrlModel,
    host: Seq<char>,
    max_age: u64,
    include_subdomains: bool,
    base_domain: Seq<char>,
    now: u64,
    ok: bool,
)
    requires
        url.is_secure(),
        url.domain() == Some(host),
        !is_address(host),
        max_age > 0,
        now < u64::MAX,
    ensures
        store.update(
            url,
            Some((max_age, include_subdomains)),
            base_domain,
            now,
            ok,
        ).data.is_host_secure(host, base_domain, now),
{
    let entry = HstsEntryModel {
        host,
        include_subdomains,
        expires_at: Some(end_of(now, max_age)),
    };
    law_entry_takes_effect(store.data, entry, base_domain, host, now);
}

/// A response over TLS from a host with a name makes an entry for that host, for its subdomains
/// exactly where the header says so, that ends as many seconds later as the header says. No other
/// response makes one.
pub proof fn law_response_makes_this_entry(
    url: UrlModel,
    host: Seq<char>,
    max_age: u64,
    include_subdomains: bool,
    header: Option<(u64, bool)>,
    now: u64,
)
    ensures
        url.is_secure() && url.domain() == Some(host) && !is_address(host) ==> (noted(
            url,
            Some((max_age, include_subdomains)),
            now,
        ) matches Some(entry) && entry.host == host && entry.include_subdomains
            == include_subdomains && entry.expires_at == Some(end_of(now, max_age))),
        noted(url, header, now) is Some ==> url.is_secure() && header is Some
            && url.domain() is Some && !is_address(url.domain()->0),
{
}

/// After a response over TLS, subdomains of its host are talked to over TLS only exactly where the
/// header says so, and only for as long as it says.
pub proof fn law_response_speaks_for_subdomains(
    calls: Seq<HstsCall>,
    url: UrlModel,
    host: Seq<char>,
    max_age: u64,
    include_subdomains: bool,
    base_domain: Seq<char>,
    now: u64,
    ok: bool,
    sub: Seq<char>,
    later: u64,
)
    requires
        url.is_secure(),
        url.domain() == Some(host),
        !is_address(host),
        0 < now + max_age <= u64::MAX,
        is_subdomain(sub, host),
    ensures
        ({
            let after = HstsStoreModel { data: HstsListModel::empty(), calls }.update(
                url,
                Some((max_age, include_subdomains)),
                base_domain,
                now,
                ok,
            ).data;
            &&& after.is_host_secure(host, base_domain, later) <==> later < now + max_age
            &&& after.is_host_secure(sub, base_domain, later) <==> include_subdomains && later < now
                + max_age
        }),
{
    let store = HstsStoreModel { data: HstsListModel::empty(), calls };
    let after = store.update(
        url,
        Some((max_age, include_subdomains)),
        base_domain,
        now,
        ok,
    ).data;
    let entry = HstsEntryModel {
        host,
        include_subdomains,
        expires_at: Some(end_of(now, max_age)),
    };
    law_wish_holds_for_these_hosts(entry, sub, end_of(now, max_age), later);
    law_wish_holds_for_these_hosts(entry, host, end_of(now, max_age), later);
    assert(after == HstsListModel::empty().push(entry, base_domain));
    assert(HstsListModel::empty().bucket(base_domain) =~= Seq::empty());
    assert(after.bucket(base_domain) =~= seq![entry]);
    assert(after.bucket(base_domain)[0] == entry);
}

/// The engine is told of each change once: to keep the entry under the registrable domain where it
/// has not ended, to forget its host where it has.
pub proof fn law_engine_is_told_once(
    store: HstsStoreModel,
    entry: HstsEntryModel,
    base_domain: Seq<char>,
    data: HstsListModel,
    now: u64,
    ok: bool,
)
    ensures
        !entry.is_expired(now) ==> store.push(entry, base_domain, now, ok).calls
            == store.calls.push(HstsCall::Upsert { entry, base_domain, ok }),
        entry.is_expired(now) ==> store.push(entry, base_domain, now, ok).calls
            == store.calls.push(HstsCall::Delete { host: entry.host, ok }),
        store.clear(ok).calls == store.calls.push(HstsCall::Clear { ok }),
        store.clear(ok).data == HstsListModel::empty(),
        store.replace_all(data, ok).calls == store.calls.push(HstsCall::Save { data, ok }),
        store.replace_all(data, ok).data == data,
{
}

/// A store holds what could be loaded, and no hosts where nothing could.
pub proof fn law_store_starts_with_what_was_loaded(
    calls: Seq<HstsCall>,
    data: HstsListModel,
    host: Seq<char>,
    base_domain: Seq<char>,
    now: u64,
)
    ensures
        HstsStoreModel::load(calls, Some(data)).data == data,
        !HstsStoreModel::load(calls, None).data.is_host_secure(host, base_domain, now),
{
}

/// What headers say about transport security is what the one value of `strict-transport-security`
/// says; without one, or with several, they say nothing.
pub proof fn law_one_header_value_counts(values: Map<Seq<char>, Seq<Seq<u8>>>, value: Seq<u8>)
    ensures
        values.contains_key("strict-transport-security"@)
            && values["strict-transport-security"@] == seq![value] ==> asked_for(values)
            == transport_security(value),
        !values.contains_key("strict-transport-security"@) ==> asked_for(values) is None,
        values.contains_key("strict-transport-security"@)
            && values["strict-transport-security"@].len() != 1 ==> asked_for(values) is None,
{
}

} // verus!
