//! The cookies, in memory and in an engine.
use crate::net::cookie::{
    is_time, may_store, parsed_cookie, wrapped, Cookie, CookieSource, ServoCookie, ServoCookieModel,
};
use crate::net::cookie_storage::{
    as_put, cookies, header, law_appropriate_cookies_are_sent, law_forgotten_cookies_are_gone,
    law_pushed_cookie_is_there, named, sent, site_names, CookieStorage, SiteDescriptor, StorageModel,
    TestModel,
};
use crate::net::url::{ServoUrl, UrlModel};
use crate::text::{optional_text, owned_text, texts};
use vstd::prelude::*;

verus! {

/// How many cookies a registrable domain may have.
pub const DEFAULT_MAX_COOKIES_PER_HOST: usize = 150;

/// A call that an engine answered. `ok` tells whether it succeeded.
#[allow(inconsistent_fields)]
pub enum JarCall {
    /// Succeeded with what was loaded, or failed.
    Load { max_per_host: nat, loaded: Option<StorageModel> },
    Upsert { bucket_domain: Seq<char>, cookie: ServoCookieModel, ok: bool },
    Delete {
        bucket_domain: Seq<char>,
        name: Seq<char>,
        cookie_domain: Seq<char>,
        path: Seq<char>,
        ok: bool,
    },
    DeleteForRegHost { reg_host: Seq<char>, ok: bool },
    DeleteSession { ok: bool },
    Clear { ok: bool },
    Save { data: StorageModel, ok: bool },
}

/// The calls that an engine answered, in order.
pub type JarHistory = Seq<JarCall>;

/// Keeps cookies.
pub trait CookieJarEngine: Sized {
    type Error;

    /// The calls that were answered, in order.
    spec fn calls(&self) -> JarHistory;

    /// Everything that is kept and has outlived the session.
    fn load(&mut self, max_per_host: usize) -> (r: Result<CookieStorage, Self::Error>)
        ensures
            final(self).calls() == old(self).calls().push(
                JarCall::Load {
                    max_per_host: max_per_host as nat,
                    loaded: match r {
                        Ok(data) => Some(data@),
                        Err(_) => None,
                    },
                },
            ),
    ;

    /// Keeps a cookie, in place of the one with the same name, domain and path.
    fn upsert(&mut self, bucket_domain: &str, cookie: &ServoCookie) -> (r: Result<
        (),
        Self::Error,
    >)
        ensures
            final(self).calls() == old(self).calls().push(
                JarCall::Upsert {
                    bucket_domain: bucket_domain@,
                    cookie: cookie@,
                    ok: r is Ok,
                },
            ),
    ;

    /// Forgets a cookie.
    fn delete(
        &mut self,
        bucket_domain: &str,
        name: &str,
        cookie_domain: &str,
        path: &str,
    ) -> (r: Result<(), Self::Error>)
        ensures
            final(self).calls() == old(self).calls().push(
                JarCall::Delete {
                    bucket_domain: bucket_domain@,
                    name: name@,
                    cookie_domain: cookie_domain@,
                    path: path@,
                    ok: r is Ok,
                },
            ),
    ;

    /// Forgets the cookies of a registrable domain.
    fn delete_for_reg_host(&mut self, reg_host: &str) -> (r: Result<(), Self::Error>)
        ensures
            final(self).calls() == old(self).calls().push(
                JarCall::DeleteForRegHost { reg_host: reg_host@, ok: r is Ok },
            ),
    ;

    /// Forgets the cookies that do not outlive the session.
    fn delete_session_cookies(&mut self) -> (r: Result<(), Self::Error>)
        ensures
            final(self).calls() == old(self).calls().push(JarCall::DeleteSession { ok: r is Ok }),
    ;

    /// Forgets everything.
    fn clear(&mut self) -> (r: Result<(), Self::Error>)
        ensures
            final(self).calls() == old(self).calls().push(JarCall::Clear { ok: r is Ok }),
    ;

    /// Keeps exactly what is given.
    fn save(&mut self, data: &CookieStorage) -> (r: Result<(), Self::Error>)
        ensures
            final(self).calls() == old(self).calls().push(
                JarCall::Save { data: data@, ok: r is Ok },
            ),
    ;
}

/// What a `CookieJarStore` stands for: what it holds, and what it asked of its engine.
pub struct JarModel {
    pub data: StorageModel,
    pub calls: Seq<JarCall>,
}

/// The calls that forget registrable domains one after another, all of them with success.
pub open spec fn deletions(sites: Seq<Seq<char>>) -> Seq<JarCall> {
    sites.map_values(|site: Seq<char>| JarCall::DeleteForRegHost { reg_host: site, ok: true })
}

impl JarModel {
    /// The store that holds what an engine with these calls behind it was able to load.
    pub open spec fn load(
        calls: Seq<JarCall>,
        max_per_host: nat,
        loaded: Option<StorageModel>,
    ) -> JarModel {
        JarModel {
            data: match loaded {
                Some(data) => data,
                None => StorageModel::empty(max_per_host),
            },
            calls: calls.push(JarCall::Load { max_per_host, loaded }),
        }
    }

    /// Holds these cookies, with nothing asked of the engine.
    pub open spec fn holding(self, data: StorageModel) -> JarModel {
        JarModel { data, calls: self.calls }
    }

    /// With one more call behind the engine.
    pub open spec fn called(self, call: JarCall) -> JarModel {
        JarModel { data: self.data, calls: self.calls.push(call) }
    }

    /// With everything that is held handed to the engine.
    pub open spec fn snapshot(self, saved: bool) -> JarModel {
        self.called(JarCall::Save { data: self.data, ok: saved })
    }

    /// With everything that is held handed to the engine where the call before failed.
    pub open spec fn fallback(self, ok: bool, saved: bool) -> JarModel {
        if ok {
            self
        } else {
            self.snapshot(saved)
        }
    }

    /// Puts a new cookie in. Where it is not refused, the engine is told of it and then handed
    /// everything.
    pub open spec fn push(
        self,
        cookie: ServoCookieModel,
        url: UrlModel,
        source: CookieSource,
        bucket_domain: Seq<char>,
        now: i128,
        ok: bool,
        saved: bool,
    ) -> JarModel {
        let (data, accepted) = self.data.push(cookie, url, source, bucket_domain, now);
        if accepted {
            self.holding(data).called(JarCall::Upsert { bucket_domain, cookie, ok }).snapshot(saved)
        } else {
            self
        }
    }

    /// The cookies of a registrable domain, without those that have ended.
    pub open spec fn current(self, base: Seq<char>, now: i128) -> StorageModel {
        self.data.keep_in(base, TestModel::Live(now))
    }

    /// Looks up the cookies that go with a request.
    pub open spec fn look_up(
        self,
        url: UrlModel,
        source: CookieSource,
        base: Seq<char>,
        now: i128,
    ) -> JarModel {
        self.holding(self.current(base, now).touch(url, source, base, now))
    }

    /// Forgets the cookies of some registrable domains. The engine is told of one after another;
    /// where it fails, after the first `done` of them, it is handed everything instead.
    pub open spec fn delete_sites(
        self,
        sites: Seq<Seq<char>>,
        done: int,
        saved: bool,
    ) -> JarModel {
        let data = self.data.without(sites);
        let told = JarModel { data, calls: self.calls + deletions(sites.take(done)) };
        if done < sites.len() {
            told.called(
                JarCall::DeleteForRegHost { reg_host: sites[done], ok: false },
            ).snapshot(saved)
        } else {
            told
        }
    }

    /// Forgets the cookies that do not outlive the session.
    pub open spec fn clear_session_cookies(self, ok: bool, saved: bool) -> JarModel {
        self.holding(self.data.keep(TestModel::Persistent)).called(
            JarCall::DeleteSession { ok },
        ).fallback(ok, saved)
    }

    /// Forgets the cookies of a registrable domain, or all.
    pub open spec fn clear_storage(
        self,
        base: Option<Seq<char>>,
        ok: bool,
        saved: bool,
    ) -> JarModel {
        match base {
            Some(base) => self.holding(self.data.with(self.data.cookies_map.remove(base))).called(
                JarCall::DeleteForRegHost { reg_host: base, ok },
            ).fallback(ok, saved),
            None => self.holding(self.data.with(Map::empty())).called(
                JarCall::Clear { ok },
            ).fallback(ok, saved),
        }
    }
}

/// The cookies in memory, written through to an engine. A failure of the engine changes nothing in
/// memory.
pub struct CookieJarStore<E: CookieJarEngine> {
    data: CookieStorage,
    engine: E,
}

impl<E: CookieJarEngine> View for CookieJarStore<E> {
    type V = JarModel;

    closed spec fn view(&self) -> JarModel {
        JarModel { data: self.data@, calls: self.engine.calls() }
    }
}

impl<E: CookieJarEngine> CookieJarStore<E> {
    /// The store of what the engine keeps. Where it cannot be loaded, the store is empty.
    pub fn load(engine: E, max_per_host: usize) -> (r: Self)
        ensures
            r@.calls.len() > 0,
            r@.calls.last() matches JarCall::Load { loaded, .. } && r@ == JarModel::load(
                engine.calls(),
                max_per_host as nat,
                loaded,
            ),
    {
        let mut engine = engine;
        let data = match engine.load(max_per_host) {
            Ok(data) => data,
            Err(_) => CookieStorage::new(max_per_host),
        };
        Self::from_parts(data, engine)
    }

    /// A store of `data`, with an engine that is taken to keep the same.
    pub fn from_parts(data: CookieStorage, engine: E) -> (r: Self)
        ensures
            r@ == (JarModel { data: data@, calls: engine.calls() }),
    {
        CookieJarStore { data, engine }
    }

    /// Puts a new cookie from a URL in. `bucket_domain` is the registrable domain of the cookie's
    /// domain.
    pub fn push(
        &mut self,
        cookie: ServoCookie,
        url: &ServoUrl,
        source: CookieSource,
        bucket_domain: &str,
        now: i128,
    )
        ensures
            exists|ok: bool, saved: bool|
                final(self)@ == #[trigger] old(self)@.push(
                    cookie@,
                    url@,
                    source,
                    bucket_domain@,
                    now,
                    ok,
                    saved,
                ),
    {
        if !self.data.push(cookie.clone(), url, source, bucket_domain, now) {
            assert(self@ == old(self)@.push(
                cookie@,
                url@,
                source,
                bucket_domain@,
                now,
                true,
                true,
            ));
            return;
        }
        let told = self.engine.upsert(bucket_domain, &cookie);
        let saved = self.save_all();
        assert(self@ == old(self)@.push(
            cookie@,
            url@,
            source,
            bucket_domain@,
            now,
            told is Ok,
            saved,
        ));
    }

    /// Puts the cookie in that a URL sets by a text. `public_suffix` tells whether the domain that
    /// the cookie asks for is a public suffix, and `bucket_domain` is the registrable domain of
    /// the domain that it gets.
    pub fn set_cookie_for_url(
        &mut self,
        request: &ServoUrl,
        cookie_val: &str,
        source: CookieSource,
        public_suffix: bool,
        bucket_domain: &str,
        now: i128,
    )
        requires
            is_time(now),
        ensures
            match parsed_cookie(cookie_val@) {
                Some(cookie) => if may_store(cookie, request@, source, public_suffix) {
                    exists|ok: bool, saved: bool|
                        final(self)@ == #[trigger] old(self)@.push(
                            wrapped(cookie, request@, public_suffix, now),
                            request@,
                            source,
                            bucket_domain@,
                            now,
                            ok,
                            saved,
                        )
                } else {
                    final(self)@ == old(self)@
                },
                None => final(self)@ == old(self)@,
            },
    {
        let cookie = ServoCookie::from_cookie_string(
            cookie_val,
            request,
            source,
            public_suffix,
            now,
        );
        match cookie {
            Some(cookie) => self.push(cookie, request, source, bucket_domain, now),
            None => {},
        }
    }

    /// The text that goes with a request to a URL, if there is one. `base` is the registrable
    /// domain of the URL's host.
    pub fn cookies_for_url(
        &mut self,
        url: &ServoUrl,
        source: CookieSource,
        base: &str,
        now: i128,
    ) -> (r: Option<String>)
        ensures
            final(self)@ == old(self)@.look_up(url@, source, base@, now),
            ({
                let chosen = old(self)@.current(base@, now).cookies_for(url@, source, base@);
                match r {
                    Some(text) => chosen.len() > 0 && text@ == header(sent(chosen)),
                    None => chosen.len() == 0,
                }
            }),
    {
        self.data.remove_expired_cookies_for_url(base, now);
        self.data.cookies_for_url(url, source, base, now)
    }

    /// The cookies that go with a request to a URL, in order. `base` is the registrable domain of
    /// the URL's host.
    pub fn cookies_data_for_url(
        &mut self,
        url: &ServoUrl,
        source: CookieSource,
        base: &str,
        now: i128,
    ) -> (r: Vec<Cookie>)
        ensures
            final(self)@ == old(self)@.look_up(url@, source, base@, now),
            cookies(r@) == sent(
                old(self)@.current(base@, now).cookies_for(url@, source, base@),
            ),
    {
        self.data.remove_expired_cookies_for_url(base, now);
        self.data.cookies_data_for_url(url, source, base, now)
    }

    /// The cookies that a script at a URL may see, in order, or those of them that have a name.
    /// `base` is the registrable domain of the URL's host.
    pub fn query_cookies(
        &mut self,
        url: &ServoUrl,
        name: Option<String>,
        base: &str,
        now: i128,
    ) -> (r: Vec<Cookie>)
        ensures
            final(self)@ == old(self)@.look_up(url@, CookieSource::NonHTTP, base@, now),
            cookies(r@) == named(
                sent(
                    old(self)@.current(base@, now).cookies_for(
                        url@,
                        CookieSource::NonHTTP,
                        base@,
                    ),
                ),
                owned_text(name),
            ),
    {
        self.data.remove_expired_cookies_for_url(base, now);
        self.data.query_cookies(url, name, base, now)
    }

    /// Forgets the cookies of some registrable domains.
    pub fn delete_cookies_for_sites(&mut self, sites: &Vec<String>)
        ensures
            exists|done: int, saved: bool|
                0 <= done <= sites@.len() && final(self)@ == #[trigger] old(self)@.delete_sites(
                    texts(sites@),
                    done,
                    saved,
                ),
    {
        self.data.delete_cookies_for_sites(sites);
        let ghost all = texts(sites@);
        let ghost data = self@.data;
        let mut i: usize = 0;
        assert(self@.calls =~= old(self)@.calls + deletions(all.take(0)));
        while i < sites.len()
            invariant
                i <= sites@.len(),
                all == texts(sites@),
                self@.data == data,
                data == old(self)@.data.without(all),
                self@.calls == old(self)@.calls + deletions(all.take(i as int)),
            decreases sites@.len() - i,
        {
            let ghost before = self@.calls;
            let told = self.engine.delete_for_reg_host(sites[i].as_str());
            if told.is_err() {
                let saved = self.save_all();
                assert(self@ == old(self)@.delete_sites(all, i as int, saved));
                return;
            }
            assert(all.take(i + 1) =~= all.take(i as int).push(all[i as int]));
            assert(self@.calls =~= old(self)@.calls + deletions(all.take(i + 1)));
            i += 1;
        }
        assert(self@ == old(self)@.delete_sites(all, i as int, true));
    }

    /// Forgets the cookies that do not outlive the session.
    pub fn clear_session_cookies(&mut self)
        ensures
            exists|ok: bool, saved: bool|
                final(self)@ == #[trigger] old(self)@.clear_session_cookies(ok, saved),
    {
        self.data.clear_session_cookies();
        let told = self.engine.delete_session_cookies();
        let ok = told.is_ok();
        let saved = ok || self.save_all();
        assert(self@ == old(self)@.clear_session_cookies(ok, saved));
    }

    /// Forgets the cookies of the registrable domain `base`, or all cookies.
    pub fn clear_storage(&mut self, base: Option<&str>)
        ensures
            exists|ok: bool, saved: bool|
                final(self)@ == #[trigger] old(self)@.clear_storage(
                    optional_text(base),
                    ok,
                    saved,
                ),
    {
        self.data.clear_storage(base);
        let told = match base {
            Some(reg_host) => self.engine.delete_for_reg_host(reg_host),
            None => self.engine.clear(),
        };
        let ok = told.is_ok();
        let saved = ok || self.save_all();
        assert(self@ == old(self)@.clear_storage(optional_text(base), ok, saved));
    }

    /// Forgets the cookies of the registrable domain `base` that have a name.
    pub fn delete_cookie_with_name(&mut self, base: &str, name: &str)
        ensures
            exists|saved: bool|
                final(self)@ == #[trigger] old(self)@.holding(
                    old(self)@.data.keep_in(base@, TestModel::OtherName(name@)),
                ).snapshot(saved),
    {
        self.data.delete_cookie_with_name(base, name);
        let saved = self.save_all();
        assert(self@ == old(self)@.holding(
            old(self)@.data.keep_in(base@, TestModel::OtherName(name@)),
        ).snapshot(saved));
    }

    /// Forgets all cookies that have ended.
    pub fn remove_all_expired_cookies(&mut self, now: i128)
        ensures
            exists|saved: bool|
                final(self)@ == #[trigger] old(self)@.holding(
                    old(self)@.data.keep(TestModel::Live(now)),
                ).snapshot(saved),
    {
        self.data.remove_all_expired_cookies(now);
        let saved = self.save_all();
        assert(self@ == old(self)@.holding(old(self)@.data.keep(TestModel::Live(now))).snapshot(
            saved,
        ));
    }

    /// The registrable domains that have cookies, each once.
    pub fn cookie_site_descriptors(&self) -> (r: Vec<SiteDescriptor>)
        ensures
            site_names(r@).no_duplicates(),
            forall|base: Seq<char>|
                site_names(r@).contains(base) <==> #[trigger] self@.data.bucket(base).len() > 0,
    {
        self.data.cookie_site_descriptors()
    }

    /// Holds other cookies from now on.
    pub fn replace_all(&mut self, data: CookieStorage)
        ensures
            exists|saved: bool|
                final(self)@ == #[trigger] old(self)@.holding(data@).snapshot(saved),
    {
        self.data = data;
        let saved = self.save_all();
        assert(self@ == old(self)@.holding(data@).snapshot(saved));
    }

    /// Hands everything to the engine.
    pub fn save_snapshot(&mut self)
        ensures
            exists|saved: bool| final(self)@ == #[trigger] old(self)@.snapshot(saved),
    {
        let saved = self.save_all();
        assert(self@ == old(self)@.snapshot(saved));
    }

    fn save_all(&mut self) -> (saved: bool)
        ensures
            final(self)@ == old(self)@.snapshot(saved),
    {
        self.engine.save(&self.data).is_ok()
    }
}

/// Whether an engine, if it keeps what it is told to keep, keeps a cookie under a registrable
/// domain after some calls.
pub open spec fn kept(calls: Seq<JarCall>, base: Seq<char>, c: ServoCookieModel) -> bool
    decreases calls.len(),
{
    if calls.len() == 0 {
        false
    } else {
        let before = kept(calls.drop_last(), base, c);
        match calls.last() {
            JarCall::Load { loaded: Some(data), .. } => data.bucket(base).contains(c),
            JarCall::Upsert { bucket_domain, cookie, ok: true } => if bucket_domain == base
                && c.same_slot(cookie) {
                c == cookie
            } else {
                before
            },
            JarCall::Delete { bucket_domain, name, cookie_domain, path, ok: true } => {
                before && !(bucket_domain == base && c.cookie.name == name
                    && c.cookie.domain_text() == cookie_domain && c.cookie.path_text() == path)
            },
            JarCall::DeleteForRegHost { reg_host, ok: true } => reg_host != base && before,
            JarCall::DeleteSession { ok: true } => c.persistent && before,
            JarCall::Clear { ok: true } => false,
            JarCall::Save { data, ok: true } => data.bucket(base).contains(c),
            _ => before,
        }
    }
}

impl JarModel {
    /// Whether memory and engine have the same cookies.
    pub open spec fn in_sync(self) -> bool {
        forall|base: Seq<char>, c: ServoCookieModel|
            (#[trigger] self.data.bucket(base).contains(c)) == kept(self.calls, base, c)
    }
}

/// To hand everything to the engine brings any store into sync, if the engine does not fail.
pub proof fn law_snapshot_syncs(jar: JarModel)
    ensures
        jar.snapshot(true).in_sync(),
{
}

/// A cookie that is not refused ends up in memory and, if the engine takes what it is handed, in
/// the engine: both have the same cookies afterwards, whatever they had before. One that is
/// refused changes nothing.
pub proof fn law_pushed_cookie_is_kept(
    jar: JarModel,
    cookie: ServoCookieModel,
    url: UrlModel,
    source: CookieSource,
    bucket_domain: Seq<char>,
    now: i128,
    ok: bool,
)
    ensures
        ({
            let after = jar.push(cookie, url, source, bucket_domain, now, ok, true);
            if jar.data.push(cookie, url, source, bucket_domain, now).1 {
                after.in_sync() && kept(
                    after.calls,
                    bucket_domain,
                    as_put(jar.data.bucket(bucket_domain), cookie),
                )
            } else {
                after == jar
            }
        }),
{
    if jar.data.push(cookie, url, source, bucket_domain, now).1 {
        law_pushed_cookie_is_there(
            jar.data,
            cookie,
            url,
            source,
            bucket_domain,
            now,
            cookie,
        );
        let after = jar.push(cookie, url, source, bucket_domain, now, ok, true);
        law_snapshot_syncs(
            jar.holding(after.data).called(JarCall::Upsert { bucket_domain, cookie, ok }),
        );
        assert(after.data.bucket(bucket_domain).contains(
            as_put(jar.data.bucket(bucket_domain), cookie),
        ));
    }
}

proof fn lemma_deletions(
    calls: Seq<JarCall>,
    sites: Seq<Seq<char>>,
    base: Seq<char>,
    c: ServoCookieModel,
)
    ensures
        kept(calls + deletions(sites), base, c) == (kept(calls, base, c) && !sites.contains(base)),
    decreases sites.len(),
{
    if sites.len() == 0 {
        assert(calls + deletions(sites) =~= calls);
    } else {
        let init = sites.drop_last();
        lemma_deletions(calls, init, base, c);
        assert((calls + deletions(sites)).drop_last() =~= calls + deletions(init));
        assert(sites =~= init.push(sites.last()));
        vstd::seq_lib::lemma_seq_contains_after_push(init, sites.last(), base);
    }
}

/// What is forgotten is forgotten in memory and in the engine: a store that is in sync with its
/// engine stays so, if each failure of the engine is followed by a snapshot that it takes.
pub proof fn law_forgotten_everywhere(
    jar: JarModel,
    ok: bool,
    saved: bool,
    base: Option<Seq<char>>,
    sites: Seq<Seq<char>>,
    done: int,
)
    requires
        jar.in_sync(),
        0 <= done <= sites.len(),
    ensures
        ok || saved ==> jar.clear_session_cookies(ok, saved).in_sync(),
        ok || saved ==> jar.clear_storage(base, ok, saved).in_sync(),
        done == sites.len() || saved ==> jar.delete_sites(sites, done, saved).in_sync(),
{
    assert forall|b: Seq<char>, c: ServoCookieModel| ok implies (
    #[trigger] jar.clear_session_cookies(ok, saved).data.bucket(b).contains(c)) == kept(
        jar.clear_session_cookies(ok, saved).calls,
        b,
        c,
    ) by {
        let after = jar.clear_session_cookies(ok, saved);
        law_forgotten_cookies_are_gone(
            jar.data,
            TestModel::Persistent,
            b,
            c,
        );
        assert(after.calls.drop_last() =~= jar.calls);
        assert(jar.data.bucket(b).contains(c) == kept(jar.calls, b, c));
    }
    assert forall|b: Seq<char>, c: ServoCookieModel| ok implies (
    #[trigger] jar.clear_storage(base, ok, saved).data.bucket(b).contains(c)) == kept(
        jar.clear_storage(base, ok, saved).calls,
        b,
        c,
    ) by {
        let after = jar.clear_storage(base, ok, saved);
        assert(after.calls.drop_last() =~= jar.calls);
        assert(jar.data.bucket(b).contains(c) == kept(jar.calls, b, c));
    }
    assert forall|b: Seq<char>, c: ServoCookieModel| done == sites.len() implies (
    #[trigger] jar.delete_sites(sites, done, saved).data.bucket(b).contains(c)) == kept(
        jar.delete_sites(sites, done, saved).calls,
        b,
        c,
    ) by {
        assert(sites.take(done) =~= sites);
        lemma_deletions(jar.calls, sites, b, c);
        assert(jar.data.bucket(b).contains(c) == kept(jar.calls, b, c));
    }
}

/// After the session is over, no cookie is left that does not outlive it.
pub proof fn law_session_cookies_end(jar: JarModel, ok: bool, saved: bool, base: Seq<char>, i: int)
    requires
        0 <= i < jar.clear_session_cookies(ok, saved).data.bucket(base).len(),
    ensures
        jar.clear_session_cookies(ok, saved).data.bucket(base)[i].persistent,
{
    let c = jar.clear_session_cookies(ok, saved).data.bucket(base)[i];
    assert(jar.clear_session_cookies(ok, saved).data.bucket(base).contains(c));
    law_forgotten_cookies_are_gone(
        jar.data,
        TestModel::Persistent,
        base,
        c,
    );
}

/// A cookie that has ended never goes with a request.
pub proof fn law_ended_cookies_are_not_sent(
    jar: JarModel,
    url: UrlModel,
    source: CookieSource,
    base: Seq<char>,
    now: i128,
    c: ServoCookieModel,
)
    ensures
        jar.current(base, now).cookies_for(url, source, base).contains(c) <==> jar.data.bucket(
            base,
        ).contains(c) && !c.is_expired(now) && c.appropriate(url, source),
{
    law_appropriate_cookies_are_sent(
        jar.current(base, now),
        url,
        source,
        base,
        c,
    );
    law_forgotten_cookies_are_gone(
        jar.data,
        TestModel::Live(now),
        base,
        c,
    );
}

/// A cookie that is not refused goes with the next request that it is appropriate for, if it has
/// not ended.
pub proof fn law_pushed_cookie_is_sent(
    jar: JarModel,
    cookie: ServoCookieModel,
    url: UrlModel,
    source: CookieSource,
    bucket_domain: Seq<char>,
    now: i128,
    ok: bool,
    saved: bool,
    next: UrlModel,
    next_source: CookieSource,
    later: i128,
)
    requires
        jar.data.push(cookie, url, source, bucket_domain, now).1,
        cookie.appropriate(next, next_source),
        !cookie.is_expired(later),
    ensures
        jar.push(cookie, url, source, bucket_domain, now, ok, saved).current(
            bucket_domain,
            later,
        ).cookies_for(next, next_source, bucket_domain).contains(
            as_put(jar.data.bucket(bucket_domain), cookie),
        ),
{
    let after = jar.push(cookie, url, source, bucket_domain, now, ok, saved);
    let put = as_put(jar.data.bucket(bucket_domain), cookie);
    law_pushed_cookie_is_there(jar.data, cookie, url, source, bucket_domain, now, put);
    law_ended_cookies_are_not_sent(after, next, next_source, bucket_domain, later, put);
}

/// What a push asks of the engine: nothing where the cookie is refused, and otherwise to keep the
/// cookie under its registrable domain and then to keep everything that is held.
pub proof fn law_push_tells_the_engine(
    jar: JarModel,
    cookie: ServoCookieModel,
    url: UrlModel,
    source: CookieSource,
    bucket_domain: Seq<char>,
    now: i128,
    ok: bool,
    saved: bool,
)
    ensures
        ({
            let (data, accepted) = jar.data.push(cookie, url, source, bucket_domain, now);
            let after = jar.push(cookie, url, source, bucket_domain, now, ok, saved);
            &&& accepted ==> after.data == data && after.calls == jar.calls.push(
                JarCall::Upsert { bucket_domain, cookie, ok },
            ).push(JarCall::Save { data, ok: saved })
            &&& !accepted ==> after == jar
        }),
{
}

/// To forget the cookies of a registrable domain leaves none of them, and all others as they are; to
/// forget all leaves none. The engine is told so, and handed everything that is left where it fails.
pub proof fn law_cleared_domains_are_empty(
    jar: JarModel,
    base: Seq<char>,
    other: Seq<char>,
    ok: bool,
    saved: bool,
)
    ensures
        ({
            let one = jar.clear_storage(Some(base), ok, saved);
            let all = jar.clear_storage(None, ok, saved);
            let told = jar.calls.push(JarCall::DeleteForRegHost { reg_host: base, ok });
            &&& one.data.bucket(base).len() == 0
            &&& other != base ==> one.data.bucket(other) == jar.data.bucket(other)
            &&& ok ==> one.calls == told
            &&& !ok ==> one.calls == told.push(JarCall::Save { data: one.data, ok: saved })
            &&& all.data.bucket(other).len() == 0
            &&& ok ==> all.calls == jar.calls.push(JarCall::Clear { ok })
            &&& !ok ==> all.calls == jar.calls.push(JarCall::Clear { ok }).push(
                JarCall::Save { data: all.data, ok: saved },
            )
            &&& one.data.max_per_host == jar.data.max_per_host
            &&& all.data.max_per_host == jar.data.max_per_host
        }),
{
}

/// To forget the cookies of some sites leaves none of theirs, and all others as they are. The engine
/// is told of one site after another, in order, up to the first that it fails on, after which it is
/// handed everything that is left.
pub proof fn law_deleted_sites_are_empty(
    jar: JarModel,
    sites: Seq<Seq<char>>,
    done: int,
    saved: bool,
    base: Seq<char>,
    i: int,
)
    requires
        0 <= done <= sites.len(),
    ensures
        ({
            let after = jar.delete_sites(sites, done, saved);
            let n = jar.calls.len() as int;
            &&& sites.contains(base) ==> after.data.bucket(base).len() == 0
            &&& !sites.contains(base) ==> after.data.bucket(base) == jar.data.bucket(base)
            &&& 0 <= i < done ==> after.calls[n + i] == (JarCall::DeleteForRegHost {
                reg_host: sites[i],
                ok: true,
            })
            &&& done == sites.len() ==> after.calls.len() == n + done
            &&& done < sites.len() ==> after.calls.len() == n + done + 2 && after.calls[n + done]
                == (JarCall::DeleteForRegHost { reg_host: sites[done], ok: false })
                && after.calls.last() == (JarCall::Save { data: after.data, ok: saved })
        }),
{
    assert(sites.to_set().contains(base) == sites.contains(base));
}

/// To forget what does not outlive the session asks the engine to, and hands it everything that is
/// left where it fails.
pub proof fn law_session_end_tells_the_engine(
    jar: JarModel,
    base: Seq<char>,
    c: ServoCookieModel,
    saved: bool,
)
    ensures
        ({
            let after = jar.clear_session_cookies(true, saved);
            let failed = jar.clear_session_cookies(false, saved);
            &&& after.data.bucket(base).contains(c) <==> jar.data.bucket(base).contains(c)
                && c.persistent
            &&& after.calls == jar.calls.push(JarCall::DeleteSession { ok: true })
            &&& failed.data == after.data
            &&& failed.calls == jar.calls.push(JarCall::DeleteSession { ok: false }).push(
                JarCall::Save { data: after.data, ok: saved },
            )
        }),
{
    law_forgotten_cookies_are_gone(jar.data, TestModel::Persistent, base, c);
}

/// To look up the cookies for a request asks nothing of the engine, and touches only the registrable
/// domain that is asked about.
pub proof fn law_lookup_asks_nothing_of_the_engine(
    jar: JarModel,
    url: UrlModel,
    source: CookieSource,
    base: Seq<char>,
    now: i128,
    other: Seq<char>,
)
    ensures
        jar.look_up(url, source, base, now).calls == jar.calls,
        other != base ==> jar.look_up(url, source, base, now).data.bucket(other)
            == jar.data.bucket(other),
{
}

/// A store holds what could be loaded, and no cookies where nothing could.
pub proof fn law_store_starts_with_what_was_loaded(
    calls: Seq<JarCall>,
    max_per_host: nat,
    data: StorageModel,
    base: Seq<char>,
)
    ensures
        JarModel::load(calls, max_per_host, Some(data)).data == data,
        JarModel::load(calls, max_per_host, None).data.bucket(base).len() == 0,
        JarModel::load(calls, max_per_host, None).data.max_per_host == max_per_host,
{
}

} // verus!
