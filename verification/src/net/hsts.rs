//! The hosts that asked to be talked to over TLS only.
use crate::keyed_map::StringMap;
use crate::net::hosts::{
    address, below, is_address, is_subdomain, law_subdomains_end_with_the_host,
};
use crate::net::url::{ServoUrl, UrlModel};
use crate::text::same_text;
use vstd::prelude::*;

verus! {

/// Whether a host's wish holds for its subdomains too.
#[derive(Clone, Copy, Debug, PartialEq, Eq, Structural)]
pub enum IncludeSubdomains {
    Included,
    NotIncluded,
}

/// The wish of one host, and the second since the epoch at which it ends, if it does.
#[derive(Debug)]
pub struct HstsEntry {
    pub host: String,
    pub include_subdomains: bool,
    pub expires_at: Option<u64>,
}

/// What a `HstsEntry` stands for.
pub struct HstsEntryModel {
    pub host: Seq<char>,
    pub include_subdomains: bool,
    pub expires_at: Option<u64>,
}

impl View for HstsEntry {
    type V = HstsEntryModel;

    open spec fn view(&self) -> HstsEntryModel {
        HstsEntryModel {
            host: self.host@,
            include_subdomains: self.include_subdomains,
            expires_at: self.expires_at,
        }
    }
}

impl Clone for HstsEntry {
    fn clone(&self) -> (r: Self)
        ensures
            r == *self,
    {
        HstsEntry {
            host: self.host.clone(),
            include_subdomains: self.include_subdomains,
            expires_at: self.expires_at,
        }
    }
}

impl HstsEntryModel {
    /// Whether the wish has ended.
    pub open spec fn is_expired(self, now: u64) -> bool {
        self.expires_at matches Some(at) && at <= now
    }

    /// Whether the wish holds for a host.
    pub open spec fn covers(self, host: Seq<char>, now: u64) -> bool {
        &&& !self.is_expired(now)
        &&& self.host == host || (self.include_subdomains && is_subdomain(host, self.host))
    }
}

/// When something ends that lasts this many seconds from now on.
pub open spec fn end_of(now: u64, max_age: u64) -> u64 {
    if now + max_age > u64::MAX {
        u64::MAX
    } else if now + max_age == 0 {
        1
    } else {
        (now + max_age) as u64
    }
}

impl HstsEntry {
    /// The wish of a host that lasts `max_age` seconds from `now` on, or for ever. An address
    /// cannot have one.
    pub fn new(
        host: String,
        subdomains: IncludeSubdomains,
        max_age: Option<u64>,
        now: u64,
    ) -> (r: Option<HstsEntry>)
        ensures
            match r {
                Some(entry) => !is_address(host@) && entry@ == (HstsEntryModel {
                    host: host@,
                    include_subdomains: subdomains == IncludeSubdomains::Included,
                    expires_at: match max_age {
                        Some(seconds) => Some(end_of(now, seconds)),
                        None => None,
                    },
                }),
                None => is_address(host@),
            },
    {
        if address(host.as_str()) {
            return None;
        }
        let expires_at: Option<u64> = match max_age {
            Some(seconds) => {
                if seconds > u64::MAX - now {
                    Some(u64::MAX)
                } else if now + seconds == 0 {
                    Some(1)
                } else {
                    Some(now + seconds)
                }
            },
            None => None,
        };
        let include_subdomains = match subdomains {
            IncludeSubdomains::Included => true,
            IncludeSubdomains::NotIncluded => false,
        };
        Some(HstsEntry { host, include_subdomains, expires_at })
    }

    /// Whether the wish has ended.
    pub fn is_expired(&self, now: u64) -> (r: bool)
        ensures
            r == self@.is_expired(now),
    {
        match self.expires_at {
            Some(at) => at <= now,
            None => false,
        }
    }

    /// Whether the wish holds for a host.
    pub fn covers(&self, host: &str, now: u64) -> (r: bool)
        ensures
            r == self@.covers(host@, now),
    {
        if self.is_expired(now) {
            return false;
        }
        if same_text(self.host.as_str(), host) {
            return true;
        }
        self.include_subdomains && below(host, self.host.as_str())
    }
}

/// What a list of entries stands for.
pub open spec fn entries_of(list: Seq<HstsEntry>) -> Seq<HstsEntryModel> {
    list.map_values(|entry: HstsEntry| entry@)
}

/// Whether there is an entry of a host in a list.
pub open spec fn has_host(entries: Seq<HstsEntryModel>, host: Seq<char>) -> bool {
    exists|i: int| 0 <= i < entries.len() && (#[trigger] entries[i]).host == host
}

/// A list with one entry put in: in place of that of the same host, or at the end.
pub open spec fn with_entry(entries: Seq<HstsEntryModel>, entry: HstsEntryModel) -> Seq<
    HstsEntryModel,
> {
    if has_host(entries, entry.host) {
        entries.map_values(
            |old_entry: HstsEntryModel|
                if old_entry.host == entry.host {
                    entry
                } else {
                    old_entry
                },
        )
    } else {
        entries.push(entry)
    }
}

/// The entries of all hosts, by the registrable domain that the host belongs to.
pub struct HstsList {
    pub entries_map: StringMap<Vec<HstsEntry>>,
}

/// What a `HstsList` stands for.
pub struct HstsListModel {
    pub entries_map: Map<Seq<char>, Seq<HstsEntryModel>>,
}

impl View for HstsList {
    type V = HstsListModel;

    open spec fn view(&self) -> HstsListModel {
        HstsListModel {
            entries_map: self.entries_map@.map_values(|list: Vec<HstsEntry>| entries_of(list@)),
        }
    }
}

impl HstsListModel {
    /// No entries.
    pub open spec fn empty() -> HstsListModel {
        HstsListModel { entries_map: Map::empty() }
    }

    /// The entries of the hosts in a registrable domain.
    pub open spec fn bucket(self, base_domain: Seq<char>) -> Seq<HstsEntryModel> {
        if self.entries_map.contains_key(base_domain) {
            self.entries_map[base_domain]
        } else {
            Seq::empty()
        }
    }

    /// The list with one entry put in.
    pub open spec fn push(self, entry: HstsEntryModel, base_domain: Seq<char>) -> HstsListModel {
        HstsListModel {
            entries_map: self.entries_map.insert(
                base_domain,
                with_entry(self.bucket(base_domain), entry),
            ),
        }
    }

    /// Whether a host in a registrable domain is to be talked to over TLS only.
    pub open spec fn is_host_secure(
        self,
        host: Seq<char>,
        base_domain: Seq<char>,
        now: u64,
    ) -> bool {
        exists|i: int|
            0 <= i < self.bucket(base_domain).len() && (
            #[trigger] self.bucket(base_domain)[i]).covers(host, now)
    }

    /// The URL to ask for in place of another one.
    pub open spec fn upgraded(self, url: UrlModel, base_domain: Seq<char>, now: u64) -> UrlModel {
        match url.domain() {
            Some(host) => if !self.is_host_secure(host, base_domain, now) {
                url
            } else if url.scheme == "http"@ {
                url.with_scheme("https"@)
            } else if url.scheme == "ws"@ {
                url.with_scheme("wss"@)
            } else {
                url
            },
            None => url,
        }
    }
}

impl Default for HstsList {
    fn default() -> (r: Self)
        ensures
            r@ == HstsListModel::empty(),
    {
        let r = HstsList { entries_map: StringMap::new() };
        assert(r@.entries_map =~= Map::empty());
        r
    }
}

impl HstsList {
    /// Puts an entry in. `base_domain` is the registrable domain of its host.
    pub fn push(&mut self, entry: HstsEntry, base_domain: &str)
        ensures
            final(self)@ == old(self)@.push(entry@, base_domain@),
    {
        let ghost before = self@;
        let ghost bucket = self@.bucket(base_domain@);
        let ghost wanted = entry@;
        let key = base_domain.to_owned();
        let mut list: Vec<HstsEntry> = match self.entries_map.remove(&key) {
            Some(list) => list,
            None => Vec::new(),
        };
        assert(entries_of(list@) =~= bucket);
        let mut found = false;
        let mut i: usize = 0;
        while i < list.len()
            invariant
                i <= list@.len(),
                list@.len() == bucket.len(),
                entry@ == wanted,
                found == exists|j: int| 0 <= j < i && (#[trigger] bucket[j]).host == wanted.host,
                forall|j: int|
                    0 <= j < i ==> (#[trigger] list@[j])@ == if bucket[j].host == wanted.host {
                        wanted
                    } else {
                        bucket[j]
                    },
                forall|j: int| i <= j < list@.len() ==> (#[trigger] list@[j])@ == bucket[j],
            decreases list@.len() - i,
        {
            if list[i].host == entry.host {
                assert(bucket[i as int].host == wanted.host);
                found = true;
                list.set(i, entry.clone());
            }
            i += 1;
        }
        if !found {
            assert(entries_of(list@) =~= bucket);
            list.push(entry);
        }
        assert(entries_of(list@) =~= with_entry(bucket, wanted));
        self.entries_map.insert(key, list);
        assert(self@.entries_map =~= before.push(wanted, base_domain@).entries_map);
    }

    /// Whether a host is to be talked to over TLS only. `base_domain` is its registrable domain.
    pub fn is_host_secure(&self, host: &str, base_domain: &str, now: u64) -> (r: bool)
        ensures
            r == self@.is_host_secure(host@, base_domain@, now),
    {
        match self.entries_map.get(&base_domain.to_owned()) {
            Some(list) => {
                let ghost bucket = self@.bucket(base_domain@);
                assert(bucket == entries_of(list@));
                let mut i: usize = 0;
                while i < list.len()
                    invariant
                        i <= list@.len(),
                        bucket == entries_of(list@),
                        bucket == self@.bucket(base_domain@),
                        forall|j: int| 0 <= j < i ==> !(#[trigger] bucket[j]).covers(host@, now),
                    decreases list@.len() - i,
                {
                    if list[i].covers(host, now) {
                        assert(bucket[i as int].covers(host@, now));
                        return true;
                    }
                    assert(!bucket[i as int].covers(host@, now));
                    i += 1;
                }
                false
            },
            None => false,
        }
    }

    /// Changes the scheme of a URL to the one over TLS where its host is to be talked to that way
    /// only. `base_domain` is the registrable domain of the host.
    pub fn apply_hsts_rules(&self, url: &mut ServoUrl, base_domain: &str, now: u64)
        ensures
            final(url)@ == self@.upgraded(old(url)@, base_domain@, now),
    {
        let secure = match url.domain() {
            Some(host) => self.is_host_secure(host, base_domain, now),
            None => false,
        };
        if secure {
            proof {
                reveal_strlit("http");
                reveal_strlit("ws");
                reveal_strlit("https");
                reveal_strlit("wss");
            }
            if same_text(url.scheme.as_str(), "http") {
                url.scheme = "https".to_owned();
            } else if same_text(url.scheme.as_str(), "ws") {
                url.scheme = "wss".to_owned();
            }
        }
    }
}

/// From the moment its entry is put in until it ends, a host is talked to over TLS only, and so
/// are its subdomains where the entry says so.
pub proof fn law_entry_takes_effect(
    list: HstsListModel,
    entry: HstsEntryModel,
    base_domain: Seq<char>,
    host: Seq<char>,
    now: u64,
)
    requires
        entry.covers(host, now),
    ensures
        list.push(entry, base_domain).is_host_secure(host, base_domain, now),
{
    let before = list.bucket(base_domain);
    let after = with_entry(before, entry);
    assert(list.push(entry, base_domain).bucket(base_domain) == after);
    if has_host(before, entry.host) {
        let i = choose|i: int| 0 <= i < before.len() && (#[trigger] before[i]).host == entry.host;
        assert(after[i] == entry);
    } else {
        assert(after[before.len() as int] == entry);
    }
}

/// An entry that has ended takes the place of the one that its host had: the host is then
/// covered by no entry of its own.
pub proof fn law_ended_entry_lifts_the_old_one(
    list: HstsListModel,
    entry: HstsEntryModel,
    base_domain: Seq<char>,
    i: int,
    now: u64,
)
    requires
        entry.is_expired(now),
        0 <= i < list.push(entry, base_domain).bucket(base_domain).len(),
        list.push(entry, base_domain).bucket(base_domain)[i].covers(entry.host, now),
    ensures
        list.push(entry, base_domain).bucket(base_domain)[i].include_subdomains,
        is_subdomain(entry.host, list.push(entry, base_domain).bucket(base_domain)[i].host),
{
    let before = list.bucket(base_domain);
    if has_host(before, entry.host) {
        assert(with_entry(before, entry)[i] == if before[i].host == entry.host {
            entry
        } else {
            before[i]
        });
    } else if i < before.len() {
        assert(before[i].host != entry.host);
    }
}

/// The entries of other registrable domains are left alone.
pub proof fn law_other_domains_are_left_alone(
    list: HstsListModel,
    entry: HstsEntryModel,
    base_domain: Seq<char>,
    other: Seq<char>,
    host: Seq<char>,
    now: u64,
)
    requires
        other != base_domain,
    ensures
        list.push(entry, base_domain).is_host_secure(host, other, now) == list.is_host_secure(
            host,
            other,
            now,
        ),
{
    assert(list.push(entry, base_domain).bucket(other) == list.bucket(other));
}

/// A URL to a host that is to be talked to over TLS only is never one without TLS afterwards,
/// and only its scheme changes.
pub proof fn law_rules_leave_no_plain_url(
    list: HstsListModel,
    url: UrlModel,
    base_domain: Seq<char>,
    now: u64,
)
    ensures
        ({
            let after = list.upgraded(url, base_domain, now);
            &&& after.host == url.host
            &&& after.path == url.path
            &&& (url.domain() matches Some(host) && list.is_host_secure(host, base_domain, now))
                ==> after.scheme != "http"@ && after.scheme != "ws"@
            &&& list.upgraded(after, base_domain, now) == after
        }),
{
    reveal_strlit("http");
    reveal_strlit("ws");
    reveal_strlit("https");
    reveal_strlit("wss");
    assert("https"@.len() == 5 && "wss"@.len() == 3 && "http"@.len() == 4 && "ws"@.len() == 2);
}

/// What the entries of a registrable domain are once one is put in.
pub proof fn lemma_pushed(
    list: HstsListModel,
    put: HstsEntryModel,
    base_domain: Seq<char>,
    entry: HstsEntryModel,
)
    ensures
        list.push(put, base_domain).bucket(base_domain).contains(entry) <==> if entry.host
            == put.host {
            entry == put
        } else {
            list.bucket(base_domain).contains(entry)
        },
{
    let before = list.bucket(base_domain);
    let after = list.push(put, base_domain).bucket(base_domain);
    if after.contains(entry) {
        let i = choose|i: int| 0 <= i < after.len() && after[i] == entry;
        if i < before.len() {
            assert(before.contains(before[i]));
        }
    }
    if entry.host != put.host && before.contains(entry) {
        let i = choose|i: int| 0 <= i < before.len() && before[i] == entry;
        assert(after[i] == entry);
    }
    if entry == put {
        if has_host(before, put.host) {
            let i = choose|i: int| 0 <= i < before.len() && (#[trigger] before[i]).host == put.host;
            assert(after[i] == put);
        } else {
            assert(after[before.len() as int] == put);
        }
    }
}

/// Whether no two entries of a list are of the same host.
pub open spec fn has_distinct_hosts(entries: Seq<HstsEntryModel>) -> bool {
    forall|i: int, j: int|
        0 <= i < j < entries.len() ==> (#[trigger] entries[i]).host != (#[trigger] entries[j]).host
}

/// A registrable domain never gets two entries of the same host.
pub proof fn law_hosts_stay_distinct(
    list: HstsListModel,
    entry: HstsEntryModel,
    base_domain: Seq<char>,
)
    requires
        has_distinct_hosts(list.bucket(base_domain)),
    ensures
        has_distinct_hosts(list.push(entry, base_domain).bucket(base_domain)),
{
    let before = list.bucket(base_domain);
    let after = list.push(entry, base_domain).bucket(base_domain);
    assert forall|i: int, j: int| 0 <= i < j < after.len() implies (#[trigger] after[i]).host != (
    #[trigger] after[j]).host by {
        if j < before.len() {
            assert(before[i].host != before[j].host);
        }
    }
}

/// A wish holds for its own host and, where it says so, for the subdomains of it, and for no other
/// host; and it holds until the second at which it ends, and for ever where it does not.
pub proof fn law_wish_holds_for_these_hosts(
    entry: HstsEntryModel,
    host: Seq<char>,
    at: u64,
    now: u64,
)
    ensures
        entry.covers(host, now) ==> host == entry.host || (entry.include_subdomains && is_subdomain(
            host,
            entry.host,
        )),
        entry.expires_at is None ==> entry.covers(entry.host, now),
        entry.expires_at == Some(at) ==> (entry.covers(entry.host, now) <==> now < at),
        is_subdomain(host, entry.host) ==> (entry.covers(host, now) <==> entry.include_subdomains
            && entry.covers(entry.host, now)),
{
    law_subdomains_end_with_the_host(Seq::empty(), host, entry.host);
}

/// What lasts some seconds from now on ends that many seconds later, or as late as can be told.
pub proof fn law_end_is_that_much_later(now: u64, max_age: u64)
    ensures
        0 < now + max_age <= u64::MAX ==> end_of(now, max_age) == now + max_age,
        now + max_age > u64::MAX ==> end_of(now, max_age) == u64::MAX,
        end_of(now, max_age) > 0,
{
}

/// Where a host is to be talked to over TLS only, `http` becomes `https` and `ws` becomes `wss`; every
/// other scheme stays, as do all schemes where it is not, or the URL has no host with a name.
pub proof fn law_schemes_become_these(
    list: HstsListModel,
    url: UrlModel,
    host: Seq<char>,
    base_domain: Seq<char>,
    now: u64,
)
    ensures
        ({
            let after = list.upgraded(url, base_domain, now);
            &&& url.domain() == Some(host) && list.is_host_secure(host, base_domain, now) ==> {
                &&& url.scheme == "http"@ ==> after.scheme == "https"@
                &&& url.scheme == "ws"@ ==> after.scheme == "wss"@
                &&& url.scheme != "http"@ && url.scheme != "ws"@ ==> after == url
            }
            &&& url.domain() == Some(host) && !list.is_host_secure(host, base_domain, now)
                ==> after == url
            &&& url.domain() is None ==> after == url
            &&& after.host == url.host && after.path == url.path
        }),
{
    reveal_strlit("http");
    reveal_strlit("ws");
    assert("http"@.len() == 4 && "ws"@.len() == 2);
}

/// A host is to be talked to over TLS only exactly where an entry of its registrable domain says so.
pub proof fn law_secure_where_an_entry_says_so(
    list: HstsListModel,
    host: Seq<char>,
    base_domain: Seq<char>,
    now: u64,
)
    ensures
        list.is_host_secure(host, base_domain, now) <==> exists|entry: HstsEntryModel| #[trigger]
            list.bucket(base_domain).contains(entry) && entry.covers(host, now),
        !HstsListModel::empty().is_host_secure(host, base_domain, now),
{
    let bucket = list.bucket(base_domain);
    if list.is_host_secure(host, base_domain, now) {
        let i = choose|i: int| 0 <= i < bucket.len() && (#[trigger] bucket[i]).covers(host, now);
        assert(bucket.contains(bucket[i]));
    }
    if exists|entry: HstsEntryModel| #[trigger]
        bucket.contains(entry) && entry.covers(host, now) {
        let entry = choose|entry: HstsEntryModel| #[trigger]
            bucket.contains(entry) && entry.covers(host, now);
        let i = choose|i: int| 0 <= i < bucket.len() && bucket[i] == entry;
        assert(bucket[i].covers(host, now));
    }
}

/// An entry stands for its own host, for whether it is for subdomains, and for its own end.
pub proof fn law_entry_stands_for_its_fields(entry: HstsEntry)
    ensures
        entry@.host == entry.host@,
        entry@.include_subdomains == entry.include_subdomains,
        entry@.expires_at == entry.expires_at,
{
}

} // verus!
