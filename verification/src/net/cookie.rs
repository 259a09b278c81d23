//! Cookies: which may be stored, and which go with a request.
use crate::net::hosts::{address, below, is_address, is_subdomain};
use crate::net::url::{ServoUrl, UrlModel};
use crate::text::{begins_with, owned_text, same_text};
use vstd::prelude::*;

verus! {

/// Where a cookie came from, or is going to.
#[derive(Clone, Copy, Debug, PartialEq, Eq, Structural)]
pub enum CookieSource {
    /// An HTTP message.
    HTTP,
    /// A script.
    NonHTTP,
}

/// With which requests that come from other sites a cookie goes.
#[derive(Clone, Copy, Debug, PartialEq, Eq, Structural)]
pub enum SameSite {
    /// With none.
    Strict,
    /// With those that lead to a page.
    Lax,
    /// With all.
    Unrestricted,
}

/// A cookie as it was sent. `max_age` is in seconds, `expires` in seconds since the epoch.
#[derive(Debug)]
pub struct Cookie {
    pub name: String,
    pub value: String,
    pub domain: Option<String>,
    pub path: Option<String>,
    pub secure: Option<bool>,
    pub http_only: Option<bool>,
    pub same_site: Option<SameSite>,
    pub partitioned: Option<bool>,
    pub max_age: Option<i64>,
    pub expires: Option<i64>,
}

/// What a `Cookie` stands for.
pub struct CookieModel {
    pub name: Seq<char>,
    pub value: Seq<char>,
    pub domain: Option<Seq<char>>,
    pub path: Option<Seq<char>>,
    pub secure: Option<bool>,
    pub http_only: Option<bool>,
    pub same_site: Option<SameSite>,
    pub partitioned: Option<bool>,
    pub max_age: Option<i64>,
    pub expires: Option<i64>,
}

impl View for Cookie {
    type V = CookieModel;

    open spec fn view(&self) -> CookieModel {
        CookieModel {
            name: self.name@,
            value: self.value@,
            domain: owned_text(self.domain),
            path: owned_text(self.path),
            secure: self.secure,
            http_only: self.http_only,
            same_site: self.same_site,
            partitioned: self.partitioned,
            max_age: self.max_age,
            expires: self.expires,
        }
    }
}

impl Clone for Cookie {
    fn clone(&self) -> (r: Self)
        ensures
            r == *self,
    {
        Cookie {
            name: self.name.clone(),
            value: self.value.clone(),
            domain: clone_optional(&self.domain),
            path: clone_optional(&self.path),
            secure: self.secure,
            http_only: self.http_only,
            same_site: self.same_site,
            partitioned: self.partitioned,
            max_age: self.max_age,
            expires: self.expires,
        }
    }
}

fn clone_optional(text: &Option<String>) -> (r: Option<String>)
    ensures
        r == *text,
{
    match text {
        Some(text) => Some(text.clone()),
        None => None,
    }
}

impl CookieModel {
    /// The domain, empty where there is none.
    pub open spec fn domain_text(self) -> Seq<char> {
        match self.domain {
            Some(domain) => domain,
            None => ""@,
        }
    }

    /// The path, empty where there is none.
    pub open spec fn path_text(self) -> Seq<char> {
        match self.path {
            Some(path) => path,
            None => ""@,
        }
    }

    /// Whether the cookie only goes over secure connections.
    pub open spec fn is_secure(self) -> bool {
        self.secure == Some(true)
    }

    /// Whether the cookie is kept from scripts.
    pub open spec fn is_http_only(self) -> bool {
        self.http_only == Some(true)
    }

    /// When the cookie ends, in nanoseconds since the epoch, if it does. How long it lasts
    /// counts for more than when it ends.
    pub open spec fn end(self, now: i128) -> Option<i128> {
        match (self.max_age, self.expires) {
            (Some(seconds), _) => Some((now + seconds * NANOS) as i128),
            (None, Some(at)) => Some((at * NANOS) as i128),
            (None, None) => None,
        }
    }

    /// The same but for domain and path.
    pub open spec fn placed(self, domain: Seq<char>, path: Seq<char>) -> CookieModel {
        CookieModel {
            name: self.name,
            value: self.value,
            domain: Some(domain),
            path: Some(path),
            secure: self.secure,
            http_only: self.http_only,
            same_site: self.same_site,
            partitioned: self.partitioned,
            max_age: self.max_age,
            expires: self.expires,
        }
    }
}

impl Cookie {
    /// The cookie that a text stands for, if it is well-formed.
    pub fn parse(text: &str) -> (r: Option<Cookie>)
        ensures
            optional_cookie(r) == parsed_cookie(text@),
    {
        parse_cookie(text)
    }

    /// A cookie with nothing but a name and a value.
    pub fn new(name: String, value: String) -> (r: Cookie)
        ensures
            r@ == (CookieModel {
                name: name@,
                value: value@,
                domain: None,
                path: None,
                secure: None,
                http_only: None,
                same_site: None,
                partitioned: None,
                max_age: None,
                expires: None,
            }),
    {
        Cookie {
            name,
            value,
            domain: None,
            path: None,
            secure: None,
            http_only: None,
            same_site: None,
            partitioned: None,
            max_age: None,
            expires: None,
        }
    }

    /// The domain, empty where there is none.
    pub fn domain_text(&self) -> (r: &str)
        ensures
            r@ == self@.domain_text(),
    {
        match &self.domain {
            Some(domain) => domain.as_str(),
            None => "",
        }
    }

    /// The path, empty where there is none.
    pub fn path_text(&self) -> (r: &str)
        ensures
            r@ == self@.path_text(),
    {
        match &self.path {
            Some(path) => path.as_str(),
            None => "",
        }
    }

    /// Whether the cookie only goes over secure connections.
    pub fn is_secure(&self) -> (r: bool)
        ensures
            r == self@.is_secure(),
    {
        match self.secure {
            Some(secure) => secure,
            None => false,
        }
    }

    /// Whether the cookie is kept from scripts.
    pub fn is_http_only(&self) -> (r: bool)
        ensures
            r == self@.is_http_only(),
    {
        match self.http_only {
            Some(http_only) => http_only,
            None => false,
        }
    }
}

/// The nanoseconds in a second.
pub const NANOS: i128 = 1_000_000_000;

/// Whether a number of nanoseconds since the epoch is a time that a clock can show.
pub open spec fn is_time(t: i128) -> bool {
    i64::MIN * NANOS <= t < (i64::MAX + 1) * NANOS
}

/// A letter in lower case. Only the letters of ASCII have one.
pub open spec fn lower(c: char) -> char {
    if 'A' <= c && c <= 'Z' {
        ((c as u8) + 32) as u8 as char
    } else {
        c
    }
}

/// `str::to_ascii_lowercase`: each letter of ASCII in lower case, everything else as it is.
pub assume_specification[ str::to_ascii_lowercase ](s: &str) -> (r: String)
    ensures
        r@ == s@.map_values(|c: char| lower(c)),
;

/// What a cookie may stand for that may be missing.
pub open spec fn optional_cookie(cookie: Option<Cookie>) -> Option<CookieModel> {
    match cookie {
        Some(cookie) => Some(cookie@),
        None => None,
    }
}

/// The cookie that a text stands for, if it is well-formed.
pub uninterp spec fn parsed_cookie(text: Seq<char>) -> Option<CookieModel>;

/// `Cookie::parse` of the `cookie` crate: a text with a name, a value and attributes, taken apart.
/// Nothing where it fails. Which text gives which cookie is left unsaid here but for its being a
/// function of the text. How long the cookie lasts comes in whole seconds, and when it ends in
/// seconds since the epoch.
#[verifier::external_body]
fn parse_cookie(text: &str) -> (r: Option<Cookie>)
    ensures
        optional_cookie(r) == parsed_cookie(text@),
{
    cookie::Cookie::parse(text).ok().map(|c| Cookie {
        name: c.name().to_owned(),
        value: c.value().to_owned(),
        domain: c.domain().map(|domain| domain.to_owned()),
        path: c.path().map(|path| path.to_owned()),
        secure: c.secure(), http_only: c.http_only(),
        same_site: c.same_site().map(|s| match s {
            cookie::SameSite::Strict => SameSite::Strict,
            cookie::SameSite::Lax => SameSite::Lax,
            cookie::SameSite::None => SameSite::Unrestricted,
        }),
        partitioned: c.partitioned(),
        max_age: c.max_age().map(|age| age.whole_seconds()),
        expires: c.expires_datetime().map(|time| time.unix_timestamp()),
    })
}

/// Where the last slash is, or -1 where there is none.
pub open spec fn last_slash(path: Seq<char>) -> int
    decreases path.len(),
{
    if path.len() == 0 {
        -1
    } else if path.last() == '/' {
        path.len() - 1
    } else {
        last_slash(path.drop_last())
    }
}

/// The path that a cookie gets from the URL that set it: what is before its last slash, but at
/// least a slash.
pub open spec fn default_path_of(request_path: Seq<char>) -> Seq<char> {
    if request_path.len() == 0 || request_path[0] != '/' || last_slash(request_path) <= 0 {
        "/"@
    } else {
        request_path.take(last_slash(request_path))
    }
}

/// Whether the path of a request is the path of a cookie, or below it.
pub open spec fn path_matches(request_path: Seq<char>, cookie_path: Seq<char>) -> bool {
    ||| request_path == cookie_path
    ||| {
        &&& cookie_path.is_prefix_of(request_path)
        &&& cookie_path.len() < request_path.len()
        &&& request_path[cookie_path.len() as int] == '/' || (cookie_path.len() > 0
            && cookie_path.last() == '/')
    }
}

/// Whether a host is the domain of a cookie, or below it. Nothing is below an address.
pub open spec fn domain_matches(host: Seq<char>, domain: Seq<char>) -> bool {
    host == domain || (is_subdomain(host, domain) && !is_address(host))
}

/// A cookie that is stored. Times are in nanoseconds since the epoch.
#[derive(Debug)]
pub struct ServoCookie {
    pub cookie: Cookie,
    /// Whether it only goes to the host that set it.
    pub host_only: bool,
    /// Whether it outlives the session.
    pub persistent: bool,
    pub creation_time: i128,
    pub last_access: i128,
    pub expiry_time: Option<i128>,
}

/// What a `ServoCookie` stands for.
pub struct ServoCookieModel {
    pub cookie: CookieModel,
    pub host_only: bool,
    pub persistent: bool,
    pub creation_time: i128,
    pub last_access: i128,
    pub expiry_time: Option<i128>,
}

impl View for ServoCookie {
    type V = ServoCookieModel;

    open spec fn view(&self) -> ServoCookieModel {
        ServoCookieModel {
            cookie: self.cookie@,
            host_only: self.host_only,
            persistent: self.persistent,
            creation_time: self.creation_time,
            last_access: self.last_access,
            expiry_time: self.expiry_time,
        }
    }
}

impl Clone for ServoCookie {
    fn clone(&self) -> (r: Self)
        ensures
            r == *self,
    {
        ServoCookie {
            cookie: self.cookie.clone(),
            host_only: self.host_only,
            persistent: self.persistent,
            creation_time: self.creation_time,
            last_access: self.last_access,
            expiry_time: self.expiry_time,
        }
    }
}

/// The domain that a cookie asks for.
pub open spec fn asked_domain(cookie: CookieModel) -> Seq<char> {
    cookie.domain_text().map_values(|c: char| lower(c))
}

/// Whether a cookie belongs to the host that sets it alone: it asks for no domain, or for a
/// public suffix that is the host itself.
pub open spec fn is_host_only(cookie: CookieModel, public_suffix: bool) -> bool {
    asked_domain(cookie).len() == 0 || public_suffix
}

/// The path that a cookie is stored with.
pub open spec fn stored_path(cookie: CookieModel, url: UrlModel) -> Seq<char> {
    if cookie.path_text().len() > 0 && cookie.path_text()[0] == '/' {
        cookie.path_text()
    } else {
        default_path_of(url.path)
    }
}

/// Whether the prefix of the cookie's name, if it has one, is kept to.
pub open spec fn prefix_is_honest(
    cookie: CookieModel,
    url: UrlModel,
    host_only: bool,
    path: Seq<char>,
) -> bool {
    let secure = cookie.is_secure() && url.is_secure();
    &&& "__Secure-"@.is_prefix_of(cookie.name) ==> secure
    &&& "__Host-"@.is_prefix_of(cookie.name) ==> secure && host_only && path == "/"@
}

/// Whether a cookie from a URL may be stored. `public_suffix` tells whether the domain that it
/// asks for is a public suffix.
pub open spec fn may_store(
    cookie: CookieModel,
    url: UrlModel,
    source: CookieSource,
    public_suffix: bool,
) -> bool {
    let asked = asked_domain(cookie);
    let host_only = is_host_only(cookie, public_suffix);
    &&& (asked.len() > 0 && public_suffix) ==> asked == url.host_text()
    &&& !host_only ==> domain_matches(url.host_text(), asked)
    &&& cookie.is_secure() ==> url.is_secure()
    &&& cookie.is_http_only() ==> source == CookieSource::HTTP
    &&& prefix_is_honest(cookie, url, host_only, stored_path(cookie, url))
}

/// A cookie from a URL as it is stored.
pub open spec fn wrapped(
    cookie: CookieModel,
    url: UrlModel,
    public_suffix: bool,
    now: i128,
) -> ServoCookieModel {
    let host_only = is_host_only(cookie, public_suffix);
    let domain = if host_only {
        url.host_text()
    } else {
        asked_domain(cookie)
    };
    ServoCookieModel {
        cookie: cookie.placed(domain, stored_path(cookie, url)),
        host_only,
        persistent: cookie.end(now) is Some,
        creation_time: now,
        last_access: now,
        expiry_time: cookie.end(now),
    }
}

impl ServoCookieModel {
    /// Whether the cookie goes with a request to a URL, or may be seen by a script there.
    pub open spec fn appropriate(self, url: UrlModel, source: CookieSource) -> bool {
        &&& if self.host_only {
            url.host_text() == self.cookie.domain_text()
        } else {
            domain_matches(url.host_text(), self.cookie.domain_text())
        }
        &&& path_matches(url.path, self.cookie.path_text())
        &&& self.cookie.is_secure() ==> url.is_secure()
        &&& self.cookie.is_http_only() ==> source == CookieSource::HTTP
    }

    /// Whether the cookie has ended.
    pub open spec fn is_expired(self, now: i128) -> bool {
        self.expiry_time matches Some(at) && at <= now
    }

    /// The same but for when it was last looked at.
    pub open spec fn touched(self, now: i128) -> ServoCookieModel {
        ServoCookieModel { last_access: now, ..self }
    }

    /// The same but for when it was made.
    pub open spec fn made(self, at: i128) -> ServoCookieModel {
        ServoCookieModel { creation_time: at, ..self }
    }

    /// Whether a cookie takes the place of another one.
    pub open spec fn same_slot(self, other: ServoCookieModel) -> bool {
        &&& self.cookie.name == other.cookie.name
        &&& self.cookie.domain_text() == other.cookie.domain_text()
        &&& self.cookie.path_text() == other.cookie.path_text()
    }
}

impl ServoCookie {
    /// The path that a cookie gets from the URL that set it.
    pub fn default_path(request_path: &str) -> (r: String)
        ensures
            r@ == default_path_of(request_path@),
    {
        let n: usize = request_path.unicode_len();
        if n == 0 || request_path.get_char(0) != '/' {
            return "/".to_owned();
        }
        let mut end: usize = n;
        assert(request_path@.take(end as int) =~= request_path@);
        while end > 1
            invariant
                1 <= end <= n,
                n == request_path@.len(),
                request_path@[0] == '/',
                last_slash(request_path@) == last_slash(request_path@.take(end as int)),
            decreases end,
        {
            let ghost head = request_path@.take(end as int);
            assert(head.drop_last() =~= request_path@.take(end - 1));
            if request_path.get_char(end - 1) == '/' {
                assert(head.last() == '/');
                let found = request_path.substring_char(0, end - 1);
                assert(found@ =~= request_path@.take(end - 1));
                return found.to_owned();
            }
            assert(head.last() != '/');
            end -= 1;
        }
        assert(request_path@.take(1).last() == '/');
        "/".to_owned()
    }

    /// Whether the path of a request is the path of a cookie, or below it.
    pub fn path_match(request_path: &str, cookie_path: &str) -> (r: bool)
        ensures
            r == path_matches(request_path@, cookie_path@),
    {
        if same_text(request_path, cookie_path) {
            return true;
        }
        let n: usize = request_path.unicode_len();
        let m: usize = cookie_path.unicode_len();
        if m >= n || !begins_with(request_path, cookie_path) {
            return false;
        }
        request_path.get_char(m) == '/' || (m > 0 && cookie_path.get_char(m - 1) == '/')
    }

    /// Whether a host is the domain of a cookie, or below it.
    pub fn domain_match(host: &str, domain: &str) -> (r: bool)
        ensures
            r == domain_matches(host@, domain@),
    {
        same_text(host, domain) || (below(host, domain) && !address(host))
    }

    /// A cookie that a URL sets, as it is stored. Nothing where it may not be stored.
    /// `public_suffix` tells whether the domain that it asks for is a public suffix.
    pub fn new_wrapped(
        cookie: Cookie,
        request: &ServoUrl,
        source: CookieSource,
        public_suffix: bool,
        now: i128,
    ) -> (r: Option<ServoCookie>)
        requires
            is_time(now),
        ensures
            match r {
                Some(stored) => may_store(cookie@, request@, source, public_suffix) && stored@
                    == wrapped(cookie@, request@, public_suffix, now),
                None => !may_store(cookie@, request@, source, public_suffix),
            },
    {
        let asked = cookie.domain_text().to_ascii_lowercase();
        let host = request.host_text();
        let asks = asked.as_str().unicode_len() > 0;
        if asks && public_suffix && !same_text(asked.as_str(), host) {
            return None;
        }
        let host_only = !asks || public_suffix;
        if !host_only && !Self::domain_match(host, asked.as_str()) {
            return None;
        }
        let secure = cookie.is_secure();
        if secure && !request.is_secure_scheme() {
            return None;
        }
        let source_is_http = match source {
            CookieSource::HTTP => true,
            CookieSource::NonHTTP => false,
        };
        if cookie.is_http_only() && !source_is_http {
            return None;
        }
        let given = cookie.path_text();
        let path: String = if given.unicode_len() > 0 && given.get_char(0) == '/' {
            given.to_owned()
        } else {
            Self::default_path(request.path.as_str())
        };
        let name = cookie.name.as_str();
        let sent_securely = secure && request.is_secure_scheme();
        if begins_with(name, "__Secure-") && !sent_securely {
            return None;
        }
        if begins_with(name, "__Host-") && !(sent_securely && host_only && same_text(
            path.as_str(),
            "/",
        )) {
            return None;
        }
        let expiry_time: Option<i128> = match (cookie.max_age, cookie.expires) {
            (Some(seconds), _) => Some(now + seconds as i128 * NANOS),
            (None, Some(at)) => Some(at as i128 * NANOS),
            (None, None) => None,
        };
        let domain: String = if host_only {
            host.to_owned()
        } else {
            asked
        };
        Some(
            ServoCookie {
                cookie: Cookie { domain: Some(domain), path: Some(path), ..cookie },
                host_only,
                persistent: expiry_time.is_some(),
                creation_time: now,
                last_access: now,
                expiry_time,
            },
        )
    }

    /// A cookie that a URL sets by a text, as it is stored. Nothing where the text is malformed or
    /// the cookie may not be stored. `public_suffix` tells whether the domain that it asks for is
    /// a public suffix.
    pub fn from_cookie_string(
        cookie_str: &str,
        request: &ServoUrl,
        source: CookieSource,
        public_suffix: bool,
        now: i128,
    ) -> (r: Option<ServoCookie>)
        requires
            is_time(now),
        ensures
            match r {
                Some(stored) => parsed_cookie(cookie_str@) matches Some(cookie) && may_store(
                    cookie,
                    request@,
                    source,
                    public_suffix,
                ) && stored@ == wrapped(cookie, request@, public_suffix, now),
                None => parsed_cookie(cookie_str@) matches Some(cookie) ==> !may_store(
                    cookie,
                    request@,
                    source,
                    public_suffix,
                ),
            },
    {
        match parse_cookie(cookie_str) {
            Some(cookie) => Self::new_wrapped(cookie, request, source, public_suffix, now),
            None => None,
        }
    }

    /// Whether the cookie goes with a request to a URL, or may be seen by a script there.
    pub fn appropriate_for_url(&self, url: &ServoUrl, source: CookieSource) -> (r: bool)
        ensures
            r == self@.appropriate(url@, source),
    {
        let host = url.host_text();
        let domain = self.cookie.domain_text();
        let fits = if self.host_only {
            same_text(host, domain)
        } else {
            Self::domain_match(host, domain)
        };
        if !fits || !Self::path_match(url.path.as_str(), self.cookie.path_text()) {
            return false;
        }
        if self.cookie.is_secure() && !url.is_secure_scheme() {
            return false;
        }
        match source {
            CookieSource::HTTP => true,
            CookieSource::NonHTTP => !self.cookie.is_http_only(),
        }
    }

    /// Whether the cookie has ended.
    pub fn is_expired(&self, now: i128) -> (r: bool)
        ensures
            r == self@.is_expired(now),
    {
        match self.expiry_time {
            Some(at) => at <= now,
            None => false,
        }
    }

    /// Whether the cookie takes the place of another one.
    pub fn replaces(&self, other: &ServoCookie) -> (r: bool)
        ensures
            r == self@.same_slot(other@),
    {
        self.cookie.name == other.cookie.name && same_text(
            self.cookie.domain_text(),
            other.cookie.domain_text(),
        ) && same_text(self.cookie.path_text(), other.cookie.path_text())
    }
}

/// A cookie that was stored from a URL goes with a request to the same URL, over the way that it
/// came, if it asked for no path of its own.
pub proof fn law_cookie_returns_to_its_url(
    cookie: CookieModel,
    url: UrlModel,
    source: CookieSource,
    public_suffix: bool,
    now: i128,
)
    requires
        may_store(cookie, url, source, public_suffix),
        cookie.path_text().len() == 0,
        url.path.len() > 0,
        url.path[0] == '/',
    ensures
        wrapped(cookie, url, public_suffix, now).appropriate(url, source),
{
    let stored = wrapped(cookie, url, public_suffix, now);
    let n = last_slash(url.path);
    lemma_last_slash(url.path);
    reveal_strlit("/");
    if n <= 0 {
        assert(stored.cookie.path_text() =~= url.path.take(1));
        assert(stored.cookie.path_text().last() == '/');
        assert(url.path.len() == 1 ==> url.path =~= url.path.take(1));
    } else {
        assert(url.path.take(n).is_prefix_of(url.path));
    }
}

proof fn lemma_last_slash(path: Seq<char>)
    ensures
        -1 <= last_slash(path) < path.len(),
        last_slash(path) >= 0 ==> path[last_slash(path)] == '/',
        last_slash(path) == -1 ==> forall|i: int| 0 <= i < path.len() ==> path[i] != '/',
    decreases path.len(),
{
    if path.len() > 0 && path.last() != '/' {
        lemma_last_slash(path.drop_last());
        assert forall|i: int| last_slash(path) == -1 && 0 <= i < path.len() implies path[i]
            != '/' by {
            if i < path.len() - 1 {
                assert(path.drop_last()[i] == path[i]);
            }
        }
    }
}

/// A cookie that only goes over secure connections is neither stored from nor sent to a URL
/// without one, and one that is kept from scripts is neither taken from nor shown to them.
pub proof fn law_restrictions_hold(
    cookie: CookieModel,
    stored: ServoCookieModel,
    url: UrlModel,
    public_suffix: bool,
)
    ensures
        cookie.is_secure() && !url.is_secure() ==> !may_store(
            cookie,
            url,
            CookieSource::HTTP,
            public_suffix,
        ),
        stored.cookie.is_secure() && !url.is_secure() ==> !stored.appropriate(
            url,
            CookieSource::HTTP,
        ),
        cookie.is_http_only() ==> !may_store(cookie, url, CookieSource::NonHTTP, public_suffix),
        stored.cookie.is_http_only() ==> !stored.appropriate(url, CookieSource::NonHTTP),
{
}

/// A cookie is stored with its name, its value and its restrictions as it was sent. It belongs to the
/// host alone where it asks for no domain, and to the domain that it asks for otherwise, unless that
/// is a public suffix. It outlives the session where it says how long it lasts or when it ends, and
/// how long it lasts counts for more.
pub proof fn law_stored_as_it_was_sent(
    cookie: CookieModel,
    url: UrlModel,
    public_suffix: bool,
    now: i128,
)
    ensures
        ({
            let stored = wrapped(cookie, url, public_suffix, now);
            &&& stored.cookie.name == cookie.name
            &&& stored.cookie.value == cookie.value
            &&& stored.cookie.secure == cookie.secure
            &&& stored.cookie.http_only == cookie.http_only
            &&& stored.cookie.same_site == cookie.same_site
            &&& stored.cookie.partitioned == cookie.partitioned
            &&& cookie.domain is None ==> stored.host_only && stored.cookie.domain == Some(
                url.host_text(),
            )
            &&& stored.host_only ==> stored.cookie.domain == Some(url.host_text())
            &&& !stored.host_only ==> !public_suffix && stored.cookie.domain == Some(
                cookie.domain_text().map_values(|c: char| lower(c)),
            )
            &&& stored.persistent <==> cookie.max_age is Some || cookie.expires is Some
            &&& stored.persistent <==> stored.expiry_time is Some
            &&& is_time(now) ==> (cookie.max_age matches Some(seconds) ==> stored.expiry_time
                == Some((now + seconds * 1_000_000_000) as i128))
            &&& cookie.max_age is None ==> (cookie.expires matches Some(at) ==> stored.expiry_time
                == Some((at * 1_000_000_000) as i128))
            &&& stored.creation_time == now && stored.last_access == now
        }),
{
    if cookie.domain is None {
        reveal_strlit("");
        assert(asked_domain(cookie).len() == 0);
    }
}

/// The path that a cookie asks for is the one that it gets, where it begins with a slash.
pub proof fn law_asked_path_is_kept(cookie: CookieModel, url: UrlModel, path: Seq<char>)
    requires
        cookie.path == Some(path),
        path.len() > 0,
        path[0] == '/',
    ensures
        stored_path(cookie, url) == path,
{
}

/// A cookie goes with a request to its path and to what is below it, and to nothing else.
pub proof fn law_paths_match_below(path: Seq<char>, rest: Seq<char>, request: Seq<char>)
    ensures
        path_matches(path, path),
        path_matches(path + seq!['/'] + rest, path),
        path_matches(request, path) ==> path.is_prefix_of(request),
{
    let below = path + seq!['/'] + rest;
    assert(path.is_prefix_of(below));
    assert(below[path.len() as int] == '/');
    if request == path {
        assert(path.is_prefix_of(request));
    }
}

/// A cookie that belongs to a host alone goes to that host only, and another one to its domain and
/// what is below it; one that is secure goes over secure connections only, and one that is kept from
/// scripts with HTTP messages only.
pub proof fn law_cookies_go_where_they_belong(
    stored: ServoCookieModel,
    url: UrlModel,
    source: CookieSource,
)
    requires
        stored.appropriate(url, source),
    ensures
        stored.host_only ==> url.host_text() == stored.cookie.domain_text(),
        !stored.host_only ==> url.host_text() == stored.cookie.domain_text() || is_subdomain(
            url.host_text(),
            stored.cookie.domain_text(),
        ),
        path_matches(url.path, stored.cookie.path_text()),
        stored.cookie.secure == Some(true) ==> url.scheme == "https"@ || url.scheme == "wss"@,
        stored.cookie.http_only == Some(true) ==> source == CookieSource::HTTP,
{
}

/// A cookie stands for its own fields.
pub proof fn law_cookie_stands_for_its_fields(cookie: Cookie, stored: ServoCookie)
    ensures
        cookie@.name == cookie.name@,
        cookie@.value == cookie.value@,
        cookie.domain matches Some(domain) ==> cookie@.domain == Some(domain@),
        cookie.domain is None ==> cookie@.domain is None,
        cookie.path matches Some(path) ==> cookie@.path == Some(path@),
        cookie.path is None ==> cookie@.path is None,
        cookie@.secure == cookie.secure,
        cookie@.http_only == cookie.http_only,
        cookie@.same_site == cookie.same_site,
        cookie@.partitioned == cookie.partitioned,
        cookie@.max_age == cookie.max_age,
        cookie@.expires == cookie.expires,
        stored@.cookie == stored.cookie@,
        stored@.host_only == stored.host_only,
        stored@.persistent == stored.persistent,
        stored@.creation_time == stored.creation_time,
        stored@.last_access == stored.last_access,
        stored@.expiry_time == stored.expiry_time,
{
}

/// What a cookie lacks counts as empty or not set.
pub proof fn law_missing_parts_are_empty(cookie: CookieModel, text: Seq<char>)
    ensures
        cookie.domain == Some(text) ==> cookie.domain_text() == text,
        cookie.domain is None ==> cookie.domain_text() == ""@,
        cookie.path == Some(text) ==> cookie.path_text() == text,
        cookie.path is None ==> cookie.path_text() == ""@,
        cookie.is_secure() <==> cookie.secure == Some(true),
        cookie.is_http_only() <==> cookie.http_only == Some(true),
{
}

/// A cookie that asks for no domain, is restricted to nothing and has no prefix in its name may be
/// stored from every URL, by HTTP messages and by scripts; and one that is secure may, with such a
/// name, from every URL with a secure connection.
pub proof fn law_plain_cookies_may_be_stored(
    cookie: CookieModel,
    url: UrlModel,
    source: CookieSource,
    public_suffix: bool,
)
    requires
        cookie.domain is None,
        cookie.http_only != Some(true),
        !"__Secure-"@.is_prefix_of(cookie.name),
        !"__Host-"@.is_prefix_of(cookie.name),
        cookie.secure == Some(true) ==> url.scheme == "https"@ || url.scheme == "wss"@,
    ensures
        may_store(cookie, url, source, public_suffix),
{
    reveal_strlit("");
    assert(asked_domain(cookie).len() == 0);
}

/// A cookie may ask for the domain of the host that sets it and for what is above it, where that is no
/// public suffix, and for no other domain.
pub proof fn law_domains_that_may_be_asked_for(
    cookie: CookieModel,
    url: UrlModel,
    source: CookieSource,
    public_suffix: bool,
)
    requires
        may_store(cookie, url, source, public_suffix),
        asked_domain(cookie).len() > 0,
    ensures
        public_suffix ==> asked_domain(cookie) == url.host_text(),
        !public_suffix ==> asked_domain(cookie) == url.host_text() || is_subdomain(
            url.host_text(),
            asked_domain(cookie),
        ),
{
}

} // verus!
