//! All cookies, by the registrable domain that they belong to.
use crate::keyed_map::StringMap;
use crate::net::cookie::{
    domain_matches, path_matches, Cookie, CookieModel, CookieSource, ServoCookie, ServoCookieModel,
};
use crate::net::url::{ServoUrl, UrlModel};
use crate::text::{owned_text, same_text, texts};
use vstd::prelude::*;

verus! {

/// What a list of stored cookies stands for.
pub open spec fn stored(list: Seq<ServoCookie>) -> Seq<ServoCookieModel> {
    list.map_values(|c: ServoCookie| c@)
}

/// What a list of cookies stands for.
pub open spec fn cookies(list: Seq<Cookie>) -> Seq<CookieModel> {
    list.map_values(|c: Cookie| c@)
}

/// Something to ask of a stored cookie.
pub enum CookieTest<'a> {
    /// Does it not take the place of this one?
    OtherSlot(&'a ServoCookie),
    /// Has it not ended?
    Live(i128),
    /// Does it outlive the session?
    Persistent,
    /// Does it have another name?
    OtherName(&'a str),
    /// Does it go with a request?
    Appropriate(&'a ServoUrl, CookieSource),
}

/// What a `CookieTest` stands for.
pub enum TestModel {
    OtherSlot(ServoCookieModel),
    Live(i128),
    Persistent,
    OtherName(Seq<char>),
    Appropriate(UrlModel, CookieSource),
}

impl<'a> View for CookieTest<'a> {
    type V = TestModel;

    open spec fn view(&self) -> TestModel {
        match self {
            CookieTest::OtherSlot(other) => TestModel::OtherSlot(other@),
            CookieTest::Live(now) => TestModel::Live(*now),
            CookieTest::Persistent => TestModel::Persistent,
            CookieTest::OtherName(name) => TestModel::OtherName(name@),
            CookieTest::Appropriate(url, source) => TestModel::Appropriate(url@, *source),
        }
    }
}

impl TestModel {
    /// Whether a cookie passes.
    pub open spec fn passed_by(self, c: ServoCookieModel) -> bool {
        match self {
            TestModel::OtherSlot(other) => !c.same_slot(other),
            TestModel::Live(now) => !c.is_expired(now),
            TestModel::Persistent => c.persistent,
            TestModel::OtherName(name) => c.cookie.name != name,
            TestModel::Appropriate(url, source) => c.appropriate(url, source),
        }
    }

    /// The cookies of a list that pass, in order.
    pub open spec fn select(self, list: Seq<ServoCookieModel>) -> Seq<ServoCookieModel> {
        list.filter(|c: ServoCookieModel| self.passed_by(c))
    }
}

impl<'a> CookieTest<'a> {
    /// Whether a cookie passes.
    pub fn is_passed_by(&self, c: &ServoCookie) -> (r: bool)
        ensures
            r == self@.passed_by(c@),
    {
        match self {
            CookieTest::OtherSlot(other) => !c.replaces(other),
            CookieTest::Live(now) => !c.is_expired(*now),
            CookieTest::Persistent => c.persistent,
            CookieTest::OtherName(name) => !same_text(c.cookie.name.as_str(), name),
            CookieTest::Appropriate(url, source) => c.appropriate_for_url(url, *source),
        }
    }

    /// The cookies of a list that pass, in order.
    pub fn select(&self, list: &Vec<ServoCookie>) -> (r: Vec<ServoCookie>)
        ensures
            stored(r@) == self@.select(stored(list@)),
    {
        let mut out: Vec<ServoCookie> = Vec::new();
        let ghost all = stored(list@);
        let mut i: usize = 0;
        assert(stored(out@) =~= self@.select(all.take(0))) by {
            reveal(Seq::filter);
        }
        while i < list.len()
            invariant
                i <= list@.len(),
                all == stored(list@),
                stored(out@) == self@.select(all.take(i as int)),
            decreases list@.len() - i,
        {
            let ghost before = stored(out@);
            let passed = self.is_passed_by(&list[i]);
            if passed {
                out.push(list[i].clone());
                assert(stored(out@) =~= before.push(all[i as int]));
            }
            assert(self@.select(all.take(i + 1)) == if passed {
                before.push(all[i as int])
            } else {
                before
            }) by {
                reveal(Seq::filter);
                assert(all.take(i + 1).drop_last() =~= all.take(i as int));
            }
            i += 1;
        }
        assert(all.take(i as int) =~= all);
        out
    }
}

/// Whether a cookie goes before another one: it has the longer path, or the same and is older.
pub open spec fn goes_before(a: ServoCookieModel, b: ServoCookieModel) -> bool {
    a.cookie.path_text().len() > b.cookie.path_text().len() || (a.cookie.path_text().len()
        == b.cookie.path_text().len() && a.creation_time < b.creation_time)
}

/// A list with one more cookie, as far at the back as the order lets it stand.
pub open spec fn inserted(list: Seq<ServoCookieModel>, c: ServoCookieModel) -> Seq<ServoCookieModel>
    decreases list.len(),
{
    if list.len() > 0 && goes_before(c, list.last()) {
        inserted(list.drop_last(), c).push(list.last())
    } else {
        list.push(c)
    }
}

/// The cookies of a list in the order in which they go with a request. Those that the order does
/// not part stay as they are.
pub open spec fn ordered(list: Seq<ServoCookieModel>) -> Seq<ServoCookieModel>
    decreases list.len(),
{
    if list.len() == 0 {
        list
    } else {
        inserted(ordered(list.drop_last()), list.last())
    }
}

proof fn lemma_inserted(list: Seq<ServoCookieModel>, c: ServoCookieModel, at: int)
    requires
        0 <= at <= list.len(),
        at > 0 ==> !goes_before(c, list[at - 1]),
        forall|i: int| at <= i < list.len() ==> goes_before(c, #[trigger] list[i]),
    ensures
        inserted(list, c) == list.insert(at, c),
    decreases list.len(),
{
    if at < list.len() {
        assert(goes_before(c, list[list.len() - 1]));
        let init = list.drop_last();
        assert forall|i: int| at <= i < init.len() implies goes_before(c, #[trigger] init[i]) by {
            assert(init[i] == list[i]);
        }
        lemma_inserted(init, c, at);
        assert(init.insert(at, c).push(list.last()) =~= list.insert(at, c));
    } else {
        if list.len() > 0 {
            assert(list.last() == list[at - 1]);
        }
        assert(list.insert(at, c) =~= list.push(c));
    }
}

fn is_before(a: &ServoCookie, b: &ServoCookie) -> (r: bool)
    ensures
        r == goes_before(a@, b@),
{
    let m: usize = a.cookie.path_text().unicode_len();
    let n: usize = b.cookie.path_text().unicode_len();
    m > n || (m == n && a.creation_time < b.creation_time)
}

/// The cookies of a list in the order in which they go with a request.
pub fn in_order(list: Vec<ServoCookie>) -> (r: Vec<ServoCookie>)
    ensures
        stored(r@) == ordered(stored(list@)),
{
    let mut out: Vec<ServoCookie> = Vec::new();
    let ghost all = stored(list@);
    let mut i: usize = 0;
    assert(stored(out@) =~= ordered(all.take(0)));
    while i < list.len()
        invariant
            i <= list@.len(),
            all == stored(list@),
            stored(out@) == ordered(all.take(i as int)),
        decreases list@.len() - i,
    {
        let c = &list[i];
        let ghost before = stored(out@);
        let mut at: usize = out.len();
        while at > 0 && is_before(c, &out[at - 1])
            invariant
                at <= out@.len(),
                before == stored(out@),
                forall|k: int| at <= k < before.len() ==> goes_before(c@, #[trigger] before[k]),
            decreases at,
        {
            assert(before[at - 1] == out@[at - 1]@);
            at -= 1;
        }
        proof {
            if at > 0 {
                assert(before[at - 1] == out@[at - 1]@);
            }
            lemma_inserted(before, c@, at as int);
            assert(all.take(i + 1).drop_last() =~= all.take(i as int));
            assert(all.take(i + 1).last() == c@);
        }
        out.insert(at, c.clone());
        assert(stored(out@) =~= before.insert(at as int, c@));
        i += 1;
    }
    assert(all.take(i as int) =~= all);
    out
}

/// Whether a list is in the order in which its cookies go with a request.
pub open spec fn is_ordered(list: Seq<ServoCookieModel>) -> bool {
    forall|i: int, j: int| 0 <= i < j < list.len() ==> !goes_before(#[trigger] list[j], #[trigger] list[i])
}

proof fn lemma_insertion_keeps_order(list: Seq<ServoCookieModel>, c: ServoCookieModel)
    requires
        is_ordered(list),
    ensures
        is_ordered(inserted(list, c)),
        inserted(list, c).to_multiset() == list.to_multiset().insert(c),
        forall|k: int|
            0 <= k < inserted(list, c).len() ==> (#[trigger] inserted(list, c)[k]) == c
                || list.contains(inserted(list, c)[k]),
    decreases list.len(),
{
    broadcast use vstd::seq_lib::group_to_multiset_ensures;

    if list.len() > 0 && goes_before(c, list.last()) {
        let init = list.drop_last();
        assert(is_ordered(init)) by {
            assert forall|i: int, j: int| 0 <= i < j < init.len() implies !goes_before(
                #[trigger] init[j],
                #[trigger] init[i],
            ) by {
                assert(!goes_before(list[j], list[i]));
            }
        }
        lemma_insertion_keeps_order(init, c);
        let head = inserted(init, c);
        let r = inserted(list, c);
        assert(r =~= head.push(list.last()));
        assert forall|k: int| 0 <= k < r.len() implies (#[trigger] r[k]) == c || list.contains(
            r[k],
        ) by {
            if k < head.len() {
                assert(r[k] == head[k]);
                if head[k] != c {
                    assert(init.contains(head[k]));
                    let m = choose|m: int| 0 <= m < init.len() && init[m] == head[k];
                    assert(list[m] == r[k]);
                }
            } else {
                assert(list[list.len() - 1] == r[k]);
            }
        }
        assert forall|i: int, j: int| 0 <= i < j < r.len() implies !goes_before(
            #[trigger] r[j],
            #[trigger] r[i],
        ) by {
            if j < head.len() {
                assert(r[i] == head[i] && r[j] == head[j]);
            } else {
                assert(r[i] == head[i]);
                if head[i] != c {
                    assert(init.contains(head[i]));
                    let m = choose|m: int| 0 <= m < init.len() && init[m] == head[i];
                    assert(!goes_before(list[list.len() - 1], list[m]));
                }
            }
        }
        assert(list =~= init.push(list.last()));
        assert(r.to_multiset() =~= list.to_multiset().insert(c));
    } else {
        let r = list.push(c);
        assert forall|k: int| 0 <= k < r.len() implies (#[trigger] r[k]) == c || list.contains(
            r[k],
        ) by {
            if k < list.len() {
                assert(list[k] == r[k]);
            }
        }
        assert forall|i: int, j: int| 0 <= i < j < r.len() implies !goes_before(
            #[trigger] r[j],
            #[trigger] r[i],
        ) by {
            if j == list.len() && list.len() > 0 {
                let last = list[list.len() - 1];
                assert(!goes_before(c, last));
                if i < list.len() - 1 {
                    assert(!goes_before(last, list[i]));
                }
            } else {
                assert(r[i] == list[i] && r[j] == list[j]);
            }
        }
    }
}

/// The order in which cookies go with a request puts longer paths first, and older cookies first
/// where paths are as long; it neither adds nor loses a cookie.
pub proof fn law_ordered_is_sorted(list: Seq<ServoCookieModel>)
    ensures
        is_ordered(ordered(list)),
        ordered(list).to_multiset() == list.to_multiset(),
        ordered(list).len() == list.len(),
    decreases list.len(),
{
    broadcast use vstd::seq_lib::group_to_multiset_ensures;

    if list.len() > 0 {
        law_ordered_is_sorted(list.drop_last());
        lemma_insertion_keeps_order(ordered(list.drop_last()), list.last());
        assert(list =~= list.drop_last().push(list.last()));
    }
    assert(ordered(list).to_multiset().len() == list.to_multiset().len());
}

/// Whether a cookie is the one, among those that are secure or those that are not, that was not
/// looked at for longest; of several such, the first.
pub open spec fn is_oldest(list: Seq<ServoCookieModel>, secure: bool, i: int) -> bool {
    &&& 0 <= i < list.len()
    &&& list[i].cookie.is_secure() == secure
    &&& forall|j: int|
        0 <= j < list.len() && (#[trigger] list[j]).cookie.is_secure() == secure
            ==> list[i].last_access < list[j].last_access || (list[i].last_access
            == list[j].last_access && i <= j)
}

/// A list with one cookie fewer, to make room for a cookie that is secure or not. The one that was
/// not looked at for longest goes, and one that is not secure goes before one that is. A cookie
/// that is not secure gets no room that a secure one would have to make.
pub open spec fn evicted(list: Seq<ServoCookieModel>, secure: bool) -> Option<
    Seq<ServoCookieModel>,
> {
    if exists|i: int| is_oldest(list, false, i) {
        Some(list.remove(choose|i: int| is_oldest(list, false, i)))
    } else if secure && exists|i: int| is_oldest(list, true, i) {
        Some(list.remove(choose|i: int| is_oldest(list, true, i)))
    } else {
        None
    }
}

fn oldest(list: &Vec<ServoCookie>, secure: bool) -> (r: Option<usize>)
    ensures
        match r {
            Some(i) => is_oldest(stored(list@), secure, i as int),
            None => forall|i: int| !is_oldest(stored(list@), secure, i),
        },
{
    let ghost all = stored(list@);
    let mut found: Option<usize> = None;
    let mut i: usize = 0;
    while i < list.len()
        invariant
            i <= list@.len(),
            all == stored(list@),
            match found {
                Some(k) => k < i && is_oldest(all.take(i as int), secure, k as int),
                None => forall|j: int|
                    0 <= j < i ==> (#[trigger] all[j]).cookie.is_secure() != secure,
            },
        decreases list@.len() - i,
    {
        let ghost head = all.take(i as int);
        let ghost longer = all.take(i + 1);
        assert forall|j: int| 0 <= j < i implies #[trigger] longer[j] == head[j] by {}
        assert(longer[i as int] == list@[i as int]@);
        if list[i].cookie.is_secure() == secure {
            let better = match found {
                Some(k) => list[i].last_access < list[k].last_access,
                None => true,
            };
            if better {
                assert forall|j: int|
                    0 <= j < longer.len() && (#[trigger] longer[j]).cookie.is_secure()
                        == secure implies longer[i as int].last_access < longer[j].last_access || (
                longer[i as int].last_access == longer[j].last_access && i <= j) by {
                    if j < i {
                        assert(longer[j] == all[j]);
                        assert(longer[j] == head[j]);
                    }
                }
                found = Some(i);
            } else {
                let ghost k = found->0;
                assert(longer[k as int] == head[k as int]);
                assert forall|j: int|
                    0 <= j < longer.len() && (#[trigger] longer[j]).cookie.is_secure()
                        == secure implies longer[k as int].last_access < longer[j].last_access || (
                longer[k as int].last_access == longer[j].last_access && k <= j) by {
                    if j < i {
                        assert(longer[j] == head[j]);
                    }
                }
            }
        } else {
            if found.is_some() {
                let ghost k = found->0;
                assert(longer[k as int] == head[k as int]);
                assert forall|j: int|
                    0 <= j < longer.len() && (#[trigger] longer[j]).cookie.is_secure()
                        == secure implies longer[k as int].last_access < longer[j].last_access || (
                longer[k as int].last_access == longer[j].last_access && k <= j) by {
                    if j < i {
                        assert(longer[j] == head[j]);
                    }
                }
            }
        }
        i += 1;
    }
    assert(all.take(i as int) =~= all);
    found
}

proof fn lemma_oldest_is_one(list: Seq<ServoCookieModel>, secure: bool, i: int, j: int)
    requires
        is_oldest(list, secure, i),
        is_oldest(list, secure, j),
    ensures
        i == j,
{
}

fn evict_one_cookie(secure: bool, list: Vec<ServoCookie>) -> (r: Option<Vec<ServoCookie>>)
    ensures
        match r {
            Some(left) => evicted(stored(list@), secure) == Some(stored(left@)),
            None => evicted(stored(list@), secure) is None,
        },
{
    let ghost all = stored(list@);
    let mut list = list;
    match oldest(&list, false) {
        Some(i) => {
            proof {
                lemma_oldest_is_one(
                    all,
                    false,
                    i as int,
                    choose|i: int| is_oldest(all, false, i),
                );
            }
            let _ = list.remove(i);
            assert(stored(list@) =~= all.remove(i as int));
            Some(list)
        },
        None => {
            if !secure {
                return None;
            }
            match oldest(&list, true) {
                Some(i) => {
                    proof {
                        lemma_oldest_is_one(
                            all,
                            true,
                            i as int,
                            choose|i: int| is_oldest(all, true, i),
                        );
                    }
                    let _ = list.remove(i);
                    assert(stored(list@) =~= all.remove(i as int));
                    Some(list)
                },
                None => None,
            }
        },
    }
}

/// Whether a cookie would cover up a secure one that it could not have set.
pub open spec fn overlaps(c: ServoCookieModel, there: ServoCookieModel) -> bool {
    &&& there.cookie.is_secure()
    &&& c.cookie.name == there.cookie.name
    &&& domain_matches(c.cookie.domain_text(), there.cookie.domain_text()) || domain_matches(
        there.cookie.domain_text(),
        c.cookie.domain_text(),
    )
    &&& path_matches(c.cookie.path_text(), there.cookie.path_text())
}

/// Whether a cookie is in the way of a new one from a URL.
pub open spec fn is_in_the_way(
    there: ServoCookieModel,
    c: ServoCookieModel,
    url: UrlModel,
    source: CookieSource,
) -> bool {
    ||| (!c.cookie.is_secure() && !url.is_secure() && overlaps(c, there))
    ||| (source == CookieSource::NonHTTP && there.cookie.is_http_only() && there.same_slot(c))
}

/// Whether a new cookie from a URL is refused in view of those that are there.
pub open spec fn refused(
    list: Seq<ServoCookieModel>,
    c: ServoCookieModel,
    url: UrlModel,
    source: CookieSource,
) -> bool {
    ||| (c.cookie.is_secure() && !url.is_secure())
    ||| exists|i: int| 0 <= i < list.len() && is_in_the_way(#[trigger] list[i], c, url, source)
}

/// When the cookie was made whose place a new one takes, if there is one.
pub open spec fn made_before(list: Seq<ServoCookieModel>, c: ServoCookieModel) -> Option<i128>
    decreases list.len(),
{
    if list.len() == 0 {
        None
    } else if list[0].same_slot(c) {
        Some(list[0].creation_time)
    } else {
        made_before(list.skip(1), c)
    }
}

/// The cookies among which a new one is put: without the one whose place it takes, and fewer of
/// them where there are as many as there may be.
pub open spec fn room_for(
    list: Seq<ServoCookieModel>,
    c: ServoCookieModel,
    max: nat,
    now: i128,
) -> Option<Seq<ServoCookieModel>> {
    let others = TestModel::OtherSlot(c).select(list);
    let live = TestModel::Live(now).select(others);
    if others.len() < max {
        Some(others)
    } else if live.len() < others.len() {
        Some(live)
    } else {
        evicted(live, c.cookie.is_secure())
    }
}

/// A new cookie as it is put among those that are there.
pub open spec fn as_put(list: Seq<ServoCookieModel>, c: ServoCookieModel) -> ServoCookieModel {
    match made_before(list, c) {
        Some(at) => c.made(at),
        None => c,
    }
}

fn covers_up(c: &ServoCookie, there: &ServoCookie) -> (r: bool)
    ensures
        r == overlaps(c@, there@),
{
    let domain = c.cookie.domain_text();
    let other = there.cookie.domain_text();
    there.cookie.is_secure() && c.cookie.name == there.cookie.name && (ServoCookie::domain_match(
        domain,
        other,
    ) || ServoCookie::domain_match(other, domain)) && ServoCookie::path_match(
        c.cookie.path_text(),
        there.cookie.path_text(),
    )
}

fn is_refused(
    list: &Vec<ServoCookie>,
    c: &ServoCookie,
    url: &ServoUrl,
    source: CookieSource,
) -> (r: bool)
    ensures
        r == refused(stored(list@), c@, url@, source),
{
    let secure = c.cookie.is_secure();
    let secure_url = url.is_secure_scheme();
    if secure && !secure_url {
        return true;
    }
    let from_script = match source {
        CookieSource::HTTP => false,
        CookieSource::NonHTTP => true,
    };
    let ghost all = stored(list@);
    let mut i: usize = 0;
    while i < list.len()
        invariant
            i <= list@.len(),
            all == stored(list@),
            secure == c@.cookie.is_secure(),
            secure_url == url@.is_secure(),
            from_script == (source == CookieSource::NonHTTP),
            forall|j: int| 0 <= j < i ==> !is_in_the_way(#[trigger] all[j], c@, url@, source),
        decreases list@.len() - i,
    {
        let there = &list[i];
        assert(all[i as int] == there@);
        if !secure && !secure_url && covers_up(c, there) {
            assert(is_in_the_way(all[i as int], c@, url@, source));
            return true;
        }
        if from_script && there.cookie.is_http_only() && there.replaces(c) {
            assert(is_in_the_way(all[i as int], c@, url@, source));
            return true;
        }
        i += 1;
    }
    false
}

fn make_room(list: &Vec<ServoCookie>, c: &ServoCookie, max: usize, now: i128) -> (r: Option<
    Vec<ServoCookie>,
>)
    ensures
        match r {
            Some(others) => room_for(stored(list@), c@, max as nat, now) == Some(stored(others@)),
            None => room_for(stored(list@), c@, max as nat, now) is None,
        },
{
    let others = CookieTest::OtherSlot(c).select(list);
    assert(stored(others@).len() == others@.len());
    if others.len() < max {
        return Some(others);
    }
    let live = CookieTest::Live(now).select(&others);
    assert(stored(live@).len() == live@.len());
    if live.len() < others.len() {
        return Some(live);
    }
    evict_one_cookie(c.cookie.is_secure(), live)
}

fn put_among(list: &Vec<ServoCookie>, c: ServoCookie) -> (r: ServoCookie)
    ensures
        r@ == as_put(stored(list@), c@),
{
    let ghost all = stored(list@);
    let mut i: usize = 0;
    assert(all.skip(0) =~= all);
    while i < list.len()
        invariant
            i <= list@.len(),
            all == stored(list@),
            made_before(all, c@) == made_before(all.skip(i as int), c@),
        decreases list@.len() - i,
    {
        assert(all.skip(i as int)[0] == list@[i as int]@);
        assert(all.skip(i as int).skip(1) =~= all.skip(i + 1));
        if list[i].replaces(&c) {
            return ServoCookie { creation_time: list[i].creation_time, ..c };
        }
        i += 1;
    }
    c
}

/// All cookies, by registrable domain, and how many there may be for one.
pub struct CookieStorage {
    pub cookies_map: StringMap<Vec<ServoCookie>>,
    pub max_per_host: usize,
}

/// What a `CookieStorage` stands for.
pub struct StorageModel {
    pub cookies_map: Map<Seq<char>, Seq<ServoCookieModel>>,
    pub max_per_host: nat,
}

impl View for CookieStorage {
    type V = StorageModel;

    open spec fn view(&self) -> StorageModel {
        StorageModel {
            cookies_map: self.cookies_map@.map_values(|list: Vec<ServoCookie>| stored(list@)),
            max_per_host: self.max_per_host as nat,
        }
    }
}

impl StorageModel {
    /// No cookies.
    pub open spec fn empty(max_per_host: nat) -> StorageModel {
        StorageModel { cookies_map: Map::empty(), max_per_host }
    }

    /// The cookies of a registrable domain.
    pub open spec fn bucket(self, base: Seq<char>) -> Seq<ServoCookieModel> {
        if self.cookies_map.contains_key(base) {
            self.cookies_map[base]
        } else {
            Seq::empty()
        }
    }

    /// The same but for the cookies.
    pub open spec fn with(self, cookies_map: Map<Seq<char>, Seq<ServoCookieModel>>) -> StorageModel {
        StorageModel { cookies_map, max_per_host: self.max_per_host }
    }

    /// The same but for the cookies of a registrable domain.
    pub open spec fn with_bucket(self, base: Seq<char>, list: Seq<ServoCookieModel>) -> StorageModel {
        self.with(self.cookies_map.insert(base, list))
    }

    /// Without the cookies of a registrable domain that do not pass a test.
    pub open spec fn keep_in(self, base: Seq<char>, test: TestModel) -> StorageModel {
        if self.cookies_map.contains_key(base) {
            self.with_bucket(base, test.select(self.cookies_map[base]))
        } else {
            self
        }
    }

    /// Without the cookies that do not pass a test.
    pub open spec fn keep(self, test: TestModel) -> StorageModel {
        self.with(self.cookies_map.map_values(|list: Seq<ServoCookieModel>| test.select(list)))
    }

    /// Without the cookies of some registrable domains.
    pub open spec fn without(self, sites: Seq<Seq<char>>) -> StorageModel {
        self.with(self.cookies_map.remove_keys(sites.to_set()))
    }

    /// Puts a new cookie from a URL in, and tells whether it was not refused. `base` is the
    /// registrable domain of the cookie's domain.
    pub open spec fn push(
        self,
        c: ServoCookieModel,
        url: UrlModel,
        source: CookieSource,
        base: Seq<char>,
        now: i128,
    ) -> (StorageModel, bool) {
        let list = self.bucket(base);
        if refused(list, c, url, source) {
            (self, false)
        } else {
            match room_for(list, c, self.max_per_host, now) {
                Some(others) => (self.with_bucket(base, others.push(as_put(list, c))), true),
                None => (self, false),
            }
        }
    }

    /// The cookies that go with a request to a URL, in order. `base` is the registrable domain of
    /// the URL's host.
    pub open spec fn cookies_for(
        self,
        url: UrlModel,
        source: CookieSource,
        base: Seq<char>,
    ) -> Seq<ServoCookieModel> {
        ordered(TestModel::Appropriate(url, source).select(self.bucket(base)))
    }

    /// Notes that the cookies that go with a request were looked at.
    pub open spec fn touch(
        self,
        url: UrlModel,
        source: CookieSource,
        base: Seq<char>,
        now: i128,
    ) -> StorageModel {
        if self.cookies_map.contains_key(base) {
            self.with_bucket(
                base,
                self.cookies_map[base].map_values(
                    |c: ServoCookieModel|
                        if c.appropriate(url, source) {
                            c.touched(now)
                        } else {
                            c
                        },
                ),
            )
        } else {
            self
        }
    }
}

/// The cookies in a list of stored ones.
pub open spec fn sent(list: Seq<ServoCookieModel>) -> Seq<CookieModel> {
    list.map_values(|c: ServoCookieModel| c.cookie)
}

/// The cookies of a list that have a name, where one is wanted.
pub open spec fn named(list: Seq<CookieModel>, name: Option<Seq<char>>) -> Seq<CookieModel> {
    list.filter(|c: CookieModel| name matches Some(name) ==> c.name == name)
}

/// The text that goes with a request: each cookie's name and value, parted by semicolons.
pub open spec fn header(list: Seq<CookieModel>) -> Seq<char>
    decreases list.len(),
{
    if list.len() == 0 {
        ""@
    } else if list.len() == 1 {
        list[0].name + "="@ + list[0].value
    } else {
        header(list.drop_last()) + "; "@ + list.last().name + "="@ + list.last().value
    }
}

/// A site that has cookies.
#[derive(Debug)]
pub struct SiteDescriptor {
    pub name: String,
}

/// The names of sites.
pub open spec fn site_names(list: Seq<SiteDescriptor>) -> Seq<Seq<char>> {
    list.map_values(|site: SiteDescriptor| site.name@)
}

impl CookieStorage {
    /// No cookies.
    pub fn new(max_per_host: usize) -> (r: Self)
        ensures
            r@ == StorageModel::empty(max_per_host as nat),
    {
        let r = CookieStorage { cookies_map: StringMap::new(), max_per_host };
        assert(r@.cookies_map =~= Map::empty());
        r
    }

    fn set_bucket(&mut self, base: &str, list: Vec<ServoCookie>)
        ensures
            final(self)@ == old(self)@.with_bucket(base@, stored(list@)),
    {
        let ghost before = self@;
        let ghost given = stored(list@);
        self.cookies_map.insert(base.to_owned(), list);
        assert(self@.cookies_map =~= before.with_bucket(base@, given).cookies_map);
    }

    /// Puts a new cookie from a URL in, and tells whether it was not refused. `base` is the
    /// registrable domain of the cookie's domain.
    pub fn push(
        &mut self,
        cookie: ServoCookie,
        url: &ServoUrl,
        source: CookieSource,
        base: &str,
        now: i128,
    ) -> (r: bool)
        ensures
            (final(self)@, r) == old(self)@.push(cookie@, url@, source, base@, now),
    {
        let key = base.to_owned();
        let none: Vec<ServoCookie> = Vec::new();
        assert(stored(none@) =~= Seq::empty());
        let list: &Vec<ServoCookie> = match self.cookies_map.get(&key) {
            Some(list) => list,
            None => &none,
        };
        assert(stored(list@) == self@.bucket(base@));
        if is_refused(list, &cookie, url, source) {
            return false;
        }
        match make_room(list, &cookie, self.max_per_host, now) {
            Some(others) => {
                let mut others = others;
                let put = put_among(list, cookie);
                let ghost before = stored(others@);
                others.push(put);
                assert(stored(others@) =~= before.push(put@));
                self.set_bucket(base, others);
                true
            },
            None => false,
        }
    }

    /// Puts a cookie in that was stored before. `base` is the registrable domain of its domain.
    pub fn push_persisted(&mut self, cookie: ServoCookie, base: &str)
        ensures
            final(self)@ == old(self)@.with_bucket(base@, old(self)@.bucket(base@).push(cookie@)),
    {
        let ghost before = self@;
        let key = base.to_owned();
        let mut list: Vec<ServoCookie> = match self.cookies_map.remove(&key) {
            Some(list) => list,
            None => Vec::new(),
        };
        assert(stored(list@) =~= before.bucket(base@));
        list.push(cookie);
        assert(stored(list@) =~= before.bucket(base@).push(cookie@));
        self.set_bucket(base, list);
        assert(self@.cookies_map =~= before.with_bucket(
            base@,
            before.bucket(base@).push(cookie@),
        ).cookies_map);
    }

    fn keep_in(&mut self, base: &str, test: &CookieTest<'_>)
        ensures
            final(self)@ == old(self)@.keep_in(base@, test@),
    {
        let left = match self.cookies_map.get(&base.to_owned()) {
            Some(list) => Some(test.select(list)),
            None => None,
        };
        match left {
            Some(left) => self.set_bucket(base, left),
            None => {},
        }
    }

    fn keep(&mut self, test: &CookieTest<'_>)
        ensures
            final(self)@ == old(self)@.keep(test@),
    {
        let mut kept: StringMap<Vec<ServoCookie>> = StringMap::new();
        let n = self.cookies_map.len();
        let ghost order = self.cookies_map.order();
        let mut i: usize = 0;
        while i < n
            invariant
                i <= n,
                n == order.len(),
                order == self.cookies_map.order(),
                order.no_duplicates(),
                self == old(self),
                forall|k: Seq<char>|
                    kept@.contains_key(k) <==> order.take(i as int).contains(k),
                forall|k: Seq<char>| #[trigger]
                    kept@.contains_key(k) ==> self.cookies_map@.contains_key(k) && stored(
                        kept@[k]@,
                    ) == test@.select(stored(self.cookies_map@[k]@)),
            decreases n - i,
        {
            let (base, list) = self.cookies_map.entry(i);
            let ghost before = kept@;
            kept.insert(base.clone(), test.select(list));
            proof {
                let head = order.take(i as int);
                let longer = order.take(i + 1);
                assert(longer =~= head.push(order[i as int]));
                assert forall|k: Seq<char>|
                    kept@.contains_key(k) <==> longer.contains(k) by {
                    vstd::seq_lib::lemma_seq_contains_after_push(head, order[i as int], k);
                    assert(before.contains_key(k) <==> head.contains(k));
                }
            }
            i += 1;
        }
        assert(order.take(n as int) =~= order);
        assert(kept@.map_values(|list: Vec<ServoCookie>| stored(list@)) =~= self@.keep(
            test@,
        ).cookies_map) by {
            assert forall|k: Seq<char>|
                kept@.contains_key(k) <==> self.cookies_map@.contains_key(k) by {
                assert(self.cookies_map@.contains_key(k) <==> order.contains(k));
            }
        }
        self.cookies_map = kept;
    }

    /// Forgets the cookies of the registrable domain `base` that have ended.
    pub fn remove_expired_cookies_for_url(&mut self, base: &str, now: i128)
        ensures
            final(self)@ == old(self)@.keep_in(base@, TestModel::Live(now)),
    {
        self.keep_in(base, &CookieTest::Live(now));
    }

    /// Forgets all cookies that have ended.
    pub fn remove_all_expired_cookies(&mut self, now: i128)
        ensures
            final(self)@ == old(self)@.keep(TestModel::Live(now)),
    {
        self.keep(&CookieTest::Live(now));
    }

    /// Forgets the cookies that do not outlive the session.
    pub fn clear_session_cookies(&mut self)
        ensures
            final(self)@ == old(self)@.keep(TestModel::Persistent),
    {
        self.keep(&CookieTest::Persistent);
    }

    /// Forgets the cookies of the registrable domain `base` that have a name.
    pub fn delete_cookie_with_name(&mut self, base: &str, name: &str)
        ensures
            final(self)@ == old(self)@.keep_in(base@, TestModel::OtherName(name@)),
    {
        self.keep_in(base, &CookieTest::OtherName(name));
    }

    /// Forgets the cookies of the registrable domain `base`, or all cookies.
    pub fn clear_storage(&mut self, base: Option<&str>)
        ensures
            final(self)@ == match base {
                Some(base) => old(self)@.with(old(self)@.cookies_map.remove(base@)),
                None => old(self)@.with(Map::empty()),
            },
    {
        match base {
            Some(base) => {
                let _ = self.cookies_map.remove(&base.to_owned());
                assert(self@.cookies_map =~= old(self)@.cookies_map.remove(base@));
            },
            None => {
                self.cookies_map.clear();
                assert(self@.cookies_map =~= Map::empty());
            },
        }
    }

    /// Forgets the cookies of some registrable domains.
    pub fn delete_cookies_for_sites(&mut self, sites: &Vec<String>)
        ensures
            final(self)@ == old(self)@.without(texts(sites@)),
    {
        let ghost all = texts(sites@);
        let mut i: usize = 0;
        assert(self@.cookies_map =~= old(self)@.without(all.take(0)).cookies_map);
        while i < sites.len()
            invariant
                i <= sites@.len(),
                all == texts(sites@),
                self@ == old(self)@.without(all.take(i as int)),
            decreases sites@.len() - i,
        {
            let ghost before = self@;
            let _ = self.cookies_map.remove(&sites[i]);
            proof {
                assert(self@.cookies_map =~= before.cookies_map.remove(all[i as int]));
                let head = all.take(i as int);
                let longer = all.take(i + 1);
                assert(longer =~= head.push(all[i as int]));
                assert forall|k: Seq<char>| longer.to_set().contains(k) <==> head.to_set().contains(
                    k,
                ) || k == all[i as int] by {
                    vstd::seq_lib::lemma_seq_contains_after_push(head, all[i as int], k);
                }
                assert(self@.cookies_map =~= old(self)@.without(longer).cookies_map);
            }
            i += 1;
        }
        assert(all.take(i as int) =~= all);
    }

    /// The cookies that go with a request to a URL, in order. `base` is the registrable domain of
    /// the URL's host.
    pub fn cookies_data_for_url(
        &mut self,
        url: &ServoUrl,
        source: CookieSource,
        base: &str,
        now: i128,
    ) -> (r: Vec<Cookie>)
        ensures
            cookies(r@) == sent(old(self)@.cookies_for(url@, source, base@)),
            final(self)@ == old(self)@.touch(url@, source, base@, now),
    {
        let ghost before = self@;
        let key = base.to_owned();
        let list: Vec<ServoCookie> = match self.cookies_map.remove(&key) {
            Some(list) => list,
            None => {
                let none: Vec<Cookie> = Vec::new();
                assert(self@.cookies_map =~= before.cookies_map);
                assert(TestModel::Appropriate(url@, source).select(Seq::empty()) =~= Seq::empty())
                    by {
                    reveal(Seq::filter);
                }
                assert(cookies(none@) =~= sent(before.cookies_for(url@, source, base@)));
                return none;
            },
        };
        assert(stored(list@) == before.bucket(base@));
        let chosen = in_order(CookieTest::Appropriate(url, source).select(&list));
        let mut list = list;
        let ghost all = stored(list@);
        let mut i: usize = 0;
        while i < list.len()
            invariant
                i <= list@.len(),
                list@.len() == all.len(),
                forall|j: int|
                    0 <= j < i ==> (#[trigger] list@[j])@ == if all[j].appropriate(url@, source) {
                        all[j].touched(now)
                    } else {
                        all[j]
                    },
                forall|j: int| i <= j < list@.len() ==> (#[trigger] list@[j])@ == all[j],
            decreases list@.len() - i,
        {
            assert(list@[i as int]@ == all[i as int]);
            if list[i].appropriate_for_url(url, source) {
                let mut looked_at = list[i].clone();
                looked_at.last_access = now;
                list.set(i, looked_at);
            }
            i += 1;
        }
        assert(stored(list@) =~= before.touch(url@, source, base@, now).cookies_map[base@]);
        self.set_bucket(base, list);
        assert(self@.cookies_map =~= before.touch(url@, source, base@, now).cookies_map);
        let mut out: Vec<Cookie> = Vec::new();
        let mut k: usize = 0;
        while k < chosen.len()
            invariant
                k <= chosen@.len(),
                out@.len() == k,
                forall|j: int| 0 <= j < k ==> (#[trigger] out@[j])@ == stored(chosen@)[j].cookie,
            decreases chosen@.len() - k,
        {
            out.push(chosen[k].cookie.clone());
            k += 1;
        }
        assert(cookies(out@) =~= sent(stored(chosen@)));
        out
    }

    /// The text that goes with a request to a URL, if there is one. `base` is the registrable
    /// domain of the URL's host.
    pub fn cookies_for_url(
        &mut self,
        url: &ServoUrl,
        source: CookieSource,
        base: &str,
        now: i128,
    ) -> (r: Option<String>)
        ensures
            final(self)@ == old(self)@.touch(url@, source, base@, now),
            match r {
                Some(text) => old(self)@.cookies_for(url@, source, base@).len() > 0 && text@
                    == header(sent(old(self)@.cookies_for(url@, source, base@))),
                None => old(self)@.cookies_for(url@, source, base@).len() == 0,
            },
    {
        let list = self.cookies_data_for_url(url, source, base, now);
        let ghost all = cookies(list@);
        if list.len() == 0 {
            assert(all.len() == 0);
            return None;
        }
        let mut text: String = list[0].name.clone();
        text.append("=");
        text.append(list[0].value.as_str());
        let mut i: usize = 1;
        assert(all.len() == list@.len());
        assert(header(all.take(1)) == text@);
        while i < list.len()
            invariant
                1 <= i <= list@.len(),
                all == cookies(list@),
                text@ == header(all.take(i as int)),
            decreases list@.len() - i,
        {
            text.append("; ");
            text.append(list[i].name.as_str());
            text.append("=");
            text.append(list[i].value.as_str());
            assert(all.take(i + 1).drop_last() =~= all.take(i as int));
            assert(all.take(i + 1).last() == list@[i as int]@);
            i += 1;
        }
        assert(all.take(i as int) =~= all);
        Some(text)
    }

    /// The cookies that a script at a URL may see, in order, or those of them that have a name.
    /// `base` is the registrable domain of the URL's host.
    pub fn query_cookies(
        &mut self,
        url: &ServoUrl,
        name: Option<String>,
        base: &str,
        now: i128,
    ) -> (r: Vec<Cookie>)
        ensures
            cookies(r@) == named(
                sent(old(self)@.cookies_for(url@, CookieSource::NonHTTP, base@)),
                owned_text(name),
            ),
            final(self)@ == old(self)@.touch(url@, CookieSource::NonHTTP, base@, now),
    {
        let list = self.cookies_data_for_url(url, CookieSource::NonHTTP, base, now);
        let ghost all = cookies(list@);
        let ghost wanted = owned_text(name);
        let mut out: Vec<Cookie> = Vec::new();
        let mut i: usize = 0;
        assert(cookies(out@) =~= named(all.take(0), wanted)) by {
            reveal(Seq::filter);
        }
        while i < list.len()
            invariant
                i <= list@.len(),
                all == cookies(list@),
                wanted == owned_text(name),
                cookies(out@) == named(all.take(i as int), wanted),
            decreases list@.len() - i,
        {
            let matching = match &name {
                Some(name) => list[i].name == *name,
                None => true,
            };
            let ghost before = cookies(out@);
            if matching {
                out.push(list[i].clone());
                assert(cookies(out@) =~= before.push(all[i as int]));
            }
            assert(named(all.take(i + 1), wanted) == if matching {
                before.push(all[i as int])
            } else {
                before
            }) by {
                reveal(Seq::filter);
                assert(all.take(i + 1).drop_last() =~= all.take(i as int));
            }
            i += 1;
        }
        assert(all.take(i as int) =~= all);
        out
    }

    /// The registrable domains that have cookies, each once.
    pub fn cookie_site_descriptors(&self) -> (r: Vec<SiteDescriptor>)
        ensures
            site_names(r@).no_duplicates(),
            forall|base: Seq<char>|
                site_names(r@).contains(base) <==> #[trigger] self@.bucket(base).len() > 0,
    {
        let mut out: Vec<SiteDescriptor> = Vec::new();
        let n = self.cookies_map.len();
        let ghost order = self.cookies_map.order();
        let mut i: usize = 0;
        while i < n
            invariant
                i <= n,
                n == order.len(),
                order == self.cookies_map.order(),
                order.no_duplicates(),
                site_names(out@).no_duplicates(),
                forall|base: Seq<char>|
                    #[trigger] site_names(out@).contains(base) <==> order.take(
                        i as int,
                    ).contains(base) && self@.bucket(base).len() > 0,
            decreases n - i,
        {
            let (base, list) = self.cookies_map.entry(i);
            let ghost before = site_names(out@);
            let ghost head = order.take(i as int);
            let ghost longer = order.take(i + 1);
            assert(stored(list@).len() == list@.len());
            assert(self@.bucket(base@) == stored(list@));
            if list.len() > 0 {
                out.push(SiteDescriptor { name: base.clone() });
                assert(site_names(out@) =~= before.push(base@));
            }
            proof {
                assert(longer =~= head.push(order[i as int]));
                assert(!head.contains(order[i as int]));
                assert(!before.contains(base@));
                assert forall|a: int, b: int|
                    0 <= a < b < site_names(out@).len() implies site_names(out@)[a] != site_names(
                    out@,
                )[b] by {
                    assert(before.contains(before[a]));
                }
                assert forall|other: Seq<char>| #[trigger]
                    site_names(out@).contains(other) <==> longer.contains(other) && self@.bucket(
                        other,
                    ).len() > 0 by {
                    vstd::seq_lib::lemma_seq_contains_after_push(head, order[i as int], other);
                    vstd::seq_lib::lemma_seq_contains_after_push(before, base@, other);
                    assert(before.contains(other) <==> head.contains(other) && self@.bucket(
                        other,
                    ).len() > 0);
                }
            }
            i += 1;
        }
        assert(order.take(n as int) =~= order);
        assert forall|base: Seq<char>|
            site_names(out@).contains(base) <==> #[trigger] self@.bucket(base).len() > 0 by {
            assert(site_names(out@).contains(base) <==> order.take(n as int).contains(base)
                && self@.bucket(base).len() > 0);
            assert(self.cookies_map@.contains_key(base) <==> order.contains(base));
        }
        out
    }
}

/// A test lets exactly those cookies of a list through that pass it.
pub proof fn lemma_selected(test: TestModel, list: Seq<ServoCookieModel>, c: ServoCookieModel)
    ensures
        test.select(list).contains(c) <==> list.contains(c) && test.passed_by(c),
        test.select(list).len() <= list.len(),
    decreases list.len(),
{
    reveal(Seq::filter);
    if list.len() > 0 {
        let init = list.drop_last();
        lemma_selected(test, init, c);
        assert(list =~= init.push(list.last()));
        vstd::seq_lib::lemma_seq_contains_after_push(init, list.last(), c);
        vstd::seq_lib::lemma_seq_contains_after_push(test.select(init), list.last(), c);
    }
}

/// A registrable domain never gets more cookies than it may have.
pub proof fn law_limit_is_kept(
    storage: StorageModel,
    c: ServoCookieModel,
    url: UrlModel,
    source: CookieSource,
    base: Seq<char>,
    now: i128,
)
    requires
        storage.bucket(base).len() <= storage.max_per_host,
    ensures
        storage.push(c, url, source, base, now).0.bucket(base).len() <= storage.max_per_host,
{
    let list = storage.bucket(base);
    let others = TestModel::OtherSlot(c).select(list);
    lemma_selected(TestModel::OtherSlot(c), list, c);
    lemma_selected(TestModel::Live(now), others, c);
}

/// A cookie that is not refused is among those of its registrable domain, and the only one in its
/// place. It is as old as the one whose place it takes.
pub proof fn law_pushed_cookie_is_there(
    storage: StorageModel,
    c: ServoCookieModel,
    url: UrlModel,
    source: CookieSource,
    base: Seq<char>,
    now: i128,
    other: ServoCookieModel,
)
    requires
        storage.push(c, url, source, base, now).1,
    ensures
        ({
            let after = storage.push(c, url, source, base, now).0.bucket(base);
            let put = as_put(storage.bucket(base), c);
            &&& after.contains(put)
            &&& put.cookie == c.cookie
            &&& after.contains(other) && other.same_slot(c) ==> other == put
            &&& after.contains(other) && other != put ==> storage.bucket(base).contains(other)
        }),
{
    let list = storage.bucket(base);
    let others = TestModel::OtherSlot(c).select(list);
    let live = TestModel::Live(now).select(others);
    let room = room_for(list, c, storage.max_per_host, now)->0;
    let put = as_put(list, c);
    assert(room.push(put).last() == put);
    lemma_selected(TestModel::OtherSlot(c), list, other);
    lemma_selected(TestModel::Live(now), others, other);
    vstd::seq_lib::lemma_seq_contains_after_push(room, put, other);
    assert(room.contains(other) ==> others.contains(other)) by {
        if room.contains(other) && room != others && room != live {
            let k = choose|k: int| 0 <= k < room.len() && room[k] == other;
            let i = if exists|i: int| is_oldest(live, false, i) {
                choose|i: int| is_oldest(live, false, i)
            } else {
                choose|i: int| is_oldest(live, true, i)
            };
            assert(room == live.remove(i));
            assert(live[if k < i {
                k
            } else {
                k + 1
            }] == other);
            assert(live.contains(other));
        }
    }
}

/// A cookie that came without a secure connection takes the place of no secure cookie with its
/// name: where there is one on the same site and path, it is refused.
pub proof fn law_secure_cookies_are_left_alone(
    storage: StorageModel,
    c: ServoCookieModel,
    url: UrlModel,
    source: CookieSource,
    base: Seq<char>,
    now: i128,
    there: ServoCookieModel,
)
    requires
        !url.is_secure(),
        storage.bucket(base).contains(there),
        overlaps(c, there),
    ensures
        storage.push(c, url, source, base, now) == (storage, false),
{
    let list = storage.bucket(base);
    let i = choose|i: int| 0 <= i < list.len() && list[i] == there;
    assert(c.cookie.is_secure() || is_in_the_way(list[i], c, url, source));
}

/// A script takes the place of no cookie that is kept from scripts.
pub proof fn law_hidden_cookies_are_left_alone(
    storage: StorageModel,
    c: ServoCookieModel,
    url: UrlModel,
    base: Seq<char>,
    now: i128,
    there: ServoCookieModel,
)
    requires
        storage.bucket(base).contains(there),
        there.cookie.is_http_only(),
        there.same_slot(c),
    ensures
        storage.push(c, url, CookieSource::NonHTTP, base, now) == (storage, false),
{
    let list = storage.bucket(base);
    let i = choose|i: int| 0 <= i < list.len() && list[i] == there;
    assert(is_in_the_way(list[i], c, url, CookieSource::NonHTTP));
}

/// Where the cookies that do not pass a test are forgotten, exactly the others are left.
pub proof fn law_forgotten_cookies_are_gone(
    storage: StorageModel,
    test: TestModel,
    base: Seq<char>,
    c: ServoCookieModel,
)
    ensures
        storage.keep(test).bucket(base).contains(c) <==> storage.bucket(base).contains(c)
            && test.passed_by(c),
        storage.keep_in(base, test).bucket(base).contains(c) <==> storage.bucket(base).contains(c)
            && test.passed_by(c),
{
    lemma_selected(test, storage.bucket(base), c);
}

/// Exactly those cookies of a registrable domain go with a request that are appropriate for it.
pub proof fn law_appropriate_cookies_are_sent(
    storage: StorageModel,
    url: UrlModel,
    source: CookieSource,
    base: Seq<char>,
    c: ServoCookieModel,
)
    ensures
        storage.cookies_for(url, source, base).contains(c) <==> storage.bucket(base).contains(c)
            && c.appropriate(url, source),
{
    let chosen = TestModel::Appropriate(url, source).select(storage.bucket(base));
    lemma_selected(TestModel::Appropriate(url, source), storage.bucket(base), c);
    law_ordered_is_sorted(chosen);
    broadcast use vstd::seq_lib::group_to_multiset_ensures;

    assert(chosen.contains(c) <==> chosen.to_multiset().count(c) > 0);
    assert(ordered(chosen).contains(c) <==> ordered(chosen).to_multiset().count(c) > 0);
}

/// Whether no two cookies of a list have the same name, domain and path.
pub open spec fn has_distinct_slots(list: Seq<ServoCookieModel>) -> bool {
    forall|i: int, j: int|
        0 <= i < j < list.len() ==> !(#[trigger] list[i]).same_slot(#[trigger] list[j])
}

proof fn lemma_selected_slots(test: TestModel, list: Seq<ServoCookieModel>)
    requires
        has_distinct_slots(list),
    ensures
        has_distinct_slots(test.select(list)),
    decreases list.len(),
{
    reveal(Seq::filter);
    if list.len() > 0 {
        let init = list.drop_last();
        assert forall|i: int, j: int| 0 <= i < j < init.len() implies !(
        #[trigger] init[i]).same_slot(#[trigger] init[j]) by {
            assert(init[i] == list[i] && init[j] == list[j]);
        }
        lemma_selected_slots(test, init);
        let before = test.select(init);
        let after = test.select(list);
        assert forall|i: int, j: int| 0 <= i < j < after.len() implies !(
        #[trigger] after[i]).same_slot(#[trigger] after[j]) by {
            if j < before.len() {
                assert(after[i] == before[i] && after[j] == before[j]);
            } else {
                assert(after[j] == list.last());
                assert(after[i] == before[i]);
                lemma_selected(test, init, before[i]);
                assert(before.contains(before[i]));
                let m = choose|m: int| 0 <= m < init.len() && init[m] == before[i];
                assert(list[m] == before[i]);
                assert(!list[m].same_slot(list[list.len() - 1]));
            }
        }
    }
}

/// A registrable domain never gets two cookies with the same name, domain and path from new
/// cookies, nor by forgetting some.
pub proof fn law_slots_stay_distinct(
    storage: StorageModel,
    c: ServoCookieModel,
    url: UrlModel,
    source: CookieSource,
    base: Seq<char>,
    now: i128,
    test: TestModel,
)
    requires
        has_distinct_slots(storage.bucket(base)),
    ensures
        has_distinct_slots(storage.push(c, url, source, base, now).0.bucket(base)),
        has_distinct_slots(storage.keep(test).bucket(base)),
        has_distinct_slots(storage.keep_in(base, test).bucket(base)),
        has_distinct_slots(storage.touch(url, source, base, now).bucket(base)),
{
    let list = storage.bucket(base);
    let others = TestModel::OtherSlot(c).select(list);
    let live = TestModel::Live(now).select(others);
    lemma_selected_slots(test, list);
    lemma_selected_slots(TestModel::OtherSlot(c), list);
    lemma_selected_slots(TestModel::Live(now), others);
    let touched = storage.touch(url, source, base, now).bucket(base);
    assert forall|i: int, j: int| 0 <= i < j < touched.len() implies !(
    #[trigger] touched[i]).same_slot(#[trigger] touched[j]) by {
        assert(!list[i].same_slot(list[j]));
    }
    if storage.push(c, url, source, base, now).1 {
        let room = room_for(list, c, storage.max_per_host, now)->0;
        let put = as_put(list, c);
        if room != others && room != live {
            let gone = if exists|i: int| is_oldest(live, false, i) {
                choose|i: int| is_oldest(live, false, i)
            } else {
                choose|i: int| is_oldest(live, true, i)
            };
            assert(room == live.remove(gone));
            assert forall|i: int, j: int| 0 <= i < j < room.len() implies !(
            #[trigger] room[i]).same_slot(#[trigger] room[j]) by {
                let a = if i < gone { i } else { i + 1 };
                let b = if j < gone { j } else { j + 1 };
                assert(room[i] == live[a] && room[j] == live[b]);
            }
        }
        let after = room.push(put);
        assert forall|i: int, j: int| 0 <= i < j < after.len() implies !(
        #[trigger] after[i]).same_slot(#[trigger] after[j]) by {
            if j < room.len() {
                assert(after[i] == room[i] && after[j] == room[j]);
            } else {
                lemma_room_is_elsewhere(list, c, storage.max_per_host, now, i);
            }
        }
    }
}

proof fn lemma_room_is_elsewhere(
    list: Seq<ServoCookieModel>,
    c: ServoCookieModel,
    max: nat,
    now: i128,
    i: int,
)
    requires
        room_for(list, c, max, now) is Some,
        0 <= i < (room_for(list, c, max, now)->0).len(),
    ensures
        !(room_for(list, c, max, now)->0)[i].same_slot(c),
{
    let others = TestModel::OtherSlot(c).select(list);
    let live = TestModel::Live(now).select(others);
    let room = room_for(list, c, max, now)->0;
    let x = room[i];
    assert(room.contains(x));
    if room != others && room != live {
        let gone = if exists|k: int| is_oldest(live, false, k) {
            choose|k: int| is_oldest(live, false, k)
        } else {
            choose|k: int| is_oldest(live, true, k)
        };
        assert(room == live.remove(gone));
        assert(live[if i < gone {
            i
        } else {
            i + 1
        }] == x);
        assert(live.contains(x));
    }
    lemma_selected(TestModel::Live(now), others, x);
    lemma_selected(TestModel::OtherSlot(c), list, x);
    assert(others.contains(x));
}

/// What lets a cookie pass each test.
pub proof fn law_tests_ask_this(
    c: ServoCookieModel,
    other: ServoCookieModel,
    now: i128,
    name: Seq<char>,
    url: UrlModel,
    source: CookieSource,
)
    ensures
        TestModel::OtherSlot(other).passed_by(c) <==> !(c.cookie.name == other.cookie.name
            && c.cookie.domain_text() == other.cookie.domain_text() && c.cookie.path_text()
            == other.cookie.path_text()),
        c.expiry_time is None ==> TestModel::Live(now).passed_by(c),
        c.expiry_time matches Some(at) ==> (TestModel::Live(now).passed_by(c) <==> now < at),
        TestModel::Persistent.passed_by(c) <==> c.persistent,
        TestModel::OtherName(name).passed_by(c) <==> c.cookie.name != name,
        TestModel::Appropriate(url, source).passed_by(c) <==> c.appropriate(url, source),
{
}

/// Cookies go with a request in the order of their paths, the longest first, and those with paths of
/// one length in the order in which they were made.
pub proof fn law_cookies_go_in_this_order(list: Seq<ServoCookieModel>, i: int, j: int)
    requires
        0 <= i < j < ordered(list).len(),
    ensures
        ({
            let first = ordered(list)[i];
            let second = ordered(list)[j];
            &&& first.cookie.path_text().len() >= second.cookie.path_text().len()
            &&& first.cookie.path_text().len() == second.cookie.path_text().len()
                ==> first.creation_time <= second.creation_time
        }),
{
    law_ordered_is_sorted(list);
    assert(!goes_before(ordered(list)[j], ordered(list)[i]));
}

/// The text that goes with a request is made of the names and the values of the cookies, each pair
/// joined by `=` and the pairs parted by `; `.
pub proof fn law_header_is_made_of_pairs(list: Seq<CookieModel>, c: CookieModel)
    ensures
        header(seq![c]) == c.name + "="@ + c.value,
        list.len() > 0 ==> header(list.push(c)) == header(list) + "; "@ + c.name + "="@ + c.value,
{
    assert(list.push(c).drop_last() =~= list);
}

/// Of the cookies that a script may see, it gets those with the name that it asks for, or all.
pub proof fn law_names_are_asked_for(list: Seq<CookieModel>, name: Seq<char>, c: CookieModel)
    ensures
        named(list, Some(name)).contains(c) <==> list.contains(c) && c.name == name,
        named(list, None) == list,
    decreases list.len(),
{
    reveal(Seq::filter);
    if list.len() > 0 {
        let init = list.drop_last();
        law_names_are_asked_for(init, name, c);
        assert(list =~= init.push(list.last()));
        vstd::seq_lib::lemma_seq_contains_after_push(init, list.last(), c);
        vstd::seq_lib::lemma_seq_contains_after_push(named(init, Some(name)), list.last(), c);
    } else {
        assert(named(list, None) =~= list);
    }
}

/// That a cookie was looked at for a request changes when it was last looked at, and nothing else, and
/// only of the cookies that go with the request.
pub proof fn law_looking_changes_the_access_time(
    storage: StorageModel,
    url: UrlModel,
    source: CookieSource,
    base: Seq<char>,
    now: i128,
    i: int,
)
    requires
        0 <= i < storage.bucket(base).len(),
    ensures
        ({
            let before = storage.bucket(base)[i];
            let after = storage.touch(url, source, base, now).bucket(base)[i];
            &&& storage.touch(url, source, base, now).bucket(base).len() == storage.bucket(
                base,
            ).len()
            &&& after.cookie == before.cookie
            &&& after.host_only == before.host_only
            &&& after.persistent == before.persistent
            &&& after.creation_time == before.creation_time
            &&& after.expiry_time == before.expiry_time
            &&& before.appropriate(url, source) ==> after.last_access == now
            &&& !before.appropriate(url, source) ==> after.last_access == before.last_access
        }),
{
}

/// A cookie that is not refused and finds room is put in as it came, but for when it was made, which
/// is when the one whose place it takes was. Where there are fewer cookies than there may be, no other
/// one goes.
pub proof fn law_there_is_room_below_the_limit(
    storage: StorageModel,
    c: ServoCookieModel,
    url: UrlModel,
    source: CookieSource,
    base: Seq<char>,
    now: i128,
    other: ServoCookieModel,
)
    requires
        !refused(storage.bucket(base), c, url, source),
        storage.bucket(base).len() < storage.max_per_host,
    ensures
        ({
            let (after, accepted) = storage.push(c, url, source, base, now);
            &&& accepted
            &&& after.bucket(base).last().cookie == c.cookie
            &&& after.bucket(base).last().persistent == c.persistent
            &&& after.bucket(base).last().expiry_time == c.expiry_time
            &&& after.bucket(base).last().host_only == c.host_only
            &&& storage.bucket(base).contains(other) && !other.same_slot(c) ==> after.bucket(
                base,
            ).contains(other)
        }),
{
    let list = storage.bucket(base);
    let others = TestModel::OtherSlot(c).select(list);
    lemma_selected(TestModel::OtherSlot(c), list, other);
    vstd::seq_lib::lemma_seq_contains_after_push(others, as_put(list, c), other);
}

/// Whether a list without its member at `i` is what is left, and that member had to go rather than
/// the one at `k`: it is not secure where that one is not, and of two that are alike it is the one
/// that was not looked at for longer.
pub open spec fn goes_rather(
    list: Seq<ServoCookieModel>,
    left: Seq<ServoCookieModel>,
    i: int,
    k: int,
) -> bool {
    &&& 0 <= i < list.len()
    &&& left == list.remove(i)
    &&& list[i].cookie.is_secure() ==> list[k].cookie.is_secure()
    &&& list[i].cookie.is_secure() == list[k].cookie.is_secure() ==> list[i].last_access
        <= list[k].last_access
}

/// To make room, one cookie goes: of those that are not secure the one that was not looked at for
/// longest, and of the secure ones only where all are and the new one is secure too. No room is made
/// only where that leaves none to go.
pub proof fn law_least_used_cookie_goes(list: Seq<ServoCookieModel>, secure: bool, k: int)
    requires
        0 <= k < list.len(),
    ensures
        list[k].cookie.is_secure() && !secure ==> (evicted(list, secure) is None ==> forall|j: int|
            0 <= j < list.len() ==> (#[trigger] list[j]).cookie.is_secure()),
        !list[k].cookie.is_secure() || secure ==> evicted(list, secure) is Some,
        evicted(list, secure) is Some ==> exists|i: int| #[trigger]
            goes_rather(list, evicted(list, secure)->0, i, k),
{
    lemma_oldest_exists(list, list[k].cookie.is_secure(), k);
    if exists|i: int| is_oldest(list, false, i) {
        let i = choose|i: int| is_oldest(list, false, i);
        assert(evicted(list, secure) == Some(list.remove(i)));
        assert(!list[i].cookie.is_secure());
        assert(!list[k].cookie.is_secure() ==> list[i].last_access <= list[k].last_access);
        assert(goes_rather(list, evicted(list, secure)->0, i, k));
    } else {
        assert(list[k].cookie.is_secure());
        if secure {
            let i = choose|i: int| is_oldest(list, true, i);
            assert(is_oldest(list, true, i));
            assert(evicted(list, secure) == Some(list.remove(i)));
            assert(list[i].last_access <= list[k].last_access);
            assert(goes_rather(list, evicted(list, secure)->0, i, k));
        }
    }
    if evicted(list, secure) is None {
        assert forall|j: int| 0 <= j < list.len() implies (
        #[trigger] list[j]).cookie.is_secure() by {
            lemma_oldest_exists(list, list[j].cookie.is_secure(), j);
        }
    }
}

proof fn lemma_oldest_exists(list: Seq<ServoCookieModel>, secure: bool, k: int)
    requires
        0 <= k < list.len(),
        list[k].cookie.is_secure() == secure,
    ensures
        exists|i: int| is_oldest(list, secure, i),
    decreases list.len(),
{
    let init = list.drop_last();
    let n = list.len() - 1;
    if exists|j: int| 0 <= j < n && (#[trigger] init[j]).cookie.is_secure() == secure {
        let j = choose|j: int| 0 <= j < n && (#[trigger] init[j]).cookie.is_secure() == secure;
        lemma_oldest_exists(init, secure, j);
        let i = choose|i: int| is_oldest(init, secure, i);
        let best = if list[n].cookie.is_secure() == secure && list[n].last_access
            < list[i].last_access {
            n
        } else {
            i
        };
        assert forall|m: int|
            0 <= m < list.len() && (#[trigger] list[m]).cookie.is_secure()
                == secure implies list[best].last_access < list[m].last_access || (
        list[best].last_access == list[m].last_access && best <= m) by {
            if m < n {
                assert(init[m] == list[m]);
            }
        }
        assert(is_oldest(list, secure, best));
    } else {
        assert forall|m: int| 0 <= m < n implies (#[trigger] list[m]).cookie.is_secure()
            != secure by {
            assert(init[m] == list[m]);
        }
        assert(is_oldest(list, secure, n));
    }
}

/// A cookie is refused for these reasons, and for no other: it is secure and did not come over a
/// secure connection; it is not secure, did not come over one, and would cover up a secure cookie of
/// its name; or a script sets it where there is one that is kept from scripts.
pub proof fn law_refused_for_these_reasons(
    list: Seq<ServoCookieModel>,
    c: ServoCookieModel,
    url: UrlModel,
    source: CookieSource,
)
    ensures
        refused(list, c, url, source) ==> {
            ||| c.cookie.is_secure() && !url.is_secure()
            ||| !c.cookie.is_secure() && !url.is_secure() && exists|there: ServoCookieModel|
                #[trigger] list.contains(there) && there.cookie.is_secure() && there.cookie.name
                    == c.cookie.name
            ||| source == CookieSource::NonHTTP && exists|there: ServoCookieModel| #[trigger]
                list.contains(there) && there.cookie.is_http_only() && there.same_slot(c)
        },
        c.cookie.is_secure() && !url.is_secure() ==> refused(list, c, url, source),
        url.is_secure() && source == CookieSource::HTTP ==> !refused(list, c, url, source),
        list.len() == 0 && !c.cookie.is_secure() ==> !refused(list, c, url, source),
{
    if refused(list, c, url, source) && !(c.cookie.is_secure() && !url.is_secure()) {
        let i = choose|i: int|
            0 <= i < list.len() && is_in_the_way(#[trigger] list[i], c, url, source);
        assert(list.contains(list[i]));
    }
}

} // verus!
