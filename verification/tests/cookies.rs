use servo_storage::net::cookie::{Cookie, CookieSource, SameSite, ServoCookie};
use servo_storage::net::cookie_storage::CookieStorage;
use servo_storage::net::http_state::engines::cookie_jar_sqlite::{
    system_time_to_unix, SqliteCookieJarEngine, DELETE, INSERT,
};
use servo_storage::net::http_state::engines::shared::{
    init_connection, OpenStep, JOURNAL_MODE, SCHEMA_VERSION,
};
use servo_storage::net::url::{Host, ServoUrl};
use servo_storage::sql::Value;

const SECOND: i128 = 1_000_000_000;

fn url(scheme: &str, host: &str, path: &str) -> ServoUrl {
    ServoUrl {
        scheme: scheme.to_owned(),
        host: Some(Host::Domain(host.to_owned())),
        path: path.to_owned(),
    }
}

fn from(text: &str, url: &ServoUrl) -> Option<ServoCookie> {
    ServoCookie::from_cookie_string(text, url, CookieSource::HTTP, false, 5 * SECOND)
}

#[test]
fn a_text_is_taken_apart() {
    let cookie = Cookie::parse(
        "a=b; Domain=.X.Test; Path=/p; Secure; HttpOnly; Max-Age=7; \
         Expires=Thu, 01 Jan 1970 00:01:00 GMT",
    )
    .unwrap();
    assert_eq!(cookie.name, "a");
    assert_eq!(cookie.value, "b");
    assert_eq!(cookie.domain.as_deref(), Some("X.Test"));
    assert_eq!(cookie.path.as_deref(), Some("/p"));
    assert_eq!((cookie.secure, cookie.http_only), (Some(true), Some(true)));
    assert_eq!((cookie.max_age, cookie.expires), (Some(7), Some(60)));
    assert_eq!((cookie.same_site, cookie.partitioned), (None, None));
    for (text, same_site) in [
        ("a=b; SameSite=Strict", SameSite::Strict),
        ("a=b; SameSite=lax", SameSite::Lax),
        ("a=b; SameSite=None", SameSite::Unrestricted),
    ] {
        assert_eq!(Cookie::parse(text).unwrap().same_site, Some(same_site));
    }
    assert_eq!(Cookie::parse("a=b; Partitioned").unwrap().partitioned, Some(true));
    assert!(Cookie::parse("nothing").is_none());
    assert!(Cookie::parse("=b").is_none());
}

#[test]
fn cookies_get_a_domain_and_a_path() {
    let here = url("https", "a.x.test", "/dir/page");
    let plain = from("k=v", &here).unwrap();
    assert!(plain.host_only && !plain.persistent);
    assert_eq!(plain.cookie.domain_text(), "a.x.test");
    assert_eq!(plain.cookie.path_text(), "/dir");
    assert_eq!(plain.creation_time, 5 * SECOND);
    let wide = from("k=v; Domain=X.test; Path=/; Max-Age=2", &here).unwrap();
    assert!(!wide.host_only && wide.persistent);
    assert_eq!(wide.cookie.domain_text(), "x.test");
    assert_eq!(wide.cookie.path_text(), "/");
    assert_eq!(wide.expiry_time, Some(7 * SECOND));
    let dated = from("k=v; Expires=Thu, 01 Jan 1970 00:01:00 GMT", &here).unwrap();
    assert_eq!(dated.expiry_time, Some(60 * SECOND));
    let both = from("k=v; Max-Age=1; Expires=Thu, 01 Jan 1970 00:01:00 GMT", &here).unwrap();
    assert_eq!(both.expiry_time, Some(6 * SECOND));
}

#[test]
fn some_cookies_may_not_be_stored() {
    let here = url("https", "a.x.test", "/");
    let plain = url("http", "a.x.test", "/");
    assert!(from("k=v; Domain=y.test", &here).is_none());
    assert!(from("k=v; Domain=b.a.x.test", &here).is_none());
    assert!(from("k=v; Secure", &plain).is_none());
    assert!(from("k=v; Secure", &here).is_some());
    assert!(from("__Secure-k=v", &here).is_none());
    assert!(from("__Secure-k=v; Secure", &here).is_some());
    assert!(from("__Host-k=v; Secure; Path=/x", &here).is_none());
    assert!(from("__Host-k=v; Secure; Path=/; Domain=a.x.test", &here).is_none());
    assert!(from("__Host-k=v; Secure; Path=/", &here).is_some());
    let hidden = Cookie::parse("k=v; HttpOnly").unwrap();
    assert!(
        ServoCookie::new_wrapped(hidden, &here, CookieSource::NonHTTP, false, 0).is_none()
    );
    let suffix = Cookie::parse("k=v; Domain=x.test").unwrap();
    assert!(ServoCookie::new_wrapped(suffix, &here, CookieSource::HTTP, true, 0).is_none());
    let itself = Cookie::parse("k=v; Domain=a.x.test").unwrap();
    let stored = ServoCookie::new_wrapped(itself, &here, CookieSource::HTTP, true, 0).unwrap();
    assert!(stored.host_only);
}

#[test]
fn paths_and_domains_match() {
    for (path, expected) in
        [("", "/"), ("x", "/"), ("/", "/"), ("/x", "/"), ("/x/", "/x"), ("/x/y", "/x")]
    {
        assert_eq!(ServoCookie::default_path(path), expected);
    }
    assert!(ServoCookie::path_match("/x", "/x"));
    assert!(ServoCookie::path_match("/x/y", "/x"));
    assert!(ServoCookie::path_match("/x/y", "/x/"));
    assert!(!ServoCookie::path_match("/xy", "/x"));
    assert!(!ServoCookie::path_match("/", "/x"));
    assert!(ServoCookie::domain_match("a.x.test", "x.test"));
    assert!(ServoCookie::domain_match("x.test", "x.test"));
    assert!(!ServoCookie::domain_match("ax.test", "x.test"));
    assert!(!ServoCookie::domain_match("1.2.3.4", "3.4"));
}

fn push(storage: &mut CookieStorage, text: &str, url: &ServoUrl, now: i128) -> bool {
    let cookie = ServoCookie::from_cookie_string(text, url, CookieSource::HTTP, false, now);
    storage.push(cookie.unwrap(), url, CookieSource::HTTP, "x.test", now)
}

fn sent(storage: &mut CookieStorage, url: &ServoUrl, now: i128) -> Option<String> {
    storage.cookies_for_url(url, CookieSource::HTTP, "x.test", now)
}

#[test]
fn a_new_cookie_takes_the_place_of_an_old_one() {
    let mut storage = CookieStorage::new(150);
    let here = url("https", "x.test", "/");
    assert!(push(&mut storage, "a=1", &here, 1));
    assert!(push(&mut storage, "b=2", &here, 2));
    assert!(push(&mut storage, "a=3", &here, 3));
    assert_eq!(sent(&mut storage, &here, 9), Some("a=3; b=2".to_owned()));
}

#[test]
fn longer_paths_go_first() {
    let mut storage = CookieStorage::new(150);
    let here = url("https", "x.test", "/p/q/r");
    push(&mut storage, "a=1; Path=/", &here, 1);
    push(&mut storage, "b=2; Path=/p", &here, 2);
    push(&mut storage, "c=3; Path=/p/q", &here, 3);
    push(&mut storage, "d=4; Path=/p", &here, 4);
    assert_eq!(sent(&mut storage, &here, 9), Some("c=3; b=2; d=4; a=1".to_owned()));
    assert_eq!(sent(&mut storage, &url("https", "x.test", "/"), 9), Some("a=1".to_owned()));
    assert_eq!(sent(&mut storage, &url("https", "y.x.test", "/"), 9), None);
}

#[test]
fn there_is_a_limit() {
    let mut storage = CookieStorage::new(2);
    let here = url("https", "x.test", "/");
    push(&mut storage, "a=1", &here, 1);
    push(&mut storage, "s=2; Secure", &here, 2);
    assert!(push(&mut storage, "b=3", &here, 3));
    assert_eq!(sent(&mut storage, &here, 9), Some("s=2; b=3".to_owned()));
    assert!(push(&mut storage, "t=4; Secure", &here, 10));
    assert_eq!(sent(&mut storage, &here, 11), Some("s=2; t=4".to_owned()));
    assert!(!push(&mut storage, "c=5", &here, 12));
    assert!(push(&mut storage, "u=6; Secure", &here, 13));
    assert_eq!(sent(&mut storage, &here, 14), Some("t=4; u=6".to_owned()));
    let mut none = CookieStorage::new(0);
    assert!(!push(&mut none, "a=1; Secure", &here, 1));
    let mut ended = CookieStorage::new(1);
    push(&mut ended, "s=1; Secure; Max-Age=1", &here, 0);
    assert!(push(&mut ended, "a=2", &here, SECOND));
    assert_eq!(sent(&mut ended, &here, SECOND), Some("a=2".to_owned()));
}

#[test]
fn secure_and_hidden_cookies_are_left_alone() {
    let mut storage = CookieStorage::new(150);
    let here = url("https", "x.test", "/");
    let plain = url("http", "x.test", "/");
    push(&mut storage, "s=1; Secure", &here, 1);
    assert!(!push(&mut storage, "s=2", &plain, 2));
    assert!(push(&mut storage, "t=2", &plain, 2));
    push(&mut storage, "h=3; HttpOnly", &here, 3);
    let cookie = Cookie::new("h".to_owned(), "4".to_owned());
    let cookie =
        ServoCookie::new_wrapped(cookie, &here, CookieSource::NonHTTP, false, 4).unwrap();
    assert!(!storage.push(cookie, &here, CookieSource::NonHTTP, "x.test", 4));
    assert_eq!(sent(&mut storage, &here, 9), Some("s=1; t=2; h=3".to_owned()));
    assert_eq!(sent(&mut storage, &plain, 9), Some("t=2; h=3".to_owned()));
    assert_eq!(
        storage.cookies_for_url(&here, CookieSource::NonHTTP, "x.test", 9),
        Some("s=1; t=2".to_owned())
    );
}

#[test]
fn forgetting() {
    let mut storage = CookieStorage::new(150);
    let here = url("https", "x.test", "/");
    push(&mut storage, "a=1; Max-Age=1", &here, 0);
    push(&mut storage, "b=2; Max-Age=9", &here, 0);
    push(&mut storage, "c=3", &here, 0);
    storage.remove_expired_cookies_for_url("x.test", SECOND);
    assert_eq!(sent(&mut storage, &here, SECOND), Some("b=2; c=3".to_owned()));
    storage.clear_session_cookies();
    assert_eq!(sent(&mut storage, &here, SECOND), Some("b=2".to_owned()));
    storage.remove_all_expired_cookies(9 * SECOND);
    assert_eq!(sent(&mut storage, &here, SECOND), None);
    assert!(storage.cookie_site_descriptors().is_empty());
}

#[test]
fn times_become_whole_seconds() {
    assert_eq!(system_time_to_unix(None), None);
    assert_eq!(system_time_to_unix(Some(0)), Some(0));
    assert_eq!(system_time_to_unix(Some(1_999_999_999)), Some(1));
    assert_eq!(system_time_to_unix(Some(-1)), Some(0));
    assert_eq!(system_time_to_unix(Some(-1_999_999_999)), Some(-1));
    assert_eq!(system_time_to_unix(Some(i128::MAX)), Some(i64::MAX));
    assert_eq!(system_time_to_unix(Some(i128::MIN)), Some(-i64::MAX));
}

#[test]
fn rows_have_seven_columns() {
    let here = url("https", "x.test", "/");
    let mut storage = CookieStorage::new(150);
    push(&mut storage, "a=1; Max-Age=10", &here, 5 * SECOND);
    let changes = SqliteCookieJarEngine::save(&storage);
    assert_eq!(changes.len(), 2);
    let statement = changes[1].statement("text".to_owned());
    assert_eq!(statement.sql, INSERT);
    assert_eq!(statement.params.len(), 7);
    assert!(matches!(&statement.params[0], Value::Text(base) if base == "x.test"));
    assert!(matches!(&statement.params[1], Value::Text(name) if name == "a"));
    assert!(matches!(&statement.params[4], Value::Integer(1)));
    assert!(matches!(&statement.params[5], Value::Integer(15)));
    assert!(matches!(&statement.params[6], Value::Text(text) if text == "text"));
    let delete = SqliteCookieJarEngine::delete("x.test", "a", "x.test", "/");
    assert_eq!(delete.statement(String::new()).sql, DELETE);
    assert_eq!(delete.statement(String::new()).params.len(), 4);
}

#[test]
fn connections_are_prepared() {
    let steps = init_connection(Some(vec!["dir".to_owned(), "file".to_owned()]));
    assert_eq!(steps.len(), 9);
    assert!(matches!(&steps[0], OpenStep::MakeFolder(path) if *path == ["dir"]));
    assert!(!steps[0].is_required());
    assert!(matches!(&steps[1], OpenStep::OpenFile(path) if *path == ["dir", "file"]));
    assert!(steps[1].is_required());
    assert!(matches!(&steps[2], OpenStep::Pragma(sql) if *sql == JOURNAL_MODE));
    assert!(matches!(&steps[8], OpenStep::SetUserVersion(SCHEMA_VERSION)));
    let steps = init_connection(None);
    assert_eq!(steps.len(), 4);
    assert!(matches!(&steps[0], OpenStep::OpenInMemory));
}

#[test]
fn attributes_come_back_with_the_cookie() {
    let mut storage = CookieStorage::new(150);
    let here = url("https", "x.test", "/");
    push(&mut storage, "a=1; Secure; SameSite=Lax; Partitioned", &here, 1);
    let cookies = storage.cookies_data_for_url(&here, CookieSource::HTTP, "x.test", 2);
    assert_eq!(cookies[0].same_site, Some(SameSite::Lax));
    assert_eq!(cookies[0].partitioned, Some(true));
    let cookies = storage.query_cookies(&here, None, "x.test", 3);
    assert_eq!(cookies[0].same_site, Some(SameSite::Lax));
    assert_eq!(cookies[0].partitioned, Some(true));
}
