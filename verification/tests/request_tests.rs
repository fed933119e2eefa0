//! Tests of request validation and outbound header assembly.

use getty_core::request::{prepare_request, validate_method, RequestPayload};
use getty_core::strmap::StringMap;

fn payload(method: &str) -> RequestPayload {
    RequestPayload {
        method: method.to_string(),
        url: "http://localhost/api".to_string(),
        headers: StringMap::new(),
        cookies: None,
        body: None,
    }
}

#[test]
fn valid_methods_are_accepted() {
    assert!(validate_method("GET"));
    assert!(validate_method("POST"));
    assert!(validate_method("DELETE"));
    assert!(validate_method("PATCH"));
    assert!(validate_method("custom-verb"));
}

#[test]
fn invalid_methods_are_rejected() {
    assert!(!validate_method(""));
    assert!(!validate_method("FOO BAR"));
    assert!(!validate_method("GET/"));
    assert!(!validate_method("G\u{e9}T"));
}

#[test]
fn prepare_fails_on_unparseable_method() {
    let r = prepare_request(&payload("FOO BAR"));
    assert!(r.is_err());
}

#[test]
fn prepare_keeps_method_url_and_body() {
    let mut p = payload("POST");
    p.body = Some("payload".to_string());
    let q = prepare_request(&p).unwrap();
    assert_eq!(q.method, "POST");
    assert_eq!(q.url, "http://localhost/api");
    assert_eq!(q.body.as_deref(), Some("payload"));
    assert!(q.headers.is_empty());
}

#[test]
fn prepare_copies_headers_in_order() {
    let mut p = payload("GET");
    p.headers.insert("accept".to_string(), "application/json".to_string());
    p.headers.insert("x-token".to_string(), "abc".to_string());
    let q = prepare_request(&p).unwrap();
    assert_eq!(
        q.headers,
        vec![
            ("accept".to_string(), "application/json".to_string()),
            ("x-token".to_string(), "abc".to_string()),
        ]
    );
}

#[test]
fn cookies_become_one_cookie_header() {
    let mut p = payload("GET");
    let mut cookies = StringMap::new();
    cookies.insert("sid".to_string(), "1".to_string());
    cookies.insert("theme".to_string(), "dark".to_string());
    p.cookies = Some(cookies);
    let q = prepare_request(&p).unwrap();
    assert_eq!(
        q.headers,
        vec![("Cookie".to_string(), "sid=1; theme=dark".to_string())]
    );
}

#[test]
fn empty_cookie_mapping_adds_no_header() {
    let mut p = payload("GET");
    p.cookies = Some(StringMap::new());
    let q = prepare_request(&p).unwrap();
    assert!(q.headers.is_empty());
}

#[test]
fn header_mapping_keeps_last_value_per_key() {
    let mut m = StringMap::new();
    m.insert("k".to_string(), "first".to_string());
    m.insert("k".to_string(), "second".to_string());
    assert_eq!(m.len(), 1);
    assert_eq!(m.get("k"), Some("second".to_string()));
    assert_eq!(m.get("missing"), None);
}
