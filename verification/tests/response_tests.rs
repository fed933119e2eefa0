//! Tests of response normalization: header collapsing, content type
//! defaulting, Set-Cookie parsing, and body classification.

use getty_core::response::{classify_body, normalize_response, parse_set_cookie, BodyValue};

fn headers(pairs: &[(&str, &str)]) -> Vec<(String, String)> {
    pairs.iter().map(|(k, v)| (k.to_string(), v.to_string())).collect()
}

#[test]
fn size_is_byte_length_and_time_is_kept() {
    let r = normalize_response(200, headers(&[]), "hello".to_string(), 42);
    assert_eq!(r.status_code, 200);
    assert_eq!(r.size, 5);
    assert_eq!(r.time, 42);
    // Multi-byte characters count in bytes, not characters.
    let r2 = normalize_response(200, headers(&[]), "h\u{e9}".to_string(), 0);
    assert_eq!(r2.size, 3);
}

#[test]
fn content_type_defaults_to_text_plain() {
    let r = normalize_response(204, headers(&[]), String::new(), 1);
    assert_eq!(r.content_type, "text/plain");
    assert_eq!(r.size, 0);
}

#[test]
fn content_type_comes_from_header() {
    let r = normalize_response(
        200,
        headers(&[("content-type", "application/json; charset=utf-8")]),
        "{}".to_string(),
        1,
    );
    assert_eq!(r.content_type, "application/json; charset=utf-8");
}

#[test]
fn repeated_header_keeps_last_value() {
    let r = normalize_response(
        200,
        headers(&[("x-a", "1"), ("x-a", "2")]),
        String::new(),
        1,
    );
    assert_eq!(r.headers.get("x-a"), Some("2".to_string()));
    assert_eq!(r.headers.len(), 1);
}

#[test]
fn json_body_is_parsed_when_content_type_says_json() {
    let text = "{\"a\": 1, \"b\": [true, null]}";
    let r = normalize_response(
        200,
        headers(&[("content-type", "application/json")]),
        text.to_string(),
        1,
    );
    match r.body {
        BodyValue::Json(v) => {
            let expected: serde_json::Value = serde_json::from_str(text).unwrap();
            assert_eq!(v, expected);
        }
        BodyValue::Text(_) => panic!("expected structured body"),
    }
}

#[test]
fn invalid_json_falls_back_to_raw_text() {
    let r = classify_body("application/json", "not json".to_string());
    match r {
        BodyValue::Text(t) => assert_eq!(t, "not json"),
        BodyValue::Json(_) => panic!("expected raw text"),
    }
}

#[test]
fn non_json_content_type_keeps_raw_text() {
    let r = classify_body("text/html", "{\"a\": 1}".to_string());
    match r {
        BodyValue::Text(t) => assert_eq!(t, "{\"a\": 1}"),
        BodyValue::Json(_) => panic!("expected raw text"),
    }
}

#[test]
fn set_cookie_header_is_parsed_into_mapping() {
    let r = normalize_response(
        200,
        headers(&[("set-cookie", "a=1, b=2; Path=/")]),
        String::new(),
        1,
    );
    assert_eq!(r.cookies.len(), 2);
    assert_eq!(r.cookies.get("a"), Some("1".to_string()));
    assert_eq!(r.cookies.get("b"), Some("2".to_string()));
}

#[test]
fn missing_set_cookie_gives_empty_mapping() {
    let r = normalize_response(200, headers(&[]), String::new(), 1);
    assert_eq!(r.cookies.len(), 0);
}

#[test]
fn cookie_segments_are_trimmed_and_attributes_dropped() {
    let m = parse_set_cookie(" a = 1 ; HttpOnly, b=2; Path=/; Secure");
    assert_eq!(m.get("a"), Some("1".to_string()));
    assert_eq!(m.get("b"), Some("2".to_string()));
    assert_eq!(m.len(), 2);
}

#[test]
fn cookie_segment_without_equals_is_skipped() {
    let m = parse_set_cookie("justnoise, a=1");
    assert_eq!(m.len(), 1);
    assert_eq!(m.get("a"), Some("1".to_string()));
}

#[test]
fn later_cookie_overwrites_earlier_same_name() {
    let m = parse_set_cookie("a=1, a=2");
    assert_eq!(m.len(), 1);
    assert_eq!(m.get("a"), Some("2".to_string()));
}

#[test]
fn value_keeps_text_after_first_equals() {
    let m = parse_set_cookie("a=b=c");
    assert_eq!(m.get("a"), Some("b=c".to_string()));
}
