use astrea::error::RouteError;
use astrea::response::{bytes, html, json, no_content, redirect, text, Response};
use astrea::sse::SseEvent;

fn header<'a>(r: &'a Response, name: &str) -> Option<&'a str> {
    r.headers.iter().find(|(n, _)| n == name).map(|(_, v)| v.as_str())
}

#[test]
fn new_response_is_empty_ok() {
    let r = Response::new();
    assert_eq!(r.status, 200);
    assert!(r.headers.is_empty());
    assert!(r.body.is_empty());
}

#[test]
fn builders_set_status_headers_body() {
    let r = text("hi");
    assert_eq!(r.status, 200);
    assert_eq!(header(&r, "content-type"), Some("text/plain; charset=utf-8"));
    assert_eq!(r.body, b"hi".to_vec());

    let r = html("<p>é</p>");
    assert_eq!(header(&r, "content-type"), Some("text/html; charset=utf-8"));
    assert_eq!(r.body, "<p>é</p>".as_bytes().to_vec());

    let r = json(Ok(br#"{"a":1}"#.to_vec())).unwrap();
    assert_eq!(r.status, 200);
    assert_eq!(header(&r, "content-type"), Some("application/json"));
    assert_eq!(r.body, br#"{"a":1}"#.to_vec());

    let r = no_content();
    assert_eq!(r.status, 204);
    assert!(r.headers.is_empty() && r.body.is_empty());

    let r = bytes(vec![1, 2, 3]);
    assert_eq!(r.status, 200);
    assert!(r.headers.is_empty());
    assert_eq!(r.body, vec![1, 2, 3]);
}

#[test]
fn json_serialization_failure_is_internal() {
    match json(Err("key must be a string".to_string())) {
        Err(e @ RouteError::Internal(_)) => {
            assert_eq!(e.status_code(), 500);
            assert_eq!(e.message(), "Failed to serialize JSON: key must be a string");
        },
        other => panic!("unexpected: {:?}", other),
    }
}

#[test]
fn redirect_valid_and_invalid() {
    let r = redirect("/login").unwrap();
    assert_eq!(r.status, 302);
    assert_eq!(header(&r, "location"), Some("/login"));
    assert!(r.body.is_empty());
    match redirect("/bad\nurl") {
        Err(RouteError::BadRequest(m)) => assert_eq!(m, "Invalid redirect URL: /bad\nurl"),
        other => panic!("unexpected: {:?}", other),
    }
}

#[test]
fn header_replaces_and_lowercases() {
    let r = Response::new().header("X-Request-Id", "1").header("x-request-id", "2");
    assert_eq!(r.headers, vec![("x-request-id".to_string(), "2".to_string())]);
    let r = r.header("bad name", "v").header("x-ok", "bad\u{7f}value");
    assert_eq!(r.headers.len(), 1);
    let r = r.status(201).content_type("text/csv");
    assert_eq!(r.status, 201);
    assert_eq!(header(&r, "content-type"), Some("text/csv"));
}

#[test]
fn server_header_added_once() {
    let r = text("x").with_default_server();
    assert_eq!(header(&r, "server"), Some("Astrea"));
    let r = Response::new().header("Server", "custom").with_default_server();
    assert_eq!(header(&r, "server"), Some("custom"));
    assert_eq!(r.headers.len(), 1);
}

#[test]
fn sse_event_builder() {
    let e = SseEvent::new().data("hello").event("update").id("42").comment("note");
    assert_eq!(e.get_data(), Some("hello"));
    assert_eq!(e.get_event(), Some("update"));
    assert_eq!(e.get_id(), Some("42"));
    assert_eq!(e.get_comment(), Some("note"));
    assert_eq!(e.get_retry(), None);
    let e = e.retry(std::time::Duration::from_secs(3)).data("again");
    assert_eq!(e.get_retry(), Some(std::time::Duration::from_secs(3)));
    assert_eq!(e.get_data(), Some("again"));
    let d = SseEvent::default();
    assert_eq!(d.get_data(), None);
}

#[test]
fn sse_json_data_and_error() {
    let e = SseEvent::new().json(Ok(r#"{"n":1}"#.to_string()));
    assert_eq!(e.get_data(), Some(r#"{"n":1}"#));
    let e = SseEvent::new().json(Err("boom".to_string()));
    assert_eq!(e.get_data(), Some(r#"{"error":"boom"}"#));
}
