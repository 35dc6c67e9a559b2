use astrea::error::RouteError;
use astrea::event::Event;
use astrea::extract::{
    get_body, get_body_bytes, get_body_text, get_header, get_method, get_param, get_param_required, get_path,
    get_query, get_query_param, get_query_param_required, get_uri,
};

fn users_event() -> Event {
    let params = vec![("id".to_string(), "123".to_string())];
    Event::new("GET", "/users/123", "/users/123", Vec::new(), params, Vec::new())
}

#[test]
fn extract_test_get_param() {
    let event = users_event();
    assert_eq!(get_param(&event, "id"), Some("123"));
    assert_eq!(get_param(&event, "missing"), None);
}

#[test]
fn extract_test_get_param_required() {
    let event = users_event();
    assert_eq!(get_param_required(&event, "id").unwrap(), "123");
    assert!(get_param_required(&event, "missing").is_err());
}

#[test]
fn tests_test_get_param() {
    let event = users_event();
    assert_eq!(get_param(&event, "id"), Some("123"));
    assert_eq!(get_param(&event, "missing"), None);
}

#[test]
fn tests_test_get_param_required() {
    let event = users_event();
    assert_eq!(get_param_required(&event, "id").unwrap(), "123");
    assert!(get_param_required(&event, "missing").is_err());
}

#[test]
fn missing_param_is_bad_request_with_key() {
    let event = users_event();
    match get_param_required(&event, "slug") {
        Err(RouteError::BadRequest(m)) => assert_eq!(m, "Missing required parameter: slug"),
        other => panic!("unexpected: {:?}", other),
    }
}

#[test]
fn later_param_replaces_earlier() {
    let params = vec![("id".to_string(), "1".to_string()), ("id".to_string(), "2".to_string())];
    let event = Event::new("GET", "/x", "/x", Vec::new(), params, Vec::new());
    assert_eq!(get_param(&event, "id"), Some("2"));
}

#[test]
fn query_params() {
    let query = vec![("page".to_string(), "2".to_string()), ("q".to_string(), "rust".to_string())];
    let event = Event::new("GET", "/search", "/search?page=2&q=rust", Vec::new(), Vec::new(), query);
    assert_eq!(get_query_param(&event, "page"), Some("2".to_string()));
    assert_eq!(get_query_param(&event, "none"), None);
    assert_eq!(get_query_param_required(&event, "q").unwrap(), "rust");
    match get_query_param_required(&event, "limit") {
        Err(RouteError::BadRequest(m)) => assert_eq!(m, "Missing required query parameter: limit"),
        other => panic!("unexpected: {:?}", other),
    }
    assert_eq!(get_query(&event).len(), 2);
}

#[test]
fn request_line_accessors() {
    let event = Event::new("POST", "/users", "/users?x=1", Vec::new(), Vec::new(), Vec::new());
    assert_eq!(get_method(&event), "POST");
    assert_eq!(get_path(&event), "/users");
    assert_eq!(get_uri(&event), "/users?x=1");
}

#[test]
fn headers_are_looked_up_case_insensitively() {
    let headers = vec![
        ("content-type".to_string(), Some("application/json".to_string())),
        ("x-token".to_string(), None),
        ("x-multi".to_string(), Some("first".to_string())),
        ("x-multi".to_string(), Some("second".to_string())),
    ];
    let event = Event::new("GET", "/", "/", headers, Vec::new(), Vec::new());
    assert_eq!(get_header(&event, "Content-Type"), Some("application/json"));
    assert_eq!(get_header(&event, "content-type"), Some("application/json"));
    assert_eq!(get_header(&event, "x-token"), None);
    assert_eq!(get_header(&event, "x-multi"), Some("first"));
    assert_eq!(get_header(&event, "absent"), None);
    assert_eq!(get_header(&event, "bad header"), None);
}

#[test]
fn body_text_and_bytes() {
    let event = users_event();
    assert_eq!(get_body_text(&event, "héllo".as_bytes()).unwrap(), "héllo");
    assert_eq!(get_body_bytes(&event, &[1, 2, 3]).unwrap(), &[1u8, 2, 3][..]);
    match get_body_text(&event, &[0xff, 0xfe]) {
        Err(RouteError::BadRequest(m)) => assert!(m.starts_with("Invalid UTF-8: ")),
        other => panic!("unexpected: {:?}", other),
    }
}

#[test]
fn body_json_result() {
    let event = users_event();
    assert_eq!(get_body::<u32>(&event, Ok(7)).unwrap(), 7);
    match get_body::<u32>(&event, Err("expected value at line 1 column 1".to_string())) {
        Err(RouteError::BadRequest(m)) => assert_eq!(m, "Invalid JSON: expected value at line 1 column 1"),
        other => panic!("unexpected: {:?}", other),
    }
    match event.parse_form::<u32>(Err("missing field `name`".to_string())) {
        Err(RouteError::BadRequest(m)) => assert_eq!(m, "Invalid form data: missing field `name`"),
        other => panic!("unexpected: {:?}", other),
    }
}

#[test]
fn query_parsed_from_uri_when_not_given() {
    let event = Event::new("GET", "/search", "/search?q=rust&page=1&q=verus", Vec::new(), Vec::new(), Vec::new());
    assert_eq!(get_query_param(&event, "q"), Some("verus".to_string()));
    assert_eq!(get_query_param(&event, "page"), Some("1".to_string()));
    assert_eq!(get_query(&event).len(), 2);
    let event = Event::new("GET", "/search", "/search?x=a%20b+c", Vec::new(), Vec::new(), Vec::new());
    assert_eq!(get_query_param(&event, "x"), Some("a b c".to_string()));
    let event = Event::new("GET", "/search", "/search", Vec::new(), Vec::new(), Vec::new());
    assert!(get_query(&event).is_empty());
}

#[test]
fn repeated_keys_keep_the_last_value_once() {
    let params = vec![
        ("a".to_string(), "1".to_string()),
        ("b".to_string(), "x".to_string()),
        ("a".to_string(), "2".to_string()),
    ];
    let event = Event::new("GET", "/", "/", Vec::new(), params.clone(), params);
    assert_eq!(event.params().len(), 2);
    assert_eq!(get_param(&event, "a"), Some("2"));
    assert_eq!(get_query(&event).len(), 2);
    assert_eq!(get_query_param(&event, "a"), Some("2".to_string()));
}
