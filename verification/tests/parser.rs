use astrea::parser::{detect_route_type, parse_route_file};
use astrea::utils::{sanitize_ident, sanitize_ident_part};

#[test]
fn detect_ws_annotation() {
    assert_eq!(detect_route_type(Some("#[route(ws)]\nasync fn handler() {}")), "WS");
}

#[test]
fn detect_sse_annotation() {
    assert_eq!(detect_route_type(Some("#[route(sse)]\nasync fn handler() {}")), "SSE");
}

#[test]
fn detect_any_for_plain_route() {
    assert_eq!(detect_route_type(Some("#[route]\nasync fn handler() {}")), "ANY");
}

#[test]
fn detect_any_for_empty_parens() {
    // arg after stripping is empty: not ws/sse, so ANY
    assert_eq!(detect_route_type(Some("#[route()]\nasync fn handler() {}")), "ANY");
}

#[test]
fn detect_any_for_missing_file() {
    // a file that cannot be read has no content
    assert_eq!(detect_route_type(None), "ANY");
}

#[test]
fn detect_any_for_no_annotation() {
    assert_eq!(detect_route_type(Some("async fn handler() {}")), "ANY");
}

#[test]
fn detect_with_spaces_and_crlf() {
    assert_eq!(detect_route_type(Some("use x;\r\n  #[route( ws )]  \r\nasync fn h() {}")), "WS");
    assert_eq!(detect_route_type(Some("#[route(wss)]\n#[route(sse)]")), "SSE");
}

const SRC: &str = "#[route]\nasync fn h() {}";

#[test]
fn parse_index_get() {
    let route = parse_route_file("/tmp/x/index.get.rs", "index.get.rs", &[], Some(SRC)).unwrap();
    assert_eq!(route.method, "GET");
    assert_eq!(route.axum_path, "/");
}

#[test]
fn parse_users_post() {
    let route = parse_route_file("/tmp/x/users.post.rs", "users.post.rs", &[], Some(SRC)).unwrap();
    assert_eq!(route.method, "POST");
    assert_eq!(route.axum_path, "/users");
}

#[test]
fn parse_nested_route_path() {
    let path_parts = vec!["api".to_string()];
    let route = parse_route_file("/tmp/x/api/items.get.rs", "items.get.rs", &path_parts, Some(SRC)).unwrap();
    assert_eq!(route.method, "GET");
    assert_eq!(route.axum_path, "/api/items");
}

#[test]
fn parse_method_less_with_ws_annotation() {
    let route = parse_route_file("/tmp/x/chat.rs", "chat.rs", &[], Some("#[route(ws)]\nasync fn h() {}")).unwrap();
    assert_eq!(route.method, "WS");
    assert_eq!(route.axum_path, "/chat");
}

#[test]
fn parse_method_less_with_sse_annotation() {
    let route = parse_route_file("/tmp/x/events.rs", "events.rs", &[], Some("#[route(sse)]\nasync fn h() {}")).unwrap();
    assert_eq!(route.method, "SSE");
    assert_eq!(route.axum_path, "/events");
}

#[test]
fn parse_method_less_defaults_to_any() {
    let route = parse_route_file("/tmp/x/users.rs", "users.rs", &[], Some(SRC)).unwrap();
    assert_eq!(route.method, "ANY");
}

#[test]
fn parse_dynamic_path_param() {
    let path_parts = vec!["users".to_string(), "[id]".to_string()];
    let route = parse_route_file("/tmp/x/users/[id]/index.get.rs", "index.get.rs", &path_parts, Some(SRC)).unwrap();
    assert_eq!(route.axum_path, "/users/{id}");
}

#[test]
fn parse_catch_all_path_param() {
    let path_parts = vec!["files".to_string(), "[...path]".to_string()];
    let route = parse_route_file("/tmp/x/files/[...path]/index.get.rs", "index.get.rs", &path_parts, Some(SRC)).unwrap();
    assert_eq!(route.axum_path, "/files/{*path}");
}

#[test]
fn parse_non_rs_file_returns_none() {
    assert!(parse_route_file("/tmp/not_a_rust_file.txt", "not_a_rust_file.txt", &[], None).is_none());
}

#[test]
fn parse_readme_naming_table() {
    let users = vec!["users".to_string()];
    let r = parse_route_file("p", "[id].get.rs", &users, Some(SRC)).unwrap();
    assert_eq!((r.method.as_str(), r.axum_path.as_str()), ("GET", "/users/{id}"));
    let r = parse_route_file("p", "[id].delete.rs", &users, Some(SRC)).unwrap();
    assert_eq!((r.method.as_str(), r.axum_path.as_str()), ("DELETE", "/users/{id}"));
    let posts = vec!["posts".to_string()];
    let r = parse_route_file("p", "[...slug].get.rs", &posts, Some(SRC)).unwrap();
    assert_eq!((r.method.as_str(), r.axum_path.as_str()), ("GET", "/posts/{*slug}"));
    let r = parse_route_file("p", "users.get.rs", &[], Some(SRC)).unwrap();
    assert_eq!((r.method.as_str(), r.axum_path.as_str()), ("GET", "/users"));
    let r = parse_route_file("p", "index.post.rs", &users, Some(SRC)).unwrap();
    assert_eq!((r.method.as_str(), r.axum_path.as_str()), ("POST", "/users"));
}

#[test]
fn parse_module_names() {
    let parts = vec!["users".to_string(), "[id]".to_string()];
    let r = parse_route_file("/a/b.rs", "index.get.rs", &parts, Some(SRC)).unwrap();
    assert_eq!(r.module_name, "users_id_index_get");
    assert_eq!(r.file_path, "/a/b.rs");
    let r = parse_route_file("p", "_.rs", &[], Some(SRC)).unwrap();
    assert_eq!(r.module_name, "root_route");
}

#[test]
fn sanitize_examples() {
    assert_eq!(sanitize_ident_part("[...slug]"), "____slug_");
    assert_eq!(sanitize_ident_part("a-b.c"), "a_b_c");
    assert_eq!(sanitize_ident("__a__b___"), "a_b");
    assert_eq!(sanitize_ident("mw_api_[v1]"), "mw_api_v1");
    assert_eq!(sanitize_ident("___"), "");
    assert_eq!(sanitize_ident("é-ü"), "éü");
}

#[test]
fn parse_method_less_catch_all_name() {
    let r = parse_route_file("p", "[...slug].rs", &[], Some(SRC)).unwrap();
    assert_eq!((r.method.as_str(), r.axum_path.as_str()), ("ANY", "/{*slug}"));
    let r = parse_route_file("p", "[...slug].get.rs", &[], Some(SRC)).unwrap();
    assert_eq!((r.method.as_str(), r.axum_path.as_str()), ("GET", "/{*slug}"));
    let r = parse_route_file("p", "feed.rs", &[], Some("#[route(sse)]\nasync fn h() {}")).unwrap();
    assert_eq!((r.method.as_str(), r.axum_path.as_str()), ("SSE", "/feed"));
}

#[test]
fn sanitize_is_idempotent() {
    for s in ["__a__b___", "mw_api_[v1]", "[...slug]", "é-ü", "users_id_index_get", "___", "a b--c"] {
        let once = sanitize_ident(s);
        assert_eq!(sanitize_ident(&once), once);
    }
}
