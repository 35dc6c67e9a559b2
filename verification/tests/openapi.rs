use astrea::json::JsonValue;
use astrea::openapi::{extract_path_param_names, get_entries, register, HandlerMeta, ParamLocation, ParamMeta, RequestBodyMeta, RouteEntry};
use astrea::openapi_doc::generate_spec;

fn get<'a>(v: &'a JsonValue, key: &str) -> Option<&'a JsonValue> {
    match v {
        JsonValue::Object(ms) => ms.iter().find(|(k, _)| k == key).map(|(_, v)| v),
        _ => None,
    }
}

fn at<'a>(v: &'a JsonValue, path: &[&str]) -> &'a JsonValue {
    let mut cur = v;
    for k in path {
        cur = get(cur, k).unwrap_or_else(|| panic!("missing key {}", k));
    }
    cur
}

fn s(v: &JsonValue) -> &str {
    match v {
        JsonValue::Str(s) => s.as_str(),
        other => panic!("not a string: {:?}", other),
    }
}

#[test]
fn path_param_names() {
    assert_eq!(extract_path_param_names("/users/{id}/files/{*rest}"), vec!["id".to_string(), "rest".to_string()]);
    assert!(extract_path_param_names("/static/index").is_empty());
    assert_eq!(extract_path_param_names("/a/{x}/b{y}"), vec!["x".to_string()]);
}

#[test]
fn register_completes_path_params() {
    let mut registry: Vec<RouteEntry> = Vec::new();
    let mut meta = HandlerMeta::new();
    meta.parameters.push(ParamMeta {
        name: "id".to_string(),
        location: ParamLocation::Path,
        required: false,
        schema_type: "integer".to_string(),
        schema_format: None,
    });
    meta.parameters.push(ParamMeta {
        name: "page".to_string(),
        location: ParamLocation::Query,
        required: false,
        schema_type: "string".to_string(),
        schema_format: None,
    });
    register(&mut registry, "get", "/users/{id}/posts/{post}", "users_id_posts_post_get", meta);
    assert_eq!(registry.len(), 1);
    let e = &get_entries(&registry)[0];
    assert_eq!(e.method, "GET");
    assert_eq!(e.path, "/users/{id}/posts/{post}");
    let ps = &e.handler_meta.parameters;
    assert_eq!(ps.len(), 3);
    assert_eq!((ps[0].name.as_str(), ps[0].required, ps[0].schema_type.as_str()), ("id", true, "integer"));
    assert_eq!((ps[1].name.as_str(), ps[1].required), ("page", false));
    assert_eq!((ps[2].name.as_str(), ps[2].location, ps[2].required, ps[2].schema_type.as_str()), ("post", ParamLocation::Path, true, "string"));
}

#[test]
fn spec_document() {
    let mut registry: Vec<RouteEntry> = Vec::new();
    let mut meta = HandlerMeta::new();
    meta.summary = Some("List users".to_string());
    meta.tags = vec!["Users".to_string()];
    meta.security = vec!["bearer".to_string()];
    meta.response_content_type = "application/json".to_string();
    meta.response_schema_fields = vec!["users".to_string()];
    meta.responses = vec![("404".to_string(), "Not found".to_string())];
    register(&mut registry, "GET", "/users", "users_get", meta);
    let mut meta = HandlerMeta::new();
    meta.request_body = Some(RequestBodyMeta { content_type: "application/json".to_string(), schema_type_name: "NewUser".to_string() });
    register(&mut registry, "POST", "/users", "users_post", meta);

    let doc = generate_spec(&registry, "My API", "1.0.0");
    assert_eq!(s(at(&doc, &["openapi"])), "3.0.3");
    assert_eq!(s(at(&doc, &["info", "title"])), "My API");
    assert_eq!(s(at(&doc, &["info", "version"])), "1.0.0");
    assert_eq!(s(at(&doc, &["paths", "/users", "get", "operationId"])), "users_get");
    assert_eq!(s(at(&doc, &["paths", "/users", "get", "summary"])), "List users");
    assert_eq!(s(at(&doc, &["paths", "/users", "get", "responses", "200", "description"])), "Successful response");
    assert_eq!(s(at(&doc, &["paths", "/users", "get", "responses", "404", "description"])), "Not found");
    assert!(get(at(&doc, &["paths", "/users", "get", "responses", "200", "content", "application/json", "schema", "properties"]), "users").is_some());
    assert_eq!(s(at(&doc, &["paths", "/users", "post", "responses", "204", "description"])), "No Content");
    assert_eq!(
        s(at(&doc, &["paths", "/users", "post", "requestBody", "content", "application/json", "schema", "$ref"])),
        "#/components/schemas/NewUser"
    );
    assert_eq!(s(at(&doc, &["components", "securitySchemes", "bearerAuth", "scheme"])), "bearer");
    assert_eq!(s(at(&doc, &["components", "schemas", "NewUser", "type"])), "object");
}
