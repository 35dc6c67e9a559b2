use astrea::error::RouteError;
use astrea::json::JsonValue;

fn body_text(v: &JsonValue) -> String {
    match v {
        JsonValue::Null => "null".to_string(),
        JsonValue::Bool(b) => b.to_string(),
        JsonValue::Number(n) => n.to_string(),
        JsonValue::Str(s) => format!("{:?}", s),
        JsonValue::Array(items) => format!("[{}]", items.iter().map(body_text).collect::<Vec<_>>().join(",")),
        JsonValue::Object(ms) => format!(
            "{{{}}}",
            ms.iter().map(|(k, v)| format!("{:?}:{}", k, body_text(v))).collect::<Vec<_>>().join(",")
        ),
    }
}

#[test]
fn status_codes_follow_the_table() {
    assert_eq!(RouteError::bad_request("x").status_code(), 400);
    assert_eq!(RouteError::unauthorized("x").status_code(), 401);
    assert_eq!(RouteError::forbidden("x").status_code(), 403);
    assert_eq!(RouteError::not_found("x").status_code(), 404);
    assert_eq!(RouteError::MethodNotAllowed("x".to_string()).status_code(), 405);
    assert_eq!(RouteError::conflict("x").status_code(), 409);
    assert_eq!(RouteError::validation("x").status_code(), 422);
    assert_eq!(RouteError::rate_limit("x").status_code(), 429);
    assert_eq!(RouteError::custom(418, "x").status_code(), 418);
    let internal: RouteError = anyhow::Error::msg("boom").into();
    assert_eq!(internal.status_code(), 500);
}

#[test]
fn messages() {
    assert_eq!(RouteError::not_found("User not found").message(), "User not found");
    assert_eq!(RouteError::custom(503, "down").message(), "down");
    let internal: RouteError = anyhow::Error::msg("db failed").into();
    assert_eq!(internal.message(), "db failed");
}

#[test]
fn error_body_is_json_with_error_and_status() {
    let e = RouteError::not_found("User not found");
    assert_eq!(body_text(&e.error_body()), r#"{"error":"User not found","status":404}"#);
    let e = RouteError::bad_request("Missing required parameter: id");
    assert_eq!(body_text(&e.error_body()), r#"{"error":"Missing required parameter: id","status":400}"#);
}

#[test]
fn display_texts() {
    assert_eq!(RouteError::bad_request("oops").to_string(), "Bad request: oops");
    assert_eq!(RouteError::not_found("u").to_string(), "Not found: u");
    assert_eq!(RouteError::validation("v").to_string(), "Validation error: v");
    assert_eq!(RouteError::rate_limit("slow").to_string(), "Too many requests: slow");
    assert_eq!(RouteError::custom(404, "gone").to_string(), "Error 404 Not Found: gone");
    assert_eq!(RouteError::custom(599, "odd").to_string(), "Error 599 <unknown status code>: odd");
    let internal: RouteError = anyhow::Error::msg("db failed").into();
    assert_eq!(internal.to_string(), "Internal error: db failed");
}
