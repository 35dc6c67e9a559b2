use astrea::analysis::{HandlerVisitor, ParamInfo};
use astrea::ast::{ExprModel, PathModel, TypeModel};
use astrea::doc::parse_doc_annotations;
use astrea::meta::{analyze_handler, MetaTokenBuilder};
use astrea::middleware::MiddlewareMode;
use astrea::openapi::ParamLocation;
use astrea::route::{find_event_param, find_second_param, parse_route_kind, route_kind_for, FnArgModel, RouteKind};

fn lines(v: &[&str]) -> Vec<String> {
    v.iter().map(|s| s.to_string()).collect()
}

#[test]
fn route_kinds() {
    assert_eq!(parse_route_kind(""), Ok(RouteKind::Http));
    assert_eq!(parse_route_kind("  "), Ok(RouteKind::Http));
    assert_eq!(parse_route_kind("ws"), Ok(RouteKind::Ws));
    assert_eq!(parse_route_kind(" sse "), Ok(RouteKind::Sse));
    assert_eq!(
        parse_route_kind("grpc"),
        Err("unknown #[route] argument: `grpc`. Expected `ws`, `sse`, or empty. / 未知的 #[route] 参数: `grpc`。期望 `ws`、`sse` 或为空。".to_string())
    );
    assert_eq!(
        route_kind_for(false, "ws"),
        Err("#[route] 函数必须是 async fn / #[route] function must be async fn".to_string())
    );
    assert_eq!(route_kind_for(true, "ws"), Ok(RouteKind::Ws));
}

#[test]
fn handler_parameters() {
    let args = vec![FnArgModel::Typed(Some("event".to_string())), FnArgModel::Typed(Some("socket".to_string()))];
    assert_eq!(find_event_param(&args), "event");
    assert_eq!(find_second_param(&args), "socket");
    let args = vec![FnArgModel::Typed(Some("ev".to_string()))];
    assert_eq!(find_event_param(&args), "event");
    assert_eq!(find_second_param(&args), "_conn");
    let args = vec![FnArgModel::Receiver, FnArgModel::Typed(None), FnArgModel::Typed(Some("tx".to_string()))];
    assert_eq!(find_second_param(&args), "tx");
    let args = vec![FnArgModel::Typed(Some("a".to_string())), FnArgModel::Typed(None), FnArgModel::Typed(Some("c".to_string()))];
    assert_eq!(find_second_param(&args), "_conn");
}

#[test]
fn middleware_mode_defaults_to_extend() {
    assert_eq!(MiddlewareMode::default(), MiddlewareMode::Extend);
    assert_ne!(MiddlewareMode::Override, MiddlewareMode::Extend);
}

#[test]
fn doc_annotations_explicit() {
    let d = parse_doc_annotations(&lines(&[
        " @tag Users",
        " @tag Admin",
        " @summary  List users ",
        " @description First line",
        " @description Second line",
        " @security bearer",
        " @deprecated",
        " @response 404 Not found",
        " @response 500",
        " @unknown thing",
        " Plain text is ignored for summary here",
    ]));
    assert_eq!(d.tags, vec!["Users".to_string(), "Admin".to_string()]);
    assert_eq!(d.summary.as_deref(), Some("List users"));
    assert_eq!(d.description.as_deref(), Some("First line\nSecond line"));
    assert_eq!(d.security, vec!["bearer".to_string()]);
    assert!(d.deprecated);
    assert_eq!(d.responses, vec![("404".to_string(), "Not found".to_string()), ("500".to_string(), String::new())]);
}

#[test]
fn doc_annotations_from_plain_lines() {
    let d = parse_doc_annotations(&lines(&[" Get a user", "", " Looks the user up", " by id."]));
    assert_eq!(d.summary.as_deref(), Some("Get a user"));
    assert_eq!(d.description.as_deref(), Some("Looks the user up\nby id."));
    assert!(d.tags.is_empty() && !d.deprecated);
    let d = parse_doc_annotations(&[]);
    assert_eq!(d.summary, None);
    assert_eq!(d.description, None);
}

#[test]
fn builder_builds_handler_meta() {
    let params = vec![
        ParamInfo { name: "id".to_string(), is_path: true, required: true, schema_type: "integer".to_string(), schema_format: Some("int64".to_string()) },
        ParamInfo { name: "q".to_string(), is_path: false, required: false, schema_type: "string".to_string(), schema_format: None },
    ];
    let meta = MetaTokenBuilder::new()
        .summary(Some("S".to_string()))
        .params(params)
        .request_body(Some("CreateUser".to_string()))
        .response_content_type("application/json")
        .deprecated(true)
        .build();
    assert_eq!(meta.summary.as_deref(), Some("S"));
    assert_eq!(meta.parameters.len(), 2);
    assert_eq!(meta.parameters[0].location, ParamLocation::Path);
    assert_eq!(meta.parameters[0].schema_format.as_deref(), Some("int64"));
    assert_eq!(meta.parameters[1].location, ParamLocation::Query);
    let body = meta.request_body.as_ref().unwrap();
    assert_eq!(body.content_type, "application/json");
    assert_eq!(body.schema_type_name, "CreateUser");
    assert!(meta.deprecated);
    assert_eq!(meta.response_content_type, "application/json");
}

fn call(name: &str, args: Vec<ExprModel>) -> ExprModel {
    ExprModel::Call { func: Some(PathModel { last_ident: Some(name.to_string()), first_type_arg: None }), args }
}

#[test]
fn analyze_handler_combines_docs_and_body() {
    let mut v = HandlerVisitor::new();
    // get_param_required(&event, "id")
    let args = vec![ExprModel::Reference(Box::new(ExprModel::Other)), ExprModel::StrLit("id".to_string())];
    v.visit_expr_call(&Some(PathModel { last_ident: Some("get_param_required".to_string()), first_type_arg: None }), &args);
    // get_query_param(&event, "page")
    let args = vec![ExprModel::Other, ExprModel::StrLit("page".to_string())];
    v.visit_expr_call(&Some(PathModel { last_ident: Some("get_query_param".to_string()), first_type_arg: None }), &args);
    // get_body::<NewUser>(...)
    v.visit_expr_call(
        &Some(PathModel { last_ident: Some("get_body".to_string()), first_type_arg: Some(TypeModel::Path(Some("NewUser".to_string()))) }),
        &vec![],
    );
    // text(...)
    v.visit_expr_call(&Some(PathModel { last_ident: Some("text".to_string()), first_type_arg: None }), &vec![]);
    // get_param_required(&event, "id")?.parse::<u32>()
    let receiver = ExprModel::Try(Box::new(call(
        "get_param_required",
        vec![ExprModel::Other, ExprModel::StrLit("id".to_string())],
    )));
    v.visit_expr_method_call("parse", &Some(TypeModel::Path(Some("u32".to_string()))), &receiver);
    // let body: Payload = get_body(&event, &bytes)?;
    let init = ExprModel::Try(Box::new(call("get_body", vec![])));
    v.visit_local(&Some(init), &Some(TypeModel::Path(Some("Payload".to_string()))));
    let meta = analyze_handler(&lines(&[" Create a user", " @tag Users"]), v);
    assert_eq!(meta.summary.as_deref(), Some("Create a user"));
    assert_eq!(meta.tags, vec!["Users".to_string()]);
    assert_eq!(meta.parameters.len(), 2);
    assert_eq!(meta.parameters[0].name, "id");
    assert_eq!(meta.parameters[0].location, ParamLocation::Path);
    assert!(meta.parameters[0].required);
    assert_eq!(meta.parameters[0].schema_type, "integer");
    assert_eq!(meta.parameters[0].schema_format.as_deref(), Some("uint32"));
    assert_eq!(meta.parameters[1].name, "page");
    assert_eq!(meta.parameters[1].location, ParamLocation::Query);
    assert!(!meta.parameters[1].required);
    assert_eq!(meta.request_body.as_ref().unwrap().schema_type_name, "Payload");
    assert_eq!(meta.response_content_type, "text/plain");
}
