use astrea::codegen::{
    axum_path_to_openapi, generate_scope_code, middleware_chain_display, scope_mode_display, RouterExpr,
};
use astrea::scanner::{
    collect_middleware_detail_logs, collect_route_detail_logs, dir_name_to_path_part, scan_and_build_scope, DirEntry,
    DirListing, EntryKind, MiddlewareScope,
};

const SRC: &str = "#[route]\npub async fn handler(event: Event) {}";

fn file(dir: &str, name: &str) -> DirEntry {
    DirEntry { name: name.to_string(), path: format!("{}/{}", dir, name), kind: EntryKind::File(Some(SRC.to_string())) }
}

fn dir(parent: &str, name: &str, mw: bool, entries: Vec<DirEntry>) -> DirEntry {
    let path = format!("{}/{}", parent, name);
    let middleware_path = if mw { Some(format!("{}/_middleware.rs", path)) } else { None };
    DirEntry { name: name.to_string(), path, kind: EntryKind::Directory(DirListing { middleware_path, entries: Some(entries) }) }
}

/// The README's layout: root and `api` extend, `api/public` overrides;
/// `docs` has no middleware of its own.
fn readme_tree() -> MiddlewareScope {
    let root = "/app/src/routes";
    let public = dir(&format!("{}/api", root), "public", true, vec![
        DirEntry { name: "_middleware.rs".to_string(), path: format!("{}/api/public/_middleware.rs", root), kind: EntryKind::File(Some(String::new())) },
        file(&format!("{}/api/public", root), "health.get.rs"),
    ]);
    let api = dir(root, "api", true, vec![file(&format!("{}/api", root), "users.get.rs"), public]);
    let docs = dir(root, "docs", false, vec![file(&format!("{}/docs", root), "readme.get.rs")]);
    let listing = DirListing {
        middleware_path: Some(format!("{}/_middleware.rs", root)),
        entries: Some(vec![
            file(root, "index.get.rs"),
            api,
            docs,
            DirEntry { name: ".hidden.get.rs".to_string(), path: format!("{}/.hidden.get.rs", root), kind: EntryKind::File(Some(SRC.to_string())) },
            DirEntry { name: "notes.txt".to_string(), path: format!("{}/notes.txt", root), kind: EntryKind::File(None) },
        ]),
    };
    scan_and_build_scope(&listing, &[], "/app")
}

#[test]
fn scan_builds_scope_tree() {
    let scope = readme_tree();
    let mw = scope.middleware.as_ref().unwrap();
    assert_eq!(mw.module_name, "mw");
    assert_eq!(mw.scope_path, "/");
    assert_eq!(mw.rel_path, "/src/routes/_middleware.rs");
    let paths: Vec<&str> = scope.routes.iter().map(|r| r.axum_path.as_str()).collect();
    // longer paths first; the routes of `docs` (no middleware) are absorbed
    assert_eq!(paths, vec!["/docs/readme", "/"]);
    assert_eq!(scope.children.len(), 1);
    let api = &scope.children[0];
    assert_eq!(api.middleware.as_ref().unwrap().module_name, "mw_api");
    assert_eq!(api.routes[0].axum_path, "/api/users");
    let public = &api.children[0];
    assert_eq!(public.middleware.as_ref().unwrap().scope_path, "/api/public");
    assert_eq!(public.routes[0].axum_path, "/api/public/health");
    assert_eq!(public.routes[0].module_name, "api_public_health_get");
}

#[test]
fn route_logs_carry_middleware_chains() {
    let scope = readme_tree();
    let logs = collect_route_detail_logs(&scope, &[]);
    let lines: Vec<(String, String, Vec<String>)> =
        logs.iter().map(|l| (l.method.clone(), l.path.clone(), l.middleware_chain.clone())).collect();
    assert_eq!(lines.len(), 4);
    assert!(lines.contains(&("GET".to_string(), "/api/users".to_string(), vec!["/".to_string(), "/api".to_string()])));
    assert!(lines.contains(&(
        "GET".to_string(),
        "/api/public/health".to_string(),
        vec!["/".to_string(), "/api".to_string(), "/api/public".to_string()]
    )));
    let mws = collect_middleware_detail_logs(&scope, None);
    let scopes: Vec<(String, Option<String>)> = mws.iter().map(|m| (m.scope_path.clone(), m.parent_path.clone())).collect();
    assert_eq!(scopes, vec![
        ("/".to_string(), None),
        ("/api".to_string(), Some("/".to_string())),
        ("/api/public".to_string(), Some("/api".to_string())),
    ]);
}

#[test]
fn dir_names_map_to_themselves() {
    assert_eq!(dir_name_to_path_part("[id]"), "[id]");
    assert_eq!(dir_name_to_path_part("[...rest]"), "[...rest]");
    assert_eq!(dir_name_to_path_part("users"), "users");
}

#[test]
fn plan_for_readme_tree() {
    let scope = readme_tree();
    let code = generate_scope_code(&scope, "/app", true);
    let mods: Vec<(&str, &str)> = code.mod_decls.iter().map(|m| (m.module_name.as_str(), m.include_path.as_str())).collect();
    assert_eq!(mods, vec![
        ("docs_readme_get", "/src/routes/docs/readme.get.rs"),
        ("index_get", "/src/routes/index.get.rs"),
        ("mw", "/src/routes/_middleware.rs"),
        ("api_users_get", "/src/routes/api/users.get.rs"),
        ("mw_api", "/src/routes/api/_middleware.rs"),
        ("api_public_health_get", "/src/routes/api/public/health.get.rs"),
        ("mw_api_public", "/src/routes/api/public/_middleware.rs"),
    ]);
    let regs: Vec<(&str, &str)> = code.openapi_regs.iter().map(|r| (r.method.as_str(), r.path.as_str())).collect();
    assert_eq!(regs, vec![("GET", "/docs/readme"), ("GET", "/"), ("GET", "/api/users"), ("GET", "/api/public/health")]);
    match &code.router {
        RouterExpr::WrappedWithChildren(regs, children, mw) => {
            assert_eq!(mw, "mw");
            assert_eq!(regs[0].method_fn, "get");
            assert_eq!(children.len(), 1);
            assert_eq!(children[0].middleware_module, "mw_api");
            match &children[0].router {
                RouterExpr::WrappedWithChildren(_, grandchildren, m) => {
                    assert_eq!(m, "mw_api");
                    assert_eq!(grandchildren[0].middleware_module, "mw_api_public");
                    assert!(matches!(grandchildren[0].router, RouterExpr::Wrapped(_, _)));
                },
                _ => panic!("api scope should wrap and have a child"),
            }
        },
        _ => panic!("root scope should wrap and have a child"),
    }
}

#[test]
fn plan_without_openapi_has_no_registrations() {
    let scope = readme_tree();
    let code = generate_scope_code(&scope, "/app", false);
    assert!(code.openapi_regs.is_empty());
    assert_eq!(code.mod_decls.len(), 7);
}

#[test]
fn flat_plan_without_middleware() {
    let listing = DirListing { middleware_path: None, entries: Some(vec![file("/r", "index.get.rs")]) };
    let scope = scan_and_build_scope(&listing, &[], "/elsewhere");
    let code = generate_scope_code(&scope, "/elsewhere", true);
    assert!(matches!(code.router, RouterExpr::Flat(_)));
    assert_eq!(code.mod_decls[0].include_path, "/r/index.get.rs");
}

#[test]
fn openapi_paths_and_table_texts() {
    assert_eq!(axum_path_to_openapi("/files/{*path}"), "/files/{path}");
    assert_eq!(axum_path_to_openapi("/users/{id}"), "/users/{id}");
    assert_eq!(axum_path_to_openapi("/a/{*x}/{*y}"), "/a/{x}/{y}");
    assert_eq!(middleware_chain_display(&[]), "(none)");
    assert_eq!(middleware_chain_display(&["/".to_string(), "/api".to_string()]), "/ → /api");
    assert_eq!(scope_mode_display("", false), ("─".to_string(), "(root)".to_string()));
    assert_eq!(scope_mode_display("/api", true), ("override".to_string(), "⚡ standalone".to_string()));
    assert_eq!(scope_mode_display("/api", false), ("extend".to_string(), "← /api".to_string()));
}

#[test]
fn scan_order_is_by_name_and_stable() {
    let root = "/r";
    let listing = DirListing {
        middleware_path: None,
        entries: Some(vec![
            file(root, "users.post.rs"),
            dir(root, "zeta", true, vec![file("/r/zeta", "index.get.rs")]),
            file(root, "users.get.rs"),
            dir(root, "alpha", true, vec![file("/r/alpha", "index.get.rs")]),
        ]),
    };
    let scope = scan_and_build_scope(&listing, &[], "/r");
    let routes: Vec<(&str, &str)> = scope.routes.iter().map(|r| (r.method.as_str(), r.axum_path.as_str())).collect();
    assert_eq!(routes, vec![("GET", "/users"), ("POST", "/users")]);
    let children: Vec<&str> = scope.children.iter().map(|c| c.middleware.as_ref().unwrap().scope_path.as_str()).collect();
    assert_eq!(children, vec!["/alpha", "/zeta"]);
}
