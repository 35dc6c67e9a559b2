//! What the route generator emits for a scope tree, as plain data: module
//! declarations, route registrations, OpenAPI registrations and the shape of
//! the router expression. The macro front end renders this plan as Rust
//! tokens, one item for each part.
use vstd::prelude::*;
use crate::order::views;
use crate::parser::{views_of, ScannedRoute};
use crate::scanner::{include_path, include_path_spec, MiddlewareFileInfo, MiddlewareScope};
use crate::text::{chars_of, concat, join_chars, join_spec, lit, str_to_lowercase, string_from_chars, strings_to_chars, to_lowercase};

verus! {

// ---------------------------------------------------------------------------
// Paths
// ---------------------------------------------------------------------------

/// The OpenAPI form of an Axum path: every `{*` becomes `{`, so that the
/// catch-all `{*slug}` reads `{slug}`.
pub open spec fn openapi_path_spec(s: Seq<char>) -> Seq<char>
    decreases s.len(),
{
    if s.len() == 0 {
        Seq::<char>::empty()
    } else if s.len() >= 2 && s[0] == '{' && s[1] == '*' {
        seq!['{'] + openapi_path_spec(s.skip(2))
    } else {
        seq![s[0]] + openapi_path_spec(s.skip(1))
    }
}

/// A catch-all marker `{*` starts at `i`.
pub open spec fn catch_all_at(s: Seq<char>, i: int) -> bool {
    0 <= i < s.len() - 1 && s[i] == '{' && s[i + 1] == '*'
}

/// A path without a catch-all marker `{*` is already in OpenAPI form.
pub proof fn lemma_openapi_path_plain(s: Seq<char>)
    requires
        forall|i: int| !#[trigger] catch_all_at(s, i),
    ensures
        openapi_path_spec(s) == s,
    decreases s.len(),
{
    if s.len() > 0 {
        let t = s.skip(1);
        assert forall|i: int| !#[trigger] catch_all_at(t, i) by {
            if 0 <= i < t.len() - 1 {
                assert(t[i] == s[i + 1] && t[i + 1] == s[i + 2]);
                assert(!catch_all_at(s, i + 1));
            }
        }
        assert(!catch_all_at(s, 0));
        lemma_openapi_path_plain(t);
        assert(seq![s[0]] + t =~= s);
    }
}

/// A non-empty path keeps its first character in OpenAPI form.
proof fn lemma_openapi_path_first(s: Seq<char>)
    requires
        s.len() > 0,
    ensures
        openapi_path_spec(s).len() > 0,
        openapi_path_spec(s)[0] == s[0],
{
}

/// A `{**` sequence occurs at `i`: a catch-all marker whose name starts with `*`.
pub open spec fn double_star_at(s: Seq<char>, i: int) -> bool {
    0 <= i < s.len() - 2 && s[i] == '{' && s[i + 1] == '*' && s[i + 2] == '*'
}

/// The OpenAPI form of a path holds no catch-all marker `{*`, unless the
/// path itself holds `{**`.
pub proof fn law_openapi_path_no_catch_all(s: Seq<char>)
    requires
        forall|i: int| !#[trigger] double_star_at(s, i),
    ensures
        forall|i: int| !#[trigger] catch_all_at(openapi_path_spec(s), i),
    decreases s.len(),
{
    if s.len() > 0 {
        let o = openapi_path_spec(s);
        if s.len() >= 2 && s[0] == '{' && s[1] == '*' {
            let t = s.skip(2);
            assert forall|i: int| !#[trigger] double_star_at(t, i) by {
                if 0 <= i < t.len() - 2 {
                    assert(!double_star_at(s, i + 2));
                }
            }
            law_openapi_path_no_catch_all(t);
            assert(!double_star_at(s, 0));
            if t.len() > 0 {
                lemma_openapi_path_first(t);
            }
            assert forall|i: int| !#[trigger] catch_all_at(o, i) by {
                if 1 <= i {
                    assert(!catch_all_at(openapi_path_spec(t), i - 1));
                }
            }
        } else {
            let t = s.skip(1);
            assert forall|i: int| !#[trigger] double_star_at(t, i) by {
                if 0 <= i < t.len() - 2 {
                    assert(!double_star_at(s, i + 1));
                }
            }
            law_openapi_path_no_catch_all(t);
            if t.len() > 0 {
                lemma_openapi_path_first(t);
            }
            assert forall|i: int| !#[trigger] catch_all_at(o, i) by {
                if 1 <= i {
                    assert(!catch_all_at(openapi_path_spec(t), i - 1));
                }
            }
        }
    }
}

/// Each `{*` of a path becomes `{` in its OpenAPI form: the text before the
/// first marker stays as it is, the marker loses its `*`, and the rest is
/// converted in turn.
pub proof fn law_openapi_path_marker(x: Seq<char>, y: Seq<char>)
    requires
        forall|i: int| !#[trigger] catch_all_at(x, i),
        x.len() == 0 || x.last() != '{',
    ensures
        openapi_path_spec(x + seq!['{', '*'] + y) == x + seq!['{'] + openapi_path_spec(y),
    decreases x.len(),
{
    let s = x + seq!['{', '*'] + y;
    if x.len() == 0 {
        assert(s.skip(2) =~= y);
        assert(x + seq!['{'] + openapi_path_spec(y) =~= seq!['{'] + openapi_path_spec(y));
    } else {
        let x1 = x.skip(1);
        assert forall|i: int| !#[trigger] catch_all_at(x1, i) by {
            if 0 <= i < x1.len() - 1 {
                assert(!catch_all_at(x, i + 1));
            }
        }
        assert(x1.len() == 0 || x1.last() == x.last());
        law_openapi_path_marker(x1, y);
        assert(s.skip(1) =~= x1 + seq!['{', '*'] + y);
        if x.len() >= 2 {
            assert(!catch_all_at(x, 0));
        }
        assert(!(s.len() >= 2 && s[0] == '{' && s[1] == '*'));
        assert(seq![x[0]] + (x1 + seq!['{'] + openapi_path_spec(y)) =~= x + seq!['{'] + openapi_path_spec(y));
    }
}

/// Converts an Axum path to its OpenAPI form (`{*slug}` becomes `{slug}`).
pub fn axum_path_to_openapi(axum_path: &str) -> (r: String)
    ensures
        r@ == openapi_path_spec(axum_path@),
{
    let s = chars_of(axum_path);
    let ghost sv = s@;
    let mut out: Vec<char> = Vec::new();
    let mut i: usize = 0;
    assert(sv.skip(0) =~= sv);
    while i < s.len()
        invariant
            i <= s.len(),
            sv == s@,
            out@ + openapi_path_spec(sv.skip(i as int)) == openapi_path_spec(sv),
        decreases s.len() - i,
    {
        let ghost rest = sv.skip(i as int);
        if i + 1 < s.len() && s[i] == '{' && s[i + 1] == '*' {
            assert(rest.skip(2) =~= sv.skip(i + 2));
            assert(openapi_path_spec(rest) == seq!['{'] + openapi_path_spec(rest.skip(2)));
            assert(out@.push('{') + openapi_path_spec(sv.skip(i + 2)) =~= out@ + openapi_path_spec(rest));
            out.push('{');
            i = i + 2;
        } else {
            assert(rest.skip(1) =~= sv.skip(i + 1));
            assert(openapi_path_spec(rest) == seq![sv[i as int]] + openapi_path_spec(rest.skip(1)));
            assert(out@.push(sv[i as int]) + openapi_path_spec(sv.skip(i + 1)) =~= out@ + openapi_path_spec(rest));
            out.push(s[i]);
            i = i + 1;
        }
    }
    assert(sv.skip(i as int) =~= Seq::<char>::empty());
    assert(out@ + openapi_path_spec(Seq::<char>::empty()) =~= out@);
    string_from_chars(out.as_slice())
}

// ---------------------------------------------------------------------------
// Startup table texts
// ---------------------------------------------------------------------------

/// The middleware column of a route line: `(none)` for an empty chain, else
/// the scopes joined with ` → `.
pub open spec fn chain_display_spec(chain: Seq<Seq<char>>) -> Seq<char> {
    if chain.len() == 0 {
        "(none)"@
    } else {
        join_spec(chain, " → "@)
    }
}

/// Renders the middleware chain of a route for the startup table.
pub fn middleware_chain_display(chain: &[String]) -> (r: String)
    ensures
        r@ == chain_display_spec(views_of(chain@)),
{
    if chain.len() == 0 {
        lit("(none)")
    } else {
        let parts = strings_to_chars(chain);
        assert(parts@.map_values(|x: Vec<char>| x@) =~= views_of(chain@));
        let j = join_chars(&parts, &chars_of(" → "));
        string_from_chars(j.as_slice())
    }
}

/// Mode and inheritance columns of a middleware scope line. A scope without
/// parent is the root (`─`, `(root)`); an overriding scope stands alone
/// (`override`, `⚡ standalone`); any other extends its parent
/// (`extend`, `← ` and the parent's path).
pub open spec fn scope_display_spec(parent_path: Seq<char>, is_override: bool) -> (Seq<char>, Seq<char>) {
    if parent_path.len() == 0 {
        ("─"@, "(root)"@)
    } else if is_override {
        ("override"@, "⚡ standalone"@)
    } else {
        ("extend"@, "← "@ + parent_path)
    }
}

/// Renders the mode and inheritance columns of a middleware scope line;
/// `parent_path` is empty for the root scope.
pub fn scope_mode_display(parent_path: &str, is_override: bool) -> (r: (String, String))
    ensures
        (r.0@, r.1@) == scope_display_spec(parent_path@, is_override),
{
    let pv = chars_of(parent_path);
    if pv.len() == 0 {
        (lit("─"), lit("(root)"))
    } else if is_override {
        (lit("override"), lit("⚡ standalone"))
    } else {
        let j = concat(&chars_of("← "), &pv);
        (lit("extend"), string_from_chars(j.as_slice()))
    }
}

// ---------------------------------------------------------------------------
// The generation plan
// ---------------------------------------------------------------------------

/// A module to declare: its name and the path to `include!()`.
pub struct ModDecl {
    pub module_name: String,
    pub include_path: String,
}

impl View for ModDecl {
    type V = (Seq<char>, Seq<char>);

    open spec fn view(&self) -> (Seq<char>, Seq<char>) {
        (self.module_name@, self.include_path@)
    }
}

/// A route registration: `.route(axum_path, routing::method_fn(module::handler))`.
pub struct RouteReg {
    pub axum_path: String,
    /// Lower-case method, naming the `axum::routing` function.
    pub method_fn: String,
    pub module_name: String,
}

impl View for RouteReg {
    type V = (Seq<char>, Seq<char>, Seq<char>);

    open spec fn view(&self) -> (Seq<char>, Seq<char>, Seq<char>) {
        (self.axum_path@, self.method_fn@, self.module_name@)
    }
}

/// An OpenAPI registration: method, OpenAPI path, operation id, and the
/// module whose handler metadata is registered.
pub struct OpenApiReg {
    pub method: String,
    pub path: String,
    pub operation_id: String,
    pub module_name: String,
}

impl View for OpenApiReg {
    type V = (Seq<char>, Seq<char>, Seq<char>, Seq<char>);

    open spec fn view(&self) -> (Seq<char>, Seq<char>, Seq<char>, Seq<char>) {
        (self.method@, self.path@, self.operation_id@, self.module_name@)
    }
}

/// A child scope's block: its router expression (already wrapped by its own
/// middleware) and its middleware module, whose mode decides where the block's
/// extend group goes. It yields an (extend, override) pair: an overriding
/// child passes its whole router up as override group, any other hands its
/// extend group to the parent and passes its override group up.
pub struct ChildBlock {
    pub router: RouterExpr,
    pub middleware_module: String,
}

/// The router expression of a scope. Each evaluates to a pair of routers:
/// the routes to merge under the parent, and the overriding routers that
/// bubble up unwrapped.
pub enum RouterExpr {
    /// No middleware, no child scopes: the routes, and an empty override group.
    Flat(Vec<RouteReg>),
    /// No middleware, child scopes: the routes merged with each child's
    /// extend group; the children's override groups passed up.
    FlatWithChildren(Vec<RouteReg>, Vec<ChildBlock>),
    /// Middleware (by module name), no child scopes: the routes wrapped by it.
    Wrapped(Vec<RouteReg>, String),
    /// Middleware and child scopes: routes and children's extend groups
    /// wrapped by the middleware; the children's override groups passed up.
    WrappedWithChildren(Vec<RouteReg>, Vec<ChildBlock>, String),
}

/// What the generator emits for a scope tree.
pub struct ScopeCode {
    pub mod_decls: Vec<ModDecl>,
    pub router: RouterExpr,
    pub openapi_regs: Vec<OpenApiReg>,
}

pub open spec fn regs_of(e: RouterExpr) -> Seq<RouteReg> {
    match e {
        RouterExpr::Flat(r) => r@,
        RouterExpr::FlatWithChildren(r, _) => r@,
        RouterExpr::Wrapped(r, _) => r@,
        RouterExpr::WrappedWithChildren(r, _, _) => r@,
    }
}

pub open spec fn children_of(e: RouterExpr) -> Seq<ChildBlock> {
    match e {
        RouterExpr::Flat(_) => Seq::empty(),
        RouterExpr::FlatWithChildren(_, c) => c@,
        RouterExpr::Wrapped(_, _) => Seq::empty(),
        RouterExpr::WrappedWithChildren(_, c, _) => c@,
    }
}

pub open spec fn wrapper_of(e: RouterExpr) -> Option<Seq<char>> {
    match e {
        RouterExpr::Flat(_) => None,
        RouterExpr::FlatWithChildren(_, _) => None,
        RouterExpr::Wrapped(_, m) => Some(m@),
        RouterExpr::WrappedWithChildren(_, _, m) => Some(m@),
    }
}

/// Module declarations of a scope's routes, in order.
pub open spec fn route_mods(rs: Seq<ScannedRoute>, manifest_dir: Seq<char>) -> Seq<(Seq<char>, Seq<char>)> {
    rs.map_values(|r: ScannedRoute| (r.module_name@, include_path_spec(r.file_path@, manifest_dir)))
}

/// Module declaration of a scope's middleware, if any.
pub open spec fn mw_mods(m: Option<MiddlewareFileInfo>) -> Seq<(Seq<char>, Seq<char>)> {
    match m {
        Some(mw) => seq![(mw.module_name@, mw.rel_path@)],
        None => Seq::empty(),
    }
}

/// Route registrations of a scope's routes, in order.
pub open spec fn route_regs_spec(rs: Seq<ScannedRoute>) -> Seq<(Seq<char>, Seq<char>, Seq<char>)> {
    rs.map_values(|r: ScannedRoute| (r.axum_path@, str_to_lowercase(r.method@), r.module_name@))
}

/// OpenAPI registrations of a scope's routes, in order: the operation id is
/// the route's module name.
pub open spec fn route_openapi(rs: Seq<ScannedRoute>) -> Seq<(Seq<char>, Seq<char>, Seq<char>, Seq<char>)> {
    rs.map_values(|r: ScannedRoute| (r.method@, openapi_path_spec(r.axum_path@), r.module_name@, r.module_name@))
}

/// Module declarations of the first `k` scopes of `cs` and their descendants:
/// per scope its routes' modules, its middleware module, then its children's.
pub open spec fn forest_mods(cs: Seq<MiddlewareScope>, k: int, md: Seq<char>) -> Seq<(Seq<char>, Seq<char>)>
    decreases cs, k,
{
    if k <= 0 || k > cs.len() {
        Seq::empty()
    } else {
        proof {
            assert(decreases_to!(cs => cs[k - 1].children@));
        }
        forest_mods(cs, k - 1, md) + route_mods(cs[k - 1].routes@, md) + mw_mods(cs[k - 1].middleware)
            + forest_mods(cs[k - 1].children@, cs[k - 1].children@.len() as int, md)
    }
}

/// OpenAPI registrations of the first `k` scopes of `cs` and their descendants.
pub open spec fn forest_openapi(cs: Seq<MiddlewareScope>, k: int) -> Seq<(Seq<char>, Seq<char>, Seq<char>, Seq<char>)>
    decreases cs, k,
{
    if k <= 0 || k > cs.len() {
        Seq::empty()
    } else {
        proof {
            assert(decreases_to!(cs => cs[k - 1].children@));
        }
        forest_openapi(cs, k - 1) + route_openapi(cs[k - 1].routes@)
            + forest_openapi(cs[k - 1].children@, cs[k - 1].children@.len() as int)
    }
}

/// Every one of the first `k` scopes of `cs`, and every descendant, has middleware.
pub open spec fn forest_has_mw(cs: Seq<MiddlewareScope>, k: int) -> bool
    decreases cs, k,
{
    if k <= 0 || k > cs.len() {
        true
    } else {
        proof {
            assert(decreases_to!(cs => cs[k - 1].children@));
        }
        &&& forest_has_mw(cs, k - 1)
        &&& cs[k - 1].middleware.is_some()
        &&& forest_has_mw(cs[k - 1].children@, cs[k - 1].children@.len() as int)
    }
}

/// The router expression of one scope has the right case, registrations and
/// wrapper, and one block per child scope.
pub open spec fn shape_ok(e: RouterExpr, s: MiddlewareScope) -> bool {
    &&& views(regs_of(e)) == route_regs_spec(s.routes@)
    &&& children_of(e).len() == s.children@.len()
    &&& wrapper_of(e) == (match s.middleware {
        Some(m) => Some(m.module_name@),
        None => None,
    })
    &&& (s.children@.len() > 0 <==> (e is FlatWithChildren || e is WrappedWithChildren))
}

/// The child blocks of the first `k` scopes of `cs` match them, down the tree.
pub open spec fn forest_router_ok(cb: Seq<ChildBlock>, cs: Seq<MiddlewareScope>, k: int) -> bool
    decreases cs, k,
{
    if k <= 0 || k > cs.len() {
        true
    } else {
        proof {
            assert(decreases_to!(cs => cs[k - 1].children@));
        }
        &&& forest_router_ok(cb, cs, k - 1)
        &&& Some(cb[k - 1].middleware_module@) == (match cs[k - 1].middleware {
            Some(m) => Some(m.module_name@),
            None => None,
        })
        &&& shape_ok(cb[k - 1].router, cs[k - 1])
        &&& forest_router_ok(children_of(cb[k - 1].router), cs[k - 1].children@, cs[k - 1].children@.len() as int)
    }
}

/// A router expression matches a scope tree.
pub open spec fn router_ok(e: RouterExpr, s: MiddlewareScope) -> bool {
    shape_ok(e, s) && forest_router_ok(children_of(e), s.children@, s.children@.len() as int)
}

pub proof fn lemma_has_mw_prefix(cs: Seq<MiddlewareScope>, n: int, k: int)
    requires
        forest_has_mw(cs, n),
        0 <= k <= n <= cs.len(),
    ensures
        forest_has_mw(cs, k),
    decreases n,
{
    if k < n {
        lemma_has_mw_prefix(cs, n - 1, k);
    }
}

pub proof fn lemma_router_prefix(cb1: Seq<ChildBlock>, cb2: Seq<ChildBlock>, cs: Seq<MiddlewareScope>, k: int)
    requires
        0 <= k <= cs.len(),
        k <= cb1.len(),
        k <= cb2.len(),
        cb1.take(k) =~= cb2.take(k),
    ensures
        forest_router_ok(cb1, cs, k) == forest_router_ok(cb2, cs, k),
    decreases k,
{
    if k > 0 {
        assert(cb1.take(k - 1) =~= cb2.take(k - 1));
        lemma_router_prefix(cb1, cb2, cs, k - 1);
        assert(cb1[k - 1] == cb1.take(k)[k - 1]);
        assert(cb2[k - 1] == cb2.take(k)[k - 1]);
    }
}

/// A scope tree as the scanner builds it (every descendant scope has
/// middleware, with sorted routes) meets the condition of
/// `generate_scope_code`.
pub proof fn lemma_wf_has_mw(cs: Seq<MiddlewareScope>, k: int)
    requires
        crate::scanner::forest_wf(cs, k),
    ensures
        forest_has_mw(cs, k),
    decreases cs, k,
{
    if 0 < k <= cs.len() {
        assert(decreases_to!(cs => cs[k - 1].children@));
        lemma_wf_has_mw(cs, k - 1);
        lemma_wf_has_mw(cs[k - 1].children@, cs[k - 1].children@.len() as int);
    }
}

/// Chooses the router expression of a scope from whether it has middleware
/// and whether it has child scopes.
pub fn build_router_expr(scope: &MiddlewareScope, route_regs: Vec<RouteReg>, child_blocks: Vec<ChildBlock>) -> (r: RouterExpr)
    ensures
        regs_of(r) == route_regs@,
        children_of(r) == child_blocks@,
        wrapper_of(r) == (match scope.middleware {
            Some(m) => Some(m.module_name@),
            None => None,
        }),
        child_blocks@.len() > 0 <==> (r is FlatWithChildren || r is WrappedWithChildren),
{
    let has_children = child_blocks.len() > 0;
    match &scope.middleware {
        None => {
            if has_children {
                RouterExpr::FlatWithChildren(route_regs, child_blocks)
            } else {
                RouterExpr::Flat(route_regs)
            }
        },
        Some(mw) => {
            if has_children {
                RouterExpr::WrappedWithChildren(route_regs, child_blocks, mw.module_name.clone())
            } else {
                RouterExpr::Wrapped(route_regs, mw.module_name.clone())
            }
        },
    }
}

/// The OpenAPI registrations when OpenAPI support is on, else none.
pub open spec fn when_openapi(openapi: bool, regs: Seq<(Seq<char>, Seq<char>, Seq<char>, Seq<char>)>) -> Seq<(Seq<char>, Seq<char>, Seq<char>, Seq<char>)> {
    if openapi { regs } else { Seq::empty() }
}

/// Generates the plan for a scope tree: the module declarations (each
/// scope's route modules, then its middleware module, then its children's),
/// the router expression, and, when `openapi` (OpenAPI support) is on, the
/// OpenAPI registrations (each scope's routes, then its children's); without
/// it there are none. Every descendant scope must have middleware.
pub fn generate_scope_code(scope: &MiddlewareScope, manifest_dir: &str, openapi: bool) -> (r: ScopeCode)
    requires
        forest_has_mw(scope.children@, scope.children@.len() as int),
    ensures
        views(r.mod_decls@) == forest_mods(seq![*scope], 1, manifest_dir@),
        views(r.openapi_regs@) == when_openapi(openapi, forest_openapi(seq![*scope], 1)),
        router_ok(r.router, *scope),
    decreases scope,
{
    let ghost md = manifest_dir@;
    let ghost routes = scope.routes@;
    let mut mod_decls: Vec<ModDecl> = Vec::new();
    let mut openapi_regs: Vec<OpenApiReg> = Vec::new();
    let mut route_regs: Vec<RouteReg> = Vec::new();
    let mut i: usize = 0;
    while i < scope.routes.len()
        invariant
            i <= routes.len(),
            routes == scope.routes@,
            md == manifest_dir@,
            views(mod_decls@) == route_mods(routes.take(i as int), md),
            views(openapi_regs@) == when_openapi(openapi, route_openapi(routes.take(i as int))),
            views(route_regs@) == route_regs_spec(routes.take(i as int)),
        decreases routes.len() - i,
    {
        let route = &scope.routes[i];
        let ghost m0 = views(mod_decls@);
        let ghost o0 = views(openapi_regs@);
        let ghost g0 = views(route_regs@);
        mod_decls.push(ModDecl {
            module_name: route.module_name.clone(),
            include_path: include_path(route.file_path.as_str(), manifest_dir),
        });
        if openapi {
            openapi_regs.push(OpenApiReg {
                method: route.method.clone(),
                path: axum_path_to_openapi(route.axum_path.as_str()),
                operation_id: route.module_name.clone(),
                module_name: route.module_name.clone(),
            });
            assert(views(openapi_regs@) =~= o0.push(views(openapi_regs@).last()));
        }
        route_regs.push(RouteReg {
            axum_path: route.axum_path.clone(),
            method_fn: to_lowercase(route.method.as_str()),
            module_name: route.module_name.clone(),
        });
        assert(routes.take(i + 1) =~= routes.take(i as int).push(routes[i as int]));
        assert(views(mod_decls@) =~= m0.push(views(mod_decls@).last()));
        assert(route_mods(routes.take(i + 1), md) =~= route_mods(routes.take(i as int), md).push(
            (routes[i as int].module_name@, include_path_spec(routes[i as int].file_path@, md))));
        assert(route_openapi(routes.take(i + 1)) =~= route_openapi(routes.take(i as int)).push(
            (routes[i as int].method@, openapi_path_spec(routes[i as int].axum_path@), routes[i as int].module_name@, routes[i as int].module_name@)));
        assert(views(route_regs@) =~= g0.push(views(route_regs@).last()));
        assert(route_regs_spec(routes.take(i + 1)) =~= route_regs_spec(routes.take(i as int)).push(
            (routes[i as int].axum_path@, str_to_lowercase(routes[i as int].method@), routes[i as int].module_name@)));
        i = i + 1;
    }
    assert(routes.take(routes.len() as int) =~= routes);
    match &scope.middleware {
        Some(mw) => {
            let ghost m0 = views(mod_decls@);
            mod_decls.push(ModDecl { module_name: mw.module_name.clone(), include_path: mw.rel_path.clone() });
            assert(views(mod_decls@) =~= m0 + mw_mods(scope.middleware));
        },
        None => {
            assert(views(mod_decls@) =~= views(mod_decls@) + mw_mods(scope.middleware));
        },
    }
    let ghost own_mods = views(mod_decls@);
    let ghost own_openapi = views(openapi_regs@);
    let ghost children = scope.children@;
    let mut child_blocks: Vec<ChildBlock> = Vec::new();
    let mut k: usize = 0;
    assert(forest_mods(children, 0, md) =~= Seq::<(Seq<char>, Seq<char>)>::empty());
    assert(forest_openapi(children, 0) =~= Seq::<(Seq<char>, Seq<char>, Seq<char>, Seq<char>)>::empty());
    assert(own_mods + forest_mods(children, 0, md) =~= own_mods);
    assert(own_openapi + when_openapi(openapi, forest_openapi(children, 0)) =~= own_openapi);
    while k < scope.children.len()
        invariant
            k <= children.len(),
            children == scope.children@,
            md == manifest_dir@,
            forest_has_mw(children, children.len() as int),
            views(mod_decls@) == own_mods + forest_mods(children, k as int, md),
            views(openapi_regs@) == own_openapi + when_openapi(openapi, forest_openapi(children, k as int)),
            child_blocks@.len() == k,
            forest_router_ok(child_blocks@, children, k as int),
        decreases children.len() - k,
    {
        let child = &scope.children[k];
        proof {
            assert(decreases_to!(*scope => *child));
            lemma_has_mw_prefix(children, children.len() as int, k + 1);
            assert(children[k as int] == *child);
        }
        let sub = generate_scope_code(child, manifest_dir, openapi);
        let ScopeCode { mod_decls: mut sub_mods, router: sub_router, openapi_regs: mut sub_regs } = sub;
        let ghost m0 = views(mod_decls@);
        let ghost o0 = views(openapi_regs@);
        let ghost sm = views(sub_mods@);
        let ghost so = views(sub_regs@);
        mod_decls.append(&mut sub_mods);
        openapi_regs.append(&mut sub_regs);
        let mw_name = match &child.middleware {
            Some(m) => m.module_name.clone(),
            None => String::new(),
        };
        let ghost cb0 = child_blocks@;
        child_blocks.push(ChildBlock { router: sub_router, middleware_module: mw_name });
        proof {
            assert(views(mod_decls@) =~= m0 + sm);
            assert(views(openapi_regs@) =~= o0 + so);
            let cs1 = seq![*child];
            assert(cs1[0] == *child);
            assert(forest_mods(cs1, 0, md) =~= Seq::<(Seq<char>, Seq<char>)>::empty());
            assert(forest_openapi(cs1, 0) =~= Seq::<(Seq<char>, Seq<char>, Seq<char>, Seq<char>)>::empty());
            assert(sm =~= route_mods(child.routes@, md) + mw_mods(child.middleware)
                + forest_mods(child.children@, child.children@.len() as int, md));
            assert(forest_openapi(cs1, 1) =~= route_openapi(child.routes@) + forest_openapi(child.children@, child.children@.len() as int));
            assert(so =~= when_openapi(openapi, forest_openapi(cs1, 1)));
            assert(forest_mods(children, k + 1, md) =~= forest_mods(children, k as int, md) + sm);
            assert(forest_openapi(children, k + 1) =~= forest_openapi(children, k as int) + forest_openapi(cs1, 1));
            assert(when_openapi(openapi, forest_openapi(children, k + 1)) =~= when_openapi(openapi, forest_openapi(children, k as int)) + so);
            assert(child_blocks@.take(k as int) =~= cb0.take(k as int));
            lemma_router_prefix(child_blocks@, cb0, children, k as int);
            assert(child_blocks@[k as int].router == sub_router);
        }
        k = k + 1;
    }
    let router = build_router_expr(scope, route_regs, child_blocks);
    proof {
        let cs = seq![*scope];
        assert(cs[0] == *scope);
        assert(forest_mods(cs, 0, md) =~= Seq::<(Seq<char>, Seq<char>)>::empty());
        assert(forest_openapi(cs, 0) =~= Seq::<(Seq<char>, Seq<char>, Seq<char>, Seq<char>)>::empty());
        assert(forest_mods(cs, 1, md) =~= views(mod_decls@));
        assert(forest_openapi(cs, 1) =~= route_openapi(scope.routes@) + forest_openapi(children, children.len() as int));
        assert(when_openapi(openapi, forest_openapi(cs, 1)) =~= views(openapi_regs@));
    }
    ScopeCode { mod_decls, router, openapi_regs }
}

/// The first OpenAPI registrations of a scope are those of its own routes,
/// in order.
proof fn lemma_scope_openapi_own(s: MiddlewareScope)
    ensures
        forest_openapi(seq![s], 1) == route_openapi(s.routes@) + forest_openapi(s.children@, s.children@.len() as int),
{
    assert(seq![s][0] == s);
    assert(forest_openapi(seq![s], 0) == Seq::<(Seq<char>, Seq<char>, Seq<char>, Seq<char>)>::empty());
    assert(Seq::<(Seq<char>, Seq<char>, Seq<char>, Seq<char>)>::empty() + route_openapi(s.routes@) =~= route_openapi(s.routes@));
}

/// The OpenAPI registration of the `i`-th route of a scope has the route's
/// method, operation id and module name, and a path in OpenAPI form: a
/// route path without `{*` is kept as it is, and no catch-all marker `{*`
/// is left unless the route path holds `{**`.
pub proof fn law_scope_openapi_paths(s: MiddlewareScope, i: int)
    requires
        0 <= i < s.routes@.len(),
    ensures
        ({
            let reg = forest_openapi(seq![s], 1)[i];
            let a = s.routes@[i].axum_path@;
            &&& i < forest_openapi(seq![s], 1).len()
            &&& reg.0 == s.routes@[i].method@
            &&& reg.2 == s.routes@[i].module_name@
            &&& reg.3 == s.routes@[i].module_name@
            &&& (forall|k: int| !#[trigger] double_star_at(a, k)) ==> (forall|k: int| !#[trigger] catch_all_at(reg.1, k))
            &&& (forall|k: int| !#[trigger] catch_all_at(a, k)) ==> reg.1 == a
        }),
{
    lemma_scope_openapi_own(s);
    let a = s.routes@[i].axum_path@;
    assert(forest_openapi(seq![s], 1)[i] == route_openapi(s.routes@)[i]);
    if forall|k: int| !#[trigger] double_star_at(a, k) {
        law_openapi_path_no_catch_all(a);
    }
    if forall|k: int| !#[trigger] catch_all_at(a, k) {
        lemma_openapi_path_plain(a);
    }
}

/// A route whose path has one catch-all marker, `x{*y` with no other `{*`
/// in `x` or `y`, is registered for OpenAPI under `x{y`.
pub proof fn law_scope_openapi_catch_all(s: MiddlewareScope, i: int, x: Seq<char>, y: Seq<char>)
    requires
        0 <= i < s.routes@.len(),
        s.routes@[i].axum_path@ == x + seq!['{', '*'] + y,
        forall|k: int| !#[trigger] catch_all_at(x, k),
        forall|k: int| !#[trigger] catch_all_at(y, k),
        x.len() == 0 || x.last() != '{',
    ensures
        forest_openapi(seq![s], 1)[i].1 == x + seq!['{'] + y,
{
    lemma_scope_openapi_own(s);
    assert(forest_openapi(seq![s], 1)[i] == route_openapi(s.routes@)[i]);
    law_openapi_path_marker(x, y);
    lemma_openapi_path_plain(y);
}

} // verus!
