//! Building the middleware scope tree from a listing of the routes directory.
//!
//! The directory itself is read by the caller into a [`DirListing`]; this
//! module decides which entries are routes, which directories open a
//! middleware scope, and how routes of directories without middleware are
//! absorbed into the nearest enclosing scope.

use vstd::prelude::*;
use vstd::multiset::Multiset;
use crate::order::{views, bytes_lt, compare_bytes, insertion_sort, lemma_bytes_lt, sort_by_order, str_bytes};
use crate::parser::{opt_view, parse_route_file, parse_route_spec, views_of, RouteView, ScannedRoute};
use crate::text::{chars_of, concat, has_prefix, has_suffix, join_chars, join_spec, split_spec, string_from_chars, strings_to_chars, trim_spec};
use crate::utils::{sanitize_ident, sanitize_ident_part, sanitize_ident_part_spec, sanitize_ident_spec};

verus! {

/// What kind of filesystem entry a directory entry is.
pub enum EntryKind {
    /// A sub-directory, with its own listing.
    Directory(DirListing),
    /// A regular file; for `.rs` files, its content when it could be read.
    File(Option<String>),
    /// Anything else (skipped).
    Other,
}

/// One entry of a directory.
pub struct DirEntry {
    /// File name of the entry.
    pub name: String,
    /// Full path of the entry.
    pub path: String,
    /// What the entry is.
    pub kind: EntryKind,
}

/// A directory as read from disk.
pub struct DirListing {
    /// Full path of `_middleware.rs` when that file exists in the directory.
    pub middleware_path: Option<String>,
    /// The directory's entries, or `None` when it could not be read.
    pub entries: Option<Vec<DirEntry>>,
}

/// Information about a `_middleware.rs` file.
pub struct MiddlewareFileInfo {
    /// Path relative to the manifest directory (with a leading `/`), for `include!()`.
    pub rel_path: String,
    /// Rust module identifier for the middleware module.
    pub module_name: String,
    /// Display path of the scope, such as `/` or `/api`.
    pub scope_path: String,
}

/// A middleware scope: a directory with `_middleware.rs`, or the root.
pub struct MiddlewareScope {
    /// The scope's middleware, when the directory has `_middleware.rs`.
    pub middleware: Option<MiddlewareFileInfo>,
    /// Routes of this scope (those of sub-directories without middleware included).
    pub routes: Vec<ScannedRoute>,
    /// Child scopes: sub-directories with their own `_middleware.rs`.
    pub children: Vec<MiddlewareScope>,
}

/// The entries of a listing (none when it could not be read).
pub open spec fn entry_seq(dir: DirListing) -> Seq<DirEntry> {
    match dir.entries {
        Some(v) => v@,
        None => Seq::<DirEntry>::empty(),
    }
}

/// Entries that the scan passes over: hidden files and names starting with
/// `_` (which covers `_middleware.rs`).
pub open spec fn is_skipped_name(name: Seq<char>) -> bool {
    name.len() > 0 && (name[0] == '.' || name[0] == '_')
}

/// Routes found among the first `k` entries of `dir`, whose path components
/// are `parts`: every route file, and the routes of every sub-directory,
/// except (when `own` holds) sub-directories that have their own middleware.
pub open spec fn routes_upto(dir: DirListing, parts: Seq<Seq<char>>, k: int, own: bool) -> Multiset<RouteView>
    decreases dir, k,
{
    if k <= 0 || k > entry_seq(dir).len() {
        Multiset::empty()
    } else {
        let e = entry_seq(dir)[k - 1];
        let prev = routes_upto(dir, parts, k - 1, own);
        if is_skipped_name(e.name@) {
            prev
        } else {
            match e.kind {
                EntryKind::Directory(child) => {
                    if own && child.middleware_path.is_some() {
                        prev
                    } else {
                        proof {
                            assert(decreases_to!(dir => child));
                        }
                        prev.add(routes_upto(child, parts.push(e.name@), entry_seq(child).len() as int, own))
                    }
                },
                EntryKind::File(content) => {
                    match parse_route_spec(e.path@, e.name@, parts, crate::openapi::opt_str_view(content)) {
                        Some(r) => prev.insert(r),
                        None => prev,
                    }
                },
                EntryKind::Other => prev,
            }
        }
    }
}

/// Routes of an entry: what the entry adds to `routes_upto`.
pub open spec fn entry_delta(dir: DirListing, parts: Seq<Seq<char>>, j: int, own: bool) -> Multiset<RouteView> {
    let e = entry_seq(dir)[j];
    if is_skipped_name(e.name@) {
        Multiset::empty()
    } else {
        match e.kind {
            EntryKind::Directory(child) => {
                if own && child.middleware_path.is_some() {
                    Multiset::empty()
                } else {
                    routes_upto(child, parts.push(e.name@), entry_seq(child).len() as int, own)
                }
            },
            EntryKind::File(content) => {
                match parse_route_spec(e.path@, e.name@, parts, crate::openapi::opt_str_view(content)) {
                    Some(r) => Multiset::singleton(r),
                    None => Multiset::empty(),
                }
            },
            EntryKind::Other => Multiset::empty(),
        }
    }
}

/// All routes in the listing (its whole subtree).
pub open spec fn listing_routes(dir: DirListing, parts: Seq<Seq<char>>) -> Multiset<RouteView> {
    routes_upto(dir, parts, entry_seq(dir).len() as int, false)
}

/// Routes that belong to the listing's own scope: those of its files and of
/// sub-directories, down to (not into) sub-directories with middleware.
pub open spec fn own_routes(dir: DirListing, parts: Seq<Seq<char>>) -> Multiset<RouteView> {
    routes_upto(dir, parts, entry_seq(dir).len() as int, true)
}

/// The routes of a list of scopes, as a multiset.
pub open spec fn route_ms(rs: Seq<ScannedRoute>) -> Multiset<RouteView> {
    views(rs).to_multiset()
}

/// All routes held by the first `k` scopes of `cs` and their descendants.
pub open spec fn forest_total(cs: Seq<MiddlewareScope>, k: int) -> Multiset<RouteView>
    decreases cs, k,
{
    if k <= 0 || k > cs.len() {
        Multiset::empty()
    } else {
        proof {
            assert(decreases_to!(cs => cs[k - 1].children@));
        }
        forest_total(cs, k - 1).add(route_ms(cs[k - 1].routes@)).add(
            forest_total(cs[k - 1].children@, cs[k - 1].children@.len() as int),
        )
    }
}

/// All routes held by a scope and its descendants.
pub open spec fn scope_total(s: MiddlewareScope) -> Multiset<RouteView> {
    route_ms(s.routes@).add(forest_total(s.children@, s.children@.len() as int))
}

/// Strict order of routes within a scope: longer Axum paths (in bytes) first,
/// equal lengths in byte order of the path.
pub open spec fn route_lt(a: RouteView, b: RouteView) -> bool {
    let pa = str_bytes(a.1);
    let pb = str_bytes(b.1);
    pa.len() > pb.len() || (pa.len() == pb.len() && bytes_lt(pa, pb))
}

/// No route is strictly before the one preceding it.
pub open spec fn routes_sorted(rs: Seq<ScannedRoute>) -> bool {
    forall|i: int| 0 <= i < rs.len() - 1 ==> !route_lt(#[trigger] rs[i + 1]@, rs[i]@)
}

/// The first `k` scopes of `cs`, and all their descendants, have middleware and
/// sorted routes.
pub open spec fn forest_wf(cs: Seq<MiddlewareScope>, k: int) -> bool
    decreases cs, k,
{
    if k <= 0 || k > cs.len() {
        true
    } else {
        proof {
            assert(decreases_to!(cs => cs[k - 1].children@));
        }
        &&& forest_wf(cs, k - 1)
        &&& cs[k - 1].middleware.is_some()
        &&& routes_sorted(cs[k - 1].routes@)
        &&& forest_wf(cs[k - 1].children@, cs[k - 1].children@.len() as int)
    }
}

/// A scope whose routes are sorted and whose descendants are all middleware
/// scopes with sorted routes.
pub open spec fn scope_wf(s: MiddlewareScope) -> bool {
    routes_sorted(s.routes@) && forest_wf(s.children@, s.children@.len() as int)
}

/// A middleware file as plain values: include path, module name, scope path.
pub type MiddlewareView = (Seq<char>, Seq<char>, Seq<char>);

pub open spec fn mw_view(m: Option<MiddlewareFileInfo>) -> Option<MiddlewareView> {
    match m {
        Some(i) => Some((i.rel_path@, i.module_name@, i.scope_path@)),
        None => None,
    }
}

/// The shape of a scope tree: its middleware, its routes, and the shapes of
/// its child scopes.
pub struct ScopeShape {
    pub middleware: Option<MiddlewareView>,
    pub routes: Multiset<RouteView>,
    pub children: Multiset<ScopeShape>,
}

/// The shapes of the first `k` scopes of `cs`.
pub open spec fn forest_shapes(cs: Seq<MiddlewareScope>, k: int) -> Multiset<ScopeShape>
    decreases cs, k,
{
    if k <= 0 || k > cs.len() {
        Multiset::empty()
    } else {
        proof {
            assert(decreases_to!(cs => cs[k - 1].children@));
        }
        forest_shapes(cs, k - 1).insert(
            ScopeShape {
                middleware: mw_view(cs[k - 1].middleware),
                routes: route_ms(cs[k - 1].routes@),
                children: forest_shapes(cs[k - 1].children@, cs[k - 1].children@.len() as int),
            },
        )
    }
}

/// The shape of a scope tree.
pub open spec fn shape_of(s: MiddlewareScope) -> ScopeShape {
    ScopeShape {
        middleware: mw_view(s.middleware),
        routes: route_ms(s.routes@),
        children: forest_shapes(s.children@, s.children@.len() as int),
    }
}

/// A scope tree with its order: its middleware, its routes in order, and
/// its child scopes in order.
pub struct ScopeTree {
    pub middleware: Option<MiddlewareView>,
    pub routes: Seq<RouteView>,
    pub children: Seq<ScopeTree>,
}

/// The ordered trees of the first `k` scopes of `cs`.
pub open spec fn forest_trees(cs: Seq<MiddlewareScope>, k: int) -> Seq<ScopeTree>
    decreases cs, k,
{
    if k <= 0 || k > cs.len() {
        Seq::empty()
    } else {
        proof {
            assert(decreases_to!(cs => cs[k - 1].children@));
        }
        forest_trees(cs, k - 1).push(
            ScopeTree {
                middleware: mw_view(cs[k - 1].middleware),
                routes: views(cs[k - 1].routes@),
                children: forest_trees(cs[k - 1].children@, cs[k - 1].children@.len() as int),
            },
        )
    }
}

/// The ordered tree of a scope.
pub open spec fn tree_of(s: MiddlewareScope) -> ScopeTree {
    ScopeTree {
        middleware: mw_view(s.middleware),
        routes: views(s.routes@),
        children: forest_trees(s.children@, s.children@.len() as int),
    }
}

/// Path of `path` relative to `base`, as `Path::strip_prefix` computes it
/// (component-wise), rendered as a string.
pub uninterp spec fn path_relative_to(path: Seq<char>, base: Seq<char>) -> Option<Seq<char>>;

/// Calls `std::path::Path::strip_prefix` and renders the rest with
/// `to_string_lossy`; the result is the named relative path.
#[verifier::external_body]
fn relative_path(path: &str, base: &str) -> (r: Option<String>)
    ensures
        match r {
            Some(p) => path_relative_to(path@, base@) == Some(p@),
            None => path_relative_to(path@, base@).is_none(),
        },
{
    std::path::Path::new(path).strip_prefix(base).ok().map(|p| p.to_string_lossy().to_string())
}

/// Path of a file as `include!()` wants it: `/` and the path relative to the
/// manifest directory, or the path itself when it is not inside it.
pub open spec fn include_path_spec(path: Seq<char>, manifest_dir: Seq<char>) -> Seq<char> {
    match path_relative_to(path, manifest_dir) {
        Some(p) => seq!['/'] + p,
        None => path,
    }
}

/// Computes the `include!()` path of a file.
pub fn include_path(path: &str, manifest_dir: &str) -> (r: String)
    ensures
        r@ == include_path_spec(path@, manifest_dir@),
{
    match relative_path(path, manifest_dir) {
        Some(p) => {
            let slash = vec!['/'];
            let r = concat(&slash, &chars_of(p.as_str()));
            assert(slash@ =~= seq!['/']);
            string_from_chars(r.as_slice())
        },
        None => string_from_chars(chars_of(path).as_slice()),
    }
}

/// Module name of a scope's middleware: `mw` at the root, else `mw_` and the
/// sanitized components joined by `_`, sanitized as a whole.
pub open spec fn mw_module_name_spec(parts: Seq<Seq<char>>) -> Seq<char> {
    if parts.len() == 0 {
        seq!['m', 'w']
    } else {
        sanitize_ident_spec(
            seq!['m', 'w', '_'] + join_spec(parts.map_values(|s: Seq<char>| sanitize_ident_part_spec(s)), seq!['_']),
        )
    }
}

/// Display path of a scope: `/` at the root, else `/` and the components joined by `/`.
pub open spec fn scope_path_spec(parts: Seq<Seq<char>>) -> Seq<char> {
    if parts.len() == 0 {
        seq!['/']
    } else {
        seq!['/'] + join_spec(parts, seq!['/'])
    }
}

/// The middleware of a scope whose directory holds `_middleware.rs` at
/// `path` (if it does), with path components `parts`.
pub open spec fn expected_mw(path: Option<String>, parts: Seq<Seq<char>>, md: Seq<char>) -> Option<MiddlewareView> {
    match path {
        Some(p) => Some((include_path_spec(p@, md), mw_module_name_spec(parts), scope_path_spec(parts))),
        None => None,
    }
}

/// The child scopes found among the first `k` entries of `dir`: each
/// sub-directory with `_middleware.rs` is a scope (its own routes, its own
/// child scopes); a sub-directory without one contributes the child scopes
/// found inside it.
pub open spec fn scopes_upto(dir: DirListing, parts: Seq<Seq<char>>, k: int, md: Seq<char>) -> Multiset<ScopeShape>
    decreases dir, k,
{
    if k <= 0 || k > entry_seq(dir).len() {
        Multiset::empty()
    } else {
        let e = entry_seq(dir)[k - 1];
        let prev = scopes_upto(dir, parts, k - 1, md);
        if is_skipped_name(e.name@) {
            prev
        } else {
            match e.kind {
                EntryKind::Directory(child) => {
                    proof {
                        assert(decreases_to!(dir => child));
                    }
                    let cp = parts.push(e.name@);
                    let below = scopes_upto(child, cp, entry_seq(child).len() as int, md);
                    if child.middleware_path.is_some() {
                        prev.insert(
                            ScopeShape {
                                middleware: expected_mw(child.middleware_path, cp, md),
                                routes: own_routes(child, cp),
                                children: below,
                            },
                        )
                    } else {
                        prev.add(below)
                    }
                },
                _ => prev,
            }
        }
    }
}

/// What entry `j` of `dir` adds to `scopes_upto`.
pub open spec fn scope_delta(dir: DirListing, parts: Seq<Seq<char>>, j: int, md: Seq<char>) -> Multiset<ScopeShape> {
    let e = entry_seq(dir)[j];
    if is_skipped_name(e.name@) {
        Multiset::empty()
    } else {
        match e.kind {
            EntryKind::Directory(child) => {
                let cp = parts.push(e.name@);
                let below = scopes_upto(child, cp, entry_seq(child).len() as int, md);
                if child.middleware_path.is_some() {
                    Multiset::singleton(
                        ScopeShape {
                            middleware: expected_mw(child.middleware_path, cp, md),
                            routes: own_routes(child, cp),
                            children: below,
                        },
                    )
                } else {
                    below
                }
            },
            _ => Multiset::empty(),
        }
    }
}

/// The scope tree of a listing with path components `parts`: its
/// middleware, its own routes, and as children the scopes of the nearest
/// sub-directories (at any depth) that have `_middleware.rs`.
pub open spec fn scope_shape_spec(dir: DirListing, parts: Seq<Seq<char>>, md: Seq<char>) -> ScopeShape {
    ScopeShape {
        middleware: expected_mw(dir.middleware_path, parts, md),
        routes: own_routes(dir, parts),
        children: scopes_upto(dir, parts, entry_seq(dir).len() as int, md),
    }
}

/// The order of routes in a scope, as a strict order on route views.
pub open spec fn route_order() -> spec_fn(RouteView, RouteView) -> bool {
    |x: RouteView, y: RouteView| route_lt(x, y)
}

/// The order of entry indices by entry name.
pub open spec fn entry_lt(es: Seq<DirEntry>) -> spec_fn(usize, usize) -> bool {
    |x: usize, y: usize| entry_index_lt(es, x, y)
}

/// The order in which the scan visits the entries of a directory: by name
/// (byte order), entries of equal name in listing order.
pub open spec fn name_order(dir: DirListing) -> Seq<usize> {
    insertion_sort(index_seq(entry_seq(dir).len()), entry_lt(entry_seq(dir)))
}

/// The routes and child scopes a scan collects from the first `k` entries of
/// `dir` in name order, both in the order found: a route file adds its route;
/// a sub-directory with `_middleware.rs` adds its scope; a sub-directory
/// without one adds its scope's routes (sorted) and its child scopes.
pub open spec fn scan_fold(dir: DirListing, parts: Seq<Seq<char>>, md: Seq<char>, k: int) -> (Seq<RouteView>, Seq<ScopeTree>)
    decreases dir, k,
{
    let ord = name_order(dir);
    if k <= 0 || k > ord.len() {
        (Seq::empty(), Seq::empty())
    } else {
        let prev = scan_fold(dir, parts, md, k - 1);
        let j = ord[k - 1] as int;
        if j < 0 || j >= entry_seq(dir).len() {
            prev
        } else {
            let e = entry_seq(dir)[j];
            if is_skipped_name(e.name@) {
                prev
            } else {
                match e.kind {
                    EntryKind::Directory(child) => {
                        proof {
                            assert(decreases_to!(dir => child));
                        }
                        let cp = parts.push(e.name@);
                        let sub = scan_fold(child, cp, md, name_order(child).len() as int);
                        let routes = insertion_sort(sub.0, route_order());
                        if child.middleware_path.is_some() {
                            (
                                prev.0,
                                prev.1.push(
                                    ScopeTree {
                                        middleware: expected_mw(child.middleware_path, cp, md),
                                        routes: routes,
                                        children: sub.1,
                                    },
                                ),
                            )
                        } else {
                            (prev.0 + routes, prev.1 + sub.1)
                        }
                    },
                    EntryKind::File(content) => {
                        match parse_route_spec(e.path@, e.name@, parts, crate::openapi::opt_str_view(content)) {
                            Some(r) => (prev.0.push(r), prev.1),
                            None => prev,
                        }
                    },
                    EntryKind::Other => prev,
                }
            }
        }
    }
}

/// The ordered scope tree of a listing: its middleware, its routes sorted
/// (longer paths first, then byte order, equal paths in the order found),
/// and its child scopes in the order found.
pub open spec fn scan_tree(dir: DirListing, parts: Seq<Seq<char>>, md: Seq<char>) -> ScopeTree {
    let f = scan_fold(dir, parts, md, name_order(dir).len() as int);
    ScopeTree {
        middleware: expected_mw(dir.middleware_path, parts, md),
        routes: insertion_sort(f.0, route_order()),
        children: f.1,
    }
}

/// Builds the middleware information of a scope.
pub fn middleware_file_info(abs_path: &str, path_parts: &[String], manifest_dir: &str) -> (r: MiddlewareFileInfo)
    ensures
        r.rel_path@ == include_path_spec(abs_path@, manifest_dir@),
        r.module_name@ == mw_module_name_spec(views_of(path_parts@)),
        r.scope_path@ == scope_path_spec(views_of(path_parts@)),
{
    let rel_path = include_path(abs_path, manifest_dir);
    let comps = strings_to_chars(path_parts);
    let module_name = if path_parts.len() == 0 {
        let m = vec!['m', 'w'];
        assert(m@ =~= seq!['m', 'w']);
        string_from_chars(m.as_slice())
    } else {
        let mut parts: Vec<Vec<char>> = Vec::new();
        let mut j: usize = 0;
        while j < path_parts.len()
            invariant
                j <= path_parts.len(),
                parts@.len() == j,
                forall|k: int| 0 <= k < j ==> (#[trigger] parts@[k])@ == sanitize_ident_part_spec(path_parts@[k]@),
            decreases path_parts.len() - j,
        {
            let part = sanitize_ident_part(path_parts[j].as_str());
            parts.push(chars_of(part.as_str()));
            j = j + 1;
        }
        assert(parts@.map_values(|v: Vec<char>| v@) =~= views_of(path_parts@).map_values(
            |s: Seq<char>| sanitize_ident_part_spec(s),
        ));
        let underscore = vec!['_'];
        assert(underscore@ =~= seq!['_']);
        let joined = join_chars(&parts, &underscore);
        let prefix = vec!['m', 'w', '_'];
        assert(prefix@ =~= seq!['m', 'w', '_']);
        let raw = concat(&prefix, &joined);
        let raw_s = string_from_chars(raw.as_slice());
        sanitize_ident(raw_s.as_str())
    };
    let scope_path = if path_parts.len() == 0 {
        let m = vec!['/'];
        assert(m@ =~= seq!['/']);
        string_from_chars(m.as_slice())
    } else {
        let slash = vec!['/'];
        assert(slash@ =~= seq!['/']);
        let joined = join_chars(&comps, &slash);
        let r = concat(&slash, &joined);
        string_from_chars(r.as_slice())
    };
    MiddlewareFileInfo { rel_path, module_name, scope_path }
}

/// Converts a directory name to the path component used for routes.
/// Dynamic (`[id]`) and catch-all (`[...rest]`) names are kept in their
/// bracket form, so every name maps to itself.
pub fn dir_name_to_path_part(name: &str) -> (r: String)
    ensures
        r@ == name@,
{
    let cs = chars_of(name);
    let ca = vec!['[', '.', '.', '.'];
    let open = vec!['['];
    let close = vec![']'];
    if crate::text::starts_with(&cs, &ca) && crate::text::ends_with(&cs, &close) {
        let param = crate::text::sub_vec(&cs, 4, cs.len() - 1);
        let r = concat(&concat(&ca, &param), &close);
        assert(cs@ =~= cs@.subrange(0, 4) + param@ + cs@.subrange(cs.len() - 1, cs.len() as int));
        string_from_chars(r.as_slice())
    } else if crate::text::starts_with(&cs, &open) && crate::text::ends_with(&cs, &close) {
        let param = crate::text::sub_vec(&cs, 1, cs.len() - 1);
        let r = concat(&concat(&open, &param), &close);
        assert(cs@ =~= cs@.subrange(0, 1) + param@ + cs@.subrange(cs.len() - 1, cs.len() as int));
        string_from_chars(r.as_slice())
    } else {
        string_from_chars(cs.as_slice())
    }
}


// ---------------------------------------------------------------------------
// Lemmas
// ---------------------------------------------------------------------------

proof fn lemma_routes_step(dir: DirListing, parts: Seq<Seq<char>>, k: int, own: bool)
    requires
        0 <= k < entry_seq(dir).len(),
    ensures
        routes_upto(dir, parts, k + 1, own) =~= routes_upto(dir, parts, k, own).add(entry_delta(dir, parts, k, own)),
{
    broadcast use vstd::multiset::group_multiset_axioms;
    let prev = routes_upto(dir, parts, k, own);
    assert(prev =~= prev.add(Multiset::empty()));
}

/// One step of the fold over entry indices.
pub open spec fn delta_step(dir: DirListing, parts: Seq<Seq<char>>, own: bool) -> spec_fn(Multiset<RouteView>, usize) -> Multiset<RouteView> {
    |acc: Multiset<RouteView>, j: usize| acc.add(entry_delta(dir, parts, j as int, own))
}

/// The indices `0..n`.
pub open spec fn index_seq(n: nat) -> Seq<usize> {
    Seq::new(n, |i: int| i as usize)
}

proof fn lemma_fold_indices(dir: DirListing, parts: Seq<Seq<char>>, own: bool, k: nat)
    requires
        k <= entry_seq(dir).len(),
        entry_seq(dir).len() <= usize::MAX,
    ensures
        index_seq(k).fold_left(Multiset::empty(), delta_step(dir, parts, own)) == routes_upto(dir, parts, k as int, own),
    decreases k,
{
    if k > 0 {
        lemma_fold_indices(dir, parts, own, (k - 1) as nat);
        assert(index_seq(k).drop_last() =~= index_seq((k - 1) as nat));
        lemma_routes_step(dir, parts, k - 1, own);
    }
}

proof fn lemma_step_commutes(dir: DirListing, parts: Seq<Seq<char>>, own: bool)
    ensures
        vstd::seq_lib::commutative_foldl(delta_step(dir, parts, own)),
{
    broadcast use vstd::multiset::group_multiset_axioms;
    let f = delta_step(dir, parts, own);
    assert forall|x: usize, y: usize, v: Multiset<RouteView>| #[trigger] f(f(v, x), y) == f(f(v, y), x) by {
        assert(f(f(v, x), y) =~= f(f(v, y), x));
    }
}

proof fn lemma_scopes_step(dir: DirListing, parts: Seq<Seq<char>>, k: int, md: Seq<char>)
    requires
        0 <= k < entry_seq(dir).len(),
    ensures
        scopes_upto(dir, parts, k + 1, md) =~= scopes_upto(dir, parts, k, md).add(scope_delta(dir, parts, k, md)),
{
    broadcast use vstd::multiset::group_multiset_axioms;
    let prev = scopes_upto(dir, parts, k, md);
    assert(prev =~= prev.add(Multiset::empty()));
}

/// One step of the fold of child scopes over entry indices.
pub open spec fn scope_step(dir: DirListing, parts: Seq<Seq<char>>, md: Seq<char>) -> spec_fn(Multiset<ScopeShape>, usize) -> Multiset<ScopeShape> {
    |acc: Multiset<ScopeShape>, j: usize| acc.add(scope_delta(dir, parts, j as int, md))
}

proof fn lemma_scope_fold_indices(dir: DirListing, parts: Seq<Seq<char>>, md: Seq<char>, k: nat)
    requires
        k <= entry_seq(dir).len(),
        entry_seq(dir).len() <= usize::MAX,
    ensures
        index_seq(k).fold_left(Multiset::empty(), scope_step(dir, parts, md)) == scopes_upto(dir, parts, k as int, md),
    decreases k,
{
    if k > 0 {
        lemma_scope_fold_indices(dir, parts, md, (k - 1) as nat);
        assert(index_seq(k).drop_last() =~= index_seq((k - 1) as nat));
        lemma_scopes_step(dir, parts, k - 1, md);
    }
}

proof fn lemma_scope_step_commutes(dir: DirListing, parts: Seq<Seq<char>>, md: Seq<char>)
    ensures
        vstd::seq_lib::commutative_foldl(scope_step(dir, parts, md)),
{
    broadcast use vstd::multiset::group_multiset_axioms;
    let f = scope_step(dir, parts, md);
    assert forall|x: usize, y: usize, v: Multiset<ScopeShape>| #[trigger] f(f(v, x), y) == f(f(v, y), x) by {
        assert(f(f(v, x), y) =~= f(f(v, y), x));
    }
}

proof fn lemma_route_ms_push(a: Seq<ScannedRoute>, x: ScannedRoute)
    ensures
        route_ms(a.push(x)) =~= route_ms(a).insert(x@),
{
    assert(views(a.push(x)) =~= views(a).push(x@));
    views(a).to_multiset_ensures();
}

proof fn lemma_route_ms_concat(a: Seq<ScannedRoute>, b: Seq<ScannedRoute>)
    ensures
        route_ms(a + b) =~= route_ms(a).add(route_ms(b)),
{
    assert(views(a + b) =~= views(a) + views(b));
    vstd::seq_lib::lemma_multiset_commutative(views(a), views(b));
}

proof fn lemma_forest_prefix(a: Seq<MiddlewareScope>, b: Seq<MiddlewareScope>, k: int)
    requires
        0 <= k <= a.len(),
        k <= b.len(),
        a.take(k) =~= b.take(k),
    ensures
        forest_total(a, k) == forest_total(b, k),
        forest_wf(a, k) == forest_wf(b, k),
        forest_shapes(a, k) == forest_shapes(b, k),
        forest_trees(a, k) == forest_trees(b, k),
    decreases k,
{
    if k > 0 {
        assert(a.take(k - 1) =~= b.take(k - 1));
        lemma_forest_prefix(a, b, k - 1);
        assert(a[k - 1] == a.take(k)[k - 1]);
        assert(b[k - 1] == b.take(k)[k - 1]);
    }
}

proof fn lemma_forest_push(a: Seq<MiddlewareScope>, x: MiddlewareScope)
    ensures
        forest_total(a.push(x), (a.len() + 1) as int) =~= forest_total(a, a.len() as int).add(scope_total(x)),
        forest_wf(a.push(x), (a.len() + 1) as int) == (forest_wf(a, a.len() as int) && x.middleware.is_some()
            && scope_wf(x)),
        forest_shapes(a.push(x), (a.len() + 1) as int) =~= forest_shapes(a, a.len() as int).insert(shape_of(x)),
        forest_trees(a.push(x), (a.len() + 1) as int) =~= forest_trees(a, a.len() as int).push(tree_of(x)),
{
    broadcast use vstd::multiset::group_multiset_axioms;
    assert(a.push(x).take(a.len() as int) =~= a.take(a.len() as int));
    lemma_forest_prefix(a.push(x), a, a.len() as int);
    assert(a.push(x)[a.len() as int] == x);
}

proof fn lemma_forest_concat(a: Seq<MiddlewareScope>, b: Seq<MiddlewareScope>)
    ensures
        forest_total(a + b, (a.len() + b.len()) as int) =~= forest_total(a, a.len() as int).add(
            forest_total(b, b.len() as int),
        ),
        forest_wf(a + b, (a.len() + b.len()) as int) == (forest_wf(a, a.len() as int) && forest_wf(b, b.len() as int)),
        forest_shapes(a + b, (a.len() + b.len()) as int) =~= forest_shapes(a, a.len() as int).add(
            forest_shapes(b, b.len() as int),
        ),
        forest_trees(a + b, (a.len() + b.len()) as int) =~= forest_trees(a, a.len() as int) + forest_trees(
            b,
            b.len() as int,
        ),
    decreases b.len(),
{
    broadcast use vstd::multiset::group_multiset_axioms;
    if b.len() == 0 {
        assert(a + b =~= a);
    } else {
        let b0 = b.drop_last();
        let x = b.last();
        lemma_forest_concat(a, b0);
        assert(a + b =~= (a + b0).push(x));
        lemma_forest_push(a + b0, x);
        assert(b =~= b0.push(x));
        lemma_forest_push(b0, x);
    }
}

proof fn lemma_forest_empty(a: Seq<MiddlewareScope>)
    requires
        a.len() == 0,
    ensures
        forest_total(a, 0) =~= Multiset::empty(),
        forest_wf(a, 0),
        forest_shapes(a, 0) =~= Multiset::empty(),
        forest_trees(a, 0) =~= Seq::<ScopeTree>::empty(),
{
}

// ---------------------------------------------------------------------------
// Scanning
// ---------------------------------------------------------------------------

/// Strict order of entry indices by entry name (byte order).
pub open spec fn entry_index_lt(entries: Seq<DirEntry>, x: usize, y: usize) -> bool {
    x < entries.len() && y < entries.len() && bytes_lt(str_bytes(entries[x as int].name@), str_bytes(
        entries[y as int].name@,
    ))
}

fn sorted_entry_indices(entries: &Vec<DirEntry>) -> (r: Vec<usize>)
    ensures
        r@.to_multiset() == index_seq(entries@.len()).to_multiset(),
        r@.len() == entries@.len(),
        forall|i: int| 0 <= i < r@.len() - 1 ==> !entry_index_lt(entries@, #[trigger] r@[i + 1], r@[i]),
        r@ == insertion_sort(index_seq(entries@.len()), entry_lt(entries@)),
{
    let n = entries.len();
    let mut idx: Vec<usize> = Vec::new();
    let mut i: usize = 0;
    while i < n
        invariant
            i <= n,
            n == entries@.len(),
            idx@ =~= index_seq(i as nat),
        decreases n - i,
    {
        idx.push(i);
        i = i + 1;
    }
    let ghost es = entries@;
    let ghost lt = entry_lt(es);
    proof {
        assert forall|x: usize, y: usize| #[trigger] lt(x, y) implies !lt(y, x) by {
            if x < es.len() && y < es.len() {
                lemma_bytes_lt(str_bytes(es[x as int].name@), str_bytes(es[y as int].name@));
            }
        }
    }
    let before = |a: &usize, b: &usize| -> (res: bool)
        ensures
            res == entry_index_lt(entries@, *a, *b),
        {
            if *a < entries.len() && *b < entries.len() {
                compare_bytes(entries[*a].name.as_str().as_bytes(), entries[*b].name.as_str().as_bytes()) == -1
            } else {
                false
            }
        };
    let r = sort_by_order(idx, before, Ghost(lt));
    assert(crate::order::views(r@) =~= r@);
    assert(crate::order::views(idx@) =~= idx@);
    assert(idx@ == index_seq(entries@.len()));
    assert(r@.to_multiset() == idx@.to_multiset());
    assert forall|i: int| 0 <= i < r@.len() - 1 implies !entry_index_lt(entries@, #[trigger] r@[i + 1], r@[i]) by {
        assert(!lt(r@[i + 1]@, r@[i]@));
    }
    r
}

fn clone_strings(v: &[String]) -> (r: Vec<String>)
    ensures
        views_of(r@) == views_of(v@),
{
    let mut r: Vec<String> = Vec::new();
    let mut i: usize = 0;
    while i < v.len()
        invariant
            i <= v.len(),
            r@.len() == i,
            forall|k: int| 0 <= k < i ==> (#[trigger] r@[k])@ == v@[k]@,
        decreases v.len() - i,
    {
        r.push(v[i].clone());
        i = i + 1;
    }
    assert(views_of(r@) =~= views_of(v@));
    r
}

fn sort_routes(routes: Vec<ScannedRoute>) -> (r: Vec<ScannedRoute>)
    ensures
        route_ms(r@) == route_ms(routes@),
        routes_sorted(r@),
        views(r@) == insertion_sort(views(routes@), route_order()),
{
    proof {
        assert forall|x: RouteView, y: RouteView| #[trigger] route_lt(x, y) implies !route_lt(y, x) by {
            lemma_bytes_lt(str_bytes(x.1), str_bytes(y.1));
        }
    }
    let before = |a: &ScannedRoute, b: &ScannedRoute| -> (res: bool)
        ensures
            res == route_lt(a@, b@),
        {
            let ba = a.axum_path.as_str().as_bytes();
            let bb = b.axum_path.as_str().as_bytes();
            if ba.len() != bb.len() {
                ba.len() > bb.len()
            } else {
                compare_bytes(ba, bb) == -1
            }
        };
    sort_by_order(routes, before, Ghost(route_order()))
}


/// Scans a directory listing into a middleware scope tree.
///
/// A directory with `_middleware.rs` gets its own scope; routes of
/// sub-directories without middleware are absorbed into the current scope,
/// and their child scopes are promoted to children of the current scope.
/// Entries are visited in name order; hidden entries and names starting with
/// `_` are skipped. Routes in a scope are sorted: longer paths first, equal
/// lengths in byte order, equal paths in the order found; child scopes come
/// in the order found (`scan_tree` gives the whole ordered tree).
pub fn scan_and_build_scope(dir: &DirListing, path_parts: &[String], manifest_dir: &str) -> (r: MiddlewareScope)
    ensures
        r.middleware.is_some() == dir.middleware_path.is_some(),
        dir.middleware_path.is_some() ==> ({
            let m = r.middleware.unwrap();
            &&& m.rel_path@ == include_path_spec(dir.middleware_path.unwrap()@, manifest_dir@)
            &&& m.module_name@ == mw_module_name_spec(views_of(path_parts@))
            &&& m.scope_path@ == scope_path_spec(views_of(path_parts@))
        }),
        route_ms(r.routes@) == own_routes(*dir, views_of(path_parts@)),
        scope_total(r) == listing_routes(*dir, views_of(path_parts@)),
        scope_wf(r),
        shape_of(r) == scope_shape_spec(*dir, views_of(path_parts@), manifest_dir@),
        tree_of(r) == scan_tree(*dir, views_of(path_parts@), manifest_dir@),
    decreases dir,
{
    broadcast use vstd::multiset::group_multiset_axioms;
    let middleware = match &dir.middleware_path {
        Some(p) => Some(middleware_file_info(p.as_str(), path_parts, manifest_dir)),
        None => None,
    };
    let ghost parts = views_of(path_parts@);
    match &dir.entries {
        None => {
            let routes: Vec<ScannedRoute> = Vec::new();
            let children: Vec<MiddlewareScope> = Vec::new();
            assert(views(routes@) =~= Seq::<RouteView>::empty());
            proof {
                lemma_forest_empty(children@);
                views(routes@).to_multiset_ensures();
                assert(route_ms(routes@) =~= Multiset::empty());
                assert(index_seq(0) =~= Seq::<usize>::empty());
                assert(name_order(*dir) =~= Seq::<usize>::empty());
            }
            MiddlewareScope { middleware, routes, children }
        },
        Some(entries) => {
            let n = entries.len();
            let order = sorted_entry_indices(entries);
            let mut routes: Vec<ScannedRoute> = Vec::new();
            let mut children: Vec<MiddlewareScope> = Vec::new();
            let ghost f_own = delta_step(*dir, parts, true);
            let ghost f_all = delta_step(*dir, parts, false);
            let ghost f_scope = scope_step(*dir, parts, manifest_dir@);
            let mut i: usize = 0;
            proof {
                assert(order@.take(0) =~= Seq::<usize>::empty());
                assert(views(routes@) =~= Seq::<RouteView>::empty());
                lemma_forest_empty(children@);
                views(routes@).to_multiset_ensures();
                assert(route_ms(routes@) =~= Multiset::empty());
                broadcast use vstd::seq_lib::group_to_multiset_ensures;
            }
            while i < order.len()
                invariant
                    i <= order@.len(),
                    order@.len() == n,
                    n == entries@.len(),
                    entries@ == entry_seq(*dir),
                    dir.entries == Some(*entries),
                    parts == views_of(path_parts@),
                    f_own == delta_step(*dir, parts, true),
                    f_all == delta_step(*dir, parts, false),
                    order@.to_multiset() == index_seq(n as nat).to_multiset(),
                    route_ms(routes@) == order@.take(i as int).fold_left(Multiset::empty(), f_own),
                    route_ms(routes@).add(forest_total(children@, children@.len() as int)) == order@.take(
                        i as int,
                    ).fold_left(Multiset::empty(), f_all),
                    forest_wf(children@, children@.len() as int),
                    f_scope == scope_step(*dir, parts, manifest_dir@),
                    order@ == name_order(*dir),
                    (views(routes@), forest_trees(children@, children@.len() as int)) == scan_fold(
                        *dir,
                        parts,
                        manifest_dir@,
                        i as int,
                    ),
                    forest_shapes(children@, children@.len() as int) == order@.take(i as int).fold_left(
                        Multiset::empty(),
                        f_scope,
                    ),
                decreases order@.len() - i,
            {
                broadcast use vstd::seq_lib::group_to_multiset_ensures;
                let j = order[i];
                proof {
                    assert(order@.to_multiset().count(order@[i as int]) > 0);
                    assert(index_seq(n as nat).contains(j));
                    assert(order@.take(i + 1).drop_last() =~= order@.take(i as int));
                    assert(order@.take(i + 1).last() == j);
                }
                let ghost own0 = route_ms(routes@);
                let ghost tot0 = route_ms(routes@).add(forest_total(children@, children@.len() as int));
                let ghost sh0 = forest_shapes(children@, children@.len() as int);
                let ghost rv0 = views(routes@);
                let ghost tr0 = forest_trees(children@, children@.len() as int);
                let ghost prev_fold = scan_fold(*dir, parts, manifest_dir@, i as int);
                let e = &entries[j];
                let name = chars_of(e.name.as_str());
                let skipped = name.len() > 0 && (name[0] == '.' || name[0] == '_');
                if skipped {
                    // hidden entries and `_middleware.rs` (handled above) are not routes
                    assert(entry_delta(*dir, parts, j as int, true) =~= Multiset::empty());
                    assert(entry_delta(*dir, parts, j as int, false) =~= Multiset::empty());
                    assert(scope_delta(*dir, parts, j as int, manifest_dir@) =~= Multiset::empty());
                } else {
                    match &e.kind {
                        EntryKind::Directory(child) => {
                            let component = dir_name_to_path_part(e.name.as_str());
                            let mut child_parts = clone_strings(path_parts);
                            child_parts.push(component);
                            proof {
                                assert(views_of(child_parts@) =~= parts.push(e.name@));
                                assert(decreases_to!(*dir => *child));
                            }
                            let child_scope = scan_and_build_scope(child, child_parts.as_slice(), manifest_dir);
                            if child_scope.middleware.is_some() {
                                // child directory has its own middleware: a separate scope
                                let ghost old_children = children@;
                                children.push(child_scope);
                                proof {
                                    lemma_forest_push(old_children, child_scope);
                                    assert(entry_delta(*dir, parts, j as int, true) =~= Multiset::empty());
                                    assert(shape_of(child_scope) == scope_shape_spec(*child, parts.push(e.name@), manifest_dir@));
                                    assert(scope_delta(*dir, parts, j as int, manifest_dir@) =~= Multiset::singleton(shape_of(child_scope)));
                                    assert(tree_of(child_scope) == scan_tree(*child, parts.push(e.name@), manifest_dir@));
                                    assert(views(routes@) == rv0);
                                }
                            } else {
                                let MiddlewareScope { middleware: _, routes: mut child_routes, children: mut grandchildren } = child_scope;
                                let ghost old_routes = routes@;
                                let ghost old_children = children@;
                                let ghost cr = child_routes@;
                                let ghost gc = grandchildren@;
                                if grandchildren.len() > 0 {
                                    // no middleware here, but deeper scopes: absorb the routes, promote the scopes
                                    routes.append(&mut child_routes);
                                    children.append(&mut grandchildren);
                                } else {
                                    // no middleware anywhere below: absorb all routes
                                    routes.append(&mut child_routes);
                                    assert(old_children + gc =~= old_children);
                                }
                                proof {
                                    lemma_route_ms_concat(old_routes, cr);
                                    lemma_forest_concat(old_children, gc);
                                    assert(children@ == old_children + gc);
                                    assert(forest_shapes(gc, gc.len() as int) == scope_shape_spec(*child, parts.push(e.name@), manifest_dir@).children);
                                    assert(scope_delta(*dir, parts, j as int, manifest_dir@) == forest_shapes(gc, gc.len() as int));
                                    assert(views(routes@) =~= rv0 + views(cr));
                                    assert(tree_of(child_scope) == scan_tree(*child, parts.push(e.name@), manifest_dir@));
                                    assert(forest_trees(gc, gc.len() as int) == scan_tree(*child, parts.push(e.name@), manifest_dir@).children);
                                }
                            }
                        },
                        EntryKind::File(content) => {
                            let rs = vec!['.', 'r', 's'];
                            let content_ref: Option<&str> = match content {
                                Some(c) => Some(c.as_str()),
                                None => None,
                            };
                            assert(opt_view(content_ref) == crate::openapi::opt_str_view(*content));
                            if crate::text::ends_with(&name, &rs) {
                                match parse_route_file(e.path.as_str(), e.name.as_str(), path_parts, content_ref) {
                                    Some(route) => {
                                        let ghost old_routes = routes@;
                                        routes.push(route);
                                        proof {
                                            lemma_route_ms_push(old_routes, route);
                                            assert(views(routes@) =~= rv0.push(route@));
                                        }
                                    },
                                    None => {},
                                }
                            } else {
                                assert(rs@ =~= crate::parser::rs_seq());
                            }
                        },
                        EntryKind::Other => {},
                    }
                }
                proof {
                    assert(route_ms(routes@) =~= own0.add(entry_delta(*dir, parts, j as int, true)));
                    assert(route_ms(routes@).add(forest_total(children@, children@.len() as int))
                        =~= tot0.add(entry_delta(*dir, parts, j as int, false)));
                    assert(forest_shapes(children@, children@.len() as int)
                        =~= sh0.add(scope_delta(*dir, parts, j as int, manifest_dir@)));
                    assert(order@[i as int] == j);
                    assert(scan_fold(*dir, parts, manifest_dir@, i + 1).0 == views(routes@));
                    assert(scan_fold(*dir, parts, manifest_dir@, i + 1).1 == forest_trees(children@, children@.len() as int));
                }
                i = i + 1;
            }
            proof {
                assert(order@.take(n as int) =~= order@);
                lemma_step_commutes(*dir, parts, true);
                lemma_step_commutes(*dir, parts, false);
                vstd::seq_lib::lemma_fold_left_permutation(order@, index_seq(n as nat), f_own, Multiset::empty());
                vstd::seq_lib::lemma_fold_left_permutation(order@, index_seq(n as nat), f_all, Multiset::empty());
                lemma_fold_indices(*dir, parts, true, n as nat);
                lemma_fold_indices(*dir, parts, false, n as nat);
                lemma_scope_step_commutes(*dir, parts, manifest_dir@);
                vstd::seq_lib::lemma_fold_left_permutation(order@, index_seq(n as nat), f_scope, Multiset::empty());
                lemma_scope_fold_indices(*dir, parts, manifest_dir@, n as nat);
            }
            let sorted = sort_routes(routes);
            MiddlewareScope { middleware, routes: sorted, children }
        },
    }
}


// ---------------------------------------------------------------------------
// Log collection
// ---------------------------------------------------------------------------

/// A route line of the startup table.
pub struct RouteDetailLog {
    /// HTTP method.
    pub method: String,
    /// Route path.
    pub path: String,
    /// Middleware scopes applied to the route, outermost first (such as `["/", "/api"]`).
    pub middleware_chain: Vec<String>,
}

/// A route line as plain values.
pub type RouteLogView = (Seq<char>, Seq<char>, Seq<Seq<char>>);

impl View for RouteDetailLog {
    type V = RouteLogView;

    open spec fn view(&self) -> RouteLogView {
        (self.method@, self.path@, views_of(self.middleware_chain@))
    }
}

/// A middleware-scope line of the startup table.
pub struct MiddlewareDetailLog {
    /// Scope display path (such as `/` or `/api`).
    pub scope_path: String,
    /// Display path of the enclosing middleware scope, if any.
    pub parent_path: Option<String>,
    /// Module name of the scope's middleware.
    pub module_name: String,
}

/// A middleware-scope line as plain values.
pub type MiddlewareLogView = (Seq<char>, Option<Seq<char>>, Seq<char>);

impl View for MiddlewareDetailLog {
    type V = MiddlewareLogView;

    open spec fn view(&self) -> MiddlewareLogView {
        (self.scope_path@, crate::openapi::opt_str_view(self.parent_path), self.module_name@)
    }
}

/// The middleware chain of a scope: the enclosing chain, then the scope's own
/// path when it has middleware.
pub open spec fn chain_of(s: MiddlewareScope, parent_chain: Seq<Seq<char>>) -> Seq<Seq<char>> {
    match s.middleware {
        Some(m) => parent_chain.push(m.scope_path@),
        None => parent_chain,
    }
}

/// Table lines of a list of routes under a chain.
pub open spec fn route_lines(rs: Seq<ScannedRoute>, chain: Seq<Seq<char>>) -> Multiset<RouteLogView> {
    Seq::new(rs.len(), |i: int| (rs[i].method@, rs[i].axum_path@, chain)).to_multiset()
}

/// Table lines of the first `k` scopes of `cs` and their descendants, under `chain`.
pub open spec fn forest_lines(cs: Seq<MiddlewareScope>, k: int, chain: Seq<Seq<char>>) -> Multiset<RouteLogView>
    decreases cs, k,
{
    if k <= 0 || k > cs.len() {
        Multiset::empty()
    } else {
        proof {
            assert(decreases_to!(cs => cs[k - 1].children@));
        }
        let c = chain_of(cs[k - 1], chain);
        forest_lines(cs, k - 1, chain).add(route_lines(cs[k - 1].routes@, c)).add(
            forest_lines(cs[k - 1].children@, cs[k - 1].children@.len() as int, c),
        )
    }
}

/// Table lines of a scope and its descendants.
pub open spec fn scope_lines(s: MiddlewareScope, parent_chain: Seq<Seq<char>>) -> Multiset<RouteLogView> {
    let c = chain_of(s, parent_chain);
    route_lines(s.routes@, c).add(forest_lines(s.children@, s.children@.len() as int, c))
}

/// Strict order of table lines: shorter paths (in bytes) first, then byte order
/// of the path, then byte order of the method.
pub open spec fn log_lt(a: RouteLogView, b: RouteLogView) -> bool {
    let pa = str_bytes(a.1);
    let pb = str_bytes(b.1);
    ||| pa.len() < pb.len()
    ||| pa.len() == pb.len() && bytes_lt(pa, pb)
    ||| pa == pb && bytes_lt(str_bytes(a.0), str_bytes(b.0))
}

proof fn lemma_forest_lines_prefix(a: Seq<MiddlewareScope>, b: Seq<MiddlewareScope>, k: int, chain: Seq<Seq<char>>)
    requires
        0 <= k <= a.len(),
        k <= b.len(),
        a.take(k) =~= b.take(k),
    ensures
        forest_lines(a, k, chain) == forest_lines(b, k, chain),
    decreases k,
{
    if k > 0 {
        assert(a.take(k - 1) =~= b.take(k - 1));
        lemma_forest_lines_prefix(a, b, k - 1, chain);
        assert(a[k - 1] == a.take(k)[k - 1]);
        assert(b[k - 1] == b.take(k)[k - 1]);
    }
}

fn clone_chain(v: &Vec<String>) -> (r: Vec<String>)
    ensures
        views_of(r@) == views_of(v@),
{
    clone_strings(v.as_slice())
}

/// Collects the table lines of all routes of a scope tree, each with the
/// middleware chain that the scopes around it give it, sorted by path length,
/// then path, then method.
pub fn collect_route_detail_logs(scope: &MiddlewareScope, parent_chain: &[String]) -> (r: Vec<RouteDetailLog>)
    ensures
        views(r@).to_multiset() == scope_lines(*scope, views_of(parent_chain@)),
        forall|i: int| 0 <= i < r@.len() - 1 ==> !log_lt(#[trigger] r@[i + 1]@, r@[i]@),
    decreases scope,
{
    broadcast use vstd::multiset::group_multiset_axioms;
    broadcast use vstd::seq_lib::group_to_multiset_ensures;
    let mut chain = clone_strings(parent_chain);
    let ghost c = chain_of(*scope, views_of(parent_chain@));
    match &scope.middleware {
        Some(mw) => {
            chain.push(mw.scope_path.clone());
            assert(views_of(chain@) =~= c);
        },
        None => {},
    }
    let mut logs: Vec<RouteDetailLog> = Vec::new();
    let mut i: usize = 0;
    assert(views(logs@) =~= Seq::<RouteLogView>::empty());
    while i < scope.routes.len()
        invariant
            i <= scope.routes@.len(),
            views_of(chain@) == c,
            logs@.len() == i,
            forall|k: int| 0 <= k < i ==> (#[trigger] logs@[k])@ == (scope.routes@[k].method@, scope.routes@[k].axum_path@, c),
        decreases scope.routes@.len() - i,
    {
        let r = &scope.routes[i];
        logs.push(RouteDetailLog {
            method: r.method.clone(),
            path: r.axum_path.clone(),
            middleware_chain: clone_chain(&chain),
        });
        i = i + 1;
    }
    assert(views(logs@) =~= Seq::new(scope.routes@.len(), |k: int| (scope.routes@[k].method@, scope.routes@[k].axum_path@, c)));
    assert(views(logs@).to_multiset() == route_lines(scope.routes@, c));
    let ghost routes_part = route_lines(scope.routes@, c);
    let mut k: usize = 0;
    let ghost children = scope.children@;
    while k < scope.children.len()
        invariant
            k <= children.len(),
            children == scope.children@,
            views_of(chain@) == c,
            views(logs@).to_multiset() == routes_part.add(forest_lines(children, k as int, c)),
        decreases children.len() - k,
    {
        let child = &scope.children[k];
        proof {
            assert(decreases_to!(*scope => *child));
        }
        let mut sub = collect_route_detail_logs(child, chain.as_slice());
        let ghost before_logs = views(logs@);
        let ghost sub_views = views(sub@);
        logs.append(&mut sub);
        proof {
            assert(views(logs@) =~= before_logs + sub_views);
            vstd::seq_lib::lemma_multiset_commutative(before_logs, sub_views);
            assert(views(logs@).to_multiset() =~= routes_part.add(forest_lines(children, k + 1, c)));
        }
        k = k + 1;
    }
    proof {
        assert forall|x: RouteLogView, y: RouteLogView| #[trigger] log_lt(x, y) implies !log_lt(y, x) by {
            lemma_bytes_lt(str_bytes(x.1), str_bytes(y.1));
            lemma_bytes_lt(str_bytes(x.0), str_bytes(y.0));
        }
    }
    let before = |a: &RouteDetailLog, b: &RouteDetailLog| -> (res: bool)
        ensures
            res == log_lt(a@, b@),
        {
            let pa = a.path.as_str().as_bytes();
            let pb = b.path.as_str().as_bytes();
            if pa.len() != pb.len() {
                pa.len() < pb.len()
            } else {
                let c1 = compare_bytes(pa, pb);
                if c1 != 0 {
                    proof { lemma_bytes_lt(pa@, pb@); }
                    c1 == -1
                } else {
                    compare_bytes(a.method.as_str().as_bytes(), b.method.as_str().as_bytes()) == -1
                }
            }
        };
    sort_by_order(logs, before, Ghost(|x: RouteLogView, y: RouteLogView| log_lt(x, y)))
}

/// Middleware lines of the first `k` scopes of `cs` and their descendants,
/// in tree order, under the enclosing scope path `parent`.
pub open spec fn forest_mw_lines(cs: Seq<MiddlewareScope>, k: int, parent: Option<Seq<char>>) -> Seq<MiddlewareLogView>
    decreases cs, k,
{
    if k <= 0 || k > cs.len() {
        Seq::empty()
    } else {
        proof {
            assert(decreases_to!(cs => cs[k - 1].children@));
        }
        let s = cs[k - 1];
        let here: Seq<MiddlewareLogView> = match s.middleware {
            Some(m) => seq![(m.scope_path@, parent, m.module_name@)],
            None => Seq::empty(),
        };
        let below = match s.middleware {
            Some(m) => Some(m.scope_path@),
            None => parent,
        };
        forest_mw_lines(cs, k - 1, parent) + here + forest_mw_lines(s.children@, s.children@.len() as int, below)
    }
}

/// Middleware lines of a scope tree, in tree order: a line for the scope
/// itself when it has middleware, then the lines of its children, whose
/// enclosing path is the scope's path (or the enclosing path when the scope
/// has no middleware).
pub open spec fn scope_mw_lines(s: MiddlewareScope, parent: Option<Seq<char>>) -> Seq<MiddlewareLogView> {
    forest_mw_lines(seq![s], 1, parent)
}

proof fn lemma_forest_mw_prefix(a: Seq<MiddlewareScope>, b: Seq<MiddlewareScope>, k: int, p: Option<Seq<char>>)
    requires
        0 <= k <= a.len(),
        k <= b.len(),
        a.take(k) =~= b.take(k),
    ensures
        forest_mw_lines(a, k, p) == forest_mw_lines(b, k, p),
    decreases k,
{
    if k > 0 {
        assert(a.take(k - 1) =~= b.take(k - 1));
        lemma_forest_mw_prefix(a, b, k - 1, p);
        assert(a[k - 1] == a.take(k)[k - 1]);
        assert(b[k - 1] == b.take(k)[k - 1]);
    }
}

/// Collects the middleware-scope lines of a scope tree, each with the path of
/// the nearest enclosing middleware scope.
pub fn collect_middleware_detail_logs(scope: &MiddlewareScope, parent_path: Option<&str>) -> (r: Vec<MiddlewareDetailLog>)
    ensures
        views(r@) == scope_mw_lines(*scope, opt_view(parent_path)),
    decreases scope,
{
    let mut logs: Vec<MiddlewareDetailLog> = Vec::new();
    let ghost p = opt_view(parent_path);
    let current_path: Option<&str> = match &scope.middleware {
        Some(mw) => Some(mw.scope_path.as_str()),
        None => None,
    };
    match &scope.middleware {
        Some(mw) => {
            let parent = match parent_path {
                Some(s) => Some(string_from_chars(chars_of(s).as_slice())),
                None => None,
            };
            logs.push(MiddlewareDetailLog {
                scope_path: mw.scope_path.clone(),
                parent_path: parent,
                module_name: mw.module_name.clone(),
            });
        },
        None => {},
    }
    let below: Option<&str> = match current_path {
        Some(c) => Some(c),
        None => parent_path,
    };
    let ghost here = views(logs@);
    let ghost below_v = opt_view(below);
    let ghost children = scope.children@;
    let mut k: usize = 0;
    assert(forest_mw_lines(children, 0, below_v) =~= Seq::<MiddlewareLogView>::empty());
    assert(views(logs@) =~= here + forest_mw_lines(children, 0, below_v));
    while k < scope.children.len()
        invariant
            k <= children.len(),
            children == scope.children@,
            below_v == opt_view(below),
            views(logs@) =~= here + forest_mw_lines(children, k as int, below_v),
        decreases children.len() - k,
    {
        let child = &scope.children[k];
        proof {
            assert(decreases_to!(*scope => *child));
        }
        let mut sub = collect_middleware_detail_logs(child, below);
        let ghost before_logs = views(logs@);
        let ghost sub_views = views(sub@);
        logs.append(&mut sub);
        proof {
            assert(views(logs@) =~= before_logs + sub_views);
            let cs1 = seq![*child];
            assert(cs1.take(0) =~= Seq::<MiddlewareScope>::empty());
            assert(forest_mw_lines(cs1, 0, below_v) =~= Seq::<MiddlewareLogView>::empty());
            assert(children[k as int] == *child);
            assert(cs1[0] == *child);
            assert(sub_views == forest_mw_lines(cs1, 1, below_v));
            assert(sub_views =~= forest_mw_lines(cs1, 0, below_v) + (match child.middleware {
                Some(m) => seq![(m.scope_path@, below_v, m.module_name@)],
                None => Seq::<MiddlewareLogView>::empty(),
            }) + forest_mw_lines(child.children@, child.children@.len() as int, match child.middleware {
                Some(m) => Some(m.scope_path@),
                None => below_v,
            }));
            assert(forest_mw_lines(children, k + 1, below_v) =~= forest_mw_lines(children, k as int, below_v) + sub_views);
        }
        k = k + 1;
    }
    proof {
        let cs = seq![*scope];
        assert(forest_mw_lines(cs, 0, p) =~= Seq::<MiddlewareLogView>::empty());
        assert(cs[0] == *scope);
    }
    logs
}

/// What the first `k` entries give stays among the routes of more entries.
proof fn lemma_routes_upto_grows(dir: DirListing, parts: Seq<Seq<char>>, j: int, k: int, own: bool, r: RouteView)
    requires
        0 <= j < k <= entry_seq(dir).len(),
    ensures
        routes_upto(dir, parts, k, own).count(r) >= routes_upto(dir, parts, j, own).count(r),
    decreases k - j,
{
    broadcast use vstd::multiset::group_multiset_axioms;
    if k - 1 > j {
        lemma_routes_upto_grows(dir, parts, j, k - 1, own, r);
    }
}

/// Every route file of a listing gives its route, parsed from the file's
/// own content, to the listing's scope (and to the listing's subtree).
pub proof fn law_listing_file_route(dir: DirListing, parts: Seq<Seq<char>>, j: int, c: String)
    requires
        0 <= j < entry_seq(dir).len(),
        !is_skipped_name(entry_seq(dir)[j].name@),
        entry_seq(dir)[j].kind == EntryKind::File(Some(c)),
        has_suffix(entry_seq(dir)[j].name@, ".rs"@),
    ensures
        ({
            let e = entry_seq(dir)[j];
            let r = parse_route_spec(e.path@, e.name@, parts, Some(c@)).unwrap();
            &&& parse_route_spec(e.path@, e.name@, parts, Some(c@)).is_some()
            &&& own_routes(dir, parts).count(r) > 0
            &&& listing_routes(dir, parts).count(r) > 0
        }),
{
    broadcast use vstd::multiset::group_multiset_axioms;
    reveal_strlit(".rs");
    assert(".rs"@ =~= crate::parser::rs_seq());
    let e = entry_seq(dir)[j];
    let r = parse_route_spec(e.path@, e.name@, parts, Some(c@)).unwrap();
    let n = entry_seq(dir).len() as int;
    assert(crate::openapi::opt_str_view(Some(c)) == Some(c@));
    assert(routes_upto(dir, parts, j + 1, true).count(r) > 0);
    assert(routes_upto(dir, parts, j + 1, false).count(r) > 0);
    if j + 1 < n {
        lemma_routes_upto_grows(dir, parts, j + 1, n, true, r);
        lemma_routes_upto_grows(dir, parts, j + 1, n, false, r);
    }
}

/// A method-less route file (no dot before `.rs`) whose content declares
/// `#[route(ws)]` (or `#[route(sse)]`) on its first line with a `#[route(`
/// attribute is scanned as a route of method `WS` (or `SSE`) for that file.
pub proof fn law_scan_declared_route_type(dir: DirListing, parts: Seq<Seq<char>>, j: int, c: String, i: int, arg: Seq<char>)
    requires
        0 <= j < entry_seq(dir).len(),
        !is_skipped_name(entry_seq(dir)[j].name@),
        entry_seq(dir)[j].kind == EntryKind::File(Some(c)),
        has_suffix(entry_seq(dir)[j].name@, ".rs"@),
        !entry_seq(dir)[j].name@.take(entry_seq(dir)[j].name@.len() - 3).contains('.'),
        0 <= i < split_spec(c@, '\n').len(),
        forall|m: int| 0 <= m < i ==> !has_prefix(#[trigger] trim_spec(split_spec(c@, '\n')[m]), "#[route("@),
        trim_spec(split_spec(c@, '\n')[i]) == "#[route("@ + arg + ")]"@,
    ensures
        trim_spec(arg) == "ws"@ ==> exists|r: RouteView| own_routes(dir, parts).count(r) > 0 && r.0 == "WS"@
            && r.2 == entry_seq(dir)[j].path@,
        trim_spec(arg) == "sse"@ ==> exists|r: RouteView| own_routes(dir, parts).count(r) > 0 && r.0 == "SSE"@
            && r.2 == entry_seq(dir)[j].path@,
{
    let e = entry_seq(dir)[j];
    law_listing_file_route(dir, parts, j, c);
    crate::parser::law_method_less_route(e.path@, e.name@, parts, Some(c@));
    crate::parser::law_detect_declared_route_type(c@, i, arg);
    let r = parse_route_spec(e.path@, e.name@, parts, Some(c@)).unwrap();
    assert(own_routes(dir, parts).count(r) > 0);
}

} // verus!
