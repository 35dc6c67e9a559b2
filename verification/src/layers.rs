//! Which middleware wraps which route in the router that a generated plan
//! builds.
//!
//! A scope's middleware scopes to its directory and all sub-directories: a
//! route is wrapped by the middleware of its own scope, then by that of the
//! enclosing scopes, outwards, up to and including the first scope whose
//! middleware overrides its parent's. This module states that rule and
//! proves that the router expression of `generate_scope_code` follows it.
use vstd::prelude::*;
use vstd::multiset::Multiset;
use crate::codegen::{
    ChildBlock, RouterExpr, RouteReg, children_of, forest_router_ok, regs_of, route_regs_spec, router_ok,
    shape_ok, wrapper_of,
};
use crate::order::views;
use crate::parser::ScannedRoute;
use crate::scanner::{MiddlewareFileInfo, MiddlewareScope};

verus! {

/// A route registration and the middleware modules wrapping it, innermost first.
pub type LayeredRoute = ((Seq<char>, Seq<char>, Seq<char>), Seq<Seq<char>>);

/// Registrations not wrapped by anything yet.
pub open spec fn bare(regs: Seq<RouteReg>) -> Seq<LayeredRoute> {
    views(regs).map_values(|r: (Seq<char>, Seq<char>, Seq<char>)| (r, Seq::<Seq<char>>::empty()))
}

/// Routes wrapped once more, by middleware `m`.
pub open spec fn wrap_with(xs: Seq<LayeredRoute>, m: Seq<char>) -> Seq<LayeredRoute> {
    xs.map_values(|x: LayeredRoute| (x.0, x.1.push(m)))
}

/// Routes wrapped once more, by each of `l` in turn.
pub open spec fn ext_map(xs: Seq<LayeredRoute>, l: Seq<Seq<char>>) -> Seq<LayeredRoute> {
    xs.map_values(|x: LayeredRoute| (x.0, x.1 + l))
}

/// The group a scope's expression hands on for wrapping: its own routes and
/// the extend groups of its children, wrapped by its middleware if it has one.
pub open spec fn own_group(e: RouterExpr, inner: Seq<LayeredRoute>) -> Seq<LayeredRoute> {
    match wrapper_of(e) {
        Some(m) => wrap_with(bare(regs_of(e)) + inner, m),
        None => bare(regs_of(e)) + inner,
    }
}

/// What the first `k` child blocks of `cb` build, as a pair: the extend
/// group, which the parent wraps, and the override group, which passes up
/// unwrapped. A child whose middleware overrides (per `is_override`, by
/// module name) puts its whole router into the override group.
pub open spec fn eval_blocks(cb: Seq<ChildBlock>, k: int, is_override: spec_fn(Seq<char>) -> bool) -> (Seq<LayeredRoute>, Seq<LayeredRoute>)
    decreases cb, k,
{
    if k <= 0 || k > cb.len() {
        (Seq::empty(), Seq::empty())
    } else {
        let prev = eval_blocks(cb, k - 1, is_override);
        let e = cb[k - 1].router;
        let inner = match e {
            RouterExpr::FlatWithChildren(_, c) => {
                proof {
                    assert(decreases_to!(cb => c@));
                }
                eval_blocks(c@, c@.len() as int, is_override)
            },
            RouterExpr::WrappedWithChildren(_, c, _) => {
                proof {
                    assert(decreases_to!(cb => c@));
                }
                eval_blocks(c@, c@.len() as int, is_override)
            },
            _ => (Seq::<LayeredRoute>::empty(), Seq::<LayeredRoute>::empty()),
        };
        let group = own_group(e, inner.0);
        if is_override(cb[k - 1].middleware_module@) {
            (prev.0, prev.1 + group + inner.1)
        } else {
            (prev.0 + group, prev.1 + inner.1)
        }
    }
}

/// The routes the router of a root expression serves, each with the
/// middleware wrapping it: the root's own group merged with the override
/// groups passed up from below.
pub open spec fn served_routes(e: RouterExpr, is_override: spec_fn(Seq<char>) -> bool) -> Seq<LayeredRoute> {
    let inner = eval_blocks(children_of(e), children_of(e).len() as int, is_override);
    own_group(e, inner.0) + inner.1
}

/// The middleware wrapping the routes of a scope whose enclosing scopes
/// wrap theirs by `outer`: its own middleware first, then `outer` unless its
/// middleware overrides.
pub open spec fn layers_for(m: Option<MiddlewareFileInfo>, outer: Seq<Seq<char>>, is_override: spec_fn(Seq<char>) -> bool) -> Seq<Seq<char>> {
    match m {
        Some(mw) => if is_override(mw.module_name@) {
            seq![mw.module_name@]
        } else {
            seq![mw.module_name@] + outer
        },
        None => outer,
    }
}

/// A scope's route registrations, each wrapped by `l`.
pub open spec fn with_layers(rs: Seq<ScannedRoute>, l: Seq<Seq<char>>) -> Seq<LayeredRoute> {
    route_regs_spec(rs).map_values(|r: (Seq<char>, Seq<char>, Seq<char>)| (r, l))
}

/// The routes of the first `k` scopes of `cs` and their descendants, each
/// with the middleware that should wrap it, the enclosing scope wrapping
/// its routes by `outer`.
pub open spec fn forest_layered(cs: Seq<MiddlewareScope>, k: int, outer: Seq<Seq<char>>, is_override: spec_fn(Seq<char>) -> bool) -> Seq<LayeredRoute>
    decreases cs, k,
{
    if k <= 0 || k > cs.len() {
        Seq::empty()
    } else {
        proof {
            assert(decreases_to!(cs => cs[k - 1].children@));
        }
        let l = layers_for(cs[k - 1].middleware, outer, is_override);
        forest_layered(cs, k - 1, outer, is_override) + with_layers(cs[k - 1].routes@, l)
            + forest_layered(cs[k - 1].children@, cs[k - 1].children@.len() as int, l, is_override)
    }
}

/// Every route of a scope tree with the middleware that should wrap it.
pub open spec fn expected_routes(s: MiddlewareScope, is_override: spec_fn(Seq<char>) -> bool) -> Seq<LayeredRoute> {
    let l = layers_for(s.middleware, Seq::empty(), is_override);
    with_layers(s.routes@, l) + forest_layered(s.children@, s.children@.len() as int, l, is_override)
}

proof fn lemma_ext_concat(a: Seq<LayeredRoute>, b: Seq<LayeredRoute>, l: Seq<Seq<char>>)
    ensures
        ext_map(a + b, l) == ext_map(a, l) + ext_map(b, l),
{
    assert(ext_map(a + b, l) =~= ext_map(a, l) + ext_map(b, l));
}

proof fn lemma_ext_wrap(xs: Seq<LayeredRoute>, m: Seq<char>, l: Seq<Seq<char>>)
    ensures
        ext_map(wrap_with(xs, m), l) == ext_map(xs, seq![m] + l),
        wrap_with(xs, m) == ext_map(xs, seq![m]),
{
    assert forall|i: int| 0 <= i < xs.len() implies xs[i].1.push(m) + l =~= xs[i].1 + (seq![m] + l) by {}
    assert forall|i: int| 0 <= i < xs.len() implies xs[i].1.push(m) =~= xs[i].1 + seq![m] by {}
    assert(ext_map(wrap_with(xs, m), l) =~= ext_map(xs, seq![m] + l));
    assert(wrap_with(xs, m) =~= ext_map(xs, seq![m]));
}

proof fn lemma_ext_empty(xs: Seq<LayeredRoute>)
    ensures
        ext_map(xs, Seq::empty()) == xs,
{
    assert forall|i: int| 0 <= i < xs.len() implies xs[i].1 + Seq::<Seq<char>>::empty() =~= xs[i].1 by {}
    assert(ext_map(xs, Seq::empty()) =~= xs);
}

proof fn lemma_ext_bare(regs: Seq<RouteReg>, rs: Seq<ScannedRoute>, l: Seq<Seq<char>>)
    requires
        views(regs) == route_regs_spec(rs),
    ensures
        ext_map(bare(regs), l) == with_layers(rs, l),
{
    assert(Seq::<Seq<char>>::empty() + l =~= l);
    assert(ext_map(bare(regs), l) =~= with_layers(rs, l));
}

proof fn lemma_ms3(a: Seq<LayeredRoute>, b: Seq<LayeredRoute>, c: Seq<LayeredRoute>)
    ensures
        (a + b + c).to_multiset() == a.to_multiset().add(b.to_multiset()).add(c.to_multiset()),
{
    vstd::seq_lib::lemma_multiset_commutative(a + b, c);
    vstd::seq_lib::lemma_multiset_commutative(a, b);
}

/// The inner pair a child expression contributes is what its own child
/// blocks build.
proof fn lemma_inner(e: RouterExpr, is_override: spec_fn(Seq<char>) -> bool)
    ensures
        (match e {
            RouterExpr::FlatWithChildren(_, c) => eval_blocks(c@, c@.len() as int, is_override),
            RouterExpr::WrappedWithChildren(_, c, _) => eval_blocks(c@, c@.len() as int, is_override),
            _ => (Seq::<LayeredRoute>::empty(), Seq::<LayeredRoute>::empty()),
        }) == eval_blocks(children_of(e), children_of(e).len() as int, is_override),
{
}

/// What the first `k` child blocks build, once the extend group is wrapped
/// by the enclosing layers `l`, is what the first `k` scopes should serve.
proof fn lemma_forest_served(
    cb: Seq<ChildBlock>,
    cs: Seq<MiddlewareScope>,
    k: int,
    l: Seq<Seq<char>>,
    is_override: spec_fn(Seq<char>) -> bool,
)
    requires
        cb.len() == cs.len(),
        0 <= k <= cs.len(),
        forest_router_ok(cb, cs, k),
    ensures
        ext_map(eval_blocks(cb, k, is_override).0, l).to_multiset().add(eval_blocks(cb, k, is_override).1.to_multiset())
            == forest_layered(cs, k, l, is_override).to_multiset(),
    decreases cs, k,
{
    if k == 0 {
        assert(ext_map(Seq::<LayeredRoute>::empty(), l) =~= Seq::<LayeredRoute>::empty());
        let z = Seq::<LayeredRoute>::empty();
        z.to_multiset_ensures();
        vstd::multiset::lemma_multiset_empty_len(z.to_multiset());
        assert(z.to_multiset() =~= Multiset::empty());
    } else {
        let s = cs[k - 1];
        let blk = cb[k - 1];
        let e = blk.router;
        let m = blk.middleware_module@;
        let l_s = layers_for(s.middleware, l, is_override);
        let prev = eval_blocks(cb, k - 1, is_override);
        let inner = eval_blocks(children_of(e), children_of(e).len() as int, is_override);
        lemma_inner(e, is_override);
        lemma_forest_served(cb, cs, k - 1, l, is_override);
        assert(decreases_to!(cs => cs[k - 1].children@));
        lemma_forest_served(children_of(e), s.children@, s.children@.len() as int, l_s, is_override);
        assert(shape_ok(e, s));
        assert(wrapper_of(e) == Some(m));
        let base = bare(regs_of(e)) + inner.0;
        let group = own_group(e, inner.0);
        assert(group == wrap_with(base, m));
        lemma_ext_wrap(base, m, l);
        lemma_ext_concat(bare(regs_of(e)), inner.0, l_s);
        lemma_ext_bare(regs_of(e), s.routes@, l_s);
        let own = with_layers(s.routes@, l_s);
        let below = forest_layered(s.children@, s.children@.len() as int, l_s, is_override);
        assert(forest_layered(cs, k, l, is_override)
            == forest_layered(cs, k - 1, l, is_override) + own + below);
        lemma_ms3(forest_layered(cs, k - 1, l, is_override), own, below);
        let r = eval_blocks(cb, k, is_override);
        if is_override(m) {
            assert(l_s == seq![m]);
            assert(group == ext_map(base, l_s));
            assert(r.0 == prev.0);
            assert(r.1 == prev.1 + group + inner.1);
            lemma_ms3(prev.1, group, inner.1);
            vstd::seq_lib::lemma_multiset_commutative(own, ext_map(inner.0, l_s));
            assert(group == own + ext_map(inner.0, l_s));
        } else {
            assert(l_s == seq![m] + l);
            assert(r.0 == prev.0 + group);
            assert(r.1 == prev.1 + inner.1);
            lemma_ext_concat(prev.0, group, l);
            assert(ext_map(group, l) == ext_map(base, l_s));
            vstd::seq_lib::lemma_multiset_commutative(ext_map(prev.0, l), ext_map(group, l));
            vstd::seq_lib::lemma_multiset_commutative(prev.1, inner.1);
            vstd::seq_lib::lemma_multiset_commutative(own, ext_map(inner.0, l_s));
        }
    }
}

/// The router that a generated plan builds serves every route of the scope
/// tree exactly once, wrapped by the middleware of its own scope, then by
/// that of the enclosing scopes outwards, up to and including the first
/// scope whose middleware overrides its parent's. This holds whatever mode
/// each middleware module declares (`is_override`).
pub proof fn lemma_served_routes(e: RouterExpr, s: MiddlewareScope, is_override: spec_fn(Seq<char>) -> bool)
    requires
        router_ok(e, s),
    ensures
        served_routes(e, is_override).to_multiset() == expected_routes(s, is_override).to_multiset(),
{
    let l = layers_for(s.middleware, Seq::empty(), is_override);
    let inner = eval_blocks(children_of(e), children_of(e).len() as int, is_override);
    lemma_forest_served(children_of(e), s.children@, s.children@.len() as int, l, is_override);
    let base = bare(regs_of(e)) + inner.0;
    lemma_ext_concat(bare(regs_of(e)), inner.0, l);
    lemma_ext_bare(regs_of(e), s.routes@, l);
    match s.middleware {
        Some(mw) => {
            let m = mw.module_name@;
            assert(l =~= seq![m]);
            lemma_ext_wrap(base, m, Seq::empty());
            assert(own_group(e, inner.0) == ext_map(base, l));
        },
        None => {
            assert(l =~= Seq::<Seq<char>>::empty());
            lemma_ext_empty(base);
            assert(own_group(e, inner.0) == ext_map(base, l));
        },
    }
    let own = with_layers(s.routes@, l);
    let below = forest_layered(s.children@, s.children@.len() as int, l, is_override);
    vstd::seq_lib::lemma_multiset_commutative(own + ext_map(inner.0, l), inner.1);
    vstd::seq_lib::lemma_multiset_commutative(own, ext_map(inner.0, l));
    vstd::seq_lib::lemma_multiset_commutative(own, below);
}

} // verus!
