//! The `#[route]` attribute: what its argument asks for, and which
//! parameters of the handler the generated wrapper binds.
use vstd::prelude::*;
use crate::text::{chars_of, concat, lit, str_eq, string_from_chars, trim, trim_spec};

verus! {

/// The kind of handler a `#[route(...)]` argument asks for.
#[derive(PartialEq, Eq, Structural, Clone, Copy, Debug)]
pub enum RouteKind {
    /// `#[route]`: a standard HTTP handler.
    Http,
    /// An all-method HTTP handler.
    Any,
    /// `#[route(ws)]`: a WebSocket handler.
    Ws,
    /// `#[route(sse)]`: a Server-Sent Events handler.
    Sse,
}

/// The message for an argument that is not `ws`, `sse` or empty.
pub open spec fn unknown_argument_message(trimmed: Seq<char>) -> Seq<char> {
    "unknown #[route] argument: `"@ + trimmed
        + "`. Expected `ws`, `sse`, or empty. / 未知的 #[route] 参数: `"@ + trimmed
        + "`。期望 `ws`、`sse` 或为空。"@
}

/// The kind named by a `#[route(...)]` argument text: empty (after trimming)
/// is `Http`, `ws` is `Ws`, `sse` is `Sse`; anything else is refused.
pub open spec fn route_kind_spec(args: Seq<char>) -> Result<RouteKind, Seq<char>> {
    let t = trim_spec(args);
    if t.len() == 0 {
        Ok(RouteKind::Http)
    } else if t == "ws"@ {
        Ok(RouteKind::Ws)
    } else if t == "sse"@ {
        Ok(RouteKind::Sse)
    } else {
        Err(unknown_argument_message(t))
    }
}

pub open spec fn kind_result_view(r: Result<RouteKind, String>) -> Result<RouteKind, Seq<char>> {
    match r {
        Ok(k) => Ok(k),
        Err(m) => Err(m@),
    }
}

/// Parses the argument text of `#[route(...)]`.
pub fn parse_route_kind(args: &str) -> (r: Result<RouteKind, String>)
    ensures
        kind_result_view(r) == route_kind_spec(args@),
{
    let t = trim(&chars_of(args));
    let ts = string_from_chars(t.as_slice());
    if t.len() == 0 {
        Ok(RouteKind::Http)
    } else if str_eq(ts.as_str(), "ws") {
        Ok(RouteKind::Ws)
    } else if str_eq(ts.as_str(), "sse") {
        Ok(RouteKind::Sse)
    } else {
        let m = concat(&chars_of("unknown #[route] argument: `"), &t);
        let m = concat(&m, &chars_of("`. Expected `ws`, `sse`, or empty. / 未知的 #[route] 参数: `"));
        let m = concat(&m, &t);
        let m = concat(&m, &chars_of("`。期望 `ws`、`sse` 或为空。"));
        Err(string_from_chars(m.as_slice()))
    }
}

/// The message for a `#[route]` function that is not `async`.
pub open spec fn not_async_message() -> Seq<char> {
    "#[route] 函数必须是 async fn / #[route] function must be async fn"@
}

/// What `#[route]` does with a function: a function that is not `async` is
/// refused; otherwise the argument decides the kind of handler.
pub open spec fn route_decision_spec(is_async: bool, args: Seq<char>) -> Result<RouteKind, Seq<char>> {
    if !is_async {
        Err(not_async_message())
    } else {
        route_kind_spec(args)
    }
}

/// Decides the kind of wrapper `#[route]` generates for a function, or the
/// compile error it reports.
pub fn route_kind_for(is_async: bool, args: &str) -> (r: Result<RouteKind, String>)
    ensures
        kind_result_view(r) == route_decision_spec(is_async, args@),
{
    if !is_async {
        return Err(lit("#[route] 函数必须是 async fn / #[route] function must be async fn"));
    }
    parse_route_kind(args)
}

/// A function parameter as the wrapper generator sees it.
pub enum FnArgModel {
    /// `self`, `&self` or `&mut self`.
    Receiver,
    /// A typed parameter; its name when its pattern is a plain identifier.
    Typed(Option<String>),
}

/// The typed parameters of a signature, in order: each one's name when its
/// pattern is a plain identifier.
pub open spec fn typed_args(s: Seq<FnArgModel>) -> Seq<Option<Seq<char>>>
    decreases s.len(),
{
    if s.len() == 0 {
        Seq::empty()
    } else {
        typed_args(s.drop_last()) + match s.last() {
            FnArgModel::Typed(n) => seq![crate::openapi::opt_str_view(n)],
            FnArgModel::Receiver => Seq::empty(),
        }
    }
}

/// The name under which the wrapper binds the event: always `event` (the
/// handler's own `event` parameter when it has one, else a fresh `event`).
pub fn find_event_param(inputs: &[FnArgModel]) -> (r: String)
    ensures
        r@ == "event"@,
{
    let mut i: usize = 0;
    while i < inputs.len()
        invariant
            i <= inputs.len(),
        decreases inputs.len() - i,
    {
        match &inputs[i] {
            FnArgModel::Typed(Some(n)) => {
                if str_eq(n.as_str(), "event") {
                    return lit("event");
                }
            },
            _ => {},
        }
        i = i + 1;
    }
    lit("event")
}

/// The name of the second typed parameter when its pattern is a plain
/// identifier, else `_conn`.
pub open spec fn second_param_spec(inputs: Seq<FnArgModel>) -> Seq<char> {
    let t = typed_args(inputs);
    if t.len() >= 2 && t[1].is_some() {
        t[1].unwrap()
    } else {
        "_conn"@
    }
}

/// Finds the name of the second typed parameter (the WebSocket or the SSE
/// sender), or `_conn`.
pub fn find_second_param(inputs: &[FnArgModel]) -> (r: String)
    ensures
        r@ == second_param_spec(inputs@),
{
    let ghost s = inputs@;
    let mut count: usize = 0;
    let mut i: usize = 0;
    assert(s.take(0) =~= Seq::<FnArgModel>::empty());
    while i < inputs.len()
        invariant
            i <= inputs.len(),
            s == inputs@,
            count == typed_args(s.take(i as int)).len(),
            count <= 1,
            count <= i,
        decreases inputs.len() - i,
    {
        assert(s.take(i + 1).drop_last() =~= s.take(i as int));
        match &inputs[i] {
            FnArgModel::Typed(n) => {
                count = count + 1;
                if count == 2 {
                    proof {
                        lemma_typed_args_prefix(s, i + 1);
                    }
                    match n {
                        Some(name) => {
                            return string_from_chars(chars_of(name.as_str()).as_slice());
                        },
                        None => {
                            return lit("_conn");
                        },
                    }
                }
            },
            FnArgModel::Receiver => {},
        }
        i = i + 1;
    }
    assert(s.take(s.len() as int) =~= s);
    lit("_conn")
}

/// The typed parameters of a whole signature start with those of any prefix.
pub proof fn lemma_typed_args_prefix(s: Seq<FnArgModel>, k: int)
    requires
        0 <= k <= s.len(),
    ensures
        typed_args(s.take(k)).len() <= typed_args(s).len(),
        forall|j: int| 0 <= j < typed_args(s.take(k)).len() ==> typed_args(s)[j] == typed_args(s.take(k))[j],
    decreases s.len() - k,
{
    if k < s.len() {
        lemma_typed_args_prefix(s, k + 1);
        assert(s.take(k + 1).drop_last() =~= s.take(k));
    } else {
        assert(s.take(k) =~= s);
    }
}

} // verus!
