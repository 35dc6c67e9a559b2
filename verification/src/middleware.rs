//! How a directory's middleware combines with that of its parent.
use vstd::prelude::*;

verus! {

/// How a scope's middleware relates to the middleware of enclosing scopes.
#[derive(PartialEq, Eq, Structural, Clone, Copy, Debug)]
pub enum MiddlewareMode {
    /// Stack on top of the parent's middleware: a request passes the
    /// parent's layers, then this scope's (the default).
    Extend,
    /// Replace every enclosing middleware: the scope's routes get only this
    /// scope's layers.
    Override,
}

impl Default for MiddlewareMode {
    fn default() -> (r: Self)
        ensures
            r == MiddlewareMode::Extend,
    {
        MiddlewareMode::Extend
    }
}

} // verus!
