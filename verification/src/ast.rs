//! The parts of a handler's syntax tree that the metadata analysis reads.
//!
//! A parser turns source into these values; the analysis only looks at call
//! names, string literals, type names and a few wrapping expressions.

use vstd::prelude::*;

verus! {

/// A type, as far as its name goes.
pub enum TypeModel {
    /// A path type; the identifier of its last segment, if it has segments.
    Path(Option<String>),
    /// A reference `&T`.
    Reference(Box<TypeModel>),
    /// Any other type.
    Other,
}

/// The path of a called function.
pub struct PathModel {
    /// Identifier of the last path segment, if the path has segments.
    pub last_ident: Option<String>,
    /// First generic argument of the last segment (`f::<T>`), when it is a type.
    pub first_type_arg: Option<TypeModel>,
}

/// An expression.
pub enum ExprModel {
    /// A function call; `func` is the callee's path when the callee is a path expression.
    Call { func: Option<PathModel>, args: Vec<ExprModel> },
    /// A block; its last statement when that is an expression statement.
    Block(Option<Box<ExprModel>>),
    /// A method call, by its receiver.
    MethodCall(Box<ExprModel>),
    /// `expr?`
    Try(Box<ExprModel>),
    /// A closure, by its body.
    Closure(Box<ExprModel>),
    /// `(expr)`
    Paren(Box<ExprModel>),
    /// `&expr`
    Reference(Box<ExprModel>),
    /// A string literal, by its value.
    StrLit(String),
    /// Anything else.
    Other,
}

/// A token tree inside a macro invocation.
pub enum TokenModel {
    /// A delimited group; `brace` when the delimiter is `{}`.
    Group { brace: bool, inner: Vec<TokenModel> },
    /// A literal, by its source text (a string literal keeps its quotes).
    Literal(String),
    /// A punctuation character.
    Punct(char),
    /// An identifier.
    Ident(String),
}

} // verus!
