//! Reading OpenAPI metadata out of a handler: which parameters it extracts,
//! what body type it parses, what it responds with, and its doc annotations.

use vstd::prelude::*;
use crate::ast::{ExprModel, PathModel, TokenModel, TypeModel};
use crate::order::views;
use crate::text::{chars_of, ends_with, has_prefix, has_suffix, lit, starts_with, str_eq, string_from_chars, sub_vec};

verus! {

/// How a parameter-extraction function reads its parameter.
#[derive(Clone, Copy, Debug)]
pub struct ParamFuncConfig {
    /// Path parameter (else query parameter).
    pub is_path: bool,
    /// Whether the parameter is required.
    pub required: bool,
}

/// The parameter-extraction functions of the library and how they read:
/// `get_param` (path, optional), `get_param_required` (path, required),
/// `get_query_param` (query, optional), `get_query_param_required` (query, required).
pub open spec fn param_func_spec(name: Seq<char>) -> Option<(bool, bool)> {
    if name == "get_param"@ {
        Some((true, false))
    } else if name == "get_param_required"@ {
        Some((true, true))
    } else if name == "get_query_param"@ {
        Some((false, false))
    } else if name == "get_query_param_required"@ {
        Some((false, true))
    } else {
        None
    }
}

/// Looks up a parameter-extraction function by name.
pub fn param_func_config(name: &str) -> (r: Option<ParamFuncConfig>)
    ensures
        match r {
            Some(c) => param_func_spec(name@) == Some((c.is_path, c.required)),
            None => param_func_spec(name@).is_none(),
        },
{
    if str_eq(name, "get_param") {
        Some(ParamFuncConfig { is_path: true, required: false })
    } else if str_eq(name, "get_param_required") {
        Some(ParamFuncConfig { is_path: true, required: true })
    } else if str_eq(name, "get_query_param") {
        Some(ParamFuncConfig { is_path: false, required: false })
    } else if str_eq(name, "get_query_param_required") {
        Some(ParamFuncConfig { is_path: false, required: true })
    } else {
        None
    }
}

/// The parameter-extraction functions are exactly `get_param`,
/// `get_param_required`, `get_query_param` and `get_query_param_required`;
/// a parameter read by one of them is required exactly when the function's
/// name ends in `_required`, and is a path parameter exactly when the name
/// does not start with `get_query_`.
pub proof fn law_param_func_flags(name: Seq<char>)
    ensures
        param_func_spec(name).is_some() <==> (name == "get_param"@ || name == "get_param_required"@
            || name == "get_query_param"@ || name == "get_query_param_required"@),
        param_func_spec(name).is_some() ==> (param_func_spec(name).unwrap().1 <==> has_suffix(name, "_required"@)),
        param_func_spec(name).is_some() ==> (param_func_spec(name).unwrap().0 <==> !has_prefix(name, "get_query_"@)),
{
    reveal_strlit("get_param");
    reveal_strlit("get_param_required");
    reveal_strlit("get_query_param");
    reveal_strlit("get_query_param_required");
    reveal_strlit("_required");
    reveal_strlit("get_query_");
    if name == "get_param"@ {
        assert(name.subrange(0, 9) =~= name);
        assert(name[0] != "_required"@[0]);
        assert(name[4] != "get_query_"@[4]);
    } else if name == "get_param_required"@ {
        assert(name.subrange(9, 18) =~= "_required"@);
        assert(name[4] != "get_query_"@[4]);
    } else if name == "get_query_param"@ {
        assert(name[6] != "_required"@[0]);
        assert(name.subrange(0, 10) =~= "get_query_"@);
    } else if name == "get_query_param_required"@ {
        assert(name.subrange(15, 24) =~= "_required"@);
        assert(name.subrange(0, 10) =~= "get_query_"@);
    }
}

/// Content type of each response builder of the library: `json` gives
/// `application/json`, `text` gives `text/plain`, `html` gives `text/html`,
/// `no_content` and `redirect` give `none`, `bytes` gives
/// `application/octet-stream`.
pub open spec fn builder_content_type(name: Seq<char>) -> Option<Seq<char>> {
    if name == "json"@ {
        Some("application/json"@)
    } else if name == "text"@ {
        Some("text/plain"@)
    } else if name == "html"@ {
        Some("text/html"@)
    } else if name == "no_content"@ {
        Some("none"@)
    } else if name == "redirect"@ {
        Some("none"@)
    } else if name == "bytes"@ {
        Some("application/octet-stream"@)
    } else {
        None
    }
}

/// Content type of a response builder, by name.
pub fn response_content_type_of(name: &str) -> (r: Option<&'static str>)
    ensures
        match r {
            Some(ct) => builder_content_type(name@) == Some(ct@),
            None => builder_content_type(name@).is_none(),
        },
{
    if str_eq(name, "json") {
        Some("application/json")
    } else if str_eq(name, "text") {
        Some("text/plain")
    } else if str_eq(name, "html") {
        Some("text/html")
    } else if str_eq(name, "no_content") {
        Some("none")
    } else if str_eq(name, "redirect") {
        Some("none")
    } else if str_eq(name, "bytes") {
        Some("application/octet-stream")
    } else {
        None
    }
}

/// Whether `name` is one of the library's response builders.
pub fn is_response_builder(name: &str) -> (r: bool)
    ensures
        r == builder_content_type(name@).is_some(),
{
    response_content_type_of(name).is_some()
}

/// The content type of the first known builder among `builders`, or
/// `application/json` when there is none.
pub open spec fn content_type_of_builders(builders: Seq<Seq<char>>) -> Seq<char>
    decreases builders.len(),
{
    if builders.len() == 0 {
        "application/json"@
    } else {
        match builder_content_type(builders[0]) {
            Some(ct) => ct,
            None => content_type_of_builders(builders.drop_first()),
        }
    }
}

/// Determines the response content type from the response builders found in a
/// handler: the first known builder decides, else `application/json`.
pub fn determine_response_content_type(builders: &[String]) -> (r: &'static str)
    ensures
        r@ == content_type_of_builders(crate::parser::views_of(builders@)),
{
    let ghost bv = crate::parser::views_of(builders@);
    let mut i: usize = 0;
    assert(bv.skip(0) =~= bv);
    while i < builders.len()
        invariant
            i <= builders.len(),
            bv == crate::parser::views_of(builders@),
            content_type_of_builders(bv) == content_type_of_builders(bv.skip(i as int)),
        decreases builders.len() - i,
    {
        assert(bv.skip(i as int).drop_first() =~= bv.skip(i + 1));
        assert(bv.skip(i as int)[0] == builders@[i as int]@);
        match response_content_type_of(builders[i].as_str()) {
            Some(ct) => {
                return ct;
            },
            None => {},
        }
        i = i + 1;
    }
    "application/json"
}

/// OpenAPI schema type and optional format of a Rust type.
#[derive(Clone, Copy, Debug)]
pub struct OpenApiType {
    pub schema_type: &'static str,
    pub format: Option<&'static str>,
}

/// OpenAPI type and format of the Rust primitive types: the integer types give
/// `integer` with their width (`usize`/`isize` as 64-bit), `f32`/`f64` give
/// `number` with `float`/`double`, `bool` gives `boolean`, `String` and `str`
/// give `string`.
pub open spec fn rust_type_spec(ty: Seq<char>) -> Option<(Seq<char>, Option<Seq<char>>)> {
    if ty == "u8"@ {
        Some(("integer"@, Some("uint8"@)))
    } else if ty == "u16"@ {
        Some(("integer"@, Some("uint16"@)))
    } else if ty == "u32"@ {
        Some(("integer"@, Some("uint32"@)))
    } else if ty == "u64"@ {
        Some(("integer"@, Some("uint64"@)))
    } else if ty == "u128"@ {
        Some(("integer"@, Some("uint128"@)))
    } else if ty == "usize"@ {
        Some(("integer"@, Some("uint64"@)))
    } else if ty == "i8"@ {
        Some(("integer"@, Some("int8"@)))
    } else if ty == "i16"@ {
        Some(("integer"@, Some("int16"@)))
    } else if ty == "i32"@ {
        Some(("integer"@, Some("int32"@)))
    } else if ty == "i64"@ {
        Some(("integer"@, Some("int64"@)))
    } else if ty == "i128"@ {
        Some(("integer"@, Some("int128"@)))
    } else if ty == "isize"@ {
        Some(("integer"@, Some("int64"@)))
    } else if ty == "f32"@ {
        Some(("number"@, Some("float"@)))
    } else if ty == "f64"@ {
        Some(("number"@, Some("double"@)))
    } else if ty == "bool"@ {
        Some(("boolean"@, None))
    } else if ty == "String"@ {
        Some(("string"@, None))
    } else if ty == "str"@ {
        Some(("string"@, None))
    } else {
        None
    }
}

pub open spec fn opt_static_view(o: Option<&'static str>) -> Option<Seq<char>> {
    match o {
        Some(s) => Some(s@),
        None => None,
    }
}

/// Looks up the OpenAPI type of a Rust type name.
pub fn rust_type_info(ty: &str) -> (r: Option<OpenApiType>)
    ensures
        match r {
            Some(t) => rust_type_spec(ty@) == Some((t.schema_type@, opt_static_view(t.format))),
            None => rust_type_spec(ty@).is_none(),
        },
{
    let table: [(&'static str, &'static str, Option<&'static str>); 17] = [
        ("u8", "integer", Some("uint8")),
        ("u16", "integer", Some("uint16")),
        ("u32", "integer", Some("uint32")),
        ("u64", "integer", Some("uint64")),
        ("u128", "integer", Some("uint128")),
        ("usize", "integer", Some("uint64")),
        ("i8", "integer", Some("int8")),
        ("i16", "integer", Some("int16")),
        ("i32", "integer", Some("int32")),
        ("i64", "integer", Some("int64")),
        ("i128", "integer", Some("int128")),
        ("isize", "integer", Some("int64")),
        ("f32", "number", Some("float")),
        ("f64", "number", Some("double")),
        ("bool", "boolean", None),
        ("String", "string", None),
        ("str", "string", None),
    ];
    let mut i: usize = 0;
    while i < 17
        invariant
            i <= 17,
            table@ == seq![
                ("u8", "integer", Some("uint8")),
                ("u16", "integer", Some("uint16")),
                ("u32", "integer", Some("uint32")),
                ("u64", "integer", Some("uint64")),
                ("u128", "integer", Some("uint128")),
                ("usize", "integer", Some("uint64")),
                ("i8", "integer", Some("int8")),
                ("i16", "integer", Some("int16")),
                ("i32", "integer", Some("int32")),
                ("i64", "integer", Some("int64")),
                ("i128", "integer", Some("int128")),
                ("isize", "integer", Some("int64")),
                ("f32", "number", Some("float")),
                ("f64", "number", Some("double")),
                ("bool", "boolean", None),
                ("String", "string", None),
                ("str", "string", None),
            ],
            forall|k: int| 0 <= k < i ==> ty@ != (#[trigger] table@[k]).0@,
        decreases 17 - i,
    {
        if str_eq(ty, table[i].0) {
            return Some(OpenApiType { schema_type: table[i].1, format: table[i].2 });
        }
        i = i + 1;
    }
    None
}


/// Maps a Rust type name to an OpenAPI schema type and format: the table
/// above, or `string` with no format for any other name.
pub fn rust_type_to_openapi(ty: &str) -> (r: (String, Option<String>))
    ensures
        match rust_type_spec(ty@) {
            Some((t, f)) => r.0@ == t && crate::openapi::opt_str_view(r.1) == f,
            None => r.0@ == "string"@ && r.1.is_none(),
        },
{
    match rust_type_info(ty) {
        Some(t) => (lit(t.schema_type), match t.format {
            Some(f) => Some(lit(f)),
            None => None,
        }),
        None => (lit("string"), None),
    }
}

/// The string literal value of argument `index` of a call (a reference to a
/// literal counts too).
pub open spec fn string_arg_spec(args: Seq<ExprModel>, index: int) -> Option<Seq<char>> {
    if 0 <= index < args.len() {
        let e = match args[index] {
            ExprModel::Reference(inner) => *inner,
            other => other,
        };
        match e {
            ExprModel::StrLit(s) => Some(s@),
            _ => None,
        }
    } else {
        None
    }
}

/// Extracts a string literal argument from a call at position `index`.
pub fn extract_string_arg(args: &Vec<ExprModel>, index: usize) -> (r: Option<String>)
    ensures
        crate::openapi::opt_str_view(r) == string_arg_spec(args@, index as int),
{
    if index >= args.len() {
        return None;
    }
    let arg = &args[index];
    let e: &ExprModel = match arg {
        ExprModel::Reference(inner) => &**inner,
        other => other,
    };
    match e {
        ExprModel::StrLit(s) => Some(s.clone()),
        _ => None,
    }
}

/// Simple name of a type: the last segment of a path type, through
/// references; `unknown` otherwise.
pub open spec fn type_name_spec(ty: TypeModel) -> Seq<char>
    decreases ty,
{
    match ty {
        TypeModel::Path(Some(id)) => id@,
        TypeModel::Path(None) => "unknown"@,
        TypeModel::Reference(inner) => type_name_spec(*inner),
        TypeModel::Other => "unknown"@,
    }
}

/// Converts a type to its simple name.
pub fn type_to_name(ty: &TypeModel) -> (r: String)
    ensures
        r@ == type_name_spec(*ty),
    decreases ty,
{
    match ty {
        TypeModel::Path(Some(id)) => id.clone(),
        TypeModel::Path(None) => lit("unknown"),
        TypeModel::Reference(inner) => type_to_name(&**inner),
        TypeModel::Other => lit("unknown"),
    }
}

pub open spec fn call_name(func: Option<PathModel>) -> Option<Seq<char>> {
    match func {
        Some(p) => match p.last_ident {
            Some(id) => Some(id@),
            None => None,
        },
        None => None,
    }
}

/// The first parameter name found in `e`: the literal second argument of a
/// call to a parameter-extraction function, or else the first one found in
/// the call's arguments; through the last expression of a block, method-call
/// receivers, `?`, closure bodies, parentheses and references.
pub open spec fn find_param_spec(e: ExprModel) -> Option<Seq<char>>
    decreases e, 0nat,
{
    match e {
        ExprModel::Call { func, args } => {
            match call_name(func) {
                Some(n) if param_func_spec(n).is_some() => string_arg_spec(args@, 1),
                _ => {
                    proof {
                        assert(decreases_to!(e => args@));
                    }
                    find_param_in_args(args@, 0)
                },
            }
        },
        ExprModel::Block(Some(inner)) => find_param_spec(*inner),
        ExprModel::Block(None) => None,
        ExprModel::MethodCall(inner) => find_param_spec(*inner),
        ExprModel::Try(inner) => find_param_spec(*inner),
        ExprModel::Closure(inner) => find_param_spec(*inner),
        ExprModel::Paren(inner) => find_param_spec(*inner),
        ExprModel::Reference(inner) => find_param_spec(*inner),
        _ => None,
    }
}

/// The first parameter name found among `args[i..]`.
pub open spec fn find_param_in_args(args: Seq<ExprModel>, i: int) -> Option<Seq<char>>
    decreases args, args.len() - i,
{
    if 0 <= i < args.len() {
        proof {
            assert(decreases_to!(args => args[i]));
        }
        match find_param_spec(args[i]) {
            Some(n) => Some(n),
            None => find_param_in_args(args, i + 1),
        }
    } else {
        None
    }
}


/// Walks an expression to find the parameter name of a `get_param*` or
/// `get_query_param*` call.
#[verifier::loop_isolation(false)]
pub fn find_param_in_expr(expr: &ExprModel) -> (r: Option<String>)
    ensures
        crate::openapi::opt_str_view(r) == find_param_spec(*expr),
    decreases expr,
{
    match expr {
        ExprModel::Call { func, args } => {
            let is_param_fn = match func {
                Some(p) => match &p.last_ident {
                    Some(id) => param_func_config(id.as_str()).is_some(),
                    None => false,
                },
                None => false,
            };
            if is_param_fn {
                return extract_string_arg(args, 1);
            }
            let mut i: usize = 0;
            while i < args.len()
                invariant
                    i <= args@.len(),
                    find_param_spec(*expr) == find_param_in_args(args@, i as int),
                decreases args@.len() - i,
            {
                proof {
                    assert(decreases_to!(*expr => args@[i as int]));
                }
                match find_param_in_expr(&args[i]) {
                    Some(name) => {
                        return Some(name);
                    },
                    None => {},
                }
                i = i + 1;
            }
            None
        },
        ExprModel::Block(Some(inner)) => find_param_in_expr(&**inner),
        ExprModel::Block(None) => None,
        ExprModel::MethodCall(inner) => find_param_in_expr(&**inner),
        ExprModel::Try(inner) => find_param_in_expr(&**inner),
        ExprModel::Closure(inner) => find_param_in_expr(&**inner),
        ExprModel::Paren(inner) => find_param_in_expr(&**inner),
        ExprModel::Reference(inner) => find_param_in_expr(&**inner),
        _ => None,
    }
}

/// Whether an expression is a `get_body(...)` call, possibly under `?` or
/// parentheses.
pub open spec fn is_get_body_spec(e: ExprModel) -> bool
    decreases e,
{
    match e {
        ExprModel::Call { func, .. } => call_name(func) == Some("get_body"@),
        ExprModel::Try(inner) => is_get_body_spec(*inner),
        ExprModel::Paren(inner) => is_get_body_spec(*inner),
        _ => false,
    }
}

/// Checks whether an expression is a `get_body(...)` call, possibly under `?`
/// or parentheses.
pub fn is_get_body_call(expr: &ExprModel) -> (r: bool)
    ensures
        r == is_get_body_spec(*expr),
    decreases expr,
{
    match expr {
        ExprModel::Call { func, .. } => match func {
            Some(p) => match &p.last_ident {
                Some(id) => str_eq(id.as_str(), "get_body"),
                None => false,
            },
            None => false,
        },
        ExprModel::Try(inner) => is_get_body_call(&**inner),
        ExprModel::Paren(inner) => is_get_body_call(&**inner),
        _ => false,
    }
}

/// Whether the literal text is a quoted string with at least one character
/// between the quotes.
pub open spec fn is_quoted_key(s: Seq<char>) -> bool {
    has_prefix(s, seq!['"']) && has_suffix(s, seq!['"']) && s.len() > 2
}

/// Keys found in a brace group: every quoted literal directly followed by `:`.
pub open spec fn keys_in_group(inner: Seq<TokenModel>, i: int) -> Seq<Seq<char>>
    decreases inner.len() - i,
{
    if 0 <= i < inner.len() {
        let rest = keys_in_group(inner, i + 1);
        match inner[i] {
            TokenModel::Literal(s) => {
                if is_quoted_key(s@) && i + 1 < inner.len() && inner[i + 1] == TokenModel::Punct(':') {
                    seq![s@.subrange(1, s@.len() - 1)] + rest
                } else {
                    rest
                }
            },
            _ => rest,
        }
    } else {
        Seq::empty()
    }
}

/// Keys of a `json!({...})` invocation: those of the first top-level brace
/// group, none when there is no such group.
pub open spec fn json_macro_keys_spec(tokens: Seq<TokenModel>) -> Seq<Seq<char>>
    decreases tokens.len(),
{
    if tokens.len() == 0 {
        Seq::empty()
    } else {
        match tokens[0] {
            TokenModel::Group { brace: true, inner } => keys_in_group(inner@, 0),
            _ => json_macro_keys_spec(tokens.drop_first()),
        }
    }
}

/// Extracts the top-level keys of the first brace group in the tokens of a
/// `json!` invocation.
pub fn parse_json_macro_keys(tokens: &Vec<TokenModel>) -> (r: Vec<String>)
    ensures
        crate::parser::views_of(r@) == json_macro_keys_spec(tokens@),
{
    let mut keys: Vec<String> = Vec::new();
    let mut t: usize = 0;
    assert(tokens@.skip(0) =~= tokens@);
    while t < tokens.len()
        invariant
            t <= tokens@.len(),
            keys@.len() == 0,
            json_macro_keys_spec(tokens@) == json_macro_keys_spec(tokens@.skip(t as int)),
        decreases tokens@.len() - t,
    {
        assert(tokens@.skip(t as int)[0] == tokens@[t as int]);
        assert(tokens@.skip(t as int).drop_first() =~= tokens@.skip(t + 1));
        match &tokens[t] {
            TokenModel::Group { brace, inner } => {
                if *brace {
                    // only the first top-level brace group is read
                    let n = inner.len();
                    let mut i: usize = n;
                    let mut found: Vec<String> = Vec::new();
                    while i > 0
                        invariant
                            i <= n,
                            n == inner@.len(),
                            crate::parser::views_of(found@) == keys_in_group(inner@, i as int),
                        decreases i,
                    {
                        i = i - 1;
                        match &inner[i] {
                            TokenModel::Literal(s) => {
                                let cs = chars_of(s.as_str());
                                let q = vec!['"'];
                                assert(q@ =~= seq!['"']);
                                let next_is_colon = i + 1 < n && match &inner[i + 1] {
                                    TokenModel::Punct(c) => *c == ':',
                                    _ => false,
                                };
                                assert(next_is_colon == (i + 1 < inner@.len() && inner@[i + 1] == TokenModel::Punct(':')));
                                if starts_with(&cs, &q) && ends_with(&cs, &q) && cs.len() > 2 && next_is_colon {
                                    let key = string_from_chars(sub_vec(&cs, 1, cs.len() - 1).as_slice());
                                    let ghost old_found = crate::parser::views_of(found@);
                                    found.insert(0, key);
                                    assert(crate::parser::views_of(found@) =~= seq![key@] + old_found);
                                }
                            },
                            _ => {},
                        }
                    }
                    return found;
                }
            },
            _ => {},
        }
        t = t + 1;
    }
    assert(crate::parser::views_of(keys@) =~= Seq::<Seq<char>>::empty());
    keys
}


/// A parameter detected in a handler.
pub struct ParamInfo {
    pub name: String,
    pub is_path: bool,
    pub required: bool,
    pub schema_type: String,
    pub schema_format: Option<String>,
}

/// A detected parameter as plain values: name, path?, required, type, format.
pub type ParamInfoView = (Seq<char>, bool, bool, Seq<char>, Option<Seq<char>>);

impl View for ParamInfo {
    type V = ParamInfoView;

    open spec fn view(&self) -> ParamInfoView {
        (self.name@, self.is_path, self.required, self.schema_type@, crate::openapi::opt_str_view(self.schema_format))
    }
}

impl Clone for ParamInfo {
    fn clone(&self) -> (r: Self)
        ensures
            r@ == self@,
    {
        ParamInfo {
            name: self.name.clone(),
            is_path: self.is_path,
            required: self.required,
            schema_type: self.schema_type.clone(),
            schema_format: crate::openapi::clone_opt_string(&self.schema_format),
        }
    }
}

/// What the analysis gathers while walking a handler body.
pub struct HandlerVisitor {
    /// Detected parameters (path and query).
    pub params: Vec<ParamInfo>,
    /// Detected request body type name.
    pub body_type_name: Option<String>,
    /// Response builder function names found.
    pub response_builders: Vec<String>,
    /// Top-level keys found in `json!({...})`.
    pub json_macro_keys: Vec<String>,
    /// Type updates found through `.parse::<T>()`, applied after the walk.
    pub deferred_type_updates: Vec<(String, String, Option<String>)>,
}

/// A pending type update as plain values: parameter name, type, format.
pub type TypeUpdateView = (Seq<char>, Seq<char>, Option<Seq<char>>);

pub open spec fn update_views(v: Seq<(String, String, Option<String>)>) -> Seq<TypeUpdateView> {
    v.map_values(|u: (String, String, Option<String>)| (u.0@, u.1@, crate::openapi::opt_str_view(u.2)))
}

impl HandlerVisitor {
    /// A visitor that has seen nothing.
    pub fn new() -> (r: Self)
        ensures
            r.params@.len() == 0,
            r.body_type_name.is_none(),
            r.response_builders@.len() == 0,
            r.json_macro_keys@.len() == 0,
            r.pending_updates().len() == 0,
    {
        HandlerVisitor {
            params: Vec::new(),
            body_type_name: None,
            response_builders: Vec::new(),
            json_macro_keys: Vec::new(),
            deferred_type_updates: Vec::new(),
        }
    }

    /// The type updates still to apply.
    pub open spec fn pending_updates(&self) -> Seq<TypeUpdateView> {
        update_views(self.deferred_type_updates@)
    }

    /// Records a function call: a parameter-extraction call with a literal
    /// name adds a string parameter; `get_body::<T>` records `T` as the body
    /// type; a response builder is remembered by name.
    pub fn visit_expr_call(&mut self, func: &Option<PathModel>, args: &Vec<ExprModel>)
        ensures
            final(self).pending_updates() == old(self).pending_updates(),
            final(self).json_macro_keys == old(self).json_macro_keys,
            ({
                let name = call_name(*func);
                match name {
                    Some(n) => {
                        if param_func_spec(n).is_some() {
                            let cfg = param_func_spec(n).unwrap();
                            &&& views(final(self).params@) == match string_arg_spec(args@, 1) {
                                Some(p) => views(old(self).params@).push((p, cfg.0, cfg.1, "string"@, None)),
                                None => views(old(self).params@),
                            }
                            &&& final(self).body_type_name == old(self).body_type_name
                            &&& final(self).response_builders == old(self).response_builders
                        } else if n == "get_body"@ {
                            &&& views(final(self).params@) == views(old(self).params@)
                            &&& crate::openapi::opt_str_view(final(self).body_type_name) == match func.unwrap().first_type_arg {
                                Some(t) => Some(type_name_spec(t)),
                                None => crate::openapi::opt_str_view(old(self).body_type_name),
                            }
                            &&& final(self).response_builders == old(self).response_builders
                        } else {
                            &&& views(final(self).params@) == views(old(self).params@)
                            &&& final(self).body_type_name == old(self).body_type_name
                            &&& crate::parser::views_of(final(self).response_builders@) == if builder_content_type(n).is_some() {
                                crate::parser::views_of(old(self).response_builders@).push(n)
                            } else {
                                crate::parser::views_of(old(self).response_builders@)
                            }
                        }
                    },
                    None => {
                        &&& views(final(self).params@) == views(old(self).params@)
                        &&& final(self).body_type_name == old(self).body_type_name
                        &&& final(self).response_builders == old(self).response_builders
                    },
                }
            }),
    {
        let ghost p0 = views(self.params@);
        let ghost b0 = crate::parser::views_of(self.response_builders@);
        match func {
            Some(path) => match &path.last_ident {
                Some(ident) => {
                    match param_func_config(ident.as_str()) {
                        Some(cfg) => {
                            match extract_string_arg(args, 1) {
                                Some(name) => {
                                    self.params.push(ParamInfo {
                                        name,
                                        is_path: cfg.is_path,
                                        required: cfg.required,
                                        schema_type: lit("string"),
                                        schema_format: None,
                                    });
                                    assert(views(self.params@) =~= p0.push(
                                        (name@, cfg.is_path, cfg.required, "string"@, None),
                                    ));
                                },
                                None => {},
                            }
                        },
                        None => {
                            if str_eq(ident.as_str(), "get_body") {
                                match &path.first_type_arg {
                                    Some(ty) => {
                                        self.body_type_name = Some(type_to_name(ty));
                                    },
                                    None => {},
                                }
                            } else if is_response_builder(ident.as_str()) {
                                self.response_builders.push(ident.clone());
                                assert(crate::parser::views_of(self.response_builders@) =~= b0.push(ident@));
                            }
                        },
                    }
                },
                None => {},
            },
            None => {},
        }
    }

    /// Records a method call: `.parse::<T>()` on an expression that extracts a
    /// parameter schedules that parameter's type to become the OpenAPI type of `T`.
    pub fn visit_expr_method_call(&mut self, method: &str, turbofish_first_type: &Option<TypeModel>, receiver: &ExprModel)
        ensures
            views(final(self).params@) == views(old(self).params@),
            final(self).body_type_name == old(self).body_type_name,
            final(self).response_builders == old(self).response_builders,
            final(self).json_macro_keys == old(self).json_macro_keys,
            final(self).pending_updates() == if method@ == "parse"@ && turbofish_first_type.is_some()
                && find_param_spec(*receiver).is_some() {
                let tn = type_name_spec(turbofish_first_type.unwrap());
                let (t, f) = match rust_type_spec(tn) {
                    Some(tf) => tf,
                    None => ("string"@, None),
                };
                old(self).pending_updates().push((find_param_spec(*receiver).unwrap(), t, f))
            } else {
                old(self).pending_updates()
            },
    {
        if str_eq(method, "parse") {
            match turbofish_first_type {
                Some(ty) => {
                    let ty_name = type_to_name(ty);
                    let (openapi_type, openapi_format) = rust_type_to_openapi(ty_name.as_str());
                    match find_param_in_expr(receiver) {
                        Some(param_name) => {
                            let ghost u0 = update_views(self.deferred_type_updates@);
                            self.deferred_type_updates.push((param_name, openapi_type, openapi_format));
                            assert(update_views(self.deferred_type_updates@) =~= u0.push(
                                (param_name@, openapi_type@, crate::openapi::opt_str_view(openapi_format)),
                            ));
                        },
                        None => {},
                    }
                },
                None => {},
            }
        }
    }

    /// Records a `let`: `let body: T = get_body(...)` records `T` as the body type.
    pub fn visit_local(&mut self, init: &Option<ExprModel>, pat_type: &Option<TypeModel>)
        ensures
            views(final(self).params@) == views(old(self).params@),
            final(self).response_builders == old(self).response_builders,
            final(self).json_macro_keys == old(self).json_macro_keys,
            final(self).pending_updates() == old(self).pending_updates(),
            crate::openapi::opt_str_view(final(self).body_type_name) == match (*init, *pat_type) {
                (Some(e), Some(t)) => if is_get_body_spec(e) {
                    Some(type_name_spec(t))
                } else {
                    crate::openapi::opt_str_view(old(self).body_type_name)
                },
                _ => crate::openapi::opt_str_view(old(self).body_type_name),
            },
    {
        match init {
            Some(e) => {
                if is_get_body_call(e) {
                    match pat_type {
                        Some(t) => {
                            self.body_type_name = Some(type_to_name(t));
                        },
                        None => {},
                    }
                }
            },
            None => {},
        }
    }

    /// Records a macro invocation: the keys of a `json!({...})` are collected.
    pub fn visit_expr_macro(&mut self, macro_name: &Option<String>, tokens: &Vec<TokenModel>)
        ensures
            views(final(self).params@) == views(old(self).params@),
            final(self).body_type_name == old(self).body_type_name,
            final(self).response_builders == old(self).response_builders,
            final(self).pending_updates() == old(self).pending_updates(),
            crate::parser::views_of(final(self).json_macro_keys@) == if crate::openapi::opt_str_view(*macro_name)
                == Some("json"@) {
                crate::parser::views_of(old(self).json_macro_keys@) + json_macro_keys_spec(tokens@)
            } else {
                crate::parser::views_of(old(self).json_macro_keys@)
            },
    {
        let is_json = match macro_name {
            Some(n) => str_eq(n.as_str(), "json"),
            None => false,
        };
        if is_json {
            let mut fields = parse_json_macro_keys(tokens);
            let ghost k0 = crate::parser::views_of(self.json_macro_keys@);
            let ghost f0 = crate::parser::views_of(fields@);
            self.json_macro_keys.append(&mut fields);
            assert(crate::parser::views_of(self.json_macro_keys@) =~= k0 + f0);
        }
    }

    /// The response content type of the handler: that of the first known
    /// response builder found, else `application/json`.
    pub fn response_content_type(&self) -> (r: &'static str)
        ensures
            r@ == content_type_of_builders(crate::parser::views_of(self.response_builders@)),
    {
        determine_response_content_type(self.response_builders.as_slice())
    }

    /// Applies the scheduled type updates, in order: each sets the type and
    /// format of the first parameter with its name.
    pub fn apply_deferred_type_updates(&mut self)
        ensures
            views(final(self).params@) == apply_updates(views(old(self).params@), old(self).pending_updates()),
            final(self).pending_updates().len() == 0,
            final(self).body_type_name == old(self).body_type_name,
            final(self).response_builders == old(self).response_builders,
            final(self).json_macro_keys == old(self).json_macro_keys,
    {
        let mut updates: Vec<(String, String, Option<String>)> = Vec::new();
        std::mem::swap(&mut updates, &mut self.deferred_type_updates);
        let ghost uv = update_views(updates@);
        let ghost p0 = views(self.params@);
        let mut k: usize = 0;
        assert(uv.take(0) =~= Seq::<TypeUpdateView>::empty());
        while k < updates.len()
            invariant
                k <= updates@.len(),
                uv == update_views(updates@),
                views(self.params@) == apply_updates(p0, uv.take(k as int)),
                self.deferred_type_updates@.len() == 0,
                self.body_type_name == old(self).body_type_name,
                self.response_builders == old(self).response_builders,
                self.json_macro_keys == old(self).json_macro_keys,
            decreases updates@.len() - k,
        {
            assert(uv.take(k + 1).drop_last() =~= uv.take(k as int));
            let (param_name, schema_type, schema_format) = &updates[k];
            apply_type_update(&mut self.params, param_name, schema_type, schema_format);
            k = k + 1;
        }
        assert(uv.take(updates@.len() as int) =~= uv);
        assert(update_views(self.deferred_type_updates@) =~= Seq::<TypeUpdateView>::empty());
    }
}

/// Sets the type and format of the first parameter named `name`.
fn apply_type_update(params: &mut Vec<ParamInfo>, name: &String, schema_type: &String, schema_format: &Option<String>)
    ensures
        views(final(params)@) == apply_update(
            views(old(params)@),
            (name@, schema_type@, crate::openapi::opt_str_view(*schema_format)),
        ),
{
    let ghost before = views(params@);
    proof {
        lemma_first_name(before, name@);
    }
    let mut i: usize = 0;
    let mut found = false;
    while i < params.len()
        invariant
            i <= params@.len(),
            views(params@) == before,
            forall|j: int| 0 <= j < i ==> before[j].0 != name@,
            found ==> i < params@.len() && before[i as int].0 == name@,
        ensures
            found ==> i < params@.len() && before[i as int].0 == name@,
            !found ==> forall|j: int| 0 <= j < params@.len() ==> before[j].0 != name@,
            i <= params@.len(),
            forall|j: int| 0 <= j < i ==> before[j].0 != name@,
        decreases params@.len() - i,
    {
        if str_eq(params[i].name.as_str(), name.as_str()) {
            found = true;
            break;
        }
        i = i + 1;
    }
    if found {
        assert(first_named(before, name@) == i as int);
        let mut p = params[i].clone();
        p.schema_type = schema_type.clone();
        p.schema_format = crate::openapi::clone_opt_string(schema_format);
        params.set(i, p);
        assert(views(params@) =~= before.update(i as int, (before[i as int].0, before[i as int].1, before[i as int].2, schema_type@, crate::openapi::opt_str_view(*schema_format))));
    } else {
        assert(first_named(before, name@) < 0);
    }
}

/// Index of the first parameter named `n`, or -1.
pub open spec fn first_named(ps: Seq<ParamInfoView>, n: Seq<char>) -> int
    decreases ps.len(),
{
    if ps.len() == 0 {
        -1
    } else {
        let r = first_named(ps.drop_last(), n);
        if r >= 0 {
            r
        } else if ps.last().0 == n {
            ps.len() - 1
        } else {
            -1
        }
    }
}

pub proof fn lemma_first_name(ps: Seq<ParamInfoView>, n: Seq<char>)
    ensures
        -1 <= first_named(ps, n) < ps.len(),
        first_named(ps, n) >= 0 ==> ps[first_named(ps, n)].0 == n,
        forall|j: int| 0 <= j < ps.len() && (first_named(ps, n) < 0 || j < first_named(ps, n)) ==> ps[j].0 != n,
    decreases ps.len(),
{
    if ps.len() > 0 {
        lemma_first_name(ps.drop_last(), n);
        assert forall|j: int| 0 <= j < ps.len() - 1 implies ps.drop_last()[j] == ps[j] by {}
    }
}

/// One type update: the first parameter with the update's name gets its type
/// and format; nothing changes when no parameter has that name.
pub open spec fn apply_update(ps: Seq<ParamInfoView>, u: TypeUpdateView) -> Seq<ParamInfoView> {
    let i = first_named(ps, u.0);
    if i >= 0 {
        ps.update(i, (ps[i].0, ps[i].1, ps[i].2, u.1, u.2))
    } else {
        ps
    }
}

/// The type updates applied in order.
pub open spec fn apply_updates(ps: Seq<ParamInfoView>, us: Seq<TypeUpdateView>) -> Seq<ParamInfoView>
    decreases us.len(),
{
    if us.len() == 0 {
        ps
    } else {
        apply_update(apply_updates(ps, us.drop_last()), us.last())
    }
}

/// Type updates change only types and formats: every parameter keeps its
/// name, whether it is a path parameter, and whether it is required.
pub proof fn lemma_updates_keep_flags(ps: Seq<ParamInfoView>, us: Seq<TypeUpdateView>)
    ensures
        apply_updates(ps, us).len() == ps.len(),
        forall|k: int| 0 <= k < ps.len() ==> {
            &&& (#[trigger] apply_updates(ps, us)[k]).0 == ps[k].0
            &&& apply_updates(ps, us)[k].1 == ps[k].1
            &&& apply_updates(ps, us)[k].2 == ps[k].2
        },
    decreases us.len(),
{
    if us.len() > 0 {
        lemma_updates_keep_flags(ps, us.drop_last());
        lemma_first_name(apply_updates(ps, us.drop_last()), us.last().0);
    }
}

} // verus!
