//! Route files: from a file name and its directory to an HTTP method, an
//! Axum route path and a module name.

use vstd::prelude::*;
use crate::text::{
    chars_of, ends_with, has_prefix, has_suffix, join_chars, join_spec, rfind_char, rfind_spec,
    split_chars, split_spec, starts_with, str_to_uppercase, string_from_chars, sub_vec, to_uppercase,
    trim, trim_spec, lemma_rfind, chars_eq,
};
use crate::utils::{is_tidy_ident, sanitize_ident, sanitize_ident_part, sanitize_ident_part_spec, sanitize_ident_spec};

verus! {

/// A route found while scanning the routes directory.
pub struct ScannedRoute {
    /// HTTP method (`GET`, `POST`, ...) or route type (`WS`, `SSE`, `ANY`).
    pub method: String,
    /// Axum route path, such as `/users/{id}`.
    pub axum_path: String,
    /// Path of the source file.
    pub file_path: String,
    /// Generated module name.
    pub module_name: String,
}

/// A route as plain values: method, Axum path, file path, module name.
pub type RouteView = (Seq<char>, Seq<char>, Seq<char>, Seq<char>);

impl View for ScannedRoute {
    type V = RouteView;

    open spec fn view(&self) -> RouteView {
        (self.method@, self.axum_path@, self.file_path@, self.module_name@)
    }
}

impl Clone for ScannedRoute {
    fn clone(&self) -> (r: Self)
        ensures
            r == *self,
    {
        ScannedRoute {
            method: self.method.clone(),
            axum_path: self.axum_path.clone(),
            file_path: self.file_path.clone(),
            module_name: self.module_name.clone(),
        }
    }
}

pub open spec fn route_attr_open() -> Seq<char> {
    seq!['#', '[', 'r', 'o', 'u', 't', 'e', '(']
}

pub open spec fn route_attr_close() -> Seq<char> {
    seq![')', ']']
}

pub open spec fn ws_seq() -> Seq<char> {
    seq!['W', 'S']
}

pub open spec fn sse_seq() -> Seq<char> {
    seq!['S', 'S', 'E']
}

pub open spec fn any_seq() -> Seq<char> {
    seq!['A', 'N', 'Y']
}

/// The route type a single source line declares: `#[route(ws)]` gives `WS`,
/// `#[route(sse)]` gives `SSE` (spaces allowed around the line and the
/// argument), anything else declares nothing.
pub open spec fn line_route_type(line: Seq<char>) -> Option<Seq<char>> {
    let t = trim_spec(line);
    if has_prefix(t, route_attr_open()) {
        let rest = t.skip(8);
        if has_suffix(rest, route_attr_close()) {
            let arg = trim_spec(rest.take(rest.len() - 2));
            if arg == seq!['w', 's'] {
                Some(ws_seq())
            } else if arg == seq!['s', 's', 'e'] {
                Some(sse_seq())
            } else {
                None
            }
        } else {
            None
        }
    } else {
        None
    }
}

/// The route type declared by the first line that declares one, else `ANY`.
pub open spec fn route_type_in_lines(lines: Seq<Seq<char>>) -> Seq<char>
    decreases lines.len(),
{
    if lines.len() == 0 {
        any_seq()
    } else {
        match line_route_type(lines[0]) {
            Some(k) => k,
            None => route_type_in_lines(lines.drop_first()),
        }
    }
}

/// Route type of a method-less route file, from its content (`None` when the
/// file cannot be read).
pub open spec fn detect_route_type_spec(content: Option<Seq<char>>) -> Seq<char> {
    match content {
        None => any_seq(),
        Some(c) => route_type_in_lines(split_spec(c, '\n')),
    }
}

fn line_route_type_exec(line: &Vec<char>) -> (r: Option<String>)
    ensures
        match line_route_type(line@) {
            Some(k) => r.is_some() && r.unwrap()@ == k,
            None => r.is_none(),
        },
{
    let t = trim(line);
    let open = vec!['#', '[', 'r', 'o', 'u', 't', 'e', '('];
    assert(open@ == route_attr_open());
    if !starts_with(&t, &open) {
        return None;
    }
    let rest = sub_vec(&t, 8, t.len());
    assert(rest@ == t@.skip(8));
    let close = vec![')', ']'];
    assert(close@ == route_attr_close());
    if !ends_with(&rest, &close) {
        return None;
    }
    let inner = sub_vec(&rest, 0, rest.len() - 2);
    assert(inner@ == rest@.take(rest@.len() - 2));
    let arg = trim(&inner);
    let ws = vec!['w', 's'];
    let sse = vec!['s', 's', 'e'];
    if chars_eq(&arg, &ws) {
        let k = vec!['W', 'S'];
        assert(k@ == ws_seq());
        Some(string_from_chars(k.as_slice()))
    } else if chars_eq(&arg, &sse) {
        let k = vec!['S', 'S', 'E'];
        assert(k@ == sse_seq());
        Some(string_from_chars(k.as_slice()))
    } else {
        None
    }
}

/// Detects the route type of a method-less route file from its content:
/// `WS` for a `#[route(ws)]` line, `SSE` for `#[route(sse)]`, else `ANY`
/// (also when the content could not be read, given as `None`).
pub fn detect_route_type(content: Option<&str>) -> (r: String)
    ensures
        r@ == detect_route_type_spec(opt_view(content)),
{
    let any = vec!['A', 'N', 'Y'];
    assert(any@ == any_seq());
    match content {
        None => string_from_chars(any.as_slice()),
        Some(c) => {
            let cs = chars_of(c);
            let lines = split_chars(&cs, '\n');
            let ghost views = lines@.map_values(|v: Vec<char>| v@);
            let mut i: usize = 0;
            assert(views.skip(0) =~= views);
            while i < lines.len()
                invariant
                    i <= lines.len(),
                    views == lines@.map_values(|v: Vec<char>| v@),
                    views == split_spec(c@, '\n'),
                    opt_view(content) == Some(c@),
                    route_type_in_lines(views) == route_type_in_lines(views.skip(i as int)),
                decreases lines.len() - i,
            {
                assert(views.skip(i as int)[0] == lines@[i as int]@);
                assert(views.skip(i as int).drop_first() =~= views.skip(i + 1));
                let ghost rest = views.skip(i as int);
                assert(rest.len() > 0);
                if let Some(k) = line_route_type_exec(&lines[i]) {
                    assert(line_route_type(rest[0]) == Some(k@));
                    assert(route_type_in_lines(rest) == k@);
                    assert(route_type_in_lines(views) == k@);
                    assert(opt_view(content) == Some(c@));
                    assert(k@ == detect_route_type_spec(opt_view(content)));
                    return k;
                }
                i = i + 1;
            }
            string_from_chars(any.as_slice())
        },
    }
}

/// Splits a file name without `.rs` at its last dot: the route name, and the
/// method part if there is one. A dot inside the name's brackets (one that a
/// `]` follows, as in `[...slug]`) is part of the name, not a method separator.
pub open spec fn split_route_name(n: Seq<char>) -> (Seq<char>, Option<Seq<char>>) {
    let p = rfind_spec(n, '.');
    if p >= 0 && !n.skip(p + 1).contains(']') {
        (n.take(p), Some(n.skip(p + 1)))
    } else {
        (n, None)
    }
}

pub open spec fn index_seq() -> Seq<char> {
    seq!['i', 'n', 'd', 'e', 'x']
}

pub open spec fn rs_seq() -> Seq<char> {
    seq!['.', 'r', 's']
}

pub open spec fn catch_all_open() -> Seq<char> {
    seq!['[', '.', '.', '.']
}

/// One route-path segment in Axum 0.8 syntax: `[...p]` becomes `{*p}`, `[p]`
/// becomes `{p}`, other segments stay as they are.
pub open spec fn segment_to_axum(seg: Seq<char>) -> Seq<char> {
    if has_prefix(seg, catch_all_open()) && has_suffix(seg, seq![']']) {
        seq!['{', '*'] + seg.subrange(4, seg.len() - 1) + seq!['}']
    } else if has_prefix(seg, seq!['[']) && has_suffix(seg, seq![']']) {
        seq!['{'] + seg.subrange(1, seg.len() - 1) + seq!['}']
    } else {
        seg
    }
}

/// Axum route path for a list of segments: `/` when there are none, else the
/// converted segments joined by `/` after a leading `/`.
pub open spec fn axum_path_spec(route_path: Seq<Seq<char>>) -> Seq<char> {
    if route_path.len() == 0 {
        seq!['/']
    } else {
        seq!['/'] + join_spec(route_path.map_values(|s: Seq<char>| segment_to_axum(s)), seq!['/'])
    }
}

/// Segments of a route: the directory components, then the route name unless
/// it is `index`.
pub open spec fn route_path_spec(components: Seq<Seq<char>>, route_name: Seq<char>) -> Seq<Seq<char>> {
    if route_name == index_seq() {
        components
    } else {
        components.push(route_name)
    }
}

pub open spec fn root_route_seq() -> Seq<char> {
    seq!['r', 'o', 'o', 't', '_', 'r', 'o', 'u', 't', 'e']
}

/// Module name of a route: the sanitized components and file stem joined by
/// `_`, sanitized as a whole, or `root_route` when nothing is left.
pub open spec fn module_name_spec(components: Seq<Seq<char>>, stem: Seq<char>) -> Seq<char> {
    let raw = join_spec(
        components.map_values(|s: Seq<char>| sanitize_ident_part_spec(s)).push(sanitize_ident_part_spec(stem)),
        seq!['_'],
    );
    let s = sanitize_ident_spec(raw);
    if s.len() == 0 {
        root_route_seq()
    } else {
        s
    }
}

/// Method of a route: the upper-cased method part of the file name, or the
/// route type found in the file content for a method-less file.
pub open spec fn route_method_spec(method_part: Option<Seq<char>>, content: Option<Seq<char>>) -> Seq<char> {
    match method_part {
        Some(m) => str_to_uppercase(m),
        None => detect_route_type_spec(content),
    }
}

pub open spec fn views_of(v: Seq<String>) -> Seq<Seq<char>> {
    v.map_values(|s: String| s@)
}

pub open spec fn opt_view(o: Option<&str>) -> Option<Seq<char>> {
    match o {
        Some(c) => Some(c@),
        None => None,
    }
}

fn segment_to_axum_exec(seg: &Vec<char>) -> (r: Vec<char>)
    ensures
        r@ == segment_to_axum(seg@),
{
    let ca = vec!['[', '.', '.', '.'];
    let open = vec!['['];
    let close = vec![']'];
    assert(ca@ == catch_all_open());
    assert(open@ == seq!['[']);
    assert(close@ == seq![']']);
    if starts_with(seg, &ca) && ends_with(seg, &close) {
        let mut r = vec!['{', '*'];
        let inner = sub_vec(seg, 4, seg.len() - 1);
        crate::text::append_chars(&mut r, &inner);
        r.push('}');
        assert(r@ =~= seq!['{', '*'] + seg@.subrange(4, seg@.len() - 1) + seq!['}']);
        r
    } else if starts_with(seg, &open) && ends_with(seg, &close) {
        let mut r = vec!['{'];
        let inner = sub_vec(seg, 1, seg.len() - 1);
        crate::text::append_chars(&mut r, &inner);
        r.push('}');
        assert(r@ =~= seq!['{'] + seg@.subrange(1, seg@.len() - 1) + seq!['}']);
        r
    } else {
        seg.clone()
    }
}

/// Builds the Axum route path from its segments.
pub fn build_axum_path(route_path: &Vec<Vec<char>>) -> (r: Vec<char>)
    ensures
        r@ == axum_path_spec(route_path@.map_values(|v: Vec<char>| v@)),
{
    if route_path.len() == 0 {
        let r = vec!['/'];
        assert(r@ =~= seq!['/']);
        return r;
    }
    let mut segs: Vec<Vec<char>> = Vec::new();
    let mut i: usize = 0;
    while i < route_path.len()
        invariant
            i <= route_path.len(),
            segs@.len() == i,
            forall|k: int| 0 <= k < i ==> (#[trigger] segs@[k])@ == segment_to_axum(route_path@[k]@),
        decreases route_path.len() - i,
    {
        let s = segment_to_axum_exec(&route_path[i]);
        segs.push(s);
        i = i + 1;
    }
    assert(segs@.map_values(|v: Vec<char>| v@) =~= route_path@.map_values(|v: Vec<char>| v@).map_values(
        |s: Seq<char>| segment_to_axum(s),
    ));
    let sep = vec!['/'];
    let joined = join_chars(&segs, &sep);
    let mut r = vec!['/'];
    assert(sep@ =~= seq!['/']);
    assert(r@ =~= seq!['/']);
    crate::text::append_chars(&mut r, &joined);
    r
}

/// The route that a file yields: `None` unless its name ends in `.rs`, else
/// its method, Axum path, file path and module name as the functions above
/// define them.
pub open spec fn parse_route_spec(
    file_path: Seq<char>,
    file_name: Seq<char>,
    components: Seq<Seq<char>>,
    content: Option<Seq<char>>,
) -> Option<RouteView> {
    if !has_suffix(file_name, rs_seq()) {
        None
    } else {
        let stem = file_name.take(file_name.len() - 3);
        let (route_name, method_part) = split_route_name(stem);
        Some(
            (
                route_method_spec(method_part, content),
                axum_path_spec(route_path_spec(components, route_name)),
                file_path,
                module_name_spec(components, stem),
            ),
        )
    }
}

/// Parses a route file name in its directory into a route.
///
/// - `index.get.rs` gives method `GET` and the directory's own path;
/// - `name.get.rs` gives method `GET` and path `.../name`;
/// - `name.rs` and `index.rs` take their method (`WS`, `SSE` or `ANY`) from the
///   file content, given in `content` (`None` when it cannot be read); a dot
///   inside brackets belongs to the name, so `[...slug].rs` is method-less;
/// - `[id]` segments become `{id}`, `[...rest]` segments become `{*rest}`.
///
/// Returns `None` exactly when the file name does not end in `.rs`.
pub fn parse_route_file(
    file_path: &str,
    file_name: &str,
    path_components: &[String],
    content: Option<&str>,
) -> (r: Option<ScannedRoute>)
    ensures
        match r {
            Some(route) => parse_route_spec(file_path@, file_name@, views_of(path_components@), opt_view(content))
                == Some(route@),
            None => parse_route_spec(file_path@, file_name@, views_of(path_components@), opt_view(content))
                is None,
        },
        r.is_none() <==> !has_suffix(file_name@, rs_seq()),
        r.is_some() ==> ({
            let stem = file_name@.take(file_name@.len() - 3);
            let (route_name, method_part) = split_route_name(stem);
            let route = r.unwrap();
            &&& route.method@ == route_method_spec(method_part, opt_view(content))
            &&& route.axum_path@ == axum_path_spec(route_path_spec(views_of(path_components@), route_name))
            &&& route.file_path@ == file_path@
            &&& route.module_name@ == module_name_spec(views_of(path_components@), stem)
            &&& (route.module_name@ == root_route_seq() || is_tidy_ident(route.module_name@))
            &&& route.module_name@.len() > 0
        }),
{
    let name = chars_of(file_name);
    let rs = vec!['.', 'r', 's'];
    assert(rs@ == rs_seq());
    if !ends_with(&name, &rs) {
        return None;
    }
    let stem = sub_vec(&name, 0, name.len() - 3);
    assert(stem@ == file_name@.take(file_name@.len() - 3));
    let ghost split = split_route_name(stem@);
    proof { lemma_rfind(stem@, '.'); }
    let (route_name, method_part): (Vec<char>, Option<Vec<char>>) = match rfind_char(&stem, '.') {
        Some(pos) => {
            let after = sub_vec(&stem, pos + 1, stem.len());
            assert(after@ =~= stem@.skip(pos + 1));
            if crate::text::contains_char(&after, ']') {
                (stem.clone(), None)
            } else {
                (sub_vec(&stem, 0, pos), Some(after))
            }
        },
        None => (stem.clone(), None),
    };
    assert(route_name@ == split.0);
    assert(match method_part { Some(m) => split.1 == Some(m@), None => split.1.is_none() });
    let index = vec!['i', 'n', 'd', 'e', 'x'];
    assert(index@ == index_seq());
    let is_index = chars_eq(&route_name, &index);

    let method = match method_part {
        Some(m) => {
            let ms = string_from_chars(m.as_slice());
            to_uppercase(ms.as_str())
        },
        None => detect_route_type(content),
    };

    // Route segments
    let mut route_path = crate::text::strings_to_chars(path_components);
    if !is_index {
        route_path.push(route_name.clone());
        assert(route_path@.map_values(|v: Vec<char>| v@) =~= route_path_spec(views_of(path_components@), split.0));
    }
    let axum_path = build_axum_path(&route_path);

    // Module name
    let mut parts: Vec<Vec<char>> = Vec::new();
    let mut j: usize = 0;
    while j < path_components.len()
        invariant
            j <= path_components.len(),
            parts@.len() == j,
            forall|k: int| 0 <= k < j ==> (#[trigger] parts@[k])@ == sanitize_ident_part_spec(path_components@[k]@),
        decreases path_components.len() - j,
    {
        let part = sanitize_ident_part(path_components[j].as_str());
        parts.push(chars_of(part.as_str()));
        j = j + 1;
    }
    let stem_str = string_from_chars(stem.as_slice());
    let last = sanitize_ident_part(stem_str.as_str());
    parts.push(chars_of(last.as_str()));
    assert(parts@.map_values(|v: Vec<char>| v@) =~= views_of(path_components@).map_values(
        |s: Seq<char>| sanitize_ident_part_spec(s),
    ).push(sanitize_ident_part_spec(stem@)));
    let underscore = vec!['_'];
    assert(underscore@ =~= seq!['_']);
    let raw = join_chars(&parts, &underscore);
    let raw_str = string_from_chars(raw.as_slice());
    let sanitized = sanitize_ident(raw_str.as_str());
    assert(raw@ == join_spec(
        views_of(path_components@).map_values(|s: Seq<char>| sanitize_ident_part_spec(s)).push(sanitize_ident_part_spec(stem@)),
        seq!['_'],
    ));
    assert(sanitized@ == sanitize_ident_spec(raw@));
    let module_name = if sanitized.as_str().unicode_len() == 0 {
        let rr = vec!['r', 'o', 'o', 't', '_', 'r', 'o', 'u', 't', 'e'];
        assert(rr@ == root_route_seq());
        string_from_chars(rr.as_slice())
    } else {
        sanitized
    };

    Some(ScannedRoute {
        method,
        axum_path: string_from_chars(axum_path.as_slice()),
        file_path: string_from_chars(chars_of(file_path).as_slice()),
        module_name,
    })
}

/// Lines that hold no `#[route(` attribute do not decide the route type.
proof fn lemma_route_type_skip(lines: Seq<Seq<char>>, k: int)
    requires
        0 <= k <= lines.len(),
        forall|m: int| 0 <= m < k ==> !has_prefix(#[trigger] trim_spec(lines[m]), route_attr_open()),
    ensures
        route_type_in_lines(lines) == route_type_in_lines(lines.skip(k)),
    decreases k,
{
    if k > 0 {
        lemma_route_type_skip(lines, k - 1);
        let r = lines.skip(k - 1);
        assert(r[0] == lines[k - 1]);
        assert(!has_prefix(trim_spec(lines[k - 1]), route_attr_open()));
        assert(line_route_type(r[0]).is_none());
        assert(r.drop_first() =~= lines.skip(k));
    } else {
        assert(lines.skip(0) =~= lines);
    }
}

/// The route type of a method-less route file is declared by the first line
/// of its content that holds a `#[route(` attribute: `#[route(ws)]` gives
/// `WS` and `#[route(sse)]` gives `SSE`, with spaces allowed around the line
/// and the argument.
pub proof fn law_detect_declared_route_type(c: Seq<char>, i: int, arg: Seq<char>)
    requires
        0 <= i < split_spec(c, '\n').len(),
        forall|m: int| 0 <= m < i ==> !has_prefix(#[trigger] trim_spec(split_spec(c, '\n')[m]), "#[route("@),
        trim_spec(split_spec(c, '\n')[i]) == "#[route("@ + arg + ")]"@,
    ensures
        trim_spec(arg) == "ws"@ ==> detect_route_type_spec(Some(c)) == "WS"@,
        trim_spec(arg) == "sse"@ ==> detect_route_type_spec(Some(c)) == "SSE"@,
{
    reveal_strlit("#[route(");
    reveal_strlit(")]");
    reveal_strlit("ws");
    reveal_strlit("sse");
    reveal_strlit("WS");
    reveal_strlit("SSE");
    let lines = split_spec(c, '\n');
    assert("#[route("@ =~= route_attr_open());
    lemma_route_type_skip(lines, i);
    let t = trim_spec(lines[i]);
    assert(lines.skip(i)[0] == lines[i]);
    assert(t.subrange(0, 8) =~= route_attr_open());
    let rest = t.skip(8);
    assert(rest =~= arg + ")]"@);
    assert(rest.subrange(rest.len() - 2, rest.len() as int) =~= route_attr_close());
    assert(rest.take(rest.len() - 2) =~= arg);
    assert("ws"@ =~= seq!['w', 's']);
    assert("sse"@ =~= seq!['s', 's', 'e']);
    assert("WS"@ =~= ws_seq());
    assert("SSE"@ =~= sse_seq());
}

/// A route file whose name has no dot before `.rs` is method-less: its
/// method is the route type that its content declares.
pub proof fn law_method_less_route(file_path: Seq<char>, file_name: Seq<char>, components: Seq<Seq<char>>, content: Option<Seq<char>>)
    requires
        has_suffix(file_name, ".rs"@),
        !file_name.take(file_name.len() - 3).contains('.'),
    ensures
        parse_route_spec(file_path, file_name, components, content).is_some(),
        parse_route_spec(file_path, file_name, components, content).unwrap().0 == detect_route_type_spec(content),
        parse_route_spec(file_path, file_name, components, content).unwrap().2 == file_path,
{
    reveal_strlit(".rs");
    assert(".rs"@ =~= rs_seq());
    let stem = file_name.take(file_name.len() - 3);
    lemma_rfind(stem, '.');
    if rfind_spec(stem, '.') >= 0 {
        assert(stem.contains('.'));
    }
}

} // verus!
