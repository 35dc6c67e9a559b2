//! OpenAPI metadata of handlers, the route registry, and path-parameter
//! completion.

use vstd::prelude::*;
use crate::order::views;
use crate::text::{
    chars_of, ends_with, has_prefix, has_suffix, lit, split_chars, split_spec, starts_with,
    str_to_uppercase, string_from_chars, sub_vec, to_uppercase,
};

verus! {

/// Where a parameter is found.
#[derive(PartialEq, Eq, Structural, Clone, Copy, Debug)]
pub enum ParamLocation {
    Path,
    Query,
}

/// One operation parameter.
pub struct ParamMeta {
    pub name: String,
    pub location: ParamLocation,
    pub required: bool,
    pub schema_type: String,
    pub schema_format: Option<String>,
}

/// A parameter as plain values: name, location, required, type, format.
pub type ParamView = (Seq<char>, ParamLocation, bool, Seq<char>, Option<Seq<char>>);

pub open spec fn opt_str_view(o: Option<String>) -> Option<Seq<char>> {
    match o {
        Some(s) => Some(s@),
        None => None,
    }
}

impl View for ParamMeta {
    type V = ParamView;

    open spec fn view(&self) -> ParamView {
        (self.name@, self.location, self.required, self.schema_type@, opt_str_view(self.schema_format))
    }
}

pub fn clone_opt_string(o: &Option<String>) -> (r: Option<String>)
    ensures
        r == *o,
{
    match o {
        Some(s) => Some(s.clone()),
        None => None,
    }
}

pub fn clone_strings_vec(v: &Vec<String>) -> (r: Vec<String>)
    ensures
        r@ == v@,
{
    let mut r: Vec<String> = Vec::new();
    let mut i: usize = 0;
    while i < v.len()
        invariant
            i <= v.len(),
            r@ == v@.take(i as int),
        decreases v.len() - i,
    {
        r.push(v[i].clone());
        i = i + 1;
        assert(r@ =~= v@.take(i as int));
    }
    assert(v@.take(v.len() as int) =~= v@);
    r
}

impl Clone for ParamMeta {
    fn clone(&self) -> (r: Self)
        ensures
            r == *self,
    {
        ParamMeta {
            name: self.name.clone(),
            location: self.location,
            required: self.required,
            schema_type: self.schema_type.clone(),
            schema_format: clone_opt_string(&self.schema_format),
        }
    }
}

/// The request body of an operation.
pub struct RequestBodyMeta {
    pub content_type: String,
    pub schema_type_name: String,
}

impl Clone for RequestBodyMeta {
    fn clone(&self) -> (r: Self)
        ensures
            r == *self,
    {
        RequestBodyMeta { content_type: self.content_type.clone(), schema_type_name: self.schema_type_name.clone() }
    }
}

/// Metadata of a handler, gathered from its source.
pub struct HandlerMeta {
    pub summary: Option<String>,
    pub description: Option<String>,
    pub tags: Vec<String>,
    pub security: Vec<String>,
    pub parameters: Vec<ParamMeta>,
    pub request_body: Option<RequestBodyMeta>,
    pub response_content_type: String,
    pub response_schema_fields: Vec<String>,
    pub deprecated: bool,
    pub responses: Vec<(String, String)>,
}

pub fn clone_params(v: &Vec<ParamMeta>) -> (r: Vec<ParamMeta>)
    ensures
        r@ == v@,
{
    let mut r: Vec<ParamMeta> = Vec::new();
    let mut i: usize = 0;
    while i < v.len()
        invariant
            i <= v.len(),
            r@ == v@.take(i as int),
        decreases v.len() - i,
    {
        r.push(v[i].clone());
        i = i + 1;
        assert(r@ =~= v@.take(i as int));
    }
    assert(v@.take(v.len() as int) =~= v@);
    r
}

pub fn clone_pairs(v: &Vec<(String, String)>) -> (r: Vec<(String, String)>)
    ensures
        r@ == v@,
{
    let mut r: Vec<(String, String)> = Vec::new();
    let mut i: usize = 0;
    while i < v.len()
        invariant
            i <= v.len(),
            r@ == v@.take(i as int),
        decreases v.len() - i,
    {
        r.push((v[i].0.clone(), v[i].1.clone()));
        i = i + 1;
        assert(r@ =~= v@.take(i as int));
    }
    assert(v@.take(v.len() as int) =~= v@);
    r
}

/// Handler metadata as plain values.
pub struct HandlerMetaView {
    pub summary: Option<Seq<char>>,
    pub description: Option<Seq<char>>,
    pub tags: Seq<Seq<char>>,
    pub security: Seq<Seq<char>>,
    pub parameters: Seq<ParamView>,
    pub request_body: Option<(Seq<char>, Seq<char>)>,
    pub response_content_type: Seq<char>,
    pub response_schema_fields: Seq<Seq<char>>,
    pub deprecated: bool,
    pub responses: Seq<(Seq<char>, Seq<char>)>,
}

pub open spec fn pair_views(v: Seq<(String, String)>) -> Seq<(Seq<char>, Seq<char>)> {
    v.map_values(|p: (String, String)| (p.0@, p.1@))
}

impl View for HandlerMeta {
    type V = HandlerMetaView;

    open spec fn view(&self) -> HandlerMetaView {
        HandlerMetaView {
            summary: opt_str_view(self.summary),
            description: opt_str_view(self.description),
            tags: crate::parser::views_of(self.tags@),
            security: crate::parser::views_of(self.security@),
            parameters: views(self.parameters@),
            request_body: match self.request_body {
                Some(b) => Some((b.content_type@, b.schema_type_name@)),
                None => None,
            },
            response_content_type: self.response_content_type@,
            response_schema_fields: crate::parser::views_of(self.response_schema_fields@),
            deprecated: self.deprecated,
            responses: pair_views(self.responses@),
        }
    }
}

impl Clone for HandlerMeta {
    fn clone(&self) -> (r: Self)
        ensures
            r@ == self@,
    {
        HandlerMeta {
            summary: clone_opt_string(&self.summary),
            description: clone_opt_string(&self.description),
            tags: clone_strings_vec(&self.tags),
            security: clone_strings_vec(&self.security),
            parameters: clone_params(&self.parameters),
            request_body: match &self.request_body {
                Some(b) => Some(b.clone()),
                None => None,
            },
            response_content_type: self.response_content_type.clone(),
            response_schema_fields: clone_strings_vec(&self.response_schema_fields),
            deprecated: self.deprecated,
            responses: clone_pairs(&self.responses),
        }
    }
}

impl HandlerMeta {
    /// Empty metadata: nothing known of the handler.
    pub fn new() -> (r: Self)
        ensures
            r.summary.is_none(),
            r.description.is_none(),
            r.tags@.len() == 0,
            r.security@.len() == 0,
            r.parameters@.len() == 0,
            r.request_body.is_none(),
            r.response_content_type@.len() == 0,
            r.response_schema_fields@.len() == 0,
            !r.deprecated,
            r.responses@.len() == 0,
    {
        HandlerMeta {
            summary: None,
            description: None,
            tags: Vec::new(),
            security: Vec::new(),
            parameters: Vec::new(),
            request_body: None,
            response_content_type: String::new(),
            response_schema_fields: Vec::new(),
            deprecated: false,
            responses: Vec::new(),
        }
    }
}

/// A registered operation.
pub struct RouteEntry {
    pub method: String,
    pub path: String,
    pub operation_id: String,
    pub handler_meta: HandlerMeta,
}

/// A registered operation as plain values.
pub struct RouteEntryView {
    pub method: Seq<char>,
    pub path: Seq<char>,
    pub operation_id: Seq<char>,
    pub handler_meta: HandlerMetaView,
}

impl View for RouteEntry {
    type V = RouteEntryView;

    open spec fn view(&self) -> RouteEntryView {
        RouteEntryView {
            method: self.method@,
            path: self.path@,
            operation_id: self.operation_id@,
            handler_meta: self.handler_meta@,
        }
    }
}

impl Clone for RouteEntry {
    fn clone(&self) -> (r: Self)
        ensures
            r@ == self@,
    {
        RouteEntry {
            method: self.method.clone(),
            path: self.path.clone(),
            operation_id: self.operation_id.clone(),
            handler_meta: self.handler_meta.clone(),
        }
    }
}

/// Whether a path segment is a parameter placeholder `{...}`.
pub open spec fn is_placeholder(seg: Seq<char>) -> bool {
    has_prefix(seg, seq!['{']) && has_suffix(seg, seq!['}'])
}

/// Parameter name of a placeholder: the text between the braces, without a
/// leading `*` (catch-all).
pub open spec fn placeholder_name(seg: Seq<char>) -> Seq<char> {
    let inner = seg.subrange(1, seg.len() - 1);
    if has_prefix(inner, seq!['*']) {
        inner.skip(1)
    } else {
        inner
    }
}

/// Parameter names of the placeholders among `segs`, in order.
pub open spec fn placeholder_names(segs: Seq<Seq<char>>) -> Seq<Seq<char>>
    decreases segs.len(),
{
    if segs.len() == 0 {
        Seq::empty()
    } else if is_placeholder(segs.last()) {
        placeholder_names(segs.drop_last()).push(placeholder_name(segs.last()))
    } else {
        placeholder_names(segs.drop_last())
    }
}

/// Parameter names of an OpenAPI path such as `/users/{id}/files/{*rest}`.
pub open spec fn path_param_names(path: Seq<char>) -> Seq<Seq<char>> {
    placeholder_names(split_spec(path, '/'))
}

/// Extracts the parameter names from the placeholders of a path, in order.
pub fn extract_path_param_names(path: &str) -> (r: Vec<String>)
    ensures
        crate::parser::views_of(r@) == path_param_names(path@),
{
    let segs = split_chars(&chars_of(path), '/');
    let ghost sv = segs@.map_values(|v: Vec<char>| v@);
    let mut r: Vec<String> = Vec::new();
    let mut i: usize = 0;
    let open = vec!['{'];
    let close = vec!['}'];
    let star = vec!['*'];
    assert(open@ =~= seq!['{']);
    assert(close@ =~= seq!['}']);
    assert(star@ =~= seq!['*']);
    assert(sv.take(0) =~= Seq::<Seq<char>>::empty());
    while i < segs.len()
        invariant
            i <= segs.len(),
            sv == segs@.map_values(|v: Vec<char>| v@),
            open@ == seq!['{'],
            close@ == seq!['}'],
            star@ == seq!['*'],
            crate::parser::views_of(r@) == placeholder_names(sv.take(i as int)),
        decreases segs.len() - i,
    {
        let s = &segs[i];
        assert(sv.take(i + 1).drop_last() =~= sv.take(i as int));
        assert(sv.take(i + 1).last() == s@);
        if starts_with(s, &open) && ends_with(s, &close) {
            assert(s@.len() >= 2) by {
                if s@.len() == 1 {
                    assert(s@.subrange(0, 1)[0] == '{');
                    assert(s@.subrange(0, 1)[0] == '}');
                }
            }
            let inner = sub_vec(s, 1, s.len() - 1);
            let name = if starts_with(&inner, &star) {
                sub_vec(&inner, 1, inner.len())
            } else {
                inner
            };
            let ghost old_r = r@;
            r.push(string_from_chars(name.as_slice()));
            assert(crate::parser::views_of(r@) =~= crate::parser::views_of(old_r).push(name@));
        }
        i = i + 1;
    }
    assert(sv.take(segs.len() as int) =~= sv);
    r
}

/// Names of the path parameters already declared in `params`.
pub open spec fn declared_path_names(params: Seq<ParamView>) -> Set<Seq<char>> {
    Set::new(|n: Seq<char>| exists|i: int| 0 <= i < params.len() && params[i].1 == ParamLocation::Path && params[i].0 == n)
}

/// Placeholder names not yet declared, each as a required string path parameter.
pub open spec fn missing_path_params(names: Seq<Seq<char>>, declared: Set<Seq<char>>) -> Seq<ParamView>
    decreases names.len(),
{
    if names.len() == 0 {
        Seq::empty()
    } else {
        let prev = missing_path_params(names.drop_last(), declared);
        if declared.contains(names.last()) {
            prev
        } else {
            prev.push((names.last(), ParamLocation::Path, true, "string"@, None))
        }
    }
}

/// A parameter with `required` forced on for path parameters.
pub open spec fn force_required(p: ParamView) -> ParamView {
    if p.1 == ParamLocation::Path {
        (p.0, p.1, true, p.3, p.4)
    } else {
        p
    }
}

/// The parameters that `register` stores: the handler's own, then a required
/// string parameter for every placeholder of the path that the handler does
/// not declare; every path parameter is required.
pub open spec fn completed_params(params: Seq<ParamView>, path: Seq<char>) -> Seq<ParamView> {
    (params + missing_path_params(path_param_names(path), declared_path_names(params))).map_values(
        |p: ParamView| force_required(p),
    )
}

proof fn lemma_missing_cover(names: Seq<Seq<char>>, declared: Set<Seq<char>>)
    ensures
        forall|j: int| 0 <= j < missing_path_params(names, declared).len() ==> {
            let p = #[trigger] missing_path_params(names, declared)[j];
            p.1 == ParamLocation::Path && p.2
        },
        forall|i: int| 0 <= i < names.len() && !declared.contains(#[trigger] names[i]) ==>
            exists|j: int| 0 <= j < missing_path_params(names, declared).len()
                && (#[trigger] missing_path_params(names, declared)[j]).0 == names[i],
    decreases names.len(),
{
    if names.len() > 0 {
        let prev = missing_path_params(names.drop_last(), declared);
        lemma_missing_cover(names.drop_last(), declared);
        assert forall|i: int| 0 <= i < names.len() && !declared.contains(#[trigger] names[i]) implies
            exists|j: int| 0 <= j < missing_path_params(names, declared).len()
                && (#[trigger] missing_path_params(names, declared)[j]).0 == names[i] by {
            let m = missing_path_params(names, declared);
            if i < names.len() - 1 {
                assert(names.drop_last()[i] == names[i]);
                let j = choose|j: int| 0 <= j < prev.len() && (#[trigger] prev[j]).0 == names.drop_last()[i];
                assert(m[j] == prev[j]);
            } else {
                assert(m[m.len() - 1].0 == names[i]);
            }
        }
    }
}

/// Once an operation is registered, every placeholder of its path is
/// documented as a required path parameter, every path parameter is
/// required, and the handler's own parameters come first, in order.
pub proof fn lemma_registered_path_params(params: Seq<ParamView>, path: Seq<char>)
    ensures
        completed_params(params, path).len() >= params.len(),
        forall|i: int| 0 <= i < params.len() ==>
            #[trigger] completed_params(params, path)[i] == force_required(params[i]),
        forall|j: int| 0 <= j < completed_params(params, path).len()
            && (#[trigger] completed_params(params, path)[j]).1 == ParamLocation::Path ==>
            completed_params(params, path)[j].2,
        forall|k: int| 0 <= k < path_param_names(path).len() ==>
            exists|j: int| 0 <= j < completed_params(params, path).len() && {
                let p = #[trigger] completed_params(params, path)[j];
                p.0 == #[trigger] path_param_names(path)[k] && p.1 == ParamLocation::Path && p.2
            },
{
    let names = path_param_names(path);
    let declared = declared_path_names(params);
    let missing = missing_path_params(names, declared);
    let all = params + missing;
    let c = completed_params(params, path);
    lemma_missing_cover(names, declared);
    assert(c.len() == all.len());
    assert forall|k: int| 0 <= k < names.len() implies
        exists|j: int| 0 <= j < c.len() && {
            let p = #[trigger] c[j];
            p.0 == #[trigger] names[k] && p.1 == ParamLocation::Path && p.2
        } by {
        if declared.contains(names[k]) {
            let i = choose|i: int| 0 <= i < params.len() && params[i].1 == ParamLocation::Path && params[i].0 == names[k];
            assert(c[i] == force_required(all[i]));
            assert(all[i] == params[i]);
        } else {
            let j = choose|j: int| 0 <= j < missing.len() && (#[trigger] missing[j]).0 == names[k];
            assert(all[params.len() + j] == missing[j]);
            assert(c[params.len() + j] == force_required(all[params.len() + j]));
        }
    }
    assert forall|i: int| 0 <= i < params.len() implies #[trigger] c[i] == force_required(params[i]) by {
        assert(all[i] == params[i]);
    }
}

fn is_declared(params: &Vec<ParamMeta>, name: &String) -> (r: bool)
    ensures
        r == declared_path_names(views(params@)).contains(name@),
{
    let mut i: usize = 0;
    while i < params.len()
        invariant
            i <= params.len(),
            forall|k: int| 0 <= k < i ==> !(params@[k].location == ParamLocation::Path && params@[k].name@ == name@),
        decreases params.len() - i,
    {
        if params[i].location == ParamLocation::Path && crate::text::str_eq(params[i].name.as_str(), name.as_str()) {
            assert(views(params@)[i as int].0 == name@);
            return true;
        }
        i = i + 1;
    }
    false
}

/// Registers an operation in `registry`: the method is upper-cased, every
/// placeholder of the path that the handler does not declare is added as a
/// required string path parameter, and every path parameter is made required.
pub fn register(
    registry: &mut Vec<RouteEntry>,
    method: &str,
    path: &str,
    operation_id: &str,
    handler_meta: HandlerMeta,
)
    ensures
        final(registry)@.len() == old(registry)@.len() + 1,
        final(registry)@.take(old(registry)@.len() as int) == old(registry)@,
        final(registry)@.last()@ == (RouteEntryView {
            method: str_to_uppercase(method@),
            path: path@,
            operation_id: operation_id@,
            handler_meta: HandlerMetaView {
                parameters: completed_params(handler_meta@.parameters, path@),
                ..handler_meta@
            },
        }),
{
    let ghost meta_in = handler_meta@;
    let HandlerMeta {
        summary,
        description,
        tags,
        security,
        parameters,
        request_body,
        response_content_type,
        response_schema_fields,
        deprecated,
        responses,
    } = handler_meta;
    let mut parameters = parameters;
    let names = extract_path_param_names(path);
    let ghost orig = views(parameters@);
    let ghost declared = declared_path_names(orig);
    let ghost nv = crate::parser::views_of(names@);
    let own_params = clone_params(&parameters);
    let mut i: usize = 0;
    assert(nv.take(0) =~= Seq::<Seq<char>>::empty());
    assert(views(parameters@) =~= orig + missing_path_params(nv.take(0), declared));
    while i < names.len()
        invariant
            i <= names.len(),
            nv == crate::parser::views_of(names@),
            views(own_params@) == orig,
            declared == declared_path_names(orig),
            views(parameters@) == orig + missing_path_params(nv.take(i as int), declared),
        decreases names.len() - i,
    {
        assert(nv.take(i + 1).drop_last() =~= nv.take(i as int));
        assert(nv.take(i + 1).last() == names@[i as int]@);
        if !is_declared(&own_params, &names[i]) {
            let ghost before = views(parameters@);
            parameters.push(ParamMeta {
                name: names[i].clone(),
                location: ParamLocation::Path,
                required: true,
                schema_type: lit("string"),
                schema_format: None,
            });
            assert(views(parameters@) =~= before.push(
                (names@[i as int]@, ParamLocation::Path, true, "string"@, None),
            ));
        }
        i = i + 1;
    }
    assert(nv.take(names.len() as int) =~= nv);
    let ghost full = views(parameters@);
    let mut k: usize = 0;
    let mut out: Vec<ParamMeta> = Vec::new();
    while k < parameters.len()
        invariant
            k <= parameters@.len(),
            views(parameters@) == full,
            out@.len() == k,
            forall|j: int| 0 <= j < k ==> (#[trigger] out@[j])@ == force_required(full[j]),
        decreases parameters@.len() - k,
    {
        let mut p = parameters[k].clone();
        if p.location == ParamLocation::Path {
            p.required = true;
        }
        out.push(p);
        k = k + 1;
    }
    assert(views(out@) =~= full.map_values(|p: ParamView| force_required(p)));
    let handler_meta = HandlerMeta {
        summary,
        description,
        tags,
        security,
        parameters: out,
        request_body,
        response_content_type,
        response_schema_fields,
        deprecated,
        responses,
    };
    let entry = RouteEntry {
        method: to_uppercase(method),
        path: lit(path),
        operation_id: lit(operation_id),
        handler_meta,
    };
    let ghost old_reg = registry@;
    registry.push(entry);
    assert(registry@.take(old_reg.len() as int) =~= old_reg);
}

/// A copy of all registered operations, in registration order.
pub fn get_entries(registry: &Vec<RouteEntry>) -> (r: Vec<RouteEntry>)
    ensures
        views(r@) == views(registry@),
{
    let mut r: Vec<RouteEntry> = Vec::new();
    let mut i: usize = 0;
    while i < registry.len()
        invariant
            i <= registry.len(),
            r@.len() == i,
            forall|k: int| 0 <= k < i ==> (#[trigger] r@[k])@ == registry@[k]@,
        decreases registry.len() - i,
    {
        r.push(registry[i].clone());
        i = i + 1;
    }
    assert(views(r@) =~= views(registry@));
    r
}

} // verus!
