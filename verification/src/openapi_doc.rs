//! Building the OpenAPI 3.0 document from the registered operations.

use vstd::prelude::*;
use crate::json::{
    find_key, json_view, jstring, key_index, lemma_array_view, lemma_key_index, lemma_member_obj_set, lemma_object_view, member,
    members_view, obj_insert, obj_insert_if_absent, obj_set, obj_set_if_absent, Json, JsonValue,
};
use crate::openapi::{HandlerMeta, HandlerMetaView, ParamLocation, ParamMeta, ParamView, RouteEntry, RouteEntryView};
use crate::order::views;
use crate::text::{chars_of, concat, lit, str_eq, str_to_lowercase, string_from_chars, to_lowercase};

verus! {

pub open spec fn jstr(s: Seq<char>) -> Json {
    Json::Str(s)
}

pub open spec fn jobj(ms: Seq<(Seq<char>, Json)>) -> Json {
    Json::Object(ms)
}

pub open spec fn empty_obj() -> Json {
    Json::Object(Seq::empty())
}

/// The `properties` object of a response schema: one empty schema per field.
pub open spec fn response_props(fields: Seq<Seq<char>>) -> Seq<(Seq<char>, Json)>
    decreases fields.len(),
{
    if fields.len() == 0 {
        Seq::empty()
    } else {
        obj_set(response_props(fields.drop_last()), fields.last(), empty_obj())
    }
}

/// Schema of a successful response: an object with the detected fields, or
/// an empty schema when no field is known.
pub open spec fn response_schema_spec(fields: Seq<Seq<char>>) -> Json {
    if fields.len() == 0 {
        empty_obj()
    } else {
        jobj(seq![("type"@, jstr("object"@)), ("properties"@, jobj(response_props(fields)))])
    }
}

/// The default response of an operation: `204 No Content` when the content
/// type is empty or `none`, else `200` with the content type and schema.
pub open spec fn base_responses(meta: HandlerMetaView) -> Seq<(Seq<char>, Json)> {
    let ct = meta.response_content_type;
    if ct.len() == 0 || ct == "none"@ {
        seq![("204"@, jobj(seq![("description"@, jstr("No Content"@))]))]
    } else {
        seq![
            (
                "200"@,
                jobj(
                    seq![
                        ("description"@, jstr("Successful response"@)),
                        ("content"@, jobj(seq![(ct, jobj(seq![("schema"@, response_schema_spec(meta.response_schema_fields))]))])),
                    ],
                ),
            ),
        ]
    }
}

/// The documented responses added on top, each `code` with its description
/// (a later annotation for the same code replaces an earlier one).
pub open spec fn extra_responses(base: Seq<(Seq<char>, Json)>, rs: Seq<(Seq<char>, Seq<char>)>) -> Seq<(Seq<char>, Json)>
    decreases rs.len(),
{
    if rs.len() == 0 {
        base
    } else {
        obj_set(extra_responses(base, rs.drop_last()), rs.last().0, jobj(seq![("description"@, jstr(rs.last().1))]))
    }
}

/// The `responses` object of an operation.
pub open spec fn responses_spec(meta: HandlerMetaView) -> Seq<(Seq<char>, Json)> {
    extra_responses(base_responses(meta), meta.responses)
}

fn response_props_exec(fields: &Vec<String>) -> (r: Vec<(String, JsonValue)>)
    ensures
        members_view(r@) == response_props(crate::parser::views_of(fields@)),
{
    let ghost fv = crate::parser::views_of(fields@);
    let mut props: Vec<(String, JsonValue)> = Vec::new();
    let mut i: usize = 0;
    assert(members_view(props@) =~= Seq::<(Seq<char>, Json)>::empty());
    assert(fv.take(0) =~= Seq::<Seq<char>>::empty());
    while i < fields.len()
        invariant
            i <= fields.len(),
            fv == crate::parser::views_of(fields@),
            members_view(props@) == response_props(fv.take(i as int)),
        decreases fields.len() - i,
    {
        assert(fv.take(i + 1).drop_last() =~= fv.take(i as int));
        let ev: Vec<(String, JsonValue)> = Vec::new();
        proof { lemma_object_view(ev); }
        assert(members_view(ev@) =~= Seq::<(Seq<char>, Json)>::empty());
        let v = JsonValue::Object(ev);
        obj_insert(&mut props, fields[i].clone(), v);
        i = i + 1;
    }
    assert(fv.take(fields.len() as int) =~= fv);
    props
}

/// Builds the `responses` object of an operation and inserts it into `operation`.
pub fn build_responses(meta: &HandlerMeta, operation: &mut Vec<(String, JsonValue)>)
    ensures
        members_view(final(operation)@) == obj_set(members_view(old(operation)@), "responses"@, jobj(responses_spec(meta@))),
{
    let ct = &meta.response_content_type;
    let mut responses: Vec<(String, JsonValue)> = Vec::new();
    if ct.as_str().unicode_len() == 0 || str_eq(ct.as_str(), "none") {
        let desc = vec![(lit("description"), jstring("No Content"))];
        proof { lemma_object_view(desc); }
        assert(members_view(desc@) =~= seq![("description"@, jstr("No Content"@))]);
        responses.push((lit("204"), JsonValue::Object(desc)));
    } else {
        let schema = if meta.response_schema_fields.len() > 0 {
            let props = response_props_exec(&meta.response_schema_fields);
            proof { lemma_object_view(props); }
            let members = vec![(lit("type"), jstring("object")), (lit("properties"), JsonValue::Object(props))];
            proof { lemma_object_view(members); }
            assert(members_view(members@) =~= seq![("type"@, jstr("object"@)), ("properties"@, jobj(response_props(crate::parser::views_of(meta.response_schema_fields@))))]);
            JsonValue::Object(members)
        } else {
            let e: Vec<(String, JsonValue)> = Vec::new();
            proof { lemma_object_view(e); }
            assert(members_view(e@) =~= Seq::<(Seq<char>, Json)>::empty());
            JsonValue::Object(e)
        };
        let ghost sv = json_view(schema);
        let inner = vec![(lit("schema"), schema)];
        proof { lemma_object_view(inner); }
        assert(members_view(inner@) =~= seq![("schema"@, sv)]);
        let ghost iv = json_view(JsonValue::Object(inner));
        let content = vec![(ct.clone(), JsonValue::Object(inner))];
        proof { lemma_object_view(content); }
        assert(members_view(content@) =~= seq![(ct@, iv)]);
        let ghost cv = json_view(JsonValue::Object(content));
        let ok = vec![(lit("description"), jstring("Successful response")), (lit("content"), JsonValue::Object(content))];
        proof { lemma_object_view(ok); }
        assert(members_view(ok@) =~= seq![("description"@, jstr("Successful response"@)), ("content"@, cv)]);
        responses.push((lit("200"), JsonValue::Object(ok)));
    }
    assert(members_view(responses@) =~= base_responses(meta@));
    let ghost rv = pair_views_of(meta.responses@);
    let mut i: usize = 0;
    assert(rv.take(0) =~= Seq::<(Seq<char>, Seq<char>)>::empty());
    while i < meta.responses.len()
        invariant
            i <= meta.responses.len(),
            rv == pair_views_of(meta.responses@),
            rv == meta@.responses,
            members_view(responses@) == extra_responses(base_responses(meta@), rv.take(i as int)),
        decreases meta.responses.len() - i,
    {
        assert(rv.take(i + 1).drop_last() =~= rv.take(i as int));
        let (code, desc) = &meta.responses[i];
        let d = vec![(lit("description"), JsonValue::Str(desc.clone()))];
        proof { lemma_object_view(d); }
        assert(members_view(d@) =~= seq![("description"@, jstr(desc@))]);
        obj_insert(&mut responses, code.clone(), JsonValue::Object(d));
        i = i + 1;
    }
    assert(rv.take(meta.responses.len() as int) =~= rv);
    proof { lemma_object_view(responses); }
    obj_insert(operation, lit("responses"), JsonValue::Object(responses));
}

pub open spec fn pair_views_of(v: Seq<(String, String)>) -> Seq<(Seq<char>, Seq<char>)> {
    crate::openapi::pair_views(v)
}


/// A parameter object: name, location (`path` or `query`), whether required,
/// and its schema (type, and format when known).
pub open spec fn param_json(p: ParamView) -> Json {
    let location = match p.1 {
        ParamLocation::Path => "path"@,
        ParamLocation::Query => "query"@,
    };
    let schema = match p.4 {
        Some(f) => obj_set(seq![("type"@, jstr(p.3))], "format"@, jstr(f)),
        None => seq![("type"@, jstr(p.3))],
    };
    jobj(
        seq![
            ("name"@, jstr(p.0)),
            ("in"@, jstr(location)),
            ("required"@, Json::Bool(p.2)),
            ("schema"@, jobj(schema)),
        ],
    )
}

/// A security requirement object: `bearer` refers to the `bearerAuth`
/// scheme, any other name to the scheme of that name.
pub open spec fn security_json(s: Seq<char>) -> Json {
    if s == "bearer"@ {
        jobj(seq![("bearerAuth"@, Json::Array(Seq::empty()))])
    } else {
        jobj(seq![(s, Json::Array(Seq::empty()))])
    }
}

pub open spec fn request_body_json(content_type: Seq<char>, schema_name: Seq<char>) -> Json {
    jobj(
        seq![
            ("required"@, Json::Bool(true)),
            (
                "content"@,
                jobj(seq![(content_type, jobj(seq![("schema"@, jobj(seq![("$ref"@, jstr("#/components/schemas/"@ + schema_name))]))]))]),
            ),
        ],
    )
}

/// The operation object of a registered operation: its id, then summary,
/// description, tags and `deprecated` when present, the parameters, the
/// request body, the responses, and the security requirements.
pub open spec fn operation_spec(e: RouteEntryView) -> Seq<(Seq<char>, Json)> {
    let m = e.handler_meta;
    let o0 = seq![("operationId"@, jstr(e.operation_id))];
    let o1 = match m.summary {
        Some(s) => obj_set(o0, "summary"@, jstr(s)),
        None => o0,
    };
    let o2 = match m.description {
        Some(d) => obj_set(o1, "description"@, jstr(d)),
        None => o1,
    };
    let o3 = if m.tags.len() > 0 {
        obj_set(o2, "tags"@, Json::Array(m.tags.map_values(|t: Seq<char>| jstr(t))))
    } else {
        o2
    };
    let o4 = if m.deprecated {
        obj_set(o3, "deprecated"@, Json::Bool(true))
    } else {
        o3
    };
    let o5 = if m.parameters.len() > 0 {
        obj_set(o4, "parameters"@, Json::Array(m.parameters.map_values(|p: ParamView| param_json(p))))
    } else {
        o4
    };
    let o6 = match m.request_body {
        Some(b) => obj_set(o5, "requestBody"@, request_body_json(b.0, b.1)),
        None => o5,
    };
    let o7 = obj_set(o6, "responses"@, jobj(responses_spec(m)));
    if m.security.len() > 0 {
        obj_set(o7, "security"@, Json::Array(m.security.map_values(|s: Seq<char>| security_json(s))))
    } else {
        o7
    }
}

fn param_json_exec(p: &ParamMeta) -> (r: JsonValue)
    ensures
        json_view(r) == param_json(p@),
{
    let location = match p.location {
        ParamLocation::Path => jstring("path"),
        ParamLocation::Query => jstring("query"),
    };
    let mut schema: Vec<(String, JsonValue)> = vec![(lit("type"), JsonValue::Str(p.schema_type.clone()))];
    assert(members_view(schema@) =~= seq![("type"@, jstr(p.schema_type@))]);
    match &p.schema_format {
        Some(f) => {
            obj_insert(&mut schema, lit("format"), JsonValue::Str(f.clone()));
        },
        None => {},
    }
    let ghost sv = members_view(schema@);
    proof { lemma_object_view(schema); }
    let ghost lv = json_view(location);
    let members = vec![
        (lit("name"), JsonValue::Str(p.name.clone())),
        (lit("in"), location),
        (lit("required"), JsonValue::Bool(p.required)),
        (lit("schema"), JsonValue::Object(schema)),
    ];
    proof { lemma_object_view(members); }
    assert(members_view(members@) =~= seq![
        ("name"@, jstr(p.name@)),
        ("in"@, lv),
        ("required"@, Json::Bool(p.required)),
        ("schema"@, jobj(sv)),
    ]);
    JsonValue::Object(members)
}

fn security_json_exec(s: &String) -> (r: JsonValue)
    ensures
        json_view(r) == security_json(s@),
{
    let empty: Vec<JsonValue> = Vec::new();
    proof { lemma_array_view(empty); }
    assert(empty@.map_values(|v: JsonValue| json_view(v)) =~= Seq::<Json>::empty());
    let key = if str_eq(s.as_str(), "bearer") { lit("bearerAuth") } else { s.clone() };
    let members = vec![(key, JsonValue::Array(empty))];
    proof { lemma_object_view(members); }
    assert(members_view(members@) =~= seq![(key@, Json::Array(Seq::empty()))]);
    JsonValue::Object(members)
}

fn strings_json(v: &Vec<String>) -> (r: JsonValue)
    ensures
        json_view(r) == Json::Array(crate::parser::views_of(v@).map_values(|t: Seq<char>| jstr(t))),
{
    let mut items: Vec<JsonValue> = Vec::new();
    let mut i: usize = 0;
    while i < v.len()
        invariant
            i <= v.len(),
            items@.len() == i,
            forall|k: int| 0 <= k < i ==> json_view(#[trigger] items@[k]) == jstr(v@[k]@),
        decreases v.len() - i,
    {
        items.push(JsonValue::Str(v[i].clone()));
        i = i + 1;
    }
    proof { lemma_array_view(items); }
    assert(items@.map_values(|x: JsonValue| json_view(x)) =~= crate::parser::views_of(v@).map_values(|t: Seq<char>| jstr(t)));
    JsonValue::Array(items)
}

/// Builds the operation object of a registered operation.
pub fn build_operation(entry: &RouteEntry) -> (r: JsonValue)
    ensures
        json_view(r) == jobj(operation_spec(entry@)),
{
    let meta = &entry.handler_meta;
    let ghost m = meta@;
    let mut op: Vec<(String, JsonValue)> = vec![(lit("operationId"), JsonValue::Str(entry.operation_id.clone()))];
    assert(members_view(op@) =~= seq![("operationId"@, jstr(entry.operation_id@))]);
    match &meta.summary {
        Some(s) => obj_insert(&mut op, lit("summary"), JsonValue::Str(s.clone())),
        None => {},
    }
    match &meta.description {
        Some(d) => obj_insert(&mut op, lit("description"), JsonValue::Str(d.clone())),
        None => {},
    }
    if meta.tags.len() > 0 {
        obj_insert(&mut op, lit("tags"), strings_json(&meta.tags));
    }
    if meta.deprecated {
        obj_insert(&mut op, lit("deprecated"), JsonValue::Bool(true));
    }
    if meta.parameters.len() > 0 {
        let mut items: Vec<JsonValue> = Vec::new();
        let mut i: usize = 0;
        while i < meta.parameters.len()
            invariant
                i <= meta.parameters.len(),
                items@.len() == i,
                forall|k: int| 0 <= k < i ==> json_view(#[trigger] items@[k]) == param_json(meta.parameters@[k]@),
            decreases meta.parameters.len() - i,
        {
            items.push(param_json_exec(&meta.parameters[i]));
            i = i + 1;
        }
        proof { lemma_array_view(items); }
        assert(items@.map_values(|x: JsonValue| json_view(x)) =~= m.parameters.map_values(|p: ParamView| param_json(p)));
        obj_insert(&mut op, lit("parameters"), JsonValue::Array(items));
    }
    match &meta.request_body {
        Some(body) => {
            let mut reference: Vec<char> = chars_of("#/components/schemas/");
            crate::text::append_chars(&mut reference, &chars_of(body.schema_type_name.as_str()));
            let ref_obj = vec![(lit("$ref"), JsonValue::Str(string_from_chars(reference.as_slice())))];
            proof { lemma_object_view(ref_obj); }
            assert(members_view(ref_obj@) =~= seq![("$ref"@, jstr("#/components/schemas/"@ + body.schema_type_name@))]);
            let ghost rv = json_view(JsonValue::Object(ref_obj));
            let schema = vec![(lit("schema"), JsonValue::Object(ref_obj))];
            proof { lemma_object_view(schema); }
            assert(members_view(schema@) =~= seq![("schema"@, rv)]);
            let ghost sv = json_view(JsonValue::Object(schema));
            let content = vec![(body.content_type.clone(), JsonValue::Object(schema))];
            proof { lemma_object_view(content); }
            assert(members_view(content@) =~= seq![(body.content_type@, sv)]);
            let ghost cv = json_view(JsonValue::Object(content));
            let rb = vec![(lit("required"), JsonValue::Bool(true)), (lit("content"), JsonValue::Object(content))];
            proof { lemma_object_view(rb); }
            assert(members_view(rb@) =~= seq![("required"@, Json::Bool(true)), ("content"@, cv)]);
            obj_insert(&mut op, lit("requestBody"), JsonValue::Object(rb));
        },
        None => {},
    }
    build_responses(meta, &mut op);
    if meta.security.len() > 0 {
        let mut items: Vec<JsonValue> = Vec::new();
        let mut i: usize = 0;
        while i < meta.security.len()
            invariant
                i <= meta.security.len(),
                items@.len() == i,
                forall|k: int| 0 <= k < i ==> json_view(#[trigger] items@[k]) == security_json(meta.security@[k]@),
            decreases meta.security.len() - i,
        {
            items.push(security_json_exec(&meta.security[i]));
            i = i + 1;
        }
        proof { lemma_array_view(items); }
        assert(items@.map_values(|x: JsonValue| json_view(x)) =~= m.security.map_values(|s: Seq<char>| security_json(s)));
        obj_insert(&mut op, lit("security"), JsonValue::Array(items));
    }
    proof { lemma_object_view(op); }
    JsonValue::Object(op)
}


/// The `paths` object: for each operation in order, its path item gets the
/// operation under the lower-cased method (a later operation for the same
/// path and method replaces an earlier one).
pub open spec fn paths_spec(es: Seq<RouteEntryView>) -> Seq<(Seq<char>, Json)>
    decreases es.len(),
{
    if es.len() == 0 {
        Seq::empty()
    } else {
        let prev = paths_spec(es.drop_last());
        let e = es.last();
        let method_key = str_to_lowercase(e.method);
        let op = jobj(operation_spec(e));
        match member(prev, e.path) {
            None => obj_set(prev, e.path, jobj(seq![(method_key, op)])),
            Some(Json::Object(item)) => obj_set(prev, e.path, jobj(obj_set(item, method_key, op))),
            Some(_) => prev,
        }
    }
}

/// Whether some operation requires the `bearer` security scheme.
pub open spec fn has_bearer(es: Seq<RouteEntryView>) -> bool {
    exists|i: int, j: int| 0 <= i < es.len() && 0 <= j < es[i].handler_meta.security.len()
        && es[i].handler_meta.security[j] == "bearer"@
}

/// Schema type names of the request bodies, in operation order.
pub open spec fn body_types(es: Seq<RouteEntryView>) -> Seq<Seq<char>>
    decreases es.len(),
{
    if es.len() == 0 {
        Seq::empty()
    } else {
        match es.last().handler_meta.request_body {
            Some(b) => body_types(es.drop_last()).push(b.1),
            None => body_types(es.drop_last()),
        }
    }
}

/// Placeholder schema of an auto-detected request body type.
pub open spec fn body_schema_json() -> Json {
    jobj(
        seq![
            ("type"@, jstr("object"@)),
            (
                "description"@,
                jstr("Auto-detected request body type (schema details require manual definition or a derive macro)"@),
            ),
        ],
    )
}

/// The `schemas` object: one placeholder schema per distinct type name.
pub open spec fn schemas_spec(names: Seq<Seq<char>>) -> Seq<(Seq<char>, Json)>
    decreases names.len(),
{
    if names.len() == 0 {
        Seq::empty()
    } else {
        obj_set_if_absent(schemas_spec(names.drop_last()), names.last(), body_schema_json())
    }
}

pub open spec fn bearer_components() -> Json {
    jobj(
        seq![
            (
                "securitySchemes"@,
                jobj(
                    seq![
                        (
                            "bearerAuth"@,
                            jobj(
                                seq![
                                    ("type"@, jstr("http"@)),
                                    ("scheme"@, jstr("bearer"@)),
                                    ("bearerFormat"@, jstr("JWT"@)),
                                ],
                            ),
                        ),
                    ],
                ),
            ),
        ],
    )
}

/// The OpenAPI document: version `3.0.3`, the title and version, the paths,
/// a `bearerAuth` security scheme when some operation requires `bearer`, and
/// placeholder schemas for the request body types.
pub open spec fn document_spec(es: Seq<RouteEntryView>, title: Seq<char>, version: Seq<char>) -> Seq<(Seq<char>, Json)> {
    let base = seq![
        ("openapi"@, jstr("3.0.3"@)),
        ("info"@, jobj(seq![("title"@, jstr(title)), ("version"@, jstr(version))])),
        ("paths"@, jobj(paths_spec(es))),
    ];
    let d1 = if has_bearer(es) {
        obj_set(base, "components"@, bearer_components())
    } else {
        base
    };
    if body_types(es).len() > 0 {
        let comp = match member(d1, "components"@) {
            Some(Json::Object(ms)) => ms,
            _ => Seq::empty(),
        };
        obj_set(d1, "components"@, jobj(obj_set(comp, "schemas"@, jobj(schemas_spec(body_types(es))))))
    } else {
        d1
    }
}

fn bearer_components_exec() -> (r: JsonValue)
    ensures
        json_view(r) == bearer_components(),
{
    let scheme = vec![
        (lit("type"), jstring("http")),
        (lit("scheme"), jstring("bearer")),
        (lit("bearerFormat"), jstring("JWT")),
    ];
    proof { lemma_object_view(scheme); }
    assert(members_view(scheme@) =~= seq![("type"@, jstr("http"@)), ("scheme"@, jstr("bearer"@)), ("bearerFormat"@, jstr("JWT"@))]);
    let ghost v1 = json_view(JsonValue::Object(scheme));
    let schemes = vec![(lit("bearerAuth"), JsonValue::Object(scheme))];
    proof { lemma_object_view(schemes); }
    assert(members_view(schemes@) =~= seq![("bearerAuth"@, v1)]);
    let ghost v2 = json_view(JsonValue::Object(schemes));
    let comps = vec![(lit("securitySchemes"), JsonValue::Object(schemes))];
    proof { lemma_object_view(comps); }
    assert(members_view(comps@) =~= seq![("securitySchemes"@, v2)]);
    JsonValue::Object(comps)
}

fn body_schema_exec() -> (r: JsonValue)
    ensures
        json_view(r) == body_schema_json(),
{
    let m = vec![
        (lit("type"), jstring("object")),
        (
            lit("description"),
            jstring("Auto-detected request body type (schema details require manual definition or a derive macro)"),
        ),
    ];
    proof { lemma_object_view(m); }
    assert(members_view(m@) =~= seq![
        ("type"@, jstr("object"@)),
        (
            "description"@,
            jstr("Auto-detected request body type (schema details require manual definition or a derive macro)"@),
        ),
    ]);
    JsonValue::Object(m)
}

fn contains_bearer(v: &Vec<String>) -> (r: bool)
    ensures
        r == exists|j: int| 0 <= j < v@.len() && v@[j]@ == "bearer"@,
{
    let mut i: usize = 0;
    while i < v.len()
        invariant
            i <= v.len(),
            forall|j: int| 0 <= j < i ==> v@[j]@ != "bearer"@,
        decreases v.len() - i,
    {
        if str_eq(v[i].as_str(), "bearer") {
            return true;
        }
        i = i + 1;
    }
    false
}

/// Generates the OpenAPI 3.0 document of the given operations.
pub fn generate_spec(entries: &Vec<RouteEntry>, title: &str, version: &str) -> (r: JsonValue)
    ensures
        json_view(r) == jobj(document_spec(views(entries@), title@, version@)),
{
    let ghost es = views(entries@);
    let mut paths: Vec<(String, JsonValue)> = Vec::new();
    let mut i: usize = 0;
    assert(es.take(0) =~= Seq::<RouteEntryView>::empty());
    assert(members_view(paths@) =~= Seq::<(Seq<char>, Json)>::empty());
    while i < entries.len()
        invariant
            i <= entries.len(),
            es == views(entries@),
            members_view(paths@) == paths_spec(es.take(i as int)),
        decreases entries.len() - i,
    {
        let entry = &entries[i];
        assert(es.take(i + 1).drop_last() =~= es.take(i as int));
        assert(es.take(i + 1).last() == entry@);
        let method_key = to_lowercase(entry.method.as_str());
        let op = build_operation(entry);
        let ghost prev = members_view(paths@);
        proof { lemma_key_index(prev, entry.path@); }
        match find_key(&paths, entry.path.as_str()) {
            None => {
                let item = vec![(method_key, op)];
                proof { lemma_object_view(item); }
                assert(members_view(item@) =~= seq![(str_to_lowercase(entry.method@), jobj(operation_spec(entry@)))]);
                obj_insert(&mut paths, entry.path.clone(), JsonValue::Object(item));
            },
            Some(idx) => {
                let (k, v) = paths.remove(idx);
                match v {
                    JsonValue::Object(mut item) => {
                        proof { lemma_object_view(item); }
                        obj_insert(&mut item, method_key, op);
                        proof { lemma_object_view(item); }
                        let ghost nv = json_view(JsonValue::Object(item));
                        paths.insert(idx, (k, JsonValue::Object(item)));
                        assert(members_view(paths@) =~= prev.update(idx as int, (entry.path@, nv)));
                    },
                    other => {
                        paths.insert(idx, (k, other));
                        assert(members_view(paths@) =~= prev);
                    },
                }
            },
        }
        i = i + 1;
    }
    assert(es.take(entries.len() as int) =~= es);
    proof { lemma_object_view(paths); }
    let ghost pv = json_view(JsonValue::Object(paths));
    let info = vec![(lit("title"), jstring(title)), (lit("version"), jstring(version))];
    proof { lemma_object_view(info); }
    assert(members_view(info@) =~= seq![("title"@, jstr(title@)), ("version"@, jstr(version@))]);
    let ghost iv = json_view(JsonValue::Object(info));
    let mut doc = vec![
        (lit("openapi"), jstring("3.0.3")),
        (lit("info"), JsonValue::Object(info)),
        (lit("paths"), JsonValue::Object(paths)),
    ];
    assert(members_view(doc@) =~= seq![("openapi"@, jstr("3.0.3"@)), ("info"@, iv), ("paths"@, pv)]);

    // Security scheme for bearer authentication
    let mut bearer = false;
    let mut j: usize = 0;
    while j < entries.len()
        invariant
            j <= entries.len(),
            es == views(entries@),
            bearer == exists|a: int, b: int| 0 <= a < j && 0 <= b < es[a].handler_meta.security.len()
                && es[a].handler_meta.security[b] == "bearer"@,
        decreases entries.len() - j,
    {
        let c = contains_bearer(&entries[j].handler_meta.security);
        proof {
            let sec = es[j as int].handler_meta.security;
            assert(sec == crate::parser::views_of(entries@[j as int].handler_meta.security@));
            if c {
                let w = choose|w: int| 0 <= w < entries@[j as int].handler_meta.security@.len()
                    && entries@[j as int].handler_meta.security@[w]@ == "bearer"@;
                assert(sec[w] == "bearer"@);
            } else {
                assert forall|b: int| 0 <= b < sec.len() implies sec[b] != "bearer"@ by {
                    assert(sec[b] == entries@[j as int].handler_meta.security@[b]@);
                }
            }
        }
        if c {
            bearer = true;
        }
        j = j + 1;
    }
    if bearer {
        obj_insert(&mut doc, lit("components"), bearer_components_exec());
    }

    // Placeholder schemas for request body types
    let mut types: Vec<String> = Vec::new();
    let mut k: usize = 0;
    assert(crate::parser::views_of(types@) =~= body_types(es.take(0)));
    while k < entries.len()
        invariant
            k <= entries.len(),
            es == views(entries@),
            crate::parser::views_of(types@) == body_types(es.take(k as int)),
        decreases entries.len() - k,
    {
        assert(es.take(k + 1).drop_last() =~= es.take(k as int));
        match &entries[k].handler_meta.request_body {
            Some(b) => {
                let ghost before = crate::parser::views_of(types@);
                types.push(b.schema_type_name.clone());
                assert(crate::parser::views_of(types@) =~= before.push(b.schema_type_name@));
            },
            None => {},
        }
        k = k + 1;
    }
    assert(es.take(entries.len() as int) =~= es);
    if types.len() > 0 {
        let ghost tv = crate::parser::views_of(types@);
        let mut schemas: Vec<(String, JsonValue)> = Vec::new();
        let mut t: usize = 0;
        assert(members_view(schemas@) =~= Seq::<(Seq<char>, Json)>::empty());
        assert(tv.take(0) =~= Seq::<Seq<char>>::empty());
        while t < types.len()
            invariant
                t <= types.len(),
                tv == crate::parser::views_of(types@),
                members_view(schemas@) == schemas_spec(tv.take(t as int)),
            decreases types.len() - t,
        {
            assert(tv.take(t + 1).drop_last() =~= tv.take(t as int));
            obj_insert_if_absent(&mut schemas, types[t].clone(), body_schema_exec());
            t = t + 1;
        }
        assert(tv.take(types.len() as int) =~= tv);
        proof { lemma_object_view(schemas); }
        let ghost d1 = members_view(doc@);
        let ghost sv = json_view(JsonValue::Object(schemas));
        proof { lemma_key_index(d1, "components"@); }
        match find_key(&doc, "components") {
            Some(idx) => {
                let (key, v) = doc.remove(idx);
                let mut comp: Vec<(String, JsonValue)> = match v {
                    JsonValue::Object(ms) => {
                        proof { lemma_object_view(ms); }
                        ms
                    },
                    _ => Vec::new(),
                };
                assert(members_view(comp@) =~= match member(d1, "components"@) {
                    Some(Json::Object(ms)) => ms,
                    _ => Seq::<(Seq<char>, Json)>::empty(),
                });
                let ghost cv = members_view(comp@);
                obj_insert(&mut comp, lit("schemas"), JsonValue::Object(schemas));
                proof { lemma_object_view(comp); }
                let ghost nv = json_view(JsonValue::Object(comp));
                assert(nv == jobj(obj_set(cv, "schemas"@, sv)));
                doc.insert(idx, (key, JsonValue::Object(comp)));
                assert(members_view(doc@) =~= d1.update(idx as int, ("components"@, nv)));
            },
            None => {
                let mut comp: Vec<(String, JsonValue)> = Vec::new();
                assert(members_view(comp@) =~= Seq::<(Seq<char>, Json)>::empty());
                obj_insert(&mut comp, lit("schemas"), JsonValue::Object(schemas));
                proof { lemma_object_view(comp); }
                let ghost nv = json_view(JsonValue::Object(comp));
                doc.push((lit("components"), JsonValue::Object(comp)));
                assert(members_view(doc@) =~= d1.push(("components"@, nv)));
            },
        }
    }
    proof { lemma_object_view(doc); }
    JsonValue::Object(doc)
}

/// The value under key `k` of an object, if `j` is an object that has one.
pub open spec fn at_key(j: Option<Json>, k: Seq<char>) -> Option<Json> {
    match j {
        Some(Json::Object(ms)) => member(ms, k),
        _ => None,
    }
}

/// `j` is the parameter object of `p`: its `name` is the parameter's name,
/// its `in` is `path` for a path parameter and `query` for a query
/// parameter, its `required` says whether the parameter is required, and its
/// `schema` gives the parameter's type and, when known, its format.
pub open spec fn documents_param(j: Json, p: ParamView) -> bool {
    &&& at_key(Some(j), "name"@) == Some(Json::Str(p.0))
    &&& at_key(Some(j), "in"@) == Some(Json::Str(
        match p.1 {
            ParamLocation::Path => "path"@,
            ParamLocation::Query => "query"@,
        },
    ))
    &&& at_key(Some(j), "required"@) == Some(Json::Bool(p.2))
    &&& at_key(at_key(Some(j), "schema"@), "type"@) == Some(Json::Str(p.3))
    &&& at_key(at_key(Some(j), "schema"@), "format"@) == match p.4 {
        Some(f) => Some(Json::Str(f)),
        None => None,
    }
}

/// An operation lists its parameters under `parameters`, in order, one
/// parameter object each (located `in` the path or the query as registered);
/// an operation without parameters has no `parameters` member.
pub proof fn law_operation_parameters(e: RouteEntryView)
    ensures
        e.handler_meta.parameters.len() == 0 ==> at_key(Some(jobj(operation_spec(e))), "parameters"@).is_none(),
        e.handler_meta.parameters.len() > 0 ==> match at_key(Some(jobj(operation_spec(e))), "parameters"@) {
            Some(Json::Array(ps)) => {
                &&& ps.len() == e.handler_meta.parameters.len()
                &&& forall|k: int| 0 <= k < ps.len() ==> documents_param(#[trigger] ps[k], e.handler_meta.parameters[k])
            },
            _ => false,
        },
{
    reveal_strlit("parameters");
    reveal_strlit("operationId");
    reveal_strlit("summary");
    reveal_strlit("description");
    reveal_strlit("tags");
    reveal_strlit("deprecated");
    reveal_strlit("requestBody");
    reveal_strlit("responses");
    reveal_strlit("security");
    reveal_strlit("name");
    reveal_strlit("in");
    reveal_strlit("required");
    reveal_strlit("schema");
    let pk = "parameters"@;
    assert(pk != "deprecated"@) by { assert(pk[0] != "deprecated"@[0]); }
    assert("summary"@.len() == 7 && "description"@.len() == 11 && "tags"@.len() == 4);
    assert("requestBody"@.len() == 11 && "responses"@.len() == 9 && "security"@.len() == 8);
    let m = e.handler_meta;
    let o0 = seq![("operationId"@, jstr(e.operation_id))];
    let o1 = match m.summary {
        Some(s) => obj_set(o0, "summary"@, jstr(s)),
        None => o0,
    };
    let o2 = match m.description {
        Some(d) => obj_set(o1, "description"@, jstr(d)),
        None => o1,
    };
    let o3 = if m.tags.len() > 0 {
        obj_set(o2, "tags"@, Json::Array(m.tags.map_values(|t: Seq<char>| jstr(t))))
    } else {
        o2
    };
    let o4 = if m.deprecated {
        obj_set(o3, "deprecated"@, Json::Bool(true))
    } else {
        o3
    };
    let pjs = m.parameters.map_values(|p: ParamView| param_json(p));
    let arr = Json::Array(pjs);
    let o5 = if m.parameters.len() > 0 {
        obj_set(o4, "parameters"@, arr)
    } else {
        o4
    };
    let o6 = match m.request_body {
        Some(b) => obj_set(o5, "requestBody"@, request_body_json(b.0, b.1)),
        None => o5,
    };
    let o7 = obj_set(o6, "responses"@, jobj(responses_spec(m)));
    assert(pk.len() == 10 && "operationId"@.len() == 11);
    assert(o0.drop_last().len() == 0);
    assert(o0.last().0 != pk);
    assert(key_index(o0.drop_last(), pk) == -1);
    assert(member(o0, pk).is_none());
    match m.summary {
        Some(s) => { lemma_member_obj_set(o0, "summary"@, jstr(s), pk); },
        None => {},
    }
    match m.description {
        Some(d) => { lemma_member_obj_set(o1, "description"@, jstr(d), pk); },
        None => {},
    }
    if m.tags.len() > 0 {
        lemma_member_obj_set(o2, "tags"@, Json::Array(m.tags.map_values(|t: Seq<char>| jstr(t))), pk);
    }
    if m.deprecated {
        lemma_member_obj_set(o3, "deprecated"@, Json::Bool(true), pk);
    }
    assert(member(o4, pk).is_none());
    if m.parameters.len() > 0 {
        lemma_member_obj_set(o4, pk, arr, pk);
    }
    match m.request_body {
        Some(b) => { lemma_member_obj_set(o5, "requestBody"@, request_body_json(b.0, b.1), pk); },
        None => {},
    }
    lemma_member_obj_set(o6, "responses"@, jobj(responses_spec(m)), pk);
    if m.security.len() > 0 {
        lemma_member_obj_set(o7, "security"@, Json::Array(m.security.map_values(|s: Seq<char>| security_json(s))), pk);
    }
    assert(operation_spec(e) == if m.security.len() > 0 {
        obj_set(o7, "security"@, Json::Array(m.security.map_values(|s: Seq<char>| security_json(s))))
    } else {
        o7
    });
    if m.parameters.len() > 0 {
        assert forall|k: int| 0 <= k < m.parameters.len() implies documents_param(
            #[trigger] pjs[k],
            m.parameters[k],
        ) by {
            let p = m.parameters[k];
            let location = match p.1 {
                ParamLocation::Path => "path"@,
                ParamLocation::Query => "query"@,
            };
            let schema = match p.4 {
                Some(f) => obj_set(seq![("type"@, jstr(p.3))], "format"@, jstr(f)),
                None => seq![("type"@, jstr(p.3))],
            };
            let ms = seq![
                ("name"@, jstr(p.0)),
                ("in"@, jstr(location)),
                ("required"@, Json::Bool(p.2)),
                ("schema"@, jobj(schema)),
            ];
            assert(param_json(p) == Json::Object(ms));
            assert(ms.len() == 4);
            assert("name"@.len() == 4 && "in"@.len() == 2 && "required"@.len() == 8 && "schema"@.len() == 6);
            assert(ms.drop_last().drop_last().drop_last().drop_last().len() == 0);
            assert(key_index(ms, "schema"@) == 3);
            assert(key_index(ms.drop_last(), "required"@) == 2);
            assert(key_index(ms.drop_last().drop_last(), "in"@) == 1);
            assert(key_index(ms.drop_last().drop_last().drop_last(), "name"@) == 0);
            assert(key_index(ms, "required"@) == 2);
            assert(key_index(ms.drop_last(), "in"@) == 1);
            assert(key_index(ms, "in"@) == 1);
            assert(key_index(ms.drop_last().drop_last(), "name"@) == 0);
            assert(key_index(ms.drop_last(), "name"@) == 0);
            assert(key_index(ms, "name"@) == 0);
            reveal_strlit("type");
            reveal_strlit("format");
            assert("type"@.len() == 4 && "format"@.len() == 6);
            let base = seq![("type"@, jstr(p.3))];
            assert(base.drop_last().len() == 0);
            assert(key_index(base, "type"@) == 0);
            assert(key_index(base.drop_last(), "format"@) == -1);
            assert(key_index(base, "format"@) == -1);
            match p.4 {
                Some(f) => {
                    lemma_member_obj_set(base, "format"@, jstr(f), "type"@);
                    lemma_member_obj_set(base, "format"@, jstr(f), "format"@);
                },
                None => {},
            }
        }
    }
}

/// Every path item of the `paths` object is an object.
proof fn lemma_paths_objects(es: Seq<RouteEntryView>, p: Seq<char>)
    ensures
        match member(paths_spec(es), p) {
            None => true,
            Some(Json::Object(_)) => true,
            _ => false,
        },
    decreases es.len(),
{
    if es.len() > 0 {
        let prev = paths_spec(es.drop_last());
        let e = es.last();
        let method_key = str_to_lowercase(e.method);
        let op = jobj(operation_spec(e));
        lemma_paths_objects(es.drop_last(), p);
        lemma_paths_objects(es.drop_last(), e.path);
        match member(prev, e.path) {
            None => { lemma_member_obj_set(prev, e.path, jobj(seq![(method_key, op)]), p); },
            Some(Json::Object(item)) => {
                lemma_member_obj_set(prev, e.path, jobj(obj_set(item, method_key, op)), p);
            },
            Some(_) => {},
        }
    }
}

/// An operation for which no later one has the same path and lower-cased
/// method stands in the `paths` object under its path and method.
proof fn lemma_paths_member(es: Seq<RouteEntryView>, i: int)
    requires
        0 <= i < es.len(),
        forall|j: int| i < j < es.len() ==> (#[trigger] es[j]).path != es[i].path
            || str_to_lowercase(es[j].method) != str_to_lowercase(es[i].method),
    ensures
        at_key(at_key(Some(jobj(paths_spec(es))), es[i].path), str_to_lowercase(es[i].method))
            == Some(jobj(operation_spec(es[i]))),
    decreases es.len(),
{
    let d = es.drop_last();
    let prev = paths_spec(d);
    let e = es.last();
    let mk = str_to_lowercase(e.method);
    let op = jobj(operation_spec(e));
    let ki = str_to_lowercase(es[i].method);
    lemma_paths_objects(d, e.path);
    if i == es.len() - 1 {
        match member(prev, e.path) {
            None => {
                lemma_member_obj_set(prev, e.path, jobj(seq![(mk, op)]), e.path);
                assert(seq![(mk, op)].last().0 == mk);
            },
            Some(Json::Object(item)) => {
                lemma_member_obj_set(prev, e.path, jobj(obj_set(item, mk, op)), e.path);
                lemma_member_obj_set(item, mk, op, mk);
            },
            Some(_) => {},
        }
    } else {
        assert forall|j: int| i < j < d.len() implies (#[trigger] d[j]).path != d[i].path
            || str_to_lowercase(d[j].method) != str_to_lowercase(d[i].method) by {
            assert(d[j] == es[j]);
        }
        lemma_paths_member(d, i);
        assert(d[i] == es[i]);
        assert(es[es.len() - 1] == e);
        match member(prev, e.path) {
            None => {
                lemma_member_obj_set(prev, e.path, jobj(seq![(mk, op)]), es[i].path);
            },
            Some(Json::Object(item)) => {
                lemma_member_obj_set(prev, e.path, jobj(obj_set(item, mk, op)), es[i].path);
                if e.path == es[i].path {
                    lemma_member_obj_set(item, mk, op, ki);
                }
            },
            Some(_) => {},
        }
    }
}

/// The document's `paths` member is the `paths` object.
proof fn lemma_document_paths(es: Seq<RouteEntryView>, title: Seq<char>, version: Seq<char>)
    ensures
        at_key(Some(jobj(document_spec(es, title, version))), "paths"@) == Some(jobj(paths_spec(es))),
{
    reveal_strlit("paths");
    reveal_strlit("components");
    let pk = "paths"@;
    assert(pk.len() == 5 && "components"@.len() == 10);
    let base = seq![
        ("openapi"@, jstr("3.0.3"@)),
        ("info"@, jobj(seq![("title"@, jstr(title)), ("version"@, jstr(version))])),
        ("paths"@, jobj(paths_spec(es))),
    ];
    assert(base.last().0 == pk);
    assert(member(base, pk) == Some(jobj(paths_spec(es))));
    let d1 = if has_bearer(es) {
        obj_set(base, "components"@, bearer_components())
    } else {
        base
    };
    if has_bearer(es) {
        lemma_member_obj_set(base, "components"@, bearer_components(), pk);
    }
    if body_types(es).len() > 0 {
        let comp = match member(d1, "components"@) {
            Some(Json::Object(ms)) => ms,
            _ => Seq::empty(),
        };
        lemma_member_obj_set(d1, "components"@, jobj(obj_set(comp, "schemas"@, jobj(schemas_spec(body_types(es))))), pk);
    }
}

/// In the generated document, the operation registered for a path and
/// method (the last one registered for them) lists its parameters under
/// `paths.<path>.<method>.parameters`, in order: each parameter object
/// carries the parameter's name, `"in": "path"` for a path parameter and
/// `"in": "query"` for a query parameter, and whether it is required.
pub proof fn law_document_parameters(es: Seq<RouteEntryView>, title: Seq<char>, version: Seq<char>, i: int)
    requires
        0 <= i < es.len(),
        forall|j: int| i < j < es.len() ==> (#[trigger] es[j]).path != es[i].path
            || str_to_lowercase(es[j].method) != str_to_lowercase(es[i].method),
        es[i].handler_meta.parameters.len() > 0,
    ensures
        ({
            let doc = Some(jobj(document_spec(es, title, version)));
            let op = at_key(at_key(at_key(doc, "paths"@), es[i].path), str_to_lowercase(es[i].method));
            match at_key(op, "parameters"@) {
                Some(Json::Array(ps)) => {
                    &&& ps.len() == es[i].handler_meta.parameters.len()
                    &&& forall|k: int| 0 <= k < ps.len() ==> documents_param(#[trigger] ps[k], es[i].handler_meta.parameters[k])
                },
                _ => false,
            }
        }),
{
    lemma_document_paths(es, title, version);
    lemma_paths_member(es, i);
    law_operation_parameters(es[i]);
}

} // verus!
