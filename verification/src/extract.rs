//! Extractor functions: what a handler reads from its event.
use vstd::prelude::*;
use vstd::utf8::{valid_utf8, decode_utf8};
use crate::error::RouteError;
use crate::event::{
    Event, header_pair_views, invalid_json_message, invalid_utf8_message, lookup, map_get, pairs_map,
};
use crate::openapi::pair_views;
use crate::response::{header_name_of, parse_header_name};
use crate::text::{chars_of, concat, str_eq, string_from_chars};

verus! {

/// The message when a required path parameter is missing.
pub open spec fn missing_param_message(key: Seq<char>) -> Seq<char> {
    "Missing required parameter: "@ + key
}

/// The message when a required query parameter is missing.
pub open spec fn missing_query_message(key: Seq<char>) -> Seq<char> {
    "Missing required query parameter: "@ + key
}

/// A path parameter, if present.
pub fn get_param<'a>(event: &'a Event, key: &str) -> (r: Option<&'a str>)
    ensures
        crate::parser::opt_view(r) == map_get(event@.params, key@),
{
    match lookup(event.params(), key) {
        Some(v) => Some(v.as_str()),
        None => None,
    }
}

/// A path parameter; a missing one is a bad request
/// (`Missing required parameter: <key>`).
pub fn get_param_required<'a>(event: &'a Event, key: &str) -> (r: crate::error::Result<&'a str>)
    ensures
        match map_get(event@.params, key@) {
            Some(v) => r matches Ok(s) && s@ == v,
            None => r matches Err(RouteError::BadRequest(m)) && m@ == missing_param_message(key@),
        },
{
    match get_param(event, key) {
        Some(v) => Ok(v),
        None => {
            let m = concat(&chars_of("Missing required parameter: "), &chars_of(key));
            Err(RouteError::BadRequest(string_from_chars(m.as_slice())))
        },
    }
}

/// All query parameters, one pair per key.
pub fn get_query(event: &Event) -> (r: &[(String, String)])
    ensures
        pairs_map(pair_views(r@)) == event@.query,
        crate::response::names_unique(pair_views(r@)),
{
    event.query()
}

/// A query parameter, if present.
pub fn get_query_param(event: &Event, key: &str) -> (r: Option<String>)
    ensures
        crate::openapi::opt_str_view(r) == map_get(event@.query, key@),
{
    match lookup(event.query(), key) {
        Some(v) => Some(v.clone()),
        None => None,
    }
}

/// A query parameter; a missing one is a bad request
/// (`Missing required query parameter: <key>`).
pub fn get_query_param_required(event: &Event, key: &str) -> (r: crate::error::Result<String>)
    ensures
        match map_get(event@.query, key@) {
            Some(v) => r matches Ok(s) && s@ == v,
            None => r matches Err(RouteError::BadRequest(m)) && m@ == missing_query_message(key@),
        },
{
    match get_query_param(event, key) {
        Some(v) => Ok(v),
        None => {
            let m = concat(&chars_of("Missing required query parameter: "), &chars_of(key));
            Err(RouteError::BadRequest(string_from_chars(m.as_slice())))
        },
    }
}

/// The body parsed as JSON: `parsed` is what deserializing the body gave,
/// the value or the deserializer's error message.
pub fn get_body<T>(event: &Event, parsed: std::result::Result<T, String>) -> (r: crate::error::Result<T>)
    ensures
        match parsed {
            Ok(v) => r matches Ok(w) && w == v,
            Err(e) => r matches Err(RouteError::BadRequest(m)) && m@ == invalid_json_message(e@),
        },
{
    event.parse_json(parsed)
}

/// The raw body bytes.
pub fn get_body_bytes<'a>(_event: &'a Event, bytes: &'a [u8]) -> (r: crate::error::Result<&'a [u8]>)
    ensures
        r matches Ok(b) && b@ == bytes@,
{
    Ok(bytes)
}

/// The body as text; invalid UTF-8 is a bad request.
pub fn get_body_text(event: &Event, bytes: &[u8]) -> (r: crate::error::Result<String>)
    ensures
        valid_utf8(bytes@) ==> (r matches Ok(s) && s@ == decode_utf8(bytes@)),
        !valid_utf8(bytes@) ==> (r matches Err(RouteError::BadRequest(m)) && m@ == invalid_utf8_message(bytes@)),
{
    event.parse_text(bytes)
}

/// Index of the first header named `n`, or -1.
pub open spec fn first_header(hs: Seq<(Seq<char>, Option<Seq<char>>)>, n: Seq<char>) -> int
    decreases hs.len(),
{
    if hs.len() == 0 {
        -1
    } else {
        let r = first_header(hs.drop_last(), n);
        if r >= 0 {
            r
        } else if hs.last().0 == n {
            hs.len() - 1
        } else {
            -1
        }
    }
}

pub proof fn lemma_first_header(hs: Seq<(Seq<char>, Option<Seq<char>>)>, n: Seq<char>)
    ensures
        -1 <= first_header(hs, n) < hs.len(),
        first_header(hs, n) >= 0 ==> hs[first_header(hs, n)].0 == n,
        forall|j: int| 0 <= j < hs.len() && (first_header(hs, n) < 0 || j < first_header(hs, n)) ==> hs[j].0 != n,
    decreases hs.len(),
{
    if hs.len() > 0 {
        lemma_first_header(hs.drop_last(), n);
        assert forall|j: int| 0 <= j < hs.len() - 1 implies hs.drop_last()[j] == hs[j] by {}
    }
}

/// What `HeaderMap::get(name)` and `to_str` give: the name is parsed as a
/// header name (none when invalid); the first header with that name gives
/// its text when that is visible ASCII.
pub open spec fn header_lookup_spec(hs: Seq<(Seq<char>, Option<Seq<char>>)>, name: Seq<char>) -> Option<Seq<char>> {
    match header_name_of(name) {
        Some(n) => {
            let i = first_header(hs, n);
            if i >= 0 { hs[i].1 } else { None }
        },
        None => None,
    }
}

/// A header's text, if the header is present and its value is visible ASCII.
pub fn get_header<'a>(event: &'a Event, name: &str) -> (r: Option<&'a str>)
    ensures
        crate::parser::opt_view(r) == header_lookup_spec(event@.headers, name@),
{
    let hs = event.headers();
    let ghost hv = header_pair_views(hs@);
    match parse_header_name(name) {
        None => None,
        Some(n) => {
            proof {
                lemma_first_header(hv, n@);
            }
            let mut i: usize = 0;
            while i < hs.len()
                invariant
                    i <= hs@.len(),
                    hv == header_pair_views(hs@),
                    hv == event@.headers,
                    header_name_of(name@) == Some(n@),
                    forall|j: int| 0 <= j < i ==> hv[j].0 != n@,
                    -1 <= first_header(hv, n@) < hv.len(),
                    first_header(hv, n@) >= 0 ==> hv[first_header(hv, n@)].0 == n@,
                    forall|j: int| 0 <= j < hv.len() && (first_header(hv, n@) < 0 || j < first_header(hv, n@)) ==> hv[j].0 != n@,
                decreases hs@.len() - i,
            {
                if str_eq(hs[i].0.as_str(), n.as_str()) {
                    assert(hv[i as int].0 == hs@[i as int].0@);
                    assert(hv[i as int].1 == crate::openapi::opt_str_view(hs@[i as int].1));
                    assert(first_header(hv, n@) == i as int);
                    return match &hs[i].1 {
                        Some(v) => Some(v.as_str()),
                        None => None,
                    };
                }
                assert(hv[i as int].0 == hs@[i as int].0@);
                i = i + 1;
            }
            None
        },
    }
}

/// All headers.
pub fn get_headers(event: &Event) -> (r: &[(String, Option<String>)])
    ensures
        header_pair_views(r@) == event@.headers,
{
    event.headers()
}

/// The request method.
pub fn get_method(event: &Event) -> (r: &str)
    ensures
        r@ == event@.method,
{
    event.method()
}

/// The request path.
pub fn get_path(event: &Event) -> (r: &str)
    ensures
        r@ == event@.path,
{
    event.path()
}

/// The request URI.
pub fn get_uri(event: &Event) -> (r: &str)
    ensures
        r@ == event@.uri,
{
    event.uri()
}

} // verus!
