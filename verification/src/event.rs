//! The request event a handler receives: method, path, URI, headers, path
//! parameters and query parameters.
use vstd::prelude::*;
use vstd::utf8::{valid_utf8, decode_utf8};
use crate::error::RouteError;
use crate::openapi::pair_views;
use crate::response::{header_get, header_index, names_unique};
use crate::text::{chars_of, concat, lit, str_eq, string_from_chars};

verus! {

/// The map that inserting the pairs in order builds: a later pair with the
/// same key replaces an earlier one.
pub open spec fn pairs_map(ps: Seq<(Seq<char>, Seq<char>)>) -> Map<Seq<char>, Seq<char>>
    decreases ps.len(),
{
    if ps.len() == 0 {
        Map::empty()
    } else {
        pairs_map(ps.drop_last()).insert(ps.last().0, ps.last().1)
    }
}

/// The pair at `i` is the last one with key `k`, so `k` maps to its value.
pub proof fn lemma_pairs_map_last(ps: Seq<(Seq<char>, Seq<char>)>, k: Seq<char>, i: int)
    requires
        0 <= i < ps.len(),
        ps[i].0 == k,
        forall|j: int| i < j < ps.len() ==> ps[j].0 != k,
    ensures
        pairs_map(ps).contains_key(k),
        pairs_map(ps)[k] == ps[i].1,
    decreases ps.len(),
{
    if i < ps.len() - 1 {
        assert forall|j: int| i < j < ps.len() - 1 implies ps.drop_last()[j].0 != k by {
            assert(ps.drop_last()[j] == ps[j]);
        }
        lemma_pairs_map_last(ps.drop_last(), k, i);
    }
}

/// No pair has key `k`, so `k` is not in the map.
pub proof fn lemma_pairs_map_absent(ps: Seq<(Seq<char>, Seq<char>)>, k: Seq<char>)
    requires
        forall|j: int| 0 <= j < ps.len() ==> ps[j].0 != k,
    ensures
        !pairs_map(ps).contains_key(k),
    decreases ps.len(),
{
    if ps.len() > 0 {
        assert forall|j: int| 0 <= j < ps.len() - 1 implies ps.drop_last()[j].0 != k by {
            assert(ps.drop_last()[j] == ps[j]);
        }
        lemma_pairs_map_absent(ps.drop_last(), k);
    }
}

/// The value for `k` in a map, if any.
pub open spec fn map_get(m: Map<Seq<char>, Seq<char>>, k: Seq<char>) -> Option<Seq<char>> {
    if m.contains_key(k) { Some(m[k]) } else { None }
}

/// Looks up `key` among pairs as a map built from them would: the value of
/// the last pair with that key.
pub fn lookup<'a>(ps: &'a [(String, String)], key: &str) -> (r: Option<&'a String>)
    ensures
        match r {
            Some(v) => map_get(pairs_map(pair_views(ps@)), key@) == Some(v@),
            None => map_get(pairs_map(pair_views(ps@)), key@).is_none(),
        },
{
    let ghost pv = pair_views(ps@);
    let mut i: usize = ps.len();
    while i > 0
        invariant
            i <= ps@.len(),
            pv == pair_views(ps@),
            forall|j: int| i <= j < pv.len() ==> pv[j].0 != key@,
        decreases i,
    {
        if str_eq(ps[i - 1].0.as_str(), key) {
            proof {
                lemma_pairs_map_last(pv, key@, i - 1);
            }
            return Some(&ps[i - 1].1);
        }
        i = i - 1;
    }
    proof {
        lemma_pairs_map_absent(pv, key@);
    }
    None
}

/// What `std::str::from_utf8`'s error displays for invalid bytes.
pub uninterp spec fn utf8_error_text(bytes: Seq<u8>) -> Seq<char>;

/// Calls `std::str::from_utf8`: it succeeds exactly on valid UTF-8, giving
/// the decoded text; otherwise the result is the error's display text (the
/// named `utf8_error_text`).
#[verifier::external_body]
fn utf8_text(bytes: &[u8]) -> (r: Result<String, String>)
    ensures
        match r {
            Ok(s) => valid_utf8(bytes@) && s@ == decode_utf8(bytes@),
            Err(m) => !valid_utf8(bytes@) && m@ == utf8_error_text(bytes@),
        },
{
    match std::str::from_utf8(bytes) {
        Ok(s) => Ok(s.to_string()),
        Err(e) => Err(e.to_string()),
    }
}

/// The query component of a URI, as `http::Uri` parses it (`None` when the
/// text is not a URI or has no query).
pub uninterp spec fn uri_query_of(uri: Seq<char>) -> Option<Seq<char>>;

/// Parses `uri` with `http::Uri`'s `FromStr` and takes its `query()`; the
/// result is the named query component.
#[verifier::external_body]
fn uri_query(uri: &str) -> (r: Option<String>)
    ensures
        crate::openapi::opt_str_view(r) == uri_query_of(uri@),
{
    match uri.parse::<axum::http::Uri>() {
        Ok(u) => u.query().map(|q| q.to_string()),
        Err(_) => None,
    }
}

/// The key/value pairs `serde_urlencoded` decodes from a query string, in
/// order (`None` when it refuses the text).
pub uninterp spec fn query_pairs_of(q: Seq<char>) -> Option<Seq<(Seq<char>, Seq<char>)>>;

/// Calls `serde_urlencoded::from_str` into key/value pairs; the result is
/// the named decoding.
#[verifier::external_body]
fn parse_query(q: &str) -> (r: Option<Vec<(String, String)>>)
    ensures
        match r {
            Some(v) => query_pairs_of(q@) == Some(pair_views(v@)),
            None => query_pairs_of(q@).is_none(),
        },
{
    serde_urlencoded::from_str::<Vec<(String, String)>>(q).ok()
}

/// The query parameters of a URI: the decoded pairs of its query component,
/// none when it has no query or the query cannot be decoded.
pub open spec fn uri_query_pairs(uri: Seq<char>) -> Seq<(Seq<char>, Seq<char>)> {
    match uri_query_of(uri) {
        Some(q) => match query_pairs_of(q) {
            Some(ps) => ps,
            None => Seq::empty(),
        },
        None => Seq::empty(),
    }
}

/// The query parameters of an event: those given, or, when none are given,
/// those parsed from its URI.
pub open spec fn effective_query(given: Seq<(Seq<char>, Seq<char>)>, uri: Seq<char>) -> Seq<(Seq<char>, Seq<char>)> {
    if given.len() == 0 { uri_query_pairs(uri) } else { given }
}

/// Parses the query parameters of a URI.
fn query_from_uri(uri: &str) -> (r: Vec<(String, String)>)
    ensures
        pair_views(r@) == uri_query_pairs(uri@),
{
    match uri_query(uri) {
        Some(q) => match parse_query(q.as_str()) {
            Some(v) => v,
            None => {
                let v: Vec<(String, String)> = Vec::new();
                assert(pair_views(v@) =~= Seq::<(Seq<char>, Seq<char>)>::empty());
                v
            },
        },
        None => {
            let v: Vec<(String, String)> = Vec::new();
            assert(pair_views(v@) =~= Seq::<(Seq<char>, Seq<char>)>::empty());
            v
        },
    }
}

/// The value a map built from the pairs gives for `k` is that of the last
/// pair with key `k`.
pub proof fn lemma_map_get_last(ps: Seq<(Seq<char>, Seq<char>)>, k: Seq<char>)
    ensures
        map_get(pairs_map(ps), k) == header_get(ps, k),
    decreases ps.len(),
{
    if ps.len() > 0 {
        lemma_map_get_last(ps.drop_last(), k);
        if ps.last().0 != k {
            crate::response::lemma_header_index(ps.drop_last(), k);
            let i = header_index(ps.drop_last(), k);
            if i >= 0 {
                assert(ps.drop_last()[i] == ps[i]);
            }
        }
    }
}

/// The pairs with one pair per key, the last value for each key winning (as
/// inserting them into a map does), each key where it first occurs.
fn distinct_pairs(ps: Vec<(String, String)>) -> (r: Vec<(String, String)>)
    ensures
        names_unique(pair_views(r@)),
        pairs_map(pair_views(r@)) == pairs_map(pair_views(ps@)),
{
    let ghost pv = pair_views(ps@);
    let mut out: Vec<(String, String)> = Vec::new();
    let mut i: usize = 0;
    assert(pv.take(0) =~= Seq::<(Seq<char>, Seq<char>)>::empty());
    assert(pair_views(out@) =~= Seq::<(Seq<char>, Seq<char>)>::empty());
    while i < ps.len()
        invariant
            i <= ps@.len(),
            pv == pair_views(ps@),
            names_unique(pair_views(out@)),
            forall|m: Seq<char>| #[trigger] header_get(pair_views(out@), m) == header_get(pv.take(i as int), m),
        decreases ps@.len() - i,
    {
        let ghost before = pair_views(out@);
        let ghost k = ps@[i as int].0@;
        let ghost v = ps@[i as int].1@;
        crate::response::set_header(&mut out, ps[i].0.clone(), ps[i].1.clone());
        proof {
            crate::response::lemma_header_set(before, k, v);
            assert(pv.take(i + 1) =~= pv.take(i as int).push((k, v)));
            assert(pv.take(i + 1).drop_last() =~= pv.take(i as int));
            assert(pair_views(out@) == crate::response::header_set(before, k, v));
            assert(pv[i as int] == (k, v));
            assert forall|m: Seq<char>| #[trigger] header_get(pair_views(out@), m) == header_get(pv.take(i + 1), m) by {
                let t = pv.take(i as int);
                assert(header_get(before, m) == header_get(t, m));
                if m == k {
                    assert(pv.take(i + 1).last() == (k, v));
                } else {
                    assert(header_get(crate::response::header_set(before, k, v), m) == header_get(before, m));
                    crate::response::lemma_header_index(t, m);
                    let j = header_index(t, m);
                    if j >= 0 {
                        assert(pv.take(i + 1)[j] == t[j]);
                    }
                }
            }
        }
        i = i + 1;
    }
    proof {
        assert(pv.take(ps@.len() as int) =~= pv);
        let a = pairs_map(pair_views(out@));
        let b = pairs_map(pv);
        assert forall|m: Seq<char>| #[trigger] map_get(a, m) == map_get(b, m) by {
            lemma_map_get_last(pair_views(out@), m);
            lemma_map_get_last(pv, m);
        }
        assert forall|m: Seq<char>| a.contains_key(m) == b.contains_key(m) by {
            assert(map_get(a, m) == map_get(b, m));
        }
        assert forall|m: Seq<char>| #[trigger] a.contains_key(m) implies a[m] == b[m] by {
            assert(map_get(a, m) == map_get(b, m));
        }
        assert(a =~= b);
    }
    out
}

/// A request as a handler sees it.
#[derive(Debug)]
pub struct Event {
    method: String,
    path: String,
    uri: String,
    headers: Vec<(String, Option<String>)>,
    params: Vec<(String, String)>,
    query: Vec<(String, String)>,
}

/// An event as plain values. Header names are lower-case; a header value is
/// `None` when it is not visible ASCII text. Parameters are maps.
pub struct EventView {
    pub method: Seq<char>,
    pub path: Seq<char>,
    pub uri: Seq<char>,
    pub headers: Seq<(Seq<char>, Option<Seq<char>>)>,
    pub params: Map<Seq<char>, Seq<char>>,
    pub query: Map<Seq<char>, Seq<char>>,
}

pub open spec fn header_pair_views(hs: Seq<(String, Option<String>)>) -> Seq<(Seq<char>, Option<Seq<char>>)> {
    hs.map_values(|p: (String, Option<String>)| (p.0@, crate::openapi::opt_str_view(p.1)))
}

impl View for Event {
    type V = EventView;

    closed spec fn view(&self) -> EventView {
        EventView {
            method: self.method@,
            path: self.path@,
            uri: self.uri@,
            headers: header_pair_views(self.headers@),
            params: pairs_map(pair_views(self.params@)),
            query: pairs_map(pair_views(self.query@)),
        }
    }
}

fn clone_header_pairs(v: &Vec<(String, Option<String>)>) -> (r: Vec<(String, Option<String>)>)
    ensures
        r@ == v@,
{
    let mut r: Vec<(String, Option<String>)> = Vec::new();
    let mut i: usize = 0;
    while i < v.len()
        invariant
            i <= v.len(),
            r@ == v@.take(i as int),
        decreases v.len() - i,
    {
        r.push((v[i].0.clone(), crate::openapi::clone_opt_string(&v[i].1)));
        i = i + 1;
        assert(r@ =~= v@.take(i as int));
    }
    assert(v@.take(v.len() as int) =~= v@);
    r
}

impl Clone for Event {
    fn clone(&self) -> (r: Self)
        ensures
            r@ == self@,
    {
        proof {
            use_type_invariant(self);
        }
        Event {
            method: self.method.clone(),
            path: self.path.clone(),
            uri: self.uri.clone(),
            headers: clone_header_pairs(&self.headers),
            params: crate::openapi::clone_pairs(&self.params),
            query: crate::openapi::clone_pairs(&self.query),
        }
    }
}

/// The message of a body that is not valid UTF-8.
pub open spec fn invalid_utf8_message(bytes: Seq<u8>) -> Seq<char> {
    "Invalid UTF-8: "@ + utf8_error_text(bytes)
}

/// The message of a body that is not the JSON expected.
pub open spec fn invalid_json_message(e: Seq<char>) -> Seq<char> {
    "Invalid JSON: "@ + e
}

/// The message of a body that is not the form expected.
pub open spec fn invalid_form_message(e: Seq<char>) -> Seq<char> {
    "Invalid form data: "@ + e
}

fn bad_request_with(prefix: &str, detail: &str) -> (r: RouteError)
    ensures
        r matches RouteError::BadRequest(m) && m@ == prefix@ + detail@,
{
    let m = concat(&chars_of(prefix), &chars_of(detail));
    RouteError::BadRequest(string_from_chars(m.as_slice()))
}

impl Event {
    /// Path and query parameters hold one pair per key.
    #[verifier::type_invariant]
    spec fn keys_distinct(&self) -> bool {
        names_unique(pair_views(self.params@)) && names_unique(pair_views(self.query@))
    }

    /// An event from the parts of a request. Header names are the lower-case
    /// names, values their text when it is visible ASCII; path and query
    /// parameters are key/value pairs, a later pair replacing an earlier one
    /// with the same key. When no query parameters are given, they are those
    /// of the URI's query string.
    pub fn new(
        method: &str,
        path: &str,
        uri: &str,
        headers: Vec<(String, Option<String>)>,
        params: Vec<(String, String)>,
        query: Vec<(String, String)>,
    ) -> (r: Self)
        ensures
            r@ == (EventView {
                method: method@,
                path: path@,
                uri: uri@,
                headers: header_pair_views(headers@),
                params: pairs_map(pair_views(params@)),
                query: pairs_map(effective_query(pair_views(query@), uri@)),
            }),
    {
        let query = if query.len() == 0 {
            query_from_uri(uri)
        } else {
            query
        };
        let params = distinct_pairs(params);
        let query = distinct_pairs(query);
        Event { method: lit(method), path: lit(path), uri: lit(uri), headers, params, query }
    }

    /// The request method.
    pub fn method(&self) -> (r: &str)
        ensures
            r@ == self@.method,
    {
        self.method.as_str()
    }

    /// The request path.
    pub fn path(&self) -> (r: &str)
        ensures
            r@ == self@.path,
    {
        self.path.as_str()
    }

    /// The request URI.
    pub fn uri(&self) -> (r: &str)
        ensures
            r@ == self@.uri,
    {
        self.uri.as_str()
    }

    /// The request headers.
    pub fn headers(&self) -> (r: &[(String, Option<String>)])
        ensures
            header_pair_views(r@) == self@.headers,
    {
        self.headers.as_slice()
    }

    /// The path parameters, one pair per key.
    pub fn params(&self) -> (r: &[(String, String)])
        ensures
            pairs_map(pair_views(r@)) == self@.params,
            names_unique(pair_views(r@)),
    {
        proof {
            use_type_invariant(self);
        }
        self.params.as_slice()
    }

    /// The query parameters, one pair per key.
    pub fn query(&self) -> (r: &[(String, String)])
        ensures
            pairs_map(pair_views(r@)) == self@.query,
            names_unique(pair_views(r@)),
    {
        proof {
            use_type_invariant(self);
        }
        self.query.as_slice()
    }

    /// The body as text; bytes that are not valid UTF-8 are a bad request
    /// (`Invalid UTF-8: ...`).
    pub fn parse_text(&self, bytes: &[u8]) -> (r: crate::error::Result<String>)
        ensures
            valid_utf8(bytes@) ==> (r matches Ok(s) && s@ == decode_utf8(bytes@)),
            !valid_utf8(bytes@) ==> (r matches Err(RouteError::BadRequest(m))
                && m@ == invalid_utf8_message(bytes@)),
    {
        match utf8_text(bytes) {
            Ok(s) => Ok(s),
            Err(e) => Err(bad_request_with("Invalid UTF-8: ", e.as_str())),
        }
    }

    /// The body parsed as JSON: `parsed` is what deserializing it gave, the
    /// value or the deserializer's error message. An error is a bad request
    /// (`Invalid JSON: ...`).
    pub fn parse_json<T>(&self, parsed: std::result::Result<T, String>) -> (r: crate::error::Result<T>)
        ensures
            match parsed {
                Ok(v) => r matches Ok(w) && w == v,
                Err(e) => r matches Err(RouteError::BadRequest(m)) && m@ == invalid_json_message(e@),
            },
    {
        match parsed {
            Ok(v) => Ok(v),
            Err(e) => Err(bad_request_with("Invalid JSON: ", e.as_str())),
        }
    }

    /// The body parsed as a URL-encoded form: `parsed` is what deserializing
    /// its text gave, the value or the deserializer's error message. An error
    /// is a bad request (`Invalid form data: ...`).
    pub fn parse_form<T>(&self, parsed: std::result::Result<T, String>) -> (r: crate::error::Result<T>)
        ensures
            match parsed {
                Ok(v) => r matches Ok(w) && w == v,
                Err(e) => r matches Err(RouteError::BadRequest(m)) && m@ == invalid_form_message(e@),
            },
    {
        match parsed {
            Ok(v) => Ok(v),
            Err(e) => Err(bad_request_with("Invalid form data: ", e.as_str())),
        }
    }
}

} // verus!
