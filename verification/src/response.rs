//! HTTP responses built by handlers: a status code, headers and a body.
use vstd::prelude::*;
use crate::error::RouteError;
use crate::text::{chars_of, concat, lit, str_eq, string_from_chars};
use vstd::string::StrSliceExecFns;

verus! {

/// Whether `http::HeaderValue` accepts a character in a value: a tab, or
/// any character from a space up other than DEL (every byte of the UTF-8
/// encoding must be a tab or at least 32 and not 127).
pub open spec fn header_value_char_ok(c: char) -> bool {
    c == '\t' || (c as u32 >= 32 && c as u32 != 127)
}

pub open spec fn header_value_ok_spec(v: Seq<char>) -> bool {
    forall|i: int| 0 <= i < v.len() ==> header_value_char_ok(#[trigger] v[i])
}

/// Calls `http::HeaderValue::try_from(&str)`: it succeeds exactly when
/// every byte of the text is a tab or at least 32 and not 127, which for
/// UTF-8 text is `header_value_ok_spec` of its characters.
#[verifier::external_body]
fn header_value_ok(v: &str) -> (r: bool)
    ensures
        r == header_value_ok_spec(v@),
{
    axum::http::HeaderValue::try_from(v).is_ok()
}

/// A token character of RFC 9110, the characters a header name is made of:
/// ASCII letters and digits and ``!#$%&'*+-.^_`|~``.
pub open spec fn is_token_char(c: char) -> bool {
    crate::text::is_ascii_alnum(c) || c == '!' || c == '#' || c == '$' || c == '%' || c == '&' || c == '\''
        || c == '*' || c == '+' || c == '-' || c == '.' || c == '^' || c == '_' || c == '`' || c == '|'
        || c == '~'
}

/// The name `http::HeaderName::try_from(&str)` makes of a text: the text
/// lower-cased (ASCII), when it has 1 to 65535 characters, all of them token
/// characters; otherwise none.
pub open spec fn header_name_of(key: Seq<char>) -> Option<Seq<char>> {
    if 1 <= key.len() <= 65535 && forall|i: int| 0 <= i < key.len() ==> is_token_char(#[trigger] key[i]) {
        Some(key.map_values(|c: char| crate::text::ascii_lower(c)))
    } else {
        None
    }
}

/// Calls `http::HeaderName::try_from(&str)` and takes the name's text
/// (`as_str`): it maps each byte through `http`'s table of token characters
/// (upper case to lower case, anything else refused) and accepts 1 to 65535
/// bytes, which is `header_name_of`.
#[verifier::external_body]
pub(crate) fn parse_header_name(key: &str) -> (r: Option<String>)
    ensures
        match r {
            Some(n) => header_name_of(key@) == Some(n@),
            None => header_name_of(key@).is_none(),
        },
{
    match axum::http::HeaderName::try_from(key) {
        Ok(n) => Some(n.as_str().to_string()),
        Err(_) => None,
    }
}

/// Builds an `anyhow::Error` from a message (`anyhow::Error::msg`).
#[verifier::external_body]
fn anyhow_message(m: String) -> anyhow::Error {
    anyhow::Error::msg(m)
}

/// An HTTP response.
#[derive(Debug, Clone)]
pub struct Response {
    /// Status code (100 to 999).
    pub status: u16,
    /// Headers: lower-case names, each at most once, with their values.
    pub headers: Vec<(String, String)>,
    /// Body bytes.
    pub body: Vec<u8>,
}

/// Headers as plain values.
pub open spec fn headers_view(hs: Seq<(String, String)>) -> Seq<(Seq<char>, Seq<char>)> {
    crate::openapi::pair_views(hs)
}

/// Index of the header named `n`, or -1.
pub open spec fn header_index(hs: Seq<(Seq<char>, Seq<char>)>, n: Seq<char>) -> int
    decreases hs.len(),
{
    if hs.len() == 0 {
        -1
    } else if hs.last().0 == n {
        hs.len() - 1
    } else {
        header_index(hs.drop_last(), n)
    }
}

pub proof fn lemma_header_index(hs: Seq<(Seq<char>, Seq<char>)>, n: Seq<char>)
    ensures
        -1 <= header_index(hs, n) < hs.len(),
        header_index(hs, n) >= 0 ==> hs[header_index(hs, n)].0 == n,
        header_index(hs, n) < 0 ==> forall|j: int| 0 <= j < hs.len() ==> hs[j].0 != n,
    decreases hs.len(),
{
    if hs.len() > 0 {
        lemma_header_index(hs.drop_last(), n);
        assert forall|j: int| 0 <= j < hs.len() - 1 implies hs.drop_last()[j] == hs[j] by {}
    }
}

/// The value of the header named `n`, if present.
pub open spec fn header_get(hs: Seq<(Seq<char>, Seq<char>)>, n: Seq<char>) -> Option<Seq<char>> {
    let i = header_index(hs, n);
    if i >= 0 { Some(hs[i].1) } else { None }
}

/// The headers with `n` set to `v`: replaced where present, else appended.
pub open spec fn header_set(hs: Seq<(Seq<char>, Seq<char>)>, n: Seq<char>, v: Seq<char>) -> Seq<(Seq<char>, Seq<char>)> {
    let i = header_index(hs, n);
    if i >= 0 { hs.update(i, (n, v)) } else { hs.push((n, v)) }
}

/// No header name occurs twice.
pub open spec fn names_unique(hs: Seq<(Seq<char>, Seq<char>)>) -> bool {
    forall|i: int, j: int| 0 <= i < j < hs.len() ==> #[trigger] hs[i].0 != #[trigger] hs[j].0
}

/// Sets a header (as `HeaderMap::insert` does: one value per name).
pub(crate) fn set_header(headers: &mut Vec<(String, String)>, name: String, value: String)
    ensures
        headers_view(final(headers)@) == header_set(headers_view(old(headers)@), name@, value@),
{
    let ghost hv = headers_view(headers@);
    proof {
        lemma_header_index(hv, name@);
    }
    let mut i: usize = headers.len();
    let mut found = false;
    while i > 0
        invariant_except_break
            !found,
            forall|j: int| i <= j < hv.len() ==> hv[j].0 != name@,
        invariant
            i <= headers@.len(),
            hv == headers_view(headers@),
            -1 <= header_index(hv, name@) < hv.len(),
            header_index(hv, name@) >= 0 ==> hv[header_index(hv, name@)].0 == name@,
            header_index(hv, name@) < 0 ==> forall|j: int| 0 <= j < hv.len() ==> hv[j].0 != name@,
        ensures
            found ==> i < headers@.len() && hv[i as int].0 == name@ && forall|j: int| i < j < hv.len() ==> hv[j].0 != name@,
            !found ==> forall|j: int| 0 <= j < hv.len() ==> hv[j].0 != name@,
        decreases i,
    {
        if str_eq(headers[i - 1].0.as_str(), name.as_str()) {
            i = i - 1;
            found = true;
            break;
        }
        i = i - 1;
    }
    if found {
        proof {
            lemma_last_index(hv, name@, i as int);
        }
        headers.set(i, (name, value));
        assert(headers_view(headers@) =~= hv.update(i as int, (name@, value@)));
    } else {
        proof {
            lemma_no_index(hv, name@);
        }
        headers.push((name, value));
        assert(headers_view(headers@) =~= hv.push((name@, value@)));
    }
}

proof fn lemma_last_index(hs: Seq<(Seq<char>, Seq<char>)>, n: Seq<char>, i: int)
    requires
        0 <= i < hs.len(),
        hs[i].0 == n,
        forall|j: int| i < j < hs.len() ==> hs[j].0 != n,
    ensures
        header_index(hs, n) == i,
    decreases hs.len(),
{
    if hs.len() - 1 != i {
        assert forall|j: int| i < j < hs.len() - 1 implies hs.drop_last()[j].0 != n by {
            assert(hs.drop_last()[j] == hs[j]);
        }
        lemma_last_index(hs.drop_last(), n, i);
    }
}

proof fn lemma_no_index(hs: Seq<(Seq<char>, Seq<char>)>, n: Seq<char>)
    requires
        forall|j: int| 0 <= j < hs.len() ==> hs[j].0 != n,
    ensures
        header_index(hs, n) == -1,
    decreases hs.len(),
{
    if hs.len() > 0 {
        assert forall|j: int| 0 <= j < hs.len() - 1 implies hs.drop_last()[j].0 != n by {
            assert(hs.drop_last()[j] == hs[j]);
        }
        lemma_no_index(hs.drop_last(), n);
    }
}

/// Setting a header keeps the names unique, and afterwards the header
/// reads back the value set, while every other header reads as before.
pub proof fn lemma_header_set(hs: Seq<(Seq<char>, Seq<char>)>, n: Seq<char>, v: Seq<char>)
    requires
        names_unique(hs),
    ensures
        names_unique(header_set(hs, n, v)),
        header_get(header_set(hs, n, v), n) == Some(v),
        forall|m: Seq<char>| m != n ==> header_get(header_set(hs, n, v), m) == header_get(hs, m),
{
    lemma_header_index(hs, n);
    let r = header_set(hs, n, v);
    let i = header_index(hs, n);
    if i >= 0 {
        assert(r[i].0 == n);
        assert forall|j: int| i < j < r.len() implies r[j].0 != n by {
            assert(r[j] == hs[j]);
        }
        lemma_last_index(r, n, i);
    } else {
        lemma_last_index(r, n, r.len() - 1);
    }
    assert forall|m: Seq<char>| m != n implies header_get(r, m) == header_get(hs, m) by {
        lemma_header_index(hs, m);
        let k = header_index(hs, m);
        if k >= 0 {
            assert(r[k] == hs[k]);
            assert forall|j: int| k < j < r.len() implies r[j].0 != m by {
                if j < hs.len() {
                    assert(r[j].0 == hs[j].0 || r[j].0 == n);
                    if r[j].0 == m {
                        assert(hs[j].0 == m);
                        assert(hs[k].0 == m);
                    }
                }
            }
            lemma_last_index(r, m, k);
        } else {
            assert forall|j: int| 0 <= j < r.len() implies r[j].0 != m by {
                if j < hs.len() {
                    assert(r[j].0 == hs[j].0 || r[j].0 == n);
                }
            }
            lemma_no_index(r, m);
        }
    }
}

/// A response's status is a valid status code and its header names are unique.
pub open spec fn response_wf(r: Response) -> bool {
    100 <= r.status <= 999 && names_unique(headers_view(r.headers@))
}

/// The headers after `Response::header(key, value)`: set when both the
/// name and the value are valid, else unchanged.
pub open spec fn header_call_spec(hs: Seq<(Seq<char>, Seq<char>)>, key: Seq<char>, value: Seq<char>) -> Seq<(Seq<char>, Seq<char>)> {
    match header_name_of(key) {
        Some(n) => if header_value_ok_spec(value) { header_set(hs, n, value) } else { hs },
        None => hs,
    }
}

impl Default for Response {
    fn default() -> (r: Self)
        ensures
            r.status == 200,
            r.headers@.len() == 0,
            r.body@.len() == 0,
    {
        Response { status: 200, headers: Vec::new(), body: Vec::new() }
    }
}

impl Response {
    /// An empty `200 OK` response.
    pub fn new() -> (r: Self)
        ensures
            r.status == 200,
            r.headers@.len() == 0,
            r.body@.len() == 0,
            response_wf(r),
    {
        Response { status: 200, headers: Vec::new(), body: Vec::new() }
    }

    /// Sets the status code.
    pub fn status(self, status: u16) -> (r: Self)
        requires
            100 <= status <= 999,
        ensures
            r == (Response { status, ..self }),
    {
        Response { status, ..self }
    }

    /// Sets a header; an invalid name or value leaves the response as it is.
    pub fn header(self, key: &str, value: &str) -> (r: Self)
        ensures
            r.status == self.status,
            r.body == self.body,
            headers_view(r.headers@) == header_call_spec(headers_view(self.headers@), key@, value@),
    {
        let mut r = self;
        match parse_header_name(key) {
            Some(name) => {
                if header_value_ok(value) {
                    set_header(&mut r.headers, name, lit(value));
                }
            },
            None => {},
        }
        r
    }

    /// Sets `content-type`; an invalid value leaves the response as it is.
    pub fn content_type(self, content_type: &str) -> (r: Self)
        ensures
            r.status == self.status,
            r.body == self.body,
            headers_view(r.headers@) == if header_value_ok_spec(content_type@) {
                header_set(headers_view(self.headers@), "content-type"@, content_type@)
            } else {
                headers_view(self.headers@)
            },
    {
        let mut r = self;
        if header_value_ok(content_type) {
            set_header(&mut r.headers, lit("content-type"), lit(content_type));
        }
        r
    }

    /// The response as it is sent: a `server: Astrea` header is added when
    /// the response has no `server` header.
    pub fn with_default_server(self) -> (r: Self)
        ensures
            r.status == self.status,
            r.body == self.body,
            headers_view(r.headers@) == if header_get(headers_view(self.headers@), "server"@).is_some() {
                headers_view(self.headers@)
            } else {
                header_set(headers_view(self.headers@), "server"@, "Astrea"@)
            },
    {
        let mut r = self;
        let ghost hv = headers_view(r.headers@);
        proof {
            lemma_header_index(hv, "server"@);
        }
        let mut i: usize = 0;
        let mut present = false;
        while i < r.headers.len()
            invariant
                i <= r.headers@.len(),
                hv == headers_view(r.headers@),
                !present ==> forall|j: int| 0 <= j < i ==> hv[j].0 != "server"@,
                present ==> exists|j: int| 0 <= j < hv.len() && hv[j].0 == "server"@,
            decreases r.headers@.len() - i,
        {
            if str_eq(r.headers[i].0.as_str(), "server") {
                present = true;
                assert(hv[i as int].0 == "server"@);
            }
            i = i + 1;
        }
        if !present {
            proof {
                lemma_no_index(hv, "server"@);
            }
            set_header(&mut r.headers, lit("server"), lit("Astrea"));
        } else {
            proof {
                lemma_header_index(hv, "server"@);
            }
        }
        r
    }
}

/// A `200 OK` response with no headers and the given headers and body.
fn ok_with(content_type: Option<&str>, body: Vec<u8>) -> (r: Response)
    ensures
        r.status == 200,
        r.body == body,
        headers_view(r.headers@) == match content_type {
            Some(c) => seq![("content-type"@, c@)],
            None => Seq::empty(),
        },
{
    let mut headers: Vec<(String, String)> = Vec::new();
    match content_type {
        Some(c) => {
            headers.push((lit("content-type"), lit(c)));
            assert(headers_view(headers@) =~= seq![("content-type"@, c@)]);
        },
        None => {
            assert(headers_view(headers@) =~= Seq::<(Seq<char>, Seq<char>)>::empty());
        },
    }
    Response { status: 200, headers, body }
}

/// The message of a refused redirect.
pub open spec fn invalid_redirect_message(url: Seq<char>) -> Seq<char> {
    "Invalid redirect URL: "@ + url
}

/// A JSON response from a serialized value: `serialized` is what
/// serializing the value gave, its bytes or the serializer's error message.
/// The bytes become a `200 OK` body with `content-type: application/json`;
/// an error becomes an internal error.
pub fn json(serialized: std::result::Result<Vec<u8>, String>) -> (r: crate::error::Result<Response>)
    ensures
        match serialized {
            Ok(b) => r matches Ok(resp) && resp.status == 200 && resp.body == b
                && headers_view(resp.headers@) == seq![("content-type"@, "application/json"@)],
            Err(_) => r matches Err(RouteError::Internal(_)),
        },
{
    match serialized {
        Ok(body) => Ok(ok_with(Some("application/json"), body)),
        Err(e) => {
            let m = concat(&chars_of("Failed to serialize JSON: "), &chars_of(e.as_str()));
            Err(RouteError::Internal(anyhow_message(string_from_chars(m.as_slice()))))
        },
    }
}

/// A plain-text `200 OK` response (`text/plain; charset=utf-8`) whose body
/// is the UTF-8 bytes of `content`.
pub fn text(content: &str) -> (r: Response)
    ensures
        r.status == 200,
        r.body@ == crate::order::str_bytes(content@),
        headers_view(r.headers@) == seq![("content-type"@, "text/plain; charset=utf-8"@)],
{
    ok_with(Some("text/plain; charset=utf-8"), content.as_bytes_vec())
}

/// An HTML `200 OK` response (`text/html; charset=utf-8`) whose body is the
/// UTF-8 bytes of `content`.
pub fn html(content: &str) -> (r: Response)
    ensures
        r.status == 200,
        r.body@ == crate::order::str_bytes(content@),
        headers_view(r.headers@) == seq![("content-type"@, "text/html; charset=utf-8"@)],
{
    ok_with(Some("text/html; charset=utf-8"), content.as_bytes_vec())
}

/// A `302 Found` redirect to `url`; a URL that is not a valid header value
/// is a bad request.
pub fn redirect(url: &str) -> (r: crate::error::Result<Response>)
    ensures
        header_value_ok_spec(url@) ==> (r matches Ok(resp) && resp.status == 302 && resp.body@.len() == 0
            && headers_view(resp.headers@) == seq![("location"@, url@)]),
        !header_value_ok_spec(url@) ==> (r matches Err(RouteError::BadRequest(m))
            && m@ == invalid_redirect_message(url@)),
{
    if !header_value_ok(url) {
        let m = concat(&chars_of("Invalid redirect URL: "), &chars_of(url));
        return Err(RouteError::BadRequest(string_from_chars(m.as_slice())));
    }
    let mut headers: Vec<(String, String)> = Vec::new();
    headers.push((lit("location"), lit(url)));
    assert(headers_view(headers@) =~= seq![("location"@, url@)]);
    Ok(Response { status: 302, headers, body: Vec::new() })
}

/// A `204 No Content` response.
pub fn no_content() -> (r: Response)
    ensures
        r.status == 204,
        r.headers@.len() == 0,
        r.body@.len() == 0,
{
    Response { status: 204, headers: Vec::new(), body: Vec::new() }
}

/// A `200 OK` response with raw bytes and no headers.
pub fn bytes(data: Vec<u8>) -> (r: Response)
    ensures
        r.status == 200,
        r.headers@.len() == 0,
        r.body == data,
{
    Response { status: 200, headers: Vec::new(), body: data }
}

} // verus!
