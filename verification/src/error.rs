//! Route errors: each kind of failure maps to an HTTP status code and a JSON
//! body `{"error": <message>, "status": <code>}`.
use vstd::prelude::*;
use crate::json::{JsonValue, Json, json_view, members_view};
use crate::text::{chars_of, concat, decimal_chars, decimal_spec, lit, string_from_chars};

verus! {

/// `anyhow::Error`, carried by internal errors.
#[verifier::external_type_specification]
#[verifier::external_body]
pub struct ExAnyhowError(anyhow::Error);

/// The canonical reason phrase of a status code, as the `http` crate's
/// table gives it (`Some("Not Found")` for 404, `None` for unassigned codes).
pub uninterp spec fn reason_phrase(code: u16) -> Option<Seq<char>>;

/// Calls `http::StatusCode::canonical_reason` on the status code `code`
/// (100 to 999); the result is the named reason phrase.
#[verifier::external_body]
fn canonical_reason(code: u16) -> (r: Option<&'static str>)
    requires
        100 <= code <= 999,
    ensures
        match r {
            Some(p) => reason_phrase(code) == Some(p@),
            None => reason_phrase(code).is_none(),
        },
{
    match axum::http::StatusCode::from_u16(code) {
        Ok(s) => s.canonical_reason(),
        Err(_) => None,
    }
}

/// Calls `anyhow::Error`'s `Display` (`to_string`). What it writes depends
/// on the error chain inside the opaque value; nothing is stated of it.
#[verifier::external_body]
fn anyhow_display(e: &anyhow::Error) -> String {
    e.to_string()
}

/// A failure of a route handler.
#[derive(Debug)]
pub enum RouteError {
    /// 400 Bad Request.
    BadRequest(String),
    /// 404 Not Found.
    NotFound(String),
    /// 401 Unauthorized.
    Unauthorized(String),
    /// 403 Forbidden.
    Forbidden(String),
    /// 405 Method Not Allowed.
    MethodNotAllowed(String),
    /// 409 Conflict.
    Conflict(String),
    /// 422 Unprocessable Entity.
    Validation(String),
    /// 429 Too Many Requests.
    RateLimit(String),
    /// 500 Internal Server Error, from any error turned into `anyhow::Error`.
    Internal(anyhow::Error),
    /// Any status code (100 to 999) with a message.
    Custom { status: u16, message: String },
}

/// A result whose error is a [`RouteError`].
pub type Result<T> = std::result::Result<T, RouteError>;

/// Every custom status code is a valid HTTP status code.
pub open spec fn route_error_wf(e: RouteError) -> bool {
    match e {
        RouteError::Custom { status, .. } => 100 <= status <= 999,
        _ => true,
    }
}

/// The HTTP status code of an error.
pub open spec fn status_spec(e: RouteError) -> u16 {
    match e {
        RouteError::BadRequest(_) => 400,
        RouteError::NotFound(_) => 404,
        RouteError::Unauthorized(_) => 401,
        RouteError::Forbidden(_) => 403,
        RouteError::MethodNotAllowed(_) => 405,
        RouteError::Conflict(_) => 409,
        RouteError::Validation(_) => 422,
        RouteError::RateLimit(_) => 429,
        RouteError::Internal(_) => 500,
        RouteError::Custom { status, .. } => status,
    }
}

/// The message of an error, for every kind but `Internal` (whose message is
/// what the carried error displays).
pub open spec fn message_spec(e: RouteError) -> Option<Seq<char>> {
    match e {
        RouteError::BadRequest(m) => Some(m@),
        RouteError::NotFound(m) => Some(m@),
        RouteError::Unauthorized(m) => Some(m@),
        RouteError::Forbidden(m) => Some(m@),
        RouteError::MethodNotAllowed(m) => Some(m@),
        RouteError::Conflict(m) => Some(m@),
        RouteError::Validation(m) => Some(m@),
        RouteError::RateLimit(m) => Some(m@),
        RouteError::Internal(_) => None,
        RouteError::Custom { message, .. } => Some(message@),
    }
}

/// The JSON body of an error response.
pub open spec fn error_body_spec(message: Seq<char>, status: u16) -> Json {
    Json::Object(seq![("error"@, Json::Str(message)), ("status"@, Json::Number(status as nat))])
}

/// The text of a status code as `http::StatusCode` displays it: the code,
/// a space, and the reason phrase (or `<unknown status code>`).
pub open spec fn status_text_spec(code: u16) -> Seq<char> {
    decimal_spec(code as nat) + " "@ + match reason_phrase(code) {
        Some(p) => p,
        None => "<unknown status code>"@,
    }
}

/// What an error displays: a prefix naming its kind, then its message. For a
/// custom error, `Error <status text>: <message>`. For an internal error the
/// message part is what the carried error displays, so only the prefix is
/// stated here.
pub open spec fn display_prefix(e: RouteError) -> Seq<char> {
    match e {
        RouteError::BadRequest(_) => "Bad request: "@,
        RouteError::NotFound(_) => "Not found: "@,
        RouteError::Unauthorized(_) => "Unauthorized: "@,
        RouteError::Forbidden(_) => "Forbidden: "@,
        RouteError::MethodNotAllowed(_) => "Method not allowed: "@,
        RouteError::Conflict(_) => "Conflict: "@,
        RouteError::Validation(_) => "Validation error: "@,
        RouteError::RateLimit(_) => "Too many requests: "@,
        RouteError::Internal(_) => "Internal error: "@,
        RouteError::Custom { status, .. } => "Error "@ + status_text_spec(status) + ": "@,
    }
}

impl RouteError {
    /// A 400 error.
    pub fn bad_request(message: &str) -> (r: Self)
        ensures
            r matches RouteError::BadRequest(m) && m@ == message@,
    {
        RouteError::BadRequest(lit(message))
    }

    /// A 404 error.
    pub fn not_found(message: &str) -> (r: Self)
        ensures
            r matches RouteError::NotFound(m) && m@ == message@,
    {
        RouteError::NotFound(lit(message))
    }

    /// A 401 error.
    pub fn unauthorized(message: &str) -> (r: Self)
        ensures
            r matches RouteError::Unauthorized(m) && m@ == message@,
    {
        RouteError::Unauthorized(lit(message))
    }

    /// A 403 error.
    pub fn forbidden(message: &str) -> (r: Self)
        ensures
            r matches RouteError::Forbidden(m) && m@ == message@,
    {
        RouteError::Forbidden(lit(message))
    }

    /// A 409 error.
    pub fn conflict(message: &str) -> (r: Self)
        ensures
            r matches RouteError::Conflict(m) && m@ == message@,
    {
        RouteError::Conflict(lit(message))
    }

    /// A 422 error.
    pub fn validation(message: &str) -> (r: Self)
        ensures
            r matches RouteError::Validation(m) && m@ == message@,
    {
        RouteError::Validation(lit(message))
    }

    /// A 429 error.
    pub fn rate_limit(message: &str) -> (r: Self)
        ensures
            r matches RouteError::RateLimit(m) && m@ == message@,
    {
        RouteError::RateLimit(lit(message))
    }

    /// An error with any status code from 100 to 999.
    pub fn custom(status: u16, message: &str) -> (r: Self)
        requires
            100 <= status <= 999,
        ensures
            r matches RouteError::Custom { status: s, message: m } && s == status && m@ == message@,
    {
        RouteError::Custom { status, message: lit(message) }
    }

    /// The HTTP status code of the error.
    pub fn status_code(&self) -> (r: u16)
        ensures
            r == status_spec(*self),
    {
        match self {
            RouteError::BadRequest(_) => 400,
            RouteError::NotFound(_) => 404,
            RouteError::Unauthorized(_) => 401,
            RouteError::Forbidden(_) => 403,
            RouteError::MethodNotAllowed(_) => 405,
            RouteError::Conflict(_) => 409,
            RouteError::Validation(_) => 422,
            RouteError::RateLimit(_) => 429,
            RouteError::Internal(_) => 500,
            RouteError::Custom { status, .. } => *status,
        }
    }

    /// The error's message (for an internal error, what it displays).
    pub fn message(&self) -> (r: String)
        ensures
            message_spec(*self) matches Some(m) ==> r@ == m,
    {
        match self {
            RouteError::BadRequest(m) => m.clone(),
            RouteError::NotFound(m) => m.clone(),
            RouteError::Unauthorized(m) => m.clone(),
            RouteError::Forbidden(m) => m.clone(),
            RouteError::MethodNotAllowed(m) => m.clone(),
            RouteError::Conflict(m) => m.clone(),
            RouteError::Validation(m) => m.clone(),
            RouteError::RateLimit(m) => m.clone(),
            RouteError::Internal(e) => anyhow_display(e),
            RouteError::Custom { message, .. } => message.clone(),
        }
    }

    /// The JSON body of the error response: `{"error": <message>, "status": <code>}`.
    pub fn error_body(&self) -> (r: JsonValue)
        ensures
            exists|m: Seq<char>| #[trigger] error_body_spec(m, status_spec(*self)) == json_view(r)
                && (message_spec(*self) matches Some(mm) ==> m == mm),
    {
        let msg = self.message();
        let status = self.status_code();
        let ghost mv = msg@;
        let members = vec![
            (lit("error"), JsonValue::Str(msg)),
            (lit("status"), JsonValue::Number(status as u64)),
        ];
        proof {
            crate::json::lemma_object_view(members);
            assert(members_view(members@) =~= seq![("error"@, Json::Str(mv)), ("status"@, Json::Number(status as nat))]);
            assert(error_body_spec(mv, status_spec(*self)) == json_view(JsonValue::Object(members)));
        }
        let r = JsonValue::Object(members);
        r
    }

    /// What the error displays: `Bad request: <message>`, `Not found: ...`,
    /// `Unauthorized: ...`, `Forbidden: ...`, `Method not allowed: ...`,
    /// `Conflict: ...`, `Validation error: ...`, `Too many requests: ...`,
    /// `Internal error: ...`, or `Error <code> <reason>: <message>`.
    pub fn to_string(&self) -> (r: String)
        requires
            route_error_wf(*self),
        ensures
            exists|m: Seq<char>| #[trigger] (display_prefix(*self) + m) == r@
                && (message_spec(*self) matches Some(mm) ==> m == mm),
    {
        let prefix: Vec<char> = match self {
            RouteError::BadRequest(_) => chars_of("Bad request: "),
            RouteError::NotFound(_) => chars_of("Not found: "),
            RouteError::Unauthorized(_) => chars_of("Unauthorized: "),
            RouteError::Forbidden(_) => chars_of("Forbidden: "),
            RouteError::MethodNotAllowed(_) => chars_of("Method not allowed: "),
            RouteError::Conflict(_) => chars_of("Conflict: "),
            RouteError::Validation(_) => chars_of("Validation error: "),
            RouteError::RateLimit(_) => chars_of("Too many requests: "),
            RouteError::Internal(_) => chars_of("Internal error: "),
            RouteError::Custom { status, .. } => {
                let d = decimal_chars(*status as u64);
                let t = concat(&chars_of("Error "), &d);
                let t = concat(&t, &chars_of(" "));
                let reason = match canonical_reason(*status) {
                    Some(p) => chars_of(p),
                    None => chars_of("<unknown status code>"),
                };
                let t = concat(&t, &reason);
                concat(&t, &chars_of(": "))
            },
        };
        assert(prefix@ == display_prefix(*self));
        let msg = self.message();
        let all = concat(&prefix, &chars_of(msg.as_str()));
        let r = string_from_chars(all.as_slice());
        assert(display_prefix(*self) + msg@ == r@);
        r
    }
}

/// Any error turned into `anyhow::Error` becomes an internal (500) error,
/// so `?` works on fallible operations inside handlers.
impl From<anyhow::Error> for RouteError {
    fn from(e: anyhow::Error) -> (r: Self) {
        RouteError::Internal(e)
    }
}

impl vstd::std_specs::convert::FromSpecImpl<anyhow::Error> for RouteError {
    open spec fn obeys_from_spec() -> bool {
        true
    }

    open spec fn from_spec(v: anyhow::Error) -> RouteError {
        RouteError::Internal(v)
    }
}

} // verus!
