//! The errors of the proxy and what each is answered.

use vstd::prelude::*;

use crate::reply::{error_reply, error_response_for_path, Reply};
use crate::text::{decimal, decimal_text};

verus! {

/// A span of time: whole seconds and, under a second, nanoseconds.
#[derive(Debug, Clone, Copy, PartialEq, Eq, Structural)]
pub struct Span {
    pub secs: u64,
    pub nanos: u32,
}

impl Span {
    /// Whether the nanoseconds make less than a second.
    pub open spec fn wf(self) -> bool {
        self.nanos < 1_000_000_000
    }
}

/// Why an account could not be used.
#[derive(Debug, Clone, PartialEq)]
pub enum AuthError {
    TokenExpired,
    /// Any other reason, in words.
    Other(String),
}

/// What the upstream API or the check of a request came to.
#[derive(Debug, Clone, PartialEq)]
pub enum ApiError {
    RateLimited { retry_after: Span },
    QuotaExhausted { model: String, reset_time: String },
    InvalidRequest { message: String },
    ServerError { status: u16, message: String },
    CapacityExhausted,
    RequestTooLarge { size: usize, max: usize },
}

/// Why a request could not be served.
#[derive(Debug, Clone, PartialEq)]
pub enum ProxyError {
    Auth(AuthError),
    Api(ApiError),
    Io(String),
    Json(String),
    Http(String),
    Timeout(Span),
}

impl ProxyError {
    /// Whether the spans in it are well formed.
    pub open spec fn wf(self) -> bool {
        match self {
            ProxyError::Api(ApiError::RateLimited { retry_after }) => retry_after.wf(),
            ProxyError::Timeout(d) => d.wf(),
            _ => true,
        }
    }
}

/// How `{:?}` writes a `Duration` of these seconds and nanoseconds.
pub uninterp spec fn duration_debug(secs: u64, nanos: u32) -> Seq<char>;

/// `format!("{:?}", ..)` of a `std::time::Duration`: the text is a function of the
/// duration, which `duration_debug` names.
#[verifier::external_body]
fn duration_text(d: Span) -> (r: String)
    requires
        d.wf(),
    ensures
        r@ == duration_debug(d.secs, d.nanos),
{
    format!("{:?}", std::time::Duration::new(d.secs, d.nanos))
}

/// The status code of a server error: the one it came with where that is a status code
/// at all, else 500.
pub open spec fn relayed_status(status: u16) -> u16 {
    if 100 <= status < 1000 {
        status
    } else {
        500
    }
}

/// What an error is answered: the status code, the type and the message.
pub open spec fn mapped(error: ProxyError) -> (u16, Seq<char>, Seq<char>) {
    match error {
        ProxyError::Auth(AuthError::TokenExpired) => (401, "authentication_error"@, "Token expired"@),
        ProxyError::Auth(AuthError::Other(text)) => (401, "authentication_error"@, text@),
        ProxyError::Api(ApiError::RateLimited { retry_after }) => (
            429,
            "rate_limit_error"@,
            "Rate limited. Retry after "@ + duration_debug(retry_after.secs, retry_after.nanos),
        ),
        ProxyError::Api(ApiError::QuotaExhausted { model, reset_time }) => (
            429,
            "invalid_request_error"@,
            "You have exhausted your capacity on "@ + model@ + ". Quota will reset after "@
                + reset_time@ + "."@,
        ),
        ProxyError::Api(ApiError::InvalidRequest { message }) => (
            400,
            "invalid_request_error"@,
            message@,
        ),
        ProxyError::Api(ApiError::ServerError { status, message }) => (
            relayed_status(status),
            "api_error"@,
            message@,
        ),
        ProxyError::Api(ApiError::CapacityExhausted) => (
            503,
            "overloaded_error"@,
            "Model capacity exhausted"@,
        ),
        ProxyError::Api(ApiError::RequestTooLarge { size, max }) => (
            413,
            "invalid_request_error"@,
            "Request body too large: "@ + decimal(size as nat) + " bytes (max: "@ + decimal(
                max as nat,
            ) + " bytes)"@,
        ),
        ProxyError::Io(text) => (500, "api_error"@, text@),
        ProxyError::Json(text) => (400, "invalid_request_error"@, text@),
        ProxyError::Http(text) => (502, "api_error"@, text@),
        ProxyError::Timeout(d) => (
            504,
            "timeout_error"@,
            "Request timed out after "@ + duration_debug(d.secs, d.nanos),
        ),
    }
}

/// What an error is answered: the status code, the type and the message.
pub fn map_error(error: &ProxyError) -> (r: (u16, &'static str, String))
    requires
        error.wf(),
    ensures
        (r.0, r.1@, r.2@) == mapped(*error),
{
    match error {
        ProxyError::Auth(AuthError::TokenExpired) => (
            401,
            "authentication_error",
            "Token expired".to_owned(),
        ),
        ProxyError::Auth(AuthError::Other(text)) => (401, "authentication_error", text.clone()),
        ProxyError::Api(ApiError::RateLimited { retry_after }) => {
            let mut m = "Rate limited. Retry after ".to_owned();
            m.push_str(&duration_text(*retry_after));
            (429, "rate_limit_error", m)
        },
        ProxyError::Api(ApiError::QuotaExhausted { model, reset_time }) => {
            let mut m = "You have exhausted your capacity on ".to_owned();
            m.push_str(model);
            m.push_str(". Quota will reset after ");
            m.push_str(reset_time);
            m.push_str(".");
            (429, "invalid_request_error", m)
        },
        ProxyError::Api(ApiError::InvalidRequest { message }) => (
            400,
            "invalid_request_error",
            message.clone(),
        ),
        ProxyError::Api(ApiError::ServerError { status, message }) => {
            let s: u16 = if 100 <= *status && *status < 1000 {
                *status
            } else {
                500
            };
            (s, "api_error", message.clone())
        },
        ProxyError::Api(ApiError::CapacityExhausted) => (
            503,
            "overloaded_error",
            "Model capacity exhausted".to_owned(),
        ),
        ProxyError::Api(ApiError::RequestTooLarge { size, max }) => {
            let mut m = "Request body too large: ".to_owned();
            m.push_str(&decimal_text(*size as u64));
            m.push_str(" bytes (max: ");
            m.push_str(&decimal_text(*max as u64));
            m.push_str(" bytes)");
            (413, "invalid_request_error", m)
        },
        ProxyError::Io(text) => (500, "api_error", text.clone()),
        ProxyError::Json(text) => (400, "invalid_request_error", text.clone()),
        ProxyError::Http(text) => (502, "api_error", text.clone()),
        ProxyError::Timeout(d) => {
            let mut m = "Request timed out after ".to_owned();
            m.push_str(&duration_text(*d));
            (504, "timeout_error", m)
        },
    }
}

/// The message of an error, followed by the suggestion where there is one.
pub open spec fn with_suggestion(message: Seq<char>, suggestion: Option<Seq<char>>) -> Seq<char> {
    match suggestion {
        Some(s) => message + ". "@ + s,
        None => message,
    }
}

/// The reply to a request that failed at `path`. The suggestion is what the caller has
/// to say about the error, if anything.
pub fn error_to_response(
    error: &ProxyError,
    suggestion: Option<&str>,
    request_id: &str,
    path: &str,
) -> (r: Reply)
    requires
        error.wf(),
    ensures
        r@ == error_reply(
            mapped(*error).0,
            with_suggestion(
                mapped(*error).2,
                match suggestion {
                    Some(s) => Some(s@),
                    None => None,
                },
            ),
            mapped(*error).1,
            path@,
            request_id@,
        ),
{
    let (status, error_type, message) = map_error(error);
    let mut text = message;
    match suggestion {
        Some(s) => {
            text.push_str(". ");
            text.push_str(s);
        },
        None => {},
    }
    error_response_for_path(status, &text, error_type, path, request_id)
}

/// The invalid-request error with this message.
pub fn invalid_request(message: &str) -> (r: ProxyError)
    ensures
        is_invalid_request(r, message@),
{
    ProxyError::Api(ApiError::InvalidRequest { message: message.to_owned() })
}

/// Whether `e` is the invalid-request error with this message.
pub open spec fn is_invalid_request(e: ProxyError, message: Seq<char>) -> bool {
    e matches ProxyError::Api(ApiError::InvalidRequest { message: m }) && m@ == message
}

/// A body of `size` bytes against the limit: too large is an error that names both.
pub fn check_body_size(size: usize, max: usize) -> (r: Result<(), ProxyError>)
    ensures
        r is Ok <==> size <= max,
        size > max ==> r == Err::<(), ProxyError>(ProxyError::Api(ApiError::RequestTooLarge { size, max })),
{
    if size > max {
        Err(ProxyError::Api(ApiError::RequestTooLarge { size, max }))
    } else {
        Ok(())
    }
}

/// Every error is answered with a status code from 400 to 599, unless it relays an
/// upstream status: then with that one.
pub proof fn errors_are_answered_as_errors(error: ProxyError)
    ensures
        400 <= mapped(error).0 <= 599 || (error matches ProxyError::Api(
            ApiError::ServerError { status, .. },
        ) && mapped(error).0 == relayed_status(status)),
{
}

/// A text of three parts holds its middle.
proof fn lemma_middle_held(a: Seq<char>, p: Seq<char>, b: Seq<char>)
    ensures
        crate::text::holds(a + p + b, p),
{
    assert((a + p + b).subrange(a.len() as int, (a.len() + p.len()) as int) =~= p);
    assert(crate::text::occurs_at(a + p + b, p, a.len() as int));
}

/// Every error has the status of its kind: a fault of the client 400, of its account 401, too
/// much of anything 413 or 429, a fault of the server 500, of what is behind it 502, too much
/// load 503 and too much time 504.
pub proof fn errors_have_the_status_of_their_kind(e: ProxyError)
    ensures
        mapped(e).0 == 400 <==> (e is Json || (e matches ProxyError::Api(a) && (a is InvalidRequest
            || (a matches ApiError::ServerError { status, .. } && status == 400)))),
        e is Auth ==> mapped(e).0 == 401,
        e matches ProxyError::Api(a) && (a is RateLimited || a is QuotaExhausted) ==> mapped(e).0
            == 429,
        e matches ProxyError::Api(a) && a is RequestTooLarge ==> mapped(e).0 == 413,
        e matches ProxyError::Api(a) && a is CapacityExhausted ==> mapped(e).0 == 503,
        e matches ProxyError::Api(ApiError::ServerError { status, .. }) ==> mapped(e).0 == (
        if status < 100 || status > 999 {
            500
        } else {
            status
        }),
        e is Io ==> mapped(e).0 == 500,
        e is Http ==> mapped(e).0 == 502,
        e is Timeout ==> mapped(e).0 == 504,
{
}

/// What an error has to say is passed on: its own message word for word, or the model, the
/// reset and the sizes that it names.
pub proof fn errors_pass_on_what_they_say(e: ProxyError)
    ensures
        e matches ProxyError::Auth(AuthError::Other(t)) ==> mapped(e).2 == t@,
        e matches ProxyError::Io(t) ==> mapped(e).2 == t@,
        e matches ProxyError::Json(t) ==> mapped(e).2 == t@,
        e matches ProxyError::Http(t) ==> mapped(e).2 == t@,
        e matches ProxyError::Api(ApiError::InvalidRequest { message }) ==> mapped(e).2 == message@,
        e matches ProxyError::Api(ApiError::ServerError { message, .. }) ==> mapped(e).2
            == message@,
        e matches ProxyError::Api(ApiError::QuotaExhausted { model, reset_time })
            ==> crate::text::holds(mapped(e).2, model@) && crate::text::holds(
            mapped(e).2,
            reset_time@,
        ),
        e matches ProxyError::Api(ApiError::RequestTooLarge { size, max }) ==> crate::text::holds(
            mapped(e).2,
            decimal(size as nat),
        ) && crate::text::holds(mapped(e).2, decimal(max as nat)),
        e matches ProxyError::Api(ApiError::RateLimited { retry_after }) ==> crate::text::ends(
            mapped(e).2,
            duration_debug(retry_after.secs, retry_after.nanos),
        ),
        e matches ProxyError::Timeout(d) ==> crate::text::ends(
            mapped(e).2,
            duration_debug(d.secs, d.nanos),
        ),
{
    let m = mapped(e).2;
    match e {
        ProxyError::Api(ApiError::QuotaExhausted { model, reset_time }) => {
            let a = "You have exhausted your capacity on "@;
            let b = ". Quota will reset after "@;
            assert(m =~= a + model@ + (b + reset_time@ + "."@));
            lemma_middle_held(a, model@, b + reset_time@ + "."@);
            lemma_middle_held(a + model@ + b, reset_time@, "."@);
        },
        ProxyError::Api(ApiError::RequestTooLarge { size, max }) => {
            let a = "Request body too large: "@;
            let b = " bytes (max: "@;
            let c = " bytes)"@;
            let x = decimal(size as nat);
            let y = decimal(max as nat);
            assert(m =~= a + x + (b + y + c));
            lemma_middle_held(a, x, b + y + c);
            lemma_middle_held(a + x + b, y, c);
        },
        ProxyError::Api(ApiError::RateLimited { retry_after }) => {
            let d = duration_debug(retry_after.secs, retry_after.nanos);
            assert(m.subrange(m.len() - d.len(), m.len() as int) =~= d);
        },
        ProxyError::Timeout(s) => {
            let d = duration_debug(s.secs, s.nanos);
            assert(m.subrange(m.len() - d.len(), m.len() as int) =~= d);
        },
        _ => {},
    }
}

/// A suggestion stands behind the message, which stays whole.
pub proof fn suggestions_stand_behind(message: Seq<char>, suggestion: Seq<char>)
    ensures
        crate::text::starts(with_suggestion(message, Some(suggestion)), message),
        crate::text::ends(with_suggestion(message, Some(suggestion)), suggestion),
        with_suggestion(message, None) == message,
{
    let all = with_suggestion(message, Some(suggestion));
    assert(all.subrange(0, message.len() as int) =~= message);
    assert(all.subrange(all.len() - suggestion.len(), all.len() as int) =~= suggestion);
}

/// A status that HTTP has is passed on, and any other is answered as a fault of the server.
pub proof fn statuses_are_passed_on(status: u16)
    ensures
        status == 100 || status == 999 ==> relayed_status(status) == status,
        100 <= relayed_status(status) <= 999,
        relayed_status(status) != status ==> relayed_status(status) == 500 && (status < 100
            || status > 999),
{
}

} // verus!
