//! HTTP replies as plain values: status, headers in order, body text. The builders of
//! every fixed reply the proxy gives, and how an error becomes one.

use vstd::prelude::*;

use crate::json::{compact_json, json_object, json_str, json_text, with, Json, JsonView};
use crate::text::{same, starts, starts_with};

verus! {

/// A reply: its status code, its headers in the order they are written, its body.
#[derive(Debug, Clone, PartialEq)]
pub struct Reply {
    pub status: u16,
    pub headers: Vec<(String, String)>,
    pub body: String,
}

/// What a reply says.
#[verifier::ext_equal]
pub struct ReplyView {
    pub status: u16,
    pub headers: Seq<(Seq<char>, Seq<char>)>,
    pub body: Seq<char>,
}

/// The names and values of a list of headers.
pub open spec fn headers_view(s: Seq<(String, String)>) -> Seq<(Seq<char>, Seq<char>)> {
    Seq::new(s.len(), |i: int| (s[i].0@, s[i].1@))
}

impl Reply {
    /// What this reply says.
    pub open spec fn view(&self) -> ReplyView {
        ReplyView {
            status: self.status,
            headers: headers_view(self.headers@),
            body: self.body@,
        }
    }

    /// A reply with a status and a body, without headers.
    pub fn new(status: u16, body: String) -> (r: Reply)
        ensures
            r@ == (ReplyView { status, headers: Seq::empty(), body: body@ }),
    {
        let r = Reply { status, headers: Vec::new(), body };
        assert(r@.headers =~= Seq::empty());
        r
    }

    /// This reply with one more header.
    pub fn header(self, name: &str, value: &str) -> (r: Reply)
        ensures
            r@ == (ReplyView { headers: self@.headers.push((name@, value@)), ..self@ }),
    {
        let mut r = self;
        r.headers.push((name.to_owned(), value.to_owned()));
        assert(r@.headers =~= self@.headers.push((name@, value@)));
        r
    }
}

/// The methods that the proxy allows to other origins.
pub open spec fn allowed_methods() -> Seq<char> {
    "GET, POST, OPTIONS"@
}

/// The headers that the proxy allows to other origins.
pub open spec fn allowed_headers() -> Seq<char> {
    "Content-Type, Authorization, X-API-Key, X-No-Cache, Cache-Control"@
}

/// What `json_response` answers.
pub open spec fn json_reply(status: u16, body: Seq<char>) -> ReplyView {
    ReplyView {
        status,
        headers: seq![
            ("Content-Type"@, "application/json"@),
            ("Access-Control-Allow-Origin"@, "*"@),
            ("Access-Control-Allow-Methods"@, allowed_methods()),
            ("Access-Control-Allow-Headers"@, allowed_headers()),
        ],
        body,
    }
}

/// A JSON reply that any origin may read.
pub fn json_response(status: u16, body: &str) -> (r: Reply)
    ensures
        r@ == json_reply(status, body@),
{
    Reply::new(status, body.to_owned()).header("Content-Type", "application/json").header(
        "Access-Control-Allow-Origin",
        "*",
    ).header("Access-Control-Allow-Methods", "GET, POST, OPTIONS").header(
        "Access-Control-Allow-Headers",
        "Content-Type, Authorization, X-API-Key, X-No-Cache, Cache-Control",
    )
}

/// What a preflight request is answered.
pub open spec fn preflight_reply() -> ReplyView {
    ReplyView {
        status: 204,
        headers: seq![
            ("Access-Control-Allow-Origin"@, "*"@),
            ("Access-Control-Allow-Methods"@, allowed_methods()),
            ("Access-Control-Allow-Headers"@, allowed_headers()),
            ("Access-Control-Max-Age"@, "86400"@),
        ],
        body: Seq::empty(),
    }
}

/// The reply to a preflight request: nothing but what is allowed, for a day.
pub fn cors_preflight_response() -> (r: Reply)
    ensures
        r@ == preflight_reply(),
{
    Reply::new(204, String::new()).header("Access-Control-Allow-Origin", "*").header(
        "Access-Control-Allow-Methods",
        "GET, POST, OPTIONS",
    ).header(
        "Access-Control-Allow-Headers",
        "Content-Type, Authorization, X-API-Key, X-No-Cache, Cache-Control",
    ).header("Access-Control-Max-Age", "86400")
}

/// What `json_ok_response` answers.
pub open spec fn json_ok_reply(
    body: Seq<char>,
    request_id: Seq<char>,
    cache: Option<Seq<char>>,
) -> ReplyView {
    let headers = seq![
        ("Content-Type"@, "application/json"@),
        ("X-Request-Id"@, request_id),
        ("Access-Control-Allow-Origin"@, "*"@),
    ];
    ReplyView {
        status: 200,
        headers: match cache {
            Some(c) => headers.push(("X-Cache"@, c)),
            None => headers,
        },
        body,
    }
}

/// A successful JSON reply with the request's id and, where given, how the cache was used.
pub fn json_ok_response(body: String, request_id: &str, cache: Option<&str>) -> (r: Reply)
    ensures
        r@ == json_ok_reply(
            body@,
            request_id@,
            match cache {
                Some(c) => Some(c@),
                None => None,
            },
        ),
{
    let r = Reply::new(200, body).header("Content-Type", "application/json").header(
        "X-Request-Id",
        request_id,
    ).header("Access-Control-Allow-Origin", "*");
    match cache {
        Some(c) => r.header("X-Cache", c),
        None => r,
    }
}

/// The headers of a reply that is a stream of server-sent events.
pub open spec fn sse_headers(request_id: Seq<char>) -> Seq<(Seq<char>, Seq<char>)> {
    seq![
        ("Content-Type"@, "text/event-stream"@),
        ("Cache-Control"@, "no-cache"@),
        ("Connection"@, "keep-alive"@),
        ("X-Request-Id"@, request_id),
        ("X-Cache"@, "BYPASS"@),
    ]
}

/// The head of a streaming reply; the body follows frame by frame.
pub fn sse_streaming_response(request_id: &str) -> (r: Reply)
    ensures
        r@ == (ReplyView {
            status: 200,
            headers: sse_headers(request_id@).push(("Access-Control-Allow-Origin"@, "*"@)),
            body: Seq::empty(),
        }),
{
    sse_ok_response(String::new(), request_id).header("Access-Control-Allow-Origin", "*")
}

/// A stream of server-sent events that is complete already.
pub fn sse_ok_response(body: String, request_id: &str) -> (r: Reply)
    ensures
        r@ == (ReplyView { status: 200, headers: sse_headers(request_id@), body: body@ }),
{
    Reply::new(200, body).header("Content-Type", "text/event-stream").header(
        "Cache-Control",
        "no-cache",
    ).header("Connection", "keep-alive").header("X-Request-Id", request_id).header(
        "X-Cache",
        "BYPASS",
    )
}

/// The shape of an error body.
#[derive(Debug, Clone, Copy, PartialEq, Eq, Structural)]
pub enum ErrorFormat {
    /// `type: error`, the error's type and message, and the request's id.
    Anthropic,
    /// The error's message and type, `param` and `code` null.
    OpenAI,
    /// The error's message and type, and the type again as its code.
    Responses,
}

/// The object under `error` in an error body.
pub open spec fn error_object(
    message: Seq<char>,
    error_type: Seq<char>,
    format: ErrorFormat,
) -> Map<Seq<char>, JsonView> {
    let base = Map::empty().insert("message"@, JsonView::Text(message)).insert(
        "type"@,
        JsonView::Text(error_type),
    );
    match format {
        ErrorFormat::Anthropic => base,
        ErrorFormat::OpenAI => base.insert("param"@, JsonView::Null).insert("code"@, JsonView::Null),
        ErrorFormat::Responses => base.insert("code"@, JsonView::Text(error_type)),
    }
}

/// The value of an error body. The request's id stands in the Anthropic format alone.
pub open spec fn error_body(
    message: Seq<char>,
    error_type: Seq<char>,
    format: ErrorFormat,
    request_id: Option<Seq<char>>,
) -> JsonView {
    let error = JsonView::Object(error_object(message, error_type, format));
    JsonView::Object(
        match format {
            ErrorFormat::Anthropic => {
                let body = Map::empty().insert("type"@, JsonView::Text("error"@)).insert(
                    "error"@,
                    error,
                );
                match request_id {
                    Some(id) => body.insert("request_id"@, JsonView::Text(id)),
                    None => body,
                }
            },
            _ => Map::empty().insert("error"@, error),
        },
    )
}

/// The body of an error reply, as text.
pub fn error_response_body(
    message: &str,
    error_type: &str,
    format: ErrorFormat,
    request_id: Option<&str>,
) -> (r: String)
    ensures
        r@ == compact_json(
            error_body(
                message@,
                error_type@,
                format,
                match request_id {
                    Some(id) => Some(id@),
                    None => None,
                },
            ),
        ),
{
    let error = with(
        with(json_object(), "message", json_str(message)),
        "type",
        json_str(error_type),
    );
    let body = match format {
        ErrorFormat::Anthropic => {
            let body = with(with(json_object(), "type", json_str("error")), "error", error);
            match request_id {
                Some(id) => with(body, "request_id", json_str(id)),
                None => body,
            }
        },
        ErrorFormat::OpenAI => {
            let error = with(with(error, "param", Json::Null), "code", Json::Null);
            with(json_object(), "error", error)
        },
        ErrorFormat::Responses => {
            let error = with(error, "code", json_str(error_type));
            with(json_object(), "error", error)
        },
    };
    json_text(&body)
}

/// An error reply without the request's id.
pub fn error_response(status: u16, message: &str, error_type: &str, format: ErrorFormat) -> (r:
    Reply)
    ensures
        r@ == (ReplyView {
            status,
            headers: seq![("Content-Type"@, "application/json"@)],
            body: compact_json(error_body(message@, error_type@, format, None)),
        }),
{
    Reply::new(status, error_response_body(message, error_type, format, None)).header(
        "Content-Type",
        "application/json",
    )
}

/// An error reply in the format of the Responses API.
pub fn responses_error_response(status: u16, message: &str, error_type: &str) -> (r: Reply)
    ensures
        r@ == (ReplyView {
            status,
            headers: seq![("Content-Type"@, "application/json"@)],
            body: compact_json(error_body(message@, error_type@, ErrorFormat::Responses, None)),
        }),
{
    error_response(status, message, error_type, ErrorFormat::Responses)
}

/// An error reply in OpenAI's format.
pub fn openai_error_response(status: u16, message: &str, error_type: &str) -> (r: Reply)
    ensures
        r@ == (ReplyView {
            status,
            headers: seq![("Content-Type"@, "application/json"@)],
            body: compact_json(error_body(message@, error_type@, ErrorFormat::OpenAI, None)),
        }),
{
    error_response(status, message, error_type, ErrorFormat::OpenAI)
}

/// The paths of the Responses API.
pub open spec fn is_responses_path(path: Seq<char>) -> bool {
    ||| path == "/v1/responses"@
    ||| path == "/responses"@
    ||| path == "/v1/chat/completions/responses"@
    ||| path == "/chat/completions/responses"@
}

/// The paths of OpenAI's other APIs.
pub open spec fn is_openai_path(path: Seq<char>) -> bool {
    ||| starts(path, "/v1/models/"@)
    ||| starts(path, "/models/"@)
    ||| path == "/v1/chat/completions"@
    ||| path == "/chat/completions"@
    ||| path == "/v1/completions"@
    ||| path == "/completions"@
    ||| path == "/v1/models"@
    ||| path == "/models"@
    ||| path == "/v1/models/detect"@
    ||| path == "/models/detect"@
    ||| path == "/v1/images/generations"@
    ||| path == "/images/generations"@
    ||| path == "/v1/images/edits"@
    ||| path == "/images/edits"@
    ||| path == "/v1/images/variations"@
    ||| path == "/images/variations"@
    ||| path == "/v1/audio/transcriptions"@
    ||| path == "/audio/transcriptions"@
}

/// The format of the errors of a path: that of the API the path belongs to.
pub open spec fn format_of_path(path: Seq<char>) -> ErrorFormat {
    if is_responses_path(path) {
        ErrorFormat::Responses
    } else if is_openai_path(path) {
        ErrorFormat::OpenAI
    } else {
        ErrorFormat::Anthropic
    }
}

/// The format of the errors of a path.
pub fn error_format_for_path(path: &str) -> (r: ErrorFormat)
    ensures
        r == format_of_path(path@),
{
    if same(path, "/v1/responses") || same(path, "/responses") || same(
        path,
        "/v1/chat/completions/responses",
    ) || same(path, "/chat/completions/responses") {
        ErrorFormat::Responses
    } else if starts_with(path, "/v1/models/") || starts_with(path, "/models/") || same(
        path,
        "/v1/chat/completions",
    ) || same(path, "/chat/completions") || same(path, "/v1/completions") || same(
        path,
        "/completions",
    ) || same(path, "/v1/models") || same(path, "/models") || same(path, "/v1/models/detect")
        || same(path, "/models/detect") || same(path, "/v1/images/generations") || same(
        path,
        "/images/generations",
    ) || same(path, "/v1/images/edits") || same(path, "/images/edits") || same(
        path,
        "/v1/images/variations",
    ) || same(path, "/images/variations") || same(path, "/v1/audio/transcriptions") || same(
        path,
        "/audio/transcriptions",
    ) {
        ErrorFormat::OpenAI
    } else {
        ErrorFormat::Anthropic
    }
}

/// What an error at a path is answered.
pub open spec fn error_reply(
    status: u16,
    message: Seq<char>,
    error_type: Seq<char>,
    path: Seq<char>,
    request_id: Seq<char>,
) -> ReplyView {
    ReplyView {
        status,
        headers: seq![("Content-Type"@, "application/json"@), ("X-Request-Id"@, request_id)],
        body: compact_json(
            error_body(message, error_type, format_of_path(path), Some(request_id)),
        ),
    }
}

/// An error reply in the format of the path.
pub fn error_response_for_path(
    status: u16,
    message: &str,
    error_type: &str,
    path: &str,
    request_id: &str,
) -> (r: Reply)
    ensures
        r@ == error_reply(status, message@, error_type@, path@, request_id@),
{
    let format = error_format_for_path(path);
    Reply::new(status, error_response_body(message, error_type, format, Some(request_id))).header(
        "Content-Type",
        "application/json",
    ).header("X-Request-Id", request_id)
}

/// The entry of a key in an object.
spec fn at(v: JsonView, key: Seq<char>) -> Option<JsonView> {
    crate::json::entry(v, key)
}

/// An error says what went wrong, in every format: its message and its type stand under
/// `error`; the request's id stands in Anthropic's format, and the type again as the code in
/// that of the Responses API.
pub proof fn errors_say_what_went_wrong(
    message: Seq<char>,
    error_type: Seq<char>,
    format: ErrorFormat,
    request_id: Option<Seq<char>>,
)
    ensures
        ({
            let v = error_body(message, error_type, format, request_id);
            &&& crate::json::entry(v, "error"@) is Some
            &&& crate::json::entry(crate::json::entry(v, "error"@)->0, "message"@) == Some(
                JsonView::Text(message),
            )
            &&& crate::json::entry(crate::json::entry(v, "error"@)->0, "type"@) == Some(
                JsonView::Text(error_type),
            )
            &&& format == ErrorFormat::Anthropic ==> crate::json::entry(v, "type"@) == Some(
                JsonView::Text("error"@),
            ) && crate::json::entry(v, "request_id"@) == (match request_id {
                Some(id) => Some(JsonView::Text(id)),
                None => None,
            })
            &&& format == ErrorFormat::OpenAI ==> crate::json::entry(
                crate::json::entry(v, "error"@)->0,
                "code"@,
            ) == Some(JsonView::Null) && crate::json::entry(
                crate::json::entry(v, "error"@)->0,
                "param"@,
            ) == Some(JsonView::Null)
            &&& format == ErrorFormat::Responses ==> crate::json::entry(
                crate::json::entry(v, "error"@)->0,
                "code"@,
            ) == Some(JsonView::Text(error_type))
        }),
{
    reveal_strlit("message");
    reveal_strlit("type");
    reveal_strlit("param");
    reveal_strlit("code");
    reveal_strlit("error");
    reveal_strlit("request_id");
    assert("message"@.len() != "type"@.len());
    assert("message"@.len() != "param"@.len());
    assert("message"@.len() != "code"@.len());
    assert("message"@.len() != "error"@.len());
    assert("message"@.len() != "request_id"@.len());
    assert("type"@.len() != "param"@.len());
    assert("type"@[0] != "code"@[0]);
    assert("type"@.len() != "error"@.len());
    assert("type"@.len() != "request_id"@.len());
    assert("param"@.len() != "code"@.len());
    assert("param"@[0] != "error"@[0]);
    assert("param"@.len() != "request_id"@.len());
    assert("code"@.len() != "error"@.len());
    assert("code"@.len() != "request_id"@.len());
    assert("error"@.len() != "request_id"@.len());
}

/// An error at a path is answered with its own status, under the request's id.
pub proof fn errors_keep_their_status(
    status: u16,
    message: Seq<char>,
    error_type: Seq<char>,
    path: Seq<char>,
    request_id: Seq<char>,
)
    ensures
        ({
            let r = error_reply(status, message, error_type, path, request_id);
            &&& r.status == status
            &&& r.headers.contains(("X-Request-Id"@, request_id))
            &&& r.headers.contains(("Content-Type"@, "application/json"@))
            &&& r.body == compact_json(
                error_body(message, error_type, format_of_path(path), Some(request_id)),
            )
        }),
{
    let r = error_reply(status, message, error_type, path, request_id);
    assert(r.headers[0] == ("Content-Type"@, "application/json"@));
    assert(r.headers[1] == ("X-Request-Id"@, request_id));
}

/// A reply of JSON carries its body, its status, the request's id and what is said of the
/// cache, and can be read from any origin.
pub proof fn json_replies_are_whole(
    status: u16,
    body: Seq<char>,
    request_id: Seq<char>,
    cache: Option<Seq<char>>,
)
    ensures
        json_reply(status, body).status == status,
        json_reply(status, body).body == body,
        json_reply(status, body).headers.contains(("Access-Control-Allow-Origin"@, "*"@)),
        json_ok_reply(body, request_id, cache).status == 200,
        json_ok_reply(body, request_id, cache).body == body,
        json_ok_reply(body, request_id, cache).headers.contains(("X-Request-Id"@, request_id)),
        json_ok_reply(body, request_id, cache).headers.contains(
            ("Access-Control-Allow-Origin"@, "*"@),
        ),
        json_ok_reply(body, request_id, cache).headers.contains(
            ("Content-Type"@, "application/json"@),
        ),
        cache matches Some(c) ==> json_ok_reply(body, request_id, cache).headers.contains(
            ("X-Cache"@, c),
        ),
        sse_headers(request_id).contains(("Content-Type"@, "text/event-stream"@)),
        sse_headers(request_id).contains(("X-Request-Id"@, request_id)),
        sse_headers(request_id).contains(("Cache-Control"@, "no-cache"@)),
        preflight_reply().status == 204,
        preflight_reply().headers.contains(("Access-Control-Allow-Origin"@, "*"@)),
        preflight_reply().headers.contains(
            ("Access-Control-Allow-Methods"@, "GET, POST, OPTIONS"@),
        ),
{
    let a = json_reply(status, body).headers;
    assert(a[1] == ("Access-Control-Allow-Origin"@, "*"@));
    let b = json_ok_reply(body, request_id, cache).headers;
    assert(b[0] == ("Content-Type"@, "application/json"@));
    assert(b[1] == ("X-Request-Id"@, request_id));
    assert(b[2] == ("Access-Control-Allow-Origin"@, "*"@));
    if cache is Some {
        assert(b[3] == ("X-Cache"@, cache->0));
    }
    let c = sse_headers(request_id);
    assert(c[0] == ("Content-Type"@, "text/event-stream"@));
    assert(c[1] == ("Cache-Control"@, "no-cache"@));
    assert(c[3] == ("X-Request-Id"@, request_id));
    let d = preflight_reply().headers;
    assert(d[0] == ("Access-Control-Allow-Origin"@, "*"@));
    assert(d[1] == ("Access-Control-Allow-Methods"@, "GET, POST, OPTIONS"@));
}

} // verus!
