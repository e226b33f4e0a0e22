//! Which requests are let in, and what serves each.

use vstd::prelude::*;

use crate::reply::{
    error_reply, error_response_for_path, format_of_path, json_reply, json_response, ErrorFormat,
    Reply,
};
use crate::text::{
    after, ends, ends_with, hex, push_hex, same, starts, starts_with, strip_prefix,
};

verus! {

/// The HTTP methods that are told apart.
#[derive(Debug, Clone, Copy, PartialEq, Eq, Structural)]
pub enum Method {
    Get,
    Post,
    Options,
    Other,
}

/// Which of the two image routes that take an image.
#[derive(Debug, Clone, Copy, PartialEq, Eq, Structural)]
pub enum ImageEditMode {
    Edits,
    Variations,
}

impl ImageEditMode {
    /// The path that the statistics count the mode under.
    pub fn route(self) -> (r: &'static str)
        ensures
            r@ == (match self {
                ImageEditMode::Edits => "/v1/images/edits"@,
                ImageEditMode::Variations => "/v1/images/variations"@,
            }),
    {
        match self {
            ImageEditMode::Edits => "/v1/images/edits",
            ImageEditMode::Variations => "/v1/images/variations",
        }
    }

    /// What the model is told to do.
    pub open spec fn instruction(self) -> Seq<char> {
        match self {
            ImageEditMode::Edits => "Edit the provided image according to the prompt."@,
            ImageEditMode::Variations => "Create variations of the provided image."@,
        }
    }

    /// What the model is told to do.
    pub fn action(self) -> (r: &'static str)
        ensures
            r@ == self.instruction(),
    {
        match self {
            ImageEditMode::Edits => "Edit the provided image according to the prompt.",
            ImageEditMode::Variations => "Create variations of the provided image.",
        }
    }

    /// Whether the request must say what to do.
    pub fn requires_prompt(self) -> (r: bool)
        ensures
            r == (self == ImageEditMode::Edits),
    {
        match self {
            ImageEditMode::Edits => true,
            ImageEditMode::Variations => false,
        }
    }
}

/// What serves a request.
#[derive(Debug, Clone, Copy, PartialEq, Eq, Structural)]
pub enum Route {
    Messages,
    ChatCompletions,
    Responses,
    Completions,
    ImagesGenerations,
    ImagesEditLike(ImageEditMode),
    AudioTranscriptions,
    CountTokens,
    GeminiModels,
    GeminiModel,
    GeminiCountTokens,
    GeminiGenerateContent,
    GeminiStreamGenerateContent,
    InternalWarmup,
    /// Answered `{"status":"ok"}` at once.
    Acknowledge,
    Models,
    ModelById,
    ModelDetect,
    Stats,
    CacheStats,
    CacheClear,
    AccountLimits,
    LogsStream,
    NotFound,
}

/// What serves a `POST` to `path`.
pub open spec fn post_route(path: Seq<char>) -> Route {
    if path == "/v1/messages"@ || path == "/messages"@ {
        Route::Messages
    } else if path == "/v1/chat/completions"@ || path == "/chat/completions"@ {
        Route::ChatCompletions
    } else if path == "/v1/responses"@ || path == "/responses"@ || path
        == "/v1/chat/completions/responses"@ || path == "/chat/completions/responses"@ {
        Route::Responses
    } else if path == "/v1/completions"@ || path == "/completions"@ {
        Route::Completions
    } else if path == "/v1/images/generations"@ || path == "/images/generations"@ {
        Route::ImagesGenerations
    } else if path == "/v1/images/edits"@ || path == "/images/edits"@ {
        Route::ImagesEditLike(ImageEditMode::Edits)
    } else if path == "/v1/images/variations"@ || path == "/images/variations"@ {
        Route::ImagesEditLike(ImageEditMode::Variations)
    } else if path == "/v1/audio/transcriptions"@ || path == "/audio/transcriptions"@ {
        Route::AudioTranscriptions
    } else if path == "/v1/messages/count_tokens"@ {
        Route::CountTokens
    } else if starts(path, "/v1beta/models/"@) && ends(path, ":countTokens"@) {
        Route::GeminiCountTokens
    } else if starts(path, "/v1beta/models/"@) && ends(path, ":generateContent"@) {
        Route::GeminiGenerateContent
    } else if starts(path, "/v1beta/models/"@) && ends(path, ":streamGenerateContent"@) {
        Route::GeminiStreamGenerateContent
    } else if path == "/internal/warmup"@ {
        Route::InternalWarmup
    } else if path == "/api/event_logging/batch"@ || path == "/v1/api/event_logging/batch"@ || path
        == "/v1/api/event_logging"@ || path == "/"@ {
        Route::Acknowledge
    } else if path == "/v1/models/detect"@ || path == "/models/detect"@ {
        Route::ModelDetect
    } else if path == "/cache/clear"@ {
        Route::CacheClear
    } else {
        Route::NotFound
    }
}

/// What serves a `GET` of `path`.
pub open spec fn get_route(path: Seq<char>) -> Route {
    if path == "/v1beta/models"@ {
        Route::GeminiModels
    } else if starts(path, "/v1beta/models/"@) {
        Route::GeminiModel
    } else if path == "/v1/models"@ || path == "/models"@ {
        Route::Models
    } else if starts(path, "/v1/models/"@) || starts(path, "/models/"@) {
        Route::ModelById
    } else if path == "/stats"@ || path == "/v1/stats"@ {
        Route::Stats
    } else if path == "/cache/stats"@ {
        Route::CacheStats
    } else if path == "/account-limits"@ {
        Route::AccountLimits
    } else if path == "/api/logs/stream"@ {
        Route::LogsStream
    } else if path == "/health"@ || path == "/healthz"@ || path == "/"@ {
        Route::Acknowledge
    } else {
        Route::NotFound
    }
}

/// What serves a request.
pub open spec fn routed(method: Method, path: Seq<char>) -> Route {
    match method {
        Method::Post => post_route(path),
        Method::Get => get_route(path),
        _ => Route::NotFound,
    }
}

/// What serves a request.
pub fn route(method: Method, path: &str) -> (r: Route)
    ensures
        r == routed(method, path@),
{
    match method {
        Method::Post => {
            if same(path, "/v1/messages") || same(path, "/messages") {
                Route::Messages
            } else if same(path, "/v1/chat/completions") || same(path, "/chat/completions") {
                Route::ChatCompletions
            } else if same(path, "/v1/responses") || same(path, "/responses") || same(
                path,
                "/v1/chat/completions/responses",
            ) || same(path, "/chat/completions/responses") {
                Route::Responses
            } else if same(path, "/v1/completions") || same(path, "/completions") {
                Route::Completions
            } else if same(path, "/v1/images/generations") || same(path, "/images/generations") {
                Route::ImagesGenerations
            } else if same(path, "/v1/images/edits") || same(path, "/images/edits") {
                Route::ImagesEditLike(ImageEditMode::Edits)
            } else if same(path, "/v1/images/variations") || same(path, "/images/variations") {
                Route::ImagesEditLike(ImageEditMode::Variations)
            } else if same(path, "/v1/audio/transcriptions") || same(
                path,
                "/audio/transcriptions",
            ) {
                Route::AudioTranscriptions
            } else if same(path, "/v1/messages/count_tokens") {
                Route::CountTokens
            } else if starts_with(path, "/v1beta/models/") && ends_with(path, ":countTokens") {
                Route::GeminiCountTokens
            } else if starts_with(path, "/v1beta/models/") && ends_with(path, ":generateContent") {
                Route::GeminiGenerateContent
            } else if starts_with(path, "/v1beta/models/") && ends_with(
                path,
                ":streamGenerateContent",
            ) {
                Route::GeminiStreamGenerateContent
            } else if same(path, "/internal/warmup") {
                Route::InternalWarmup
            } else if same(path, "/api/event_logging/batch") || same(
                path,
                "/v1/api/event_logging/batch",
            ) || same(path, "/v1/api/event_logging") || same(path, "/") {
                Route::Acknowledge
            } else if same(path, "/v1/models/detect") || same(path, "/models/detect") {
                Route::ModelDetect
            } else if same(path, "/cache/clear") {
                Route::CacheClear
            } else {
                Route::NotFound
            }
        },
        Method::Get => {
            if same(path, "/v1beta/models") {
                Route::GeminiModels
            } else if starts_with(path, "/v1beta/models/") {
                Route::GeminiModel
            } else if same(path, "/v1/models") || same(path, "/models") {
                Route::Models
            } else if starts_with(path, "/v1/models/") || starts_with(path, "/models/") {
                Route::ModelById
            } else if same(path, "/stats") || same(path, "/v1/stats") {
                Route::Stats
            } else if same(path, "/cache/stats") {
                Route::CacheStats
            } else if same(path, "/account-limits") {
                Route::AccountLimits
            } else if same(path, "/api/logs/stream") {
                Route::LogsStream
            } else if same(path, "/health") || same(path, "/healthz") || same(path, "/") {
                Route::Acknowledge
            } else {
                Route::NotFound
            }
        },
        _ => Route::NotFound,
    }
}

/// The view of a header that may be missing.
pub open spec fn header(h: Option<&str>) -> Option<Seq<char>> {
    match h {
        Some(t) => Some(t@),
        None => None,
    }
}

/// The key that a request brings: what follows `Bearer ` in its `Authorization` header
/// or, where there is no such, its `X-API-Key` header.
pub open spec fn provided_key(
    authorization: Option<Seq<char>>,
    x_api_key: Option<Seq<char>>,
) -> Option<Seq<char>> {
    match authorization {
        Some(h) => if starts(h, "Bearer "@) {
            Some(after(h, "Bearer "@))
        } else {
            x_api_key
        },
        None => x_api_key,
    }
}

/// Whether the key is asked for at a path.
pub open spec fn guarded(path: Seq<char>) -> bool {
    starts(path, "/v1/"@) || starts(path, "/v1beta/"@)
}

/// What becomes of a request before anything serves it.
#[derive(Debug, Clone, Copy, PartialEq, Eq, Structural)]
pub enum Admission {
    /// A preflight request: answered at once.
    Preflight,
    /// Its key is missing or wrong.
    Refused,
    Dispatch(Route),
}

/// What becomes of a request: preflight requests need no key, the others need the
/// configured key at a guarded path.
pub open spec fn admission(
    method: Method,
    path: Seq<char>,
    api_key: Option<Seq<char>>,
    authorization: Option<Seq<char>>,
    x_api_key: Option<Seq<char>>,
) -> Admission {
    if method == Method::Options {
        Admission::Preflight
    } else if guarded(path) && api_key is Some && provided_key(authorization, x_api_key)
        != api_key {
        Admission::Refused
    } else {
        Admission::Dispatch(routed(method, path))
    }
}

/// Whether the key that a request brings is `expected`.
fn key_matches(expected: &str, authorization: Option<&str>, x_api_key: Option<&str>) -> (r: bool)
    ensures
        r == (provided_key(header(authorization), header(x_api_key)) == Some(expected@)),
{
    let bearer: Option<String> = match authorization {
        Some(h) => strip_prefix(h, "Bearer "),
        None => None,
    };
    match bearer {
        Some(k) => same(&k, expected),
        None => match x_api_key {
            Some(k) => same(k, expected),
            None => false,
        },
    }
}

/// What becomes of a request.
pub fn let_in(
    method: Method,
    path: &str,
    api_key: Option<&str>,
    authorization: Option<&str>,
    x_api_key: Option<&str>,
) -> (r: Admission)
    ensures
        r == admission(
            method,
            path@,
            header(api_key),
            header(authorization),
            header(x_api_key),
        ),
{
    match method {
        Method::Options => {
            return Admission::Preflight;
        },
        _ => {},
    }
    if starts_with(path, "/v1/") || starts_with(path, "/v1beta/") {
        match api_key {
            Some(expected) => {
                if !key_matches(expected, authorization, x_api_key) {
                    return Admission::Refused;
                }
            },
            None => {},
        }
    }
    Admission::Dispatch(route(method, path))
}

/// The reply to a request whose key is missing or wrong.
pub fn refusal(path: &str, request_id: &str) -> (r: Reply)
    ensures
        r@ == error_reply(
            401,
            "Invalid or missing API key"@,
            "authentication_error"@,
            path@,
            request_id@,
        ),
{
    error_response_for_path(
        401,
        "Invalid or missing API key",
        "authentication_error",
        path,
        request_id,
    )
}

/// The reply to a request that nothing serves.
pub fn not_found(path: &str, request_id: &str) -> (r: Reply)
    ensures
        r@ == error_reply(404, "Not found"@, "not_found"@, path@, request_id@),
{
    error_response_for_path(404, "Not found", "not_found", path, request_id)
}

/// The reply to a request that is only acknowledged.
pub fn acknowledgement() -> (r: Reply)
    ensures
        r@ == json_reply(200, "{\"status\":\"ok\"}"@),
{
    json_response(200, "{\"status\":\"ok\"}")
}

/// The endpoints that are polled: their requests are logged with less emphasis.
pub open spec fn internal(path: Seq<char>) -> bool {
    ||| path == "/"@
    ||| path == "/health"@
    ||| path == "/stats"@
    ||| path == "/v1/stats"@
    ||| path == "/cache/stats"@
    ||| path == "/account-limits"@
    ||| path == "/internal/warmup"@
    ||| path == "/api/event_logging/batch"@
    ||| path == "/v1/api/event_logging/batch"@
    ||| path == "/v1/api/event_logging"@
}

/// Whether `path` is one of the polled endpoints.
pub fn is_internal_endpoint(path: &str) -> (r: bool)
    ensures
        r == internal(path@),
{
    same(path, "/") || same(path, "/health") || same(path, "/stats") || same(path, "/v1/stats")
        || same(path, "/cache/stats") || same(path, "/account-limits") || same(
        path,
        "/internal/warmup",
    ) || same(path, "/api/event_logging/batch") || same(path, "/v1/api/event_logging/batch") || same(
        path,
        "/v1/api/event_logging",
    )
}

/// How a request that got a reply is logged.
#[derive(Debug, Clone, Copy, PartialEq, Eq, Structural)]
pub enum RequestLog {
    /// A warning: `Request failed`.
    Failed,
    /// At debug level: `Token counting not implemented`.
    CountingNotImplemented,
    /// At debug level: `Request completed`.
    CompletedQuietly,
    /// At info level: `Request completed`.
    Completed,
}

/// How a request that got a reply with this status is logged.
pub fn request_log(status: u16, path: &str) -> (r: RequestLog)
    ensures
        r == (if status >= 400 && !(status == 501 && path@ == "/v1/messages/count_tokens"@) {
            RequestLog::Failed
        } else if status >= 400 {
            RequestLog::CountingNotImplemented
        } else if internal(path@) {
            RequestLog::CompletedQuietly
        } else {
            RequestLog::Completed
        }),
{
    let expected = status == 501 && same(path, "/v1/messages/count_tokens");
    if status >= 400 && !expected {
        RequestLog::Failed
    } else if status >= 400 {
        RequestLog::CountingNotImplemented
    } else if is_internal_endpoint(path) {
        RequestLog::CompletedQuietly
    } else {
        RequestLog::Completed
    }
}

/// The hexadecimal digits of a list of bytes.
pub open spec fn hex_of(bytes: Seq<u8>) -> Seq<char>
    decreases bytes.len(),
{
    if bytes.len() == 0 {
        Seq::empty()
    } else {
        hex_of(bytes.drop_last()) + hex(bytes.last())
    }
}

/// The id made from eight bytes: `req_` and sixteen hexadecimal digits.
pub fn request_id_from(bytes: &[u8; 8]) -> (r: String)
    ensures
        r@ == "req_"@ + hex_of(bytes@),
{
    let mut r = "req_".to_owned();
    let mut i: usize = 0;
    assert(r@ =~= "req_"@ + hex_of(bytes@.take(0)));
    while i < 8
        invariant
            i <= 8,
            bytes@.len() == 8,
            r@ == "req_"@ + hex_of(bytes@.take(i as int)),
        decreases 8 - i,
    {
        push_hex(&mut r, bytes[i]);
        assert(bytes@.take(i + 1).drop_last() =~= bytes@.take(i as int));
        i = i + 1;
        assert(r@ =~= "req_"@ + hex_of(bytes@.take(i as int)));
    }
    assert(bytes@.take(8) =~= bytes@);
    r
}

/// `getrandom::fill` on eight bytes: the bytes are random, so nothing is said of them;
/// `None` where the system gives no randomness.
#[verifier::external_body]
fn random_bytes() -> (r: Option<[u8; 8]>) {
    let mut bytes = [0u8; 8];
    getrandom::fill(&mut bytes).ok().map(|_| bytes)
}

/// A fresh request id, where the system gives randomness: `req_` and sixteen hexadecimal
/// digits.
pub fn generate_request_id() -> (r: Option<String>)
    ensures
        r matches Some(id) ==> exists|bytes: Seq<u8>|
            bytes.len() == 8 && id@ == "req_"@ + #[trigger] hex_of(bytes),
{
    let random = random_bytes();
    let id = request_id_of(random);
    proof {
        if let Some(bytes) = random {
            assert(bytes@.len() == 8 && id->0@ == "req_"@ + hex_of(bytes@));
        }
    }
    id
}

/// The id of a request: the one it brings, else a fresh one.
pub fn request_id_for(x_request_id: Option<&str>) -> (r: Option<String>)
    ensures
        x_request_id matches Some(id) ==> r matches Some(s) && s@ == id@,
        x_request_id is None ==> (r matches Some(id) ==> exists|bytes: Seq<u8>|
            bytes.len() == 8 && id@ == "req_"@ + #[trigger] hex_of(bytes)),
{
    match x_request_id {
        Some(id) => Some(id.to_owned()),
        None => generate_request_id(),
    }
}

/// The id made from what the system gave: the one of the bytes where it gave bytes, none
/// exactly where it gave none.
pub fn request_id_of(random: Option<[u8; 8]>) -> (r: Option<String>)
    ensures
        r is Some <==> random is Some,
        random matches Some(bytes) ==> r->0@ == "req_"@ + hex_of(bytes@),
{
    match random {
        Some(bytes) => Some(request_id_from(&bytes)),
        None => None,
    }
}

/// Where a key is configured, a request to a guarded path that is no preflight request
/// is let in with that key and not without it.
pub proof fn the_key_is_asked_for(
    method: Method,
    path: Seq<char>,
    key: Seq<char>,
    authorization: Option<Seq<char>>,
    x_api_key: Option<Seq<char>>,
)
    requires
        method != Method::Options,
        guarded(path),
    ensures
        admission(method, path, Some(key), authorization, x_api_key) == Admission::Refused
            <==> provided_key(authorization, x_api_key) != Some(key),
        admission(method, path, Some(key), authorization, x_api_key) != Admission::Refused
            ==> admission(method, path, Some(key), authorization, x_api_key)
            == Admission::Dispatch(routed(method, path)),
        admission(method, path, Some(key), None, Some(key)) == Admission::Dispatch(
            routed(method, path),
        ),
        admission(method, path, Some(key), Some("Bearer "@ + key), x_api_key)
            == Admission::Dispatch(routed(method, path)),
{
    let h = "Bearer "@ + key;
    assert(h.subrange(0, "Bearer "@.len() as int) =~= "Bearer "@);
    assert(after(h, "Bearer "@) =~= key);
}

/// Where no key is configured, or outside the guarded paths, every request is let in.
pub proof fn open_paths_need_no_key(
    method: Method,
    path: Seq<char>,
    api_key: Option<Seq<char>>,
    authorization: Option<Seq<char>>,
    x_api_key: Option<Seq<char>>,
)
    requires
        api_key is None || !guarded(path),
    ensures
        admission(method, path, api_key, authorization, x_api_key) != Admission::Refused,
{
}

/// The APIs that are served with and without the version in front of their paths.
pub open spec fn served_without_version(r: Route) -> bool {
    match r {
        Route::Messages
        | Route::ChatCompletions
        | Route::Responses
        | Route::Completions
        | Route::ImagesGenerations
        | Route::ImagesEditLike(_)
        | Route::AudioTranscriptions
        | Route::ModelDetect => true,
        _ => false,
    }
}

/// How the paths of these APIs are served, with the version and without it.
#[verifier::rlimit(60)]
proof fn lemma_versioned_paths()
    ensures
        post_route("/messages"@) == Route::Messages,
        post_route("/v1/messages"@) == Route::Messages,
        format_of_path("/messages"@) == ErrorFormat::Anthropic,
        format_of_path("/v1/messages"@) == ErrorFormat::Anthropic,
        "/v1"@ + "/messages"@ == "/v1/messages"@,
        starts("/v1/messages"@, "/v1"@),
        post_route("/chat/completions"@) == Route::ChatCompletions,
        post_route("/v1/chat/completions"@) == Route::ChatCompletions,
        format_of_path("/chat/completions"@) == ErrorFormat::OpenAI,
        format_of_path("/v1/chat/completions"@) == ErrorFormat::OpenAI,
        "/v1"@ + "/chat/completions"@ == "/v1/chat/completions"@,
        starts("/v1/chat/completions"@, "/v1"@),
        post_route("/responses"@) == Route::Responses,
        post_route("/v1/responses"@) == Route::Responses,
        format_of_path("/responses"@) == ErrorFormat::Responses,
        format_of_path("/v1/responses"@) == ErrorFormat::Responses,
        "/v1"@ + "/responses"@ == "/v1/responses"@,
        starts("/v1/responses"@, "/v1"@),
        post_route("/chat/completions/responses"@) == Route::Responses,
        post_route("/v1/chat/completions/responses"@) == Route::Responses,
        format_of_path("/chat/completions/responses"@) == ErrorFormat::Responses,
        format_of_path("/v1/chat/completions/responses"@) == ErrorFormat::Responses,
        "/v1"@ + "/chat/completions/responses"@ == "/v1/chat/completions/responses"@,
        starts("/v1/chat/completions/responses"@, "/v1"@),
        post_route("/completions"@) == Route::Completions,
        post_route("/v1/completions"@) == Route::Completions,
        format_of_path("/completions"@) == ErrorFormat::OpenAI,
        format_of_path("/v1/completions"@) == ErrorFormat::OpenAI,
        "/v1"@ + "/completions"@ == "/v1/completions"@,
        starts("/v1/completions"@, "/v1"@),
        post_route("/images/generations"@) == Route::ImagesGenerations,
        post_route("/v1/images/generations"@) == Route::ImagesGenerations,
        format_of_path("/images/generations"@) == ErrorFormat::OpenAI,
        format_of_path("/v1/images/generations"@) == ErrorFormat::OpenAI,
        "/v1"@ + "/images/generations"@ == "/v1/images/generations"@,
        starts("/v1/images/generations"@, "/v1"@),
        post_route("/images/edits"@) == Route::ImagesEditLike(ImageEditMode::Edits),
        post_route("/v1/images/edits"@) == Route::ImagesEditLike(ImageEditMode::Edits),
        format_of_path("/images/edits"@) == ErrorFormat::OpenAI,
        format_of_path("/v1/images/edits"@) == ErrorFormat::OpenAI,
        "/v1"@ + "/images/edits"@ == "/v1/images/edits"@,
        starts("/v1/images/edits"@, "/v1"@),
        post_route("/images/variations"@) == Route::ImagesEditLike(ImageEditMode::Variations),
        post_route("/v1/images/variations"@) == Route::ImagesEditLike(ImageEditMode::Variations),
        format_of_path("/images/variations"@) == ErrorFormat::OpenAI,
        format_of_path("/v1/images/variations"@) == ErrorFormat::OpenAI,
        "/v1"@ + "/images/variations"@ == "/v1/images/variations"@,
        starts("/v1/images/variations"@, "/v1"@),
        post_route("/audio/transcriptions"@) == Route::AudioTranscriptions,
        post_route("/v1/audio/transcriptions"@) == Route::AudioTranscriptions,
        format_of_path("/audio/transcriptions"@) == ErrorFormat::OpenAI,
        format_of_path("/v1/audio/transcriptions"@) == ErrorFormat::OpenAI,
        "/v1"@ + "/audio/transcriptions"@ == "/v1/audio/transcriptions"@,
        starts("/v1/audio/transcriptions"@, "/v1"@),
        post_route("/models/detect"@) == Route::ModelDetect,
        post_route("/v1/models/detect"@) == Route::ModelDetect,
        format_of_path("/models/detect"@) == ErrorFormat::OpenAI,
        format_of_path("/v1/models/detect"@) == ErrorFormat::OpenAI,
        "/v1"@ + "/models/detect"@ == "/v1/models/detect"@,
        starts("/v1/models/detect"@, "/v1"@),
{
    reveal_strlit("/v1/messages");
    reveal_strlit("/messages");
    reveal_strlit("/v1/responses");
    reveal_strlit("/responses");
    reveal_strlit("/v1/chat/completions/responses");
    reveal_strlit("/chat/completions/responses");
    reveal_strlit("/v1/models/");
    reveal_strlit("/models/");
    reveal_strlit("/v1/models");
    reveal_strlit("/models");
    reveal_strlit("/v1/chat/completions");
    reveal_strlit("/chat/completions");
    reveal_strlit("/v1/completions");
    reveal_strlit("/completions");
    reveal_strlit("/v1/models/detect");
    reveal_strlit("/models/detect");
    reveal_strlit("/v1/images/generations");
    reveal_strlit("/images/generations");
    reveal_strlit("/v1/images/edits");
    reveal_strlit("/images/edits");
    reveal_strlit("/v1/images/variations");
    reveal_strlit("/images/variations");
    reveal_strlit("/v1/audio/transcriptions");
    reveal_strlit("/audio/transcriptions");
    reveal_strlit("/v1");
    reveal_strlit("/v1/messages/count_tokens");
    reveal_strlit("/v1beta/models/");
    reveal_strlit("/internal/warmup");
    reveal_strlit("/api/event_logging/batch");
    reveal_strlit("/v1/api/event_logging/batch");
    reveal_strlit("/v1/api/event_logging");
    reveal_strlit("/");
    assert("/v1/messages"@[1] != "/completions"@[1]);
    assert("/v1"@ + "/messages"@ =~= "/v1/messages"@);
    assert("/v1/messages"@.subrange(0, 3) =~= "/v1"@);
    assert(!starts("/messages"@, "/v1/models/"@)) by {
        if starts("/messages"@, "/v1/models/"@) {
            assert("/messages"@.subrange(0, 11)[1] == "/v1/models/"@[1]);
        }
    }
    assert(!starts("/messages"@, "/models/"@)) by {
        if starts("/messages"@, "/models/"@) {
            assert("/messages"@.subrange(0, 8)[2] == "/models/"@[2]);
        }
    }
    assert(!starts("/v1/messages"@, "/v1/models/"@)) by {
        if starts("/v1/messages"@, "/v1/models/"@) {
            assert("/v1/messages"@.subrange(0, 11)[5] == "/v1/models/"@[5]);
        }
    }
    assert(!starts("/v1/messages"@, "/models/"@)) by {
        if starts("/v1/messages"@, "/models/"@) {
            assert("/v1/messages"@.subrange(0, 8)[1] == "/models/"@[1]);
        }
    }
    assert("/v1"@ + "/chat/completions"@ =~= "/v1/chat/completions"@);
    assert("/v1/chat/completions"@.subrange(0, 3) =~= "/v1"@);
    assert("/v1"@ + "/responses"@ =~= "/v1/responses"@);
    assert("/v1/responses"@.subrange(0, 3) =~= "/v1"@);
    assert("/v1"@ + "/chat/completions/responses"@ =~= "/v1/chat/completions/responses"@);
    assert("/v1/chat/completions/responses"@.subrange(0, 3) =~= "/v1"@);
    assert("/completions"@[1] != "/v1/messages"@[1]);
    assert("/v1"@ + "/completions"@ =~= "/v1/completions"@);
    assert("/v1/completions"@.subrange(0, 3) =~= "/v1"@);
    assert("/v1"@ + "/images/generations"@ =~= "/v1/images/generations"@);
    assert("/v1/images/generations"@.subrange(0, 3) =~= "/v1"@);
    assert("/images/edits"@[1] != "/v1/responses"@[1]);
    assert("/v1"@ + "/images/edits"@ =~= "/v1/images/edits"@);
    assert("/v1/images/edits"@.subrange(0, 3) =~= "/v1"@);
    assert("/v1"@ + "/images/variations"@ =~= "/v1/images/variations"@);
    assert("/v1/images/variations"@.subrange(0, 3) =~= "/v1"@);
    assert("/audio/transcriptions"@[1] != "/v1/images/variations"@[1]);
    assert("/v1"@ + "/audio/transcriptions"@ =~= "/v1/audio/transcriptions"@);
    assert("/v1/audio/transcriptions"@.subrange(0, 3) =~= "/v1"@);
    assert("/v1/models/detect"@[1] != "/chat/completions"@[1]);
    assert("/v1"@ + "/models/detect"@ =~= "/v1/models/detect"@);
    assert("/v1/models/detect"@.subrange(0, 3) =~= "/v1"@);
    assert(!starts("/models/detect"@, "/v1beta/models/"@)) by {
        if starts("/models/detect"@, "/v1beta/models/"@) {
            assert("/models/detect"@.subrange(0, 15)[1] == "/v1beta/models/"@[1]);
        }
    }
    assert(!starts("/v1/models/detect"@, "/v1beta/models/"@)) by {
        if starts("/v1/models/detect"@, "/v1beta/models/"@) {
            assert("/v1/models/detect"@.subrange(0, 15)[3] == "/v1beta/models/"@[3]);
        }
    }
}

/// A path of these APIs without the version is served like the path with it, and its
/// errors have the same format.
pub proof fn the_version_is_optional(path: Seq<char>)
    requires
        served_without_version(post_route(path)),
        !starts(path, "/v1"@),
    ensures
        post_route("/v1"@ + path) == post_route(path),
        format_of_path("/v1"@ + path) == format_of_path(path),
{
    lemma_versioned_paths();
}

/// The models, and each of them, are asked for with the version in front of the path and
/// without it, and their errors have the same format.
pub proof fn the_version_is_optional_for_models(path: Seq<char>)
    requires
        path == "/models"@ || starts(path, "/models/"@),
    ensures
        get_route("/v1"@ + path) == get_route(path),
        get_route(path) == (if path == "/models"@ {
            Route::Models
        } else {
            Route::ModelById
        }),
        format_of_path("/v1"@ + path) == format_of_path(path),
        format_of_path(path) == ErrorFormat::OpenAI,
{
    reveal_strlit("/v1");
    reveal_strlit("/models");
    reveal_strlit("/models/");
    reveal_strlit("/v1/models");
    reveal_strlit("/v1/models/");
    reveal_strlit("/v1beta/models");
    reveal_strlit("/v1beta/models/");
    reveal_strlit("/responses");
    reveal_strlit("/v1/responses");
    reveal_strlit("/chat/completions/responses");
    reveal_strlit("/v1/chat/completions/responses");
    let long = "/v1"@ + path;
    if path == "/models"@ {
        assert(long =~= "/v1/models"@);
        assert(path.len() == 7 && long.len() == 10);
    } else {
        assert(path.subrange(0, 8) == "/models/"@);
        assert("/v1/models/"@ =~= "/v1"@ + "/models/"@);
        assert(long.subrange(0, 11) =~= "/v1"@ + path.subrange(0, 8));
        assert(path.subrange(0, 8)[1] == path[1] && path.subrange(0, 8)[7] == path[7]);
        assert(long.subrange(0, 11)[3] == long[3] && long.subrange(0, 11)[4] == long[4]);
        assert(long[3] == '/' && long[4] == 'm');
        assert(path[1] == 'm' && path[7] == '/');
    }
    assert(!starts(long, "/v1beta/models/"@)) by {
        if starts(long, "/v1beta/models/"@) {
            assert(long.subrange(0, 15)[3] == "/v1beta/models/"@[3]);
        }
    }
    assert(!starts(path, "/v1beta/models/"@)) by {
        if starts(path, "/v1beta/models/"@) {
            assert(path.subrange(0, 15)[1] == "/v1beta/models/"@[1]);
        }
    }
    assert("/v1beta/models"@[3] == 'b');
    assert("/v1/responses"@[4] == 'r');
    assert("/v1/chat/completions/responses"@[4] == 'c');
    assert("/responses"@[1] == 'r' && "/chat/completions/responses"@[1] == 'c');
    assert("/v1/responses"@[1] == 'v' && "/v1/chat/completions/responses"@[1] == 'v');
    assert(long[1] == 'v');
    assert(!crate::reply::is_responses_path(long) && !crate::reply::is_responses_path(path));
}

/// Two bytes with the same hexadecimal digits are the same byte.
proof fn lemma_hex_is_injective(a: u8, b: u8)
    requires
        hex(a) == hex(b),
    ensures
        a == b,
{
    assert(hex(a)[0] == hex(b)[0]);
    assert(hex(a)[1] == hex(b)[1]);
    assert(a / 16 == b / 16);
    assert(a % 16 == b % 16);
}

/// Two lists of bytes of one length with the same hexadecimal digits are the same list.
pub proof fn request_ids_tell_bytes_apart(a: Seq<u8>, b: Seq<u8>)
    requires
        a.len() == b.len(),
        hex_of(a) == hex_of(b),
    ensures
        a == b,
    decreases a.len(),
{
    if a.len() > 0 {
        let da = hex_of(a.drop_last());
        let db = hex_of(b.drop_last());
        lemma_hex_len(a.drop_last());
        lemma_hex_len(b.drop_last());
        assert(da =~= hex_of(a).subrange(0, da.len() as int));
        assert(db =~= hex_of(b).subrange(0, db.len() as int));
        assert(hex(a.last()) =~= hex_of(a).subrange(da.len() as int, (da.len() + 2) as int));
        assert(hex(b.last()) =~= hex_of(b).subrange(db.len() as int, (db.len() + 2) as int));
        lemma_hex_is_injective(a.last(), b.last());
        request_ids_tell_bytes_apart(a.drop_last(), b.drop_last());
        assert(a =~= a.drop_last().push(a.last()));
        assert(b =~= b.drop_last().push(b.last()));
    } else {
        assert(a =~= b);
    }
}

/// Two digits stand for each byte.
proof fn lemma_hex_len(a: Seq<u8>)
    ensures
        hex_of(a).len() == 2 * a.len(),
    decreases a.len(),
{
    if a.len() > 0 {
        lemma_hex_len(a.drop_last());
    }
}

/// Every path below `/v1/` and `/v1beta/` needs the key, where one is configured: a request
/// that brings no key, another key after `Bearer `, or another key in its own header and no
/// `Bearer ` beside it, is refused.
pub proof fn wrong_keys_are_refused(
    method: Method,
    rest: Seq<char>,
    key: Seq<char>,
    other: Seq<char>,
    x_api_key: Option<Seq<char>>,
)
    requires
        method != Method::Options,
        other != key,
    ensures
        forall|path: Seq<char>|
            path == "/v1/"@ + rest || path == "/v1beta/"@ + rest ==> ({
                &&& #[trigger] admission(method, path, Some(key), None, None) == Admission::Refused
                &&& admission(method, path, Some(key), Some("Bearer "@ + other), x_api_key)
                    == Admission::Refused
                &&& admission(method, path, Some(key), None, Some(other)) == Admission::Refused
                &&& admission(method, path, Some(key), Some("Bearer "@ + key), x_api_key)
                    == Admission::Dispatch(routed(method, path))
                &&& admission(method, path, Some(key), None, Some(key)) == Admission::Dispatch(
                    routed(method, path),
                )
            }),
{
    let a = "/v1/"@ + rest;
    let b = "/v1beta/"@ + rest;
    assert(a.subrange(0, "/v1/"@.len() as int) =~= "/v1/"@);
    assert(b.subrange(0, "/v1beta/"@.len() as int) =~= "/v1beta/"@);
    let h = "Bearer "@ + other;
    assert(h.subrange(0, "Bearer "@.len() as int) =~= "Bearer "@);
    assert(after(h, "Bearer "@) =~= other);
    let g = "Bearer "@ + key;
    assert(g.subrange(0, "Bearer "@.len() as int) =~= "Bearer "@);
    assert(after(g, "Bearer "@) =~= key);
}

/// A preflight request is answered at once, whatever its path and its key.
pub proof fn preflights_need_no_key(
    path: Seq<char>,
    api_key: Option<Seq<char>>,
    authorization: Option<Seq<char>>,
    x_api_key: Option<Seq<char>>,
)
    ensures
        admission(Method::Options, path, api_key, authorization, x_api_key)
            == Admission::Preflight,
{
}

} // verus!
