//! How a request is served upstream, and what is kept of the outcome.

use vstd::prelude::*;

use crate::errors::{
    invalid_request, is_invalid_request, ApiError, AuthError, ProxyError,
};
use crate::chat::opt;
use crate::json::compact_json;
use crate::messages::{request_fault, validate_request, MessagesRequest, StreamEvent, Usage};
use crate::reply::{
    error_body, json_ok_reply, json_ok_response, responses_error_response, ErrorFormat, Reply,
    ReplyView,
};
use crate::text::{
    chars_of, contains, decode_lossy, decoded, holds, number, parse_number, text_between,
};
use crate::usage::{parse_reset_time, reset_secs};

verus! {

/// Whether the body of a request to the Messages API is JSON, by its content type.
pub fn check_messages_content_type(content_type: &str) -> (r: Result<(), ProxyError>)
    ensures
        match r {
            Ok(_) => holds(content_type@, "application/json"@),
            Err(e) => !holds(content_type@, "application/json"@) && is_invalid_request(
                e,
                "Content-Type must be application/json"@,
            ),
        },
{
    if contains(content_type, "application/json") {
        Ok(())
    } else {
        Err(invalid_request("Content-Type must be application/json"))
    }
}

/// Whether the length that a request announces is allowed; one that is no number says
/// nothing.
pub fn check_announced_length(content_length: Option<&str>, max: usize) -> (r: Result<
    (),
    ProxyError,
>)
    ensures
        ({
            let announced = match content_length {
                Some(t) => number(t@, usize::MAX as nat),
                None => None,
            };
            match r {
                Ok(_) => announced matches Some(n) ==> n <= max,
                Err(e) => announced matches Some(n) && n > max && e == ProxyError::Api(
                    ApiError::RequestTooLarge { size: n as usize, max },
                ),
            }
        }),
{
    match content_length {
        Some(t) => match parse_number(t) {
            Some(n) => {
                if n <= usize::MAX as u64 && n as usize > max {
                    Err(ProxyError::Api(ApiError::RequestTooLarge { size: n as usize, max }))
                } else {
                    Ok(())
                }
            },
            None => Ok(()),
        },
        None => Ok(()),
    }
}

/// How a request goes upstream.
#[derive(Debug, Clone, Copy, PartialEq, Eq, Structural)]
pub enum Upstream {
    /// Streamed, and handed on as a stream.
    Streaming,
    /// Streamed, and collected into one reply: models that think are only streamed.
    Collected,
    /// In one piece.
    Plain,
}

/// How a request goes upstream.
pub open spec fn upstream_of(stream: bool, thinking: bool) -> Upstream {
    if stream {
        Upstream::Streaming
    } else if thinking {
        Upstream::Collected
    } else {
        Upstream::Plain
    }
}

/// How a request goes upstream.
pub fn choose_upstream(stream: bool, thinking: bool) -> (r: Upstream)
    ensures
        r == upstream_of(stream, thinking),
{
    if stream {
        Upstream::Streaming
    } else if thinking {
        Upstream::Collected
    } else {
        Upstream::Plain
    }
}

/// Whether the cache is asked before a request goes upstream.
pub fn looks_in_cache(stream: bool, bypass: bool) -> (r: bool)
    ensures
        r == (!stream && !bypass),
{
    !stream && !bypass
}

/// Whether the reply to a request is put in the cache: one in one piece whose cache entry
/// was looked for.
pub open spec fn is_cached(stream: bool, thinking: bool, bypass: bool) -> bool {
    upstream_of(stream, thinking) == Upstream::Plain && !bypass
}

/// Whether the reply to a request is put in the cache.
pub fn goes_in_cache(stream: bool, thinking: bool, bypass: bool) -> (r: bool)
    ensures
        r == is_cached(stream, thinking, bypass),
{
    !stream && !thinking && !bypass
}

/// What a reply says of the cache.
pub open spec fn cache_header(stream: bool, thinking: bool, bypass: bool, hit: bool) -> Seq<char> {
    if !stream && !bypass && hit {
        "HIT"@
    } else if is_cached(stream, thinking, bypass) {
        "MISS"@
    } else {
        "BYPASS"@
    }
}

/// What a reply says of the cache.
pub fn cache_status(stream: bool, thinking: bool, bypass: bool, hit: bool) -> (r: &'static str)
    ensures
        r@ == cache_header(stream, thinking, bypass, hit),
{
    if !stream && !bypass && hit {
        "HIT"
    } else if !stream && !thinking && !bypass {
        "MISS"
    } else {
        "BYPASS"
    }
}

/// What a request is answered from the cache, `cached` being the body that stands there for
/// it: `None` where it goes upstream.
pub open spec fn reply_from_cache(
    stream: bool,
    bypass: bool,
    cached: Option<Seq<char>>,
    request_id: Seq<char>,
) -> Option<ReplyView> {
    match cached {
        Some(body) => if !stream && !bypass {
            Some(json_ok_reply(body, request_id, Some("HIT"@)))
        } else {
            None
        },
        None => None,
    }
}

/// The reply to a request from the cache, `cached` being the body that stands there for it;
/// `None` where it goes upstream.
pub fn answer_from_cache(
    stream: bool,
    bypass: bool,
    cached: Option<String>,
    request_id: &str,
) -> (r: Option<Reply>)
    ensures
        match r {
            Some(reply) => reply_from_cache(stream, bypass, opt(cached), request_id@) == Some(
                reply@,
            ),
            None => reply_from_cache(stream, bypass, opt(cached), request_id@) is None,
        },
{
    match cached {
        Some(body) => {
            if looks_in_cache(stream, bypass) {
                Some(json_ok_response(body, request_id, Some("HIT")))
            } else {
                None
            }
        },
        None => None,
    }
}

/// What is put in the cache of a reply in one piece that came from upstream.
pub open spec fn stored_in_cache(
    stream: bool,
    thinking: bool,
    bypass: bool,
    body: Seq<char>,
) -> Option<Seq<char>> {
    if is_cached(stream, thinking, bypass) {
        Some(body)
    } else {
        None
    }
}

/// The reply in one piece that came from upstream, and what of it is put in the cache.
pub fn answer_from_upstream(
    stream: bool,
    thinking: bool,
    bypass: bool,
    body: String,
    request_id: &str,
) -> (r: (Reply, Option<String>))
    ensures
        r.0@ == json_ok_reply(
            body@,
            request_id@,
            Some(cache_header(stream, thinking, bypass, false)),
        ),
        opt(r.1) == stored_in_cache(stream, thinking, bypass, body@),
{
    let stored = if goes_in_cache(stream, thinking, bypass) {
        Some(body.clone())
    } else {
        None
    };
    let status = cache_status(stream, thinking, bypass, false);
    (json_ok_response(body, request_id, Some(status)), stored)
}

/// A request that was answered once is answered the same again from the cache: the body that
/// is stored of a reply is that of the reply, which says `MISS`, and while it stands in the
/// cache an equal request gets that body, under its own id and `HIT`, without going upstream.
pub proof fn equal_requests_are_answered_from_the_cache(
    body: Seq<char>,
    request_id: Seq<char>,
)
    ensures
        cache_header(false, false, false, false) == "MISS"@,
        stored_in_cache(false, false, false, body) == Some(body),
        reply_from_cache(
            false,
            false,
            stored_in_cache(false, false, false, body),
            request_id,
        ) == Some(json_ok_reply(body, request_id, Some("HIT"@))),
{
}

/// Streamed replies, and those of models that think, are not put in the cache; nor is
/// anything where the client asks to pass it by.
pub proof fn some_replies_are_not_cached(stream: bool, thinking: bool, bypass: bool)
    ensures
        stream || thinking || bypass ==> !is_cached(stream, thinking, bypass),
        stream || bypass ==> forall|hit: bool| #[trigger]
            cache_header(stream, thinking, bypass, hit) == "BYPASS"@,
{
}

/// The message of the first fault among events.
pub open spec fn first_fault(events: Seq<StreamEvent>, i: int) -> Option<Seq<char>>
    decreases events.len() - i,
{
    if i < 0 || i >= events.len() {
        None
    } else {
        match events[i] {
            StreamEvent::Fault { text } => Some(text@),
            _ => first_fault(events, i + 1),
        }
    }
}

/// Whether `e` is an error of the server upstream.
pub open spec fn is_server_error(e: ProxyError, status: u16, message: Seq<char>) -> bool {
    e matches ProxyError::Api(ApiError::ServerError { status: s, message: m }) && s == status && m@
        == message
}

/// An error where the events hold a fault: the first one's message.
pub fn check_stream_errors(events: &Vec<StreamEvent>) -> (r: Result<(), ProxyError>)
    ensures
        match r {
            Ok(_) => first_fault(events@, 0) is None,
            Err(e) => first_fault(events@, 0) matches Some(m) && is_server_error(e, 502, m),
        },
{
    let mut i: usize = 0;
    while i < events.len()
        invariant
            i <= events@.len(),
            first_fault(events@, 0) == first_fault(events@, i as int),
        decreases events@.len() - i,
    {
        match &events[i] {
            StreamEvent::Fault { text } => {
                return Err(
                    ProxyError::Api(ApiError::ServerError { status: 502, message: text.clone() }),
                );
            },
            _ => {},
        }
        i = i + 1;
    }
    Ok(())
}

/// Whether an event carries content.
pub open spec fn is_content(e: StreamEvent) -> bool {
    e is ContentBlockStart || e is ContentBlockDelta
}

/// Whether any event carries content.
pub open spec fn any_content(events: Seq<StreamEvent>) -> bool {
    exists|i: int| 0 <= i < events.len() && is_content(#[trigger] events[i])
}

/// Whether any event carries content.
pub fn has_content(events: &Vec<StreamEvent>) -> (r: bool)
    ensures
        r == any_content(events@),
{
    let mut i: usize = 0;
    while i < events.len()
        invariant
            i <= events@.len(),
            forall|j: int| 0 <= j < i ==> !is_content(#[trigger] events@[j]),
        decreases events@.len() - i,
    {
        match &events[i] {
            StreamEvent::ContentBlockStart { .. } | StreamEvent::ContentBlockDelta { .. } => {
                assert(is_content(events@[i as int]));
                return true;
            },
            _ => {},
        }
        i = i + 1;
    }
    false
}

/// The first characters of a text, at most `n`.
pub open spec fn first_chars(s: Seq<char>, n: nat) -> Seq<char> {
    if s.len() > n {
        s.take(n as int)
    } else {
        s
    }
}

/// The first characters of a text, at most `n`.
pub fn take_chars(s: &str, n: usize) -> (r: String)
    ensures
        r@ == first_chars(s@, n as nat),
{
    let v = chars_of(s);
    if v.len() > n {
        text_between(&v, 0, n)
    } else {
        s.to_owned()
    }
}

/// What is said of a reply without content.
pub open spec fn empty_reply_message(model: Seq<char>, body: Seq<u8>) -> Seq<char> {
    "Model "@ + model
        + " returned empty response from Google API. The model may be unavailable. Raw: "@
        + first_chars(decoded(body), 200)
}

/// Checks a reply that was streamed and collected: an error where an event is a fault, or
/// where there is a body but no content in it.
pub fn check_collected(events: &Vec<StreamEvent>, body: &[u8], model: &str) -> (r: Result<
    (),
    ProxyError,
>)
    ensures
        match first_fault(events@, 0) {
            Some(m) => r matches Err(e) && is_server_error(e, 502, m),
            None => if !any_content(events@) && body@.len() > 0 {
                r matches Err(e) && is_server_error(e, 502, empty_reply_message(model@, body@))
            } else {
                r is Ok
            },
        },
{
    match check_stream_errors(events) {
        Ok(_) => {},
        Err(e) => {
            return Err(e);
        },
    }
    if !has_content(events) && body.len() > 0 {
        let text = decode_lossy(body);
        let mut m = "Model ".to_owned();
        m.push_str(model);
        m.push_str(
            " returned empty response from Google API. The model may be unavailable. Raw: ",
        );
        m.push_str(&take_chars(&text, 200));
        return Err(ProxyError::Api(ApiError::ServerError { status: 502, message: m }));
    }
    Ok(())
}

/// What is counted of a stream while it is handed on.
#[derive(Debug, Clone, Copy, PartialEq, Eq, Structural)]
pub struct StreamTally {
    pub input_tokens: u32,
    pub output_tokens: u32,
    pub cache_read_tokens: u32,
    pub has_content: bool,
}

/// The tally after an event.
pub open spec fn tallied(t: StreamTally, event: StreamEvent) -> StreamTally {
    match event {
        StreamEvent::MessageStart { message } => StreamTally {
            input_tokens: message.usage.input_tokens,
            cache_read_tokens: match message.usage.cache_read_input_tokens {
                Some(n) => n,
                None => 0,
            },
            ..t
        },
        StreamEvent::MessageDelta { output_tokens, .. } => StreamTally { output_tokens, ..t },
        StreamEvent::ContentBlockStart { .. } | StreamEvent::ContentBlockDelta { .. } => {
            StreamTally { has_content: true, ..t }
        },
        _ => t,
    }
}

impl StreamTally {
    /// Nothing counted.
    pub fn new() -> (r: StreamTally)
        ensures
            r == (StreamTally {
                input_tokens: 0,
                output_tokens: 0,
                cache_read_tokens: 0,
                has_content: false,
            }),
    {
        StreamTally {
            input_tokens: 0,
            output_tokens: 0,
            cache_read_tokens: 0,
            has_content: false,
        }
    }

    /// Counts an event.
    pub fn on_event(&mut self, event: &StreamEvent)
        ensures
            *final(self) == tallied(*old(self), *event),
    {
        match event {
            StreamEvent::MessageStart { message } => {
                self.input_tokens = message.usage.input_tokens;
                self.cache_read_tokens = match message.usage.cache_read_input_tokens {
                    Some(n) => n,
                    None => 0,
                };
            },
            StreamEvent::MessageDelta { output_tokens, .. } => {
                self.output_tokens = *output_tokens;
            },
            StreamEvent::ContentBlockStart { .. } | StreamEvent::ContentBlockDelta { .. } => {
                self.has_content = true;
            },
            _ => {},
        }
    }
}

/// Whether a request that failed is tried again with another model: where that is switched
/// on, the quota of the first is exhausted, and there is another.
pub fn should_fall_back(enabled: bool, failure: Option<&ProxyError>, has_fallback: bool) -> (r:
    bool)
    ensures
        r == (enabled && has_fallback && (failure matches Some(e) && (e matches ProxyError::Api(
            ApiError::QuotaExhausted { .. },
        )))),
{
    let exhausted = match failure {
        Some(ProxyError::Api(ApiError::QuotaExhausted { .. })) => true,
        _ => false,
    };
    enabled && has_fallback && exhausted
}

/// What is kept of a request's outcome: whether it succeeded, and until when the account is
/// limited, in seconds since the start of 1970.
#[derive(Debug, Clone, Copy, PartialEq, Eq, Structural)]
pub struct RequestOutcome {
    pub success: bool,
    pub rate_limit_until: Option<u64>,
}

/// What is kept of a request's outcome, from the error where it failed and the moment its
/// quota is reset, where it says.
pub open spec fn outcome(failure: Option<ProxyError>, now: u64, reset: Option<u64>) -> RequestOutcome {
    match failure {
        None => RequestOutcome { success: true, rate_limit_until: None },
        Some(ProxyError::Api(ApiError::RateLimited { retry_after })) => RequestOutcome {
            success: false,
            rate_limit_until: Some((now + retry_after.secs) as u64),
        },
        Some(ProxyError::Api(ApiError::QuotaExhausted { .. })) => RequestOutcome {
            success: false,
            rate_limit_until: reset,
        },
        Some(_) => RequestOutcome { success: false, rate_limit_until: None },
    }
}

/// The moment that an error says a quota is reset.
pub open spec fn reset_of(failure: Option<ProxyError>) -> Option<u64> {
    match failure {
        Some(ProxyError::Api(ApiError::QuotaExhausted { reset_time, .. })) => reset_secs(
            reset_time@,
        ),
        _ => None,
    }
}

/// The error behind a reference, where there is one.
pub open spec fn failure_of(failure: Option<&ProxyError>) -> Option<ProxyError> {
    match failure {
        Some(e) => Some(*e),
        None => None,
    }
}

/// What is kept of a request's outcome.
pub fn track_request_outcome(failure: Option<&ProxyError>, now: u64) -> (r: RequestOutcome)
    requires
        failure matches Some(ProxyError::Api(ApiError::RateLimited { retry_after })) ==> now
            + retry_after.secs <= u64::MAX,
    ensures
        r == outcome(failure_of(failure), now, reset_of(failure_of(failure))),
{
    match failure {
        None => RequestOutcome { success: true, rate_limit_until: None },
        Some(ProxyError::Api(ApiError::RateLimited { retry_after })) => RequestOutcome {
            success: false,
            rate_limit_until: Some(now + retry_after.secs),
        },
        Some(ProxyError::Api(ApiError::QuotaExhausted { reset_time, .. })) => RequestOutcome {
            success: false,
            rate_limit_until: parse_reset_time(reset_time),
        },
        Some(_) => RequestOutcome { success: false, rate_limit_until: None },
    }
}

/// What is done to an account after a request.
#[derive(Debug, Clone, Copy, PartialEq, Eq, Structural)]
pub enum AccountUpdate {
    /// Records a success and lifts the limit of the model.
    Succeeded,
    /// Records a failure.
    Failed,
    /// Records a failure and limits the model until then.
    FailedUntil(u64),
}

impl RequestOutcome {
    /// What is done to the account.
    pub fn update(&self) -> (r: AccountUpdate)
        ensures
            r == (if self.success {
                AccountUpdate::Succeeded
            } else {
                match self.rate_limit_until {
                    Some(t) => AccountUpdate::FailedUntil(t),
                    None => AccountUpdate::Failed,
                }
            }),
    {
        if self.success {
            AccountUpdate::Succeeded
        } else {
            match self.rate_limit_until {
                Some(t) => AccountUpdate::FailedUntil(t),
                None => AccountUpdate::Failed,
            }
        }
    }

    /// Whether the accounts are saved: after a failure or a limit.
    pub fn is_saved(&self) -> (r: bool)
        ensures
            r == (!self.success || self.rate_limit_until is Some),
    {
        !self.success || self.rate_limit_until.is_some()
    }
}

/// The tokens that the statistics record of a usage: in, out, from the cache.
pub fn recorded_usage(usage: &Usage) -> (r: (u32, u32, u32))
    ensures
        r == (
            usage.input_tokens,
            usage.output_tokens,
            match usage.cache_read_input_tokens {
                Some(n) => n,
                None => 0u32,
            },
        ),
{
    (
        usage.input_tokens,
        usage.output_tokens,
        match usage.cache_read_input_tokens {
            Some(n) => n,
            None => 0,
        },
    )
}

/// The tokens that Gemini says a reply used.
#[derive(Debug, Clone, Copy, PartialEq, Eq, Structural)]
pub struct UsageMetadata {
    pub prompt_token_count: u32,
    pub candidates_token_count: u32,
    pub cached_content_token_count: u32,
}

/// The tokens that the statistics record of what Gemini says: cached tokens are not counted
/// as input.
pub fn recorded_google_usage(usage: Option<UsageMetadata>) -> (r: Option<(u32, u32, u32)>)
    ensures
        match usage {
            Some(u) => r == Some(
                (
                    if u.prompt_token_count < u.cached_content_token_count {
                        0u32
                    } else {
                        (u.prompt_token_count - u.cached_content_token_count) as u32
                    },
                    u.candidates_token_count,
                    u.cached_content_token_count,
                ),
            ),
            None => r is None,
        },
{
    match usage {
        Some(u) => Some(
            (
                u.prompt_token_count.saturating_sub(u.cached_content_token_count),
                u.candidates_token_count,
                u.cached_content_token_count,
            ),
        ),
        None => None,
    }
}

/// How the access token of an account is had.
#[derive(Debug, Clone, PartialEq)]
pub enum TokenStep {
    /// It is still valid.
    Use(String),
    /// It is had with this refresh token.
    Refresh(String),
}

/// How the access token of the selected account is had: an error where none could be
/// selected. A token counts as valid only where there is one.
pub fn token_step(
    selected: bool,
    found: bool,
    valid_token: Option<String>,
    refresh_token: String,
) -> (r: Result<TokenStep, ProxyError>)
    ensures
        if !selected {
            r matches Err(ProxyError::Auth(AuthError::Other(t))) && t@
                == "No enabled accounts available. Run 'agcp login' to add an account."@
        } else if !found {
            r matches Err(ProxyError::Auth(AuthError::Other(t))) && t@
                == "Selected account not found"@
        } else {
            r == Ok::<TokenStep, ProxyError>(
                match valid_token {
                    Some(t) => TokenStep::Use(t),
                    None => TokenStep::Refresh(refresh_token),
                },
            )
        },
{
    if !selected {
        return Err(
            ProxyError::Auth(
                AuthError::Other(
                    "No enabled accounts available. Run 'agcp login' to add an account.".to_owned(),
                ),
            ),
        );
    }
    if !found {
        return Err(ProxyError::Auth(AuthError::Other("Selected account not found".to_owned())));
    }
    match valid_token {
        Some(t) => Ok(TokenStep::Use(t)),
        None => Ok(TokenStep::Refresh(refresh_token)),
    }
}

/// A request to the Responses API that is not in order, answered.
pub open spec fn responses_fault(message: Seq<char>) -> ReplyView {
    ReplyView {
        status: 400,
        headers: seq![("Content-Type"@, "application/json"@)],
        body: compact_json(
            error_body(message, "invalid_request_error"@, ErrorFormat::Responses, None),
        ),
    }
}

/// The reply to a request to the Responses API that says something that cannot be; `None`
/// where it is in order.
pub fn check_responses_request(q: &MessagesRequest) -> (r: Option<Reply>)
    ensures
        match r {
            Some(reply) => request_fault(*q) matches Some(m) && reply@ == responses_fault(m),
            None => request_fault(*q) is None,
        },
{
    match validate_request(q) {
        Ok(_) => None,
        Err(ProxyError::Api(ApiError::InvalidRequest { message })) => Some(
            responses_error_response(400, &message, "invalid_request_error"),
        ),
        Err(_) => None,
    }
}

/// The first thing that is wrong with a request to the Responses API: its kind of content, or
/// why its JSON could not be read, which is handed in.
pub fn check_responses_body(content_type: &str, json_fault: Option<&str>) -> (r: Result<(), Reply>)
    ensures
        if !holds(content_type@, "application/json"@) {
            r matches Err(reply) && reply@ == responses_fault(
                "Content-Type must be application/json"@,
            )
        } else {
            match json_fault {
                Some(e) => r matches Err(reply) && reply@ == responses_fault(
                    "Invalid JSON: "@ + e@,
                ),
                None => r is Ok,
            }
        },
{
    if !contains(content_type, "application/json") {
        return Err(
            responses_error_response(
                400,
                "Content-Type must be application/json",
                "invalid_request_error",
            ),
        );
    }
    match json_fault {
        Some(e) => {
            let mut m = "Invalid JSON: ".to_owned();
            m.push_str(e);
            Err(responses_error_response(400, &m, "invalid_request_error"))
        },
        None => Ok(()),
    }
}

/// The tally after a sequence of events.
pub open spec fn tally_after(t: StreamTally, events: Seq<StreamEvent>) -> StreamTally
    decreases events.len(),
{
    if events.len() == 0 {
        t
    } else {
        tallied(tally_after(t, events.drop_last()), events.last())
    }
}

/// What is counted of a stream is what its events say: the tokens of the prompt and the
/// cached ones as the last beginning of a message gives them, those of the reply as the last
/// end of one does, and whether there was any content.
pub proof fn a_stream_is_tallied(t: StreamTally, events: Seq<StreamEvent>)
    ensures
        tally_after(t, events).input_tokens == crate::chat::prompt_tokens(events, t.input_tokens),
        tally_after(t, events).output_tokens == crate::responses::reply_tokens(
            events,
            t.output_tokens,
        ),
        tally_after(t, events).cache_read_tokens == crate::responses::cached_tokens(
            events,
            t.cache_read_tokens,
        ),
        tally_after(t, events).has_content <==> t.has_content || exists|i: int|
            0 <= i < events.len() && (#[trigger] events[i] is ContentBlockStart
                || events[i] is ContentBlockDelta),
    decreases events.len(),
{
    if events.len() > 0 {
        let rest = events.drop_last();
        a_stream_is_tallied(t, rest);
        let last = events[events.len() - 1];
        if exists|i: int|
            0 <= i < rest.len() && (#[trigger] rest[i] is ContentBlockStart
                || rest[i] is ContentBlockDelta) {
            let i = choose|i: int|
                0 <= i < rest.len() && (#[trigger] rest[i] is ContentBlockStart
                    || rest[i] is ContentBlockDelta);
            assert(events[i] == rest[i]);
        }
        if exists|i: int|
            0 <= i < events.len() && (#[trigger] events[i] is ContentBlockStart
                || events[i] is ContentBlockDelta) {
            let i = choose|i: int|
                0 <= i < events.len() && (#[trigger] events[i] is ContentBlockStart
                    || events[i] is ContentBlockDelta);
            assert(i < rest.len() ==> rest[i] == events[i]);
        }
    }
}

/// The fault that is reported is the first of the events, with its own text; there is none
/// only where no event is a fault.
pub proof fn the_first_fault_is_reported(events: Seq<StreamEvent>, from: int)
    requires
        0 <= from <= events.len(),
    ensures
        match first_fault(events, from) {
            Some(m) => exists|i: int|
                from <= i < events.len() && (#[trigger] events[i] matches StreamEvent::Fault { text }
                    && m == text@) && forall|j: int|
                    from <= j < i ==> !(#[trigger] events[j] is Fault),
            None => forall|j: int| from <= j < events.len() ==> !(#[trigger] events[j] is Fault),
        },
    decreases events.len() - from,
{
    if from < events.len() {
        if events[from] is Fault {
            assert(events[from] matches StreamEvent::Fault { text } && first_fault(events, from)
                == Some(text@));
        } else {
            the_first_fault_is_reported(events, from + 1);
            match first_fault(events, from + 1) {
                Some(m) => {
                    let i = choose|i: int|
                        from + 1 <= i < events.len() && (#[trigger] events[i] matches
                            StreamEvent::Fault { text } && m == text@) && forall|j: int|
                            from + 1 <= j < i ==> !(#[trigger] events[j] is Fault);
                    assert(events[i] is Fault);
                },
                None => {},
            }
        }
    }
}

/// A request succeeds exactly where there is no error. One that is told to wait is not tried
/// again before that time is over, one whose quota is exhausted not before its reset, and no
/// other error limits an account.
pub proof fn errors_limit_accounts(failure: Option<ProxyError>, now: u64, reset: Option<u64>)
    requires
        failure matches Some(ProxyError::Api(ApiError::RateLimited { retry_after })) ==> now
            + retry_after.secs <= u64::MAX,
    ensures
        outcome(failure, now, reset).success <==> failure is None,
        failure matches Some(ProxyError::Api(ApiError::RateLimited { retry_after })) ==> (outcome(
            failure,
            now,
            reset,
        ).rate_limit_until matches Some(until) && until == now + retry_after.secs),
        failure matches Some(ProxyError::Api(ApiError::QuotaExhausted { reset_time, .. }))
            ==> outcome(failure, now, reset_of(failure)).rate_limit_until == reset_secs(
            reset_time@,
        ),
        outcome(failure, now, reset).rate_limit_until is Some ==> (failure matches Some(
            ProxyError::Api(e),
        ) && (e is RateLimited || e is QuotaExhausted)),
{
}

/// A stream is streamed, a model that thinks is collected where no stream is asked for, and
/// every other request goes in one piece.
pub proof fn requests_go_upstream_as_asked(stream: bool, thinking: bool)
    ensures
        upstream_of(stream, thinking) == Upstream::Streaming <==> stream,
        upstream_of(stream, thinking) == Upstream::Plain <==> !stream && !thinking,
        upstream_of(stream, thinking) == Upstream::Collected <==> !stream && thinking,
{
}

/// What is said of the cache is true: `HIT` only where the cache was asked and had the reply,
/// `MISS` exactly where the reply is put there.
pub proof fn the_cache_header_is_true(stream: bool, thinking: bool, bypass: bool, hit: bool)
    ensures
        cache_header(stream, thinking, bypass, hit) == "HIT"@ <==> hit && !stream && !bypass,
        cache_header(stream, thinking, bypass, false) == "MISS"@ <==> stored_in_cache(
            stream,
            thinking,
            bypass,
            seq!['x'],
        ) is Some,
        forall|body: Seq<char>|
            #[trigger] stored_in_cache(stream, thinking, bypass, body) == (if !stream && !thinking
                && !bypass {
                Some(body)
            } else {
                None
            }),
{
    reveal_strlit("HIT");
    reveal_strlit("MISS");
    reveal_strlit("BYPASS");
    assert("HIT"@.len() != "MISS"@.len());
    assert("HIT"@.len() != "BYPASS"@.len());
    assert("MISS"@.len() != "BYPASS"@.len());
}

/// What is answered from the cache is the body that stands there, and only where neither a
/// stream nor a fresh reply is asked for.
pub proof fn the_cache_answers_with_what_it_holds(
    stream: bool,
    bypass: bool,
    cached: Option<Seq<char>>,
    request_id: Seq<char>,
)
    ensures
        match reply_from_cache(stream, bypass, cached, request_id) {
            Some(r) => cached == Some(r.body) && r.status == 200 && !stream && !bypass
                && r.headers.contains(("X-Request-Id"@, request_id)) && r.headers.contains(
                ("X-Cache"@, "HIT"@),
            ),
            None => cached is None || stream || bypass,
        },
{
    match reply_from_cache(stream, bypass, cached, request_id) {
        Some(r) => {
            assert(r.headers[1] == ("X-Request-Id"@, request_id));
            assert(r.headers[3] == ("X-Cache"@, "HIT"@));
        },
        None => {},
    }
}

/// The message of a reply without content names the model and begins the raw reply.
pub proof fn an_empty_reply_is_explained(model: Seq<char>, body: Seq<u8>)
    ensures
        crate::text::starts(empty_reply_message(model, body), "Model "@ + model),
        crate::text::ends(
            empty_reply_message(model, body),
            decoded(body).take(
                if decoded(body).len() < 200 {
                    decoded(body).len() as int
                } else {
                    200
                },
            ),
        ),
{
    let m = empty_reply_message(model, body);
    let head = "Model "@ + model;
    let raw = first_chars(decoded(body), 200);
    assert(m.subrange(0, head.len() as int) =~= head);
    assert(m.subrange(m.len() - raw.len(), m.len() as int) =~= raw);
    assert(raw =~= decoded(body).take(
        if decoded(body).len() < 200 {
            decoded(body).len() as int
        } else {
            200
        },
    ));
}

/// A body that cannot be read is refused with 400, with the message, in the Responses format.
pub proof fn unreadable_bodies_are_refused(message: Seq<char>)
    ensures
        responses_fault(message).status == 400,
        responses_fault(message).body == compact_json(
            error_body(message, "invalid_request_error"@, ErrorFormat::Responses, None),
        ),
{
}

} // verus!
