use agcp::errors::{
    check_body_size, error_to_response, invalid_request, map_error, ApiError, AuthError,
    ProxyError, Span,
};
use agcp::legacy::completions_is_chat;
use agcp::reply::{
    cors_preflight_response, error_format_for_path, error_response, error_response_body,
    error_response_for_path, json_ok_response, json_response, openai_error_response,
    responses_error_response, sse_ok_response, sse_streaming_response, ErrorFormat, Reply,
};
use agcp::routes::{
    acknowledgement, generate_request_id, is_internal_endpoint, let_in, not_found, refusal,
    request_id_for, request_id_from, request_id_of, request_log, route, Admission, ImageEditMode,
    Method, RequestLog, Route,
};
use agcp::serving::{answer_from_cache, answer_from_upstream};

fn body(reply: &Reply) -> serde_json::Value {
    serde_json::from_str(&reply.body).unwrap()
}

fn header<'a>(reply: &'a Reply, name: &str) -> Option<&'a str> {
    reply.headers.iter().find(|(n, _)| n == name).map(|(_, v)| v.as_str())
}

#[test]
fn health_checks_are_acknowledged() {
    for path in ["/", "/health", "/healthz"] {
        assert_eq!(route(Method::Get, path), Route::Acknowledge, "{path}");
    }
    assert_eq!(route(Method::Post, "/"), Route::Acknowledge);
    for path in ["/api/event_logging/batch", "/v1/api/event_logging/batch", "/v1/api/event_logging"] {
        assert_eq!(route(Method::Post, path), Route::Acknowledge, "{path}");
    }
}

#[test]
fn routes_by_method_and_path() {
    let cases = [
        (Method::Post, "/v1/messages", Route::Messages),
        (Method::Post, "/v1/chat/completions", Route::ChatCompletions),
        (Method::Post, "/chat/completions", Route::ChatCompletions),
        (Method::Post, "/v1/completions", Route::Completions),
        (Method::Post, "/completions", Route::Completions),
        (Method::Post, "/v1/responses", Route::Responses),
        (Method::Post, "/responses", Route::Responses),
        (Method::Post, "/v1/chat/completions/responses", Route::Responses),
        (Method::Post, "/v1/images/generations", Route::ImagesGenerations),
        (Method::Post, "/images/edits", Route::ImagesEditLike(ImageEditMode::Edits)),
        (Method::Post, "/v1/images/variations", Route::ImagesEditLike(ImageEditMode::Variations)),
        (Method::Post, "/v1/audio/transcriptions", Route::AudioTranscriptions),
        (Method::Post, "/v1/messages/count_tokens", Route::CountTokens),
        (Method::Get, "/v1/models", Route::Models),
        (Method::Get, "/models", Route::Models),
        (Method::Get, "/v1/models/flash", Route::ModelById),
        (Method::Get, "/models/flash", Route::ModelById),
        (Method::Post, "/v1/models/detect", Route::ModelDetect),
        (Method::Get, "/v1beta/models", Route::GeminiModels),
        (Method::Get, "/v1beta/models/gemini-3-flash", Route::GeminiModel),
        (Method::Post, "/v1beta/models/gemini-3-flash:countTokens", Route::GeminiCountTokens),
        (
            Method::Post,
            "/v1beta/models/gemini-3-flash:generateContent",
            Route::GeminiGenerateContent,
        ),
        (
            Method::Post,
            "/v1beta/models/gemini-3-flash:streamGenerateContent",
            Route::GeminiStreamGenerateContent,
        ),
        (Method::Post, "/internal/warmup", Route::InternalWarmup),
        (Method::Get, "/stats", Route::Stats),
        (Method::Get, "/cache/stats", Route::CacheStats),
        (Method::Post, "/cache/clear", Route::CacheClear),
        (Method::Get, "/account-limits", Route::AccountLimits),
        (Method::Get, "/api/logs/stream", Route::LogsStream),
        (Method::Get, "/nonexistent", Route::NotFound),
        (Method::Get, "/v1/messages", Route::NotFound),
        (Method::Other, "/v1/messages", Route::NotFound),
    ];
    for (method, path, want) in cases {
        assert_eq!(route(method, path), want, "{path}");
    }
}

#[test]
fn a_configured_key_is_asked_for() {
    let ask = |path: &str, auth: Option<&str>, key: Option<&str>| {
        let_in(Method::Post, path, Some("secret"), auth, key)
    };
    assert_eq!(ask("/v1/messages", None, None), Admission::Refused);
    assert_eq!(ask("/v1/messages", Some("Bearer wrong"), None), Admission::Refused);
    let good = Admission::Dispatch(Route::Messages);
    assert_eq!(ask("/v1/messages", Some("Bearer secret"), None), good);
    assert_eq!(ask("/v1/messages", None, Some("secret")), good);
    assert_eq!(let_in(Method::Post, "/v1/messages", None, None, None), good);
}

#[test]
fn open_paths_and_preflights_need_no_key() {
    assert_eq!(
        let_in(Method::Get, "/health", Some("secret"), None, None),
        Admission::Dispatch(Route::Acknowledge)
    );
    assert_eq!(
        let_in(Method::Options, "/v1/messages", Some("secret"), None, None),
        Admission::Preflight
    );
}

#[test]
fn refusals_take_the_shape_of_their_path() {
    let reply = refusal("/v1/messages", "req_1");
    assert_eq!(reply.status, 401);
    let b = body(&reply);
    assert_eq!(b["type"], "error");
    assert_eq!(b["error"]["type"], "authentication_error");
    assert_eq!(b["request_id"], "req_1");
    let b = body(&refusal("/v1/chat/completions", "req_1"));
    assert!(b["error"]["code"].is_null());
    assert!(b.get("request_id").is_none());
}

#[test]
fn test_not_found() {
    let reply = not_found("/nonexistent", "req_1");
    assert_eq!(reply.status, 404);
    assert!(reply.body.contains("not_found"));
}

#[test]
fn errors_have_three_shapes() {
    let anthropic = error_response_body("m", "t", ErrorFormat::Anthropic, Some("r"));
    let v: serde_json::Value = serde_json::from_str(&anthropic).unwrap();
    assert_eq!(v["type"], "error");
    assert_eq!(v["error"]["type"], "t");
    assert_eq!(v["error"]["message"], "m");
    assert_eq!(v["request_id"], "r");

    let openai = error_response_body("m", "t", ErrorFormat::OpenAI, Some("r"));
    let v: serde_json::Value = serde_json::from_str(&openai).unwrap();
    assert_eq!(v["error"]["message"], "m");
    assert!(v["error"]["param"].is_null() && v["error"]["code"].is_null());
    assert!(v.get("request_id").is_none());

    let responses = error_response_body("m", "t", ErrorFormat::Responses, Some("r"));
    let v: serde_json::Value = serde_json::from_str(&responses).unwrap();
    assert_eq!(v["error"]["code"], "t");
    assert!(v.get("request_id").is_none());
}

#[test]
fn the_path_decides_the_shape_of_an_error() {
    assert_eq!(error_format_for_path("/v1/messages"), ErrorFormat::Anthropic);
    assert_eq!(error_format_for_path("/v1/models/flash"), ErrorFormat::OpenAI);
    assert_eq!(error_format_for_path("/completions"), ErrorFormat::OpenAI);
    assert_eq!(error_format_for_path("/responses"), ErrorFormat::Responses);
    assert_eq!(error_format_for_path("/chat/completions/responses"), ErrorFormat::Responses);
}

#[test]
fn every_error_has_its_status_and_type() {
    let span = Span { secs: 2, nanos: 500_000_000 };
    let cases = [
        (ProxyError::Auth(AuthError::TokenExpired), 401, "authentication_error", "Token expired"),
        (
            ProxyError::Auth(AuthError::Other("No enabled accounts available".to_string())),
            401,
            "authentication_error",
            "No enabled accounts available",
        ),
        (
            ProxyError::Api(ApiError::RateLimited { retry_after: span }),
            429,
            "rate_limit_error",
            "Rate limited. Retry after 2.5s",
        ),
        (
            ProxyError::Api(ApiError::QuotaExhausted {
                model: "m".to_string(),
                reset_time: "t".to_string(),
            }),
            429,
            "invalid_request_error",
            "You have exhausted your capacity on m. Quota will reset after t.",
        ),
        (invalid_request("bad"), 400, "invalid_request_error", "bad"),
        (
            ProxyError::Api(ApiError::ServerError { status: 502, message: "up".to_string() }),
            502,
            "api_error",
            "up",
        ),
        (
            ProxyError::Api(ApiError::ServerError { status: 7, message: "up".to_string() }),
            500,
            "api_error",
            "up",
        ),
        (
            ProxyError::Api(ApiError::CapacityExhausted),
            503,
            "overloaded_error",
            "Model capacity exhausted",
        ),
        (
            ProxyError::Api(ApiError::RequestTooLarge { size: 11, max: 10 }),
            413,
            "invalid_request_error",
            "Request body too large: 11 bytes (max: 10 bytes)",
        ),
        (ProxyError::Io("io".to_string()), 500, "api_error", "io"),
        (ProxyError::Json("json".to_string()), 400, "invalid_request_error", "json"),
        (ProxyError::Http("http".to_string()), 502, "api_error", "http"),
        (
            ProxyError::Timeout(Span { secs: 30, nanos: 0 }),
            504,
            "timeout_error",
            "Request timed out after 30s",
        ),
    ];
    for (error, status, kind, message) in cases {
        assert_eq!(map_error(&error), (status, kind, message.to_string()));
        let reply = error_to_response(&error, None, "req_1", "/v1/messages");
        assert_eq!(reply.status, status);
        assert_eq!(body(&reply)["error"]["message"], message);
    }
}

#[test]
fn a_suggestion_follows_the_message() {
    let error = ProxyError::Auth(AuthError::TokenExpired);
    let reply = error_to_response(&error, Some("Log in again"), "r", "/v1/chat/completions");
    assert_eq!(body(&reply)["error"]["message"], "Token expired. Log in again");
}

#[test]
fn large_bodies_are_refused() {
    assert!(check_body_size(10, 10).is_ok());
    assert_eq!(
        check_body_size(11, 10),
        Err(ProxyError::Api(ApiError::RequestTooLarge { size: 11, max: 10 }))
    );
}

#[test]
fn replies_carry_their_headers() {
    let reply = json_response(200, "{\"status\":\"ok\"}");
    assert_eq!(header(&reply, "Content-Type"), Some("application/json"));
    assert_eq!(reply.body, "{\"status\":\"ok\"}");
    let reply = json_ok_response("{}".to_string(), "req_9", Some("HIT"));
    assert_eq!(header(&reply, "X-Request-Id"), Some("req_9"));
    assert_eq!(header(&reply, "X-Cache"), Some("HIT"));
    assert_eq!(header(&json_ok_response("{}".to_string(), "r", None), "X-Cache"), None);
    let reply = sse_ok_response("data: x\n\n".to_string(), "req_9");
    assert_eq!(header(&reply, "Content-Type"), Some("text/event-stream"));
    assert_eq!(reply.body, "data: x\n\n");
    assert_eq!(header(&sse_streaming_response("r"), "Content-Type"), Some("text/event-stream"));
    assert_eq!(header(&cors_preflight_response(), "Access-Control-Allow-Origin"), Some("*"));
}

#[test]
fn error_replies_of_each_kind() {
    assert_eq!(error_response(400, "m", "t", ErrorFormat::Anthropic).status, 400);
    assert_eq!(body(&responses_error_response(401, "m", "t"))["error"]["code"], "t");
    assert!(body(&openai_error_response(404, "m", "t"))["error"]["code"].is_null());
    let reply = error_response_for_path(400, "m", "t", "/v1/messages", "req_5");
    assert_eq!(body(&reply)["request_id"], "req_5");
}

#[test]
fn internal_requests_are_logged_quietly() {
    assert!(is_internal_endpoint("/health"));
    assert!(!is_internal_endpoint("/v1/messages"));
    assert_eq!(request_log(500, "/v1/messages"), RequestLog::Failed);
    assert_eq!(request_log(200, "/stats"), RequestLog::CompletedQuietly);
    assert_eq!(request_log(200, "/v1/messages"), RequestLog::Completed);
}

#[test]
fn request_ids_are_made_of_random_bytes() {
    let a = generate_request_id().unwrap();
    let b = generate_request_id().unwrap();
    assert_eq!(a.len(), b.len());
    assert_ne!(a, b);
    assert!(a.starts_with("req_"));
    assert_eq!(request_id_for(Some("mine")), Some("mine".to_string()));
    assert!(request_id_for(None).unwrap().starts_with("req_"));
}

#[test]
fn different_bytes_make_different_ids() {
    let a = request_id_from(&[0, 0, 0, 0, 0, 1, 2, 3]);
    assert_ne!(a, request_id_from(&[0, 0, 0, 0, 0, 1, 2, 4]));
    assert_eq!(request_id_from(&[0, 0, 0, 0, 0, 1, 2, 255]), "req_00000000000102ff");
}

#[test]
fn an_id_is_made_exactly_where_bytes_were_given() {
    assert_eq!(
        request_id_of(Some([255, 16, 0, 0, 0, 0, 0, 10])),
        Some("req_ff1000000000000a".to_string())
    );
    assert_eq!(request_id_of(None), None);
}

#[test]
fn image_modes_know_their_route() {
    assert_eq!(ImageEditMode::Edits.route(), "/v1/images/edits");
    assert_eq!(ImageEditMode::Variations.route(), "/v1/images/variations");
    assert_ne!(ImageEditMode::Edits.action(), ImageEditMode::Variations.action());
}

#[test]
fn polled_paths_are_acknowledged() {
    let reply = acknowledgement();
    assert_eq!((reply.status, reply.body.as_str()), (200, "{\"status\":\"ok\"}"));
    for path in ["/health", "/healthz", "/"] {
        let admitted = let_in(Method::Get, path, None, None, None);
        assert_eq!(admitted, Admission::Dispatch(Route::Acknowledge), "{path}");
    }
    for path in [
        "/",
        "/api/event_logging/batch",
        "/v1/api/event_logging/batch",
        "/v1/api/event_logging",
    ] {
        let admitted = let_in(Method::Post, path, None, None, None);
        assert_eq!(admitted, Admission::Dispatch(Route::Acknowledge), "{path}");
    }
}

#[test]
fn completions_with_messages_are_chats() {
    assert_eq!(completions_is_chat("{\"messages\":[]}"), Some(true));
    assert_eq!(completions_is_chat("{\"prompt\":\"x\"}"), Some(false));
    assert_eq!(completions_is_chat("[1]"), Some(false));
    assert_eq!(completions_is_chat("{"), None);
}

#[test]
fn equal_requests_get_the_cached_reply() {
    let (first, stored) =
        answer_from_upstream(false, false, false, "{\"a\":1}".to_string(), "req_1");
    assert_eq!(first.headers.last().unwrap().1, "MISS");
    let again = answer_from_cache(false, false, stored, "req_2").unwrap();
    assert_eq!(again.body, first.body);
    assert_eq!(again.headers.last().unwrap().1, "HIT");
    assert_eq!(again.headers[1].1, "req_2");
    assert!(answer_from_cache(false, true, Some("x".to_string()), "r").is_none());
    assert!(answer_from_cache(true, false, Some("x".to_string()), "r").is_none());
    let (reply, stored) = answer_from_upstream(false, true, false, "x".to_string(), "r");
    assert_eq!(reply.headers.last().unwrap().1, "BYPASS");
    assert_eq!(stored, None);
}
