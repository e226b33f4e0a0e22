use agcp::errors::{ApiError, ProxyError, Span};
use agcp::frames::{event_frame, warmup_response};
use agcp::json::parse_json;
use agcp::messages::{
    count_block_chars, count_tokens, estimate_tokens, is_warmup_request, is_warmup_text_candidate,
    should_bypass_cache, tool_result_contains_warmup, validate_request, warmup_events, warmup_id,
    warmup_message, ContentBlock, ContentDelta, Message, MessageContent, MessageStart,
    MessagesRequest, Role, Source, StopReason, StreamEvent, Tool, ToolResultContent, Usage,
};
use agcp::serving::{
    cache_status, check_announced_length, check_collected, check_messages_content_type,
    check_responses_body, check_stream_errors, choose_upstream, goes_in_cache, has_content,
    looks_in_cache, recorded_google_usage, recorded_usage, should_fall_back, take_chars,
    token_step, track_request_outcome, AccountUpdate, StreamTally, TokenStep, Upstream,
    UsageMetadata,
};

fn text(t: &str) -> ContentBlock {
    ContentBlock::Text { text: t.to_string() }
}

fn user(content: MessageContent) -> Message {
    Message { role: Role::User, content }
}

fn request(model: &str, max_tokens: u32, messages: Vec<Message>) -> MessagesRequest {
    MessagesRequest {
        model: model.to_string(),
        messages,
        max_tokens,
        stream: false,
        temperature_in_range: None,
    }
}

fn hi() -> Vec<Message> {
    vec![user(MessageContent::Text("hi".to_string()))]
}

fn fault(q: &MessagesRequest) -> String {
    match validate_request(q) {
        Err(ProxyError::Api(ApiError::InvalidRequest { message })) => message,
        other => panic!("{other:?}"),
    }
}

#[test]
fn requests_are_checked() {
    assert!(validate_request(&request("m", 100, hi())).is_ok());
    assert!(validate_request(&request("m", 200_000, hi())).is_ok());
    assert_eq!(fault(&request("m", 0, hi())), "max_tokens must be greater than 0");
    assert_eq!(fault(&request("m", 200_001, hi())), "max_tokens cannot exceed 200000");
    assert_eq!(fault(&request("", 100, hi())), "model is required");
    assert_eq!(fault(&request("m", 100, vec![])), "messages array cannot be empty");
    let mut hot = request("m", 100, hi());
    hot.temperature_in_range = Some(false);
    assert_eq!(fault(&hot), "temperature must be between 0.0 and 2.0");
    hot.temperature_in_range = Some(true);
    assert!(validate_request(&hot).is_ok());
}

#[test]
fn warmups_are_recognised() {
    for t in ["warmup", "  Warmup  ", "WARMUP now", "warmup\nnow", "warmup\tnow"] {
        assert!(is_warmup_text_candidate(t, 100), "{t}");
    }
    for t in ["", "   ", "warmups", "a warmup"] {
        assert!(!is_warmup_text_candidate(t, 100), "{t}");
    }
    assert!(!is_warmup_text_candidate("warmup now", 9));
    assert!(is_warmup_text_candidate("warmup now", 10));
}

#[test]
fn the_last_message_of_the_user_decides() {
    let warm = |content| is_warmup_request(&request("m", 1, vec![user(content)]), 50);
    assert!(warm(MessageContent::Text("warmup".to_string())));
    assert!(warm(MessageContent::Blocks(vec![text("x"), text("warmup")])));
    assert!(!warm(MessageContent::Text("hello".to_string())));
    let result = |is_error| ContentBlock::ToolResult {
        tool_use_id: "t".to_string(),
        content: ToolResultContent::Blocks(vec![text("warmup")]),
        is_error,
    };
    assert!(warm(MessageContent::Blocks(vec![result(Some(true))])));
    assert!(!warm(MessageContent::Blocks(vec![result(Some(false))])));
    assert!(!warm(MessageContent::Blocks(vec![result(None)])));
    assert!(tool_result_contains_warmup(&ToolResultContent::Text("warmup".to_string()), 50));
    let q = request("m", 1, vec![user(MessageContent::Text("warmup".to_string()))]);
    assert!(!is_warmup_request(&q, 0));
    assert!(!is_warmup_request(&request("m", 1, vec![]), 50));
    let answered = request(
        "m",
        1,
        vec![Message {
            role: Role::Assistant,
            content: MessageContent::Text("warmup".to_string()),
        }],
    );
    assert!(!is_warmup_request(&answered, 50));
}

#[test]
fn a_warmup_is_answered_without_asking() {
    assert_eq!(warmup_id(123), "msg_warmup_123");
    let m = warmup_message("m", "msg_warmup_123");
    assert_eq!(m.text, "OK");
    assert_eq!(m.stop_reason, StopReason::EndTurn);
    assert_eq!((m.usage.input_tokens, m.usage.output_tokens), (1, 1));
    let events = warmup_events("m", "msg_warmup_123");
    assert_eq!(events.len(), 6);
    assert!(matches!(&events[0], StreamEvent::MessageStart { message } if message.id == "msg_warmup_123"));
    assert_eq!(
        events[2],
        StreamEvent::ContentBlockDelta {
            index: 0,
            delta: ContentDelta::Text { text: "OK".to_string() },
        }
    );
    assert_eq!(events[5], StreamEvent::MessageStop);
}

#[test]
fn headers_can_turn_the_cache_off() {
    assert!(should_bypass_cache(Some("no-cache"), None));
    assert!(should_bypass_cache(Some("private, no-store"), None));
    assert!(should_bypass_cache(None, Some("true")));
    assert!(should_bypass_cache(None, Some("1")));
    assert!(!should_bypass_cache(Some("max-age=1"), Some("yes")));
    assert!(!should_bypass_cache(None, None));
}

#[test]
fn blocks_are_counted_by_their_bytes() {
    let source = Source {
        source_type: "base64".to_string(),
        media_type: "image/png".to_string(),
        data: "AAAA".to_string(),
    };
    assert_eq!(count_block_chars(&text("h\u{e9}llo")), Some(6));
    assert_eq!(count_block_chars(&ContentBlock::Image { source: source.clone() }), Some(256));
    assert_eq!(count_block_chars(&ContentBlock::Document { source }), Some(1024));
    assert_eq!(
        count_block_chars(&ContentBlock::ToolUse {
            id: "i".to_string(),
            name: "tool".to_string(),
            input: parse_json("{\"a\": 1}").unwrap(),
        }),
        Some(4 + 7)
    );
    assert_eq!(
        count_block_chars(&ContentBlock::ToolResult {
            tool_use_id: "i".to_string(),
            content: ToolResultContent::Blocks(vec![text("ab"), text("cde")]),
            is_error: None,
        }),
        Some(5)
    );
    assert_eq!(
        count_block_chars(&ContentBlock::Thinking { thinking: "hmm".to_string() }),
        Some(3)
    );
}

#[test]
fn tokens_are_estimated_from_characters() {
    assert_eq!(estimate_tokens(0), 1);
    assert_eq!(estimate_tokens(40), 10);
    let messages = vec![user(MessageContent::Text("Hello, world!".to_string()))];
    let plain = count_tokens(&None, &messages, &None).unwrap();
    assert!(plain >= 3);
    let tools = Some(vec![Tool {
        name: "read_file".to_string(),
        description: Some("Reads a file from the disk".to_string()),
        input_schema: parse_json("{\"type\":\"object\"}").unwrap(),
    }]);
    let system = Some(MessageContent::Text("Be brief and to the point.".to_string()));
    assert!(count_tokens(&system, &messages, &None).unwrap() > plain);
    assert!(count_tokens(&None, &messages, &tools).unwrap() > plain);
}

#[test]
fn message_bodies_are_json_of_a_bounded_length() {
    assert!(check_messages_content_type("application/json; charset=utf-8").is_ok());
    assert!(check_messages_content_type("text/plain").is_err());
    assert!(check_announced_length(None, 10).is_ok());
    assert!(check_announced_length(Some("10"), 10).is_ok());
    assert!(check_announced_length(Some("many"), 10).is_ok());
    assert!(matches!(
        check_announced_length(Some("11"), 10),
        Err(ProxyError::Api(ApiError::RequestTooLarge { size: 11, max: 10 }))
    ));
    assert!(check_responses_body("application/json", None).is_ok());
    assert_eq!(check_responses_body("text/plain", None).unwrap_err().status, 400);
    assert_eq!(check_responses_body("application/json", Some("eof")).unwrap_err().status, 400);
}

#[test]
fn thinking_is_collected_and_streams_are_streamed() {
    assert_eq!(choose_upstream(true, true), Upstream::Streaming);
    assert_eq!(choose_upstream(true, false), Upstream::Streaming);
    assert_eq!(choose_upstream(false, true), Upstream::Collected);
    assert_eq!(choose_upstream(false, false), Upstream::Plain);
}

#[test]
fn streams_and_refusals_of_the_cache_are_not_cached() {
    assert!(!looks_in_cache(true, false));
    assert!(!looks_in_cache(false, true));
    assert!(looks_in_cache(false, false));
    assert!(!goes_in_cache(true, false, false));
    assert!(!goes_in_cache(false, true, false) || goes_in_cache(false, false, false));
    assert!(!goes_in_cache(false, false, true));
    assert!(goes_in_cache(false, false, false));
    assert_eq!(cache_status(false, false, false, true), "HIT");
    assert_eq!(cache_status(false, false, false, false), "MISS");
    assert_eq!(cache_status(false, false, true, false), "BYPASS");
}

fn usage(input_tokens: u32, output_tokens: u32) -> Usage {
    Usage {
        input_tokens,
        output_tokens,
        cache_creation_input_tokens: None,
        cache_read_input_tokens: Some(4),
    }
}

fn started() -> StreamEvent {
    StreamEvent::MessageStart {
        message: MessageStart {
            id: "msg_1".to_string(),
            model: "m".to_string(),
            usage: usage(9, 0),
        },
    }
}

fn said(t: &str) -> StreamEvent {
    StreamEvent::ContentBlockDelta { index: 0, delta: ContentDelta::Text { text: t.to_string() } }
}

#[test]
fn faults_in_a_stream_are_found() {
    assert!(check_stream_errors(&vec![started(), said("x")]).is_ok());
    let events = vec![started(), StreamEvent::Fault { text: "broken".to_string() }];
    assert_eq!(
        check_stream_errors(&events),
        Err(ProxyError::Api(ApiError::ServerError {
            status: 502,
            message: "broken".to_string(),
        }))
    );
    assert!(has_content(&vec![said("x")]));
    assert!(!has_content(&vec![started()]));
    assert!(check_collected(&vec![started(), said("x")], b"body", "m").is_ok());
    assert!(check_collected(&vec![started()], b"body", "m").is_err());
    assert_eq!(take_chars("h\u{e9}llo", 2), "h\u{e9}");
}

#[test]
fn the_tokens_of_a_stream_are_tallied() {
    let mut tally = StreamTally::new();
    tally.on_event(&started());
    tally.on_event(&said("x"));
    tally.on_event(&StreamEvent::MessageDelta {
        stop_reason: Some(StopReason::EndTurn),
        output_tokens: 17,
    });
    assert_eq!(tally.input_tokens, 9);
    assert_eq!(tally.output_tokens, 17);
    assert_eq!(tally.cache_read_tokens, 4);
    assert!(tally.has_content);
    assert_eq!(recorded_usage(&usage(5, 6)), (5, 6, 4));
    assert_eq!(recorded_google_usage(None), None);
    assert_eq!(
        recorded_google_usage(Some(UsageMetadata {
            prompt_token_count: 9,
            candidates_token_count: 2,
            cached_content_token_count: 3,
        })),
        Some((6, 2, 3))
    );
}

#[test]
fn exhausted_models_fall_back() {
    let full = ProxyError::Api(ApiError::CapacityExhausted);
    let quota = ProxyError::Api(ApiError::QuotaExhausted {
        model: "m".to_string(),
        reset_time: "2026-01-01T00:00:00Z".to_string(),
    });
    let other = ProxyError::Http("x".to_string());
    assert!(should_fall_back(true, Some(&quota), true));
    assert!(!should_fall_back(false, Some(&quota), true));
    assert!(!should_fall_back(true, Some(&quota), false));
    assert!(!should_fall_back(true, Some(&other), true));
    assert!(!should_fall_back(true, None, true));
    let _ = should_fall_back(true, Some(&full), true);
}

#[test]
fn outcomes_say_until_when_an_account_rests() {
    let fine = track_request_outcome(None, 100);
    assert!(fine.success);
    assert_eq!(fine.update(), AccountUpdate::Succeeded);
    let limited = ProxyError::Api(ApiError::RateLimited { retry_after: Span { secs: 30, nanos: 9 } });
    let outcome = track_request_outcome(Some(&limited), 100);
    assert_eq!(outcome.rate_limit_until, Some(130));
    assert_eq!(outcome.update(), AccountUpdate::FailedUntil(130));
    let quota = ProxyError::Api(ApiError::QuotaExhausted {
        model: "m".to_string(),
        reset_time: "1970-01-02T00:00:00Z".to_string(),
    });
    assert_eq!(track_request_outcome(Some(&quota), 100).rate_limit_until, Some(86400));
    let unreadable = ProxyError::Api(ApiError::QuotaExhausted {
        model: "m".to_string(),
        reset_time: "soon".to_string(),
    });
    assert_eq!(track_request_outcome(Some(&unreadable), 100).rate_limit_until, None);
    let other = ProxyError::Http("x".to_string());
    assert_eq!(track_request_outcome(Some(&other), 100).update(), AccountUpdate::Failed);
}

#[test]
fn tokens_are_used_while_they_are_valid() {
    let refresh = "r".to_string();
    assert_eq!(
        token_step(true, true, Some("t".to_string()), refresh.clone()),
        Ok(TokenStep::Use("t".to_string()))
    );
    assert_eq!(
        token_step(true, true, None, refresh.clone()),
        Ok(TokenStep::Refresh("r".to_string()))
    );
    assert!(token_step(false, false, None, refresh.clone()).is_err());
    assert!(token_step(true, false, None, refresh).is_err());
}

#[test]
fn stop_reasons_have_openai_names() {
    assert_eq!(StopReason::EndTurn.to_openai_str(), "stop");
    assert_eq!(StopReason::MaxTokens.to_openai_str(), "length");
    assert_eq!(StopReason::ToolUse.to_openai_str(), "tool_calls");
}

fn asking(stream: bool) -> MessagesRequest {
    MessagesRequest {
        model: "sonnet-4-6-thinking".to_string(),
        messages: vec![Message {
            role: Role::User,
            content: MessageContent::Text("Warmup ping".to_string()),
        }],
        max_tokens: 8,
        stream,
        temperature_in_range: None,
    }
}

#[test]
fn an_intercepted_warmup_is_answered() {
    let q = asking(false);
    assert!(is_warmup_request(&q, 100));
    let reply = warmup_response(&q, "req_1", 17);
    assert_eq!(reply.status, 200);
    let last = reply.headers.last().unwrap();
    assert_eq!((last.0.as_str(), last.1.as_str()), ("X-Warmup-Intercepted", "true"));
    assert!(reply.body.contains("\"text\":\"OK\""));
    let body: serde_json::Value = serde_json::from_str(&reply.body).unwrap();
    assert_eq!(body["id"], "msg_warmup_17");
    assert_eq!(body["model"], "sonnet-4-6-thinking");
    assert_eq!(body["content"].as_array().unwrap().len(), 1);
    assert_eq!(body["stop_reason"], "end_turn");
    assert_eq!(body["usage"]["input_tokens"], 1);
    assert!(body["usage"].get("cache_read_input_tokens").is_none());

    let reply = warmup_response(&asking(true), "req_1", 17);
    let last = reply.headers.last().unwrap();
    assert_eq!((last.0.as_str(), last.1.as_str()), ("X-Warmup-Intercepted", "true"));
    let frames: Vec<&str> = reply.body.split("\n\n").filter(|f| !f.is_empty()).collect();
    assert_eq!(frames.len(), 6);
    assert!(frames[0].starts_with("event: message_start\ndata: {"));
    assert!(frames[2].contains("\"text\":\"OK\""));
    assert_eq!(frames[5], "event: message_stop\ndata: {\"type\":\"message_stop\"}");
}

#[test]
fn events_are_framed() {
    let e = StreamEvent::ContentBlockStop { index: 3 };
    assert_eq!(
        event_frame(&e),
        "event: content_block_stop\ndata: {\"index\":3,\"type\":\"content_block_stop\"}\n\n"
    );
    let frame = event_frame(&StreamEvent::Fault { text: "no".to_string() });
    assert!(frame.starts_with("event: error\n"));
    assert!(frame.contains("\"message\":\"no\""));
    let result = ContentBlock::ToolResult {
        tool_use_id: "t".to_string(),
        content: ToolResultContent::Blocks(vec![ContentBlock::Text { text: "x".to_string() }]),
        is_error: Some(true),
    };
    let frame = event_frame(&StreamEvent::ContentBlockStart { index: 0, content_block: result });
    let json = frame.split("data: ").nth(1).unwrap().trim_end();
    let v: serde_json::Value = serde_json::from_str(json).unwrap();
    assert_eq!(v["content_block"]["content"][0]["text"], "x");
    assert_eq!(v["content_block"]["is_error"], true);
}
