use agcp::chat::{ChatCompletionChunk, ChatUsage, ChunkChoice, ChunkDelta};
use agcp::json::parse_json;
use agcp::legacy::{
    after_chat_reply, chat_response_to_legacy, check_one_choice,
    convert_chat_chunk_to_legacy_chunk, is_chat_payload, legacy_to_chat, ChatChoice,
    ChatCompletionResponse, LegacyCompletionRequest, LegacyNext, LegacyPrompt,
};
use agcp::sse::{classify_event, data_frame, EventAction, EventBuffer};

fn chunk(content: Option<&str>, finish: Option<&str>, usage: Option<ChatUsage>) -> ChatCompletionChunk {
    ChatCompletionChunk {
        id: "chatcmpl_stream".to_string(),
        object: "chat.completion.chunk".to_string(),
        created: 1700000000,
        model: "gemini-3-flash".to_string(),
        choices: vec![ChunkChoice {
            index: 0,
            delta: ChunkDelta {
                role: Some("assistant".to_string()),
                content: content.map(|c| c.to_string()),
                tool_calls: None,
            },
            finish_reason: finish.map(|f| f.to_string()),
            logprobs: None,
        }],
        usage,
        system_fingerprint: Some("fp_stream".to_string()),
    }
}

#[test]
fn test_convert_chat_chunk_to_legacy_chunk_text_delta() {
    let chat_chunk = ChatCompletionChunk {
        id: "chatcmpl_abc".to_string(),
        object: "chat.completion.chunk".to_string(),
        created: 1234,
        model: "gemini-3-flash".to_string(),
        choices: vec![ChunkChoice {
            index: 0,
            delta: ChunkDelta {
                role: Some("assistant".to_string()),
                content: Some("hello".to_string()),
                tool_calls: None,
            },
            finish_reason: None,
            logprobs: None,
        }],
        usage: None,
        system_fingerprint: None,
    };

    let legacy = convert_chat_chunk_to_legacy_chunk(chat_chunk);
    assert_eq!(legacy.object, "text_completion.chunk");
    assert_eq!(legacy.choices.len(), 1);
    assert_eq!(legacy.choices[0].text, "hello");
    assert_eq!(legacy.choices[0].index, 0);
    assert!(legacy.choices[0].finish_reason.is_none());
}

#[test]
fn test_convert_chat_chunk_to_legacy_chunk_usage_and_finish_reason() {
    let chat_chunk = ChatCompletionChunk {
        id: "chatcmpl_xyz".to_string(),
        object: "chat.completion.chunk".to_string(),
        created: 5678,
        model: "sonnet-4-6".to_string(),
        choices: vec![ChunkChoice {
            index: 0,
            delta: ChunkDelta { role: None, content: None, tool_calls: None },
            finish_reason: Some("stop".to_string()),
            logprobs: None,
        }],
        usage: Some(ChatUsage { prompt_tokens: 5, completion_tokens: 7, total_tokens: 12 }),
        system_fingerprint: Some("fp_test".to_string()),
    };

    let legacy = convert_chat_chunk_to_legacy_chunk(chat_chunk);
    assert_eq!(legacy.object, "text_completion.chunk");
    assert_eq!(legacy.choices[0].text, "");
    assert_eq!(legacy.choices[0].finish_reason, Some("stop".to_string()));
    assert_eq!(legacy.usage.as_ref().map(|u| u.total_tokens), Some(12));
    assert_eq!(legacy.system_fingerprint.as_deref(), Some("fp_test"));
}

#[test]
fn a_chat_stream_becomes_a_stream_of_completions() {
    let usage = ChatUsage { prompt_tokens: 2, completion_tokens: 3, total_tokens: 5 };
    let first = convert_chat_chunk_to_legacy_chunk(chunk(Some("hello"), None, None));
    let last = convert_chat_chunk_to_legacy_chunk(chunk(None, Some("stop"), Some(usage)));
    assert_eq!(first.choices[0].text, "hello");
    assert_eq!(first.created, 1700000000);
    assert_eq!(last.choices[0].finish_reason.as_deref(), Some("stop"));
    assert_eq!(last.usage.unwrap().total_tokens, 5);

    let mut buffer = EventBuffer::new();
    let events = buffer.feed(b"data: {\"id\":1}\n\n: ping\n\ndata: [DO");
    assert_eq!(events, vec!["data: {\"id\":1}".to_string(), ": ping".to_string()]);
    let events = buffer.feed(b"NE]\n\n");
    assert_eq!(events, vec!["data: [DONE]".to_string()]);
    assert_eq!(buffer.finish(), None);
}

#[test]
fn events_are_passed_on_or_converted() {
    assert_eq!(classify_event("  \n"), EventAction::Skip);
    assert_eq!(classify_event(": ping"), EventAction::Send(": ping\n\n".to_string()));
    assert_eq!(classify_event("event: x"), EventAction::Skip);
    assert_eq!(
        classify_event("data: [DONE]"),
        EventAction::Send("data: [DONE]\n\n".to_string())
    );
    assert_eq!(
        classify_event("data: {\"a\":1}"),
        EventAction::Convert("{\"a\":1}".to_string())
    );
    assert_eq!(
        classify_event("data: one\ndata:  two"),
        EventAction::Convert("one\ntwo".to_string())
    );
    assert_eq!(data_frame("x"), "data: x\n\n");
}

#[test]
fn what_is_left_of_a_stream_is_its_last_event() {
    let mut buffer = EventBuffer::new();
    assert!(buffer.feed(b"data: half").is_empty());
    assert_eq!(buffer.finish(), Some("data: half".to_string()));
}

#[test]
fn bytes_that_are_no_text_are_replaced() {
    let mut buffer = EventBuffer::new();
    assert_eq!(buffer.feed(b"data: \xff\n\n"), vec!["data: \u{fffd}".to_string()]);
}

#[test]
fn it_does_not_matter_how_a_stream_is_cut() {
    let text = "data: a\n\ndata: b\n\n: ping\n\ndata: c\n\n";
    let mut whole = EventBuffer::new();
    let all = whole.feed(text.as_bytes());
    let mut cut = EventBuffer::new();
    let mut piecewise = Vec::new();
    for byte in text.as_bytes() {
        piecewise.extend(cut.feed(&[*byte]));
    }
    assert_eq!(all, piecewise);
    assert_eq!(all.len(), 4);
}

fn legacy_request(prompt: LegacyPrompt, n: Option<u32>) -> LegacyCompletionRequest {
    LegacyCompletionRequest {
        model: "gemini-3-flash".to_string(),
        prompt,
        max_tokens: Some(10),
        max_completion_tokens: None,
        stream: true,
        n,
        user: Some("u".to_string()),
    }
}

#[test]
fn test_legacy_completions_prompt_empty_rejected() {
    let reply = legacy_to_chat(legacy_request(LegacyPrompt::Single("   ".to_string()), None))
        .unwrap_err();
    assert_eq!(reply.status, 400);
    assert!(reply.body.contains("prompt cannot be empty"));
}

#[test]
fn a_prompt_becomes_a_chat() {
    let request =
        legacy_to_chat(legacy_request(LegacyPrompt::Single("hello".to_string()), Some(1))).unwrap();
    assert_eq!(request.model, "gemini-3-flash");
    assert_eq!(request.messages.len(), 1);
    assert_eq!(request.messages[0].role, "user");
    assert_eq!(request.messages[0].content, "hello");
    assert_eq!(request.max_tokens, Some(10));
    assert!(request.stream);
    assert_eq!(request.user.as_deref(), Some("u"));
}

#[test]
fn prompts_are_joined() {
    let prompt = LegacyPrompt::Multiple(vec!["a".to_string(), "b".to_string()]);
    assert_eq!(prompt.into_text(), "a\nb");
}

#[test]
fn one_choice_is_given() {
    assert!(check_one_choice(None).is_none());
    assert!(check_one_choice(Some(1)).is_none());
    assert_eq!(check_one_choice(Some(2)).unwrap().status, 400);
}

#[test]
fn chats_are_told_from_prompts() {
    let chat = parse_json("{\"model\":\"m\",\"messages\":[]}").unwrap();
    let prompt = parse_json("{\"model\":\"m\",\"prompt\":\"p\"}").unwrap();
    assert!(is_chat_payload(&chat));
    assert!(!is_chat_payload(&prompt));
}

#[test]
fn only_good_replies_are_converted() {
    assert_eq!(after_chat_reply(401, true), LegacyNext::Relay);
    assert_eq!(after_chat_reply(200, true), LegacyNext::AdaptStream);
    assert_eq!(after_chat_reply(200, false), LegacyNext::Convert);
}

#[test]
fn a_chat_reply_becomes_a_completion() {
    let reply = chat_response_to_legacy(ChatCompletionResponse {
        id: "chatcmpl_1".to_string(),
        created: 9,
        model: "m".to_string(),
        choices: vec![ChatChoice {
            index: 0,
            content: Some("text".to_string()),
            finish_reason: Some("stop".to_string()),
            logprobs: None,
        }],
        usage: Some(ChatUsage { prompt_tokens: 1, completion_tokens: 2, total_tokens: 3 }),
        system_fingerprint: None,
    });
    assert_eq!(reply.object, "text_completion");
    assert_eq!(reply.choices[0].text, "text");
    assert_eq!(reply.usage.unwrap().total_tokens, 3);
}
