use agcp::chat::{ChatCompletionChunk, ChatStream};
use agcp::json::json_object;
use agcp::messages::{
    ContentBlock, ContentDelta, MessageStart, StopReason, StreamEvent, Usage,
};
use agcp::responses::{ResponseOutputItem, ResponseStreamEvent, ResponsesStream};
use agcp::sse::{turn, Turn, Wake};

fn start() -> StreamEvent {
    StreamEvent::MessageStart {
        message: MessageStart {
            id: "msg_1".to_string(),
            model: "m".to_string(),
            usage: Usage {
                input_tokens: 10,
                output_tokens: 0,
                cache_creation_input_tokens: None,
                cache_read_input_tokens: Some(3),
            },
        },
    }
}

fn open(block: ContentBlock) -> StreamEvent {
    StreamEvent::ContentBlockStart { index: 0, content_block: block }
}

fn say(t: &str) -> StreamEvent {
    StreamEvent::ContentBlockDelta { index: 0, delta: ContentDelta::Text { text: t.to_string() } }
}

fn arguments(t: &str) -> StreamEvent {
    StreamEvent::ContentBlockDelta {
        index: 0,
        delta: ContentDelta::InputJson { partial_json: t.to_string() },
    }
}

fn tool(id: &str, name: &str) -> StreamEvent {
    open(ContentBlock::ToolUse { id: id.to_string(), name: name.to_string(), input: json_object() })
}

fn stop(reason: StopReason, output_tokens: u32) -> StreamEvent {
    StreamEvent::MessageDelta { stop_reason: Some(reason), output_tokens }
}

fn contents(chunks: &Vec<ChatCompletionChunk>) -> String {
    let mut r = String::new();
    for c in chunks {
        for choice in &c.choices {
            r.push_str(choice.delta.content.as_deref().unwrap_or(""));
        }
    }
    r
}

#[test]
fn a_message_becomes_chat_chunks() {
    let mut stream = ChatStream::new("req_abc", 1700, "model");
    let events = vec![
        start(),
        open(ContentBlock::Text { text: String::new() }),
        say("Hel"),
        say("lo"),
        StreamEvent::ContentBlockStop { index: 0 },
        stop(StopReason::EndTurn, 7),
        StreamEvent::MessageStop,
    ];
    let chunks: Vec<ChatCompletionChunk> =
        events.iter().filter_map(|e| stream.process_event(e)).collect();
    assert_eq!(contents(&chunks), "Hello");
    let roles = chunks
        .iter()
        .flat_map(|c| c.choices.iter())
        .filter(|c| c.delta.role.as_deref() == Some("assistant"))
        .count();
    assert_eq!(roles, 1);
    assert!(chunks.iter().all(|c| c.created == 1700 && c.model == "model"));
    assert!(chunks.iter().all(|c| c.object == "chat.completion.chunk"));
    assert!(chunks.iter().all(|c| c.id == chunks[0].id));
    let last = chunks.last().unwrap();
    assert_eq!(last.choices[0].finish_reason.as_deref(), Some("stop"));
    let usage = last.usage.unwrap();
    assert_eq!((usage.prompt_tokens, usage.completion_tokens, usage.total_tokens), (10, 7, 17));
}

#[test]
fn tool_calls_are_numbered() {
    let mut stream = ChatStream::new("req_abc", 1, "model");
    let events = vec![
        start(),
        tool("toolu_1", "first"),
        arguments("{\"a\":"),
        arguments("1}"),
        StreamEvent::ContentBlockStop { index: 0 },
        tool("toolu_2", "second"),
        arguments("{}"),
        StreamEvent::ContentBlockStop { index: 1 },
        stop(StopReason::ToolUse, 5),
    ];
    let chunks: Vec<ChatCompletionChunk> =
        events.iter().filter_map(|e| stream.process_event(e)).collect();
    let mut calls = Vec::new();
    for c in &chunks {
        for choice in &c.choices {
            for call in choice.delta.tool_calls.iter().flatten() {
                calls.push(call.clone());
            }
        }
    }
    let named: Vec<(u32, String)> = calls
        .iter()
        .filter_map(|c| {
            let f = c.function.clone()?;
            Some((c.index, f.name?))
        })
        .collect();
    assert_eq!(named, vec![(0, "first".to_string()), (1, "second".to_string())]);
    let finish = chunks.last().unwrap().choices[0].finish_reason.clone();
    assert_eq!(finish.as_deref(), Some("tool_calls"));
}

#[test]
fn text_blocks_do_not_move_the_number_of_a_call() {
    let mut stream = ChatStream::new("req_abc", 1, "model");
    let events = vec![
        start(),
        open(ContentBlock::Text { text: String::new() }),
        say("a"),
        StreamEvent::ContentBlockStop { index: 0 },
        tool("t1", "f"),
        StreamEvent::ContentBlockStop { index: 1 },
        StreamEvent::MessageDelta { stop_reason: None, output_tokens: 2 },
    ];
    let chunks: Vec<ChatCompletionChunk> =
        events.iter().filter_map(|e| stream.process_event(e)).collect();
    let call = chunks
        .iter()
        .flat_map(|c| c.choices.iter())
        .find_map(|c| c.delta.tool_calls.clone())
        .unwrap();
    assert_eq!(call[0].id.as_deref(), Some("t1"));
    assert_eq!(call[0].index, 0);
    let usage = chunks.last().unwrap().usage.unwrap();
    assert_eq!((usage.prompt_tokens, usage.completion_tokens, usage.total_tokens), (10, 2, 12));
}

#[test]
fn pings_make_no_chunk() {
    let mut stream = ChatStream::new("r", 1, "m");
    assert_eq!(stream.process_event(&StreamEvent::Ping), None);
    assert_eq!(stream.process_event(&StreamEvent::Fault { text: "x".to_string() }), None);
}

fn run(events: &[StreamEvent]) -> (Vec<ResponseStreamEvent>, ResponsesStream) {
    let mut stream = ResponsesStream::new("req_abc", "model");
    let mut all = Vec::new();
    for e in events {
        all.extend(stream.process_event(e));
    }
    all.extend(stream.finish());
    (all, stream)
}

#[test]
fn a_message_becomes_response_events() {
    let (events, stream) = run(&[
        start(),
        open(ContentBlock::Text { text: String::new() }),
        say("Hel"),
        say("lo"),
        StreamEvent::ContentBlockStop { index: 0 },
        stop(StopReason::EndTurn, 7),
        StreamEvent::MessageStop,
    ]);
    let created = events
        .iter()
        .filter(|e| matches!(e, ResponseStreamEvent::ResponseCreated { .. }))
        .count();
    assert_eq!(created, 1);
    let mut deltas = String::new();
    let mut done = None;
    for e in &events {
        match e {
            ResponseStreamEvent::OutputTextDelta { delta, .. } => deltas.push_str(delta),
            ResponseStreamEvent::OutputTextDone { text, .. } => done = Some(text.clone()),
            _ => {}
        }
    }
    assert_eq!(deltas, "Hello");
    assert_eq!(done.as_deref(), Some("Hello"));
    match events.last().unwrap() {
        ResponseStreamEvent::ResponseCompleted { response } => {
            assert_eq!(response.status, "completed");
            assert_eq!(response.model, "model");
            let usage = response.usage.unwrap();
            assert_eq!((usage.input_tokens, usage.output_tokens), (10, 7));
            assert_eq!(usage.total_tokens, 17);
            assert_eq!(response.output.len(), 1);
            assert!(matches!(
                &response.output[0],
                ResponseOutputItem::Message { content, .. } if content == &vec!["Hello".to_string()]
            ));
        }
        other => panic!("{other:?}"),
    }
    assert_eq!(stream.token_usage(), (10, 7, 3));
}

#[test]
fn function_calls_are_items_of_a_response() {
    let (events, _) = run(&[
        start(),
        tool("toolu_1", "look"),
        arguments("{\"q\":"),
        arguments("\"x\"}"),
        StreamEvent::ContentBlockStop { index: 0 },
        stop(StopReason::ToolUse, 5),
        StreamEvent::MessageStop,
    ]);
    assert!(events.iter().any(|e| matches!(
        e,
        ResponseStreamEvent::FunctionCallArgumentsDone { arguments, .. } if arguments == "{\"q\":\"x\"}"
    )));
    match events.last().unwrap() {
        ResponseStreamEvent::ResponseCompleted { response } => {
            assert!(response.output.iter().any(|i| matches!(
                i,
                ResponseOutputItem::FunctionCall { name, call_id, .. }
                    if name == "look" && call_id == "toolu_1"
            )));
        }
        other => panic!("{other:?}"),
    }
}

#[test]
fn a_stream_is_kept_alive_and_ended() {
    assert_eq!(turn(Wake::Heartbeat), Turn::Ping);
    assert_eq!(turn(Wake::Frame), Turn::Feed);
    assert_eq!(turn(Wake::FrameTimeout), Turn::Stop);
    assert_eq!(turn(Wake::UpstreamError), Turn::Stop);
    assert_eq!(turn(Wake::UpstreamEnd), Turn::Stop);
}
