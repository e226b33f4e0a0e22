//! The Messages API on the wire: the JSON of its events and messages, the frames of its
//! streams, and the reply to an intercepted warmup.

use vstd::prelude::*;

use crate::json::{
    array_view, compact_json, entry, json_object, json_str, json_text, json_uint, uint, with, Json,
    JsonView,
};
use crate::messages::{
    warmup_events, warmup_id, warmup_message, warmup_usage, ContentBlock, ContentDelta,
    MessagesRequest, Source, StopReason, StreamEvent, TextMessage, ToolResultContent, Usage,
};
use crate::reply::{
    json_ok_reply, json_ok_response, sse_headers, sse_ok_response, Reply, ReplyView,
};

verus! {

/// The JSON of why a message ended.
pub open spec fn stop_json(s: Option<StopReason>) -> JsonView {
    match s {
        None => JsonView::Null,
        Some(StopReason::EndTurn) => JsonView::Text("end_turn"@),
        Some(StopReason::MaxTokens) => JsonView::Text("max_tokens"@),
        Some(StopReason::StopSequence) => JsonView::Text("stop_sequence"@),
        Some(StopReason::ToolUse) => JsonView::Text("tool_use"@),
    }
}

/// The JSON of why a message ended.
fn json_of_stop(s: Option<StopReason>) -> (r: Json)
    ensures
        r@ == stop_json(s),
{
    match s {
        None => Json::Null,
        Some(StopReason::EndTurn) => json_str("end_turn"),
        Some(StopReason::MaxTokens) => json_str("max_tokens"),
        Some(StopReason::StopSequence) => json_str("stop_sequence"),
        Some(StopReason::ToolUse) => json_str("tool_use"),
    }
}

/// An object with one more entry, where there is a number for it.
pub open spec fn with_count(
    m: Map<Seq<char>, JsonView>,
    key: Seq<char>,
    n: Option<u32>,
) -> Map<Seq<char>, JsonView> {
    match n {
        Some(k) => m.insert(key, uint(k as u64)),
        None => m,
    }
}

/// The JSON of the tokens used; what was not counted is left out.
pub open spec fn usage_json(u: Usage) -> JsonView {
    let m = Map::empty().insert("input_tokens"@, uint(u.input_tokens as u64)).insert(
        "output_tokens"@,
        uint(u.output_tokens as u64),
    );
    let m = with_count(m, "cache_creation_input_tokens"@, u.cache_creation_input_tokens);
    JsonView::Object(with_count(m, "cache_read_input_tokens"@, u.cache_read_input_tokens))
}

/// The JSON of the tokens used.
fn json_of_usage(u: &Usage) -> (r: Json)
    ensures
        r@ == usage_json(*u),
{
    let o = with(json_object(), "input_tokens", json_uint(u.input_tokens as u64));
    let o = with(o, "output_tokens", json_uint(u.output_tokens as u64));
    let o = match u.cache_creation_input_tokens {
        Some(n) => with(o, "cache_creation_input_tokens", json_uint(n as u64)),
        None => o,
    };
    match u.cache_read_input_tokens {
        Some(n) => with(o, "cache_read_input_tokens", json_uint(n as u64)),
        None => o,
    }
}

/// An object that says its type.
pub open spec fn typed(name: Seq<char>) -> Map<Seq<char>, JsonView> {
    Map::empty().insert("type"@, JsonView::Text(name))
}

/// An object that says its type.
fn json_typed(name: &str) -> (r: Json)
    ensures
        r@ == JsonView::Object(typed(name@)),
{
    with(json_object(), "type", json_str(name))
}

/// The JSON of where bytes come from.
pub open spec fn source_json(s: Source) -> JsonView {
    JsonView::Object(
        typed(s.source_type@).insert("media_type"@, JsonView::Text(s.media_type@)).insert(
            "data"@,
            JsonView::Text(s.data@),
        ),
    )
}

/// The JSON of where bytes come from.
fn json_of_source(s: &Source) -> (r: Json)
    ensures
        r@ == source_json(*s),
{
    let o = with(json_typed(&s.source_type), "media_type", json_str(&s.media_type));
    with(o, "data", json_str(&s.data))
}

/// The JSON of a block.
pub open spec fn block_json(b: ContentBlock) -> JsonView
    decreases b,
{
    JsonView::Object(
        match b {
            ContentBlock::Text { text } => typed("text"@).insert("text"@, JsonView::Text(text@)),
            ContentBlock::Image { source } => typed("image"@).insert(
                "source"@,
                source_json(source),
            ),
            ContentBlock::Document { source } => typed("document"@).insert(
                "source"@,
                source_json(source),
            ),
            ContentBlock::ToolUse { id, name, input } => typed("tool_use"@).insert(
                "id"@,
                JsonView::Text(id@),
            ).insert("name"@, JsonView::Text(name@)).insert("input"@, input@),
            ContentBlock::ToolResult { tool_use_id, content, is_error } => {
                let m = typed("tool_result"@).insert(
                    "tool_use_id"@,
                    JsonView::Text(tool_use_id@),
                ).insert(
                    "content"@,
                    match content {
                        ToolResultContent::Text(text) => JsonView::Text(text@),
                        ToolResultContent::Blocks(list) => JsonView::Array(blocks_json(list@)),
                    },
                );
                match is_error {
                    Some(e) => m.insert("is_error"@, JsonView::Bool(e)),
                    None => m,
                }
            },
            ContentBlock::Thinking { thinking } => typed("thinking"@).insert(
                "thinking"@,
                JsonView::Text(thinking@),
            ),
        },
    )
}

/// The JSON of the blocks of a list.
pub open spec fn blocks_json(list: Seq<ContentBlock>) -> Seq<JsonView>
    decreases list,
{
    if list.len() == 0 {
        Seq::empty()
    } else {
        proof {
            vstd::seq::axiom_seq_len_decreases(list, list.drop_last());
            assert(decreases_to!(list => list[list.len() - 1]));
        }
        blocks_json(list.drop_last()).push(block_json(list[list.len() - 1]))
    }
}

/// The JSON of a block.
fn json_of_block(block: &ContentBlock) -> (r: Json)
    ensures
        r@ == block_json(*block),
    decreases block,
{
    match block {
        ContentBlock::Text { text } => with(json_typed("text"), "text", json_str(text)),
        ContentBlock::Image { source } => with(
            json_typed("image"),
            "source",
            json_of_source(source),
        ),
        ContentBlock::Document { source } => with(
            json_typed("document"),
            "source",
            json_of_source(source),
        ),
        ContentBlock::ToolUse { id, name, input } => {
            let o = with(json_typed("tool_use"), "id", json_str(id));
            with(with(o, "name", json_str(name)), "input", input.clone())
        },
        ContentBlock::ToolResult { tool_use_id, content, is_error } => {
            let content = match content {
                ToolResultContent::Text(text) => json_str(text),
                ToolResultContent::Blocks(list) => {
                    let mut out: Vec<Json> = Vec::new();
                    let mut i: usize = 0;
                    assert(list@.take(0) =~= Seq::empty());
                    while i < list.len()
                        invariant
                            i <= list@.len(),
                            decreases_to!(block => list@),
                            array_view(out@) == blocks_json(list@.take(i as int)),
                        decreases list@.len() - i,
                    {
                        assert(decreases_to!(list@ => list@[i as int]));
                        assert(list@.take(i + 1).drop_last() =~= list@.take(i as int));
                        let ghost before = out@;
                        out.push(json_of_block(&list[i]));
                        assert(out@.drop_last() =~= before);
                        i = i + 1;
                    }
                    assert(list@.take(list@.len() as int) =~= list@);
                    Json::Array(out)
                },
            };
            let o = with(json_typed("tool_result"), "tool_use_id", json_str(tool_use_id));
            let o = with(o, "content", content);
            match is_error {
                Some(e) => with(o, "is_error", Json::Bool(*e)),
                None => o,
            }
        },
        ContentBlock::Thinking { thinking } => with(
            json_typed("thinking"),
            "thinking",
            json_str(thinking),
        ),
    }
}

/// The JSON of a piece of a block.
pub open spec fn delta_json(d: ContentDelta) -> JsonView {
    JsonView::Object(
        match d {
            ContentDelta::Text { text } => typed("text_delta"@).insert(
                "text"@,
                JsonView::Text(text@),
            ),
            ContentDelta::Thinking { thinking } => typed("thinking_delta"@).insert(
                "thinking"@,
                JsonView::Text(thinking@),
            ),
            ContentDelta::InputJson { partial_json } => typed("input_json_delta"@).insert(
                "partial_json"@,
                JsonView::Text(partial_json@),
            ),
            ContentDelta::Signature { signature } => typed("signature_delta"@).insert(
                "signature"@,
                JsonView::Text(signature@),
            ),
        },
    )
}

/// The JSON of a piece of a block.
fn json_of_delta(d: &ContentDelta) -> (r: Json)
    ensures
        r@ == delta_json(*d),
{
    match d {
        ContentDelta::Text { text } => with(json_typed("text_delta"), "text", json_str(text)),
        ContentDelta::Thinking { thinking } => with(
            json_typed("thinking_delta"),
            "thinking",
            json_str(thinking),
        ),
        ContentDelta::InputJson { partial_json } => with(
            json_typed("input_json_delta"),
            "partial_json",
            json_str(partial_json),
        ),
        ContentDelta::Signature { signature } => with(
            json_typed("signature_delta"),
            "signature",
            json_str(signature),
        ),
    }
}

/// The JSON of a message of the assistant.
pub open spec fn message_json(
    id: Seq<char>,
    model: Seq<char>,
    content: Seq<JsonView>,
    stop: Option<StopReason>,
    usage: Usage,
) -> JsonView {
    JsonView::Object(
        typed("message"@).insert("id"@, JsonView::Text(id)).insert(
            "role"@,
            JsonView::Text("assistant"@),
        ).insert("content"@, JsonView::Array(content)).insert("model"@, JsonView::Text(model)).insert(
            "stop_reason"@,
            stop_json(stop),
        ).insert("stop_sequence"@, JsonView::Null).insert("usage"@, usage_json(usage)),
    )
}

/// The JSON of a message of the assistant.
fn json_of_message(
    id: &str,
    model: &str,
    content: Vec<Json>,
    stop: Option<StopReason>,
    usage: &Usage,
) -> (r: Json)
    ensures
        r@ == message_json(id@, model@, array_view(content@), stop, *usage),
{
    let o = with(json_typed("message"), "id", json_str(id));
    let o = with(o, "role", json_str("assistant"));
    let o = with(o, "content", Json::Array(content));
    let o = with(o, "model", json_str(model));
    let o = with(o, "stop_reason", json_of_stop(stop));
    let o = with(o, "stop_sequence", Json::Null);
    with(o, "usage", json_of_usage(usage))
}

/// The JSON of a message of one text.
pub open spec fn text_message_json(m: TextMessage) -> JsonView {
    text_json(m.id@, m.model@, m.text@, m.stop_reason, m.usage)
}

/// The JSON of a message of one text, from its parts.
pub open spec fn text_json(
    id: Seq<char>,
    model: Seq<char>,
    text: Seq<char>,
    stop: StopReason,
    usage: Usage,
) -> JsonView {
    message_json(
        id,
        model,
        seq![JsonView::Object(typed("text"@).insert("text"@, JsonView::Text(text)))],
        Some(stop),
        usage,
    )
}

/// The JSON of a message of one text.
pub fn json_of_text_message(m: &TextMessage) -> (r: Json)
    ensures
        r@ == text_message_json(*m),
{
    let mut content: Vec<Json> = Vec::new();
    assert(array_view(content@) =~= Seq::empty());
    let ghost none = content@;
    let block = with(json_typed("text"), "text", json_str(&m.text));
    let ghost one = block@;
    content.push(block);
    assert(content@.drop_last() =~= none);
    assert(array_view(content@) =~= seq![one]);
    json_of_message(&m.id, &m.model, content, Some(m.stop_reason), &m.usage)
}

/// The name of an event.
pub open spec fn event_name(e: StreamEvent) -> Seq<char> {
    match e {
        StreamEvent::MessageStart { .. } => "message_start"@,
        StreamEvent::ContentBlockStart { .. } => "content_block_start"@,
        StreamEvent::ContentBlockDelta { .. } => "content_block_delta"@,
        StreamEvent::ContentBlockStop { .. } => "content_block_stop"@,
        StreamEvent::MessageDelta { .. } => "message_delta"@,
        StreamEvent::MessageStop => "message_stop"@,
        StreamEvent::Ping => "ping"@,
        StreamEvent::Fault { .. } => "error"@,
    }
}

/// The name of an event.
fn name_of_event(e: &StreamEvent) -> (r: &'static str)
    ensures
        r@ == event_name(*e),
{
    match e {
        StreamEvent::MessageStart { .. } => "message_start",
        StreamEvent::ContentBlockStart { .. } => "content_block_start",
        StreamEvent::ContentBlockDelta { .. } => "content_block_delta",
        StreamEvent::ContentBlockStop { .. } => "content_block_stop",
        StreamEvent::MessageDelta { .. } => "message_delta",
        StreamEvent::MessageStop => "message_stop",
        StreamEvent::Ping => "ping",
        StreamEvent::Fault { .. } => "error",
    }
}

/// What an event says besides its name.
pub open spec fn event_fields(e: StreamEvent) -> Map<Seq<char>, JsonView> {
    match e {
        StreamEvent::MessageStart { message } => start_fields(
            message.id@,
            message.model@,
            message.usage,
        ),
        StreamEvent::ContentBlockStart { index, content_block } => Map::empty().insert(
            "index"@,
            uint(index as u64),
        ).insert("content_block"@, block_json(content_block)),
        StreamEvent::ContentBlockDelta { index, delta } => Map::empty().insert(
            "index"@,
            uint(index as u64),
        ).insert("delta"@, delta_json(delta)),
        StreamEvent::ContentBlockStop { index } => Map::empty().insert(
            "index"@,
            uint(index as u64),
        ),
        StreamEvent::MessageDelta { stop_reason, output_tokens } => Map::empty().insert(
            "delta"@,
            JsonView::Object(
                Map::empty().insert("stop_reason"@, stop_json(stop_reason)).insert(
                    "stop_sequence"@,
                    JsonView::Null,
                ),
            ),
        ).insert(
            "usage"@,
            JsonView::Object(Map::empty().insert("output_tokens"@, uint(output_tokens as u64))),
        ),
        StreamEvent::MessageStop | StreamEvent::Ping => Map::empty(),
        StreamEvent::Fault { text } => Map::empty().insert(
            "error"@,
            JsonView::Object(typed("api_error"@).insert("message"@, JsonView::Text(text@))),
        ),
    }
}

/// What the event says that a message begins with.
pub open spec fn start_fields(id: Seq<char>, model: Seq<char>, usage: Usage) -> Map<
    Seq<char>,
    JsonView,
> {
    Map::empty().insert("message"@, message_json(id, model, Seq::empty(), None, usage))
}

/// What an event says besides its name.
fn fields_of_event(e: &StreamEvent) -> (r: Json)
    ensures
        r@ == JsonView::Object(event_fields(*e)),
{
    match e {
        StreamEvent::MessageStart { message } => {
            let content: Vec<Json> = Vec::new();
            assert(array_view(content@) =~= Seq::empty());
            let m = json_of_message(&message.id, &message.model, content, None, &message.usage);
            with(json_object(), "message", m)
        },
        StreamEvent::ContentBlockStart { index, content_block } => with(
            with(json_object(), "index", json_uint(*index as u64)),
            "content_block",
            json_of_block(content_block),
        ),
        StreamEvent::ContentBlockDelta { index, delta } => with(
            with(json_object(), "index", json_uint(*index as u64)),
            "delta",
            json_of_delta(delta),
        ),
        StreamEvent::ContentBlockStop { index } => with(
            json_object(),
            "index",
            json_uint(*index as u64),
        ),
        StreamEvent::MessageDelta { stop_reason, output_tokens } => {
            let delta = with(json_object(), "stop_reason", json_of_stop(*stop_reason));
            let delta = with(delta, "stop_sequence", Json::Null);
            let usage = with(json_object(), "output_tokens", json_uint(*output_tokens as u64));
            with(with(json_object(), "delta", delta), "usage", usage)
        },
        StreamEvent::MessageStop | StreamEvent::Ping => json_object(),
        StreamEvent::Fault { text } => {
            let error = with(json_typed("api_error"), "message", json_str(text));
            with(json_object(), "error", error)
        },
    }
}

/// A frame of a stream: the name of an event, and its name again with what it says.
pub open spec fn frame(name: Seq<char>, fields: Map<Seq<char>, JsonView>) -> Seq<char> {
    "event: "@ + name + "\ndata: "@ + compact_json(
        JsonView::Object(fields.insert("type"@, JsonView::Text(name))),
    ) + "\n\n"@
}

/// An event as it is sent.
pub fn event_frame(e: &StreamEvent) -> (r: String)
    ensures
        r@ == frame(event_name(*e), event_fields(*e)),
{
    let name = name_of_event(e);
    let body = with(fields_of_event(e), "type", json_str(name));
    let mut r = "event: ".to_owned();
    r.push_str(name);
    r.push_str("\ndata: ");
    r.push_str(&json_text(&body));
    r.push_str("\n\n");
    r
}

/// The header that says a warmup was intercepted.
pub open spec fn warmup_header() -> (Seq<char>, Seq<char>) {
    ("X-Warmup-Intercepted"@, "true"@)
}

/// The frames of a streamed reply to an intercepted warmup: one message, which says `OK`.
pub open spec fn warmup_frames(model: Seq<char>, id: Seq<char>) -> Seq<char> {
    frame("message_start"@, start_fields(id, model, warmup_usage(0))) + frame(
        "content_block_start"@,
        Map::empty().insert("index"@, uint(0)).insert(
            "content_block"@,
            JsonView::Object(typed("text"@).insert("text"@, JsonView::Text(Seq::empty()))),
        ),
    ) + frame(
        "content_block_delta"@,
        Map::empty().insert("index"@, uint(0)).insert(
            "delta"@,
            JsonView::Object(typed("text_delta"@).insert("text"@, JsonView::Text("OK"@))),
        ),
    ) + frame("content_block_stop"@, Map::empty().insert("index"@, uint(0))) + frame(
        "message_delta"@,
        event_fields(
            StreamEvent::MessageDelta { stop_reason: Some(StopReason::EndTurn), output_tokens: 1 },
        ),
    ) + frame("message_stop"@, Map::empty())
}

/// What an intercepted warmup is answered: a message that says `OK`, streamed where a stream
/// was asked for, under a header that says so.
pub open spec fn warmup_reply(
    stream: bool,
    model: Seq<char>,
    id: Seq<char>,
    request_id: Seq<char>,
) -> ReplyView {
    let plain = if stream {
        ReplyView {
            status: 200,
            headers: sse_headers(request_id),
            body: warmup_frames(model, id),
        }
    } else {
        json_ok_reply(
            compact_json(text_json(id, model, "OK"@, StopReason::EndTurn, warmup_usage(1))),
            request_id,
            Some("BYPASS"@),
        )
    };
    ReplyView { headers: plain.headers.push(warmup_header()), ..plain }
}

/// The reply to an intercepted warmup, at a time in milliseconds since 1970.
pub fn warmup_response(q: &MessagesRequest, request_id: &str, millis: u64) -> (r: Reply)
    ensures
        r@ == warmup_reply(
            q.stream,
            q.model@,
            "msg_warmup_"@ + crate::text::decimal(millis as nat),
            request_id@,
        ),
{
    let id = warmup_id(millis);
    let reply = if q.stream {
        let events = warmup_events(&q.model, &id);
        let mut body = event_frame(&events[0]);
        body.push_str(&event_frame(&events[1]));
        body.push_str(&event_frame(&events[2]));
        body.push_str(&event_frame(&events[3]));
        body.push_str(&event_frame(&events[4]));
        body.push_str(&event_frame(&events[5]));
        assert(events@[1] matches StreamEvent::ContentBlockStart {
            index: 0,
            content_block: ContentBlock::Text { text },
        } && text@ =~= Seq::empty());
        assert(body@ == warmup_frames(q.model@, id@));
        sse_ok_response(body, request_id)
    } else {
        let m = json_of_text_message(&warmup_message(&q.model, &id));
        json_ok_response(json_text(&m), request_id, Some("BYPASS"))
    };
    reply.header("X-Warmup-Intercepted", "true")
}

/// A frame is the name of the event and one line of JSON, which says the name again and
/// carries every field of the event.
pub proof fn a_frame_carries_its_fields(name: Seq<char>, fields: Map<Seq<char>, JsonView>)
    ensures
        exists|v: JsonView|
            frame(name, fields) == "event: "@ + name + "\ndata: "@ + #[trigger] compact_json(v)
                + "\n\n"@ && entry(v, "type"@) == Some(JsonView::Text(name)) && forall|
                key: Seq<char>,
            |
                key != "type"@ ==> #[trigger] entry(v, key) == entry(JsonView::Object(fields), key),
{
    let v = JsonView::Object(fields.insert("type"@, JsonView::Text(name)));
    assert(frame(name, fields) == "event: "@ + name + "\ndata: "@ + compact_json(v) + "\n\n"@);
}

/// A piece of a block is sent whole: its kind, and all of its text under the key of that kind.
pub proof fn a_delta_is_sent_whole(t: String)
    ensures
        ({
            let v = delta_json(ContentDelta::Text { text: t });
            entry(v, "type"@) == Some(JsonView::Text("text_delta"@)) && entry(v, "text"@) == Some(
                JsonView::Text(t@),
            )
        }),
        ({
            let v = delta_json(ContentDelta::Thinking { thinking: t });
            entry(v, "type"@) == Some(JsonView::Text("thinking_delta"@)) && entry(v, "thinking"@)
                == Some(JsonView::Text(t@))
        }),
        ({
            let v = delta_json(ContentDelta::InputJson { partial_json: t });
            entry(v, "type"@) == Some(JsonView::Text("input_json_delta"@)) && entry(
                v,
                "partial_json"@,
            ) == Some(JsonView::Text(t@))
        }),
        ({
            let v = delta_json(ContentDelta::Signature { signature: t });
            entry(v, "type"@) == Some(JsonView::Text("signature_delta"@)) && entry(v, "signature"@)
                == Some(JsonView::Text(t@))
        }),
{
    reveal_strlit("type");
    reveal_strlit("text");
    reveal_strlit("thinking");
    reveal_strlit("partial_json");
    reveal_strlit("signature");
    assert("type"@[1] != "text"@[1]);
    assert("type"@.len() != "thinking"@.len());
    assert("type"@.len() != "partial_json"@.len());
    assert("type"@.len() != "signature"@.len());
    assert("text"@.len() != "thinking"@.len());
    assert("text"@.len() != "partial_json"@.len());
    assert("text"@.len() != "signature"@.len());
    assert("thinking"@.len() != "partial_json"@.len());
    assert("thinking"@.len() != "signature"@.len());
    assert("partial_json"@.len() != "signature"@.len());
}

/// A block is sent whole: texts and thinking with all of their text, the use of a tool with
/// its id, its name and its input, a result with the id it answers and its text.
pub proof fn a_block_is_sent_whole(
    t: String,
    id: String,
    input: Json,
    source: Source,
    is_error: Option<bool>,
)
    ensures
        ({
            let v = block_json(ContentBlock::Text { text: t });
            entry(v, "type"@) == Some(JsonView::Text("text"@)) && entry(v, "text"@) == Some(
                JsonView::Text(t@),
            )
        }),
        ({
            let v = block_json(ContentBlock::Thinking { thinking: t });
            entry(v, "type"@) == Some(JsonView::Text("thinking"@)) && entry(v, "thinking"@) == Some(
                JsonView::Text(t@),
            )
        }),
        ({
            let v = block_json(ContentBlock::ToolUse { id, name: t, input });
            entry(v, "type"@) == Some(JsonView::Text("tool_use"@)) && entry(v, "id"@) == Some(
                JsonView::Text(id@),
            ) && entry(v, "name"@) == Some(JsonView::Text(t@)) && entry(v, "input"@) == Some(
                input@,
            )
        }),
        ({
            let v = block_json(
                ContentBlock::ToolResult {
                    tool_use_id: id,
                    content: ToolResultContent::Text(t),
                    is_error,
                },
            );
            entry(v, "type"@) == Some(JsonView::Text("tool_result"@)) && entry(v, "tool_use_id"@)
                == Some(JsonView::Text(id@)) && entry(v, "content"@) == Some(JsonView::Text(t@))
                && entry(v, "is_error"@) == (match is_error {
                Some(b) => Some(JsonView::Bool(b)),
                None => None,
            })
        }),
        ({
            let v = block_json(ContentBlock::Image { source });
            entry(v, "type"@) == Some(JsonView::Text("image"@)) && entry(v, "source"@) is Some
                && entry(entry(v, "source"@)->0, "data"@) == Some(JsonView::Text(source.data@))
                && entry(entry(v, "source"@)->0, "media_type"@) == Some(
                JsonView::Text(source.media_type@),
            ) && entry(entry(v, "source"@)->0, "type"@) == Some(JsonView::Text(source.source_type@))
        }),
        ({
            let v = block_json(ContentBlock::Document { source });
            entry(v, "type"@) == Some(JsonView::Text("document"@)) && entry(v, "source"@) == entry(
                block_json(ContentBlock::Image { source }),
                "source"@,
            )
        }),
{
    reveal_with_fuel(block_json, 2);
    reveal_strlit("type");
    reveal_strlit("text");
    reveal_strlit("thinking");
    reveal_strlit("id");
    reveal_strlit("name");
    reveal_strlit("input");
    reveal_strlit("tool_use_id");
    reveal_strlit("content");
    reveal_strlit("is_error");
    reveal_strlit("source");
    reveal_strlit("data");
    reveal_strlit("media_type");
    assert("type"@[1] != "text"@[1]);
    assert("type"@.len() != "thinking"@.len());
    assert("type"@.len() != "id"@.len());
    assert("type"@[0] != "name"@[0]);
    assert("type"@.len() != "input"@.len());
    assert("type"@.len() != "tool_use_id"@.len());
    assert("type"@.len() != "content"@.len());
    assert("type"@.len() != "is_error"@.len());
    assert("type"@.len() != "source"@.len());
    assert("type"@[0] != "data"@[0]);
    assert("type"@.len() != "media_type"@.len());
    assert("text"@.len() != "thinking"@.len());
    assert("text"@.len() != "id"@.len());
    assert("text"@[0] != "name"@[0]);
    assert("text"@.len() != "input"@.len());
    assert("text"@.len() != "tool_use_id"@.len());
    assert("text"@.len() != "content"@.len());
    assert("text"@.len() != "is_error"@.len());
    assert("text"@.len() != "source"@.len());
    assert("text"@[0] != "data"@[0]);
    assert("text"@.len() != "media_type"@.len());
    assert("thinking"@.len() != "id"@.len());
    assert("thinking"@.len() != "name"@.len());
    assert("thinking"@.len() != "input"@.len());
    assert("thinking"@.len() != "tool_use_id"@.len());
    assert("thinking"@.len() != "content"@.len());
    assert("thinking"@[0] != "is_error"@[0]);
    assert("thinking"@.len() != "source"@.len());
    assert("thinking"@.len() != "data"@.len());
    assert("thinking"@.len() != "media_type"@.len());
    assert("id"@.len() != "name"@.len());
    assert("id"@.len() != "input"@.len());
    assert("id"@.len() != "tool_use_id"@.len());
    assert("id"@.len() != "content"@.len());
    assert("id"@.len() != "is_error"@.len());
    assert("id"@.len() != "source"@.len());
    assert("id"@.len() != "data"@.len());
    assert("id"@.len() != "media_type"@.len());
    assert("name"@.len() != "input"@.len());
    assert("name"@.len() != "tool_use_id"@.len());
    assert("name"@.len() != "content"@.len());
    assert("name"@.len() != "is_error"@.len());
    assert("name"@.len() != "source"@.len());
    assert("name"@[0] != "data"@[0]);
    assert("name"@.len() != "media_type"@.len());
    assert("input"@.len() != "tool_use_id"@.len());
    assert("input"@.len() != "content"@.len());
    assert("input"@.len() != "is_error"@.len());
    assert("input"@.len() != "source"@.len());
    assert("input"@.len() != "data"@.len());
    assert("input"@.len() != "media_type"@.len());
    assert("tool_use_id"@.len() != "content"@.len());
    assert("tool_use_id"@.len() != "is_error"@.len());
    assert("tool_use_id"@.len() != "source"@.len());
    assert("tool_use_id"@.len() != "data"@.len());
    assert("tool_use_id"@.len() != "media_type"@.len());
    assert("content"@.len() != "is_error"@.len());
    assert("content"@.len() != "source"@.len());
    assert("content"@.len() != "data"@.len());
    assert("content"@.len() != "media_type"@.len());
    assert("is_error"@.len() != "source"@.len());
    assert("is_error"@.len() != "data"@.len());
    assert("is_error"@.len() != "media_type"@.len());
    assert("source"@.len() != "data"@.len());
    assert("source"@.len() != "media_type"@.len());
    assert("data"@.len() != "media_type"@.len());
}

/// The blocks of a list are sent one by one, in order.
pub proof fn blocks_are_sent_in_order(list: Seq<ContentBlock>)
    ensures
        blocks_json(list).len() == list.len(),
        forall|i: int|
            0 <= i < list.len() ==> #[trigger] blocks_json(list)[i] == block_json(list[i]),
    decreases list.len(),
{
    if list.len() > 0 {
        blocks_are_sent_in_order(list.drop_last());
    }
}

/// An event is sent whole: the place of its block, its block or piece, why the message ended
/// and how many tokens it has, or what went wrong.
pub proof fn an_event_is_sent_whole(e: StreamEvent)
    ensures
        ({
            let v = JsonView::Object(event_fields(e));
            match e {
                StreamEvent::MessageStart { message } => entry(v, "message"@) is Some && ({
                    let m = entry(v, "message"@)->0;
                    &&& entry(m, "id"@) == Some(JsonView::Text(message.id@))
                    &&& entry(m, "model"@) == Some(JsonView::Text(message.model@))
                    &&& entry(m, "role"@) == Some(JsonView::Text("assistant"@))
                    &&& entry(m, "usage"@) == Some(usage_json(message.usage))
                }),
                StreamEvent::ContentBlockStart { index, content_block } => entry(v, "index"@)
                    == Some(uint(index as u64)) && entry(v, "content_block"@) == Some(
                    block_json(content_block),
                ),
                StreamEvent::ContentBlockDelta { index, delta } => entry(v, "index"@) == Some(
                    uint(index as u64),
                ) && entry(v, "delta"@) == Some(delta_json(delta)),
                StreamEvent::ContentBlockStop { index } => entry(v, "index"@) == Some(
                    uint(index as u64),
                ),
                StreamEvent::MessageDelta { stop_reason, output_tokens } => entry(v, "delta"@)
                    is Some && entry(entry(v, "delta"@)->0, "stop_reason"@) == Some(
                    stop_json(stop_reason),
                ) && entry(v, "usage"@) is Some && entry(
                    entry(v, "usage"@)->0,
                    "output_tokens"@,
                ) == Some(uint(output_tokens as u64)),
                StreamEvent::Fault { text } => entry(v, "error"@) is Some && entry(
                    entry(v, "error"@)->0,
                    "message"@,
                ) == Some(JsonView::Text(text@)),
                _ => true,
            }
        }),
{
    reveal_strlit("type");
    reveal_strlit("id");
    reveal_strlit("role");
    reveal_strlit("content");
    reveal_strlit("model");
    reveal_strlit("stop_reason");
    reveal_strlit("stop_sequence");
    reveal_strlit("usage");
    reveal_strlit("message");
    assert("type"@.len() != "id"@.len());
    assert("type"@[0] != "role"@[0]);
    assert("type"@.len() != "content"@.len());
    assert("type"@.len() != "model"@.len());
    assert("type"@.len() != "stop_reason"@.len());
    assert("type"@.len() != "stop_sequence"@.len());
    assert("type"@.len() != "usage"@.len());
    assert("type"@.len() != "message"@.len());
    assert("id"@.len() != "role"@.len());
    assert("id"@.len() != "content"@.len());
    assert("id"@.len() != "model"@.len());
    assert("id"@.len() != "stop_reason"@.len());
    assert("id"@.len() != "stop_sequence"@.len());
    assert("id"@.len() != "usage"@.len());
    assert("id"@.len() != "message"@.len());
    assert("role"@.len() != "content"@.len());
    assert("role"@.len() != "model"@.len());
    assert("role"@.len() != "stop_reason"@.len());
    assert("role"@.len() != "stop_sequence"@.len());
    assert("role"@.len() != "usage"@.len());
    assert("role"@.len() != "message"@.len());
    assert("content"@.len() != "model"@.len());
    assert("content"@.len() != "stop_reason"@.len());
    assert("content"@.len() != "stop_sequence"@.len());
    assert("content"@.len() != "usage"@.len());
    assert("content"@[0] != "message"@[0]);
    assert("model"@.len() != "stop_reason"@.len());
    assert("model"@.len() != "stop_sequence"@.len());
    assert("model"@[0] != "usage"@[0]);
    assert("model"@.len() != "message"@.len());
    assert("stop_reason"@.len() != "stop_sequence"@.len());
    assert("stop_reason"@.len() != "usage"@.len());
    assert("stop_reason"@.len() != "message"@.len());
    assert("stop_sequence"@.len() != "usage"@.len());
    assert("stop_sequence"@.len() != "message"@.len());
    assert("usage"@.len() != "message"@.len());
    reveal_strlit("index");
    reveal_strlit("content_block");
    reveal_strlit("delta");
    reveal_strlit("error");
    reveal_strlit("output_tokens");
    assert("index"@.len() != "content_block"@.len());
    assert("index"@[0] != "delta"@[0]);
    assert("index"@[0] != "error"@[0]);
    assert("index"@.len() != "output_tokens"@.len());
    assert("content_block"@.len() != "delta"@.len());
    assert("content_block"@.len() != "error"@.len());
    assert("content_block"@[0] != "output_tokens"@[0]);
    assert("delta"@[0] != "error"@[0]);
    assert("delta"@.len() != "output_tokens"@.len());
    assert("error"@.len() != "output_tokens"@.len());
    assert("delta"@[0] != "usage"@[0]);
}

/// The usage of a message gives the tokens of the prompt and of the reply, and those of the
/// cache where they were counted.
pub proof fn a_usage_is_sent_whole(u: Usage)
    ensures
        entry(usage_json(u), "input_tokens"@) == Some(uint(u.input_tokens as u64)),
        entry(usage_json(u), "output_tokens"@) == Some(uint(u.output_tokens as u64)),
        entry(usage_json(u), "cache_creation_input_tokens"@) == (
        match u.cache_creation_input_tokens {
            Some(n) => Some(uint(n as u64)),
            None => None,
        }),
        entry(usage_json(u), "cache_read_input_tokens"@) == (match u.cache_read_input_tokens {
            Some(n) => Some(uint(n as u64)),
            None => None,
        }),
{
    reveal_strlit("input_tokens");
    reveal_strlit("output_tokens");
    reveal_strlit("cache_creation_input_tokens");
    reveal_strlit("cache_read_input_tokens");
    assert("input_tokens"@.len() != "output_tokens"@.len());
    assert("input_tokens"@.len() != "cache_creation_input_tokens"@.len());
    assert("input_tokens"@.len() != "cache_read_input_tokens"@.len());
    assert("output_tokens"@.len() != "cache_creation_input_tokens"@.len());
    assert("output_tokens"@.len() != "cache_read_input_tokens"@.len());
    assert("cache_creation_input_tokens"@.len() != "cache_read_input_tokens"@.len());
}

/// The reasons for which a message ends are told apart, and each is told in the words of the
/// Messages API.
pub proof fn stop_reasons_are_told_apart(a: Option<StopReason>, b: Option<StopReason>)
    ensures
        stop_json(a) == stop_json(b) ==> a == b,
        stop_json(a) == JsonView::Text("tool_use"@) <==> a == Some(StopReason::ToolUse),
        stop_json(a) == JsonView::Text("end_turn"@) <==> a == Some(StopReason::EndTurn),
        stop_json(a) == JsonView::Text("max_tokens"@) <==> a == Some(StopReason::MaxTokens),
        stop_json(a) is Null <==> a is None,
{
    reveal_strlit("end_turn");
    reveal_strlit("max_tokens");
    reveal_strlit("stop_sequence");
    reveal_strlit("tool_use");
    assert("end_turn"@.len() != "max_tokens"@.len());
    assert("end_turn"@.len() != "stop_sequence"@.len());
    assert("end_turn"@[0] != "tool_use"@[0]);
    assert("max_tokens"@.len() != "stop_sequence"@.len());
    assert("max_tokens"@.len() != "tool_use"@.len());
    assert("stop_sequence"@.len() != "tool_use"@.len());
}

/// A message of one text says that text, under its id and its model, with why it ended.
pub proof fn a_text_message_is_sent_whole(m: TextMessage)
    ensures
        entry(text_message_json(m), "id"@) == Some(JsonView::Text(m.id@)),
        entry(text_message_json(m), "model"@) == Some(JsonView::Text(m.model@)),
        entry(text_message_json(m), "stop_reason"@) == Some(stop_json(Some(m.stop_reason))),
        entry(text_message_json(m), "usage"@) == Some(usage_json(m.usage)),
        entry(text_message_json(m), "content"@) matches Some(JsonView::Array(c)) && c.len() == 1
            && entry(c[0], "text"@) == Some(JsonView::Text(m.text@)),
{
    reveal_strlit("type");
    reveal_strlit("id");
    reveal_strlit("role");
    reveal_strlit("content");
    reveal_strlit("model");
    reveal_strlit("stop_reason");
    reveal_strlit("stop_sequence");
    reveal_strlit("usage");
    reveal_strlit("text");
    assert("type"@.len() != "id"@.len());
    assert("type"@[0] != "role"@[0]);
    assert("type"@.len() != "content"@.len());
    assert("type"@.len() != "model"@.len());
    assert("type"@.len() != "stop_reason"@.len());
    assert("type"@.len() != "stop_sequence"@.len());
    assert("type"@.len() != "usage"@.len());
    assert("type"@[1] != "text"@[1]);
    assert("id"@.len() != "role"@.len());
    assert("id"@.len() != "content"@.len());
    assert("id"@.len() != "model"@.len());
    assert("id"@.len() != "stop_reason"@.len());
    assert("id"@.len() != "stop_sequence"@.len());
    assert("id"@.len() != "usage"@.len());
    assert("id"@.len() != "text"@.len());
    assert("role"@.len() != "content"@.len());
    assert("role"@.len() != "model"@.len());
    assert("role"@.len() != "stop_reason"@.len());
    assert("role"@.len() != "stop_sequence"@.len());
    assert("role"@.len() != "usage"@.len());
    assert("role"@[0] != "text"@[0]);
    assert("content"@.len() != "model"@.len());
    assert("content"@.len() != "stop_reason"@.len());
    assert("content"@.len() != "stop_sequence"@.len());
    assert("content"@.len() != "usage"@.len());
    assert("content"@.len() != "text"@.len());
    assert("model"@.len() != "stop_reason"@.len());
    assert("model"@.len() != "stop_sequence"@.len());
    assert("model"@[0] != "usage"@[0]);
    assert("model"@.len() != "text"@.len());
    assert("stop_reason"@.len() != "stop_sequence"@.len());
    assert("stop_reason"@.len() != "usage"@.len());
    assert("stop_reason"@.len() != "text"@.len());
    assert("stop_sequence"@.len() != "usage"@.len());
    assert("stop_sequence"@.len() != "text"@.len());
    assert("usage"@.len() != "text"@.len());
}

/// Events of different kinds have different names.
pub proof fn events_are_told_apart_by_name(a: StreamEvent, b: StreamEvent)
    ensures
        event_name(a) == event_name(b) ==> {
            &&& a is MessageStart <==> b is MessageStart
            &&& a is ContentBlockStart <==> b is ContentBlockStart
            &&& a is ContentBlockDelta <==> b is ContentBlockDelta
            &&& a is ContentBlockStop <==> b is ContentBlockStop
            &&& a is MessageDelta <==> b is MessageDelta
            &&& a is MessageStop <==> b is MessageStop
            &&& a is Ping <==> b is Ping
        },
{
    reveal_strlit("message_start");
    reveal_strlit("content_block_start");
    reveal_strlit("content_block_delta");
    reveal_strlit("content_block_stop");
    reveal_strlit("message_delta");
    reveal_strlit("message_stop");
    reveal_strlit("ping");
    reveal_strlit("error");
    assert("message_start"@.len() != "content_block_start"@.len());
    assert("message_start"@.len() != "content_block_delta"@.len());
    assert("message_start"@.len() != "content_block_stop"@.len());
    assert("message_start"@[8] != "message_delta"@[8]);
    assert("message_start"@.len() != "message_stop"@.len());
    assert("message_start"@.len() != "ping"@.len());
    assert("message_start"@.len() != "error"@.len());
    assert("content_block_start"@[14] != "content_block_delta"@[14]);
    assert("content_block_start"@.len() != "content_block_stop"@.len());
    assert("content_block_start"@.len() != "message_delta"@.len());
    assert("content_block_start"@.len() != "message_stop"@.len());
    assert("content_block_start"@.len() != "ping"@.len());
    assert("content_block_start"@.len() != "error"@.len());
    assert("content_block_delta"@.len() != "content_block_stop"@.len());
    assert("content_block_delta"@.len() != "message_delta"@.len());
    assert("content_block_delta"@.len() != "message_stop"@.len());
    assert("content_block_delta"@.len() != "ping"@.len());
    assert("content_block_delta"@.len() != "error"@.len());
    assert("content_block_stop"@.len() != "message_delta"@.len());
    assert("content_block_stop"@.len() != "message_stop"@.len());
    assert("content_block_stop"@.len() != "ping"@.len());
    assert("content_block_stop"@.len() != "error"@.len());
    assert("message_delta"@.len() != "message_stop"@.len());
    assert("message_delta"@.len() != "ping"@.len());
    assert("message_delta"@.len() != "error"@.len());
    assert("message_stop"@.len() != "ping"@.len());
    assert("message_stop"@.len() != "error"@.len());
    assert("ping"@.len() != "error"@.len());
}

/// The frames of several events, one behind the other.
pub open spec fn frames_of(e: Seq<StreamEvent>) -> Seq<char>
    decreases e.len(),
{
    if e.len() == 0 {
        Seq::empty()
    } else {
        frames_of(e.drop_last()) + frame(event_name(e.last()), event_fields(e.last()))
    }
}

/// The streamed reply to a warmup is the frames of its events, in order, and both replies say
/// the same, under the same model and id.
pub proof fn warmups_are_answered_with_their_events(
    e: Seq<StreamEvent>,
    model: Seq<char>,
    id: Seq<char>,
    request_id: Seq<char>,
)
    requires
        crate::messages::are_warmup_events(e, model, id),
    ensures
        warmup_reply(true, model, id, request_id).body == frames_of(e),
        warmup_reply(true, model, id, request_id).status == 200,
        warmup_reply(false, model, id, request_id).status == 200,
        e[2] matches StreamEvent::ContentBlockDelta { delta: ContentDelta::Text { text }, .. } && (
        e[4] matches StreamEvent::MessageDelta { stop_reason: Some(stop), .. } && exists|u: Usage|
            warmup_reply(false, model, id, request_id).body == #[trigger] compact_json(
                text_json(id, model, text@, stop, u),
            )),
        forall|stream: bool|
            (#[trigger] warmup_reply(stream, model, id, request_id)).headers.last()
                == warmup_header(),
{
    assert(e[1] matches StreamEvent::ContentBlockStart {
        index: 0,
        content_block: ContentBlock::Text { text },
    } && text@ =~= Seq::empty());
    let e5 = e.drop_last();
    let e4 = e5.drop_last();
    let e3 = e4.drop_last();
    let e2 = e3.drop_last();
    let e1 = e2.drop_last();
    let e0 = e1.drop_last();
    assert(e0.len() == 0);
    assert(frames_of(e0) =~= Seq::empty());
    assert(frames_of(e1) =~= frame(event_name(e[0]), event_fields(e[0])));
    assert(frames_of(e2) == frames_of(e1) + frame(event_name(e[1]), event_fields(e[1])));
    assert(frames_of(e3) == frames_of(e2) + frame(event_name(e[2]), event_fields(e[2])));
    assert(frames_of(e4) == frames_of(e3) + frame(event_name(e[3]), event_fields(e[3])));
    assert(frames_of(e5) == frames_of(e4) + frame(event_name(e[4]), event_fields(e[4])));
    assert(frames_of(e) == frames_of(e5) + frame(event_name(e[5]), event_fields(e[5])));
    assert(warmup_frames(model, id) =~= frames_of(e));
    let u = warmup_usage(1);
    assert(warmup_reply(false, model, id, request_id).body == compact_json(
        text_json(id, model, "OK"@, StopReason::EndTurn, u),
    ));
}

} // verus!
