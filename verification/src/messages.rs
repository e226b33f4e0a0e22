//! The Messages API: its requests, the events of its streams, and the rules that hold
//! before a request goes upstream.

use vstd::prelude::*;

use crate::errors::{invalid_request, is_invalid_request, ProxyError};
use crate::json::{compact_json, json_text, Json};
use crate::text::{
    ascii_lower, byte_len, contains, holds, len_bytes, same, starts, starts_with, to_ascii_lower,
    trim, trimmed,
};

verus! {

/// Who a message is from.
#[derive(Debug, Clone, Copy, PartialEq, Eq, Structural)]
pub enum Role {
    User,
    Assistant,
}

/// Why a message ended.
#[derive(Debug, Clone, Copy, PartialEq, Eq, Structural)]
pub enum StopReason {
    EndTurn,
    MaxTokens,
    StopSequence,
    ToolUse,
}

impl StopReason {
    /// The finish reason that OpenAI's APIs give for it.
    pub open spec fn openai(self) -> Seq<char> {
        match self {
            StopReason::EndTurn | StopReason::StopSequence => "stop"@,
            StopReason::MaxTokens => "length"@,
            StopReason::ToolUse => "tool_calls"@,
        }
    }

    /// The finish reason that OpenAI's APIs give for it.
    pub fn to_openai_str(self) -> (r: &'static str)
        ensures
            r@ == self.openai(),
    {
        match self {
            StopReason::EndTurn | StopReason::StopSequence => "stop",
            StopReason::MaxTokens => "length",
            StopReason::ToolUse => "tool_calls",
        }
    }
}

/// Where the bytes of an image or a document come from.
#[derive(Debug, Clone, PartialEq)]
pub struct Source {
    pub source_type: String,
    pub media_type: String,
    pub data: String,
}

/// The result of a tool: text, or blocks.
#[derive(Debug, PartialEq)]
pub enum ToolResultContent {
    Text(String),
    Blocks(Vec<ContentBlock>),
}

/// One block of a message.
#[derive(Debug, PartialEq)]
pub enum ContentBlock {
    Text { text: String },
    Image { source: Source },
    Document { source: Source },
    ToolUse { id: String, name: String, input: Json },
    ToolResult { tool_use_id: String, content: ToolResultContent, is_error: Option<bool> },
    Thinking { thinking: String },
}

/// The content of a message: text, or blocks.
#[derive(Debug, PartialEq)]
pub enum MessageContent {
    Text(String),
    Blocks(Vec<ContentBlock>),
}

/// One message of a conversation.
#[derive(Debug, PartialEq)]
pub struct Message {
    pub role: Role,
    pub content: MessageContent,
}

/// The tokens a reply used.
#[derive(Debug, Clone, Copy, PartialEq, Eq, Structural)]
pub struct Usage {
    pub input_tokens: u32,
    pub output_tokens: u32,
    pub cache_creation_input_tokens: Option<u32>,
    pub cache_read_input_tokens: Option<u32>,
}

/// The message that a stream begins with.
#[derive(Debug, Clone, PartialEq)]
pub struct MessageStart {
    pub id: String,
    pub model: String,
    pub usage: Usage,
}

/// A piece of a block.
#[derive(Debug, Clone, PartialEq)]
pub enum ContentDelta {
    Text { text: String },
    Thinking { thinking: String },
    InputJson { partial_json: String },
    Signature { signature: String },
}

/// One event of a stream.
#[derive(Debug, PartialEq)]
pub enum StreamEvent {
    MessageStart { message: MessageStart },
    ContentBlockStart { index: usize, content_block: ContentBlock },
    ContentBlockDelta { index: usize, delta: ContentDelta },
    ContentBlockStop { index: usize },
    MessageDelta { stop_reason: Option<StopReason>, output_tokens: u32 },
    MessageStop,
    Ping,
    Fault { text: String },
}


/// A request to the Messages API, as far as it is read here.
#[derive(Debug, PartialEq)]
pub struct MessagesRequest {
    pub model: String,
    pub messages: Vec<Message>,
    pub max_tokens: u32,
    pub stream: bool,
    /// Whether the temperature is from 0 to 2, where one is given.
    pub temperature_in_range: Option<bool>,
}

/// The first thing that is wrong with a request.
pub open spec fn request_fault(q: MessagesRequest) -> Option<Seq<char>> {
    if q.max_tokens == 0 {
        Some("max_tokens must be greater than 0"@)
    } else if q.max_tokens > 200_000 {
        Some("max_tokens cannot exceed 200000"@)
    } else if q.model@.len() == 0 {
        Some("model is required"@)
    } else if q.messages@.len() == 0 {
        Some("messages array cannot be empty"@)
    } else if q.temperature_in_range == Some(false) {
        Some("temperature must be between 0.0 and 2.0"@)
    } else {
        None
    }
}

/// Whether a request is in order; else an error that says the first thing wrong with it.
pub fn validate_request(q: &MessagesRequest) -> (r: Result<(), ProxyError>)
    ensures
        match r {
            Ok(_) => request_fault(*q) is None,
            Err(e) => request_fault(*q) matches Some(m) && is_invalid_request(e, m),
        },
{
    if q.max_tokens == 0 {
        return Err(invalid_request("max_tokens must be greater than 0"));
    }
    if q.max_tokens > 200_000 {
        return Err(invalid_request("max_tokens cannot exceed 200000"));
    }
    if q.model.as_str().is_empty() {
        return Err(invalid_request("model is required"));
    }
    if q.messages.len() == 0 {
        return Err(invalid_request("messages array cannot be empty"));
    }
    match q.temperature_in_range {
        Some(ok) => {
            if !ok {
                return Err(invalid_request("temperature must be between 0.0 and 2.0"));
            }
        },
        None => {},
    }
    Ok(())
}

/// Whether a text is that of a warmup: without the white space round it, not empty, no
/// longer than `max` bytes, and `warmup` or `warmup` and more after a space, an end of line
/// or a tab, in any case.
pub open spec fn is_warmup_text(text: Seq<char>, max: nat) -> bool {
    let t = trimmed(text);
    let l = ascii_lower(t);
    &&& t.len() > 0
    &&& byte_len(t) <= max
    &&& l == "warmup"@ || starts(l, "warmup "@) || starts(l, "warmup\n"@) || starts(
        l,
        "warmup\t"@,
    )
}

/// Whether a text is that of a warmup.
pub fn is_warmup_text_candidate(text: &str, max_text_len: usize) -> (r: bool)
    ensures
        r == is_warmup_text(text@, max_text_len as nat),
{
    let t = trim(text);
    if t.as_str().is_empty() || len_bytes(&t) > max_text_len {
        return false;
    }
    let l = to_ascii_lower(&t);
    same(&l, "warmup") || starts_with(&l, "warmup ") || starts_with(&l, "warmup\n") || starts_with(
        &l,
        "warmup\t",
    )
}

/// Whether a block is a text of a warmup.
pub open spec fn is_warmup_block(b: ContentBlock, max: nat) -> bool {
    b matches ContentBlock::Text { text } && is_warmup_text(text@, max)
}

/// Whether any block is a text of a warmup.
pub open spec fn any_warmup_block(b: Seq<ContentBlock>, max: nat) -> bool {
    exists|i: int| 0 <= i < b.len() && is_warmup_block(#[trigger] b[i], max)
}

/// Whether the result of a tool holds a text of a warmup.
pub open spec fn result_has_warmup(c: ToolResultContent, max: nat) -> bool {
    match c {
        ToolResultContent::Text(text) => is_warmup_text(text@, max),
        ToolResultContent::Blocks(b) => any_warmup_block(b@, max),
    }
}

/// Whether the result of a tool holds a text of a warmup.
pub fn tool_result_contains_warmup(content: &ToolResultContent, max_text_len: usize) -> (r: bool)
    ensures
        r == result_has_warmup(*content, max_text_len as nat),
{
    match content {
        ToolResultContent::Text(text) => is_warmup_text_candidate(text, max_text_len),
        ToolResultContent::Blocks(blocks) => {
            let mut i: usize = 0;
            while i < blocks.len()
                invariant
                    i <= blocks@.len(),
                    *content == ToolResultContent::Blocks(*blocks),
                    forall|j: int|
                        0 <= j < i ==> !is_warmup_block(
                            #[trigger] blocks@[j],
                            max_text_len as nat,
                        ),
                decreases blocks@.len() - i,
            {
                match &blocks[i] {
                    ContentBlock::Text { text } => {
                        if is_warmup_text_candidate(text, max_text_len) {
                            assert(is_warmup_block(blocks@[i as int], max_text_len as nat));
                            return true;
                        }
                    },
                    _ => {},
                }
                i = i + 1;
            }
            false
        },
    }
}

/// Whether a block of the last message makes it a warmup: a text of a warmup, or the failed
/// result of a tool that holds one.
pub open spec fn block_asks_warmup(b: ContentBlock, max: nat) -> bool {
    match b {
        ContentBlock::Text { text } => is_warmup_text(text@, max),
        ContentBlock::ToolResult { content, is_error, .. } => is_error == Some(true)
            && result_has_warmup(content, max),
        _ => false,
    }
}

/// Whether a request is a warmup: its last message is the user's and asks for one. With no
/// length allowed, none is.
pub open spec fn is_warmup(q: MessagesRequest, max: nat) -> bool {
    &&& max > 0
    &&& q.messages@.len() > 0
    &&& q.messages@.last().role == Role::User
    &&& match q.messages@.last().content {
        MessageContent::Text(text) => is_warmup_text(text@, max),
        MessageContent::Blocks(b) => any_block_asks(b@, max),
    }
}

/// Whether any block makes its message a warmup.
pub open spec fn any_block_asks(b: Seq<ContentBlock>, max: nat) -> bool {
    exists|i: int| 0 <= i < b.len() && block_asks_warmup(#[trigger] b[i], max)
}

/// Whether a request is a warmup.
pub fn is_warmup_request(q: &MessagesRequest, max_text_len: usize) -> (r: bool)
    ensures
        r == is_warmup(*q, max_text_len as nat),
{
    if max_text_len == 0 || q.messages.len() == 0 {
        return false;
    }
    let last = &q.messages[q.messages.len() - 1];
    match last.role {
        Role::User => {},
        Role::Assistant => {
            return false;
        },
    }
    match &last.content {
        MessageContent::Text(text) => is_warmup_text_candidate(text, max_text_len),
        MessageContent::Blocks(blocks) => {
            let mut i: usize = 0;
            while i < blocks.len()
                invariant
                    i <= blocks@.len(),
                    max_text_len > 0,
                    q.messages@.len() > 0,
                    *last == q.messages@.last(),
                    last.role == Role::User,
                    last.content == MessageContent::Blocks(*blocks),
                    forall|j: int|
                        0 <= j < i ==> !block_asks_warmup(
                            #[trigger] blocks@[j],
                            max_text_len as nat,
                        ),
                decreases blocks@.len() - i,
            {
                let hit = match &blocks[i] {
                    ContentBlock::Text { text } => is_warmup_text_candidate(text, max_text_len),
                    ContentBlock::ToolResult { content, is_error, .. } => match is_error {
                        Some(true) => tool_result_contains_warmup(content, max_text_len),
                        _ => false,
                    },
                    _ => false,
                };
                if hit {
                    assert(block_asks_warmup(blocks@[i as int], max_text_len as nat));
                    assert(any_block_asks(blocks@, max_text_len as nat));
                    return true;
                }
                i = i + 1;
            }
            false
        },
    }
}

/// A reply of the Messages API that is one text.
#[derive(Debug, Clone, PartialEq)]
pub struct TextMessage {
    pub id: String,
    pub model: String,
    pub text: String,
    pub stop_reason: StopReason,
    pub usage: Usage,
}

/// The usage of an intercepted warmup.
pub open spec fn warmup_usage(output_tokens: u32) -> Usage {
    Usage {
        input_tokens: 1,
        output_tokens,
        cache_creation_input_tokens: None,
        cache_read_input_tokens: None,
    }
}

/// The reply to an intercepted warmup at a time in milliseconds: `OK`.
pub fn warmup_message(model: &str, id: &str) -> (r: TextMessage)
    ensures
        r.id@ == id@,
        r.model@ == model@,
        r.text@ == "OK"@,
        r.stop_reason == StopReason::EndTurn,
        r.usage == warmup_usage(1),
{
    TextMessage {
        id: id.to_owned(),
        model: model.to_owned(),
        text: "OK".to_owned(),
        stop_reason: StopReason::EndTurn,
        usage: Usage {
            input_tokens: 1,
            output_tokens: 1,
            cache_creation_input_tokens: None,
            cache_read_input_tokens: None,
        },
    }
}

/// The id of an intercepted warmup, from the time in milliseconds since 1970.
pub fn warmup_id(millis: u64) -> (r: String)
    ensures
        r@ == "msg_warmup_"@ + crate::text::decimal(millis as nat),
{
    let mut r = "msg_warmup_".to_owned();
    r.push_str(&crate::text::decimal_text(millis));
    r
}

/// Whether the events are those of a streamed reply to an intercepted warmup.
pub open spec fn are_warmup_events(e: Seq<StreamEvent>, model: Seq<char>, id: Seq<char>) -> bool {
    &&& e.len() == 6
    &&& e[0] matches StreamEvent::MessageStart { message } && message.id@ == id && message.model@
        == model && message.usage == warmup_usage(0)
    &&& e[1] matches StreamEvent::ContentBlockStart {
        index: 0,
        content_block: ContentBlock::Text { text },
    } && text@.len() == 0
    &&& e[2] matches StreamEvent::ContentBlockDelta { index: 0, delta: ContentDelta::Text { text } }
        && text@ == "OK"@
    &&& e[3] == StreamEvent::ContentBlockStop { index: 0 }
    &&& e[4] == StreamEvent::MessageDelta {
        stop_reason: Some(StopReason::EndTurn),
        output_tokens: 1,
    }
    &&& e[5] == StreamEvent::MessageStop
}

/// The events of a streamed reply to an intercepted warmup.
pub fn warmup_events(model: &str, id: &str) -> (r: Vec<StreamEvent>)
    ensures
        are_warmup_events(r@, model@, id@),
{
    let mut r: Vec<StreamEvent> = Vec::new();
    r.push(
        StreamEvent::MessageStart {
            message: MessageStart {
                id: id.to_owned(),
                model: model.to_owned(),
                usage: Usage {
                    input_tokens: 1,
                    output_tokens: 0,
                    cache_creation_input_tokens: None,
                    cache_read_input_tokens: None,
                },
            },
        },
    );
    r.push(
        StreamEvent::ContentBlockStart {
            index: 0,
            content_block: ContentBlock::Text { text: String::new() },
        },
    );
    r.push(
        StreamEvent::ContentBlockDelta {
            index: 0,
            delta: ContentDelta::Text { text: "OK".to_owned() },
        },
    );
    r.push(StreamEvent::ContentBlockStop { index: 0 });
    r.push(
        StreamEvent::MessageDelta { stop_reason: Some(StopReason::EndTurn), output_tokens: 1 },
    );
    r.push(StreamEvent::MessageStop);
    r
}

/// Whether the headers of a request ask to pass the cache by.
pub open spec fn bypasses_cache(
    cache_control: Option<Seq<char>>,
    x_no_cache: Option<Seq<char>>,
) -> bool {
    ||| cache_control matches Some(c) && (holds(c, "no-cache"@) || holds(c, "no-store"@))
    ||| x_no_cache matches Some(n) && (n == "true"@ || n == "1"@)
}

/// Whether the headers of a request ask to pass the cache by.
pub fn should_bypass_cache(cache_control: Option<&str>, x_no_cache: Option<&str>) -> (r: bool)
    ensures
        r == bypasses_cache(
            crate::routes::header(cache_control),
            crate::routes::header(x_no_cache),
        ),
{
    match cache_control {
        Some(c) => {
            if contains(c, "no-cache") || contains(c, "no-store") {
                return true;
            }
        },
        None => {},
    }
    match x_no_cache {
        Some(n) => same(n, "true") || same(n, "1"),
        None => false,
    }
}


/// The length that a block is counted with: texts by their bytes, images and documents at
/// a flat rate.
pub open spec fn block_chars(b: ContentBlock) -> nat
    decreases b,
{
    match b {
        ContentBlock::Text { text } => byte_len(text@),
        ContentBlock::Image { .. } => 256,
        ContentBlock::Document { .. } => 1024,
        ContentBlock::ToolUse { name, input, .. } => byte_len(name@) + byte_len(
            compact_json(input@),
        ),
        ContentBlock::ToolResult { content, .. } => match content {
            ToolResultContent::Text(text) => byte_len(text@),
            ToolResultContent::Blocks(list) => blocks_chars(list@),
        },
        ContentBlock::Thinking { thinking } => byte_len(thinking@),
    }
}

/// The length that a list of blocks is counted with.
pub open spec fn blocks_chars(list: Seq<ContentBlock>) -> nat
    decreases list,
{
    if list.len() == 0 {
        0
    } else {
        proof {
            vstd::seq::axiom_seq_len_decreases(list, list.drop_last());
            assert(decreases_to!(list => list[list.len() - 1]));
        }
        blocks_chars(list.drop_last()) + block_chars(list[list.len() - 1])
    }
}

/// Adds to a count that may not fit any more.
pub(crate) fn more(total: Option<usize>, n: usize) -> (r: Option<usize>)
    ensures
        r == (match total {
            Some(t) => if t + n <= usize::MAX {
                Some((t + n) as usize)
            } else {
                None
            },
            None => None,
        }),
{
    match total {
        Some(t) => t.checked_add(n),
        None => None,
    }
}

/// Whether `r` is the number `n`, or `None` because it does not fit.
pub open spec fn counts(r: Option<usize>, n: nat) -> bool {
    match r {
        Some(k) => k == n,
        None => n > usize::MAX,
    }
}

/// The length that a block is counted with; `None` where it does not fit in a `usize`.
pub fn count_block_chars(block: &ContentBlock) -> (r: Option<usize>)
    ensures
        counts(r, block_chars(*block)),
    decreases block,
{
    match block {
        ContentBlock::Text { text } => Some(len_bytes(text)),
        ContentBlock::Image { .. } => Some(256),
        ContentBlock::Document { .. } => Some(1024),
        ContentBlock::ToolUse { name, input, .. } => {
            let text = json_text(input);
            more(Some(len_bytes(name)), len_bytes(&text))
        },
        ContentBlock::ToolResult { content, .. } => match content {
            ToolResultContent::Text(text) => Some(len_bytes(text)),
            ToolResultContent::Blocks(list) => {
                let mut total: Option<usize> = Some(0);
                let mut i: usize = 0;
                assert(list@.take(0) =~= Seq::empty());
                while i < list.len()
                    invariant
                        i <= list@.len(),
                        decreases_to!(block => list@),
                        counts(total, blocks_chars(list@.take(i as int))),
                    decreases list@.len() - i,
                {
                    assert(decreases_to!(list@ => list@[i as int]));
                    assert(list@.take(i + 1).drop_last() =~= list@.take(i as int));
                    match count_block_chars(&list[i]) {
                        Some(n) => {
                            total = more(total, n);
                        },
                        None => {
                            total = None;
                        },
                    }
                    i = i + 1;
                }
                assert(list@.take(list@.len() as int) =~= list@);
                total
            },
        },
        ContentBlock::Thinking { thinking } => Some(len_bytes(thinking)),
    }
}

/// The length that a list of blocks is counted with.
fn count_blocks(list: &Vec<ContentBlock>) -> (r: Option<usize>)
    ensures
        counts(r, blocks_chars(list@)),
{
    let mut total: Option<usize> = Some(0);
    let mut i: usize = 0;
    assert(list@.take(0) =~= Seq::empty());
    while i < list.len()
        invariant
            i <= list@.len(),
            counts(total, blocks_chars(list@.take(i as int))),
        decreases list@.len() - i,
    {
        assert(list@.take(i + 1).drop_last() =~= list@.take(i as int));
        match count_block_chars(&list[i]) {
            Some(n) => {
                total = more(total, n);
            },
            None => {
                total = None;
            },
        }
        i = i + 1;
    }
    assert(list@.take(list@.len() as int) =~= list@);
    total
}

/// The sum of two counts that may not fit.
pub(crate) fn plus(a: Option<usize>, b: Option<usize>) -> (r: Option<usize>)
    ensures
        forall|x: nat, y: nat| #![trigger counts(a, x), counts(b, y)] counts(a, x) && counts(b, y)
            ==> counts(r, x + y),
{
    match b {
        Some(n) => more(a, n),
        None => None,
    }
}

/// The length that the content of a message is counted with.
pub open spec fn content_chars(c: MessageContent) -> nat {
    match c {
        MessageContent::Text(text) => byte_len(text@),
        MessageContent::Blocks(list) => blocks_chars(list@),
    }
}

/// The length that the messages are counted with.
pub open spec fn messages_chars(m: Seq<Message>) -> nat
    decreases m.len(),
{
    if m.len() == 0 {
        0
    } else {
        messages_chars(m.drop_last()) + content_chars(m.last().content)
    }
}

/// A tool that the model may use.
#[derive(Debug, PartialEq)]
pub struct Tool {
    pub name: String,
    pub description: Option<String>,
    pub input_schema: Json,
}

/// The length that a tool is counted with.
pub open spec fn tool_chars(t: Tool) -> nat {
    byte_len(t.name@) + (match t.description {
        Some(d) => byte_len(d@),
        None => 0,
    }) + byte_len(compact_json(t.input_schema@))
}

/// The length that the tools are counted with.
pub open spec fn tools_chars(t: Seq<Tool>) -> nat
    decreases t.len(),
{
    if t.len() == 0 {
        0
    } else {
        tools_chars(t.drop_last()) + tool_chars(t.last())
    }
}

/// The length that a request is counted with.
pub open spec fn request_chars(
    system: Option<MessageContent>,
    messages: Seq<Message>,
    tools: Option<Vec<Tool>>,
) -> nat {
    system_chars(system) + messages_chars(messages) + (match tools {
        Some(t) => tools_chars(t@),
        None => 0,
    })
}

/// The length that the system prompt is counted with.
pub open spec fn system_chars(system: Option<MessageContent>) -> nat {
    match system {
        Some(s) => content_chars(s),
        None => 0,
    }
}

/// The tokens that a length stands for: a quarter of it, at least one.
pub open spec fn tokens_for(chars: nat) -> u32 {
    (if chars / 4 > 1 {
        chars / 4
    } else {
        1
    }) as u32
}

/// The tokens that a length stands for.
pub fn estimate_tokens(chars: usize) -> (r: u32)
    ensures
        r == tokens_for(chars as nat),
{
    let n: usize = chars / 4;
    if n > 1 {
        n as u32
    } else {
        1
    }
}

/// The length that a tool is counted with.
fn count_tool(t: &Tool) -> (r: Option<usize>)
    ensures
        counts(r, tool_chars(*t)),
{
    let schema = json_text(&t.input_schema);
    let a = more(
        Some(len_bytes(&t.name)),
        match &t.description {
            Some(d) => len_bytes(d),
            None => 0,
        },
    );
    more(a, len_bytes(&schema))
}

/// The length that the tools are counted with.
fn count_tools(t: &Vec<Tool>) -> (r: Option<usize>)
    ensures
        counts(r, tools_chars(t@)),
{
    let mut total: Option<usize> = Some(0);
    let mut i: usize = 0;
    assert(t@.take(0) =~= Seq::empty());
    while i < t.len()
        invariant
            i <= t@.len(),
            counts(total, tools_chars(t@.take(i as int))),
        decreases t@.len() - i,
    {
        assert(t@.take(i + 1).drop_last() =~= t@.take(i as int));
        match count_tool(&t[i]) {
            Some(n) => {
                total = more(total, n);
            },
            None => {
                total = None;
            },
        }
        i = i + 1;
    }
    assert(t@.take(t@.len() as int) =~= t@);
    total
}

/// The tokens that a request stands for; `None` where its length does not fit in a `usize`.
pub fn count_tokens(
    system: &Option<MessageContent>,
    messages: &Vec<Message>,
    tools: &Option<Vec<Tool>>,
) -> (r: Option<u32>)
    ensures
        r == (if request_chars(*system, messages@, *tools) <= usize::MAX {
            Some(tokens_for(request_chars(*system, messages@, *tools)))
        } else {
            None::<u32>
        }),
{
    let head = match system {
        Some(s) => count_content(s),
        None => Some(0),
    };
    let mut body: Option<usize> = Some(0);
    let mut i: usize = 0;
    assert(messages@.take(0) =~= Seq::empty());
    while i < messages.len()
        invariant
            i <= messages@.len(),
            counts(body, messages_chars(messages@.take(i as int))),
        decreases messages@.len() - i,
    {
        assert(messages@.take(i + 1).drop_last() =~= messages@.take(i as int));
        let n = count_content(&messages[i].content);
        assert(counts(n, content_chars(messages@[i as int].content)));
        body = plus(body, n);
        i = i + 1;
    }
    assert(messages@.take(messages@.len() as int) =~= messages@);
    let tail = match tools {
        Some(t) => count_tools(t),
        None => Some(0),
    };
    let ghost sys = system_chars(*system);
    assert(counts(head, sys));
    let front = plus(head, body);
    assert(counts(front, sys + messages_chars(messages@)));
    let all = plus(front, tail);
    assert(counts(
        tail,
        (match tools {
            Some(t) => tools_chars(t@),
            None => 0,
        }),
    ));
    assert(counts(all, request_chars(*system, messages@, *tools)));
    match all {
        Some(n) => Some(estimate_tokens(n)),
        None => None,
    }
}

/// The length that the content of a message is counted with.
fn count_content(c: &MessageContent) -> (r: Option<usize>)
    ensures
        counts(r, content_chars(*c)),
{
    match c {
        MessageContent::Text(text) => Some(len_bytes(text)),
        MessageContent::Blocks(list) => count_blocks(list),
    }
}

/// The length of a conversation is that of its parts: two lists of messages one after the
/// other count as much as both, and one message counts as much as its content.
pub proof fn messages_count_one_by_one(a: Seq<Message>, b: Seq<Message>, m: Message)
    ensures
        messages_chars(a + b) == messages_chars(a) + messages_chars(b),
        messages_chars(seq![m]) == content_chars(m.content),
        messages_chars(a.push(m)) == messages_chars(a) + content_chars(m.content),
        messages_chars(Seq::empty()) == 0,
    decreases b.len(),
{
    let none = seq![m].drop_last();
    assert(none.len() == 0);
    assert(messages_chars(none) == 0);
    assert(seq![m].last() == m);
    assert(a.push(m).drop_last() =~= a);
    if b.len() == 0 {
        assert(a + b =~= a);
    } else {
        assert((a + b).drop_last() =~= a + b.drop_last());
        messages_count_one_by_one(a, b.drop_last(), m);
    }
}

/// A conversation never counts less than any of its messages alone.
pub proof fn every_message_counts(m: Seq<Message>, i: int)
    requires
        0 <= i < m.len(),
    ensures
        messages_chars(m) >= content_chars(m[i].content),
{
    let tail = m.subrange(i + 1, m.len() as int);
    messages_count_one_by_one(m.take(i), seq![m[i]], m[i]);
    messages_count_one_by_one(m.take(i) + seq![m[i]], tail, m[i]);
    assert(m =~= m.take(i) + seq![m[i]] + tail);
}

/// The length of a list of blocks is that of its parts, and a content of blocks counts as much
/// as the list; one of text counts its bytes, whether it is the whole content or a block.
pub proof fn blocks_count_one_by_one(
    a: Seq<ContentBlock>,
    b: Seq<ContentBlock>,
    list: Vec<ContentBlock>,
    text: String,
)
    ensures
        blocks_chars(a + b) == blocks_chars(a) + blocks_chars(b),
        content_chars(MessageContent::Blocks(list)) == blocks_chars(list@),
        content_chars(MessageContent::Text(text)) == vstd::utf8::encode_utf8(text@).len(),
        blocks_chars(seq![ContentBlock::Text { text }]) == vstd::utf8::encode_utf8(text@).len(),
        blocks_chars(Seq::empty()) == 0,
    decreases b.len(),
{
    let one = seq![ContentBlock::Text { text }];
    reveal_with_fuel(blocks_chars, 2);
    assert(one.drop_last() =~= Seq::empty());
    assert(one[one.len() - 1] == ContentBlock::Text { text });
    if b.len() == 0 {
        assert(a + b =~= a);
    } else {
        assert((a + b).drop_last() =~= a + b.drop_last());
        assert((a + b)[(a + b).len() - 1] == b[b.len() - 1]);
        blocks_count_one_by_one(a, b.drop_last(), list, text);
    }
}

/// One block counts by itself: thinking and the text of a result by their bytes, the blocks of
/// a result as a list of blocks, the use of a tool by its name and its input as JSON; an image
/// and a document count the same whatever is in them.
pub proof fn a_block_counts_what_it_holds(
    thinking: String,
    id: String,
    name: String,
    input: Json,
    list: Vec<ContentBlock>,
    is_error: Option<bool>,
    x: Source,
    y: Source,
)
    ensures
        block_chars(ContentBlock::Thinking { thinking }) == vstd::utf8::encode_utf8(
            thinking@,
        ).len(),
        block_chars(
            ContentBlock::ToolResult {
                tool_use_id: id,
                content: ToolResultContent::Text(thinking),
                is_error,
            },
        ) == vstd::utf8::encode_utf8(thinking@).len(),
        block_chars(
            ContentBlock::ToolResult {
                tool_use_id: id,
                content: ToolResultContent::Blocks(list),
                is_error,
            },
        ) == blocks_chars(list@),
        block_chars(ContentBlock::ToolUse { id, name, input }) == vstd::utf8::encode_utf8(
            name@,
        ).len() + vstd::utf8::encode_utf8(compact_json(input@)).len(),
        block_chars(ContentBlock::Image { source: x }) == block_chars(
            ContentBlock::Image { source: y },
        ) == 256,
        block_chars(ContentBlock::Document { source: x }) == block_chars(
            ContentBlock::Document { source: y },
        ) == 1024,
{
    reveal_with_fuel(block_chars, 2);
}

/// The tools count one by one: each by its name, its description and its schema as JSON.
pub proof fn tools_count_one_by_one(a: Seq<Tool>, b: Seq<Tool>, t: Tool)
    ensures
        tools_chars(a + b) == tools_chars(a) + tools_chars(b),
        tools_chars(Seq::empty()) == 0,
        tools_chars(seq![t]) == vstd::utf8::encode_utf8(t.name@).len() + (if t.description is Some {
            vstd::utf8::encode_utf8(t.description->0@).len()
        } else {
            0
        }) + vstd::utf8::encode_utf8(compact_json(t.input_schema@)).len(),
    decreases b.len(),
{
    assert(seq![t].drop_last() =~= Seq::empty());
    if b.len() == 0 {
        assert(a + b =~= a);
    } else {
        assert((a + b).drop_last() =~= a + b.drop_last());
        tools_count_one_by_one(a, b.drop_last(), t);
    }
}

/// A request counts its system prompt, its messages and its tools: leaving out one of them
/// takes away exactly what it counts by itself.
pub proof fn every_part_of_a_request_counts(
    system: MessageContent,
    messages: Seq<Message>,
    tools: Vec<Tool>,
)
    ensures
        request_chars(Some(system), messages, Some(tools)) == request_chars(
            None,
            messages,
            Some(tools),
        ) + content_chars(system),
        request_chars(Some(system), messages, Some(tools)) == request_chars(
            Some(system),
            messages,
            None,
        ) + tools_chars(tools@),
        request_chars(None, messages, None) == messages_chars(messages),
{
}

/// Four bytes make a token, what is left over makes none, and there is at least one.
pub proof fn a_token_is_four_bytes(chars: nat)
    requires
        chars / 4 <= u32::MAX,
    ensures
        tokens_for(chars) >= 1,
        chars >= 4 ==> 4 * tokens_for(chars) <= chars < 4 * tokens_for(chars) + 4,
        chars < 8 ==> tokens_for(chars) == 1,
{
}

/// Longer requests do not count fewer tokens.
pub proof fn more_bytes_are_not_fewer_tokens(a: nat, b: nat)
    requires
        a <= b,
        b / 4 <= u32::MAX,
    ensures
        tokens_for(a) <= tokens_for(b),
{
}

/// A request is in order exactly where it asks for one to two hundred thousand tokens, names a
/// model, has a message and no temperature that is out of range.
pub proof fn requests_in_order_have_no_fault(q: MessagesRequest)
    ensures
        request_fault(q) is None <==> 1 <= q.max_tokens <= 200_000 && q.model@.len() > 0
            && q.messages@.len() > 0 && q.temperature_in_range != Some(false),
{
}

/// The first fault is named, in this order: the tokens, the model, the messages, the
/// temperature.
pub proof fn faults_are_named(q: MessagesRequest)
    ensures
        request_fault(q) == Some("max_tokens must be greater than 0"@) <==> q.max_tokens == 0,
        request_fault(q) == Some("max_tokens cannot exceed 200000"@) <==> q.max_tokens > 200_000,
        request_fault(q) == Some("model is required"@) <==> 1 <= q.max_tokens <= 200_000
            && q.model@.len() == 0,
        request_fault(q) == Some("messages array cannot be empty"@) <==> 1 <= q.max_tokens
            <= 200_000 && q.model@.len() > 0 && q.messages@.len() == 0,
        request_fault(q) == Some("temperature must be between 0.0 and 2.0"@) <==> 1 <= q.max_tokens
            <= 200_000 && q.model@.len() > 0 && q.messages@.len() > 0 && q.temperature_in_range
            == Some(false),
{
    reveal_strlit("max_tokens must be greater than 0");
    reveal_strlit("max_tokens cannot exceed 200000");
    reveal_strlit("model is required");
    reveal_strlit("messages array cannot be empty");
    reveal_strlit("temperature must be between 0.0 and 2.0");
    assert("max_tokens must be greater than 0"@.len() != "max_tokens cannot exceed 200000"@.len());
    assert("max_tokens must be greater than 0"@.len() != "model is required"@.len());
    assert("max_tokens must be greater than 0"@.len() != "messages array cannot be empty"@.len());
    assert("max_tokens must be greater than 0"@.len() != "temperature must be between 0.0 and 2.0"@.len());
    assert("max_tokens cannot exceed 200000"@.len() != "model is required"@.len());
    assert("max_tokens cannot exceed 200000"@.len() != "messages array cannot be empty"@.len());
    assert("max_tokens cannot exceed 200000"@.len() != "temperature must be between 0.0 and 2.0"@.len());
    assert("model is required"@.len() != "messages array cannot be empty"@.len());
    assert("model is required"@.len() != "temperature must be between 0.0 and 2.0"@.len());
    assert("messages array cannot be empty"@.len() != "temperature must be between 0.0 and 2.0"@.len());
}

/// A message of the user that is the word `warmup` alone, in any case and with any white space
/// round it, is a warmup, where a text that long is allowed; a message of the assistant never
/// is, nor an empty conversation, nor anything where no length is allowed.
pub proof fn warmups_are_recognised(q: MessagesRequest, text: String, max: nat)
    ensures
        q.messages@.len() > 0 && q.messages@.last().role == Role::User && q.messages@.last().content
            == MessageContent::Text(text) && ascii_lower(trimmed(text@)) == "warmup"@ && byte_len(
            trimmed(text@),
        ) <= max && max > 0 ==> is_warmup(q, max),
        is_warmup(q, max) ==> max > 0 && q.messages@.len() > 0 && q.messages@.last().role
            == Role::User,
        is_warmup(q, max) && q.messages@.last().content == MessageContent::Text(text) ==> starts(
            ascii_lower(trimmed(text@)),
            "warmup"@,
        ) && byte_len(trimmed(text@)) <= max,
{
    reveal_strlit("warmup");
    reveal_strlit("warmup ");
    reveal_strlit("warmup\n");
    reveal_strlit("warmup\t");
    let l = ascii_lower(trimmed(text@));
    assert(l.len() == trimmed(text@).len());
    if l == "warmup"@ {
        assert(l.subrange(0, 6) =~= "warmup"@);
    }
    if starts(l, "warmup "@) {
        assert(l.subrange(0, 6) =~= l.subrange(0, 7).subrange(0, 6));
        assert(l.subrange(0, 6) =~= "warmup"@);
    }
    if starts(l, "warmup\n"@) {
        assert(l.subrange(0, 6) =~= l.subrange(0, 7).subrange(0, 6));
        assert(l.subrange(0, 6) =~= "warmup"@);
    }
    if starts(l, "warmup\t"@) {
        assert(l.subrange(0, 6) =~= l.subrange(0, 7).subrange(0, 6));
        assert(l.subrange(0, 6) =~= "warmup"@);
    }
}

/// A failed result of a tool that says `warmup` asks for one like a text does; a result that
/// did not fail does not, nor does any other block.
pub proof fn failed_tools_ask_for_warmups(
    id: String,
    text: String,
    content: ToolResultContent,
    is_error: Option<bool>,
    max: nat,
)
    ensures
        block_asks_warmup(ContentBlock::Text { text }, max) == is_warmup_text(text@, max),
        block_asks_warmup(
            ContentBlock::ToolResult {
                tool_use_id: id,
                content: ToolResultContent::Text(text),
                is_error: Some(true),
            },
            max,
        ) == is_warmup_text(text@, max),
        is_error != Some(true) ==> !block_asks_warmup(
            ContentBlock::ToolResult { tool_use_id: id, content, is_error },
            max,
        ),
        !block_asks_warmup(ContentBlock::Thinking { thinking: text }, max),
{
}

/// The cache is passed by where a header says so, and only then: `no-cache` or `no-store`
/// anywhere in `Cache-Control`, or `true` or `1` as `X-No-Cache`.
pub proof fn the_cache_is_passed_by_when_asked(
    before: Seq<char>,
    behind: Seq<char>,
    c: Option<Seq<char>>,
    n: Option<Seq<char>>,
)
    ensures
        bypasses_cache(Some(before + "no-cache"@ + behind), n),
        bypasses_cache(Some(before + "no-store"@ + behind), n),
        bypasses_cache(c, Some("true"@)),
        bypasses_cache(c, Some("1"@)),
        !bypasses_cache(None, None),
        n != Some("true"@) && n != Some("1"@) ==> bypasses_cache(c, n) == bypasses_cache(c, None),
        bypasses_cache(c, None) ==> c is Some,
        (c matches Some(t) && bypasses_cache(c, None)) ==> holds(c->0, "no-cache"@) || holds(
            c->0,
            "no-store"@,
        ),
{
    let a = before + "no-cache"@ + behind;
    let b = before + "no-store"@ + behind;
    let i = before.len() as int;
    assert(a.subrange(i, i + "no-cache"@.len()) =~= "no-cache"@);
    assert(b.subrange(i, i + "no-store"@.len()) =~= "no-store"@);
    assert(crate::text::occurs_at(a, "no-cache"@, i));
    assert(crate::text::occurs_at(b, "no-store"@, i));
}

} // verus!
