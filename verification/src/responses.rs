//! OpenAI's Responses API: the events of a streamed reply, and the machine that makes
//! them from the events of a Messages stream.

use vstd::prelude::*;

use crate::chat::{begins_call, json_of_event, prompt_tokens};
use crate::messages::{ContentBlock, ContentDelta, StreamEvent};
use crate::text::{head_bytes, head_is_whole, head_of};

verus! {

/// One item of a reply's output.
#[derive(Debug, Clone, PartialEq)]
pub enum ResponseOutputItem {
    Message { id: String, role: &'static str, status: &'static str, content: Vec<String> },
    FunctionCall {
        id: String,
        call_id: String,
        name: String,
        arguments: String,
        status: &'static str,
    },
    Reasoning { id: String, status: &'static str, summary: Vec<String> },
}

/// What an output item says. The content and the summary are lists of texts.
#[verifier::ext_equal]
pub enum ItemView {
    Message { id: Seq<char>, role: Seq<char>, status: Seq<char>, content: Seq<Seq<char>> },
    FunctionCall {
        id: Seq<char>,
        call_id: Seq<char>,
        name: Seq<char>,
        arguments: Seq<char>,
        status: Seq<char>,
    },
    Reasoning { id: Seq<char>, status: Seq<char>, summary: Seq<Seq<char>> },
}

impl ResponseOutputItem {
    /// What this item says.
    pub open spec fn view(&self) -> ItemView {
        match *self {
            ResponseOutputItem::Message { id, role, status, content } => ItemView::Message {
                id: id@,
                role: role@,
                status: status@,
                content: crate::text::views(content@),
            },
            ResponseOutputItem::FunctionCall { id, call_id, name, arguments, status } => {
                ItemView::FunctionCall {
                    id: id@,
                    call_id: call_id@,
                    name: name@,
                    arguments: arguments@,
                    status: status@,
                }
            },
            ResponseOutputItem::Reasoning { id, status, summary } => ItemView::Reasoning {
                id: id@,
                status: status@,
                summary: crate::text::views(summary@),
            },
        }
    }
}

/// The views of a list of items.
pub open spec fn item_views(s: Seq<ResponseOutputItem>) -> Seq<ItemView> {
    Seq::new(s.len(), |i: int| s[i]@)
}

/// The tokens a reply used. The cached and the reasoning tokens stand there only where
/// there were some.
#[derive(Debug, Clone, Copy, PartialEq, Eq, Structural)]
pub struct ResponseUsage {
    pub input_tokens: u32,
    pub output_tokens: u32,
    pub total_tokens: u32,
    pub cached_tokens: Option<u32>,
    pub reasoning_tokens: Option<u32>,
}

/// A reply, as far as it depends on the stream.
#[derive(Debug, Clone, PartialEq)]
pub struct ResponsesResponse {
    pub id: String,
    pub model: String,
    pub output: Vec<ResponseOutputItem>,
    pub usage: Option<ResponseUsage>,
    pub status: &'static str,
}

/// What a reply says.
#[verifier::ext_equal]
pub struct ResponseView {
    pub id: Seq<char>,
    pub model: Seq<char>,
    pub output: Seq<ItemView>,
    pub usage: Option<ResponseUsage>,
    pub status: Seq<char>,
}

impl ResponsesResponse {
    /// What this reply says.
    pub open spec fn view(&self) -> ResponseView {
        ResponseView {
            id: self.id@,
            model: self.model@,
            output: item_views(self.output@),
            usage: self.usage,
            status: self.status@,
        }
    }
}

/// One event of a streamed reply. A content part is its text.
#[derive(Debug, Clone, PartialEq)]
pub enum ResponseStreamEvent {
    ResponseCreated { response: ResponsesResponse },
    OutputItemAdded { output_index: usize, item: ResponseOutputItem },
    ContentPartAdded { output_index: usize, content_index: usize, part: String },
    OutputTextDelta { output_index: usize, content_index: usize, delta: String },
    OutputTextDone { output_index: usize, content_index: usize, text: String },
    ContentPartDone { output_index: usize, content_index: usize, part: String },
    FunctionCallArgumentsDelta { output_index: usize, delta: String },
    FunctionCallArgumentsDone { output_index: usize, arguments: String },
    OutputItemDone { output_index: usize, item: ResponseOutputItem },
    ResponseCompleted { response: ResponsesResponse },
}

/// What an event says.
#[verifier::ext_equal]
pub enum EventView {
    ResponseCreated { response: ResponseView },
    OutputItemAdded { output_index: usize, item: ItemView },
    ContentPartAdded { output_index: usize, content_index: usize, part: Seq<char> },
    OutputTextDelta { output_index: usize, content_index: usize, delta: Seq<char> },
    OutputTextDone { output_index: usize, content_index: usize, text: Seq<char> },
    ContentPartDone { output_index: usize, content_index: usize, part: Seq<char> },
    FunctionCallArgumentsDelta { output_index: usize, delta: Seq<char> },
    FunctionCallArgumentsDone { output_index: usize, arguments: Seq<char> },
    OutputItemDone { output_index: usize, item: ItemView },
    ResponseCompleted { response: ResponseView },
}

impl ResponseStreamEvent {
    /// What this event says.
    pub open spec fn view(&self) -> EventView {
        match *self {
            ResponseStreamEvent::ResponseCreated { response } => EventView::ResponseCreated {
                response: response@,
            },
            ResponseStreamEvent::OutputItemAdded { output_index, item } => {
                EventView::OutputItemAdded { output_index, item: item@ }
            },
            ResponseStreamEvent::ContentPartAdded { output_index, content_index, part } => {
                EventView::ContentPartAdded { output_index, content_index, part: part@ }
            },
            ResponseStreamEvent::OutputTextDelta { output_index, content_index, delta } => {
                EventView::OutputTextDelta { output_index, content_index, delta: delta@ }
            },
            ResponseStreamEvent::OutputTextDone { output_index, content_index, text } => {
                EventView::OutputTextDone { output_index, content_index, text: text@ }
            },
            ResponseStreamEvent::ContentPartDone { output_index, content_index, part } => {
                EventView::ContentPartDone { output_index, content_index, part: part@ }
            },
            ResponseStreamEvent::FunctionCallArgumentsDelta { output_index, delta } => {
                EventView::FunctionCallArgumentsDelta { output_index, delta: delta@ }
            },
            ResponseStreamEvent::FunctionCallArgumentsDone { output_index, arguments } => {
                EventView::FunctionCallArgumentsDone { output_index, arguments: arguments@ }
            },
            ResponseStreamEvent::OutputItemDone { output_index, item } => {
                EventView::OutputItemDone { output_index, item: item@ }
            },
            ResponseStreamEvent::ResponseCompleted { response } => EventView::ResponseCompleted {
                response: response@,
            },
        }
    }
}

/// The views of a list of events.
pub open spec fn event_views(s: Seq<ResponseStreamEvent>) -> Seq<EventView> {
    Seq::new(s.len(), |i: int| s[i]@)
}

/// A tool call that is complete: its id, its name, its arguments.
#[derive(Debug, Clone, PartialEq)]
pub struct ToolCall {
    pub id: String,
    pub name: String,
    pub arguments: String,
}

/// What a tool call says.
pub struct ToolView {
    pub id: Seq<char>,
    pub name: Seq<char>,
    pub arguments: Seq<char>,
}

impl ToolCall {
    /// What this call says.
    pub open spec fn view(&self) -> ToolView {
        ToolView { id: self.id@, name: self.name@, arguments: self.arguments@ }
    }
}

/// Makes the events of one streamed reply.
#[derive(Debug, Clone, PartialEq)]
pub struct ResponsesStream {
    resp_id: String,
    short_id: String,
    model: String,
    input_tokens: u32,
    output_tokens: u32,
    cache_read_tokens: u32,
    reasoning_tokens: u32,
    text_content: String,
    reasoning_content: String,
    sent_initial: bool,
    message_added: bool,
    output_index: usize,
    tool_calls: Vec<ToolCall>,
    current: ToolCall,
}

/// What the machine remembers between two events. `current` is the tool call being
/// received; its id is empty while there is none.
#[verifier::ext_equal]
pub struct ResponsesState {
    pub resp_id: Seq<char>,
    pub short_id: Seq<char>,
    pub model: Seq<char>,
    pub input_tokens: u32,
    pub output_tokens: u32,
    pub cache_read_tokens: u32,
    pub reasoning_tokens: u32,
    pub text_content: Seq<char>,
    pub reasoning_content: Seq<char>,
    pub sent_initial: bool,
    pub message_added: bool,
    pub output_index: usize,
    pub tool_calls: Seq<ToolView>,
    pub current: ToolView,
}

impl ResponsesStream {
    /// What this machine remembers.
    pub closed spec fn view(&self) -> ResponsesState {
        ResponsesState {
            resp_id: self.resp_id@,
            short_id: self.short_id@,
            model: self.model@,
            input_tokens: self.input_tokens,
            output_tokens: self.output_tokens,
            cache_read_tokens: self.cache_read_tokens,
            reasoning_tokens: self.reasoning_tokens,
            text_content: self.text_content@,
            reasoning_content: self.reasoning_content@,
            sent_initial: self.sent_initial,
            message_added: self.message_added,
            output_index: self.output_index,
            tool_calls: Seq::new(self.tool_calls@.len(), |i: int| self.tool_calls@[i]@),
            current: self.current@,
        }
    }
}

/// No tool call.
pub open spec fn no_tool() -> ToolView {
    ToolView { id: Seq::empty(), name: Seq::empty(), arguments: Seq::empty() }
}

/// The state before the first event.
pub open spec fn responses_start(request_id: Seq<char>, model: Seq<char>) -> ResponsesState {
    ResponsesState {
        resp_id: "resp_"@ + request_id,
        short_id: head_bytes(request_id, 8),
        model,
        input_tokens: 0,
        output_tokens: 0,
        cache_read_tokens: 0,
        reasoning_tokens: 0,
        text_content: Seq::empty(),
        reasoning_content: Seq::empty(),
        sent_initial: false,
        message_added: false,
        output_index: 0,
        tool_calls: Seq::empty(),
        current: no_tool(),
    }
}

/// The index of the tool call being received: the one before the next item's.
pub open spec fn call_index(s: ResponsesState) -> usize {
    if s.output_index == 0 {
        0
    } else {
        (s.output_index - 1) as usize
    }
}

/// The item of a tool call.
pub open spec fn call_item(call: ToolView, status: Seq<char>) -> ItemView {
    ItemView::FunctionCall {
        id: "fc_"@ + call.id,
        call_id: call.id,
        name: call.name,
        arguments: call.arguments,
        status,
    }
}

/// The item of the message.
pub open spec fn message_item(
    s: ResponsesState,
    status: Seq<char>,
    content: Seq<Seq<char>>,
) -> ItemView {
    ItemView::Message { id: "msg_"@ + s.short_id, role: "assistant"@, status, content }
}

/// The reply around an output.
pub open spec fn response_around(
    s: ResponsesState,
    status: Seq<char>,
    output: Seq<ItemView>,
    usage: Option<ResponseUsage>,
) -> ResponseView {
    ResponseView { id: s.resp_id, model: s.model, output, usage, status }
}

/// The events that an event of the Messages stream makes in state `s`.
pub open spec fn responses_emits(s: ResponsesState, event: StreamEvent) -> Seq<EventView> {
    match event {
        StreamEvent::MessageStart { .. } => if s.sent_initial {
            Seq::empty()
        } else {
            seq![
                EventView::ResponseCreated {
                    response: response_around(s, "in_progress"@, Seq::empty(), None),
                },
            ]
        },
        StreamEvent::ContentBlockStart { content_block: ContentBlock::Text { .. }, .. } => {
            if s.message_added {
                Seq::empty()
            } else {
                seq![
                    EventView::OutputItemAdded {
                        output_index: s.output_index,
                        item: message_item(s, "in_progress"@, Seq::empty()),
                    },
                    EventView::ContentPartAdded {
                        output_index: s.output_index,
                        content_index: 0,
                        part: Seq::empty(),
                    },
                ]
            }
        },
        StreamEvent::ContentBlockStart {
            content_block: ContentBlock::ToolUse { id, name, .. },
            ..
        } => seq![
            EventView::OutputItemAdded {
                output_index: s.output_index,
                item: call_item(
                    ToolView { id: id@, name: name@, arguments: Seq::empty() },
                    "in_progress"@,
                ),
            },
        ],
        StreamEvent::ContentBlockDelta { delta: ContentDelta::Text { text }, .. } => seq![
            EventView::OutputTextDelta {
                output_index: s.output_index,
                content_index: 0,
                delta: text@,
            },
        ],
        StreamEvent::ContentBlockDelta {
            delta: ContentDelta::InputJson { partial_json },
            ..
        } => seq![
            EventView::FunctionCallArgumentsDelta {
                output_index: call_index(s),
                delta: partial_json@,
            },
        ],
        StreamEvent::ContentBlockStop { .. } => if s.current.id.len() == 0 {
            Seq::empty()
        } else {
            seq![
                EventView::FunctionCallArgumentsDone {
                    output_index: call_index(s),
                    arguments: s.current.arguments,
                },
                EventView::OutputItemDone {
                    output_index: call_index(s),
                    item: call_item(s.current, "completed"@),
                },
            ]
        },
        _ => Seq::empty(),
    }
}

/// The state after an event.
pub open spec fn responses_next(s: ResponsesState, event: StreamEvent) -> ResponsesState {
    match event {
        StreamEvent::MessageStart { message } => ResponsesState {
            input_tokens: message.usage.input_tokens,
            cache_read_tokens: match message.usage.cache_read_input_tokens {
                Some(n) => n,
                None => 0,
            },
            sent_initial: true,
            ..s
        },
        StreamEvent::ContentBlockStart { content_block: ContentBlock::Text { .. }, .. } => {
            ResponsesState { message_added: true, ..s }
        },
        StreamEvent::ContentBlockStart {
            content_block: ContentBlock::ToolUse { id, name, .. },
            ..
        } => ResponsesState {
            current: ToolView { id: id@, name: name@, arguments: Seq::empty() },
            output_index: (s.output_index + 1) as usize,
            ..s
        },
        StreamEvent::ContentBlockDelta { delta: ContentDelta::Text { text }, .. } => {
            ResponsesState { text_content: s.text_content + text@, ..s }
        },
        StreamEvent::ContentBlockDelta { delta: ContentDelta::Thinking { thinking }, .. } => {
            ResponsesState {
                reasoning_content: s.reasoning_content + thinking@,
                reasoning_tokens: (s.reasoning_tokens + 1) as u32,
                ..s
            }
        },
        StreamEvent::ContentBlockDelta {
            delta: ContentDelta::InputJson { partial_json },
            ..
        } => ResponsesState {
            current: ToolView { arguments: s.current.arguments + partial_json@, ..s.current },
            ..s
        },
        StreamEvent::ContentBlockStop { .. } => if s.current.id.len() == 0 {
            s
        } else {
            ResponsesState { tool_calls: s.tool_calls.push(s.current), current: no_tool(), ..s }
        },
        StreamEvent::MessageDelta { output_tokens, .. } => ResponsesState { output_tokens, ..s },
        _ => s,
    }
}

/// Whether the counters can take an event.
pub open spec fn responses_takes(s: ResponsesState, event: StreamEvent) -> bool {
    match event {
        StreamEvent::ContentBlockStart { content_block: ContentBlock::ToolUse { .. }, .. } => {
            s.output_index < usize::MAX
        },
        StreamEvent::ContentBlockDelta { delta: ContentDelta::Thinking { .. }, .. } => {
            s.reasoning_tokens < u32::MAX
        },
        _ => true,
    }
}

/// The tokens used, at the end of the stream.
pub open spec fn final_usage(s: ResponsesState) -> ResponseUsage {
    ResponseUsage {
        input_tokens: s.input_tokens,
        output_tokens: s.output_tokens,
        total_tokens: (s.input_tokens + s.output_tokens) as u32,
        cached_tokens: if s.cache_read_tokens > 0 {
            Some(s.cache_read_tokens)
        } else {
            None
        },
        reasoning_tokens: if s.reasoning_tokens > 0 {
            Some(s.reasoning_tokens)
        } else {
            None
        },
    }
}

/// The output at the end of the stream: the tool calls in order, then the reasoning
/// where there was some, then the text where there was some.
pub open spec fn final_output(s: ResponsesState) -> Seq<ItemView> {
    let calls = Seq::new(s.tool_calls.len(), |i: int| call_item(s.tool_calls[i], "completed"@));
    let with_reasoning = if s.reasoning_content.len() == 0 {
        calls
    } else {
        calls.push(
            ItemView::Reasoning {
                id: "rs_"@ + s.short_id,
                status: "completed"@,
                summary: seq![s.reasoning_content],
            },
        )
    };
    if s.text_content.len() == 0 {
        with_reasoning
    } else {
        with_reasoning.push(message_item(s, "completed"@, seq![s.text_content]))
    }
}

/// The events at the end of the stream: the message's, where one was begun, then the
/// completed reply.
pub open spec fn responses_final(s: ResponsesState) -> Seq<EventView> {
    let message = if s.message_added {
        seq![
            EventView::OutputTextDone {
                output_index: s.output_index,
                content_index: 0,
                text: s.text_content,
            },
            EventView::ContentPartDone {
                output_index: s.output_index,
                content_index: 0,
                part: s.text_content,
            },
            EventView::OutputItemDone {
                output_index: s.output_index,
                item: message_item(s, "completed"@, seq![s.text_content]),
            },
        ]
    } else {
        Seq::empty()
    };
    message.push(
        EventView::ResponseCompleted {
            response: response_around(s, "completed"@, final_output(s), Some(final_usage(s))),
        },
    )
}

/// `prefix` followed by `rest`.
fn prefixed(prefix: &str, rest: &str) -> (r: String)
    ensures
        r@ == prefix@ + rest@,
{
    let mut r = prefix.to_owned();
    r.push_str(rest);
    r
}

/// A list of one text.
fn one_text(t: &String) -> (r: Vec<String>)
    ensures
        crate::text::views(r@) == seq![t@],
{
    let mut r: Vec<String> = Vec::new();
    r.push(t.clone());
    assert(crate::text::views(r@) =~= seq![t@]);
    r
}

/// The item of a tool call.
fn call_output(call: &ToolCall, status: &'static str) -> (r: ResponseOutputItem)
    ensures
        r@ == call_item(call@, status@),
{
    ResponseOutputItem::FunctionCall {
        id: prefixed("fc_", &call.id),
        call_id: call.id.clone(),
        name: call.name.clone(),
        arguments: call.arguments.clone(),
        status,
    }
}

impl ResponsesStream {
    /// A machine that has seen nothing yet.
    pub fn new(request_id: &str, model: &str) -> (r: ResponsesStream)
        requires
            head_is_whole(request_id@, 8),
        ensures
            r@ == responses_start(request_id@, model@),
    {
        let r = ResponsesStream {
            resp_id: prefixed("resp_", request_id),
            short_id: head_of(request_id, 8),
            model: model.to_owned(),
            input_tokens: 0,
            output_tokens: 0,
            cache_read_tokens: 0,
            reasoning_tokens: 0,
            text_content: String::new(),
            reasoning_content: String::new(),
            sent_initial: false,
            message_added: false,
            output_index: 0,
            tool_calls: Vec::new(),
            current: ToolCall { id: String::new(), name: String::new(), arguments: String::new() },
        };
        assert(r@.tool_calls =~= Seq::empty());
        r
    }

    /// The reply around an output.
    fn make_response(
        &self,
        status: &'static str,
        output: Vec<ResponseOutputItem>,
        usage: Option<ResponseUsage>,
    ) -> (r: ResponsesResponse)
        ensures
            r@ == response_around(self@, status@, item_views(output@), usage),
    {
        ResponsesResponse {
            id: self.resp_id.clone(),
            model: self.model.clone(),
            output,
            usage,
            status,
        }
    }

    /// The item of the message.
    fn message(&self, status: &'static str, content: Vec<String>) -> (r: ResponseOutputItem)
        ensures
            r@ == message_item(self@, status@, crate::text::views(content@)),
    {
        ResponseOutputItem::Message {
            id: prefixed("msg_", &self.short_id),
            role: "assistant",
            status,
            content,
        }
    }

    /// The index of the tool call being received.
    fn call_index(&self) -> (r: usize)
        ensures
            r == call_index(self@),
    {
        if self.output_index == 0 {
            0
        } else {
            self.output_index - 1
        }
    }

    /// The input, output and cached tokens counted so far, as the statistics take them.
    pub fn token_usage(&self) -> (r: (u32, u32, u32))
        ensures
            r == (self@.input_tokens, self@.output_tokens, self@.cache_read_tokens),
    {
        (self.input_tokens, self.output_tokens, self.cache_read_tokens)
    }

    /// Takes one event: hands out the events it makes, in order, and moves to the next
    /// state.
    pub fn process_event(&mut self, event: &StreamEvent) -> (r: Vec<ResponseStreamEvent>)
        requires
            responses_takes(old(self)@, *event),
        ensures
            final(self)@ == responses_next(old(self)@, *event),
            event_views(r@) == responses_emits(old(self)@, *event),
    {
        let mut out: Vec<ResponseStreamEvent> = Vec::new();
        let ghost before = self@;
        match event {
            StreamEvent::MessageStart { message } => {
                self.input_tokens = message.usage.input_tokens;
                self.cache_read_tokens = match message.usage.cache_read_input_tokens {
                    Some(n) => n,
                    None => 0,
                };
                if !self.sent_initial {
                    let items: Vec<ResponseOutputItem> = Vec::new();
                    assert(item_views(items@) =~= Seq::empty());
                    out.push(
                        ResponseStreamEvent::ResponseCreated {
                            response: self.make_response("in_progress", items, None),
                        },
                    );
                    self.sent_initial = true;
                }
            },
            StreamEvent::ContentBlockStart { content_block, .. } => match content_block {
                ContentBlock::Text { .. } => {
                    if !self.message_added {
                        let nothing: Vec<String> = Vec::new();
                        assert(crate::text::views(nothing@) =~= Seq::empty());
                        out.push(
                            ResponseStreamEvent::OutputItemAdded {
                                output_index: self.output_index,
                                item: self.message("in_progress", nothing),
                            },
                        );
                        out.push(
                            ResponseStreamEvent::ContentPartAdded {
                                output_index: self.output_index,
                                content_index: 0,
                                part: String::new(),
                            },
                        );
                        self.message_added = true;
                    }
                },
                ContentBlock::ToolUse { id, name, .. } => {
                    self.current = ToolCall {
                        id: id.clone(),
                        name: name.clone(),
                        arguments: String::new(),
                    };
                    out.push(
                        ResponseStreamEvent::OutputItemAdded {
                            output_index: self.output_index,
                            item: call_output(&self.current, "in_progress"),
                        },
                    );
                    self.output_index = self.output_index + 1;
                },
                _ => {},
            },
            StreamEvent::ContentBlockDelta { delta, .. } => match delta {
                ContentDelta::Text { text } => {
                    self.text_content.push_str(text);
                    out.push(
                        ResponseStreamEvent::OutputTextDelta {
                            output_index: self.output_index,
                            content_index: 0,
                            delta: text.clone(),
                        },
                    );
                },
                ContentDelta::Thinking { thinking } => {
                    self.reasoning_content.push_str(thinking);
                    self.reasoning_tokens = self.reasoning_tokens + 1;
                },
                ContentDelta::InputJson { partial_json } => {
                    self.current.arguments.push_str(partial_json);
                    out.push(
                        ResponseStreamEvent::FunctionCallArgumentsDelta {
                            output_index: self.call_index(),
                            delta: partial_json.clone(),
                        },
                    );
                },
                _ => {},
            },
            StreamEvent::ContentBlockStop { .. } => {
                if !self.current.id.as_str().is_empty() {
                    out.push(
                        ResponseStreamEvent::FunctionCallArgumentsDone {
                            output_index: self.call_index(),
                            arguments: self.current.arguments.clone(),
                        },
                    );
                    out.push(
                        ResponseStreamEvent::OutputItemDone {
                            output_index: self.call_index(),
                            item: call_output(&self.current, "completed"),
                        },
                    );
                    let done = ToolCall {
                        id: self.current.id.clone(),
                        name: self.current.name.clone(),
                        arguments: self.current.arguments.clone(),
                    };
                    self.tool_calls.push(done);
                    self.current = ToolCall {
                        id: String::new(),
                        name: String::new(),
                        arguments: String::new(),
                    };
                    assert(self@.tool_calls =~= before.tool_calls.push(before.current));
                }
            },
            StreamEvent::MessageDelta { output_tokens, .. } => {
                self.output_tokens = *output_tokens;
            },
            _ => {},
        }
        assert(event_views(out@) =~= responses_emits(before, *event));
        assert(self@ =~= responses_next(before, *event));
        out
    }

    /// The output at the end of the stream.
    fn final_output(&self) -> (r: Vec<ResponseOutputItem>)
        ensures
            item_views(r@) == final_output(self@),
    {
        let mut out: Vec<ResponseOutputItem> = Vec::new();
        let mut i: usize = 0;
        while i < self.tool_calls.len()
            invariant
                i <= self.tool_calls@.len(),
                item_views(out@) == Seq::new(
                    i as nat,
                    |j: int| call_item(self@.tool_calls[j], "completed"@),
                ),
            decreases self.tool_calls@.len() - i,
        {
            let ghost earlier = out@;
            out.push(call_output(&self.tool_calls[i], "completed"));
            assert(item_views(out@) =~= item_views(earlier).push(
                call_item(self@.tool_calls[i as int], "completed"@),
            ));
            i = i + 1;
            assert(item_views(out@) =~= Seq::new(
                i as nat,
                |j: int| call_item(self@.tool_calls[j], "completed"@),
            ));
        }
        if !self.reasoning_content.as_str().is_empty() {
            let ghost earlier = out@;
            out.push(
                ResponseOutputItem::Reasoning {
                    id: prefixed("rs_", &self.short_id),
                    status: "completed",
                    summary: one_text(&self.reasoning_content),
                },
            );
            assert(item_views(out@) =~= item_views(earlier).push(out@.last()@));
        }
        if !self.text_content.as_str().is_empty() {
            let ghost earlier = out@;
            out.push(self.message("completed", one_text(&self.text_content)));
            assert(item_views(out@) =~= item_views(earlier).push(out@.last()@));
        }
        out
    }

    /// Ends the stream: the last events, in order.
    pub fn finish(&self) -> (r: Vec<ResponseStreamEvent>)
        requires
            self@.input_tokens + self@.output_tokens <= u32::MAX,
        ensures
            event_views(r@) == responses_final(self@),
    {
        let mut out: Vec<ResponseStreamEvent> = Vec::new();
        if self.message_added {
            out.push(
                ResponseStreamEvent::OutputTextDone {
                    output_index: self.output_index,
                    content_index: 0,
                    text: self.text_content.clone(),
                },
            );
            out.push(
                ResponseStreamEvent::ContentPartDone {
                    output_index: self.output_index,
                    content_index: 0,
                    part: self.text_content.clone(),
                },
            );
            out.push(
                ResponseStreamEvent::OutputItemDone {
                    output_index: self.output_index,
                    item: self.message("completed", one_text(&self.text_content)),
                },
            );
        }
        let usage = ResponseUsage {
            input_tokens: self.input_tokens,
            output_tokens: self.output_tokens,
            total_tokens: self.input_tokens + self.output_tokens,
            cached_tokens: if self.cache_read_tokens > 0 {
                Some(self.cache_read_tokens)
            } else {
                None
            },
            reasoning_tokens: if self.reasoning_tokens > 0 {
                Some(self.reasoning_tokens)
            } else {
                None
            },
        };
        let items = self.final_output();
        out.push(
            ResponseStreamEvent::ResponseCompleted {
                response: self.make_response("completed", items, Some(usage)),
            },
        );
        assert(event_views(out@) =~= responses_final(self@));
        out
    }
}


/// The state after a sequence of events.
pub open spec fn responses_after(s: ResponsesState, events: Seq<StreamEvent>) -> ResponsesState
    decreases events.len(),
{
    if events.len() == 0 {
        s
    } else {
        responses_next(responses_after(s, events.drop_last()), events.last())
    }
}

/// The events that a sequence of events makes, in order.
pub open spec fn responses_outputs(s: ResponsesState, events: Seq<StreamEvent>) -> Seq<EventView>
    decreases events.len(),
{
    if events.len() == 0 {
        Seq::empty()
    } else {
        responses_outputs(s, events.drop_last()) + responses_emits(
            responses_after(s, events.drop_last()),
            events.last(),
        )
    }
}

/// The text that an event of the Messages stream carries.
pub open spec fn text_of_event(event: StreamEvent) -> Seq<char> {
    match event {
        StreamEvent::ContentBlockDelta { delta: ContentDelta::Text { text }, .. } => text@,
        _ => Seq::empty(),
    }
}

/// The text of a list of events, joined.
pub open spec fn text_of_events(events: Seq<StreamEvent>) -> Seq<char>
    decreases events.len(),
{
    if events.len() == 0 {
        Seq::empty()
    } else {
        text_of_events(events.drop_last()) + text_of_event(events.last())
    }
}

/// The text deltas of a list of events of the Responses stream, joined.
pub open spec fn text_deltas(events: Seq<EventView>) -> Seq<char>
    decreases events.len(),
{
    if events.len() == 0 {
        Seq::empty()
    } else {
        text_deltas(events.drop_last()) + match events.last() {
            EventView::OutputTextDelta { delta, .. } => delta,
            _ => Seq::empty(),
        }
    }
}

/// The deltas of a list and of what follows it are the deltas of the whole.
proof fn lemma_text_deltas_join(a: Seq<EventView>, b: Seq<EventView>)
    ensures
        text_deltas(a + b) == text_deltas(a) + text_deltas(b),
    decreases b.len(),
{
    if b.len() == 0 {
        assert(a + b =~= a);
        assert(text_deltas(a) + text_deltas(b) =~= text_deltas(a));
    } else {
        assert((a + b).drop_last() =~= a + b.drop_last());
        lemma_text_deltas_join(a, b.drop_last());
        assert(text_deltas(a + b) =~= text_deltas(a) + text_deltas(b));
    }
}

/// The deltas that one event makes are its text.
proof fn lemma_deltas_of_one(s: ResponsesState, event: StreamEvent)
    ensures
        text_deltas(responses_emits(s, event)) == text_of_event(event),
{
    reveal_with_fuel(text_deltas, 3);
    let out = responses_emits(s, event);
    assert(text_deltas(out) =~= text_of_event(event));
}

/// No text is lost, added or reordered: the text deltas sent are the text received, and
/// the text of the final reply is what was received after what was there before.
pub proof fn responses_text_is_forwarded(s: ResponsesState, events: Seq<StreamEvent>)
    ensures
        text_deltas(responses_outputs(s, events)) == text_of_events(events),
        responses_after(s, events).text_content == s.text_content + text_of_events(events),
    decreases events.len(),
{
    if events.len() == 0 {
        assert(s.text_content + text_of_events(events) =~= s.text_content);
    } else {
        let rest = events.drop_last();
        responses_text_is_forwarded(s, rest);
        let mid = responses_after(s, rest);
        lemma_text_deltas_join(responses_outputs(s, rest), responses_emits(mid, events.last()));
        lemma_deltas_of_one(mid, events.last());
        assert(responses_after(s, events).text_content =~= s.text_content + text_of_events(events));
    }
}

/// The reply is announced at most once: after it has been, no event announces it again.
pub proof fn responses_created_once(s: ResponsesState, events: Seq<StreamEvent>)
    requires
        s.sent_initial,
    ensures
        responses_after(s, events).sent_initial,
        forall|i: int|
            0 <= i < responses_outputs(s, events).len() ==> !(#[trigger] responses_outputs(
                s,
                events,
            )[i] is ResponseCreated),
    decreases events.len(),
{
    if events.len() > 0 {
        responses_created_once(s, events.drop_last());
    }
}

/// The tool calls that have begun are those that are complete and the one being received,
/// where every call comes with an id and ends before the next one begins: the next
/// output index is their number.
pub proof fn responses_indices_count_calls(s: ResponsesState, event: StreamEvent)
    requires
        responses_takes(s, event),
        s.output_index == s.tool_calls.len() + (if s.current.id.len() == 0 { 0int } else { 1 }),
        event matches StreamEvent::ContentBlockStart {
            content_block: ContentBlock::ToolUse { id, .. },
            ..
        } ==> id@.len() > 0 && s.current.id.len() == 0,
    ensures
        ({
            let t = responses_next(s, event);
            t.output_index == t.tool_calls.len() + (if t.current.id.len() == 0 { 0int } else { 1 })
        }),
{
}

/// The place of the event that began the tool call that is being received before event `n`:
/// the last one before `n` that begins a call, where no block ends after it.
pub open spec fn opener(events: Seq<StreamEvent>, n: int) -> Option<int>
    decreases n,
{
    if n <= 0 || n > events.len() {
        None
    } else if begins_call(events[n - 1]) {
        Some(n - 1)
    } else if events[n - 1] is ContentBlockStop {
        None
    } else {
        opener(events, n - 1)
    }
}

/// The id and the name that a tool call begins with.
pub open spec fn begun_as(event: StreamEvent) -> (Seq<char>, Seq<char>) {
    match event {
        StreamEvent::ContentBlockStart {
            content_block: ContentBlock::ToolUse { id, name, .. },
            ..
        } => (id@, name@),
        _ => (Seq::empty(), Seq::empty()),
    }
}

/// The partial JSON of a list of events, joined.
pub open spec fn json_of_events(events: Seq<StreamEvent>) -> Seq<char>
    decreases events.len(),
{
    if events.len() == 0 {
        Seq::empty()
    } else {
        json_of_events(events.drop_last()) + json_of_event(events.last())
    }
}

/// How many tool calls some events begin.
pub open spec fn begun_count(events: Seq<StreamEvent>) -> nat
    decreases events.len(),
{
    if events.len() == 0 {
        0
    } else {
        begun_count(events.drop_last()) + (if begins_call(events.last()) {
            1nat
        } else {
            0
        })
    }
}

/// A tool call that some events begin and end: how many were begun before it, its id, its
/// name, and the partial JSON between its beginning and its end.
#[verifier::ext_equal]
pub struct WholeCall {
    pub place: nat,
    pub id: Seq<char>,
    pub name: Seq<char>,
    pub arguments: Seq<char>,
}

/// The tool calls that some events begin, with an id, and end, in the order in which they end.
pub open spec fn whole_calls(events: Seq<StreamEvent>) -> Seq<WholeCall>
    decreases events.len(),
{
    if events.len() == 0 {
        Seq::empty()
    } else {
        let rest = events.drop_last();
        match opener(rest, rest.len() as int) {
            Some(i) => if events.last() is ContentBlockStop && begun_as(events[i]).0.len() > 0 {
                whole_calls(rest).push(
                    WholeCall {
                        place: begun_count(events.take(i)),
                        id: begun_as(events[i]).0,
                        name: begun_as(events[i]).1,
                        arguments: json_of_events(events.subrange(i + 1, events.len() - 1)),
                    },
                )
            } else {
                whole_calls(rest)
            },
            None => whole_calls(rest),
        }
    }
}

proof fn lemma_opener(events: Seq<StreamEvent>, n: int)
    ensures
        opener(events, n) matches Some(i) ==> 0 <= i < n && begins_call(events[i]),
    decreases n,
{
    if 0 < n <= events.len() {
        lemma_opener(events, n - 1);
    }
}

proof fn lemma_opener_of_prefix(events: Seq<StreamEvent>, n: int)
    requires
        0 <= n < events.len(),
    ensures
        opener(events.drop_last(), n) == opener(events, n),
    decreases n,
{
    if n > 0 {
        assert(events.drop_last()[n - 1] == events[n - 1]);
        lemma_opener_of_prefix(events, n - 1);
    }
}

/// What is being received: the call that was begun, with the partial JSON since then.
proof fn lemma_current(s: ResponsesState, events: Seq<StreamEvent>)
    requires
        s.current.id.len() == 0,
    ensures
        match opener(events, events.len() as int) {
            Some(i) => {
                let c = responses_after(s, events).current;
                &&& 0 <= i < events.len()
                &&& c.id == begun_as(events[i]).0
                &&& c.name == begun_as(events[i]).1
                &&& c.arguments == json_of_events(events.subrange(i + 1, events.len() as int))
            },
            None => responses_after(s, events).current.id.len() == 0,
        },
    decreases events.len(),
{
    if events.len() > 0 {
        let rest = events.drop_last();
        let n = rest.len() as int;
        lemma_current(s, rest);
        lemma_opener_of_prefix(events, n);
        lemma_opener(events, n);
        match opener(events, events.len() as int) {
            Some(i) => {
                let since = events.subrange(i + 1, events.len() as int);
                if i == n {
                    assert(since =~= Seq::empty());
                } else {
                    assert(rest[i] == events[i]);
                    assert(since.drop_last() =~= rest.subrange(i + 1, n));
                    assert(since.last() == events.last());
                    assert(responses_after(s, events).current.arguments =~= json_of_events(since));
                }
            },
            None => {},
        }
    }
}

/// The next output index counts the tool calls that were begun.
proof fn lemma_output_index(s: ResponsesState, events: Seq<StreamEvent>)
    requires
        s.output_index + events.len() <= usize::MAX,
    ensures
        responses_after(s, events).output_index == s.output_index + begun_count(events),
        begun_count(events) <= events.len(),
    decreases events.len(),
{
    if events.len() > 0 {
        lemma_output_index(s, events.drop_last());
    }
}

/// No call is begun after the one that is being received.
proof fn lemma_place(events: Seq<StreamEvent>, n: int)
    requires
        0 <= n <= events.len(),
    ensures
        opener(events, n) matches Some(i) ==> begun_count(events.take(n)) == begun_count(
            events.take(i),
        ) + 1,
    decreases n,
{
    if n > 0 {
        lemma_opener(events, n);
        assert(events.take(n).drop_last() =~= events.take(n - 1));
        assert(events.take(n).last() == events[n - 1]);
        lemma_place(events, n - 1);
    }
}

/// The function calls among some items, in order.
pub open spec fn calls_among(items: Seq<ItemView>) -> Seq<ItemView>
    decreases items.len(),
{
    if items.len() == 0 {
        Seq::empty()
    } else if items.last() is FunctionCall {
        calls_among(items.drop_last()).push(items.last())
    } else {
        calls_among(items.drop_last())
    }
}

/// The function calls that some events say are done, in order, each with its place.
pub open spec fn calls_done(events: Seq<EventView>) -> Seq<(int, ItemView)>
    decreases events.len(),
{
    if events.len() == 0 {
        Seq::empty()
    } else {
        match events.last() {
            EventView::OutputItemDone { output_index, item } => if item is FunctionCall {
                calls_done(events.drop_last()).push((output_index as int, item))
            } else {
                calls_done(events.drop_last())
            },
            _ => calls_done(events.drop_last()),
        }
    }
}

/// The arguments that some events say are done, in order, each with its place.
pub open spec fn arguments_done(events: Seq<EventView>) -> Seq<(int, Seq<char>)>
    decreases events.len(),
{
    if events.len() == 0 {
        Seq::empty()
    } else {
        match events.last() {
            EventView::FunctionCallArgumentsDone { output_index, arguments } => arguments_done(
                events.drop_last(),
            ).push((output_index as int, arguments)),
            _ => arguments_done(events.drop_last()),
        }
    }
}

/// The item of a whole call.
pub open spec fn as_item(c: WholeCall) -> ItemView {
    ItemView::FunctionCall {
        id: "fc_"@ + c.id,
        call_id: c.id,
        name: c.name,
        arguments: c.arguments,
        status: "completed"@,
    }
}

proof fn lemma_calls_done_join(a: Seq<EventView>, b: Seq<EventView>)
    ensures
        calls_done(a + b) == calls_done(a) + calls_done(b),
        arguments_done(a + b) == arguments_done(a) + arguments_done(b),
    decreases b.len(),
{
    if b.len() == 0 {
        assert(a + b =~= a);
    } else {
        assert((a + b).drop_last() =~= a + b.drop_last());
        lemma_calls_done_join(a, b.drop_last());
    }
    assert(calls_done(a + b) =~= calls_done(a) + calls_done(b));
    assert(arguments_done(a + b) =~= arguments_done(a) + arguments_done(b));
}

/// The calls that are complete, and what was said of each when it ended.
proof fn lemma_whole_calls(s: ResponsesState, events: Seq<StreamEvent>)
    requires
        s.current.id.len() == 0,
        s.output_index + events.len() <= usize::MAX,
    ensures
        ({
            let calls = whole_calls(events);
            let out = responses_outputs(s, events);
            &&& responses_after(s, events).tool_calls == s.tool_calls + Seq::new(
                calls.len(),
                |i: int|
                    ToolView {
                        id: calls[i].id,
                        name: calls[i].name,
                        arguments: calls[i].arguments,
                    },
            )
            &&& calls_done(out) == Seq::new(
                calls.len(),
                |i: int| (s.output_index + calls[i].place, as_item(calls[i])),
            )
            &&& arguments_done(out) == Seq::new(
                calls.len(),
                |i: int| (s.output_index + calls[i].place, calls[i].arguments),
            )
        }),
    decreases events.len(),
{
    let calls = whole_calls(events);
    let out = responses_outputs(s, events);
    let seen = Seq::new(
        calls.len(),
        |i: int|
            ToolView { id: calls[i].id, name: calls[i].name, arguments: calls[i].arguments },
    );
    let done = Seq::new(
        calls.len(),
        |i: int| (s.output_index + calls[i].place, as_item(calls[i])),
    );
    let told = Seq::new(
        calls.len(),
        |i: int| (s.output_index + calls[i].place, calls[i].arguments),
    );
    if events.len() > 0 {
        let rest = events.drop_last();
        let n = rest.len() as int;
        let mid = responses_after(s, rest);
        let made = responses_emits(mid, events.last());
        lemma_whole_calls(s, rest);
        lemma_current(s, rest);
        lemma_output_index(s, rest);
        lemma_opener(rest, n);
        lemma_place(rest, n);
        assert(rest.take(n) =~= rest);
        lemma_calls_done_join(responses_outputs(s, rest), made);
        reveal_with_fuel(calls_done, 3);
        reveal_with_fuel(arguments_done, 3);
        match opener(rest, n) {
            Some(i) => {
                assert(rest[i] == events[i]);
                assert(rest.take(i) =~= events.take(i));
                assert(rest.subrange(i + 1, n) =~= events.subrange(i + 1, n));
            },
            None => {},
        }
        if events.last() is ContentBlockStop && mid.current.id.len() > 0 {
            assert(opener(rest, n) is Some);
            assert(made.len() == 2);
            assert(made.drop_last().drop_last() =~= Seq::empty());
            assert(calls_done(made) =~= seq![(call_index(mid) as int, call_item(mid.current, "completed"@))]);
            assert(arguments_done(made) =~= seq![(call_index(mid) as int, mid.current.arguments)]);
        } else {
            assert(calls == whole_calls(rest));
            assert(calls_done(made) =~= Seq::empty());
            assert(arguments_done(made) =~= Seq::empty());
        }
    }
    assert(responses_after(s, events).tool_calls =~= s.tool_calls + seen);
    assert(calls_done(out) =~= done);
    assert(arguments_done(out) =~= told);
}

proof fn lemma_calls_among_calls(items: Seq<ItemView>)
    requires
        forall|i: int| 0 <= i < items.len() ==> (#[trigger] items[i]) is FunctionCall,
    ensures
        calls_among(items) == items,
    decreases items.len(),
{
    if items.len() > 0 {
        let rest = items.drop_last();
        assert forall|i: int| 0 <= i < rest.len() implies (#[trigger] rest[i]) is FunctionCall by {
            assert(rest[i] == items[i]);
        }
        assert(items[items.len() - 1] is FunctionCall);
        lemma_calls_among_calls(rest);
    }
    assert(calls_among(items) =~= items);
}

/// The function calls of the final reply are the tool calls that the events begin and end, in
/// order, each with the id and the name it began with and with the partial JSON that came
/// between its beginning and its end; and each was said to be done with those arguments, at
/// the place where it was begun.
pub proof fn responses_calls_are_forwarded(s: ResponsesState, events: Seq<StreamEvent>)
    requires
        s.current.id.len() == 0,
        s.tool_calls.len() == 0,
        s.output_index + events.len() <= usize::MAX,
    ensures
        ({
            let calls = whole_calls(events);
            let out = responses_outputs(s, events);
            &&& responses_final(responses_after(s, events)).last() matches
                EventView::ResponseCompleted { response } && calls_among(response.output)
                == Seq::new(calls.len(), |i: int| as_item(calls[i]))
            &&& calls_done(out) == Seq::new(
                calls.len(),
                |i: int| (s.output_index + calls[i].place, as_item(calls[i])),
            )
            &&& arguments_done(out) == Seq::new(
                calls.len(),
                |i: int| (s.output_index + calls[i].place, calls[i].arguments),
            )
        }),
{
    lemma_whole_calls(s, events);
    let calls = whole_calls(events);
    let t = responses_after(s, events);
    let items = Seq::new(t.tool_calls.len(), |i: int| call_item(t.tool_calls[i], "completed"@));
    lemma_calls_among_calls(items);
    assert(items =~= Seq::new(calls.len(), |i: int| as_item(calls[i])));
    let output = final_output(t);
    reveal_with_fuel(calls_among, 3);
    if t.text_content.len() > 0 {
        let shorter = output.drop_last();
        if t.reasoning_content.len() > 0 {
            assert(shorter.drop_last() =~= items);
        } else {
            assert(shorter =~= items);
        }
    } else if t.reasoning_content.len() > 0 {
        assert(output.drop_last() =~= items);
    }
    assert(calls_among(output) =~= items);
}

/// The argument deltas of a list of events of the Responses stream, joined.
pub open spec fn argument_deltas(events: Seq<EventView>) -> Seq<char>
    decreases events.len(),
{
    if events.len() == 0 {
        Seq::empty()
    } else {
        argument_deltas(events.drop_last()) + match events.last() {
            EventView::FunctionCallArgumentsDelta { delta, .. } => delta,
            _ => Seq::empty(),
        }
    }
}

/// The function calls that some events add, in order, each with its place.
pub open spec fn calls_added(events: Seq<EventView>) -> Seq<(int, ItemView)>
    decreases events.len(),
{
    if events.len() == 0 {
        Seq::empty()
    } else {
        match events.last() {
            EventView::OutputItemAdded { output_index, item } => if item is FunctionCall {
                calls_added(events.drop_last()).push((output_index as int, item))
            } else {
                calls_added(events.drop_last())
            },
            _ => calls_added(events.drop_last()),
        }
    }
}

proof fn lemma_added_join(a: Seq<EventView>, b: Seq<EventView>)
    ensures
        calls_added(a + b) == calls_added(a) + calls_added(b),
        argument_deltas(a + b) == argument_deltas(a) + argument_deltas(b),
    decreases b.len(),
{
    if b.len() == 0 {
        assert(a + b =~= a);
    } else {
        assert((a + b).drop_last() =~= a + b.drop_last());
        lemma_added_join(a, b.drop_last());
    }
    assert(calls_added(a + b) =~= calls_added(a) + calls_added(b));
    assert(argument_deltas(a + b) =~= argument_deltas(a) + argument_deltas(b));
}

/// The tool calls that some events begin, in order.
pub open spec fn calls_begun(events: Seq<StreamEvent>) -> Seq<(Seq<char>, Seq<char>)>
    decreases events.len(),
{
    if events.len() == 0 {
        Seq::empty()
    } else if begins_call(events.last()) {
        calls_begun(events.drop_last()).push(begun_as(events.last()))
    } else {
        calls_begun(events.drop_last())
    }
}

/// Every tool call is added once, in order, one place after the other, with its id and its
/// name and no arguments yet; and the argument deltas, joined, are the partial JSON received.
pub proof fn responses_calls_are_added(s: ResponsesState, events: Seq<StreamEvent>)
    requires
        s.output_index + events.len() <= usize::MAX,
    ensures
        ({
            let begun = calls_begun(events);
            let out = responses_outputs(s, events);
            &&& calls_added(out) == Seq::new(
                begun.len(),
                |i: int|
                    (
                        s.output_index + i,
                        ItemView::FunctionCall {
                            id: "fc_"@ + begun[i].0,
                            call_id: begun[i].0,
                            name: begun[i].1,
                            arguments: Seq::empty(),
                            status: "in_progress"@,
                        },
                    ),
            )
            &&& argument_deltas(out) == json_of_events(events)
            &&& begun.len() == begun_count(events)
        }),
    decreases events.len(),
{
    let begun = calls_begun(events);
    let out = responses_outputs(s, events);
    if events.len() > 0 {
        let rest = events.drop_last();
        let mid = responses_after(s, rest);
        let made = responses_emits(mid, events.last());
        responses_calls_are_added(s, rest);
        lemma_output_index(s, rest);
        lemma_added_join(responses_outputs(s, rest), made);
        reveal_with_fuel(calls_added, 3);
        reveal_with_fuel(argument_deltas, 3);
        if begins_call(events.last()) {
            assert(made.drop_last() =~= Seq::empty());
        }
        assert(argument_deltas(made) =~= json_of_event(events.last()));
    }
    assert(calls_added(out) =~= Seq::new(
        begun.len(),
        |i: int|
            (
                s.output_index + i,
                ItemView::FunctionCall {
                    id: "fc_"@ + begun[i].0,
                    call_id: begun[i].0,
                    name: begun[i].1,
                    arguments: Seq::empty(),
                    status: "in_progress"@,
                },
            ),
    ));
    assert(argument_deltas(out) =~= json_of_events(events));
}

/// The thinking of a list of events, joined.
pub open spec fn thinking_of(events: Seq<StreamEvent>) -> Seq<char>
    decreases events.len(),
{
    if events.len() == 0 {
        Seq::empty()
    } else {
        thinking_of(events.drop_last()) + match events.last() {
            StreamEvent::ContentBlockDelta { delta: ContentDelta::Thinking { thinking }, .. } => {
                thinking@
            },
            _ => Seq::empty(),
        }
    }
}

/// How many pieces of thinking there are in a list of events.
pub open spec fn thinking_pieces(events: Seq<StreamEvent>) -> nat
    decreases events.len(),
{
    if events.len() == 0 {
        0
    } else {
        thinking_pieces(events.drop_last()) + (if events.last() matches
            StreamEvent::ContentBlockDelta { delta: ContentDelta::Thinking { .. }, .. } {
            1nat
        } else {
            0
        })
    }
}

/// The tokens of the reply: what the last end of a message says.
pub open spec fn reply_tokens(events: Seq<StreamEvent>, before: u32) -> u32
    decreases events.len(),
{
    if events.len() == 0 {
        before
    } else {
        match events.last() {
            StreamEvent::MessageDelta { output_tokens, .. } => output_tokens,
            _ => reply_tokens(events.drop_last(), before),
        }
    }
}

/// The cached tokens: what the last beginning of a message says.
pub open spec fn cached_tokens(events: Seq<StreamEvent>, before: u32) -> u32
    decreases events.len(),
{
    if events.len() == 0 {
        before
    } else {
        match events.last() {
            StreamEvent::MessageStart { message } => match message.usage.cache_read_input_tokens {
                Some(n) => n,
                None => 0,
            },
            _ => cached_tokens(events.drop_last(), before),
        }
    }
}

/// The final reply holds what was said: all text as one message and all thinking as one
/// summary, each where there was some, under the ids of the stream.
pub proof fn responses_final_reply_is_whole(s: ResponsesState, events: Seq<StreamEvent>)
    requires
        s.text_content.len() == 0,
        s.reasoning_content.len() == 0,
    ensures
        responses_final(responses_after(s, events)).last() matches EventView::ResponseCompleted {
            response,
        } && ({
            &&& response.id == s.resp_id
            &&& response.model == s.model
            &&& response.status == "completed"@
            &&& forall|id: Seq<char>, role: Seq<char>, status: Seq<char>, content: Seq<Seq<char>>|
                response.output.contains(ItemView::Message { id, role, status, content }) <==> (
                text_of_events(events).len() > 0 && id == "msg_"@ + s.short_id && role
                    == "assistant"@ && status == "completed"@ && content == seq![
                    text_of_events(events),
                ])
            &&& forall|id: Seq<char>, status: Seq<char>, summary: Seq<Seq<char>>|
                response.output.contains(ItemView::Reasoning { id, status, summary }) <==> (
                thinking_of(events).len() > 0 && id == "rs_"@ + s.short_id && status
                    == "completed"@ && summary == seq![thinking_of(events)])
        }),
{
    lemma_said(s, events);
    responses_text_is_forwarded(s, events);
    let t = responses_after(s, events);
    let output = final_output(t);
    let n = t.tool_calls.len() as int;
    assert(t.text_content =~= text_of_events(events));
    assert(t.reasoning_content =~= thinking_of(events));
    assert forall|i: int| 0 <= i < n implies (#[trigger] output[i]) is FunctionCall by {}
    if t.text_content.len() > 0 {
        assert(output[output.len() - 1] == message_item(t, "completed"@, seq![t.text_content]));
    }
    if t.reasoning_content.len() > 0 {
        assert(output[n] is Reasoning);
    }
}

/// What is remembered of the thinking and of the tokens.
proof fn lemma_said(s: ResponsesState, events: Seq<StreamEvent>)
    ensures
        ({
            let t = responses_after(s, events);
            &&& t.resp_id == s.resp_id
            &&& t.short_id == s.short_id
            &&& t.model == s.model
            &&& t.reasoning_content == s.reasoning_content + thinking_of(events)
            &&& t.input_tokens == prompt_tokens(events, s.input_tokens)
            &&& t.output_tokens == reply_tokens(events, s.output_tokens)
            &&& t.cache_read_tokens == cached_tokens(events, s.cache_read_tokens)
            &&& s.reasoning_tokens + events.len() <= u32::MAX ==> t.reasoning_tokens
                == s.reasoning_tokens + thinking_pieces(events)
            &&& thinking_pieces(events) <= events.len()
        }),
    decreases events.len(),
{
    if events.len() > 0 {
        lemma_said(s, events.drop_last());
    }
    assert(responses_after(s, events).reasoning_content =~= s.reasoning_content + thinking_of(
        events,
    ));
}

/// The usage of the final reply is what the events said: the tokens of the prompt, those of
/// the reply, both together, and the cached ones and the pieces of thinking where there were
/// some.
pub proof fn responses_usage_is_counted(s: ResponsesState, events: Seq<StreamEvent>)
    requires
        s.reasoning_tokens + events.len() <= u32::MAX,
        prompt_tokens(events, s.input_tokens) + reply_tokens(events, s.output_tokens) <= u32::MAX,
    ensures
        responses_final(responses_after(s, events)).last() matches EventView::ResponseCompleted {
            response,
        } && response.usage matches Some(u) && ({
            let cached = cached_tokens(events, s.cache_read_tokens);
            let thought = s.reasoning_tokens + thinking_pieces(events);
            &&& u.input_tokens == prompt_tokens(events, s.input_tokens)
            &&& u.output_tokens == reply_tokens(events, s.output_tokens)
            &&& u.total_tokens == u.input_tokens + u.output_tokens
            &&& u.cached_tokens is Some <==> cached > 0
            &&& u.cached_tokens matches Some(n) ==> n == cached
            &&& u.reasoning_tokens is Some <==> thought > 0
            &&& u.reasoning_tokens matches Some(n) ==> n == thought
        }),
{
    lemma_said(s, events);
}

/// Whether some event begins a text.
pub open spec fn begins_text(events: Seq<StreamEvent>) -> bool {
    exists|i: int|
        0 <= i < events.len() && (#[trigger] events[i] matches StreamEvent::ContentBlockStart {
            content_block: ContentBlock::Text { .. },
            ..
        })
}

proof fn lemma_message_added(s: ResponsesState, events: Seq<StreamEvent>)
    ensures
        responses_after(s, events).message_added == (s.message_added || begins_text(events)),
    decreases events.len(),
{
    if events.len() > 0 {
        let rest = events.drop_last();
        lemma_message_added(s, rest);
        if begins_text(rest) {
            let i = choose|i: int|
                0 <= i < rest.len() && (#[trigger] rest[i] matches StreamEvent::ContentBlockStart {
                    content_block: ContentBlock::Text { .. },
                    ..
                });
            assert(events[i] == rest[i]);
        }
        if begins_text(events) {
            let i = choose|i: int|
                0 <= i < events.len() && (#[trigger] events[i] matches
                    StreamEvent::ContentBlockStart {
                    content_block: ContentBlock::Text { .. },
                    ..
                });
            assert(i < rest.len() ==> rest[i] == events[i]);
        }
        let last = events[events.len() - 1];
    }
}

/// Where a text was begun, the stream ends with the whole text: as a text, as a part and as an
/// item that are done.
pub proof fn responses_text_is_done(s: ResponsesState, events: Seq<StreamEvent>)
    requires
        s.text_content.len() == 0,
        begins_text(events),
    ensures
        ({
            let out = responses_final(responses_after(s, events));
            let text = text_of_events(events);
            &&& out.len() == 4
            &&& out[0] matches EventView::OutputTextDone { text: t, .. } && t == text
            &&& out[1] matches EventView::ContentPartDone { part, .. } && part == text
            &&& out[2] matches EventView::OutputItemDone { item, .. } && item matches
                ItemView::Message { content, .. } && content == seq![text]
            &&& out[3] is ResponseCompleted
        }),
{
    responses_text_is_forwarded(s, events);
    lemma_message_added(s, events);
    assert(responses_after(s, events).text_content =~= text_of_events(events));
}

/// The first message is announced at once, with the id and the model of the stream and without
/// output; the final reply has the same id and the same model.
pub proof fn responses_keep_their_id(
    s: ResponsesState,
    events: Seq<StreamEvent>,
    message: crate::messages::MessageStart,
)
    requires
        !s.sent_initial,
    ensures
        ({
            let out = responses_emits(s, StreamEvent::MessageStart { message });
            &&& out.len() == 1
            &&& out[0] matches EventView::ResponseCreated { response } && response.id == s.resp_id
                && response.model == s.model && response.output.len() == 0
                && response.usage is None && response.status == "in_progress"@
        }),
        responses_next(s, StreamEvent::MessageStart { message }).sent_initial,
        responses_final(responses_after(s, events)).last() matches EventView::ResponseCompleted {
            response,
        } && response.id == s.resp_id && response.model == s.model && response.status
            == "completed"@,
    decreases events.len(),
{
    if events.len() > 0 {
        responses_keep_their_id(s, events.drop_last(), message);
    }
}

/// The first text is announced before it comes: an item and a part of it, both empty, where the
/// text then goes; a second one is not announced.
pub proof fn responses_texts_are_announced(s: ResponsesState, index: usize, t: String, u: String)
    ensures
        ({
            let start = StreamEvent::ContentBlockStart {
                index,
                content_block: ContentBlock::Text { text: t },
            };
            let delta = StreamEvent::ContentBlockDelta {
                index,
                delta: ContentDelta::Text { text: u },
            };
            let next = responses_next(s, start);
            &&& !s.message_added ==> responses_emits(s, start).len() == 2 && (responses_emits(
                s,
                start,
            )[0] matches EventView::OutputItemAdded { output_index, item } && output_index
                == s.output_index && item == message_item(s, "in_progress"@, Seq::empty())) && (
            responses_emits(s, start)[1] matches EventView::ContentPartAdded {
                output_index,
                part,
                ..
            } && output_index == s.output_index && part.len() == 0)
            &&& s.message_added ==> responses_emits(s, start).len() == 0
            &&& next.message_added
            &&& responses_emits(next, delta) == seq![
                EventView::OutputTextDelta {
                    output_index: s.output_index,
                    content_index: 0,
                    delta: u@,
                },
            ]
        }),
{
}

/// The arguments of a call go where the call was announced, and so does its end.
pub proof fn responses_arguments_go_to_their_call(
    s: ResponsesState,
    start: StreamEvent,
    p: String,
    index: usize,
)
    requires
        s.output_index < usize::MAX,
        start matches StreamEvent::ContentBlockStart {
            content_block: ContentBlock::ToolUse { id, .. },
            ..
        } && id@.len() > 0,
    ensures
        ({
            let delta = StreamEvent::ContentBlockDelta {
                index,
                delta: ContentDelta::InputJson { partial_json: p },
            };
            let stop = StreamEvent::ContentBlockStop { index };
            let next = responses_next(s, start);
            let received = responses_next(next, delta);
            &&& responses_emits(s, start).len() == 1
            &&& responses_emits(s, start)[0] matches EventView::OutputItemAdded {
                output_index: place,
                item: ItemView::FunctionCall { call_id, name, arguments, .. },
            } && {
                &&& arguments.len() == 0
                &&& responses_emits(next, delta) == seq![
                    EventView::FunctionCallArgumentsDelta { output_index: place, delta: p@ },
                ]
                &&& responses_emits(received, stop).len() == 2
                &&& responses_emits(received, stop)[0]
                    == EventView::FunctionCallArgumentsDone { output_index: place, arguments: p@ }
                &&& responses_emits(received, stop)[1] matches EventView::OutputItemDone {
                    output_index,
                    item: ItemView::FunctionCall { call_id: c, name: n, arguments: a, .. },
                } && output_index == place && c == call_id && n == name && a == p@
            }
        }),
{
    let delta = StreamEvent::ContentBlockDelta {
        index,
        delta: ContentDelta::InputJson { partial_json: p },
    };
    let next = responses_next(s, start);
    assert(next.current.arguments + p@ =~= p@);
}

/// A stream begins with nothing said: ended at once it has no output and counts no tokens, under
/// the id of its request and its model, and nothing has been announced.
pub proof fn responses_begin_empty(request_id: Seq<char>, model: Seq<char>)
    ensures
        ({
            let s = responses_start(request_id, model);
            &&& !s.sent_initial && !s.message_added && s.output_index == 0
            &&& responses_final(s).len() == 1
            &&& responses_final(s)[0] matches EventView::ResponseCompleted { response }
                && response.id == "resp_"@ + request_id && response.model == model
                && response.output.len() == 0 && response.usage == Some(
                ResponseUsage {
                    input_tokens: 0,
                    output_tokens: 0,
                    total_tokens: 0,
                    cached_tokens: None,
                    reasoning_tokens: None,
                },
            )
        }),
{
    let s = responses_start(request_id, model);
    assert(s.tool_calls.len() == 0);
}

} // verus!
