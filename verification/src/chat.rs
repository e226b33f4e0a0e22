//! OpenAI's Chat Completions: the chunks of a streamed reply, and the machine that
//! makes them from the events of a Messages stream.

use vstd::prelude::*;

use crate::json::{Json, JsonView};
use crate::messages::{ContentBlock, ContentDelta, StreamEvent};

verus! {

/// The view of a string that may be missing.
pub open spec fn opt(s: Option<String>) -> Option<Seq<char>> {
    match s {
        Some(t) => Some(t@),
        None => None,
    }
}

/// The view of a JSON value that may be missing.
pub open spec fn opt_json(j: Option<Json>) -> Option<JsonView> {
    match j {
        Some(v) => Some(v@),
        None => None,
    }
}

/// The function of a tool call, or a piece of it.
#[derive(Debug, Clone, PartialEq)]
pub struct ChunkFunction {
    pub name: Option<String>,
    pub arguments: Option<String>,
}

/// A tool call, or a piece of one.
#[derive(Debug, Clone, PartialEq)]
pub struct ChunkToolCall {
    pub index: u32,
    pub id: Option<String>,
    pub call_type: Option<String>,
    pub function: Option<ChunkFunction>,
}

/// What a chunk adds to a choice.
#[derive(Debug, Clone, PartialEq)]
pub struct ChunkDelta {
    pub role: Option<String>,
    pub content: Option<String>,
    pub tool_calls: Option<Vec<ChunkToolCall>>,
}

/// One choice of a chunk.
#[derive(Debug, Clone, PartialEq)]
pub struct ChunkChoice {
    pub index: u32,
    pub delta: ChunkDelta,
    pub finish_reason: Option<String>,
    pub logprobs: Option<Json>,
}

/// The tokens a reply used.
#[derive(Debug, Clone, Copy, PartialEq, Eq, Structural)]
pub struct ChatUsage {
    pub prompt_tokens: u32,
    pub completion_tokens: u32,
    pub total_tokens: u32,
}

/// One chunk of a streamed reply.
#[derive(Debug, Clone, PartialEq)]
pub struct ChatCompletionChunk {
    pub id: String,
    pub object: String,
    pub created: i64,
    pub model: String,
    pub choices: Vec<ChunkChoice>,
    pub usage: Option<ChatUsage>,
    pub system_fingerprint: Option<String>,
}

/// What a `ChunkToolCall` says. The function is its name and arguments.
pub struct ToolCallView {
    pub index: u32,
    pub id: Option<Seq<char>>,
    pub call_type: Option<Seq<char>>,
    pub function: Option<(Option<Seq<char>>, Option<Seq<char>>)>,
}

impl ChunkToolCall {
    /// What this call says.
    pub open spec fn view(&self) -> ToolCallView {
        ToolCallView {
            index: self.index,
            id: opt(self.id),
            call_type: opt(self.call_type),
            function: match self.function {
                Some(f) => Some((opt(f.name), opt(f.arguments))),
                None => None,
            },
        }
    }
}

/// What a `ChunkChoice` says.
#[verifier::ext_equal]
pub struct ChoiceView {
    pub index: u32,
    pub role: Option<Seq<char>>,
    pub content: Option<Seq<char>>,
    pub tool_calls: Option<Seq<ToolCallView>>,
    pub finish_reason: Option<Seq<char>>,
    pub logprobs: Option<JsonView>,
}

impl ChunkChoice {
    /// What this choice says.
    pub open spec fn view(&self) -> ChoiceView {
        ChoiceView {
            index: self.index,
            role: opt(self.delta.role),
            content: opt(self.delta.content),
            tool_calls: match self.delta.tool_calls {
                Some(calls) => Some(Seq::new(calls@.len(), |i: int| calls@[i]@)),
                None => None,
            },
            finish_reason: opt(self.finish_reason),
            logprobs: opt_json(self.logprobs),
        }
    }
}

/// What a `ChatCompletionChunk` says.
#[verifier::ext_equal]
pub struct ChunkView {
    pub id: Seq<char>,
    pub object: Seq<char>,
    pub created: i64,
    pub model: Seq<char>,
    pub choices: Seq<ChoiceView>,
    pub usage: Option<ChatUsage>,
    pub system_fingerprint: Option<Seq<char>>,
}

impl ChatCompletionChunk {
    /// What this chunk says.
    pub open spec fn view(&self) -> ChunkView {
        ChunkView {
            id: self.id@,
            object: self.object@,
            created: self.created,
            model: self.model@,
            choices: Seq::new(self.choices@.len(), |i: int| self.choices@[i]@),
            usage: self.usage,
            system_fingerprint: opt(self.system_fingerprint),
        }
    }
}

/// What the machine remembers between two events.
#[derive(Debug, Clone, Copy, PartialEq, Eq, Structural)]
pub struct ChatState {
    pub input_tokens: u32,
    pub output_tokens: u32,
    pub sent_role: bool,
    /// How many tool calls are finished: the index of the next one.
    pub tool_call_index: u32,
    /// Whether a tool call has begun and is not finished.
    pub in_tool_call: bool,
}

/// Makes the chunks of one streamed reply.
#[derive(Debug, Clone, PartialEq)]
pub struct ChatStream {
    pub chunk_id: String,
    pub created: i64,
    pub model: String,
    pub state: ChatState,
}

/// A choice with nothing in it.
pub open spec fn blank_choice() -> ChoiceView {
    ChoiceView {
        index: 0,
        role: None,
        content: None,
        tool_calls: None,
        finish_reason: None,
        logprobs: None,
    }
}

/// The role, where it has not been sent yet.
pub open spec fn role_if_unsent(s: ChatState) -> Option<Seq<char>> {
    if s.sent_role {
        None
    } else {
        Some("assistant"@)
    }
}

/// The choice, and the usage beside it, that an event makes in state `s`; `None` where
/// it makes no chunk.
pub open spec fn chat_emits(s: ChatState, event: StreamEvent) -> Option<
    (ChoiceView, Option<ChatUsage>),
> {
    match event {
        StreamEvent::MessageStart { message } => Some(
            (ChoiceView { role: Some("assistant"@), ..blank_choice() }, None),
        ),
        StreamEvent::ContentBlockStart {
            content_block: ContentBlock::ToolUse { id, name, .. },
            ..
        } => Some(
            (
                ChoiceView {
                    role: role_if_unsent(s),
                    tool_calls: Some(
                        seq![
                            ToolCallView {
                                index: s.tool_call_index,
                                id: Some(id@),
                                call_type: Some("function"@),
                                function: Some((Some(name@), None)),
                            },
                        ],
                    ),
                    ..blank_choice()
                },
                None,
            ),
        ),
        StreamEvent::ContentBlockDelta { delta: ContentDelta::Text { text }, .. } => Some(
            (ChoiceView { role: role_if_unsent(s), content: Some(text@), ..blank_choice() }, None),
        ),
        StreamEvent::ContentBlockDelta { delta: ContentDelta::Thinking { thinking }, .. } => Some(
            (ChoiceView { content: Some(thinking@), ..blank_choice() }, None),
        ),
        StreamEvent::ContentBlockDelta {
            delta: ContentDelta::InputJson { partial_json },
            ..
        } => Some(
            (
                ChoiceView {
                    tool_calls: Some(
                        seq![
                            ToolCallView {
                                index: s.tool_call_index,
                                id: None,
                                call_type: None,
                                function: Some((None, Some(partial_json@))),
                            },
                        ],
                    ),
                    ..blank_choice()
                },
                None,
            ),
        ),
        StreamEvent::MessageDelta { stop_reason, output_tokens } => Some(
            (
                ChoiceView {
                    finish_reason: match stop_reason {
                        Some(r) => Some(r.openai()),
                        None => None,
                    },
                    ..blank_choice()
                },
                Some(
                    ChatUsage {
                        prompt_tokens: s.input_tokens,
                        completion_tokens: output_tokens,
                        total_tokens: (s.input_tokens + output_tokens) as u32,
                    },
                ),
            ),
        ),
        _ => None,
    }
}

/// The state after an event.
pub open spec fn chat_next(s: ChatState, event: StreamEvent) -> ChatState {
    match event {
        StreamEvent::MessageStart { message } => ChatState {
            input_tokens: message.usage.input_tokens,
            sent_role: true,
            ..s
        },
        StreamEvent::ContentBlockStart {
            content_block: ContentBlock::ToolUse { .. },
            ..
        } => ChatState { sent_role: true, in_tool_call: true, ..s },
        StreamEvent::ContentBlockDelta { delta: ContentDelta::Text { .. }, .. } => ChatState {
            sent_role: true,
            ..s
        },
        StreamEvent::ContentBlockStop { .. } if s.in_tool_call => ChatState {
            tool_call_index: (s.tool_call_index + 1) as u32,
            in_tool_call: false,
            ..s
        },
        StreamEvent::MessageDelta { output_tokens, .. } => ChatState { output_tokens, ..s },
        _ => s,
    }
}

/// Whether the counters can take an event: the sum of the tokens and the index of the
/// next tool call fit in a `u32`.
pub open spec fn chat_takes(s: ChatState, event: StreamEvent) -> bool {
    match event {
        StreamEvent::ContentBlockStop { .. } => s.in_tool_call ==> s.tool_call_index < u32::MAX,
        StreamEvent::MessageDelta { output_tokens, .. } => s.input_tokens + output_tokens
            <= u32::MAX,
        _ => true,
    }
}

impl ChatStream {
    /// The whole chunk around a choice.
    pub open spec fn chunk(&self, body: (ChoiceView, Option<ChatUsage>)) -> ChunkView {
        ChunkView {
            id: self.chunk_id@,
            object: "chat.completion.chunk"@,
            created: self.created,
            model: self.model@,
            choices: seq![body.0],
            usage: body.1,
            system_fingerprint: None,
        }
    }

    /// A machine that has seen nothing yet.
    pub fn new(request_id: &str, created: i64, model: &str) -> (r: ChatStream)
        ensures
            r.chunk_id@ == "chatcmpl-"@ + request_id@,
            r.created == created,
            r.model@ == model@,
            r.state == (ChatState {
                input_tokens: 0,
                output_tokens: 0,
                sent_role: false,
                tool_call_index: 0,
                in_tool_call: false,
            }),
    {
        let mut chunk_id = "chatcmpl-".to_owned();
        chunk_id.push_str(request_id);
        ChatStream {
            chunk_id,
            created,
            model: model.to_owned(),
            state: ChatState {
                input_tokens: 0,
                output_tokens: 0,
                sent_role: false,
                tool_call_index: 0,
                in_tool_call: false,
            },
        }
    }

    /// The chunk around one choice.
    fn make(&self, delta: ChunkDelta, finish_reason: Option<String>, usage: Option<ChatUsage>) -> (r:
        ChatCompletionChunk)
        ensures
            r@ == self.chunk(
                (
                    (ChunkChoice { index: 0, delta, finish_reason, logprobs: None })@,
                    usage,
                ),
            ),
    {
        let mut choices: Vec<ChunkChoice> = Vec::new();
        choices.push(ChunkChoice { index: 0, delta, finish_reason, logprobs: None });
        let r = ChatCompletionChunk {
            id: self.chunk_id.clone(),
            object: "chat.completion.chunk".to_owned(),
            created: self.created,
            model: self.model.clone(),
            choices,
            usage,
            system_fingerprint: None,
        };
        assert(r@.choices =~= seq![choices@[0]@]);
        r
    }

    /// The role, where it has not been sent yet.
    fn role(&self) -> (r: Option<String>)
        ensures
            opt(r) == role_if_unsent(self.state),
    {
        if self.state.sent_role {
            None
        } else {
            Some("assistant".to_owned())
        }
    }

    /// Takes one event: hands out the chunk it makes, if any, and moves to the next state.
    pub fn process_event(&mut self, event: &StreamEvent) -> (r: Option<ChatCompletionChunk>)
        requires
            chat_takes(old(self).state, *event),
        ensures
            final(self).state == chat_next(old(self).state, *event),
            final(self).chunk_id == old(self).chunk_id,
            final(self).created == old(self).created,
            final(self).model == old(self).model,
            match r {
                Some(c) => chat_emits(old(self).state, *event) matches Some(body) && c@ == old(self).chunk(body),
                None => chat_emits(old(self).state, *event) is None,
            },
    {
        match event {
            StreamEvent::MessageStart { message } => {
                let c = self.make(
                    ChunkDelta {
                        role: Some("assistant".to_owned()),
                        content: None,
                        tool_calls: None,
                    },
                    None,
                    None,
                );
                self.state.input_tokens = message.usage.input_tokens;
                self.state.sent_role = true;
                Some(c)
            },
            StreamEvent::ContentBlockStart {
                content_block: ContentBlock::ToolUse { id, name, .. },
                ..
            } => {
                let mut calls: Vec<ChunkToolCall> = Vec::new();
                calls.push(
                    ChunkToolCall {
                        index: self.state.tool_call_index,
                        id: Some(id.clone()),
                        call_type: Some("function".to_owned()),
                        function: Some(
                            ChunkFunction { name: Some(name.clone()), arguments: None },
                        ),
                    },
                );
                let ghost call = calls@[0]@;
                let c = self.make(
                    ChunkDelta { role: self.role(), content: None, tool_calls: Some(calls) },
                    None,
                    None,
                );
                assert(c@.choices[0].tool_calls =~= Some(seq![call]));
                self.state.sent_role = true;
                self.state.in_tool_call = true;
                Some(c)
            },
            StreamEvent::ContentBlockDelta { delta, .. } => match delta {
                ContentDelta::Text { text } => {
                    let c = self.make(
                        ChunkDelta {
                            role: self.role(),
                            content: Some(text.clone()),
                            tool_calls: None,
                        },
                        None,
                        None,
                    );
                    self.state.sent_role = true;
                    Some(c)
                },
                ContentDelta::Thinking { thinking } => {
                    let c = self.make(
                        ChunkDelta {
                            role: None,
                            content: Some(thinking.clone()),
                            tool_calls: None,
                        },
                        None,
                        None,
                    );
                    Some(c)
                },
                ContentDelta::InputJson { partial_json } => {
                    let mut calls: Vec<ChunkToolCall> = Vec::new();
                    calls.push(
                        ChunkToolCall {
                            index: self.state.tool_call_index,
                            id: None,
                            call_type: None,
                            function: Some(
                                ChunkFunction { name: None, arguments: Some(partial_json.clone()) },
                            ),
                        },
                    );
                    let ghost call = calls@[0]@;
                    let c = self.make(
                        ChunkDelta { role: None, content: None, tool_calls: Some(calls) },
                        None,
                        None,
                    );
                    assert(c@.choices[0].tool_calls =~= Some(seq![call]));
                    Some(c)
                },
                _ => None,
            },
            StreamEvent::ContentBlockStop { .. } => {
                if self.state.in_tool_call {
                    self.state.tool_call_index = self.state.tool_call_index + 1;
                    self.state.in_tool_call = false;
                }
                None
            },
            StreamEvent::MessageDelta { stop_reason, output_tokens } => {
                self.state.output_tokens = *output_tokens;
                let finish = match stop_reason {
                    Some(r) => Some(r.to_openai_str().to_owned()),
                    None => None,
                };
                let c = self.make(
                    ChunkDelta { role: None, content: None, tool_calls: None },
                    finish,
                    Some(
                        ChatUsage {
                            prompt_tokens: self.state.input_tokens,
                            completion_tokens: self.state.output_tokens,
                            total_tokens: self.state.input_tokens + self.state.output_tokens,
                        },
                    ),
                );
                Some(c)
            },
            _ => None,
        }
    }
}


/// The state after a sequence of events.
pub open spec fn chat_after(s: ChatState, events: Seq<StreamEvent>) -> ChatState
    decreases events.len(),
{
    if events.len() == 0 {
        s
    } else {
        chat_next(chat_after(s, events.drop_last()), events.last())
    }
}

/// The choices that a sequence of events makes, in order.
pub open spec fn chat_choices(s: ChatState, events: Seq<StreamEvent>) -> Seq<ChoiceView>
    decreases events.len(),
{
    if events.len() == 0 {
        Seq::empty()
    } else {
        let before = chat_choices(s, events.drop_last());
        match chat_emits(chat_after(s, events.drop_last()), events.last()) {
            Some(body) => before.push(body.0),
            None => before,
        }
    }
}

/// The contents of a list of choices, joined.
pub open spec fn joined_contents(choices: Seq<ChoiceView>) -> Seq<char>
    decreases choices.len(),
{
    if choices.len() == 0 {
        Seq::empty()
    } else {
        joined_contents(choices.drop_last()) + match choices.last().content {
            Some(c) => c,
            None => Seq::empty(),
        }
    }
}

/// The text and thinking of a list of events, joined.
pub open spec fn joined_text(events: Seq<StreamEvent>) -> Seq<char>
    decreases events.len(),
{
    if events.len() == 0 {
        Seq::empty()
    } else {
        joined_text(events.drop_last()) + match events.last() {
            StreamEvent::ContentBlockDelta { delta: ContentDelta::Text { text }, .. } => text@,
            StreamEvent::ContentBlockDelta { delta: ContentDelta::Thinking { thinking }, .. } => {
                thinking@
            },
            _ => Seq::empty(),
        }
    }
}

/// No text is lost, added or reordered: what the chunks carry, joined, is what the
/// events carried, joined.
pub proof fn chat_text_is_forwarded(s: ChatState, events: Seq<StreamEvent>)
    ensures
        joined_contents(chat_choices(s, events)) == joined_text(events),
    decreases events.len(),
{
    if events.len() > 0 {
        chat_text_is_forwarded(s, events.drop_last());
        let before = chat_choices(s, events.drop_last());
        match chat_emits(chat_after(s, events.drop_last()), events.last()) {
            Some(body) => {
                assert(before.push(body.0).drop_last() =~= before);
            },
            None => {
                assert(joined_text(events) =~= joined_text(events.drop_last()));
            },
        }
        assert(joined_contents(chat_choices(s, events)) =~= joined_text(events));
    }
}

/// Whether an event begins a tool call.
pub open spec fn begins_call(event: StreamEvent) -> bool {
    event matches StreamEvent::ContentBlockStart { content_block, .. } && content_block is ToolUse
}

/// How many tool calls some events finish, `open` where one has begun before them: a call
/// ends with the first end of a block after its beginning.
pub open spec fn calls_finished(open: bool, events: Seq<StreamEvent>) -> (nat, bool)
    decreases events.len(),
{
    if events.len() == 0 {
        (0, open)
    } else {
        let (n, in_call) = calls_finished(open, events.drop_last());
        if begins_call(events.last()) {
            (n, true)
        } else if events.last() is ContentBlockStop && in_call {
            (n + 1, false)
        } else {
            (n, in_call)
        }
    }
}

/// Tool calls are numbered one after the other, and nothing but a tool call moves the
/// number: the index grows by the tool calls that the events finish.
pub proof fn chat_indices_count_calls(s: ChatState, events: Seq<StreamEvent>)
    requires
        s.tool_call_index + events.len() <= u32::MAX,
    ensures
        chat_after(s, events).tool_call_index == s.tool_call_index + calls_finished(
            s.in_tool_call,
            events,
        ).0,
        chat_after(s, events).in_tool_call == calls_finished(s.in_tool_call, events).1,
        calls_finished(s.in_tool_call, events).0 <= events.len(),
    decreases events.len(),
{
    if events.len() > 0 {
        chat_indices_count_calls(s, events.drop_last());
    }
}

/// Once the role has been sent, it is not sent again before the next message begins.
pub proof fn chat_role_is_sent_once(s: ChatState, events: Seq<StreamEvent>)
    requires
        s.sent_role,
        forall|i: int| 0 <= i < events.len() ==> !(#[trigger] events[i] is MessageStart),
    ensures
        chat_after(s, events).sent_role,
        forall|i: int|
            0 <= i < chat_choices(s, events).len() ==> (#[trigger] chat_choices(
                s,
                events,
            )[i]).role is None,
    decreases events.len(),
{
    if events.len() > 0 {
        let rest = events.drop_last();
        assert forall|i: int| 0 <= i < rest.len() implies !(#[trigger] rest[i] is MessageStart) by {
            assert(rest[i] == events[i]);
        }
        assert(!(events[events.len() - 1] is MessageStart));
        chat_role_is_sent_once(s, rest);
    }
}

/// The partial JSON that an event carries.
pub open spec fn json_of_event(event: StreamEvent) -> Seq<char> {
    match event {
        StreamEvent::ContentBlockDelta {
            delta: ContentDelta::InputJson { partial_json },
            ..
        } => partial_json@,
        _ => Seq::empty(),
    }
}

/// The partial JSON that some events carry while `k` of their tool calls are finished, joined.
pub open spec fn call_json(open: bool, events: Seq<StreamEvent>, k: nat) -> Seq<char>
    decreases events.len(),
{
    if events.len() == 0 {
        Seq::empty()
    } else {
        let rest = events.drop_last();
        call_json(open, rest, k) + (if calls_finished(open, rest).0 == k {
            json_of_event(events.last())
        } else {
            Seq::empty()
        })
    }
}

/// The argument texts among some pieces of tool calls that belong to the call of an index,
/// joined.
pub open spec fn arguments_in(pieces: Seq<ToolCallView>, index: int) -> Seq<char>
    decreases pieces.len(),
{
    if pieces.len() == 0 {
        Seq::empty()
    } else {
        arguments_in(pieces.drop_last(), index) + (match pieces.last().function {
            Some((_, Some(arguments))) => if pieces.last().index == index {
                arguments
            } else {
                Seq::empty()
            },
            _ => Seq::empty(),
        })
    }
}

/// The arguments that a client puts together for the call of an index.
pub open spec fn joined_arguments(choices: Seq<ChoiceView>, index: int) -> Seq<char>
    decreases choices.len(),
{
    if choices.len() == 0 {
        Seq::empty()
    } else {
        joined_arguments(choices.drop_last(), index) + (match choices.last().tool_calls {
            Some(pieces) => arguments_in(pieces, index),
            None => Seq::empty(),
        })
    }
}

/// No argument text is lost, added, reordered or given to another call: what a client puts
/// together for a call is the partial JSON that came while as many calls were finished as the
/// call's index says.
pub proof fn chat_arguments_are_forwarded(s: ChatState, events: Seq<StreamEvent>, k: nat)
    requires
        s.tool_call_index + events.len() <= u32::MAX,
    ensures
        joined_arguments(chat_choices(s, events), s.tool_call_index + k) == call_json(
            s.in_tool_call,
            events,
            k,
        ),
    decreases events.len(),
{
    if events.len() > 0 {
        let rest = events.drop_last();
        chat_arguments_are_forwarded(s, rest, k);
        chat_indices_count_calls(s, rest);
        let before = chat_choices(s, rest);
        let index = s.tool_call_index + k;
        match chat_emits(chat_after(s, rest), events.last()) {
            Some(body) => {
                assert(before.push(body.0).drop_last() =~= before);
                match body.0.tool_calls {
                    Some(pieces) => {
                        assert(pieces.drop_last() =~= Seq::empty());
                        assert(arguments_in(pieces.drop_last(), index) =~= Seq::empty());
                    },
                    None => {},
                }
            },
            None => {},
        }
        assert(joined_arguments(chat_choices(s, events), index) =~= call_json(
            s.in_tool_call,
            events,
            k,
        ));
    }
}

/// A call as it is announced: its index, its id and the name of its function.
pub open spec fn announced_in(pieces: Seq<ToolCallView>) -> Seq<(int, Seq<char>, Seq<char>)>
    decreases pieces.len(),
{
    if pieces.len() == 0 {
        Seq::empty()
    } else {
        let before = announced_in(pieces.drop_last());
        match (pieces.last().id, pieces.last().call_type, pieces.last().function) {
            (Some(id), Some(kind), Some((Some(name), _))) => if kind == "function"@ {
                before.push((pieces.last().index as int, id, name))
            } else {
                before
            },
            _ => before,
        }
    }
}

/// The calls that the choices announce, in order.
pub open spec fn announced(choices: Seq<ChoiceView>) -> Seq<(int, Seq<char>, Seq<char>)>
    decreases choices.len(),
{
    if choices.len() == 0 {
        Seq::empty()
    } else {
        announced(choices.drop_last()) + (match choices.last().tool_calls {
            Some(pieces) => announced_in(pieces),
            None => Seq::empty(),
        })
    }
}

/// The tool calls that some events begin, in order, each with how many were finished before.
pub open spec fn begun(open: bool, events: Seq<StreamEvent>, first: int) -> Seq<
    (int, Seq<char>, Seq<char>),
>
    decreases events.len(),
{
    if events.len() == 0 {
        Seq::empty()
    } else {
        let rest = events.drop_last();
        match events.last() {
            StreamEvent::ContentBlockStart {
                content_block: ContentBlock::ToolUse { id, name, .. },
                ..
            } => begun(open, rest, first).push(
                (first + calls_finished(open, rest).0, id@, name@),
            ),
            _ => begun(open, rest, first),
        }
    }
}

/// Every tool call is announced once, in order, under its index, with its id and its name.
pub proof fn chat_calls_are_announced(s: ChatState, events: Seq<StreamEvent>)
    requires
        s.tool_call_index + events.len() <= u32::MAX,
    ensures
        announced(chat_choices(s, events)) == begun(
            s.in_tool_call,
            events,
            s.tool_call_index as int,
        ),
    decreases events.len(),
{
    if events.len() > 0 {
        let rest = events.drop_last();
        chat_calls_are_announced(s, rest);
        chat_indices_count_calls(s, rest);
        let before = chat_choices(s, rest);
        match chat_emits(chat_after(s, rest), events.last()) {
            Some(body) => {
                assert(before.push(body.0).drop_last() =~= before);
                match body.0.tool_calls {
                    Some(pieces) => {
                        assert(pieces.drop_last() =~= Seq::empty());
                        assert(announced_in(pieces.drop_last()) =~= Seq::empty());
                    },
                    None => {},
                }
            },
            None => {},
        }
        assert(announced(chat_choices(s, events)) =~= begun(
            s.in_tool_call,
            events,
            s.tool_call_index as int,
        ));
    }
}

/// The finish reasons that the choices give, in order.
pub open spec fn finish_reasons(choices: Seq<ChoiceView>) -> Seq<Seq<char>>
    decreases choices.len(),
{
    if choices.len() == 0 {
        Seq::empty()
    } else {
        match choices.last().finish_reason {
            Some(r) => finish_reasons(choices.drop_last()).push(r),
            None => finish_reasons(choices.drop_last()),
        }
    }
}

/// The reasons for which the events end their messages, in order.
pub open spec fn stop_reasons(events: Seq<StreamEvent>) -> Seq<crate::messages::StopReason>
    decreases events.len(),
{
    if events.len() == 0 {
        Seq::empty()
    } else {
        match events.last() {
            StreamEvent::MessageDelta { stop_reason: Some(r), .. } => stop_reasons(
                events.drop_last(),
            ).push(r),
            _ => stop_reasons(events.drop_last()),
        }
    }
}

/// Every reason for which a message ends is passed on, in order and in OpenAI's words: a use
/// of tools as `tool_calls`, too many tokens as `length`, any other end as `stop`.
pub proof fn chat_finish_reasons_are_forwarded(s: ChatState, events: Seq<StreamEvent>)
    ensures
        finish_reasons(chat_choices(s, events)).len() == stop_reasons(events).len(),
        forall|i: int|
            #![trigger finish_reasons(chat_choices(s, events))[i]]
            0 <= i < stop_reasons(events).len() ==> finish_reasons(chat_choices(s, events))[i] == (
            if stop_reasons(events)[i] is ToolUse {
                "tool_calls"@
            } else if stop_reasons(events)[i] is MaxTokens {
                "length"@
            } else {
                "stop"@
            }),
    decreases events.len(),
{
    if events.len() > 0 {
        let rest = events.drop_last();
        chat_finish_reasons_are_forwarded(s, rest);
        let before = chat_choices(s, rest);
        match chat_emits(chat_after(s, rest), events.last()) {
            Some(body) => {
                assert(before.push(body.0).drop_last() =~= before);
            },
            None => {},
        }
        let n = stop_reasons(rest).len();
        assert forall|i: int|
            #![trigger finish_reasons(chat_choices(s, events))[i]]
            0 <= i < stop_reasons(events).len() implies finish_reasons(chat_choices(s, events))[i]
            == (if stop_reasons(events)[i] is ToolUse {
            "tool_calls"@
        } else if stop_reasons(events)[i] is MaxTokens {
            "length"@
        } else {
            "stop"@
        }) by {
            if i < n {
                let earlier = finish_reasons(before)[i];
            }
        }
    }
}

/// The tokens of the prompt: what the last beginning of a message says, `before` where no
/// event begins one.
pub open spec fn prompt_tokens(events: Seq<StreamEvent>, before: u32) -> u32
    decreases events.len(),
{
    if events.len() == 0 {
        before
    } else {
        match events.last() {
            StreamEvent::MessageStart { message } => message.usage.input_tokens,
            _ => prompt_tokens(events.drop_last(), before),
        }
    }
}

/// The usage that ends a message: the tokens of the prompt as its beginning gave them, those
/// of the reply, and both together. Nothing else carries a usage.
pub proof fn chat_usage_is_counted(s: ChatState, events: Seq<StreamEvent>, last: StreamEvent)
    requires
        chat_takes(chat_after(s, events), last),
    ensures
        match chat_emits(chat_after(s, events), last) {
            Some((_, Some(u))) => last matches StreamEvent::MessageDelta { output_tokens, .. }
                && u.prompt_tokens == prompt_tokens(events, s.input_tokens) && u.completion_tokens
                == output_tokens && u.total_tokens == u.prompt_tokens + u.completion_tokens,
            _ => !(last is MessageDelta),
        },
    decreases events.len(),
{
    lemma_prompt_tokens(s, events);
}

/// The machine remembers the tokens of the prompt.
proof fn lemma_prompt_tokens(s: ChatState, events: Seq<StreamEvent>)
    ensures
        chat_after(s, events).input_tokens == prompt_tokens(events, s.input_tokens),
    decreases events.len(),
{
    if events.len() > 0 {
        lemma_prompt_tokens(s, events.drop_last());
    }
}

/// Whether an event is one whose chunk can tell the client who speaks.
pub open spec fn speaks(event: StreamEvent) -> bool {
    ||| event is MessageStart
    ||| begins_call(event)
    ||| event matches StreamEvent::ContentBlockDelta { delta: ContentDelta::Text { .. }, .. }
}

/// The client is told who speaks: where an event can say so, some choice does.
pub proof fn chat_role_is_sent(s: ChatState, events: Seq<StreamEvent>, i: int)
    requires
        !s.sent_role,
        0 <= i < events.len(),
        speaks(events[i]),
    ensures
        exists|j: int|
            0 <= j < chat_choices(s, events).len() && (#[trigger] chat_choices(s, events)[j]).role
                == Some("assistant"@),
    decreases events.len(),
{
    let rest = events.drop_last();
    let before = chat_choices(s, rest);
    let all = chat_choices(s, events);
    if i < rest.len() {
        assert(rest[i] == events[i]);
        chat_role_is_sent(s, rest, i);
        let j = choose|j: int| 0 <= j < before.len() && (#[trigger] before[j]).role == Some(
            "assistant"@,
        );
        assert(all[j] == before[j]);
    } else {
        lemma_role_unsent(s, rest);
        if chat_after(s, rest).sent_role {
            let j = choose|j: int| 0 <= j < before.len() && (#[trigger] before[j]).role == Some(
                "assistant"@,
            );
            assert(all[j] == before[j]);
        } else {
            assert(all[all.len() - 1].role == Some("assistant"@));
        }
    }
}

/// Where the machine counts the role as sent, some choice carries it.
proof fn lemma_role_unsent(s: ChatState, events: Seq<StreamEvent>)
    requires
        !s.sent_role,
    ensures
        chat_after(s, events).sent_role ==> exists|j: int|
            0 <= j < chat_choices(s, events).len() && (#[trigger] chat_choices(s, events)[j]).role
                == Some("assistant"@),
    decreases events.len(),
{
    if events.len() > 0 {
        let rest = events.drop_last();
        lemma_role_unsent(s, rest);
        let before = chat_choices(s, rest);
        let all = chat_choices(s, events);
        if chat_after(s, events).sent_role {
            if chat_after(s, rest).sent_role {
                let j = choose|j: int|
                    0 <= j < before.len() && (#[trigger] before[j]).role == Some("assistant"@);
                assert(all[j] == before[j]);
            } else {
                assert(all[all.len() - 1].role == Some("assistant"@));
            }
        }
    }
}

/// A chunk says which stream it belongs to and carries one choice and its usage, whole.
pub proof fn chat_chunks_name_their_stream(
    c: ChatStream,
    body: (ChoiceView, Option<ChatUsage>),
)
    ensures
        c.chunk(body).id == c.chunk_id@,
        c.chunk(body).model == c.model@,
        c.chunk(body).created == c.created,
        c.chunk(body).object == "chat.completion.chunk"@,
        c.chunk(body).choices.len() == 1,
        c.chunk(body).choices[0] == body.0,
        c.chunk(body).usage == body.1,
{
}

} // verus!
