//! OpenAI's legacy completions on top of chat completions.

use vstd::prelude::*;

use crate::chat::{opt, opt_json, ChatCompletionChunk, ChatUsage};
use crate::images::{bad_request, bad_request_reply};
use crate::json::{entry, parse_json, parsed_json, Json, JsonView};
use crate::reply::Reply;
use crate::text::{
    join, join_texts, trim, trimmed, views,
};

verus! {

/// The prompt of a legacy completion: one text, or several.
#[derive(Debug, Clone, PartialEq)]
pub enum LegacyPrompt {
    Single(String),
    Multiple(Vec<String>),
}

impl LegacyPrompt {
    /// The prompt as one text: several are joined by ends of line.
    pub open spec fn text(self) -> Seq<char> {
        match self {
            LegacyPrompt::Single(t) => t@,
            LegacyPrompt::Multiple(parts) => join(views(parts@), "\n"@),
        }
    }

    /// The prompt as one text.
    pub fn into_text(self) -> (r: String)
        ensures
            r@ == self.text(),
    {
        match self {
            LegacyPrompt::Single(t) => t,
            LegacyPrompt::Multiple(parts) => join_texts(&parts, "\n"),
        }
    }
}

/// A request for a legacy completion, as far as it is read here.
#[derive(Debug, Clone, PartialEq)]
pub struct LegacyCompletionRequest {
    pub model: String,
    pub prompt: LegacyPrompt,
    pub max_tokens: Option<u32>,
    pub max_completion_tokens: Option<u32>,
    pub stream: bool,
    pub n: Option<u32>,
    pub user: Option<String>,
}

/// One message of a chat.
#[derive(Debug, Clone, PartialEq)]
pub struct ChatMessage {
    pub role: String,
    pub content: String,
}

/// A request for a chat completion, as far as it is made here.
#[derive(Debug, Clone, PartialEq)]
pub struct ChatCompletionRequest {
    pub model: String,
    pub messages: Vec<ChatMessage>,
    pub max_tokens: Option<u32>,
    pub max_completion_tokens: Option<u32>,
    pub stream: bool,
    pub n: Option<u32>,
    pub user: Option<String>,
}

/// Whether a body sent to the legacy endpoint is that of a chat: it has messages.
pub fn is_chat_payload(body: &Json) -> (r: bool)
    ensures
        r == (entry(body@, "messages"@) is Some),
{
    body.get("messages").is_some()
}

/// Whether the body of a request to the legacy endpoint is that of a chat; `None` where it is
/// no JSON.
pub fn completions_is_chat(body: &str) -> (r: Option<bool>)
    ensures
        r == (match parsed_json(body@) {
            Some(v) => Some(entry(v, "messages"@) is Some),
            None => None,
        }),
{
    match parse_json(body) {
        Some(v) => Some(is_chat_payload(&v)),
        None => None,
    }
}

/// The reply to a request that asks for more than one choice; `None` where it does not.
pub fn check_one_choice(n: Option<u32>) -> (r: Option<Reply>)
    ensures
        match r {
            Some(reply) => n matches Some(k) && k > 1 && reply@ == bad_request(
                "n > 1 is not supported"@,
            ),
            None => n matches Some(k) ==> k <= 1,
        },
{
    match n {
        Some(k) => {
            if k > 1 {
                Some(bad_request_reply("n > 1 is not supported"))
            } else {
                None
            }
        },
        None => None,
    }
}

/// The first thing that is wrong with a request for a legacy completion.
pub open spec fn legacy_fault(q: LegacyCompletionRequest) -> Option<Seq<char>> {
    if q.n is Some && q.n->0 > 1 {
        Some("n > 1 is not supported"@)
    } else if trimmed(q.prompt.text()).len() == 0 {
        Some("prompt cannot be empty"@)
    } else {
        None
    }
}

/// The chat that stands for a legacy completion: one message of the user, the prompt. The
/// reply where the request is not in order.
pub fn legacy_to_chat(q: LegacyCompletionRequest) -> (r: Result<ChatCompletionRequest, Reply>)
    ensures
        match r {
            Ok(c) => legacy_fault(q) is None && c.model@ == q.model@ && c.messages@.len() == 1
                && c.messages@[0].role@ == "user"@ && c.messages@[0].content@ == q.prompt.text()
                && c.max_tokens == q.max_tokens && c.max_completion_tokens
                == q.max_completion_tokens && c.stream == q.stream && c.n == q.n && c.user
                == q.user,
            Err(reply) => legacy_fault(q) matches Some(m) && reply@ == bad_request(m),
        },
{
    match check_one_choice(q.n) {
        Some(reply) => {
            return Err(reply);
        },
        None => {},
    }
    let text = q.prompt.into_text();
    if trim(&text).as_str().is_empty() {
        return Err(bad_request_reply("prompt cannot be empty"));
    }
    let mut messages: Vec<ChatMessage> = Vec::new();
    messages.push(ChatMessage { role: "user".to_owned(), content: text });
    Ok(
        ChatCompletionRequest {
            model: q.model,
            messages,
            max_tokens: q.max_tokens,
            max_completion_tokens: q.max_completion_tokens,
            stream: q.stream,
            n: q.n,
            user: q.user,
        },
    )
}

/// What becomes of the reply to the chat that stands for a legacy completion.
#[derive(Debug, Clone, Copy, PartialEq, Eq, Structural)]
pub enum LegacyNext {
    /// Handed on as it is: it is no success.
    Relay,
    /// Its stream is adapted, event by event.
    AdaptStream,
    /// Its body is converted.
    Convert,
}

/// What becomes of the reply to the chat that stands for a legacy completion.
pub fn after_chat_reply(status: u16, stream: bool) -> (r: LegacyNext)
    ensures
        r == (if !(200 <= status < 300) {
            LegacyNext::Relay
        } else if stream {
            LegacyNext::AdaptStream
        } else {
            LegacyNext::Convert
        }),
{
    if !(200 <= status && status < 300) {
        LegacyNext::Relay
    } else if stream {
        LegacyNext::AdaptStream
    } else {
        LegacyNext::Convert
    }
}

/// One choice of a legacy completion.
#[derive(Debug, Clone, PartialEq)]
pub struct LegacyCompletionChoice {
    pub text: String,
    pub index: u32,
    pub finish_reason: Option<String>,
    pub logprobs: Option<Json>,
}

/// What a choice says.
pub struct LegacyChoiceView {
    pub text: Seq<char>,
    pub index: u32,
    pub finish_reason: Option<Seq<char>>,
    pub logprobs: Option<JsonView>,
}

impl LegacyCompletionChoice {
    /// What this choice says.
    pub open spec fn view(&self) -> LegacyChoiceView {
        LegacyChoiceView {
            text: self.text@,
            index: self.index,
            finish_reason: opt(self.finish_reason),
            logprobs: opt_json(self.logprobs),
        }
    }
}

/// The tokens a legacy completion used.
#[derive(Debug, Clone, Copy, PartialEq, Eq, Structural)]
pub struct LegacyCompletionUsage {
    pub prompt_tokens: u32,
    pub completion_tokens: u32,
    pub total_tokens: u32,
}

/// A legacy completion, or a chunk of one.
#[derive(Debug, Clone, PartialEq)]
pub struct LegacyCompletionStreamChunk {
    pub id: String,
    pub object: String,
    pub created: i64,
    pub model: String,
    pub choices: Vec<LegacyCompletionChoice>,
    pub usage: Option<LegacyCompletionUsage>,
    pub system_fingerprint: Option<String>,
}

/// The tokens a chat completion used, as a legacy completion says them.
pub open spec fn legacy_usage(u: Option<ChatUsage>) -> Option<LegacyCompletionUsage> {
    match u {
        Some(x) => Some(
            LegacyCompletionUsage {
                prompt_tokens: x.prompt_tokens,
                completion_tokens: x.completion_tokens,
                total_tokens: x.total_tokens,
            },
        ),
        None => None,
    }
}

/// A text, empty where it is missing.
pub open spec fn or_empty(t: Option<Seq<char>>) -> Seq<char> {
    match t {
        Some(s) => s,
        None => Seq::empty(),
    }
}

/// The chunk of a legacy completion that stands for a chunk of a chat completion: the
/// content of each choice is its text.
pub fn convert_chat_chunk_to_legacy_chunk(chunk: ChatCompletionChunk) -> (r:
    LegacyCompletionStreamChunk)
    ensures
        r.id@ == chunk.id@,
        r.object@ == "text_completion.chunk"@,
        r.created == chunk.created,
        r.model@ == chunk.model@,
        r.choices@.len() == chunk.choices@.len(),
        forall|i: int|
            0 <= i < r.choices@.len() ==> (#[trigger] r.choices@[i])@ == (LegacyChoiceView {
                text: or_empty(chunk@.choices[i].content),
                index: chunk@.choices[i].index,
                finish_reason: chunk@.choices[i].finish_reason,
                logprobs: chunk@.choices[i].logprobs,
            }),
        r.usage == legacy_usage(chunk.usage),
        opt(r.system_fingerprint) == opt(chunk.system_fingerprint),
{
    let ghost all = chunk.choices@;
    let mut choices: Vec<LegacyCompletionChoice> = Vec::new();
    for choice in it: chunk.choices
        invariant
            it.seq() == all,
            choices@.len() == it.index(),
            forall|i: int|
                0 <= i < choices@.len() ==> (#[trigger] choices@[i])@ == (LegacyChoiceView {
                    text: or_empty(all[i]@.content),
                    index: all[i]@.index,
                    finish_reason: all[i]@.finish_reason,
                    logprobs: all[i]@.logprobs,
                }),
    {
        let text = match choice.delta.content {
            Some(t) => t,
            None => String::new(),
        };
        choices.push(
            LegacyCompletionChoice {
                text,
                index: choice.index,
                finish_reason: choice.finish_reason,
                logprobs: choice.logprobs,
            },
        );
    }
    let usage = match chunk.usage {
        Some(u) => Some(
            LegacyCompletionUsage {
                prompt_tokens: u.prompt_tokens,
                completion_tokens: u.completion_tokens,
                total_tokens: u.total_tokens,
            },
        ),
        None => None,
    };
    LegacyCompletionStreamChunk {
        id: chunk.id,
        object: "text_completion.chunk".to_owned(),
        created: chunk.created,
        model: chunk.model,
        choices,
        usage,
        system_fingerprint: chunk.system_fingerprint,
    }
}

/// A choice of a chat completion.
#[derive(Debug, Clone, PartialEq)]
pub struct ChatChoice {
    pub index: u32,
    pub content: Option<String>,
    pub finish_reason: Option<String>,
    pub logprobs: Option<Json>,
}

/// A chat completion, as far as it is read here.
#[derive(Debug, Clone, PartialEq)]
pub struct ChatCompletionResponse {
    pub id: String,
    pub created: i64,
    pub model: String,
    pub choices: Vec<ChatChoice>,
    pub usage: Option<ChatUsage>,
    pub system_fingerprint: Option<String>,
}

/// The legacy completion that stands for a chat completion.
pub fn chat_response_to_legacy(response: ChatCompletionResponse) -> (r: LegacyCompletionStreamChunk)
    ensures
        r.id@ == response.id@,
        r.object@ == "text_completion"@,
        r.created == response.created,
        r.model@ == response.model@,
        r.choices@.len() == response.choices@.len(),
        forall|i: int|
            0 <= i < r.choices@.len() ==> (#[trigger] r.choices@[i])@ == (LegacyChoiceView {
                text: or_empty(opt(response.choices@[i].content)),
                index: response.choices@[i].index,
                finish_reason: opt(response.choices@[i].finish_reason),
                logprobs: opt_json(response.choices@[i].logprobs),
            }),
        r.usage == legacy_usage(response.usage),
        opt(r.system_fingerprint) == opt(response.system_fingerprint),
{
    let ghost all = response.choices@;
    let mut choices: Vec<LegacyCompletionChoice> = Vec::new();
    for choice in it: response.choices
        invariant
            it.seq() == all,
            choices@.len() == it.index(),
            forall|i: int|
                0 <= i < choices@.len() ==> (#[trigger] choices@[i])@ == (LegacyChoiceView {
                    text: or_empty(opt(all[i].content)),
                    index: all[i].index,
                    finish_reason: opt(all[i].finish_reason),
                    logprobs: opt_json(all[i].logprobs),
                }),
    {
        let text = match choice.content {
            Some(t) => t,
            None => String::new(),
        };
        choices.push(
            LegacyCompletionChoice {
                text,
                index: choice.index,
                finish_reason: choice.finish_reason,
                logprobs: choice.logprobs,
            },
        );
    }
    let usage = match response.usage {
        Some(u) => Some(
            LegacyCompletionUsage {
                prompt_tokens: u.prompt_tokens,
                completion_tokens: u.completion_tokens,
                total_tokens: u.total_tokens,
            },
        ),
        None => None,
    };
    LegacyCompletionStreamChunk {
        id: response.id,
        object: "text_completion".to_owned(),
        created: response.created,
        model: response.model,
        choices,
        usage,
        system_fingerprint: response.system_fingerprint,
    }
}

/// Several prompts become one text that holds each of them, in order, with an end of line
/// between two; one prompt stays as it is.
pub proof fn prompts_are_joined(t: String, parts: Vec<String>)
    ensures
        LegacyPrompt::Single(t).text() == t@,
        parts@.len() == 0 ==> LegacyPrompt::Multiple(parts).text() == Seq::<char>::empty(),
        parts@.len() == 1 ==> LegacyPrompt::Multiple(parts).text() == parts@[0]@,
        parts@.len() == 2 ==> LegacyPrompt::Multiple(parts).text() == parts@[0]@ + "\n"@
            + parts@[1]@,
        forall|i: int|
            0 <= i < parts@.len() ==> crate::text::holds(
                LegacyPrompt::Multiple(parts).text(),
                #[trigger] parts@[i]@,
            ),
{
    let v = views(parts@);
    assert forall|i: int| 0 <= i < parts@.len() implies crate::text::holds(
        LegacyPrompt::Multiple(parts).text(),
        #[trigger] parts@[i]@,
    ) by {
        lemma_joined_holds(v, "\n"@, i);
        assert(v[i] == parts@[i]@);
    }
    reveal_with_fuel(join, 3);
    if parts@.len() == 1 {
        assert(LegacyPrompt::Multiple(parts).text() =~= parts@[0]@);
    }
    if parts@.len() == 2 {
        assert(LegacyPrompt::Multiple(parts).text() =~= parts@[0]@ + "\n"@ + parts@[1]@);
    }
}

/// A joined text holds each of its parts.
proof fn lemma_joined_holds(parts: Seq<Seq<char>>, sep: Seq<char>, i: int)
    requires
        0 <= i < parts.len(),
    ensures
        crate::text::holds(join(parts, sep), parts[i]),
    decreases parts.len(),
{
    let rest = parts.drop_last();
    let all = join(parts, sep);
    let p = parts[i];
    if i == parts.len() - 1 {
        assert(all.subrange(all.len() - p.len(), all.len() as int) =~= p);
        assert(crate::text::occurs_at(all, p, all.len() - p.len()));
    } else {
        lemma_joined_holds(rest, sep, i);
        assert(rest[i] == p);
        let before = join(rest, sep);
        let k = choose|k: int| crate::text::occurs_at(before, p, k);
        assert(all.subrange(k, k + p.len()) =~= before.subrange(k, k + p.len()));
        assert(crate::text::occurs_at(all, p, k));
    }
}

/// A request for a legacy completion is in order exactly where it asks for no more than one
/// choice and its prompt is not blank.
pub proof fn legacy_requests_in_order(q: LegacyCompletionRequest)
    ensures
        legacy_fault(q) is None <==> (q.n matches Some(k) ==> k <= 1) && trimmed(
            q.prompt.text(),
        ).len() > 0,
        legacy_fault(q) == Some("n > 1 is not supported"@) <==> q.n is Some && q.n->0 > 1,
{
    reveal_strlit("n > 1 is not supported");
    reveal_strlit("prompt cannot be empty");
    assert("n > 1 is not supported"@[0] != "prompt cannot be empty"@[0]);
}

/// No text and no number is lost on the way from a chat completion to a legacy one.
pub proof fn legacy_completions_lose_nothing(t: Seq<char>, u: ChatUsage)
    ensures
        or_empty(Some(t)) == t,
        or_empty(None).len() == 0,
        legacy_usage(None) is None,
        legacy_usage(Some(u)) matches Some(l) && l.prompt_tokens == u.prompt_tokens
            && l.completion_tokens == u.completion_tokens && l.total_tokens == u.total_tokens,
{
}

} // verus!
