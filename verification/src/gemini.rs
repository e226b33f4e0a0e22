//! The native Gemini API.

use vstd::prelude::*;

use crate::chat::opt;
use crate::json::{
    array_view, compact_json, entry, json_object, json_str, json_text, json_uint, lemma_array_view, parse_json, parsed_json,
    uint, with, Json, JsonView,
};
use crate::messages::{counts, estimate_tokens, more, plus, tokens_for};
use crate::reply::{json_ok_reply, json_ok_response, json_reply, json_response, Reply, ReplyView};
use crate::text::{
    after, byte_len, contains, ends, holds, len_bytes, starts, starts_with, strip_prefix,
    strip_suffix, views,
};

verus! {

/// A model without the `models/` that may stand before it.
pub open spec fn bare_model(m: Seq<char>) -> Seq<char> {
    if starts(m, "models/"@) {
        after(m, "models/"@)
    } else {
        m
    }
}

/// The model of a path that names a model and an action.
pub open spec fn action_model(path: Seq<char>, suffix: Seq<char>) -> Option<Seq<char>> {
    if starts(path, "/v1beta/models/"@) && ends(after(path, "/v1beta/models/"@), suffix) {
        let rest = after(path, "/v1beta/models/"@);
        let m = bare_model(rest.subrange(0, rest.len() - suffix.len()));
        if m.len() == 0 {
            None
        } else {
            Some(m)
        }
    } else {
        None
    }
}

/// A model without the `models/` that may stand before it.
fn strip_models(m: String) -> (r: String)
    ensures
        r@ == bare_model(m@),
{
    match strip_prefix(&m, "models/") {
        Some(t) => t,
        None => m,
    }
}

/// The model of a path that names a model and an action.
pub fn parse_gemini_model_path(path: &str, suffix: &str) -> (r: Option<String>)
    ensures
        opt(r) == action_model(path@, suffix@),
{
    match strip_prefix(path, "/v1beta/models/") {
        Some(rest) => match strip_suffix(&rest, suffix) {
            Some(m) => {
                let m = strip_models(m);
                if m.as_str().is_empty() {
                    None
                } else {
                    Some(m)
                }
            },
            None => None,
        },
        None => None,
    }
}

/// The model of a path that names a model and no action.
pub open spec fn plain_model(path: Seq<char>) -> Option<Seq<char>> {
    if starts(path, "/v1beta/models/"@) {
        let m = after(path, "/v1beta/models/"@);
        if m.len() == 0 || holds(m, ":"@) {
            None
        } else {
            Some(bare_model(m))
        }
    } else {
        None
    }
}

/// The model of a path that names a model and no action.
pub fn parse_gemini_get_model_path(path: &str) -> (r: Option<String>)
    ensures
        opt(r) == plain_model(path@),
{
    match strip_prefix(path, "/v1beta/models/") {
        Some(m) => {
            if m.as_str().is_empty() || contains(&m, ":") {
                None
            } else {
                Some(strip_models(m))
            }
        },
        None => None,
    }
}

/// Whether a model is one of Gemini's that are served.
pub open spec fn is_gemini(ids: Seq<Seq<char>>, model: Seq<char>) -> bool {
    ids.contains(model) && starts(model, "gemini-"@)
}

/// Whether a model is one of Gemini's that are served.
pub fn is_known_gemini_model(ids: &Vec<String>, model: &str) -> (r: bool)
    ensures
        r == is_gemini(views(ids@), model@),
{
    crate::models::has_id(ids, model) && starts_with(model, "gemini-")
}

/// The reply where there is no such model.
pub open spec fn no_such_model() -> ReplyView {
    json_reply(
        404,
        "{\"error\":{\"code\":404,\"message\":\"Model not found\",\"status\":\"NOT_FOUND\"}}"@,
    )
}

/// The reply where there is no such model.
pub fn no_such_model_reply() -> (r: Reply)
    ensures
        r@ == no_such_model(),
{
    json_response(
        404,
        "{\"error\":{\"code\":404,\"message\":\"Model not found\",\"status\":\"NOT_FOUND\"}}",
    )
}

/// The model that a path with an action asks, or the reply where there is no such model.
pub fn gemini_action_model(ids: &Vec<String>, path: &str, suffix: &str) -> (r: Result<
    String,
    Reply,
>)
    ensures
        match r {
            Ok(m) => action_model(path@, suffix@) == Some(m@) && is_gemini(views(ids@), m@),
            Err(reply) => reply@ == no_such_model() && (action_model(path@, suffix@) matches Some(m)
                ==> !is_gemini(views(ids@), m)),
        },
{
    match parse_gemini_model_path(path, suffix) {
        Some(m) => {
            if is_known_gemini_model(ids, &m) {
                Ok(m)
            } else {
                Err(no_such_model_reply())
            }
        },
        None => Err(no_such_model_reply()),
    }
}

/// What is said of a model. The number 1.0 is handed in.
pub open spec fn descriptor(model: Seq<char>, one: JsonView) -> JsonView {
    JsonView::Object(
        Map::empty().insert("name"@, JsonView::Text("models/"@ + model)).insert(
            "baseModelId"@,
            JsonView::Text(model),
        ).insert("version"@, JsonView::Text("agcp"@)).insert(
            "displayName"@,
            JsonView::Text(model),
        ).insert("description"@, JsonView::Text("Gemini model via AGCP"@)).insert(
            "inputTokenLimit"@,
            uint(1_048_576),
        ).insert("outputTokenLimit"@, uint(65_536)).insert(
            "supportedGenerationMethods"@,
            JsonView::Array(
                seq![
                    JsonView::Text("generateContent"@),
                    JsonView::Text("streamGenerateContent"@),
                    JsonView::Text("countTokens"@),
                ],
            ),
        ).insert("temperature"@, one).insert("topP"@, one).insert("topK"@, uint(40)),
    )
}

/// What is said of a model. `one` is the JSON number 1.0.
pub fn gemini_model_descriptor(model: &str, one: &Json) -> (r: Json)
    ensures
        r@ == descriptor(model@, one@),
{
    let mut name = "models/".to_owned();
    name.push_str(model);
    let mut methods: Vec<Json> = Vec::new();
    methods.push(json_str("generateContent"));
    methods.push(json_str("streamGenerateContent"));
    methods.push(json_str("countTokens"));
    proof {
        lemma_array_view(methods@);
    }
    assert(array_view(methods@) =~= seq![
        JsonView::Text("generateContent"@),
        JsonView::Text("streamGenerateContent"@),
        JsonView::Text("countTokens"@),
    ]);
    let o = with(json_object(), "name", Json::Text(name));
    let o = with(o, "baseModelId", json_str(model));
    let o = with(o, "version", json_str("agcp"));
    let o = with(o, "displayName", json_str(model));
    let o = with(o, "description", json_str("Gemini model via AGCP"));
    let o = with(o, "inputTokenLimit", json_uint(1_048_576));
    let o = with(o, "outputTokenLimit", json_uint(65_536));
    let o = with(o, "supportedGenerationMethods", Json::Array(methods));
    let o = with(o, "temperature", one.clone());
    let o = with(o, "topP", one.clone());
    with(o, "topK", json_uint(40))
}

/// What is said of each of Gemini's models among the ids, in order.
pub open spec fn descriptors(ids: Seq<Seq<char>>, one: JsonView) -> Seq<JsonView>
    decreases ids.len(),
{
    if ids.len() == 0 {
        Seq::empty()
    } else {
        let before = descriptors(ids.drop_last(), one);
        if starts(ids.last(), "gemini-"@) {
            before.push(descriptor(ids.last(), one))
        } else {
            before
        }
    }
}

/// The reply with Gemini's models.
pub fn handle_gemini_models(ids: &Vec<String>, one: &Json) -> (r: Reply)
    ensures
        r@ == json_ok_reply(
            compact_json(
                JsonView::Object(
                    Map::empty().insert(
                        "models"@,
                        JsonView::Array(descriptors(views(ids@), one@)),
                    ),
                ),
            ),
            "gemini_models"@,
            None,
        ),
{
    let ghost all = views(ids@);
    let mut list: Vec<Json> = Vec::new();
    let mut i: usize = 0;
    assert(all.take(0) =~= Seq::empty());
    while i < ids.len()
        invariant
            i <= ids@.len(),
            all == views(ids@),
            array_view(list@) == descriptors(all.take(i as int), one@),
        decreases ids@.len() - i,
    {
        assert(all.take(i + 1).drop_last() =~= all.take(i as int));
        assert(all.take(i + 1).last() == ids@[i as int]@);
        if starts_with(&ids[i], "gemini-") {
            let ghost before = list@;
            list.push(gemini_model_descriptor(&ids[i], one));
            assert(list@.drop_last() =~= before);
        }
        i = i + 1;
    }
    assert(all.take(all.len() as int) =~= all);
    let o = with(json_object(), "models", Json::Array(list));
    json_ok_response(json_text(&o), "gemini_models", None)
}

/// The reply with one of Gemini's models.
pub fn handle_gemini_model(ids: &Vec<String>, path: &str, one: &Json) -> (r: Reply)
    ensures
        r@ == (match plain_model(path@) {
            Some(m) => if is_gemini(views(ids@), m) {
                json_ok_reply(compact_json(descriptor(m, one@)), "gemini_model"@, None)
            } else {
                no_such_model()
            },
            None => no_such_model(),
        }),
{
    match parse_gemini_get_model_path(path) {
        Some(m) => {
            if is_known_gemini_model(ids, &m) {
                let o = gemini_model_descriptor(&m, one);
                json_ok_response(json_text(&o), "gemini_model", None)
            } else {
                no_such_model_reply()
            }
        },
        None => no_such_model_reply(),
    }
}

/// The entry of the first of two keys that has one.
pub open spec fn either(v: JsonView, a: Seq<char>, b: Seq<char>) -> Option<JsonView> {
    match entry(v, a) {
        Some(x) => Some(x),
        None => entry(v, b),
    }
}

/// The length that a part is counted with: texts by their bytes, data at a flat rate,
/// functions by the bytes of their JSON.
pub open spec fn part_chars(p: JsonView) -> nat {
    if entry(p, "text"@) matches Some(JsonView::Text(t)) {
        byte_len(entry(p, "text"@)->0->Text_0)
    } else if entry(p, "inlineData"@) is Some || entry(p, "inline_data"@) is Some {
        1024
    } else if either(p, "functionCall"@, "function_call"@) is Some {
        byte_len(compact_json(either(p, "functionCall"@, "function_call"@)->0))
    } else if either(p, "functionResponse"@, "function_response"@) is Some {
        byte_len(compact_json(either(p, "functionResponse"@, "function_response"@)->0))
    } else {
        0
    }
}

/// The entry of the first of two keys that has one.
fn get_either<'a>(v: &'a Json, a: &str, b: &str) -> (r: Option<&'a Json>)
    ensures
        match r {
            Some(j) => either(v@, a@, b@) == Some(j@),
            None => either(v@, a@, b@) is None,
        },
{
    match v.get(a) {
        Some(j) => Some(j),
        None => v.get(b),
    }
}

/// The length that a part is counted with.
pub fn count_gemini_part_chars(part: &Json) -> (r: usize)
    ensures
        r == part_chars(part@),
{
    match part.get("text") {
        Some(t) => match t.as_str() {
            Some(s) => {
                return len_bytes(s);
            },
            None => {},
        },
        None => {},
    }
    if part.get("inlineData").is_some() || part.get("inline_data").is_some() {
        return 1024;
    }
    match get_either(part, "functionCall", "function_call") {
        Some(f) => {
            let text = json_text(f);
            return len_bytes(&text);
        },
        None => {},
    }
    match get_either(part, "functionResponse", "function_response") {
        Some(f) => {
            let text = json_text(f);
            return len_bytes(&text);
        },
        None => {},
    }
    0
}

/// The length that a list of parts is counted with.
pub open spec fn parts_chars(p: Seq<JsonView>) -> nat
    decreases p.len(),
{
    if p.len() == 0 {
        0
    } else {
        parts_chars(p.drop_last()) + part_chars(p.last())
    }
}

/// The length that the parts of a content are counted with.
pub open spec fn content_parts_chars(v: JsonView) -> nat {
    match entry(v, "parts"@) {
        Some(JsonView::Array(p)) => parts_chars(p),
        _ => 0,
    }
}

/// The length that a content is counted with: its role and its parts.
pub open spec fn content_chars(v: JsonView) -> nat {
    (match entry(v, "role"@) {
        Some(JsonView::Text(t)) => byte_len(t),
        _ => 0,
    }) + content_parts_chars(v)
}

/// The length that a list of contents is counted with.
pub open spec fn contents_chars(c: Seq<JsonView>) -> nat
    decreases c.len(),
{
    if c.len() == 0 {
        0
    } else {
        contents_chars(c.drop_last()) + content_chars(c.last())
    }
}

/// The length that a list of values is counted with, as JSON.
pub open spec fn texts_chars(c: Seq<JsonView>) -> nat
    decreases c.len(),
{
    if c.len() == 0 {
        0
    } else {
        texts_chars(c.drop_last()) + byte_len(compact_json(c.last()))
    }
}

/// The length that the system prompt of a request is counted with.
pub open spec fn instruction_chars(v: JsonView) -> nat {
    match either(v, "systemInstruction"@, "system_instruction"@) {
        Some(s) => content_parts_chars(s),
        None => 0,
    }
}

/// The length that the contents of a request are counted with.
pub open spec fn all_contents_chars(v: JsonView) -> nat {
    match entry(v, "contents"@) {
        Some(JsonView::Array(c)) => contents_chars(c),
        _ => 0,
    }
}

/// The length that the tools of a request are counted with.
pub open spec fn all_tools_chars(v: JsonView) -> nat {
    match entry(v, "tools"@) {
        Some(JsonView::Array(t)) => texts_chars(t),
        _ => 0,
    }
}

/// The length that a request is counted with.
pub open spec fn payload_chars(v: JsonView) -> nat {
    instruction_chars(v) + all_contents_chars(v) + all_tools_chars(v)
}

/// The list under a key.
fn list_of<'a>(v: &'a Json, key: &str) -> (r: Option<&'a Vec<Json>>)
    ensures
        match r {
            Some(l) => entry(v@, key@) == Some(JsonView::Array(array_view(l@))),
            None => !(entry(v@, key@) matches Some(JsonView::Array(_))),
        },
{
    match v.get(key) {
        Some(j) => j.as_array(),
        None => None,
    }
}

/// The length that the parts of a content are counted with.
fn count_parts(v: &Json) -> (r: Option<usize>)
    ensures
        counts(r, content_parts_chars(v@)),
{
    let mut total: Option<usize> = Some(0);
    match list_of(v, "parts") {
        Some(l) => {
            let ghost all = array_view(l@);
            proof {
                lemma_array_view(l@);
            }
            let mut i: usize = 0;
            assert(all.take(0) =~= Seq::empty());
            while i < l.len()
                invariant
                    i <= l@.len() == all.len(),
                    forall|j: int| 0 <= j < l@.len() ==> #[trigger] all[j] == l@[j]@,
                    counts(total, parts_chars(all.take(i as int))),
                decreases l@.len() - i,
            {
                assert(all.take(i + 1).drop_last() =~= all.take(i as int));
                assert(all.take(i + 1).last() == l@[i as int]@);
                total = more(total, count_gemini_part_chars(&l[i]));
                i = i + 1;
            }
            assert(all.take(all.len() as int) =~= all);
        },
        None => {},
    }
    total
}

/// The length that a content is counted with.
fn count_content(v: &Json) -> (r: Option<usize>)
    ensures
        counts(r, content_chars(v@)),
{
    let role: usize = match v.get("role") {
        Some(j) => match j.as_str() {
            Some(t) => len_bytes(t),
            None => 0,
        },
        None => 0,
    };
    more(count_parts(v), role)
}

/// The length that the contents of a request are counted with.
fn count_contents(v: &Json) -> (r: Option<usize>)
    ensures
        counts(r, all_contents_chars(v@)),
{
    let mut total: Option<usize> = Some(0);
    match list_of(v, "contents") {
        Some(l) => {
            let ghost all = array_view(l@);
            proof {
                lemma_array_view(l@);
            }
            let mut i: usize = 0;
            assert(all.take(0) =~= Seq::empty());
            while i < l.len()
                invariant
                    i <= l@.len() == all.len(),
                    forall|j: int| 0 <= j < l@.len() ==> #[trigger] all[j] == l@[j]@,
                    counts(total, contents_chars(all.take(i as int))),
                decreases l@.len() - i,
            {
                assert(all.take(i + 1).drop_last() =~= all.take(i as int));
                assert(all.take(i + 1).last() == l@[i as int]@);
                let n = count_content(&l[i]);
                assert(counts(n, content_chars(all[i as int])));
                total = plus(total, n);
                i = i + 1;
            }
            assert(all.take(all.len() as int) =~= all);
        },
        None => {},
    }
    total
}

/// The length that the tools of a request are counted with.
fn count_tools(v: &Json) -> (r: Option<usize>)
    ensures
        counts(r, all_tools_chars(v@)),
{
    let mut total: Option<usize> = Some(0);
    match list_of(v, "tools") {
        Some(l) => {
            let ghost all = array_view(l@);
            proof {
                lemma_array_view(l@);
            }
            let mut i: usize = 0;
            assert(all.take(0) =~= Seq::empty());
            while i < l.len()
                invariant
                    i <= l@.len() == all.len(),
                    forall|j: int| 0 <= j < l@.len() ==> #[trigger] all[j] == l@[j]@,
                    counts(total, texts_chars(all.take(i as int))),
                decreases l@.len() - i,
            {
                assert(all.take(i + 1).drop_last() =~= all.take(i as int));
                assert(all.take(i + 1).last() == l@[i as int]@);
                let text = json_text(&l[i]);
                total = more(total, len_bytes(&text));
                i = i + 1;
            }
            assert(all.take(all.len() as int) =~= all);
        },
        None => {},
    }
    total
}

/// The tokens that a request stands for; `None` where its length does not fit in a `usize`.
pub fn estimate_gemini_tokens(payload: &Json) -> (r: Option<u32>)
    ensures
        r == (if payload_chars(payload@) <= usize::MAX {
            Some(tokens_for(payload_chars(payload@)))
        } else {
            None::<u32>
        }),
{
    let head = match get_either(payload, "systemInstruction", "system_instruction") {
        Some(s) => count_parts(s),
        None => Some(0),
    };
    let ghost a = instruction_chars(payload@);
    assert(counts(head, a));
    let body = count_contents(payload);
    let ghost b = all_contents_chars(payload@);
    assert(counts(body, b));
    let tail = count_tools(payload);
    assert(counts(tail, all_tools_chars(payload@)));
    let two = plus(head, body);
    assert(counts(two, a + b));
    match plus(two, tail) {
        Some(n) => Some(estimate_tokens(n)),
        None => None,
    }
}

/// The reply to a request to count tokens.
pub fn gemini_count_reply(total_tokens: u32) -> (r: Reply)
    ensures
        r@ == json_ok_reply(
            compact_json(
                JsonView::Object(
                    Map::empty().insert("totalTokens"@, uint(total_tokens as u64)),
                ),
            ),
            "gemini_count_tokens"@,
            None,
        ),
{
    let o = with(json_object(), "totalTokens", json_uint(total_tokens as u64));
    json_ok_response(json_text(&o), "gemini_count_tokens", None)
}

/// The reply to a request to count the tokens of `body`; `None` where the body is no JSON or
/// too long to be counted.
pub fn handle_gemini_count_tokens(ids: &Vec<String>, path: &str, body: &str) -> (r: Option<
    Reply,
>)
    ensures
        match action_model(path@, ":countTokens"@) {
            Some(m) => if !is_gemini(views(ids@), m) {
                r matches Some(reply) && reply@ == no_such_model()
            } else {
                match parsed_json(body@) {
                    Some(v) => if payload_chars(v) <= usize::MAX {
                        r matches Some(reply) && reply@ == json_ok_reply(
                            compact_json(
                                JsonView::Object(
                                    Map::empty().insert(
                                        "totalTokens"@,
                                        uint(tokens_for(payload_chars(v)) as u64),
                                    ),
                                ),
                            ),
                            "gemini_count_tokens"@,
                            None,
                        )
                    } else {
                        r is None
                    },
                    None => r is None,
                }
            },
            None => r matches Some(reply) && reply@ == no_such_model(),
        },
{
    match gemini_action_model(ids, path, ":countTokens") {
        Err(reply) => Some(reply),
        Ok(_) => match parse_json(body) {
            Some(v) => match estimate_gemini_tokens(&v) {
                Some(n) => Some(gemini_count_reply(n)),
                None => None,
            },
            None => None,
        },
    }
}

/// What is sent upstream around a request. The request itself is handed through as it came.
#[derive(Debug, Clone, PartialEq)]
pub struct CloudCodeEnvelope {
    pub project: String,
    pub model: String,
    pub session_id: String,
    pub user_agent: String,
    pub request_type: String,
    pub request_id: String,
}

/// What is sent upstream around a request: its session is the one that it names, or else the
/// request's own id.
pub fn build_gemini_cloudcode_request(
    project_id: &str,
    model: &str,
    session_id: Option<String>,
    request_id: &str,
) -> (r: CloudCodeEnvelope)
    ensures
        r.project@ == project_id@,
        r.model@ == model@,
        r.session_id@ == (match session_id {
            Some(s) => s@,
            None => request_id@,
        }),
        r.user_agent@ == "agcp"@,
        r.request_type@ == "api"@,
        r.request_id@ == request_id@,
{
    CloudCodeEnvelope {
        project: project_id.to_owned(),
        model: model.to_owned(),
        session_id: match session_id {
            Some(s) => s,
            None => request_id.to_owned(),
        },
        user_agent: "agcp".to_owned(),
        request_type: "api".to_owned(),
        request_id: request_id.to_owned(),
    }
}

/// A request is never counted as nothing, and what is added to it never makes it count less.
pub proof fn longer_requests_count_more(a: nat, b: nat)
    requires
        a <= b,
        b / 4 <= u32::MAX,
    ensures
        1 <= tokens_for(a) <= tokens_for(b),
{
}

/// The model that a path names is the one that was put there, with or without `models/` before
/// it, for every action.
pub proof fn paths_name_their_model(model: Seq<char>, suffix: Seq<char>)
    requires
        model.len() > 0,
        !starts(model, "models/"@),
    ensures
        action_model("/v1beta/models/"@ + model + suffix, suffix) == Some(model),
        action_model("/v1beta/models/"@ + "models/"@ + model + suffix, suffix) == Some(model),
        !holds(model, ":"@) ==> plain_model("/v1beta/models/"@ + model) == Some(model),
        holds(model, ":"@) ==> plain_model("/v1beta/models/"@ + model) is None,
{
    let base = "/v1beta/models/"@;
    let p = base + model + suffix;
    let rest = model + suffix;
    assert(p.subrange(0, base.len() as int) =~= base);
    assert(after(p, base) =~= rest);
    assert(rest.subrange(rest.len() - suffix.len(), rest.len() as int) =~= suffix);
    assert(rest.subrange(0, rest.len() - suffix.len()) =~= model);
    let q = base + "models/"@ + model + suffix;
    let long = "models/"@ + model;
    let more = long + suffix;
    assert(q.subrange(0, base.len() as int) =~= base);
    assert(after(q, base) =~= more);
    assert(more.subrange(more.len() - suffix.len(), more.len() as int) =~= suffix);
    assert(more.subrange(0, more.len() - suffix.len()) =~= long);
    assert(long.subrange(0, "models/"@.len() as int) =~= "models/"@);
    assert(after(long, "models/"@) =~= model);
    let g = base + model;
    assert(g.subrange(0, base.len() as int) =~= base);
    assert(after(g, base) =~= model);
}

/// The length of a request adds up: of its parts, of its contents and of its tools, each one
/// counts by itself.
pub proof fn contents_count_one_by_one(a: Seq<JsonView>, b: Seq<JsonView>, x: JsonView)
    ensures
        parts_chars(a + b) == parts_chars(a) + parts_chars(b),
        contents_chars(a + b) == contents_chars(a) + contents_chars(b),
        texts_chars(a + b) == texts_chars(a) + texts_chars(b),
        parts_chars(seq![x]) == part_chars(x),
        contents_chars(seq![x]) == content_chars(x),
        texts_chars(seq![x]) == byte_len(compact_json(x)),
    decreases b.len(),
{
    let none = seq![x].drop_last();
    assert(none.len() == 0);
    assert(parts_chars(none) == 0);
    assert(contents_chars(none) == 0);
    assert(texts_chars(none) == 0);
    assert(seq![x].last() == x);
    if b.len() == 0 {
        assert(a + b =~= a);
    } else {
        assert((a + b).drop_last() =~= a + b.drop_last());
        contents_count_one_by_one(a, b.drop_last(), x);
    }
}

/// A part counts by what it is: a text by its bytes, data always the same, the call of a
/// function and its result by their JSON.
pub proof fn a_part_counts_what_it_holds(p: JsonView, t: Seq<char>, d: JsonView)
    ensures
        entry(p, "text"@) == Some(JsonView::Text(t)) ==> part_chars(p)
            == vstd::utf8::encode_utf8(t).len(),
        entry(p, "text"@) is None && (entry(p, "inlineData"@) is Some || entry(p, "inline_data"@)
            is Some) ==> part_chars(p) == 1024,
        entry(p, "text"@) is None && entry(p, "inlineData"@) is None && entry(p, "inline_data"@)
            is None && entry(p, "functionCall"@) == Some(d) ==> part_chars(p) == byte_len(
            compact_json(d),
        ),
        entry(p, "text"@) is None && entry(p, "inlineData"@) is None && entry(p, "inline_data"@)
            is None && entry(p, "functionCall"@) is None && entry(p, "function_call"@) is None
            && entry(p, "functionResponse"@) == Some(d) ==> part_chars(p) == byte_len(
            compact_json(d),
        ),
{
}

/// A request counts its instruction, its contents and its tools together; a content counts its
/// parts and its role.
pub proof fn a_payload_counts_all(v: JsonView, c: Seq<JsonView>, t: Seq<JsonView>, role: Seq<char>)
    ensures
        entry(v, "contents"@) == Some(JsonView::Array(c)) ==> payload_chars(v) >= contents_chars(c),
        entry(v, "tools"@) == Some(JsonView::Array(t)) ==> payload_chars(v) >= texts_chars(t),
        entry(v, "contents"@) == Some(JsonView::Array(c)) && entry(v, "tools"@) == Some(
            JsonView::Array(t),
        ) && entry(v, "systemInstruction"@) is None && entry(v, "system_instruction"@) is None
            ==> payload_chars(v) == contents_chars(c) + texts_chars(t),
        entry(v, "contents"@) == Some(JsonView::Array(c)) && entry(v, "tools"@) is None && (
        entry(v, "systemInstruction"@) matches Some(s) && entry(s, "parts"@) == Some(
            JsonView::Array(t),
        )) ==> payload_chars(v) == parts_chars(t) + contents_chars(c),
        entry(v, "parts"@) == Some(JsonView::Array(c)) && entry(v, "role"@) == Some(
            JsonView::Text(role),
        ) ==> content_chars(v) == vstd::utf8::encode_utf8(role).len() + parts_chars(c),
{
}

/// The models that are listed are Gemini's among those that are served, each once, in order,
/// under its own name.
pub proof fn all_gemini_models_are_listed(ids: Seq<Seq<char>>, one: JsonView)
    ensures
        ({
            let own = ids.filter(|id: Seq<char>| starts(id, "gemini-"@));
            let list = descriptors(ids, one);
            &&& list.len() == own.len()
            &&& forall|i: int|
                #![trigger list[i]]
                0 <= i < own.len() ==> entry(list[i], "name"@) == Some(
                    JsonView::Text("models/"@ + own[i]),
                ) && entry(list[i], "baseModelId"@) == Some(JsonView::Text(own[i])) && entry(
                    list[i],
                    "displayName"@,
                ) == Some(JsonView::Text(own[i]))
        }),
    decreases ids.len(),
{
    reveal(Seq::filter);
    if ids.len() > 0 {
        let rest = ids.drop_last();
        all_gemini_models_are_listed(rest, one);
        lemma_descriptor(ids.last(), one);
        let own = ids.filter(|id: Seq<char>| starts(id, "gemini-"@));
        let list = descriptors(ids, one);
        let before = descriptors(rest, one);
        assert forall|i: int|
            #![trigger list[i]]
            0 <= i < own.len() implies entry(list[i], "name"@) == Some(
            JsonView::Text("models/"@ + own[i]),
        ) && entry(list[i], "baseModelId"@) == Some(JsonView::Text(own[i])) && entry(
            list[i],
            "displayName"@,
        ) == Some(JsonView::Text(own[i])) by {
            if i < before.len() {
                assert(before[i] == list[i]);
            }
        }
    }
}

proof fn lemma_descriptor(model: Seq<char>, one: JsonView)
    ensures
        entry(descriptor(model, one), "name"@) == Some(JsonView::Text("models/"@ + model)),
        entry(descriptor(model, one), "baseModelId"@) == Some(JsonView::Text(model)),
        entry(descriptor(model, one), "displayName"@) == Some(JsonView::Text(model)),
{
    reveal_strlit("name");
    reveal_strlit("baseModelId");
    reveal_strlit("version");
    reveal_strlit("displayName");
    reveal_strlit("description");
    reveal_strlit("inputTokenLimit");
    reveal_strlit("outputTokenLimit");
    reveal_strlit("supportedGenerationMethods");
    reveal_strlit("temperature");
    reveal_strlit("topP");
    reveal_strlit("topK");
    assert("name"@.len() != "baseModelId"@.len());
    assert("name"@.len() != "version"@.len());
    assert("name"@.len() != "displayName"@.len());
    assert("name"@.len() != "description"@.len());
    assert("name"@.len() != "inputTokenLimit"@.len());
    assert("name"@.len() != "outputTokenLimit"@.len());
    assert("name"@.len() != "supportedGenerationMethods"@.len());
    assert("name"@.len() != "temperature"@.len());
    assert("name"@[0] != "topP"@[0]);
    assert("name"@[0] != "topK"@[0]);
    assert("baseModelId"@.len() != "version"@.len());
    assert("baseModelId"@[0] != "displayName"@[0]);
    assert("baseModelId"@[0] != "description"@[0]);
    assert("baseModelId"@.len() != "inputTokenLimit"@.len());
    assert("baseModelId"@.len() != "outputTokenLimit"@.len());
    assert("baseModelId"@.len() != "supportedGenerationMethods"@.len());
    assert("baseModelId"@[0] != "temperature"@[0]);
    assert("baseModelId"@.len() != "topP"@.len());
    assert("baseModelId"@.len() != "topK"@.len());
    assert("version"@.len() != "displayName"@.len());
    assert("version"@.len() != "description"@.len());
    assert("version"@.len() != "inputTokenLimit"@.len());
    assert("version"@.len() != "outputTokenLimit"@.len());
    assert("version"@.len() != "supportedGenerationMethods"@.len());
    assert("version"@.len() != "temperature"@.len());
    assert("version"@.len() != "topP"@.len());
    assert("version"@.len() != "topK"@.len());
    assert("displayName"@[1] != "description"@[1]);
    assert("displayName"@.len() != "inputTokenLimit"@.len());
    assert("displayName"@.len() != "outputTokenLimit"@.len());
    assert("displayName"@.len() != "supportedGenerationMethods"@.len());
    assert("displayName"@[0] != "temperature"@[0]);
    assert("displayName"@.len() != "topP"@.len());
    assert("displayName"@.len() != "topK"@.len());
    assert("description"@.len() != "inputTokenLimit"@.len());
    assert("description"@.len() != "outputTokenLimit"@.len());
    assert("description"@.len() != "supportedGenerationMethods"@.len());
    assert("description"@[0] != "temperature"@[0]);
    assert("description"@.len() != "topP"@.len());
    assert("description"@.len() != "topK"@.len());
    assert("inputTokenLimit"@.len() != "outputTokenLimit"@.len());
    assert("inputTokenLimit"@.len() != "supportedGenerationMethods"@.len());
    assert("inputTokenLimit"@.len() != "temperature"@.len());
    assert("inputTokenLimit"@.len() != "topP"@.len());
    assert("inputTokenLimit"@.len() != "topK"@.len());
    assert("outputTokenLimit"@.len() != "supportedGenerationMethods"@.len());
    assert("outputTokenLimit"@.len() != "temperature"@.len());
    assert("outputTokenLimit"@.len() != "topP"@.len());
    assert("outputTokenLimit"@.len() != "topK"@.len());
    assert("supportedGenerationMethods"@.len() != "temperature"@.len());
    assert("supportedGenerationMethods"@.len() != "topP"@.len());
    assert("supportedGenerationMethods"@.len() != "topK"@.len());
    assert("temperature"@.len() != "topP"@.len());
    assert("temperature"@.len() != "topK"@.len());
    assert("topP"@[3] != "topK"@[3]);
}

/// Only what is served is found, and only Gemini's models.
pub proof fn only_served_gemini_models_are_known(ids: Seq<Seq<char>>, i: int, model: Seq<char>)
    ensures
        0 <= i < ids.len() && starts(ids[i], "gemini-"@) ==> is_gemini(ids, ids[i]),
        is_gemini(ids, model) ==> starts(model, "gemini-"@) && exists|k: int|
            0 <= k < ids.len() && ids[k] == model,
{
}

} // verus!
