//! The Models API: which models there are, what kind a model is, and the small JSON
//! endpoints beside it.

use vstd::prelude::*;

use crate::chat::opt;
use crate::images::{bad_request, bad_request_reply, or_else};
use crate::json::{
    array_view, compact_json, json_object, json_str, json_text, json_uint, uint, with, Json,
    JsonView,
};
use crate::reply::{
    error_body, json_ok_reply, json_ok_response, json_reply, json_response, openai_error_response,
    ErrorFormat, Reply, ReplyView,
};
use crate::text::{
    after, ascii_lower, contains, holds, same, starts, strip_prefix, to_ascii_lower, trim, trimmed,
    views,
};

verus! {

/// What is said of a model.
#[derive(Debug, Clone, PartialEq)]
pub struct ModelInfo {
    pub id: String,
    pub model_type: String,
    pub display_name: String,
    pub created_at: String,
}

/// Whether `m` says of a model what there is to say.
pub open spec fn describes(m: ModelInfo, id: Seq<char>) -> bool {
    &&& m.id@ == id
    &&& m.model_type@ == "model"@
    &&& m.display_name@ == id
    &&& m.created_at@ == "2025-01-01T00:00:00Z"@
}

/// What is said of a model.
pub fn model_info(id: &str) -> (r: ModelInfo)
    ensures
        describes(r, id@),
{
    ModelInfo {
        id: id.to_owned(),
        model_type: "model".to_owned(),
        display_name: id.to_owned(),
        created_at: "2025-01-01T00:00:00Z".to_owned(),
    }
}

/// What is said of each model, in order.
pub fn handle_models(ids: &Vec<String>) -> (r: Vec<ModelInfo>)
    ensures
        r@.len() == ids@.len(),
        forall|i: int| 0 <= i < r@.len() ==> describes(#[trigger] r@[i], ids@[i]@),
{
    let mut r: Vec<ModelInfo> = Vec::new();
    let mut i: usize = 0;
    while i < ids.len()
        invariant
            i <= ids@.len(),
            r@.len() == i,
            forall|j: int| 0 <= j < i ==> describes(#[trigger] r@[j], ids@[j]@),
        decreases ids@.len() - i,
    {
        r.push(model_info(&ids[i]));
        i = i + 1;
    }
    r
}

/// The model that a path names, after either prefix; `None` where it names none.
pub open spec fn model_of_path(path: Seq<char>) -> Option<Seq<char>> {
    let id = if starts(path, "/v1/models/"@) {
        after(path, "/v1/models/"@)
    } else if starts(path, "/models/"@) {
        after(path, "/models/"@)
    } else {
        Seq::empty()
    };
    if id.len() == 0 {
        None
    } else {
        Some(id)
    }
}

/// A model that was not found, answered.
pub open spec fn model_not_found(message: Seq<char>) -> ReplyView {
    ReplyView {
        status: 404,
        headers: seq![("Content-Type"@, "application/json"@)],
        body: compact_json(
            error_body(message, "invalid_request_error"@, ErrorFormat::OpenAI, None),
        ),
    }
}

/// The model that a path names, or the reply where it names none.
pub fn requested_model(path: &str) -> (r: Result<String, Reply>)
    ensures
        match r {
            Ok(id) => model_of_path(path@) == Some(id@),
            Err(reply) => model_of_path(path@) is None && reply@ == model_not_found(
                "Model not found"@,
            ),
        },
{
    let id = match strip_prefix(path, "/v1/models/") {
        Some(t) => t,
        None => match strip_prefix(path, "/models/") {
            Some(t) => t,
            None => String::new(),
        },
    };
    if id.as_str().is_empty() {
        Err(openai_error_response(404, "Model not found", "invalid_request_error"))
    } else {
        Ok(id)
    }
}

/// Whether a list has an id.
pub fn has_id(ids: &Vec<String>, id: &str) -> (r: bool)
    ensures
        r == views(ids@).contains(id@),
{
    let ghost all = views(ids@);
    let mut i: usize = 0;
    while i < ids.len()
        invariant
            i <= ids@.len(),
            all == views(ids@),
            forall|j: int| 0 <= j < i ==> #[trigger] all[j] != id@,
        decreases ids@.len() - i,
    {
        assert(all[i as int] == ids@[i as int]@);
        if same(&ids[i], id) {
            assert(all.contains(id@));
            return true;
        }
        i = i + 1;
    }
    false
}

/// What is said of the model that a request names: found by the id that its alias stands
/// for or, where that is none, by the name itself.
pub fn handle_model_by_id(model_id: &str, canonical: &str, ids: &Vec<String>) -> (r: Result<
    ModelInfo,
    Reply,
>)
    ensures
        if views(ids@).contains(canonical@) {
            r matches Ok(m) && describes(m, canonical@)
        } else if views(ids@).contains(model_id@) {
            r matches Ok(m) && describes(m, model_id@)
        } else {
            r matches Err(reply) && reply@ == model_not_found(
                "No model found with id '"@ + model_id@ + "'"@,
            )
        },
{
    if has_id(ids, canonical) {
        Ok(model_info(canonical))
    } else if has_id(ids, model_id) {
        Ok(model_info(model_id))
    } else {
        let mut m = "No model found with id '".to_owned();
        m.push_str(model_id);
        m.push_str("'");
        Err(openai_error_response(404, &m, "invalid_request_error"))
    }
}

/// The kind of request that a model serves, from its name and its family: that of images,
/// of Anthropic's family, which goes by the name `anthropic`, of `gpt-oss`, or else of
/// `gemini`.
pub open spec fn request_type(
    model: Seq<char>,
    family: Seq<char>,
    anthropic: Seq<char>,
) -> Seq<char> {
    if holds(ascii_lower(model), "image"@) {
        "image_gen"@
    } else if family == anthropic {
        anthropic
    } else if family == "gpt-oss"@ {
        "gpt-oss"@
    } else {
        "gemini"@
    }
}

/// The kind of request that a model serves.
pub fn detect_model_request_type<'a>(model: &str, family: &str, anthropic: &'a str) -> (r: &'a str)
    ensures
        r@ == request_type(model@, family@, anthropic@),
{
    let lower = to_ascii_lower(model);
    if contains(&lower, "image") {
        "image_gen"
    } else if same(family, anthropic) {
        anthropic
    } else if same(family, "gpt-oss") {
        "gpt-oss"
    } else {
        "gemini"
    }
}

/// The first thing that is wrong with the model of a request to detect one.
pub open spec fn detect_fault(model: Option<Seq<char>>) -> Option<Seq<char>> {
    match model {
        None => Some("Missing required field: model"@),
        Some(m) => if trimmed(m).len() == 0 {
            Some("model cannot be empty"@)
        } else {
            None
        },
    }
}

/// The model of a request to detect one, or the reply where it is not in order.
pub fn detect_request(model: Option<String>) -> (r: Result<String, Reply>)
    ensures
        match r {
            Ok(m) => detect_fault(opt(model)) is None && model == Some(m),
            Err(reply) => detect_fault(opt(model)) matches Some(f) && reply@ == bad_request(f),
        },
{
    match model {
        None => Err(bad_request_reply("Missing required field: model")),
        Some(m) => {
            if trim(&m).as_str().is_empty() {
                Err(bad_request_reply("model cannot be empty"))
            } else {
                Ok(m)
            }
        },
    }
}

/// What is answered to a request to detect a model.
pub open spec fn detect_json(
    model: Seq<char>,
    mapped: Seq<char>,
    family: Seq<char>,
    anthropic: Seq<char>,
) -> JsonView {
    JsonView::Object(
        Map::empty().insert("model"@, JsonView::Text(model)).insert(
            "mapped_model"@,
            JsonView::Text(mapped),
        ).insert("type"@, JsonView::Text(request_type(mapped, family, anthropic))).insert(
            "features"@,
            JsonView::Object(
                Map::empty().insert("has_web_search"@, JsonView::Bool(false)).insert(
                    "is_image_gen"@,
                    JsonView::Bool(request_type(mapped, family, anthropic) == "image_gen"@),
                ),
            ),
        ),
    )
}

/// The reply to a request to detect a model: what it is mapped to, and of what kind that is.
pub fn handle_model_detect(
    model: &str,
    mapped: &str,
    family: &str,
    anthropic: &str,
    request_id: &str,
) -> (r: Reply)
    ensures
        r@ == json_ok_reply(
            compact_json(detect_json(model@, mapped@, family@, anthropic@)),
            request_id@,
            Some("BYPASS"@),
        ),
{
    let kind = detect_model_request_type(mapped, family, anthropic);
    let features = with(
        with(json_object(), "has_web_search", Json::Bool(false)),
        "is_image_gen",
        Json::Bool(same(kind, "image_gen")),
    );
    let o = with(json_object(), "model", json_str(model));
    let o = with(o, "mapped_model", json_str(mapped));
    let o = with(o, "type", json_str(kind));
    let o = with(o, "features", features);
    json_ok_response(json_text(&o), request_id, Some("BYPASS"))
}

/// A reply of JSON without further headers.
pub open spec fn bare_json(body: JsonView) -> ReplyView {
    ReplyView {
        status: 200,
        headers: seq![("Content-Type"@, "application/json"@)],
        body: compact_json(body),
    }
}

/// A reply of JSON without further headers.
fn bare_json_reply(body: &Json) -> (r: Reply)
    ensures
        r@ == bare_json(body@),
{
    Reply::new(200, json_text(body)).header("Content-Type", "application/json")
}

/// The reply of the statistics endpoint: the statistics of the requests and of the cache.
pub fn handle_stats(requests: Json, cache: Json) -> (r: Reply)
    ensures
        r@ == bare_json(
            JsonView::Object(
                Map::empty().insert("requests"@, requests@).insert("cache"@, cache@),
            ),
        ),
{
    let o = with(with(json_object(), "requests", requests), "cache", cache);
    bare_json_reply(&o)
}

/// What is left of the quota of a model. The fraction is a JSON number.
#[derive(Debug, PartialEq)]
pub struct QuotaEntry {
    pub model_id: String,
    pub remaining_fraction: Json,
    pub reset_time: Option<String>,
}

/// The JSON of a quota.
pub open spec fn quota_json(q: QuotaEntry) -> JsonView {
    JsonView::Object(
        Map::empty().insert("model"@, JsonView::Text(q.model_id@)).insert(
            "remaining_fraction"@,
            q.remaining_fraction@,
        ).insert(
            "reset_time"@,
            match q.reset_time {
                Some(t) => JsonView::Text(t@),
                None => JsonView::Null,
            },
        ),
    )
}

/// What is answered to a request for the limits of the account.
pub open spec fn limits_json(quotas: Seq<QuotaEntry>) -> JsonView {
    JsonView::Object(
        Map::empty().insert("status"@, JsonView::Text("ok"@)).insert(
            "quotas"@,
            JsonView::Array(Seq::new(quotas.len(), |i: int| quota_json(quotas[i]))),
        ),
    )
}

/// The reply with the limits of the account, or with why they could not be had.
pub fn handle_account_limits(quotas: &Result<Vec<QuotaEntry>, String>) -> (r: Reply)
    ensures
        r@ == bare_json(
            match *quotas {
                Ok(q) => limits_json(q@),
                Err(e) => JsonView::Object(
                    Map::empty().insert("status"@, JsonView::Text("error"@)).insert(
                        "message"@,
                        JsonView::Text(e@),
                    ),
                ),
            },
        ),
{
    match quotas {
        Ok(q) => {
            let mut list: Vec<Json> = Vec::new();
            let mut i: usize = 0;
            while i < q.len()
                invariant
                    i <= q@.len(),
                    array_view(list@) == Seq::new(i as nat, |j: int| quota_json(q@[j])),
                decreases q@.len() - i,
            {
                let o = with(json_object(), "model", json_str(&q[i].model_id));
                let o = with(o, "remaining_fraction", q[i].remaining_fraction.clone());
                let reset = match &q[i].reset_time {
                    Some(t) => json_str(t),
                    None => Json::Null,
                };
                let ghost before = list@;
                list.push(with(o, "reset_time", reset));
                assert(list@.drop_last() =~= before);
                i = i + 1;
                assert(array_view(list@) =~= Seq::new(i as nat, |j: int| quota_json(q@[j])));
            }
            let o = with(json_object(), "status", json_str("ok"));
            let o = with(o, "quotas", Json::Array(list));
            bare_json_reply(&o)
        },
        Err(e) => {
            let o = with(json_object(), "status", json_str("error"));
            let o = with(o, "message", json_str(e));
            bare_json_reply(&o)
        },
    }
}

/// When a quota is reset, as the accounts keep it: zero where it does not say, or not in a
/// readable form.
pub fn quota_reset_secs(q: &QuotaEntry) -> (r: u64)
    ensures
        r == (match q.reset_time {
            Some(t) => match crate::usage::reset_secs(t@) {
                Some(n) => n,
                None => 0,
            },
            None => 0,
        }),
{
    match &q.reset_time {
        Some(t) => match crate::usage::parse_reset_time(t) {
            Some(n) => n,
            None => 0,
        },
        None => 0,
    }
}

/// What a request to warm up asks for.
#[derive(Debug, Clone, PartialEq)]
pub struct WarmupPlan {
    pub requested_model: String,
    pub refresh_quotas: bool,
}

/// What a request to warm up asks for, or the reply where no account can serve it.
pub fn plan_warmup(
    has_enabled_accounts: bool,
    model: Option<String>,
    refresh_quotas: Option<bool>,
) -> (r: Result<WarmupPlan, Reply>)
    ensures
        if has_enabled_accounts {
            r matches Ok(p) && p.requested_model@ == or_else(opt(model), "gemini-3-flash"@)
                && p.refresh_quotas == match refresh_quotas {
                Some(b) => b,
                None => true,
            }
        } else {
            r matches Err(reply) && reply@ == json_reply(
                503,
                "{\"status\":\"error\",\"message\":\"No enabled accounts configured. Run 'agcp login' first.\"}"@,
            )
        },
{
    if !has_enabled_accounts {
        return Err(
            json_response(
                503,
                "{\"status\":\"error\",\"message\":\"No enabled accounts configured. Run 'agcp login' first.\"}",
            ),
        );
    }
    let requested_model = match model {
        Some(m) => m,
        None => "gemini-3-flash".to_owned(),
    };
    Ok(
        WarmupPlan {
            requested_model,
            refresh_quotas: match refresh_quotas {
                Some(b) => b,
                None => true,
            },
        },
    )
}

/// The reply to a request to warm up that was served.
pub fn warmup_reply(
    model: &str,
    refresh_quotas: bool,
    quotas_refreshed: usize,
    request_id: &str,
) -> (r: Reply)
    ensures
        r@ == json_ok_reply(
            compact_json(
                JsonView::Object(
                    Map::empty().insert("status"@, JsonView::Text("ok"@)).insert(
                        "model"@,
                        JsonView::Text(model@),
                    ).insert("warmed_up"@, JsonView::Bool(true)).insert(
                        "refresh_quotas"@,
                        JsonView::Bool(refresh_quotas),
                    ).insert("quotas_refreshed"@, uint(quotas_refreshed as u64)),
                ),
            ),
            request_id@,
            Some("BYPASS"@),
        ),
{
    let o = with(json_object(), "status", json_str("ok"));
    let o = with(o, "model", json_str(model));
    let o = with(o, "warmed_up", Json::Bool(true));
    let o = with(o, "refresh_quotas", Json::Bool(refresh_quotas));
    let o = with(o, "quotas_refreshed", json_uint(quotas_refreshed as u64));
    json_ok_response(json_text(&o), request_id, Some("BYPASS"))
}

/// The model that a path names is the one that was put there, with the version before it or
/// without.
pub proof fn paths_name_their_model(id: Seq<char>)
    requires
        id.len() > 0,
    ensures
        model_of_path("/v1/models/"@ + id) == Some(id),
        model_of_path("/models/"@ + id) == Some(id),
        model_of_path("/v1/models/"@) is None,
        model_of_path("/models/"@) is None,
{
    reveal_strlit("/v1/models/");
    reveal_strlit("/models/");
    let a = "/v1/models/"@ + id;
    let b = "/models/"@ + id;
    assert(a.subrange(0, "/v1/models/"@.len() as int) =~= "/v1/models/"@);
    assert(after(a, "/v1/models/"@) =~= id);
    assert(b.subrange(0, "/models/"@.len() as int) =~= "/models/"@);
    assert(after(b, "/models/"@) =~= id);
    assert(b[1] == 'm');
    assert("/v1/models/"@[1] == 'v');
    assert(!starts(b, "/v1/models/"@)) by {
        if starts(b, "/v1/models/"@) {
            assert(b.subrange(0, "/v1/models/"@.len() as int)[1] == b[1]);
        }
    }
    let c = "/v1/models/"@;
    assert(c.subrange(0, c.len() as int) =~= c);
    let d = "/models/"@;
    assert(d.len() < c.len());
    assert(d.subrange(0, d.len() as int) =~= d);
}

/// A model for images is one whose name says so, in any case, whatever its family; else the
/// family decides, and one that is not known counts as Gemini's.
pub proof fn kinds_follow_names_and_families(
    model: Seq<char>,
    family: Seq<char>,
    anthropic: Seq<char>,
)
    requires
        anthropic != "image_gen"@,
        anthropic != "gpt-oss"@,
        anthropic != "gemini"@,
    ensures
        request_type(model, family, anthropic) == "image_gen"@ <==> holds(
            ascii_lower(model),
            "image"@,
        ),
        !holds(ascii_lower(model), "image"@) ==> (request_type(model, family, anthropic)
            == anthropic <==> family == anthropic) && (request_type(model, family, anthropic)
            == "gpt-oss"@ <==> family == "gpt-oss"@) && (request_type(model, family, anthropic)
            == "gemini"@ <==> family != anthropic && family != "gpt-oss"@),
{
    reveal_strlit("image_gen");
    reveal_strlit("gpt-oss");
    reveal_strlit("gemini");
    assert("image_gen"@.len() != "gpt-oss"@.len());
    assert("image_gen"@.len() != "gemini"@.len());
    assert("gpt-oss"@.len() != "gemini"@.len());
}

/// What is answered of a model gives the name that was asked, the one it is mapped to, and its
/// kind, of which the features say the same.
pub proof fn detections_are_answered_whole(
    model: Seq<char>,
    mapped: Seq<char>,
    family: Seq<char>,
    anthropic: Seq<char>,
)
    ensures
        ({
            let v = detect_json(model, mapped, family, anthropic);
            &&& crate::json::entry(v, "model"@) == Some(JsonView::Text(model))
            &&& crate::json::entry(v, "mapped_model"@) == Some(JsonView::Text(mapped))
            &&& crate::json::entry(v, "type"@) == Some(
                JsonView::Text(request_type(mapped, family, anthropic)),
            )
            &&& crate::json::entry(v, "features"@) matches Some(f) && crate::json::entry(
                f,
                "is_image_gen"@,
            ) == Some(JsonView::Bool(request_type(mapped, family, anthropic) == "image_gen"@))
        }),
{
    reveal_strlit("model");
    reveal_strlit("mapped_model");
    reveal_strlit("type");
    reveal_strlit("features");
    assert("model"@.len() != "mapped_model"@.len());
    assert("model"@.len() != "type"@.len());
    assert("model"@.len() != "features"@.len());
    assert("mapped_model"@.len() != "type"@.len());
    assert("mapped_model"@.len() != "features"@.len());
    assert("type"@.len() != "features"@.len());
    reveal_strlit("has_web_search");
    reveal_strlit("is_image_gen");
    assert("has_web_search"@.len() != "is_image_gen"@.len());
}

/// The limits of an account are answered whole: every quota, in order, with its model, what is
/// left of it and when it is reset.
pub proof fn quotas_are_answered_whole(quotas: Seq<QuotaEntry>)
    ensures
        crate::json::entry(limits_json(quotas), "status"@) == Some(JsonView::Text("ok"@)),
        crate::json::entry(limits_json(quotas), "quotas"@) matches Some(JsonView::Array(l))
            && l.len() == quotas.len() && forall|i: int|
            0 <= i < quotas.len() ==> crate::json::entry(#[trigger] l[i], "model"@) == Some(
                JsonView::Text(quotas[i].model_id@),
            ) && crate::json::entry(l[i], "remaining_fraction"@) == Some(
                quotas[i].remaining_fraction@,
            ) && crate::json::entry(l[i], "reset_time"@) == Some(
                match quotas[i].reset_time {
                    Some(t) => JsonView::Text(t@),
                    None => JsonView::Null,
                },
            ),
{
    reveal_strlit("status");
    reveal_strlit("quotas");
    assert("status"@[0] != "quotas"@[0]);
    reveal_strlit("model");
    reveal_strlit("remaining_fraction");
    reveal_strlit("reset_time");
    assert("model"@.len() != "remaining_fraction"@.len());
    assert("model"@.len() != "reset_time"@.len());
    assert("remaining_fraction"@.len() != "reset_time"@.len());
}

/// A request to detect a model is in order exactly where it names one that is not blank.
pub proof fn detections_need_a_model(model: Option<Seq<char>>)
    ensures
        detect_fault(model) is None <==> (model matches Some(m) && trimmed(m).len() > 0),
{
}

/// A model that is not there is answered with 404 and the message.
pub proof fn missing_models_are_not_found(message: Seq<char>)
    ensures
        model_not_found(message).status == 404,
        model_not_found(message).body == compact_json(
            error_body(message, "invalid_request_error"@, ErrorFormat::OpenAI, None),
        ),
{
}

/// What is found is answered with 200, as the JSON that it is.
pub proof fn found_values_are_answered(body: JsonView)
    ensures
        bare_json(body).status == 200,
        bare_json(body).body == compact_json(body),
{
}

} // verus!
