use agcp::gemini::{
    build_gemini_cloudcode_request, count_gemini_part_chars, estimate_gemini_tokens,
    gemini_action_model, gemini_count_reply, gemini_model_descriptor, handle_gemini_count_tokens,
    handle_gemini_model, handle_gemini_models, is_known_gemini_model, parse_gemini_get_model_path,
    parse_gemini_model_path,
};
use agcp::json::{json_str, json_text, json_uint, parse_json, Json};
use agcp::models::{
    detect_model_request_type, detect_request, handle_account_limits, handle_model_by_id,
    handle_model_detect, handle_models, handle_stats, has_id, model_info, plan_warmup,
    quota_reset_secs, requested_model, warmup_reply, QuotaEntry,
};

fn ids() -> Vec<String> {
    vec!["gemini-3-flash".to_string(), "gemini-3-pro".to_string()]
}

fn value(text: &str) -> serde_json::Value {
    serde_json::from_str(text).unwrap()
}

fn one() -> Json {
    parse_json("1.0").unwrap()
}

#[test]
fn models_are_listed() {
    let list = handle_models(&ids());
    assert_eq!(list.len(), 2);
    assert_eq!(list[0].id, "gemini-3-flash");
    assert_eq!(list[0].model_type, "model");
    assert!(has_id(&ids(), "gemini-3-pro"));
    assert!(!has_id(&ids(), "pro"));
    assert_eq!(model_info("x").id, "x");
}

#[test]
fn test_model_by_id_endpoint() {
    assert_eq!(requested_model("/v1/models/gemini-3-flash").unwrap(), "gemini-3-flash");
    let info = handle_model_by_id("gemini-3-flash", "gemini-3-flash", &ids()).unwrap();
    assert_eq!(info.id, "gemini-3-flash");
    assert_eq!(info.model_type, "model");
}

#[test]
fn test_model_by_id_endpoint_alias() {
    assert_eq!(requested_model("/models/flash").unwrap(), "flash");
    assert_eq!(
        handle_model_by_id("flash", "gemini-3-flash", &ids()).unwrap().id,
        "gemini-3-flash"
    );
}

#[test]
fn test_model_by_id_not_found_openai_error_shape() {
    let reply = handle_model_by_id("nope", "nope", &ids()).unwrap_err();
    assert_eq!(reply.status, 404);
    let v = value(&reply.body);
    assert_eq!(v["error"]["type"], "invalid_request_error");
    assert!(v["error"]["code"].is_null());
    assert!(v["error"]["param"].is_null());
    assert_eq!(v["error"]["message"], "No model found with id 'nope'");
    assert!(requested_model("/v1/models/").is_err());
}

#[test]
fn the_kind_of_a_model_is_told() {
    assert_eq!(detect_model_request_type("gemini-3-pro-IMAGE", "gemini", "own"), "image_gen");
    assert_eq!(detect_model_request_type("own-big", "own", "own"), "own");
    assert_eq!(detect_model_request_type("gpt-oss-120b", "gpt-oss", "own"), "gpt-oss");
    assert_eq!(detect_model_request_type("anything", "unknown", "own"), "gemini");
}

#[test]
fn test_models_detect_endpoint() {
    let reply = handle_model_detect("flash", "gemini-3-flash", "gemini", "own", "req_1");
    assert_eq!(reply.status, 200);
    assert!(reply.body.contains("\"model\":\"flash\""));
    assert!(reply.body.contains("\"mapped_model\":\"gemini-3-flash\""));
    assert!(reply.body.contains("\"type\":\"gemini\""));
    assert_eq!(value(&reply.body)["features"]["is_image_gen"], false);
}

#[test]
fn test_models_detect_missing_model() {
    assert_eq!(detect_request(None).unwrap_err().status, 400);
    assert_eq!(detect_request(Some(" ".to_string())).unwrap_err().status, 400);
    assert_eq!(detect_request(Some("m".to_string())).unwrap(), "m");
}

#[test]
fn statistics_are_put_together() {
    let reply = handle_stats(json_uint(1), json_str("c"));
    assert_eq!(reply.body, "{\"cache\":\"c\",\"requests\":1}");
}

#[test]
fn limits_or_why_there_are_none() {
    let quota = QuotaEntry {
        model_id: "m".to_string(),
        remaining_fraction: parse_json("0.5").unwrap(),
        reset_time: Some("1970-01-01T01:00:00Z".to_string()),
    };
    assert_eq!(quota_reset_secs(&quota), 3600);
    let v = value(&handle_account_limits(&Ok(vec![quota])).body);
    assert_eq!(v["status"], "ok");
    assert_eq!(v["quotas"][0]["model"], "m");
    assert_eq!(v["quotas"][0]["remaining_fraction"], 0.5);
    let v = value(&handle_account_limits(&Err("no account".to_string())).body);
    assert_eq!(v["status"], "error");
    assert_eq!(v["message"], "no account");
    let unknown = QuotaEntry {
        model_id: "m".to_string(),
        remaining_fraction: one(),
        reset_time: Some("soon".to_string()),
    };
    assert_eq!(quota_reset_secs(&unknown), 0);
}

#[test]
fn test_internal_warmup_no_accounts() {
    let reply = plan_warmup(false, Some("gemini-3-flash".to_string()), None).unwrap_err();
    assert_eq!(reply.status, 503);
}

#[test]
fn a_warmup_has_defaults() {
    let plan = plan_warmup(true, None, None).unwrap();
    assert_eq!(plan.requested_model, "gemini-3-flash");
    assert!(plan.refresh_quotas);
    let v = value(&warmup_reply("m", true, 3, "r").body);
    assert_eq!(v["warmed_up"], true);
    assert_eq!(v["quotas_refreshed"], 3);
    assert_eq!(v["model"], "m");
}

#[test]
fn gemini_paths_name_a_model() {
    let p = "/v1beta/models/models/gemini-3-flash:countTokens";
    assert_eq!(parse_gemini_model_path(p, ":countTokens").as_deref(), Some("gemini-3-flash"));
    assert_eq!(parse_gemini_model_path("/v1beta/models/:countTokens", ":countTokens"), None);
    assert_eq!(parse_gemini_model_path("/v1/models/x:countTokens", ":countTokens"), None);
    assert_eq!(parse_gemini_get_model_path("/v1beta/models/x").as_deref(), Some("x"));
    assert_eq!(parse_gemini_get_model_path("/v1beta/models/x:y"), None);
    assert_eq!(parse_gemini_get_model_path("/v1beta/models/"), None);
    assert!(is_known_gemini_model(&ids(), "gemini-3-pro"));
    assert!(!is_known_gemini_model(&ids(), "other"));
}

#[test]
fn test_gemini_models_endpoint() {
    let reply = handle_gemini_models(&ids(), &one());
    assert_eq!(reply.status, 200);
    assert!(reply.body.contains("models/gemini-3-flash"));
    let d = value(&json_text(&gemini_model_descriptor("gemini-3-flash", &one())));
    assert_eq!(d["inputTokenLimit"], 1_048_576);
    assert_eq!(d["topK"], 40);
    assert_eq!(d["topP"], 1.0);
    assert_eq!(handle_gemini_model(&ids(), "/v1beta/models/gemini-3-pro", &one()).status, 200);
    assert_eq!(handle_gemini_model(&ids(), "/v1beta/models/none", &one()).status, 404);
}

#[test]
fn test_gemini_count_tokens_endpoint() {
    let path = "/v1beta/models/gemini-3-flash:countTokens";
    let body = "{\"contents\":[{\"role\":\"user\",\"parts\":[{\"text\":\"Hello from Gemini\"}]}]}";
    let reply = handle_gemini_count_tokens(&ids(), path, body).unwrap();
    assert_eq!(reply.status, 200);
    assert_eq!(value(&reply.body)["totalTokens"], 5);
    assert!(gemini_count_reply(5).body.contains("totalTokens"));
    assert_eq!(
        handle_gemini_count_tokens(&ids(), "/v1beta/models/none:countTokens", body).unwrap().status,
        404
    );
    assert_eq!(
        gemini_action_model(&ids(), path, ":countTokens").unwrap(),
        "gemini-3-flash"
    );
}

#[test]
fn gemini_parts_are_counted() {
    let n = |t: &str| count_gemini_part_chars(&parse_json(t).unwrap());
    assert_eq!(n("{\"text\":\"abc\"}"), 3);
    assert_eq!(n("{\"inlineData\":{}}"), 1024);
    assert_eq!(n("{\"inline_data\":{}}"), 1024);
    assert_eq!(n("{\"functionCall\":{\"a\":1}}"), 7);
    assert_eq!(n("{\"function_response\":{\"a\":12}}"), 8);
    assert_eq!(n("{\"other\":1}"), 0);
    assert_eq!(estimate_gemini_tokens(&parse_json("{}").unwrap()), Some(1));
}

#[test]
fn requests_to_cloud_code_are_wrapped() {
    let e = build_gemini_cloudcode_request("p", "m", Some("s".to_string()), "req_1");
    assert_eq!((e.project.as_str(), e.model.as_str(), e.session_id.as_str()), ("p", "m", "s"));
    assert_eq!(e.request_type, "api");
    let e = build_gemini_cloudcode_request("p", "m", None, "req_1");
    assert!(!e.session_id.is_empty());
}
