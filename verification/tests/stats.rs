use agcp::counter::Counter;
use agcp::errors::Span;
use agcp::stats::{RateHistory, Stats, MAX_TOKEN_EVENTS, SAVE_EVERY};

fn uptime() -> Span {
    Span { secs: 7, nanos: 0 }
}

#[test]
fn test_stats_record_request() {
    let mut stats = Stats::new();
    stats.record_request("sonnet-4-5", "/v1/messages", 100);
    stats.record_request("sonnet-4-5", "/v1/messages", 100);
    stats.record_request("opus-4-5", "/v1/chat/completions", 101);

    let summary = stats.summary(uptime());
    assert_eq!(summary.total_requests, 3);
    assert_eq!(summary.models.len(), 2);
    assert_eq!(summary.endpoints.len(), 2);
}

#[test]
fn test_stats_to_json() {
    let mut stats = Stats::new();
    stats.record_request("test-model", "/v1/messages", 100);

    let json = stats.summary(uptime()).to_json();
    assert!(json.get("uptime_seconds").unwrap().as_u64().is_some());
    assert_eq!(json.get("total_requests").unwrap().as_u64(), Some(1));
}

#[test]
fn test_stats_token_usage() {
    let mut stats = Stats::new();
    stats.record_request("sonnet-4-5", "/v1/messages", 100);
    stats.record_token_usage("sonnet-4-5", 100, 200, 50, 1);
    stats.record_token_usage("sonnet-4-5", 150, 300, 0, 2);
    stats.record_token_usage("gemini-3-flash", 80, 160, 0, 3);

    let summary = stats.summary(uptime());
    let sonnet = summary.models.iter().find(|m| m.model == "sonnet-4-5").unwrap();
    assert_eq!(sonnet.input_tokens, 250);
    assert_eq!(sonnet.output_tokens, 500);
    assert_eq!(sonnet.cache_read_tokens, 50);

    assert_eq!(summary.token_usage.total_input_tokens, 330);
    assert_eq!(summary.token_usage.total_output_tokens, 660);
    assert_eq!(summary.token_usage.total_cache_read_tokens, 50);

    let events = stats.get_token_events();
    assert_eq!(events.len(), 3);
    assert_eq!(events[0].model, "sonnet-4-5");
    assert_eq!(events[2].model, "gemini-3-flash");
}

#[test]
fn test_stats_token_json() {
    let mut stats = Stats::new();
    stats.record_request("test-model", "/v1/messages", 100);
    stats.record_token_usage("test-model", 100, 200, 0, 1);

    let json = stats.summary(uptime()).to_json();
    let token_usage = json.get("token_usage").unwrap();
    assert_eq!(token_usage.get("total_input_tokens").unwrap().as_u64(), Some(100));
    assert_eq!(token_usage.get("total_output_tokens").unwrap().as_u64(), Some(200));

    let model = &json.get("models").unwrap().as_array().unwrap()[0];
    assert_eq!(model.get("input_tokens").unwrap().as_u64(), Some(100));
    assert_eq!(model.get("output_tokens").unwrap().as_u64(), Some(200));
}

#[test]
fn the_statistics_are_saved_every_so_many_requests() {
    let mut stats = Stats::new();
    let mut saves = 0;
    for i in 0..SAVE_EVERY * 2 {
        if stats.record_request("m", "/v1/messages", 1000 + i) {
            saves += 1;
        }
    }
    assert_eq!(saves, 2);
}

#[test]
fn saved_statistics_are_added_when_loaded() {
    let mut stats = Stats::new();
    stats.record_request("a", "/v1/messages", 100);
    stats.record_request("b", "/v1/messages", 100);
    stats.record_token_usage("a", 10, 20, 5, 1);
    let saved = stats.to_persistent();

    let mut again = Stats::new();
    again.record_request("a", "/v1/messages", 200);
    again.load_persistent(&saved);
    let summary = again.summary(uptime());
    assert_eq!(summary.total_requests, 3);
    assert_eq!(again.requests.get("a"), 2);
    assert_eq!(again.requests.get("b"), 1);
    assert_eq!(summary.token_usage.total_input_tokens, 10);
    assert_eq!(summary.token_usage.total_output_tokens, 20);
    assert_eq!(summary.token_usage.total_cache_read_tokens, 5);
}

#[test]
fn only_the_last_token_events_are_kept() {
    let mut stats = Stats::new();
    for i in 0..MAX_TOKEN_EVENTS + 5 {
        stats.record_token_usage("m", i as u32, 0, 0, i as u64);
    }
    let events = stats.get_token_events();
    assert_eq!(events.len(), MAX_TOKEN_EVENTS);
    assert_eq!(events[0].elapsed_secs, 5);
}

#[test]
fn the_rate_is_that_of_the_last_minute() {
    let mut rate = RateHistory::new();
    rate.record(1000);
    rate.record(1000);
    rate.record(1001);
    let history = rate.get_history(1001);
    assert_eq!(history.len(), 60);
    assert_eq!(history[59], 1);
    assert_eq!(history[58], 2);
    assert_eq!(history.iter().sum::<u64>(), 3);
    assert_eq!(rate.get_history(1200).iter().sum::<u64>(), 0);
}

#[test]
fn counters_add_up() {
    let mut counter = Counter::new();
    counter.bump("a", 2);
    counter.bump("b", 3);
    counter.bump("a", 4);
    assert_eq!(counter.len(), 2);
    assert_eq!(counter.get("a"), 6);
    assert_eq!(counter.get("b"), 3);
    assert_eq!(counter.get("c"), 0);
    assert_eq!(counter.total(), 9);
    assert_eq!(counter.name(0), "a");
    assert_eq!(counter.count_at(1), 3);
}

#[test]
fn the_first_second_has_its_own_count() {
    let mut rate = RateHistory::new();
    rate.record(10);
    rate.record(10);
    rate.record(10);
    let history = rate.get_history(11);
    assert_eq!(history.len(), 60);
    assert_eq!(history[58], 3);
    assert_eq!(history.iter().sum::<u64>(), 3);
    rate.record(11);
    assert_eq!(rate.get_history(11)[57..], [0, 3, 1]);
    let mut early = RateHistory::new();
    early.record(0);
    early.record(3);
    assert_eq!(early.get_history(3)[55..], [0, 1, 0, 0, 1]);
}

#[test]
fn loaded_counts_are_added() {
    let mut saved = Stats::new();
    saved.record_request("a", "/x", 1);
    saved.record_request("b", "/x", 1);
    saved.record_token_usage("a", 5, 6, 7, 1);
    let mut stats = Stats::new();
    stats.record_request("b", "/y", 2);
    stats.record_token_usage("a", 1, 1, 1, 2);
    stats.load_persistent(&saved.to_persistent());
    assert_eq!(stats.requests.get("a"), 1);
    assert_eq!(stats.requests.get("b"), 2);
    assert_eq!(stats.endpoint_requests.get("/x"), 2);
    assert_eq!(stats.endpoint_requests.get("/y"), 1);
    assert_eq!(stats.tokens.output.get("a"), 7);
    assert_eq!(stats.get_token_events().len(), 1);
    assert_eq!(stats.get_rate_history(2)[59], 1);
}

#[test]
fn recorded_tokens_add_up() {
    let mut stats = Stats::new();
    stats.record_request("a", "/v1/messages", 1);
    stats.record_token_usage("a", 10, 20, 5, 1);
    stats.record_token_usage("b", 7, 8, 9, 2);
    stats.record_token_usage("a", 1, 2, 3, 3);
    assert_eq!((stats.tokens.input.get("a"), stats.tokens.input.get("b")), (11, 7));
    assert_eq!((stats.tokens.output.get("a"), stats.tokens.output.get("b")), (22, 8));
    assert_eq!((stats.tokens.cache_read.get("a"), stats.tokens.cache_read.get("b")), (8, 9));
    assert_eq!(stats.requests.get("a"), 1);
    let events = stats.get_token_events();
    assert_eq!(events.len(), 3);
    assert_eq!((events[2].model.as_str(), events[2].input_tokens), ("a", 1));
}
