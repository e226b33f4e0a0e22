use std::collections::VecDeque;

use agcp::clock::{
    current_time_secs, day_of_year_to_month_day, is_leap_year, now_secs, parse_timestamp,
    stamp_of, stamp_of_unix, Moment,
};
use agcp::log_reader::{
    append_entries, entries_of, read_new_lines, tailed_entry, TailReader, MAX_LOG_ENTRIES,
    READ_CHUNK_SIZE,
};
use agcp::log_stream::{
    handle_logs_stream, line_frames, logs_file_path, read_log_tail_lines, strip_ansi_codes,
    LogFollower,
};
use agcp::logs::{
    build_rate_history, calculate_avg_response_time, calculate_requests_per_min,
    count_requests_from_logs, find_daemon_start_time, parse_daemon_start_from_line, LogEntry,
    LogLevel, ServerStatus,
};
use agcp::order::{names_in_order, sorted_names, text_precedes};
use agcp::provider::{join_path, parse_pid, stats_path, token_history_path, DataProvider};
use agcp::usage::{
    parse_reset_time, parse_token_stats, ModelTokenStats, TokenHistory, TokenStats,
    TOKEN_HISTORY_MAX_POINTS,
};

const REQUEST: &str = "2026-02-05T21:25:01.034804Z  INFO Request completed method=POST path=/messages duration_ms=120";

fn entry(line: &str) -> LogEntry {
    LogEntry::new(line.to_string())
}

#[test]
fn a_moment_is_a_number_of_seconds() {
    let days = 6 * 365 + 30 + 5;
    let want = days * 86400 + 21 * 3600 + 25 * 60 + 1;
    assert_eq!(parse_timestamp("2026-02-05T21:25:01"), Some(want));
    let m = Moment { year: 2026, month: 2, day: 5, hour: 21, minute: 25, second: 1 };
    assert_eq!(stamp_of(m), want);
    assert_eq!(stamp_of_unix(1_770_326_701), want);
    assert_eq!(parse_timestamp("2026-02-05"), None);
    assert_eq!(parse_timestamp("2026-02T21:25:01"), None);
    assert_eq!(parse_timestamp("2026-02-05T21:25"), None);
}

#[test]
fn days_of_the_year() {
    assert!(is_leap_year(2024) && is_leap_year(2000));
    assert!(!is_leap_year(1900) && !is_leap_year(2026));
    assert_eq!(day_of_year_to_month_day(0, false), (1, 1));
    assert_eq!(day_of_year_to_month_day(59, false), (3, 1));
    assert_eq!(day_of_year_to_month_day(59, true), (2, 29));
    assert_eq!(day_of_year_to_month_day(364, false), (12, 31));
    assert_eq!(day_of_year_to_month_day(400, false), (12, 31));
}

#[test]
fn the_clock_runs() {
    let a = now_secs();
    assert!(a > 1_700_000_000);
    assert!(stamp_of_unix(a) <= current_time_secs());
}

#[test]
fn levels_are_read_from_a_line() {
    assert_eq!(LogLevel::parse("t DEBUG x"), LogLevel::Debug);
    assert_eq!(LogLevel::parse("t  WARN x"), LogLevel::Warn);
    assert_eq!(LogLevel::parse("ERROR x"), LogLevel::Error);
    assert_eq!(LogLevel::parse("t  INFO x"), LogLevel::Info);
    assert_eq!(LogLevel::parse("anything"), LogLevel::Info);
}

#[test]
fn requests_are_recognised() {
    let e = entry(&format!("\x1b[2m{REQUEST}\x1b[0m"));
    assert_eq!(e.line, REQUEST);
    assert!(e.is_request);
    assert_eq!(e.timestamp_secs, parse_timestamp("2026-02-05T21:25:01"));
    assert_eq!(e.account_email, None);
    let e = entry("2026-02-06T11:53:09.1Z  INFO Model used model=m-1 account=a@b.c");
    assert!(!e.is_request);
    assert_eq!(e.account_email.as_deref(), Some("a@b.c"));
    assert_eq!(e.timestamp_secs, None);
}

#[test]
fn a_log_is_summed_up() {
    let mut logs = VecDeque::new();
    logs.push_back(entry("2026-02-05T21:00:00.1Z  INFO Server listening address=x"));
    logs.push_back(entry(REQUEST));
    logs.push_back(entry(
        "2026-02-05T21:25:03.0Z  INFO Request completed path=/v1/messages duration_ms=80",
    ));
    for m in ["b", "a", "b"] {
        logs.push_back(entry(&format!("x  INFO Model used model={m} request_id=1")));
    }
    let now = parse_timestamp("2026-02-05T21:25:03").unwrap();
    let (total, models) = count_requests_from_logs(&logs);
    assert_eq!(total, 2);
    let list: Vec<(&str, u64)> = models.iter().map(|m| (m.model.as_str(), m.requests)).collect();
    assert_eq!(list, vec![("b", 2), ("a", 1)]);
    assert_eq!(calculate_avg_response_time(&logs), Some(100));
    assert_eq!(calculate_requests_per_min(&logs, now), 2);
    assert_eq!(calculate_requests_per_min(&logs, now + 61), 0);
    assert_eq!(find_daemon_start_time(&logs), parse_timestamp("2026-02-05T21:00:00"));
    let history = build_rate_history(&logs, now);
    assert_eq!(history.len(), 60);
    assert_eq!((history[59], history[57]), (1, 1));
    assert_eq!(history.iter().sum::<u64>(), 2);
    assert_eq!(build_rate_history(&logs, 0), vec![0; 60]);
    assert_eq!(calculate_avg_response_time(&VecDeque::new()), None);
}

#[test]
fn the_start_of_the_daemon_is_in_a_line() {
    let line = "\x1b[2m2026-02-05T12:39:09.607047Z\x1b[0m \x1b[32m INFO\x1b[0m Server listening address=x";
    assert_eq!(parse_daemon_start_from_line(line), parse_timestamp("2026-02-05T12:39:09"));
    assert_eq!(parse_daemon_start_from_line(REQUEST), None);
}

fn tail_of(content: &[u8], limit: usize) -> TailReader {
    let mut reader = TailReader::new(content.len() as u64, limit, true);
    while let Some((offset, len)) = reader.next_read() {
        let from = offset as usize;
        reader.feed(content[from..from + len as usize].to_vec());
    }
    reader
}

#[test]
fn the_last_lines_of_a_file() {
    let reader = tail_of(b"one\ntwo\nthree\n", 10);
    assert_eq!(reader.last_lines(2), vec!["two", "three"]);
    assert_eq!(reader.last_lines(9), vec!["one", "two", "three"]);
    assert!(tail_of(b"", 10).is_of_empty_file());
    let start = tail_of(b"a\nServer listening 1\nb\nServer listening 2\nc\n", 10);
    assert_eq!(start.server_start_line().as_deref(), Some("Server listening 2"));
    assert_eq!(reader.server_start_line(), None);
}

#[test]
fn the_last_start_is_found_however_far_up_it_stands() {
    let mut content = "Server listening 1\nServer listening 2\n".to_string();
    for i in 0..60_000 {
        content.push_str(&format!("line {i}\n"));
    }
    let reader = tail_of(content.as_bytes(), 5);
    assert_eq!(reader.server_start_line().as_deref(), Some("Server listening 2"));
    assert_eq!(reader.last_lines(1), vec!["line 59999"]);
    content.push_str("Server listening 3\nend\n");
    let reader = tail_of(content.as_bytes(), 5);
    assert_eq!(reader.server_start_line().as_deref(), Some("Server listening 3"));
}

#[test]
fn large_files_are_read_from_their_end() {
    let mut content = String::new();
    for i in 0..30_000 {
        content.push_str(&format!("line {i}\n"));
    }
    assert!(content.len() as u64 > 3 * READ_CHUNK_SIZE);
    let mut reader = TailReader::new(content.len() as u64, 5, false);
    let mut reads = 0;
    while let Some((offset, len)) = reader.next_read() {
        let from = offset as usize;
        reader.feed(content.as_bytes()[from..from + len as usize].to_vec());
        reads += 1;
    }
    assert_eq!(reads, 1);
    assert_eq!(reader.last_lines(2), vec!["line 29998", "line 29999"]);
    let all = tail_of(content.as_bytes(), 40_000);
    assert_eq!(all.last_lines(40_000).len(), 30_000);
}

#[test]
fn only_the_newest_entries_stay() {
    let mut logs = VecDeque::new();
    let many: Vec<LogEntry> = (0..MAX_LOG_ENTRIES + 3).map(|i| entry(&format!("l{i}"))).collect();
    append_entries(&mut logs, many);
    assert_eq!(logs.len(), MAX_LOG_ENTRIES);
    assert_eq!(logs[0].line, "l3");
    assert_eq!(entries_of(vec!["a".to_string(), "b".to_string()]).len(), 2);
    assert_eq!(tailed_entry("  \r\n"), None);
    assert_eq!(tailed_entry("x\r\n").unwrap().line, "x");
    let fresh = read_new_lines(&vec!["a\n".to_string(), "\n".to_string(), "b".to_string()]);
    assert_eq!(fresh.len(), 2);
}

#[test]
fn escapes_are_taken_out_of_a_stream() {
    assert_eq!(strip_ansi_codes("\x1b[31mred\x1b[0m plain"), "red plain");
    assert_eq!(strip_ansi_codes("\x1b]x"), "]x");
    assert_eq!(strip_ansi_codes("\x1b[12;"), "");
    assert_eq!(
        line_frames(&vec!["\x1b[1mhi\x1b[0m".to_string()]),
        vec!["data: hi\n\n".to_string()]
    );
    assert_eq!(read_log_tail_lines(&None, 10), vec!["No log file available"]);
    assert_eq!(read_log_tail_lines(&Some(tail_of(b"", 11)), 10), vec!["No log entries"]);
    assert_eq!(read_log_tail_lines(&Some(tail_of(b"a\nb\n", 2)), 1), vec!["b"]);
    assert!(logs_file_path(Some("/home/u")).starts_with("/home/u/"));
    assert_eq!(handle_logs_stream().status, 200);
}

#[test]
fn a_log_is_followed() {
    let mut follower = LogFollower::new(10);
    assert_eq!(follower.poll(10), None);
    assert_eq!(follower.poll(14), Some(10));
    assert_eq!(follower.take(14, &b"ab\ncd".to_vec()), vec!["data: ab\n\n"]);
    assert_eq!(follower.partial, "cd");
    assert_eq!(follower.poll(3), Some(0));
    assert_eq!(follower.partial, "");
}

#[test]
fn names_are_put_in_order() {
    assert!(text_precedes("a", "b") && text_precedes("a", "ab"));
    assert!(!text_precedes("b", "a") && !text_precedes("a", "a"));
    let names = |l: &[&str]| -> Vec<String> { l.iter().map(|s| s.to_string()).collect() };
    assert_eq!(sorted_names(&names(&["b", "a", "c"])), names(&["a", "b", "c"]));
    assert_eq!(names_in_order(&names(&["b", "a", "b"])), names(&["a", "b"]));
}

#[test]
fn files_of_the_daemon() {
    assert_eq!(join_path("/a", "b"), "/a/b");
    assert_eq!(DataProvider::get_log_path("/c"), "/c/agcp.log");
    assert_eq!(DataProvider::get_pid_path("/c"), "/c/agcp.pid");
    assert_eq!(token_history_path("/c"), "/c/token_history.json");
    assert!(stats_path("/c").starts_with("/c/"));
    assert_eq!(parse_pid(" 42\n"), Some(42));
    assert_eq!(parse_pid("x"), None);
    assert_eq!(DataProvider::get_server_status(Some(1), true), ServerStatus::Running);
    assert_eq!(DataProvider::get_server_status(Some(1), false), ServerStatus::Stopped);
    assert_eq!(DataProvider::get_server_status(None, true), ServerStatus::Stopped);
    assert!(ServerStatus::Running.is_running());
}

fn stats(model: &str, input: u64, output: u64) -> TokenStats {
    TokenStats {
        models: vec![ModelTokenStats {
            model: model.to_string(),
            input_tokens: input,
            output_tokens: output,
            cache_read_tokens: 0,
        }],
        total_input_tokens: input,
        total_output_tokens: output,
        total_cache_read_tokens: 0,
    }
}

#[test]
fn snapshots_make_a_series() {
    let mut history = TokenHistory::new();
    assert!(!history.push_at(&stats("a", 0, 0), 100));
    assert!(history.push_at(&stats("a", 1, 2), 100));
    assert!(history.push_at(&stats("b", 5, 0), 160));
    let series = history.get_cumulative_series();
    assert_eq!(
        series,
        vec![
            ("a".to_string(), vec![(0, 3), (60, 0)]),
            ("b".to_string(), vec![(0, 0), (60, 5)]),
        ]
    );
    assert_eq!(history.time_range_secs(400), Some(300));
    assert_eq!(TokenHistory::new().time_range_secs(400), None);
}

#[test]
fn old_snapshots_are_dropped() {
    let mut history = TokenHistory::new();
    for i in 0..TOKEN_HISTORY_MAX_POINTS as u64 + 2 {
        history.push_at(&stats("a", 1, 1), i);
    }
    assert_eq!(history.snapshots.len(), TOKEN_HISTORY_MAX_POINTS);
    assert_eq!(history.snapshots[0].timestamp, 2);
    assert!(TokenHistory::new().push(&stats("a", 1, 0)));
}

#[test]
fn a_period_ends_with_its_quota() {
    let reset = "1970-01-03T00:00:00Z";
    assert_eq!(parse_reset_time(reset), Some(2 * 86400));
    assert_eq!(parse_reset_time("soon"), None);
    let mut history = TokenHistory::new();
    history.set_period_from_reset_time(reset);
    assert_eq!(history.period_start, Some(86400));
    history.set_period_from_reset_time("soon");
    assert_eq!(history.period_start, Some(86400));
    assert!(!history.should_reset(reset, 2 * 86400));
    history.push_at(&stats("a", 1, 0), 100_000);
    assert!(history.should_reset(reset, 2 * 86400 + 1));
    assert!(!history.should_reset(reset, 2 * 86400));
    assert!(!history.should_reset(reset, 2 * 86400 - 1));
    assert!(!history.should_reset("soon", 2 * 86400 + 1));
    history.reset();
    assert!(history.snapshots.is_empty());
}

#[test]
fn statistics_are_read_from_a_response() {
    let response = "HTTP/1.1 200 OK\r\n\r\n5f\r\n{\"requests\":{\"models\":[{\"model\":\"m\",\"input_tokens\":3,\"output_tokens\":4},{\"input_tokens\":0}],\"token_usage\":{\"total_input_tokens\":3,\"total_output_tokens\":4}}}\r\n0\r\n\r\n";
    let s = parse_token_stats(response).unwrap();
    assert_eq!(s.models.len(), 1);
    assert_eq!(s.models[0].model, "m");
    assert_eq!((s.models[0].input_tokens, s.models[0].output_tokens), (3, 4));
    assert_eq!((s.total_input_tokens, s.total_cache_read_tokens), (3, 0));
    assert_eq!(parse_token_stats("HTTP/1.1 200 OK\r\n\r\nnothing"), None);
    assert_eq!(parse_token_stats("no header"), None);
}

#[test]
fn escapes_are_only_taken_out() {
    for given in ["\x1b[31mred\x1b[0m plain", "\x1b]x", "a\x1b", "\x1b\x1b[1mb", "plain"] {
        let clean = strip_ansi_codes(given);
        let mut rest = given.chars();
        assert!(clean.chars().all(|c| rest.any(|d| d == c)), "{given:?} gave {clean:?}");
    }
}
