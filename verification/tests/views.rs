use std::collections::VecDeque;

use agcp::about_view::about_page;
use agcp::app::{AccountInfo, UpdateStatus};
use agcp::config_editor::{ConfigField, FieldType};
use agcp::config_pane::ConfigPane;
use agcp::highlight::{get_value_style, highlight_log_line, parse_key_value_pairs};
use agcp::lists::{account_spans, config_lines, format_value};
use agcp::log_pane::LogPane;
use agcp::log_view::{log_areas, scrollbar_state, visible_lines};
use agcp::logs::{LogEntry, LogLevel, ServerStatus};
use agcp::mappings_view::{mappings_page, MappingRule, MappingsPane};
use agcp::mouse::get_link_row;
use agcp::panels::{
    able_accounts, format_duration, format_number, format_reset_time, format_tokens,
    format_tokens_short, render_quota_bar, replace, reset_text, shorten_model_name, status_panel,
    truncate, truncate_email, truncate_model_name, StatsPanel,
};
use agcp::popups::{help_left, help_right, runtime_warning};
use agcp::quota_view::{
    account_panel, render_detail_list, render_model_usage, usage_bars, QuotaLine, UsageLine,
};
use agcp::screen::{
    check_size, footer_line, has_token_data, header_status, model_usage_line, models_of_family,
    rate_labels, token_summary, TabBar,
};
use agcp::spans::{tone, Hue, Span};
use agcp::tabs::{Area, Footer, Tab};
use agcp::usage::TokenStats;

fn text(line: &Vec<Span>) -> String {
    let mut r = String::new();
    for s in line {
        r.push_str(&s.text);
    }
    r
}

fn texts(lines: &Vec<Vec<Span>>) -> Vec<String> {
    lines.iter().map(text).collect()
}

#[test]
fn numbers_are_grouped() {
    assert_eq!(format_number(0), "0");
    assert_eq!(format_number(999), "999");
    assert_eq!(format_number(1000), "1,000");
    assert_eq!(format_number(1234567), "1,234,567");
}

#[test]
fn durations_and_tokens_are_short() {
    assert_eq!(format_duration(999, "1.0"), "999ms");
    assert_eq!(format_duration(1500, "1.5"), "1.5s");
    assert_eq!(format_tokens(999, ""), "999");
    assert_eq!(format_tokens(1007, ""), "1,007");
    assert_eq!(format_tokens(12_500, "12.5"), "12.5K");
    assert_eq!(format_tokens(2_500_000, "2.5"), "2.5M");
    assert_eq!(format_tokens_short(999, ""), "999");
    assert_eq!(format_tokens_short(12_500, "12"), "12K");
}

#[test]
fn names_are_shortened() {
    assert_eq!(replace("a-b-a", "a", "xy"), "xy-b-xy");
    assert_eq!(shorten_model_name("own-sonnet-4-20250514", "own"), "sonnet-4");
    assert_eq!(shorten_model_name("gemini-3-flash", "own"), "gem-3-flash");
    assert_eq!(truncate("abcdef", 6), "abcdef");
    assert_eq!(truncate("abcdefg", 6), "abcde\u{2026}");
    assert_eq!(truncate_email("someone@example.com", 10), "someone...");
    assert_eq!(truncate_model_name("own-opus", 25, "own"), "opus");
    assert_eq!(truncate_model_name("gemini-abcdefghij", 8, "own"), "abcde...");
}

#[test]
fn resets_are_told_in_hours() {
    assert_eq!(reset_text("t", Some(-1)), "now");
    assert_eq!(reset_text("t", Some(59)), "0m");
    assert_eq!(reset_text("t", Some(3725)), "1h2m");
    assert_eq!(reset_text("t", None), "t");
    assert_eq!(format_reset_time("1970-01-01T02:05:00Z", 300, 0), "2h0m");
    assert_eq!(format_reset_time("1970-01-01T00:00:00Z", 300, 0), "now");
    assert_eq!(format_reset_time("later", 300, 0), "later");
}

#[test]
fn bars_keep_their_width() {
    assert_eq!(render_quota_bar(2, 4), "\u{2588}\u{2588}\u{2591}\u{2591}");
    assert_eq!(render_quota_bar(0, 0), "");
    assert_eq!(render_quota_bar(4, 4).chars().count(), 4);
}

fn account(enabled: bool, is_invalid: bool) -> AccountInfo {
    AccountInfo {
        id: "i".to_string(),
        email: "someone@example.com".to_string(),
        is_active: true,
        enabled,
        is_invalid,
        subscription_tier: Some("pro".to_string()),
    }
}

#[test]
fn panels_say_how_things_are() {
    assert_eq!(able_accounts(&vec![account(true, false), account(true, true), account(false, false)]), 1);
    let panel = StatsPanel {
        total_requests: 1234,
        requests_per_min: "2.0".to_string(),
        avg_response: Some((1500, format_duration(1500, "1.5"))),
        active_accounts: 1,
        total_accounts: 3,
        quota: Some(("50".to_string(), Hue::Success)),
    };
    let all = texts(&panel.lines(10)).join("\n");
    assert!(all.contains("1,234") && all.contains("1.5s") && all.contains("1/3"));
    let status = texts(&status_panel(ServerStatus::Running, "127.0.0.1", 8080, "5m", &None)).join("\n");
    assert!(status.contains("127.0.0.1") && status.contains("8080"));
    let stopped = texts(&status_panel(ServerStatus::Stopped, "127.0.0.1", 8080, "5m", &None)).join("\n");
    assert_ne!(status, stopped);
}

#[test]
fn quotas_are_listed_by_family() {
    let own = vec![QuotaLine {
        model: "own-opus".to_string(),
        filled: 1,
        percent: 5,
        hue: Hue::Error,
        reset: Some("2h0m".to_string()),
    }];
    let gemini = vec![QuotaLine {
        model: "gemini-3-flash".to_string(),
        filled: 5,
        percent: 100,
        hue: Hue::Success,
        reset: None,
    }];
    let lines = render_detail_list(&own, &gemini, 48, "own");
    let t = texts(&lines);
    assert_eq!(t[0], "Own Models");
    assert_eq!(t[1], "");
    assert_eq!(t[2], format!("{:<25} \u{2588}\u{2591}\u{2591}\u{2591}\u{2591}   5% (2h0m)", "opus"));
    assert_eq!(t[3], "");
    assert_eq!(t[4], "Gemini Models");
    assert_eq!(t[6], format!("{:<25} \u{2588}\u{2588}\u{2588}\u{2588}\u{2588} 100%", "3-flash"));
    assert_eq!(lines[2][4].tone, tone(Hue::Error));
    assert_eq!(lines[6][4].tone, tone(Hue::Dim));
    assert!(render_detail_list(&vec![], &vec![], 48, "own").is_empty());
}

#[test]
fn the_use_of_models_is_listed() {
    let line = UsageLine {
        model: "gemini-3-flash".to_string(),
        filled: 3,
        percent: "75".to_string(),
        hue: Hue::Primary,
    };
    assert_eq!(usage_bars(34), 4);
    assert_eq!(usage_bars(3), 0);
    let lines = render_model_usage(&vec![line.clone(), line.clone()], 4, 34, 1);
    assert_eq!(
        texts(&lines),
        vec![format!("{:<20} \u{2588}\u{2588}\u{2588}\u{2591}  75%", "gemini-3-flash")]
    );
    assert_eq!(texts(&render_model_usage(&vec![line], 0, 34, 1)), vec!["No requests yet"]);
}

#[test]
fn the_account_in_use_is_shown() {
    let lines = texts(&account_panel(Some("a@b.c"), 5, Hue::Success, "50"));
    assert_eq!(lines[0], "a@b.c");
    assert!(lines[1].starts_with("Quota: ") && lines[1].ends_with(" 50%"));
    assert_eq!(texts(&account_panel(None, 0, Hue::Success, "0")), vec!["No active account"]);
}

#[test]
fn popups_have_their_lines() {
    let left = texts(&help_left());
    assert_eq!(left.len(), 23);
    assert_eq!(left[0], "Navigation");
    assert_eq!(left[4], "");
    let right = texts(&help_right());
    assert_eq!(right.len(), 21);
    assert_eq!(right[20], "  q / Esc       Quit");
    assert_eq!(texts(&runtime_warning("m"))[2], "m");
}

#[test]
fn log_lines_keep_their_text() {
    let line = "2026-02-05T21:25:01Z  INFO Request completed status=200 path=/v1/messages";
    let spans = highlight_log_line(line, LogLevel::Info);
    assert_eq!(text(&spans), line);
    assert!(spans.len() > 1);
    let mut pairs = Vec::new();
    parse_key_value_pairs("a=1 b=2", &mut pairs);
    assert_eq!(text(&pairs), "a=1 b=2");
    assert_ne!(get_value_style("status", "200"), get_value_style("status", "500"));
}

fn pane(n: usize) -> LogPane {
    let entries: VecDeque<LogEntry> =
        (0..n).map(|i| LogEntry::new(format!("x  INFO l{i}"))).collect();
    LogPane::new(entries)
}

#[test]
fn the_newest_lines_are_in_sight() {
    let p = pane(30);
    let lines = texts(&visible_lines(&p, 10));
    assert_eq!(lines.len(), 10);
    assert!(lines[9].ends_with("l29"));
    assert_eq!(scrollbar_state(&p, 10).content_length, 30);
    let areas = log_areas(Area { x: 1, y: 1, width: 40, height: 20 }, &p);
    assert!(areas.content.height < 20);
}

#[test]
fn the_link_of_the_about_page_is_in_its_row() {
    let lines = texts(&about_page(80, 40, "1.0.0", "own", false, &UpdateStatus::UpToDate));
    let row = get_link_row(40) as usize;
    assert!(lines[row].contains("https://github.com/"));
    assert!(lines.iter().any(|l| l.contains("Antigravity-Own-Proxy")));
    assert!(lines.iter().any(|l| l.contains("Version 1.0.0")));
    assert!(lines.iter().any(|l| l.contains("Up to date")));
}

#[test]
fn accounts_and_settings_are_lines() {
    let line = text(&account_spans(&account(true, false), true, false, "\u{2588}", Hue::Success, "50"));
    assert!(line.contains("someone@example.com") && line.contains("50"));
    let field = ConfigField::new("server", "port", FieldType::Text, "8080".to_string(), "The port");
    assert_eq!(format_value(&field, true), "8080");
    let p = ConfigPane::new(vec![field]);
    let lines = texts(&config_lines(&p, None, &vec![true]));
    assert!(lines.iter().any(|l| l.contains("port") && l.contains("8080")));
}

#[test]
fn mappings_are_lines() {
    let p = MappingsPane {
        preset_label: "Balanced".to_string(),
        preset_description: "d".to_string(),
        background_model: "gemini-3-flash".to_string(),
        rules: vec![MappingRule { from: "a*".to_string(), to: "gemini-3-pro".to_string() }],
        selected: 0,
        hovered: None,
        editing_from: false,
        edit_buffer: String::new(),
        status: None,
        dirty: false,
    };
    let inner = Area { x: 1, y: 1, width: 80, height: 20 };
    let (lines, _) = mappings_page(&p, inner).unwrap();
    let all = texts(&lines).join("\n");
    assert!(all.contains("Balanced") && all.contains("1 mapping)") && all.contains("a*"));
    assert!(mappings_page(&p, Area { x: 1, y: 1, width: 80, height: 2 }).is_none());
}

#[test]
fn the_screen_has_a_least_size() {
    assert_eq!(check_size(80, 24), None);
    assert!(check_size(10, 24).is_some() && check_size(80, 3).is_some());
}

#[test]
fn bars_at_the_edges_of_the_screen() {
    let titles = TabBar::new(Tab::Logs).hovered(Some(2)).titles();
    assert!(text(&titles).contains("Logs"));
    assert!(text(&header_status(true, tone(Hue::Success))).len() > 0);
    assert_ne!(text(&header_status(true, tone(Hue::Success))), text(&header_status(false, tone(Hue::Success))));
    assert!(text(&footer_line(&Footer::for_tab(Tab::Config))).contains("Save"));
}

#[test]
fn the_axis_has_few_labels() {
    assert_eq!(rate_labels(&vec![0, 0]), None);
    assert_eq!(rate_labels(&vec![1]).unwrap(), vec!["0", "1", "2"]);
    assert_eq!(rate_labels(&vec![4, 2]).unwrap(), vec!["0", "4"]);
    assert_eq!(rate_labels(&vec![9]).unwrap(), vec!["0", "5", "9"]);
}

#[test]
fn tokens_are_summed_up() {
    assert!(!has_token_data(&None));
    let stats = TokenStats {
        models: vec![],
        total_input_tokens: 1,
        total_output_tokens: 0,
        total_cache_read_tokens: 0,
    };
    assert!(has_token_data(&Some(stats)));
    assert_eq!(
        text(&token_summary("1", "2", Some("3"), "4")),
        "  Input: 1    Output: 2    Cached: 3    Total: 4"
    );
    assert_eq!(text(&token_summary("1", "2", None, "4")), "  Input: 1    Output: 2    Total: 4");
    let names = vec!["a".to_string(), "b".to_string()];
    let counts = vec!["1".to_string(), "2".to_string()];
    assert_eq!(text(&model_usage_line(&names, &counts)), "  a 1  b 2");
    let families = vec!["gemini".to_string(), "own".to_string(), "gemini".to_string()];
    assert_eq!(models_of_family(&families, "gemini"), vec![0, 2]);
}

#[test]
fn a_text_that_ends_in_an_equals_sign_is_shown_once() {
    for given in ["key=", "a=1 b=", "some words key=", "=", "a=1  b c="] {
        let mut pairs = Vec::new();
        parse_key_value_pairs(given, &mut pairs);
        assert_eq!(text(&pairs), given);
    }
    let line = "2026-02-05T21:25:01Z  INFO Request completed status=";
    assert_eq!(text(&highlight_log_line(line, LogLevel::Info)), line);
}
