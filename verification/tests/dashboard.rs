use std::collections::VecDeque;

use agcp::app::{find_active, status_is_due, AccountInfo, App, Background, UpdateEvent, UpdateStatus};
use agcp::config_editor::{
    apply_fields_to_config, build_config_fields, find_text, AccountsConfig, CacheConfig,
    CloudCodeConfig, Config, ConfigField, FieldType, FloatCheck, LoggingConfig, ServerConfig,
};
use agcp::config_pane::ConfigPane;
use agcp::keys::{Action, Key};
use agcp::log_pane::LogPane;
use agcp::logs::{LogEntry, ServerStatus};
use agcp::mouse::{get_link_row, Mouse};
use agcp::provider::{DataProvider, StoredAccount};
use agcp::tabs::{
    calculate_tab_areas, find_hit, is_in_rect, popup_area, Area, Footer, Tab,
};
use agcp::updates::{release_tag, release_url, update_status_of, version_is_newer};
use agcp::warnings::{
    collect_startup_warnings, max_severity, popup_title, StartupState, StartupWarning,
    WarningLevel,
};

fn config() -> Config {
    Config {
        server: ServerConfig {
            port: 8080,
            host: "127.0.0.1".to_string(),
            request_timeout_secs: 300,
        },
        logging: LoggingConfig { debug: false, log_requests: true },
        accounts: AccountsConfig {
            strategy: "hybrid".to_string(),
            quota_threshold: "0.1".to_string(),
            fallback: false,
        },
        cache: CacheConfig { enabled: true, ttl_seconds: 300, max_entries: 100 },
        cloudcode: CloudCodeConfig {
            timeout_secs: 120,
            max_retries: 5,
            max_concurrent_requests: 1,
            min_request_interval_ms: 500,
        },
    }
}

fn entries(lines: &[&str]) -> VecDeque<LogEntry> {
    lines.iter().map(|l| LogEntry::new(l.to_string())).collect()
}

fn account(id: &str, is_active: bool) -> AccountInfo {
    AccountInfo {
        id: id.to_string(),
        email: format!("{id}@example.com"),
        is_active,
        enabled: true,
        is_invalid: false,
        subscription_tier: None,
    }
}

fn app(lines: &[&str]) -> App {
    App::new(
        entries(lines),
        Some(100),
        vec![account("one", true), account("two", false)],
        build_config_fields(&config()),
    )
}

fn press(app: &mut App, key: Key) -> Action {
    app.handle_key(key, FloatCheck::InRange)
}

#[test]
fn tabs_go_round() {
    let all = Tab::all();
    assert_eq!(all.len(), 6);
    for t in &all {
        assert_eq!(t.next().prev(), *t);
        assert_eq!(t.prev().next(), *t);
    }
    assert_eq!(Tab::Overview.name(), "Overview");
    assert_eq!(Tab::About.next(), Tab::Overview);
}

#[test]
fn tabs_have_places() {
    let row = Area { x: 2, y: 1, width: 70, height: 1 };
    let areas = calculate_tab_areas(row);
    assert_eq!(areas.len(), 6);
    for (i, a) in areas.iter().enumerate() {
        assert_eq!(find_hit(&areas, a.x, a.y), Some(i));
    }
    assert_eq!(find_hit(&areas, 0, 0), None);
    assert!(is_in_rect(2, 1, row) && !is_in_rect(72, 1, row) && !is_in_rect(2, 2, row));
    let popup = popup_area(Area { x: 0, y: 0, width: 100, height: 40 }, 80, 25);
    assert_eq!(popup, Area { x: 10, y: 7, width: 80, height: 25 });
    let small = popup_area(Area { x: 0, y: 0, width: 20, height: 10 }, 80, 25);
    assert_eq!((small.width, small.height), (16, 6));
    assert!(!Footer::for_tab(Tab::Logs).keybinds.is_empty());
}

#[test]
fn keys_switch_tabs_and_quit() {
    let mut a = app(&[]);
    assert_eq!(a.shell.current_tab, Tab::Overview);
    press(&mut a, Key::Tab);
    assert_eq!(a.shell.current_tab, Tab::Logs);
    press(&mut a, Key::BackTab);
    assert_eq!(a.shell.current_tab, Tab::Overview);
    press(&mut a, Key::Char('3'));
    assert_eq!(a.shell.current_tab, Tab::Accounts);
    press(&mut a, Key::Char('?'));
    assert!(a.shell.show_help);
    press(&mut a, Key::Esc);
    assert!(!a.shell.show_help && a.shell.running);
    press(&mut a, Key::Char('q'));
    assert!(!a.shell.running);
}

#[test]
fn any_character_can_be_typed_into_a_text() {
    let mut a = app(&[]);
    press(&mut a, Key::Char('4'));
    press(&mut a, Key::Down);
    assert_eq!(a.config.fields[a.config.selected].key, "host");
    press(&mut a, Key::Enter);
    assert!(a.config.editing);
    let before = a.config.edit_buffer.clone();
    press(&mut a, Key::Char('q'));
    press(&mut a, Key::Char('?'));
    press(&mut a, Key::Char('1'));
    assert_eq!(a.config.edit_buffer, before + "q?1");
    assert!(a.shell.running && !a.shell.show_help && a.config.editing);
    assert_eq!(a.shell.current_tab, Tab::Config);
}

#[test]
fn warnings_come_first() {
    let mut a = app(&[]);
    a.poll_startup_warnings(vec![StartupWarning::error("t", "m")]);
    assert!(a.show_startup_warnings);
    press(&mut a, Key::Char('3'));
    assert_eq!(a.shell.current_tab, Tab::Overview);
    press(&mut a, Key::Enter);
    assert!(!a.show_startup_warnings);
}

#[test]
fn accounts_are_chosen() {
    let mut a = app(&[]);
    press(&mut a, Key::Char('3'));
    press(&mut a, Key::Down);
    assert_eq!(a.account_selected, 1);
    assert_eq!(press(&mut a, Key::Enter), Action::ActivateAccount("two".to_string()));
    assert_eq!(press(&mut a, Key::Char('e')), Action::ToggleAccount("two".to_string()));
    assert_eq!(press(&mut a, Key::Char('r')), Action::RefreshAccounts);
    a.refresh_accounts(vec![account("one", true)]);
    assert_eq!(a.accounts.len(), 1);
    let accounts = vec![account("one", true)];
    assert_eq!(find_active(&accounts, &vec![true]), Some(0));
}

#[test]
fn the_active_account_is_told() {
    let stored = |id: &str| StoredAccount {
        id: id.to_string(),
        email: format!("{id}@example.com"),
        enabled: true,
        is_invalid: false,
        subscription_tier: None,
    };
    let list = vec![stored("one"), stored("two")];
    let shown = DataProvider::get_accounts(&list, &Some("two".to_string()));
    assert_eq!(shown, vec![account("one", false), account("two", true)]);
    assert!(DataProvider::get_accounts(&list, &None).iter().all(|a| !a.is_active));
}

#[test]
fn the_log_is_searched() {
    let mut a = app(&["x  INFO Alpha", "x ERROR beta", "x  INFO gamma account=a@b.c"]);
    press(&mut a, Key::Char('2'));
    assert_eq!(a.shell.current_tab, Tab::Logs);
    press(&mut a, Key::Char('/'));
    assert!(a.log.search_active);
    for c in "alpha".chars() {
        press(&mut a, Key::Char(c));
    }
    assert_eq!(a.shell.current_tab, Tab::Logs);
    assert_eq!(a.log.search_query, "alpha");
    assert_eq!(a.log.filtered_indices, vec![0]);
    press(&mut a, Key::Esc);
    assert!(!a.log.search_active);
    assert_eq!(
        a.log_account_emails(),
        vec!["a@b.c".to_string(), "one@example.com".to_string(), "two@example.com".to_string()]
    );
}

#[test]
fn levels_are_turned_on_and_off() {
    let mut pane = LogPane::new(entries(&["x  INFO a", "x ERROR b", "x DEBUG c"]));
    pane.refilter();
    let all = pane.filtered_indices.clone();
    assert_eq!(all, vec![0, 1, 2]);
    assert!(!pane.has_active_filter());
    pane.toggle_level(3);
    assert!(pane.has_active_filter());
    assert!(!pane.filtered_indices.contains(&1));
    assert_eq!(pane.filtered_indices, vec![0, 2]);
    pane.toggle_level(3);
    assert_eq!(pane.filtered_indices, all);
    pane.clear_filters();
    assert!(!pane.has_active_filter());
}

#[test]
fn the_log_is_scrolled() {
    let lines: Vec<String> = (0..50).map(|i| format!("x  INFO l{i}")).collect();
    let refs: Vec<&str> = lines.iter().map(|s| s.as_str()).collect();
    let mut a = app(&refs);
    a.scroll_logs_up(7);
    assert_eq!(a.log.scroll, 7);
    assert!(!a.log.auto_scroll);
    a.scroll_logs_down(7);
    assert_eq!(a.log.scroll, 0);
    assert!(a.log.auto_scroll);
    a.scroll_logs_up(1000);
    assert_eq!(a.log.scroll, 49);
    a.scroll_activity_up(3);
    assert_eq!(a.log.activity_scroll, 3);
    a.scroll_activity_down(5);
    assert_eq!(a.log.activity_scroll, 0);
}

#[test]
fn new_lines_change_the_overview() {
    let mut a = app(&[]);
    let line = "2026-02-05T21:25:01.0Z  INFO Request completed path=/messages duration_ms=40";
    a.refresh_logs(vec![LogEntry::new(line.to_string())], 200);
    assert_eq!(a.overview.request_count, 1);
    assert_eq!(a.overview.avg_response_ms, Some(40));
    assert_eq!(a.log.entries.len(), 1);
    assert!(!a.get_daemon_uptime(100 + 3725).is_empty());
}

#[test]
fn every_changed_field_reads_back() {
    let mut other = config();
    other.server.port = 9000;
    other.server.host = "0.0.0.0".to_string();
    other.logging.debug = true;
    other.accounts.strategy = "sticky".to_string();
    other.accounts.quota_threshold = "0.25".to_string();
    other.cache.ttl_seconds = 60;
    other.cloudcode.max_retries = 2;
    let values = build_config_fields(&other);
    for k in 0..values.len() {
        let mut changed = build_config_fields(&config());
        changed[k].value = values[k].value.clone();
        let after = build_config_fields(&apply_fields_to_config(config(), &changed, true));
        assert_eq!(after.len(), changed.len());
        for i in 0..after.len() {
            assert_eq!(after[i].value, changed[i].value, "{}", after[i].key);
        }
    }
}

#[test]
fn settings_become_fields_and_back() {
    let c = config();
    let fields = build_config_fields(&c);
    assert_eq!(apply_fields_to_config(config(), &fields, true), c);
    let mut changed = build_config_fields(&c);
    let at = changed.iter().position(|f| f.key == "port").unwrap();
    changed[at].value = "9000".to_string();
    assert!(changed[at].is_modified());
    assert_eq!(apply_fields_to_config(config(), &changed, true).server.port, 9000);
    changed[at].value = "no port".to_string();
    assert_eq!(apply_fields_to_config(config(), &changed, true).server.port, 8080);
}

#[test]
fn fields_are_validated() {
    let field = |kind: FieldType, value: &str| {
        ConfigField::new("s", "port", kind, value.to_string(), "d")
    };
    assert!(field(FieldType::Text, "8080").validate(FloatCheck::InRange).is_ok());
    assert!(field(FieldType::Bool, "true").validate(FloatCheck::InRange).is_ok());
    assert!(field(FieldType::Bool, "maybe").validate(FloatCheck::InRange).is_err());
    let choice = FieldType::Enum(vec!["a", "b"]);
    assert!(field(choice.clone(), "a").validate(FloatCheck::InRange).is_ok());
    assert!(field(choice, "c").validate(FloatCheck::InRange).is_err());
    let float = FieldType::Float { min: "0", max: "1" };
    assert!(field(float.clone(), "0.5").validate(FloatCheck::InRange).is_ok());
    assert!(field(float.clone(), "2").validate(FloatCheck::OutOfRange).is_err());
    assert!(field(float, "x").validate(FloatCheck::NotANumber).is_err());
    assert_eq!(find_text(&vec!["a", "b"], "b"), Some(1));
}

#[test]
fn a_setting_is_edited() {
    let mut pane = ConfigPane::new(build_config_fields(&config()));
    let before = pane.fields.clone();
    pane.start_edit();
    pane.type_char('1');
    pane.cancel_edit();
    assert_eq!(pane.fields, before);
    assert!(!pane.has_changes());
    let at = pane.fields.iter().position(|f| f.field_type == FieldType::Bool).unwrap();
    while pane.selected < at {
        pane.next();
    }
    let value = pane.fields[at].value.clone();
    pane.toggle_bool();
    assert_ne!(pane.fields[at].value, value);
    assert!(pane.has_changes());
    pane.saved();
    assert!(!pane.has_changes() && pane.needs_restart);
    pane.prev();
    assert_eq!(pane.selected, at - 1);
}

#[test]
fn choices_are_cycled() {
    let mut pane = ConfigPane::new(build_config_fields(&config()));
    while !pane.selected_is_enum() {
        pane.next();
    }
    let at = pane.selected;
    let value = pane.fields[at].value.clone();
    pane.cycle_enum(true);
    assert_ne!(pane.fields[at].value, value);
    pane.cycle_enum(false);
    assert_eq!(pane.fields[at].value, value);
}

#[test]
fn the_mouse_clicks_on_tabs() {
    let mut a = app(&[]);
    a.place_tabs(Area { x: 0, y: 3, width: 80, height: 1 });
    let spot = a.areas.tabs[2];
    a.handle_mouse(Mouse::Press, spot.x, spot.y);
    assert_eq!(a.shell.current_tab, Tab::Accounts);
    assert!(get_link_row(30) > 0);
}

#[test]
fn the_scrollbar_is_dragged() {
    let mut a = app(&["x  INFO a", "x  INFO b"]);
    a.shell.current_tab = Tab::Logs;
    a.areas.scrollbar = Area { x: 70, y: 2, width: 1, height: 20 };
    assert_eq!(a.handle_mouse(Mouse::Press, 70, 6), Action::GrabScrollbar(6));
    assert!(a.shell.dragging_scrollbar);
    a.grab_scrollbar(5, 6);
    assert_eq!(a.shell.scrollbar_drag_offset, -1);
    assert_eq!(a.handle_mouse(Mouse::Drag, 70, 9), Action::DragScrollbar(8));
    a.handle_mouse(Mouse::Release, 0, 0);
    assert!(!a.shell.dragging_scrollbar);
    a.scroll_to_position(1);
    assert_eq!(a.log.scroll, 1);
}

#[test]
fn work_in_the_background_is_polled() {
    let mut a = app(&[]);
    assert!(status_is_due(1000) && !status_is_due(0));
    assert_eq!(a.get_cached_server_status(Some(ServerStatus::Running)), ServerStatus::Running);
    assert_eq!(a.get_cached_server_status(None), ServerStatus::Running);
    a.maybe_refresh_quota(Background::Idle, 100_000);
    a.maybe_refresh_quota(Background::Done, 0);
    assert!(!a.quota_fetch_pending);
    a.maybe_check_for_updates(UpdateEvent::Done(UpdateStatus::UpToDate));
    assert_eq!(a.update_status, UpdateStatus::UpToDate);
}

#[test]
fn versions_are_compared() {
    assert!(version_is_newer("1.2.10", "1.2.9"));
    assert!(!version_is_newer("1.2.9", "1.2.10"));
    assert!(!version_is_newer("1.2.3", "1.2.3"));
    assert!(version_is_newer("2.0.0", "1.9.9"));
    assert_eq!(
        release_url("https://github.com/o/r/"),
        "https://api.github.com/repos/o/r/releases/latest"
    );
    assert!(release_url("").contains("skyline69/agcp"));
    assert_eq!(release_tag("{\"tag_name\":\"v1.4.0\"}"), Ok("v1.4.0".to_string()));
    assert_eq!(release_tag("{\"message\":\"slow down\"}"), Err("slow down".to_string()));
    assert!(release_tag("{}").is_err());
    assert_eq!(update_status_of(Ok("v1.0.0".to_string()), "1.0.0"), UpdateStatus::UpToDate);
    assert_eq!(update_status_of(Ok("0.9.0".to_string()), "1.0.0"), UpdateStatus::UpToDate);
    assert_eq!(
        update_status_of(Ok("2.0.0".to_string()), "1.0.0"),
        UpdateStatus::UpdateAvailable {
            current: "1.0.0".to_string(),
            latest: "2.0.0".to_string(),
        }
    );
    assert_eq!(update_status_of(Ok("1.0.0".to_string()), "1.0.0"), UpdateStatus::UpToDate);
    assert_eq!(
        update_status_of(Err("x".to_string()), "1.0.0"),
        UpdateStatus::Error("x".to_string())
    );
}

#[test]
fn what_is_wrong_at_the_start_is_said() {
    let fine = StartupState {
        config: Ok(()),
        daemon_addr: "127.0.0.1:8080".to_string(),
        daemon_reachable: true,
        accounts: Ok(vec![account("one", true)]),
        log_path: "/l".to_string(),
        log_exists: true,
    };
    assert!(collect_startup_warnings(&fine).is_empty());
    let bad = StartupState {
        config: Err("broken".to_string()),
        daemon_addr: "127.0.0.1:8080".to_string(),
        daemon_reachable: false,
        accounts: Ok(vec![]),
        log_path: "/l".to_string(),
        log_exists: false,
    };
    let warnings = collect_startup_warnings(&bad);
    assert!(warnings.len() >= 3);
    assert_eq!(max_severity(&warnings), WarningLevel::Error);
    assert_eq!(max_severity(&vec![StartupWarning::info("t", "m")]), WarningLevel::Info);
    assert_eq!(
        max_severity(&vec![StartupWarning::info("t", "m"), StartupWarning::warning("t", "m")]),
        WarningLevel::Warning
    );
    assert_ne!(popup_title(WarningLevel::Error), popup_title(WarningLevel::Info));
    assert_ne!(WarningLevel::Error.icon(), WarningLevel::Info.icon());
}

#[test]
fn a_changed_field_changes_one_setting() {
    let before = config();
    let mut fields = build_config_fields(&before);
    let place = fields.iter().position(|f| f.key == "host").unwrap();
    fields[place].value = "0.0.0.0".to_string();
    let after = apply_fields_to_config(config(), &fields, true);
    let mut expected = config();
    expected.server.host = "0.0.0.0".to_string();
    assert_eq!(after, expected);
}
