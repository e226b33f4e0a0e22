use agcp::json::{json_text, parse_json};
use agcp::setup::{
    address_note, configure_anthropic_tool, configure_codex, configure_crush, configure_opencode,
    configure_zed, configured_settings, detected_tools, get_backups_dir, get_proxy_url, get_tools,
    is_anthropic_tool_configured, is_codex_configured, is_crush_configured, is_opencode_configured,
    is_zed_configured, notes_for, pad_right, preselected, selection_item, undo_summary, wants_undo,
    xdg_config_dir, ToolKind,
};

const URL: &str = "http://127.0.0.1:8080";

#[test]
fn paths_and_addresses() {
    assert_eq!(get_proxy_url("127.0.0.1", 8080), URL);
    assert_eq!(xdg_config_dir(Some("/x"), Some("/h")), "/x");
    assert_eq!(xdg_config_dir(None, Some("/h")), "/h/.config");
    assert_eq!(xdg_config_dir(None, None), "./.config");
    assert_eq!(get_backups_dir("/c"), "/c/agcp/backups");
}

#[test]
fn the_tools_and_their_files() {
    let tools = get_tools("own", "/h", "/x", "/c");
    let list: Vec<(&str, &str, &str)> = tools
        .iter()
        .map(|t| (t.name.as_str(), t.config_path.as_str(), t.backup_name.as_str()))
        .collect();
    assert_eq!(
        list,
        vec![
            ("Own Code", "/h/.own/settings.json", "own-code.json"),
            ("Codex", "/h/.codex/config.toml", "codex.json"),
            ("OpenCode", "/x/opencode/opencode.json", "opencode.json"),
            ("Crush", "/x/crush/crush.json", "crush.json"),
            ("Zed", "/c/zed/settings.json", "zed-settings.json"),
        ]
    );
}

#[test]
fn configured_tools_are_recognised() {
    let kinds = [ToolKind::Anthropic, ToolKind::OpenCode, ToolKind::Crush, ToolKind::Zed];
    for kind in kinds {
        let content = configured_settings(kind, None, URL).unwrap();
        let is = |text: &str, url: &str| match kind {
            ToolKind::Anthropic => is_anthropic_tool_configured(text, url),
            ToolKind::OpenCode => is_opencode_configured(text, url),
            ToolKind::Crush => is_crush_configured(text, url),
            _ => is_zed_configured(text, url),
        };
        assert!(is(&content, URL), "{kind:?}");
        assert!(!is(&content, "http://elsewhere"), "{kind:?}");
        assert!(!is("{}", URL) && !is("not json", URL), "{kind:?}");
        let again = configured_settings(kind, Some(&content), URL).unwrap();
        assert_eq!(again, content, "{kind:?}");
    }
}

#[test]
fn other_settings_are_kept() {
    let before = parse_json("{\"theme\":\"dark\",\"env\":{\"A\":\"b\"}}").unwrap();
    let after = configure_anthropic_tool(before, URL);
    assert_eq!(after.get("theme").unwrap().as_str(), Some("dark"));
    let env = after.get("env").unwrap();
    assert_eq!(env.get("A").unwrap().as_str(), Some("b"));
    assert_eq!(env.get("ANTHROPIC_BASE_URL").unwrap().as_str(), Some(URL));
    for configure in [configure_opencode, configure_crush, configure_zed] {
        let after = configure(parse_json("{\"theme\":\"dark\"}").unwrap(), URL);
        assert_eq!(after.get("theme").unwrap().as_str(), Some("dark"));
        assert!(json_text(&after).contains("127.0.0.1:8080"));
    }
}

#[test]
fn settings_with_comments_are_read() {
    let zed = "// Zed settings\n{ \"theme\": \"x\" }";
    let content = configured_settings(ToolKind::Zed, Some(zed), URL).unwrap();
    assert!(is_zed_configured(&content, URL));
    assert!(content.contains("theme"));
}

#[test]
fn codex_gets_a_section_and_a_provider() {
    let fresh = configure_codex("", URL);
    assert!(is_codex_configured(&fresh, URL));
    assert!(fresh.contains("[model_providers.agcp]"));
    assert!(fresh.contains("model_provider = \"agcp\""));
    let other = "model = \"o3\"\nmodel_provider = \"openai\"\n";
    let changed = configure_codex(other, URL);
    assert!(changed.contains("model = \"o3\""));
    assert!(!changed.contains("\"openai\""));
    assert!(is_codex_configured(&changed, URL));
    let moved = configure_codex(&changed, "http://h:1");
    assert!(is_codex_configured(&moved, "http://h:1"));
    assert!(!is_codex_configured(&moved, URL));
    assert!(!is_codex_configured("", URL));
}

#[test]
fn tools_are_offered() {
    assert_eq!(detected_tools(&vec![true, false, true]), vec![0, 2]);
    assert_eq!(preselected(&vec![true, false]), vec![false, true]);
    assert_eq!(pad_right("ab", 4), "ab  ");
    assert_eq!(pad_right("abcde", 4), "abcde");
    let item = selection_item("Zed", "/c/zed", true, "<d>", "<r>");
    assert!(item.starts_with("Zed") && item.contains("/c/zed"));
    assert_ne!(item, selection_item("Zed", "/c/zed", false, "<d>", "<r>"));
    assert!(wants_undo(&vec!["--undo".to_string()]));
    assert!(!wants_undo(&vec!["undone".to_string()]));
    assert_eq!(address_note(URL, URL), None);
    assert!(address_note(URL, "http://h:1").is_some());
    for kind in [
        ToolKind::Anthropic,
        ToolKind::Codex,
        ToolKind::OpenCode,
        ToolKind::Crush,
        ToolKind::Zed,
    ] {
        let _ = notes_for(kind);
    }
    assert_ne!(undo_summary(0), undo_summary(2));
}

#[test]
fn a_section_without_a_url_gets_one_at_its_end() {
    let old = "model_provider = \"agcp\"\n[model_providers.agcp]\nname = \"x\"\n[other]\nbase_url = \"u\"";
    let new = configure_codex(old, URL);
    assert!(is_codex_configured(&new, URL));
    assert_eq!(
        new,
        format!(
            "model_provider = \"agcp\"\n[model_providers.agcp]\nname = \"x\"\nbase_url = \"{URL}/v1\"\n[other]\nbase_url = \"u\""
        )
    );
    let indented = "model_provider = \"agcp\"\n[model_providers.agcp] # mine\n  [other]\n  base_url = \"u\"";
    let new = configure_codex(indented, URL);
    assert!(is_codex_configured(&new, URL));
    assert!(new.ends_with("  [other]\n  base_url = \"u\""));
    let comment = "model_provider = \"agcp\"\n# [model_providers.agcp]\n";
    let new = configure_codex(comment, URL);
    assert!(new.starts_with(comment));
    assert!(is_codex_configured(&new, URL));
}

#[test]
fn a_new_provider_stands_behind_the_comments() {
    let crlf = "# one\r\n# two\r\n\r\nmodel = \"x\"\r\n";
    let new = configure_codex(crlf, URL);
    assert!(new.starts_with("# one\r\n# two\r\n\r\nmodel_provider = \"agcp\"\nmodel = \"x\"\r\n"));
    let new = configure_codex("# one\nmodel = \"x\"\n", URL);
    assert!(new.starts_with("# one\nmodel_provider = \"agcp\"\nmodel = \"x\"\n"));
    let new = configure_codex("# only", URL);
    assert!(new.starts_with("# only\nmodel_provider = \"agcp\"\n[model_providers.agcp]\n"));
}

#[test]
fn codex_talks_to_the_proxy_once_it_is_configured() {
    for old in [
        "",
        "# only a comment",
        "# one\r\n# two\r\nmodel = \"x\"\r\n",
        "model_provider = \"other\"\n[model_providers.other]\nbase_url = \"u\"\n",
        "[model_providers.agcp]\n[model_providers.other]\nbase_url = \"u\"\n",
        "\u{e9} = 1\n  [model_providers.agcp]  # mine\n\nbase_url = \"old\"\n",
        "model_provider = 'other'\n",
    ] {
        let new = configure_codex(old, URL);
        assert!(is_codex_configured(&new, URL), "{old}");
        assert!(!new.contains("base_url = \"old\""));
        assert_eq!(new.contains("base_url = \"u\""), old.contains("base_url = \"u\""));
    }
}
