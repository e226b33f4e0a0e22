//! Pointing other tools at the proxy: how their configurations are read and changed.

use vstd::prelude::*;

use crate::comments::{strip_jsonc_comments, text_without_comments_stays, without_comments};
use crate::json::{
    as_object, entry, is_plain, json_object, json_pretty_text, json_str, parse_json, parsed_json,
    pretty_json, with, Json, JsonView, PLAIN_DEPTH,
};
use crate::provider::{join_path, joined};
use crate::text::{
    after, capitalize, capitalized, chars_of, contains, decimal, decimal_text, find_next, first_at,
    holds, is_space, join, join_texts, lines, lines_of, next_of, next_of_is_next, occurs_at, same,
    starts, starts_with, strip_prefix, text_between, trim, trimmed, trimmed_end, trimmed_start,
    views,
};

verus! {

/// The tools that can be pointed at the proxy. Anthropic's own is named after the family of
/// its models.
#[derive(Debug, Clone, Copy, PartialEq, Eq, Structural)]
pub enum ToolKind {
    Anthropic,
    Codex,
    OpenCode,
    Crush,
    Zed,
}

/// The proxy's URL.
pub open spec fn proxy_url_of(host: Seq<char>, port: nat) -> Seq<char> {
    "http://"@ + host + ":"@ + decimal(port)
}

/// The proxy's URL.
pub fn get_proxy_url(host: &str, port: u16) -> (r: String)
    ensures
        r@ == proxy_url_of(host@, port as nat),
{
    let mut r = "http://".to_owned();
    r.push_str(host);
    r.push_str(":");
    let n = decimal_text(port as u64);
    r.push_str(&n);
    r
}

/// The directory for configurations after the XDG convention: the one that is set, else
/// `.config` in the home directory.
pub fn xdg_config_dir(xdg_config_home: Option<&str>, home: Option<&str>) -> (r: String)
    ensures
        r@ == (match xdg_config_home {
            Some(x) => x@,
            None => joined(
                match home {
                    Some(h) => h@,
                    None => "."@,
                },
                ".config"@,
            ),
        }),
{
    match xdg_config_home {
        Some(x) => x.to_owned(),
        None => match home {
            Some(h) => join_path(h, ".config"),
            None => join_path(".", ".config"),
        },
    }
}

/// Where configurations are backed up, under the directory for configurations.
pub open spec fn backups_dir(config_dir: Seq<char>) -> Seq<char> {
    joined(joined(config_dir, "agcp"@), "backups"@)
}

/// Where configurations are backed up.
pub fn get_backups_dir(config_dir: &str) -> (r: String)
    ensures
        r@ == backups_dir(config_dir@),
{
    let agcp = join_path(config_dir, "agcp");
    join_path(&agcp, "backups")
}

/// A file in a directory in a directory.
fn two_below(dir: &str, sub: &str, file: &str) -> (r: String)
    ensures
        r@ == joined(joined(dir@, sub@), file@),
{
    let d = join_path(dir, sub);
    join_path(&d, file)
}

/// Where a tool keeps its configuration: under the home directory, the directory of the XDG
/// convention or the platform's own.
pub open spec fn config_path_of(
    kind: ToolKind,
    anthropic: Seq<char>,
    home: Seq<char>,
    xdg: Seq<char>,
    config_dir: Seq<char>,
) -> Seq<char> {
    match kind {
        ToolKind::Anthropic => joined(joined(home, "."@ + anthropic), "settings.json"@),
        ToolKind::Codex => joined(joined(home, ".codex"@), "config.toml"@),
        ToolKind::OpenCode => joined(joined(xdg, "opencode"@), "opencode.json"@),
        ToolKind::Crush => joined(joined(xdg, "crush"@), "crush.json"@),
        ToolKind::Zed => joined(joined(config_dir, "zed"@), "settings.json"@),
    }
}

/// The name that a tool is shown under.
pub open spec fn name_of(kind: ToolKind, anthropic: Seq<char>) -> Seq<char> {
    match kind {
        ToolKind::Anthropic => capitalized(anthropic) + " Code"@,
        ToolKind::Codex => "Codex"@,
        ToolKind::OpenCode => "OpenCode"@,
        ToolKind::Crush => "Crush"@,
        ToolKind::Zed => "Zed"@,
    }
}

/// The name under which a tool's configuration is backed up.
pub open spec fn backup_of(kind: ToolKind, anthropic: Seq<char>) -> Seq<char> {
    match kind {
        ToolKind::Anthropic => anthropic + "-code.json"@,
        ToolKind::Codex => "codex.json"@,
        ToolKind::OpenCode => "opencode.json"@,
        ToolKind::Crush => "crush.json"@,
        ToolKind::Zed => "zed-settings.json"@,
    }
}

/// A tool that can be pointed at the proxy.
#[derive(Debug, Clone, PartialEq)]
pub struct SetupTool {
    pub kind: ToolKind,
    pub name: String,
    pub config_path: String,
    pub backup_name: String,
}

/// Whether a tool is described as it should be.
pub open spec fn is_tool(
    t: SetupTool,
    kind: ToolKind,
    anthropic: Seq<char>,
    home: Seq<char>,
    xdg: Seq<char>,
    config_dir: Seq<char>,
) -> bool {
    &&& t.kind == kind
    &&& t.name@ == name_of(kind, anthropic)
    &&& t.config_path@ == config_path_of(kind, anthropic, home, xdg, config_dir)
    &&& t.backup_name@ == backup_of(kind, anthropic)
}

/// The tools that can be pointed at the proxy, with their configurations under the home
/// directory, the directory of the XDG convention and the platform's own. Anthropic's models
/// go by the name `anthropic`.
pub fn get_tools(anthropic: &str, home: &str, xdg: &str, config_dir: &str) -> (r: Vec<SetupTool>)
    ensures
        r@.len() == 5,
        is_tool(r@[0], ToolKind::Anthropic, anthropic@, home@, xdg@, config_dir@),
        is_tool(r@[1], ToolKind::Codex, anthropic@, home@, xdg@, config_dir@),
        is_tool(r@[2], ToolKind::OpenCode, anthropic@, home@, xdg@, config_dir@),
        is_tool(r@[3], ToolKind::Crush, anthropic@, home@, xdg@, config_dir@),
        is_tool(r@[4], ToolKind::Zed, anthropic@, home@, xdg@, config_dir@),
{
    let mut name = capitalize(anthropic);
    name.push_str(" Code");
    let mut dir = ".".to_owned();
    dir.push_str(anthropic);
    let mut backup_name = anthropic.to_owned();
    backup_name.push_str("-code.json");
    let config_path = two_below(home, &dir, "settings.json");
    let mut r: Vec<SetupTool> = Vec::new();
    r.push(SetupTool { kind: ToolKind::Anthropic, name, config_path, backup_name });
    r.push(
        SetupTool {
            kind: ToolKind::Codex,
            name: "Codex".to_owned(),
            config_path: two_below(home, ".codex", "config.toml"),
            backup_name: "codex.json".to_owned(),
        },
    );
    r.push(
        SetupTool {
            kind: ToolKind::OpenCode,
            name: "OpenCode".to_owned(),
            config_path: two_below(xdg, "opencode", "opencode.json"),
            backup_name: "opencode.json".to_owned(),
        },
    );
    r.push(
        SetupTool {
            kind: ToolKind::Crush,
            name: "Crush".to_owned(),
            config_path: two_below(xdg, "crush", "crush.json"),
            backup_name: "crush.json".to_owned(),
        },
    );
    r.push(
        SetupTool {
            kind: ToolKind::Zed,
            name: "Zed".to_owned(),
            config_path: two_below(config_dir, "zed", "settings.json"),
            backup_name: "zed-settings.json".to_owned(),
        },
    );
    r
}

/// The entries of the object under a key; none where there is no object.
pub open spec fn nested(v: JsonView, key: Seq<char>) -> Map<Seq<char>, JsonView> {
    match entry(v, key) {
        Some(x) => as_object(x),
        None => Map::empty(),
    }
}

/// Whether entries can be set in a value: in an object, or in `null`, which becomes one.
pub open spec fn settable(v: JsonView) -> bool {
    v is Object || v is Null
}

/// Whether entries can be set in the value under a key, which becomes an object where there
/// is none.
pub open spec fn settable_under(v: JsonView, key: Seq<char>) -> bool {
    settable(v) && (entry(v, key) matches Some(x) ==> settable(x))
}

/// The text under a list of keys, one in the other.
pub open spec fn text_under(v: JsonView, keys: Seq<Seq<char>>) -> Option<Seq<char>>
    decreases keys.len(),
{
    if keys.len() == 0 {
        match v {
            JsonView::Text(t) => Some(t),
            _ => None,
        }
    } else {
        match entry(v, keys[0]) {
            Some(x) => text_under(x, keys.subrange(1, keys.len() as int)),
            None => None,
        }
    }
}

/// Where a tool of the given kind keeps the URL it talks to.
pub open spec fn url_keys(kind: ToolKind) -> Seq<Seq<char>> {
    match kind {
        ToolKind::Anthropic => seq!["env"@, "ANTHROPIC_BASE_URL"@],
        ToolKind::Codex => seq![],
        ToolKind::OpenCode => seq!["provider"@, "anthropic"@, "options"@, "baseURL"@],
        ToolKind::Crush => seq!["providers"@, "anthropic"@, "base_url"@],
        ToolKind::Zed => seq!["language_models"@, "anthropic"@, "api_url"@],
    }
}

/// Whether the value under a key is the text `t`.
fn text_is(v: Option<&Json>, key: &str, t: &str) -> (r: bool)
    ensures
        r == (match v {
            Some(x) => text_under(x@, seq![key@]) == Some(t@),
            None => false,
        }),
{
    match v {
        Some(x) => {
            proof {
                reveal_with_fuel(text_under, 2);
                let rest = seq![key@].subrange(1, 1);
                assert(rest.len() == 0);
            }
            match x.get(key) {
                Some(y) => match y.as_str() {
                    Some(s) => same(s, t),
                    None => false,
                },
                None => false,
            }
        },
        None => false,
    }
}

/// The entry of a key in a value that may be missing.
fn below<'a>(v: Option<&'a Json>, key: &str) -> (r: Option<&'a Json>)
    ensures
        match r {
            Some(j) => v matches Some(x) && entry(x@, key@) == Some(j@),
            None => v matches Some(x) ==> entry(x@, key@) is None,
        },
{
    match v {
        Some(x) => x.get(key),
        None => None,
    }
}

proof fn lemma_under(v: JsonView, key: Seq<char>, rest: Seq<Seq<char>>)
    ensures
        text_under(v, seq![key] + rest) == (match entry(v, key) {
            Some(x) => text_under(x, rest),
            None => None,
        }),
{
    let keys = seq![key] + rest;
    assert(keys.subrange(1, keys.len() as int) =~= rest);
}

/// Whether the settings of a tool that keeps them as JSON point it at a URL. Zed's may have
/// comments.
pub open spec fn is_pointed_at(kind: ToolKind, content: Seq<char>, url: Seq<char>) -> bool {
    let text = if kind == ToolKind::Zed {
        without_comments(content)
    } else {
        content
    };
    match parsed_json(text) {
        Some(v) => text_under(v, url_keys(kind)) == Some(url),
        None => false,
    }
}

/// Whether Anthropic's tool talks to the proxy.
pub fn is_anthropic_tool_configured(content: &str, proxy_url: &str) -> (r: bool)
    ensures
        r == is_pointed_at(ToolKind::Anthropic, content@, proxy_url@),
{
    match parse_json(content) {
        Some(v) => {
            proof {
                lemma_under(v@, "env"@, seq!["ANTHROPIC_BASE_URL"@]);
                assert(url_keys(ToolKind::Anthropic) =~= seq!["env"@] + seq![
                    "ANTHROPIC_BASE_URL"@,
                ]);
            }
            text_is(below(Some(&v), "env"), "ANTHROPIC_BASE_URL", proxy_url)
        },
        None => false,
    }
}

/// Whether OpenCode talks to the proxy.
pub fn is_opencode_configured(content: &str, proxy_url: &str) -> (r: bool)
    ensures
        r == is_pointed_at(ToolKind::OpenCode, content@, proxy_url@),
{
    match parse_json(content) {
        Some(v) => {
            let p = below(Some(&v), "provider");
            let a = below(p, "anthropic");
            let o = below(a, "options");
            proof {
                let k1 = seq!["baseURL"@];
                let k2 = seq!["options"@] + k1;
                let k3 = seq!["anthropic"@] + k2;
                lemma_under(v@, "provider"@, k3);
                assert(url_keys(ToolKind::OpenCode) =~= seq!["provider"@] + k3);
                if let Some(x) = p {
                    lemma_under(x@, "anthropic"@, k2);
                }
                if let Some(x) = a {
                    lemma_under(x@, "options"@, k1);
                }
            }
            text_is(o, "baseURL", proxy_url)
        },
        None => false,
    }
}

/// Whether the entry under two keys, one in the other, is the text `t` under a third.
fn two_below_is(v: &Json, a: &str, b: &str, c: &str, t: &str) -> (r: bool)
    ensures
        r == (text_under(v@, seq![a@, b@, c@]) == Some(t@)),
{
    let x = below(Some(v), a);
    let y = below(x, b);
    proof {
        let k1 = seq![c@];
        let k2 = seq![b@] + k1;
        lemma_under(v@, a@, k2);
        assert(seq![a@, b@, c@] =~= seq![a@] + k2);
        if let Some(j) = x {
            lemma_under(j@, b@, k1);
        }
    }
    text_is(y, c, t)
}

/// Whether Crush talks to the proxy.
pub fn is_crush_configured(content: &str, proxy_url: &str) -> (r: bool)
    ensures
        r == is_pointed_at(ToolKind::Crush, content@, proxy_url@),
{
    match parse_json(content) {
        Some(v) => two_below_is(&v, "providers", "anthropic", "base_url", proxy_url),
        None => false,
    }
}

/// Whether Zed talks to the proxy. Its configuration is JSON with comments.
pub fn is_zed_configured(content: &str, proxy_url: &str) -> (r: bool)
    ensures
        r == is_pointed_at(ToolKind::Zed, content@, proxy_url@),
{
    let clean = strip_jsonc_comments(content);
    match parse_json(&clean) {
        Some(v) => two_below_is(&v, "language_models", "anthropic", "api_url", proxy_url),
        None => false,
    }
}

/// The object under a key, or one without entries.
fn child(v: &Json, key: &str) -> (r: Json)
    ensures
        as_object(r@) == nested(v@, key@),
{
    match v.get(key) {
        Some(x) => x.clone(),
        None => json_object(),
    }
}

/// The settings of Anthropic's tool with the proxy's URL and its token, all else as it was.
pub open spec fn anthropic_tool_settings(v: JsonView, url: Seq<char>) -> JsonView {
    JsonView::Object(
        as_object(v).insert(
            "env"@,
            JsonView::Object(
                nested(v, "env"@).insert("ANTHROPIC_BASE_URL"@, JsonView::Text(url)).insert(
                    "ANTHROPIC_AUTH_TOKEN"@,
                    JsonView::Text("agcp"@),
                ),
            ),
        ),
    )
}

/// Points Anthropic's tool at the proxy.
pub fn configure_anthropic_tool(v: Json, proxy_url: &str) -> (r: Json)
    requires
        settable_under(v@, "env"@),
    ensures
        r@ == anthropic_tool_settings(v@, proxy_url@),
{
    let env = child(&v, "env");
    let env = with(env, "ANTHROPIC_BASE_URL", json_str(proxy_url));
    let env = with(env, "ANTHROPIC_AUTH_TOKEN", json_str("agcp"));
    with(v, "env", env)
}

/// An object under two keys, one in the other.
pub open spec fn nested_two(v: JsonView, a: Seq<char>, b: Seq<char>) -> Map<Seq<char>, JsonView> {
    nested(JsonView::Object(nested(v, a)), b)
}

/// `v` with an object under two keys, one in the other; all else as it was.
pub open spec fn with_nested_two(
    v: JsonView,
    a: Seq<char>,
    b: Seq<char>,
    o: Map<Seq<char>, JsonView>,
) -> JsonView {
    JsonView::Object(
        as_object(v).insert(a, JsonView::Object(nested(v, a).insert(b, JsonView::Object(o)))),
    )
}

/// Whether entries can be set under two keys, one in the other.
pub open spec fn settable_under_two(v: JsonView, a: Seq<char>, b: Seq<char>) -> bool {
    settable(v) && (entry(v, a) matches Some(x) ==> settable_under(x, b))
}

/// OpenCode's settings with the proxy's URL, all else as it was.
pub open spec fn opencode_settings(v: JsonView, url: Seq<char>) -> JsonView {
    let a = nested_two(v, "provider"@, "anthropic"@);
    with_nested_two(
        v,
        "provider"@,
        "anthropic"@,
        a.insert(
            "options"@,
            JsonView::Object(
                nested(JsonView::Object(a), "options"@).insert("baseURL"@, JsonView::Text(url)),
            ),
        ),
    )
}

/// Whether entries can be set where OpenCode keeps the URL.
pub open spec fn takes_opencode(v: JsonView) -> bool {
    settable_under_two(v, "provider"@, "anthropic"@) && (entry(
        JsonView::Object(nested_two(v, "provider"@, "anthropic"@)),
        "options"@,
    ) matches Some(o) ==> settable(o))
}

/// Points OpenCode at the proxy.
pub fn configure_opencode(v: Json, proxy_url: &str) -> (r: Json)
    requires
        takes_opencode(v@),
    ensures
        r@ == opencode_settings(v@, proxy_url@),
{
    let provider = child(&v, "provider");
    let anthropic = child(&provider, "anthropic");
    let options = child(&anthropic, "options");
    assert(nested(JsonView::Object(as_object(provider@)), "anthropic"@) == nested(
        provider@,
        "anthropic"@,
    ));
    assert(nested(JsonView::Object(as_object(anthropic@)), "options"@) == nested(
        anthropic@,
        "options"@,
    ));
    let options = with(options, "baseURL", json_str(proxy_url));
    let anthropic = with(anthropic, "options", options);
    let provider = with(provider, "anthropic", anthropic);
    with(v, "provider", provider)
}

/// Crush's settings with the proxy's URL, its kind and a key, all else as it was.
pub open spec fn crush_settings(v: JsonView, url: Seq<char>) -> JsonView {
    with_nested_two(
        v,
        "providers"@,
        "anthropic"@,
        nested_two(v, "providers"@, "anthropic"@).insert("base_url"@, JsonView::Text(url)).insert(
            "type"@,
            JsonView::Text("anthropic"@),
        ).insert("api_key"@, JsonView::Text("agcp"@)),
    )
}

/// Points Crush at the proxy. It may ask for a key, though the proxy needs none.
pub fn configure_crush(v: Json, proxy_url: &str) -> (r: Json)
    requires
        settable_under_two(v@, "providers"@, "anthropic"@),
    ensures
        r@ == crush_settings(v@, proxy_url@),
{
    let providers = child(&v, "providers");
    let anthropic = child(&providers, "anthropic");
    assert(nested(JsonView::Object(as_object(providers@)), "anthropic"@) == nested(
        providers@,
        "anthropic"@,
    ));
    let anthropic = with(anthropic, "base_url", json_str(proxy_url));
    let anthropic = with(anthropic, "type", json_str("anthropic"));
    let anthropic = with(anthropic, "api_key", json_str("agcp"));
    let providers = with(providers, "anthropic", anthropic);
    with(v, "providers", providers)
}

/// Zed's settings with the proxy's URL, all else as it was.
pub open spec fn zed_settings(v: JsonView, url: Seq<char>) -> JsonView {
    with_nested_two(
        v,
        "language_models"@,
        "anthropic"@,
        nested_two(v, "language_models"@, "anthropic"@).insert(
            "api_url"@,
            JsonView::Text(url),
        ),
    )
}

/// Points Zed at the proxy.
pub fn configure_zed(v: Json, proxy_url: &str) -> (r: Json)
    requires
        settable_under_two(v@, "language_models"@, "anthropic"@),
    ensures
        r@ == zed_settings(v@, proxy_url@),
{
    let models = child(&v, "language_models");
    let anthropic = child(&models, "anthropic");
    assert(nested(JsonView::Object(as_object(models@)), "anthropic"@) == nested(
        models@,
        "anthropic"@,
    ));
    let anthropic = with(anthropic, "api_url", json_str(proxy_url));
    let models = with(models, "anthropic", anthropic);
    with(v, "language_models", models)
}

/// A tool's settings with the proxy's URL.
pub open spec fn settings_of(kind: ToolKind, v: JsonView, url: Seq<char>) -> JsonView {
    match kind {
        ToolKind::Anthropic => anthropic_tool_settings(v, url),
        ToolKind::Codex => v,
        ToolKind::OpenCode => opencode_settings(v, url),
        ToolKind::Crush => crush_settings(v, url),
        ToolKind::Zed => zed_settings(v, url),
    }
}

/// Whether a tool's settings can take the proxy's URL.
pub open spec fn takes_url(kind: ToolKind, v: JsonView) -> bool {
    match kind {
        ToolKind::Anthropic => settable_under(v, "env"@),
        ToolKind::Codex => true,
        ToolKind::OpenCode => takes_opencode(v),
        ToolKind::Crush => settable_under_two(v, "providers"@, "anthropic"@),
        ToolKind::Zed => settable_under_two(v, "language_models"@, "anthropic"@),
    }
}

/// The settings that a tool has: none where its file is missing or not readable.
pub open spec fn settings_in(kind: ToolKind, content: Option<Seq<char>>) -> JsonView {
    let parsed = match content {
        Some(t) => if kind == ToolKind::Zed {
            parsed_json(without_comments(t))
        } else {
            parsed_json(t)
        },
        None => None,
    };
    match parsed {
        Some(v) => v,
        None => JsonView::Object(Map::empty()),
    }
}

/// The settings that a tool has.
fn read_settings(kind: ToolKind, content: Option<&str>) -> (r: Json)
    ensures
        r@ == settings_in(
            kind,
            match content {
                Some(t) => Some(t@),
                None => None,
            },
        ),
{
    let parsed = match content {
        Some(t) => {
            if kind == ToolKind::Zed {
                let clean = strip_jsonc_comments(t);
                parse_json(&clean)
            } else {
                parse_json(t)
            }
        },
        None => None,
    };
    match parsed {
        Some(v) => v,
        None => json_object(),
    }
}

/// Whether entries can be set in a value.
fn is_settable(v: &Json) -> (r: bool)
    ensures
        r == settable(v@),
{
    match v {
        Json::Object(_) => true,
        Json::Null => true,
        _ => false,
    }
}

/// Whether entries can be set in a value that may be missing.
fn is_open(v: Option<&Json>) -> (r: bool)
    ensures
        r == (v matches Some(x) ==> settable(x@)),
{
    match v {
        Some(x) => is_settable(x),
        None => true,
    }
}

/// Whether a tool's settings can take the proxy's URL.
fn can_take_url(kind: ToolKind, v: &Json) -> (r: bool)
    ensures
        r == takes_url(kind, v@),
{
    match kind {
        ToolKind::Anthropic => is_settable(v) && is_open(v.get("env")),
        ToolKind::Codex => true,
        ToolKind::OpenCode => {
            let p = v.get("provider");
            let a = below(p, "anthropic");
            let o = below(a, "options");
            is_settable(v) && is_open(p) && is_open(a) && is_open(o)
        },
        ToolKind::Crush => {
            let p = v.get("providers");
            is_settable(v) && is_open(p) && is_open(below(p, "anthropic"))
        },
        ToolKind::Zed => {
            let p = v.get("language_models");
            is_settable(v) && is_open(p) && is_open(below(p, "anthropic"))
        },
    }
}

/// The text of a tool's settings, pointed at the proxy; `None` where something that is no
/// object stands where they would go. What is written is recognised when it is read again,
/// where the settings are plain. The configuration of Codex is no JSON: see
/// `configure_codex`.
pub fn configured_settings(kind: ToolKind, content: Option<&str>, proxy_url: &str) -> (r: Option<
    String,
>)
    requires
        kind != ToolKind::Codex,
    ensures
        ({
            let v = settings_in(
                kind,
                match content {
                    Some(t) => Some(t@),
                    None => None,
                },
            );
            if takes_url(kind, v) {
                r matches Some(t) && t@ == pretty_json(settings_of(kind, v, proxy_url@)) && (
                is_plain(settings_of(kind, v, proxy_url@), PLAIN_DEPTH as nat) ==> is_pointed_at(
                    kind,
                    t@,
                    proxy_url@,
                ))
            } else {
                r is None
            }
        }),
{
    let v = read_settings(kind, content);
    let ghost v0 = v@;
    if !can_take_url(kind, &v) {
        return None;
    }
    let out = match kind {
        ToolKind::Anthropic => configure_anthropic_tool(v, proxy_url),
        ToolKind::Codex => v,
        ToolKind::OpenCode => configure_opencode(v, proxy_url),
        ToolKind::Crush => configure_crush(v, proxy_url),
        ToolKind::Zed => configure_zed(v, proxy_url),
    };
    let text = json_pretty_text(&out);
    proof {
        configured_settings_are_configured(kind, v0, proxy_url@);
        text_without_comments_stays(text@);
    }
    Some(text)
}

/// Settings that were pointed at the proxy say so.
pub proof fn configured_settings_are_configured(kind: ToolKind, v: JsonView, url: Seq<char>)
    requires
        kind != ToolKind::Codex,
    ensures
        text_under(settings_of(kind, v, url), url_keys(kind)) == Some(url),
{
    let keys = url_keys(kind);
    reveal_with_fuel(text_under, 5);
    reveal_strlit("ANTHROPIC_BASE_URL");
    reveal_strlit("ANTHROPIC_AUTH_TOKEN");
    reveal_strlit("base_url");
    reveal_strlit("type");
    reveal_strlit("api_key");
    let r1 = keys.subrange(1, keys.len() as int);
    let r2 = r1.subrange(1, r1.len() as int);
    assert(r1[0] == keys[1]);
    assert(kind != ToolKind::Anthropic ==> r2[0] == keys[2]);
    if kind == ToolKind::OpenCode {
        let r3 = r2.subrange(1, r2.len() as int);
        assert(r3[0] == keys[3]);
        assert(r3.len() == 1);
    }
}

/// Pointing a tool at the proxy a second time changes nothing.
pub proof fn configuring_twice_is_configuring_once(kind: ToolKind, v: JsonView, url: Seq<char>)
    ensures
        settings_of(kind, settings_of(kind, v, url), url) == settings_of(kind, v, url),
{
    let once = settings_of(kind, v, url);
    let twice = settings_of(kind, once, url);
    match kind {
        ToolKind::Anthropic => {
            assert(nested(twice, "env"@) =~= nested(once, "env"@));
            assert(as_object(twice) =~= as_object(once));
        },
        ToolKind::Codex => {},
        ToolKind::OpenCode => {
            let a = nested_two(once, "provider"@, "anthropic"@);
            let b = nested_two(twice, "provider"@, "anthropic"@);
            assert(nested(JsonView::Object(b), "options"@) =~= nested(
                JsonView::Object(a),
                "options"@,
            ));
            assert(b =~= a);
            assert(nested(twice, "provider"@) =~= nested(once, "provider"@));
            assert(as_object(twice) =~= as_object(once));
        },
        ToolKind::Crush => {
            assert(nested_two(twice, "providers"@, "anthropic"@) =~= nested_two(
                once,
                "providers"@,
                "anthropic"@,
            ));
            assert(nested(twice, "providers"@) =~= nested(once, "providers"@));
            assert(as_object(twice) =~= as_object(once));
        },
        ToolKind::Zed => {
            assert(nested_two(twice, "language_models"@, "anthropic"@) =~= nested_two(
                once,
                "language_models"@,
                "anthropic"@,
            ));
            assert(nested(twice, "language_models"@) =~= nested(once, "language_models"@));
            assert(as_object(twice) =~= as_object(once));
        },
    }
}

/// Settings that are not the proxy's stay: every entry but the one that leads to the URL is
/// what it was.
pub proof fn other_settings_stay(kind: ToolKind, v: JsonView, url: Seq<char>, key: Seq<char>)
    requires
        kind != ToolKind::Codex,
        settable(v),
        key != url_keys(kind)[0],
    ensures
        entry(settings_of(kind, v, url), key) == entry(v, key),
{
}

/// The line that gives Codex the proxy's URL.
pub open spec fn url_line(url: Seq<char>) -> Seq<char> {
    "base_url = \""@ + url + "/v1\""@
}

/// The line that gives Codex the proxy's URL.
fn url_line_of(proxy_url: &str) -> (r: String)
    ensures
        r@ == url_line(proxy_url@),
{
    let mut r = "base_url = \"".to_owned();
    r.push_str(proxy_url);
    r.push_str("/v1\"");
    r
}

/// Whether Codex talks to the proxy.
pub open spec fn codex_is_configured(content: Seq<char>, url: Seq<char>) -> bool {
    holds(content, url_line(url)) && holds(content, "[model_providers.agcp]"@)
}

/// Whether Codex talks to the proxy.
pub fn is_codex_configured(content: &str, proxy_url: &str) -> (r: bool)
    ensures
        r == codex_is_configured(content@, proxy_url@),
{
    let line = url_line_of(proxy_url);
    contains(content, &line) && contains(content, "[model_providers.agcp]")
}

/// Whether a line begins a section, the proxy's or another.
pub open spec fn opens_section(line: Seq<char>) -> bool {
    starts(trimmed(line), "["@)
}

/// Whether a line begins the proxy's section; a comment may follow on it.
pub open spec fn begins_section(line: Seq<char>) -> bool {
    let header = "[model_providers.agcp]"@;
    let t = trimmed(line);
    starts(t, header) && {
        let rest = trimmed(after(t, header));
        rest.len() == 0 || starts(rest, "#"@)
    }
}

/// Whether a line begins the proxy's section.
fn does_begin_section(line: &str) -> (r: bool)
    ensures
        r == begins_section(line@),
{
    let t = trim(line);
    match strip_prefix(&t, "[model_providers.agcp]") {
        Some(rest) => {
            let rest = trim(&rest);
            rest.as_str().is_empty() || starts_with(&rest, "#")
        },
        None => false,
    }
}

/// Whether any of the first `n` lines begins the proxy's section.
pub open spec fn has_section(l: Seq<Seq<char>>, n: int) -> bool {
    exists|i: int| 0 <= i < n && begins_section(#[trigger] l[i])
}

/// Whether, behind the first `n` lines, the proxy's section is open: the last line that
/// begins a section begins that one.
pub open spec fn in_section(l: Seq<Seq<char>>, n: int) -> bool
    decreases n,
{
    if n <= 0 {
        false
    } else if begins_section(l[n - 1]) {
        true
    } else if opens_section(l[n - 1]) {
        false
    } else {
        in_section(l, n - 1)
    }
}

/// Whether line `i` gives a URL in the proxy's section.
pub open spec fn is_url_line(l: Seq<Seq<char>>, i: int) -> bool {
    &&& in_section(l, i)
    &&& !begins_section(l[i])
    &&& !opens_section(l[i])
    &&& starts(trimmed(l[i]), "base_url"@)
}

/// Whether any of the first `n` lines gives a URL in the proxy's section.
pub open spec fn has_url_line(l: Seq<Seq<char>>, n: int) -> bool {
    exists|i: int| 0 <= i < n && #[trigger] is_url_line(l, i)
}

/// The first `n` lines with every URL in the proxy's section replaced.
pub open spec fn relined(l: Seq<Seq<char>>, url: Seq<char>, n: nat) -> Seq<Seq<char>> {
    Seq::new(
        n,
        |i: int|
            if is_url_line(l, i) {
                url_line(url)
            } else {
                l[i]
            },
    )
}

/// Where the proxy's section ends, sought from line `i` on: at the next section behind it,
/// or at the end.
pub open spec fn section_end(l: Seq<Seq<char>>, i: int) -> int
    decreases l.len() - i,
{
    if i >= l.len() {
        l.len() as int
    } else if in_section(l, i) && (begins_section(l[i]) || opens_section(l[i])) {
        i
    } else {
        section_end(l, i + 1)
    }
}

/// A configuration's lines with the proxy's URL in its section: in place of the one there,
/// or at the end of the section where it has none.
pub open spec fn section_lines(l: Seq<Seq<char>>, url: Seq<char>) -> Seq<Seq<char>> {
    let r = relined(l, url, l.len());
    if has_url_line(l, l.len() as int) {
        r
    } else {
        r.insert(section_end(l, 0), url_line(url))
    }
}

/// A new section for the proxy.
pub open spec fn new_section(url: Seq<char>) -> Seq<char> {
    "\n[model_providers.agcp]\nname = \"AGCP\"\nbase_url = \""@ + url + "/v1\"\n"@
}

/// A configuration with the proxy's section: the one it has, or a new one at the end.
pub open spec fn with_section(content: Seq<char>, url: Seq<char>) -> Seq<char> {
    let l = lines(content, '\n', '\r');
    if has_section(l, l.len() as int) {
        join(section_lines(l, url), "\n"@)
    } else {
        content + new_section(url)
    }
}

/// The end that is sought lies within the lines.
pub(crate) proof fn lemma_section_end_within(l: Seq<Seq<char>>, i: int)
    requires
        0 <= i <= l.len(),
    ensures
        i <= section_end(l, i) <= l.len(),
    decreases l.len() - i,
{
    if i < l.len() {
        lemma_section_end_within(l, i + 1);
    }
}

/// A configuration with the proxy's section.
fn write_section(content: &str, proxy_url: &str) -> (r: String)
    ensures
        r@ == with_section(content@, proxy_url@),
{
    let url = url_line_of(proxy_url);
    let list = lines_of(content);
    let ghost l = lines(content@, '\n', '\r');
    assert(l =~= views(list@));
    let mut out: Vec<String> = Vec::new();
    let mut found = false;
    let mut inside = false;
    let mut replaced = false;
    let mut end: Option<usize> = None;
    let mut i: usize = 0;
    while i < list.len()
        invariant
            i <= list@.len(),
            l == views(list@),
            url@ == url_line(proxy_url@),
            found == has_section(l, i as int),
            inside == in_section(l, i as int),
            replaced == has_url_line(l, i as int),
            match end {
                Some(e) => e < i && section_end(l, 0) == e,
                None => section_end(l, 0) == section_end(l, i as int),
            },
            views(out@) == relined(l, proxy_url@, i as nat),
        decreases list@.len() - i,
    {
        let ghost before = views(out@);
        assert(l[i as int] == list@[i as int]@);
        let line = &list[i];
        let t = trim(line);
        let begins = does_begin_section(line);
        if begins || starts_with(&t, "[") {
            if inside && end.is_none() {
                end = Some(i);
            }
            inside = begins;
            found = found || begins;
            out.push(line.clone());
            assert(!is_url_line(l, i as int));
        } else if inside && starts_with(&t, "base_url") {
            out.push(url.clone());
            replaced = true;
            assert(is_url_line(l, i as int));
        } else {
            out.push(line.clone());
            assert(!is_url_line(l, i as int));
        }
        assert(views(out@) =~= before.push(
            if is_url_line(l, i as int) {
                url_line(proxy_url@)
            } else {
                l[i as int]
            },
        ));
        assert(views(out@) =~= relined(l, proxy_url@, (i + 1) as nat));
        assert(has_section(l, i + 1) == (has_section(l, i as int) || begins_section(l[i as int])))
            by {
            if has_section(l, i as int) {
                let j = choose|j: int| 0 <= j < i && begins_section(#[trigger] l[j]);
                assert(0 <= j < i + 1 && begins_section(l[j]));
            }
        }
        assert(has_url_line(l, i + 1) == (has_url_line(l, i as int) || is_url_line(l, i as int)))
            by {
            if has_url_line(l, i as int) {
                let j = choose|j: int| 0 <= j < i && #[trigger] is_url_line(l, j);
                assert(0 <= j < i + 1 && is_url_line(l, j));
            }
        }
        i = i + 1;
    }
    if !found {
        let mut r = content.to_owned();
        let mut section =
            "\n[model_providers.agcp]\nname = \"AGCP\"\nbase_url = \"".to_owned();
        section.push_str(proxy_url);
        section.push_str("/v1\"\n");
        r.push_str(&section);
        return r;
    }
    if !replaced {
        let ghost before = views(out@);
        let place: usize = match end {
            Some(e) => e,
            None => out.len(),
        };
        proof {
            lemma_section_end_within(l, 0);
        }
        out.insert(place, url);
        assert(views(out@) =~= before.insert(place as int, url_line(proxy_url@)));
    }
    join_texts(&out, "\n")
}

/// The setting that makes the proxy Codex's provider.
pub open spec fn provider_setting() -> Seq<char> {
    "model_provider = \"agcp\""@
}

/// A configuration with its first provider, up to the closing quote, replaced by the proxy;
/// as it is where there is none in quotes.
pub open spec fn provider_replaced(s: Seq<char>) -> Seq<char> {
    let opening = "model_provider = \""@;
    match first_at(s, opening, 0) {
        Some(i) => match first_at(s, "\""@, i + opening.len()) {
            Some(j) => s.take(i) + provider_setting() + s.subrange(j + 1, s.len() as int),
            None => s,
        },
        None => s,
    }
}

/// The expression of a provider in quotes: its opening, what is not a quote, and a quote.
pub open spec fn provider_pattern() -> Seq<char> {
    "model_provider = \"[^\"]*\""@
}

/// `regex_lite::Regex::replace` of an expression, here that of a provider in quotes, by a text
/// in which there is no `$` to expand: the first match, from the opening to the next quote,
/// is replaced, and a text without a match stays as it is.
#[verifier::external_body]
fn replace_first(text: &str, pattern: &str, by: &str) -> (r: String)
    requires
        pattern@ == provider_pattern(),
        by@ == provider_setting(),
    ensures
        r@ == provider_replaced(text@),
{
    regex_lite::Regex::new(pattern).expect("valid regex").replace(text, by).to_string()
}

/// Whether a line is blank or a comment.
pub open spec fn is_idle_line(line: Seq<char>) -> bool {
    starts(line, "#"@) || trimmed(line).len() == 0
}

/// Where the blank lines and comments end that stand in a row from index `i` on, where a line
/// begins; a line has ended where its end is there.
pub open spec fn behind_idle(s: Seq<char>, i: int) -> int
    decreases s.len() - i,
{
    if i < 0 || i >= s.len() {
        i
    } else {
        let e = next_of(s, '\n', i);
        proof {
            next_of_is_next(s, '\n', i);
        }
        if e < s.len() && is_idle_line(s.subrange(i, e)) {
            behind_idle(s, e + 1)
        } else {
            i
        }
    }
}

/// Where a setting goes that comes before all others: behind the comments and blank lines at
/// the beginning.
pub open spec fn insert_place(s: Seq<char>) -> int {
    behind_idle(s, 0)
}

/// A configuration with the proxy as the provider.
pub open spec fn with_provider(s: Seq<char>) -> Seq<char> {
    if holds(s, provider_setting()) {
        s
    } else if holds(s, "model_provider = "@) {
        provider_replaced(s)
    } else {
        s.take(insert_place(s)) + "model_provider = \"agcp\"\n"@ + s.subrange(
            insert_place(s),
            s.len() as int,
        )
    }
}

/// Where a setting goes that comes before all others.
fn find_place(v: &[char]) -> (r: usize)
    ensures
        r == insert_place(v@),
        r <= v@.len(),
{
    let n: usize = v.len();
    let mut i: usize = 0;
    while i < n
        invariant
            i <= n == v@.len(),
            behind_idle(v@, i as int) == insert_place(v@),
        decreases n - i,
    {
        let e = find_next(v, '\n', i);
        if e >= n {
            return i;
        }
        let line = text_between(v, i, e);
        let t = trim(&line);
        if !(starts_with(&line, "#") || t.as_str().is_empty()) {
            return i;
        }
        i = e + 1;
    }
    i
}

/// A configuration with the proxy as the provider.
fn write_provider(content: String) -> (r: String)
    ensures
        r@ == with_provider(content@),
{
    if contains(&content, "model_provider = \"agcp\"") {
        return content;
    }
    if contains(&content, "model_provider = ") {
        return replace_first(
            &content,
            "model_provider = \"[^\"]*\"",
            "model_provider = \"agcp\"",
        );
    }
    let v = chars_of(&content);
    let place = find_place(&v);
    let mut r = text_between(&v, 0, place);
    assert(r@ =~= content@.take(place as int));
    r.push_str("model_provider = \"agcp\"\n");
    r.push_str(&text_between(&v, place, v.len()));
    r
}

/// The configuration of Codex, pointed at the proxy: the section with its URL, and the proxy
/// as the provider.
pub fn configure_codex(content: &str, proxy_url: &str) -> (r: String)
    ensures
        r@ == with_provider(with_section(content@, proxy_url@)),
{
    let sectioned = write_section(content, proxy_url);
    write_provider(sectioned)
}

pub(crate) proof fn lemma_holds_part(a: Seq<char>, b: Seq<char>, c: Seq<char>, p: Seq<char>)
    requires
        holds(b, p),
    ensures
        holds(a + b + c, p),
{
    let i = choose|i: int| occurs_at(b, p, i);
    let all = a + b + c;
    assert(all.subrange(a.len() + i, a.len() + i + p.len()) =~= b.subrange(i, i + p.len()));
    assert(occurs_at(all, p, a.len() + i));
}

proof fn lemma_trimmed_start_held(s: Seq<char>, p: Seq<char>)
    requires
        holds(trimmed_start(s), p),
    ensures
        holds(s, p),
    decreases s.len(),
{
    if s.len() > 0 && is_space(s[0]) {
        let rest = s.subrange(1, s.len() as int);
        lemma_trimmed_start_held(rest, p);
        lemma_holds_part(s.take(1), rest, Seq::empty(), p);
        assert(s.take(1) + rest + Seq::empty() =~= s);
    }
}

proof fn lemma_trimmed_end_held(s: Seq<char>, p: Seq<char>)
    requires
        holds(trimmed_end(s), p),
    ensures
        holds(s, p),
    decreases s.len(),
{
    if s.len() > 0 && is_space(s.last()) {
        let rest = s.drop_last();
        lemma_trimmed_end_held(rest, p);
        lemma_holds_part(Seq::empty(), rest, seq![s.last()], p);
        assert(Seq::empty() + rest + seq![s.last()] =~= s);
    }
}

proof fn lemma_joined_holds(parts: Seq<Seq<char>>, sep: Seq<char>, i: int, p: Seq<char>)
    requires
        0 <= i < parts.len(),
        holds(parts[i], p),
    ensures
        holds(join(parts, sep), p),
    decreases parts.len(),
{
    let last = parts.last();
    if parts.len() > 1 {
        let head = join(parts.drop_last(), sep);
        if i < parts.len() - 1 {
            lemma_joined_holds(parts.drop_last(), sep, i, p);
            lemma_holds_part(Seq::empty(), head, sep + last, p);
            assert(Seq::empty() + head + (sep + last) =~= join(parts, sep));
        } else {
            lemma_holds_part(head + sep, last, Seq::empty(), p);
            assert(head + sep + last + Seq::empty() =~= join(parts, sep));
        }
    }
}

pub(crate) proof fn lemma_holds_itself(p: Seq<char>)
    ensures
        holds(p, p),
{
    assert(p.subrange(0, p.len() as int) =~= p);
    assert(occurs_at(p, p, 0));
}

/// The beginning of a new section: its header, and at its end the beginning of the URL's
/// line.
pub(crate) proof fn lemma_section_opening()
    ensures
        ({
            let open = "\n[model_providers.agcp]\nname = \"AGCP\"\nbase_url = \""@;
            &&& holds(open, "[model_providers.agcp]"@)
            &&& open == open.take(38) + "base_url = \""@
        }),
{
    reveal_strlit("[model_providers.agcp]");
    reveal_strlit("base_url = \"");
    reveal_strlit("\n[model_providers.agcp]\nname = \"AGCP\"\nbase_url = \"");
    let open = "\n[model_providers.agcp]\nname = \"AGCP\"\nbase_url = \""@;
    let header = "[model_providers.agcp]"@;
    assert(open.subrange(1, (1 + header.len()) as int) =~= header);
    assert(occurs_at(open, header, 1));
    assert(open =~= open.take(38) + "base_url = \""@);
}

pub(crate) proof fn lemma_url_closing()
    ensures
        "/v1\"\n"@ == "/v1\""@ + "\n"@,
{
    reveal_strlit("/v1\"");
    reveal_strlit("/v1\"\n");
    reveal_strlit("\n");
    assert("/v1\"\n"@ =~= "/v1\""@ + "\n"@);
}

/// How a new section is made up: its opening, the URL and the rest; or what comes before the
/// URL's line, that line and its end.
pub(crate) proof fn lemma_section_parts(
    content: Seq<char>,
    open: Seq<char>,
    before: Seq<char>,
    key: Seq<char>,
    url: Seq<char>,
    close: Seq<char>,
    end: Seq<char>,
)
    requires
        open == before + key,
    ensures
        content + open + (url + (close + end)) == content + (open + url + (close + end)),
        (content + before) + (key + url + close) + end == content + (open + url + (close + end)),
{
    assert(content + open + (url + (close + end)) =~= content + (open + url + (close + end)));
    assert((content + before) + (key + url + close) + end =~= content + (open + url + (close
        + end)));
}

proof fn lemma_new_section(content: Seq<char>, url: Seq<char>)
    ensures
        codex_is_configured(content + new_section(url), url),
{
    let header = "[model_providers.agcp]"@;
    let open = "\n[model_providers.agcp]\nname = \"AGCP\"\nbase_url = \""@;
    let all = content + new_section(url);
    lemma_section_opening();
    lemma_url_closing();
    lemma_section_parts(
        content,
        open,
        open.take(38),
        "base_url = \""@,
        url,
        "/v1\""@,
        "\n"@,
    );
    assert(holds(all, header)) by {
        lemma_holds_part(content, open, url + "/v1\"\n"@, header);
    }
    let line = url_line(url);
    assert(holds(all, line)) by {
        lemma_holds_itself(line);
        lemma_holds_part(content + open.take(38), line, "\n"@, line);
    }
}

/// A line that begins the proxy's section holds its header.
proof fn lemma_header_held(line: Seq<char>)
    requires
        begins_section(line),
    ensures
        holds(line, "[model_providers.agcp]"@),
{
    let header = "[model_providers.agcp]"@;
    assert(occurs_at(trimmed(line), header, 0));
    lemma_trimmed_end_held(trimmed_start(line), header);
    lemma_trimmed_start_held(line, header);
}

proof fn lemma_old_section(l: Seq<Seq<char>>, url: Seq<char>)
    requires
        has_section(l, l.len() as int),
    ensures
        codex_is_configured(join(section_lines(l, url), "\n"@), url),
{
    let header = "[model_providers.agcp]"@;
    let n = l.len() as int;
    let r = section_lines(l, url);
    let line = url_line(url);
    let end = section_end(l, 0);
    let b = choose|i: int| 0 <= i < n && begins_section(#[trigger] l[i]);
    lemma_holds_itself(line);
    lemma_section_end_within(l, 0);
    lemma_header_held(l[b]);
    assert(!is_url_line(l, b));
    if has_url_line(l, n) {
        let i = choose|i: int| 0 <= i < n && #[trigger] is_url_line(l, i);
        assert(r[i] == line);
        lemma_joined_holds(r, "\n"@, i, line);
        assert(r[b] == l[b]);
        lemma_joined_holds(r, "\n"@, b, header);
    } else {
        assert(r[end] == line);
        lemma_joined_holds(r, "\n"@, end, line);
        if b < end {
            assert(r[b] == l[b]);
            lemma_joined_holds(r, "\n"@, b, header);
        } else {
            assert(r[b + 1] == l[b]);
            lemma_joined_holds(r, "\n"@, b + 1, header);
        }
    }
}

/// A configuration with the proxy's section says that Codex talks to it.
pub proof fn the_section_is_written(content: Seq<char>, url: Seq<char>)
    ensures
        codex_is_configured(with_section(content, url), url),
{
    let l = lines(content, '\n', '\r');
    if has_section(l, l.len() as int) {
        lemma_old_section(l, url);
    } else {
        lemma_new_section(content, url);
    }
}

/// Lines outside the proxy's section stay as they are, and in their order: with the proxy's
/// URL the lines are those before, but for the URLs in that section, with at most one more.
pub proof fn other_lines_stay(l: Seq<Seq<char>>, url: Seq<char>, i: int)
    requires
        0 <= i < l.len(),
        !is_url_line(l, i),
    ensures
        section_lines(l, url)[if !has_url_line(l, l.len() as int) && section_end(l, 0) <= i {
            i + 1
        } else {
            i
        }] == l[i],
{
    lemma_section_end_within(l, 0);
}

/// Whether a configuration names a provider in quotes.
pub open spec fn names_provider(s: Seq<char>) -> bool {
    let opening = "model_provider = \""@;
    first_at(s, opening, 0) matches Some(i) && first_at(s, "\""@, i + opening.len()) is Some
}

proof fn lemma_setting_line()
    ensures
        "model_provider = \"agcp\"\n"@ == provider_setting() + "\n"@,
{
    reveal_strlit("model_provider = \"agcp\"\n");
    reveal_strlit("model_provider = \"agcp\"");
    reveal_strlit("\n");
    assert("model_provider = \"agcp\"\n"@ =~= provider_setting() + "\n"@);
}

proof fn lemma_setting_inserted(head: Seq<char>, tail: Seq<char>)
    ensures
        holds(head + "model_provider = \"agcp\"\n"@ + tail, provider_setting()),
{
    let p = provider_setting();
    lemma_setting_line();
    lemma_holds_itself(p);
    lemma_holds_part(head, p, "\n"@ + tail, p);
    assert(head + p + ("\n"@ + tail) =~= head + (p + "\n"@) + tail);
}

/// A configuration with the proxy as the provider says so, unless it names a provider
/// without closing quotes.
pub proof fn the_provider_is_set(s: Seq<char>)
    requires
        holds(s, "model_provider = "@) ==> names_provider(s),
    ensures
        holds(with_provider(s), provider_setting()),
{
    let p = provider_setting();
    if holds(s, p) {
    } else if holds(s, "model_provider = "@) {
        let opening = "model_provider = \""@;
        let i = first_at(s, opening, 0)->0;
        let j = first_at(s, "\""@, i + opening.len())->0;
        lemma_holds_itself(p);
        lemma_holds_part(s.take(i), p, s.subrange(j + 1, s.len() as int), p);
    } else {
        lemma_setting_inserted(
            s.take(insert_place(s)),
            s.subrange(insert_place(s), s.len() as int),
        );
    }
}

/// What lies between a line's beginning and where the idle lines from there on end.
proof fn lemma_behind_idle(s: Seq<char>, i: int)
    requires
        0 <= i <= s.len(),
        i == 0 || s[i - 1] == '\n',
    ensures
        i <= behind_idle(s, i) <= s.len(),
        behind_idle(s, i) == 0 || s[behind_idle(s, i) - 1] == '\n',
        forall|a: int, e: int|
            i <= a <= e < behind_idle(s, i) && (a == 0 || s[a - 1] == '\n') && #[trigger] next_of(
                s,
                '\n',
                a,
            ) == e ==> is_idle_line(#[trigger] s.subrange(a, e)),
    decreases s.len() - i,
{
    if i < s.len() {
        let e = next_of(s, '\n', i);
        next_of_is_next(s, '\n', i);
        if e < s.len() && is_idle_line(s.subrange(i, e)) {
            lemma_behind_idle(s, e + 1);
            assert forall|a: int, f: int|
                i <= a <= f < behind_idle(s, i) && (a == 0 || s[a - 1] == '\n') && #[trigger] next_of(
                    s,
                    '\n',
                    a,
                ) == f implies is_idle_line(#[trigger] s.subrange(a, f)) by {
                if i < a <= e {
                    assert(s[a - 1] != '\n');
                }
            }
        }
    }
}

/// A new setting has a line of its own, behind comments and blank lines only: it begins where
/// a line begins, and every line that has ended before it is a comment or blank.
pub proof fn a_new_setting_stands_behind_the_comments(s: Seq<char>)
    ensures
        0 <= insert_place(s) <= s.len(),
        insert_place(s) == 0 || s[insert_place(s) - 1] == '\n',
        forall|a: int, e: int|
            0 <= a <= e < insert_place(s) && (a == 0 || s[a - 1] == '\n') && #[trigger] next_of(
                s,
                '\n',
                a,
            ) == e ==> is_idle_line(#[trigger] s.subrange(a, e)),
{
    lemma_behind_idle(s, 0);
}

/// Which tools were found, by their places in the list.
pub open spec fn found(detected: Seq<bool>) -> Seq<int>
    decreases detected.len(),
{
    if detected.len() == 0 {
        Seq::empty()
    } else {
        let before = found(detected.drop_last());
        if detected.last() {
            before.push(detected.len() - 1)
        } else {
            before
        }
    }
}

/// Which tools were found, by their places in the list.
pub fn detected_tools(detected: &Vec<bool>) -> (r: Vec<usize>)
    ensures
        r@.map_values(|i: usize| i as int) == found(detected@),
        forall|k: int| 0 <= k < r@.len() ==> #[trigger] r@[k] < detected@.len(),
{
    let mut r: Vec<usize> = Vec::new();
    let mut i: usize = 0;
    assert(detected@.take(0) =~= Seq::empty());
    assert(r@.map_values(|i: usize| i as int) =~= found(detected@.take(0)));
    while i < detected.len()
        invariant
            i <= detected@.len(),
            r@.map_values(|i: usize| i as int) == found(detected@.take(i as int)),
            forall|k: int| 0 <= k < r@.len() ==> #[trigger] r@[k] < detected@.len(),
        decreases detected@.len() - i,
    {
        assert(detected@.take(i + 1).drop_last() =~= detected@.take(i as int));
        if detected[i] {
            let ghost before = r@;
            r.push(i);
            assert(r@.map_values(|i: usize| i as int) =~= before.map_values(
                |i: usize| i as int,
            ).push(i as int));
        }
        i = i + 1;
    }
    assert(detected@.take(detected@.len() as int) =~= detected@);
    r
}

/// Which tools are selected at first: those that do not talk to the proxy yet.
pub fn preselected(configured: &Vec<bool>) -> (r: Vec<bool>)
    ensures
        r@ == Seq::new(configured@.len(), |i: int| !configured@[i]),
{
    let mut r: Vec<bool> = Vec::new();
    let mut i: usize = 0;
    while i < configured.len()
        invariant
            i <= configured@.len(),
            r@ == Seq::new(i as nat, |j: int| !configured@[j]),
        decreases configured@.len() - i,
    {
        r.push(!configured[i]);
        i = i + 1;
        assert(r@ =~= Seq::new(i as nat, |j: int| !configured@[j]));
    }
    r
}

/// A text filled up to a width with spaces.
pub open spec fn padded(s: Seq<char>, width: nat) -> Seq<char>
    decreases width - s.len(),
{
    if s.len() >= width {
        s
    } else {
        padded(s.push(' '), width)
    }
}

/// A text filled up to a width with spaces.
pub fn pad_right(s: &str, width: usize) -> (r: String)
    ensures
        r@ == padded(s@, width as nat),
{
    let n: usize = chars_of(s).len();
    let mut r = s.to_owned();
    let mut i: usize = n;
    while i < width
        invariant
            i == r@.len(),
            padded(r@, width as nat) == padded(s@, width as nat),
        decreases width - i,
    {
        r.push(' ');
        i = i + 1;
    }
    r
}

/// How a tool is offered for selection, between the codes that dim its path.
pub fn selection_item(
    name: &str,
    config_path: &str,
    configured: bool,
    dim: &str,
    reset: &str,
) -> (r: String)
    ensures
        r@ == padded(name@, 12) + " "@ + dim@ + config_path@ + reset@ + (if configured {
            " (configured)"@
        } else {
            ""@
        }),
{
    let mut r = pad_right(name, 12);
    r.push_str(" ");
    r.push_str(dim);
    r.push_str(config_path);
    r.push_str(reset);
    r.push_str(if configured {
        " (configured)"
    } else {
        ""
    });
    r
}

/// Whether the command is to restore what it had changed.
pub fn wants_undo(args: &Vec<String>) -> (r: bool)
    ensures
        r == views(args@).contains("--undo"@),
{
    crate::models::has_id(args, "--undo")
}

/// What is said where the server runs at another address than is configured.
pub fn address_note(proxy_url: &str, config_url: &str) -> (r: Option<String>)
    ensures
        if proxy_url@ == config_url@ {
            r is None
        } else {
            r matches Some(t) && t@ == "Note: Daemon is running on "@ + proxy_url@
                + ", which differs from config ("@ + config_url@ + ")"@
        },
{
    if same(proxy_url, config_url) {
        None
    } else {
        let mut r = "Note: Daemon is running on ".to_owned();
        r.push_str(proxy_url);
        r.push_str(", which differs from config (");
        r.push_str(config_url);
        r.push_str(")");
        Some(r)
    }
}

/// What is left to do by hand once a tool was configured, line by line.
pub fn notes_for(kind: ToolKind) -> (r: Vec<&'static str>)
    ensures
        match kind {
            ToolKind::OpenCode => r@.len() == 2 && r@[0]@
                == "Note: OpenCode requires ANTHROPIC_API_KEY env var"@ && r@[1]@
                == "Run: export ANTHROPIC_API_KEY=agcp"@,
            ToolKind::Zed => r@.len() == 2 && r@[0]@
                == "Note: Set any Anthropic API key in Zed's settings"@ && r@[1]@
                == "Zed > Settings > Anthropic > API Key (any value works)"@,
            _ => r@.len() == 0,
        },
{
    let mut r: Vec<&'static str> = Vec::new();
    match kind {
        ToolKind::OpenCode => {
            r.push("Note: OpenCode requires ANTHROPIC_API_KEY env var");
            r.push("Run: export ANTHROPIC_API_KEY=agcp");
        },
        ToolKind::Zed => {
            r.push("Note: Set any Anthropic API key in Zed's settings");
            r.push("Zed > Settings > Anthropic > API Key (any value works)");
        },
        _ => {},
    }
    r
}

/// What is said at the end of restoring.
pub fn undo_summary(restored: usize) -> (r: String)
    ensures
        r@ == (if restored > 0 {
            "Done! Restored "@ + decimal(restored as nat) + " configuration(s)."@
        } else {
            "No backups found to restore."@
        }),
{
    if restored > 0 {
        let mut r = "Done! Restored ".to_owned();
        let n = decimal_text(restored as u64);
        r.push_str(&n);
        r.push_str(" configuration(s).");
        r
    } else {
        "No backups found to restore.".to_owned()
    }
}

/// The value under a list of keys, one in the other.
pub open spec fn value_under(v: JsonView, keys: Seq<Seq<char>>) -> Option<JsonView>
    decreases keys.len(),
{
    if keys.len() == 0 {
        Some(v)
    } else {
        match entry(v, keys[0]) {
            Some(x) => value_under(x, keys.skip(1)),
            None => None,
        }
    }
}

/// What a tool's settings need to talk to the proxy: each with the keys under which it stands.
pub open spec fn needed(kind: ToolKind, url: Seq<char>) -> Seq<(Seq<Seq<char>>, Seq<char>)> {
    match kind {
        ToolKind::Anthropic => seq![
            (seq!["env"@, "ANTHROPIC_BASE_URL"@], url),
            (seq!["env"@, "ANTHROPIC_AUTH_TOKEN"@], "agcp"@),
        ],
        ToolKind::Codex => seq![],
        ToolKind::OpenCode => seq![
            (seq!["provider"@, "anthropic"@, "options"@, "baseURL"@], url),
        ],
        ToolKind::Crush => seq![
            (seq!["providers"@, "anthropic"@, "base_url"@], url),
            (seq!["providers"@, "anthropic"@, "type"@], "anthropic"@),
            (seq!["providers"@, "anthropic"@, "api_key"@], "agcp"@),
        ],
        ToolKind::Zed => seq![(seq!["language_models"@, "anthropic"@, "api_url"@], url)],
    }
}

/// Whether one list of keys leads through, to or beyond where the other leads.
pub open spec fn on_one_way(a: Seq<Seq<char>>, b: Seq<Seq<char>>) -> bool {
    starts(a, b) || starts(b, a)
}

/// The value under a key and more keys is the one under these in the object under that key.
proof fn lemma_value_below(v: JsonView, keys: Seq<Seq<char>>)
    requires
        keys.len() > 1,
        settable_under(v, keys[0]),
    ensures
        value_under(v, keys) == value_under(
            JsonView::Object(nested(v, keys[0])),
            keys.skip(1),
        ),
{
    reveal_with_fuel(value_under, 2);
    assert(keys.skip(1).len() > 0);
}

/// An entry that is set does not change what stands under another key.
proof fn lemma_value_beside(
    m: Map<Seq<char>, JsonView>,
    key: Seq<char>,
    x: JsonView,
    keys: Seq<Seq<char>>,
)
    requires
        keys.len() > 0,
    ensures
        keys[0] != key ==> value_under(JsonView::Object(m.insert(key, x)), keys) == value_under(
            JsonView::Object(m),
            keys,
        ),
        keys[0] == key ==> value_under(JsonView::Object(m.insert(key, x)), keys) == value_under(
            x,
            keys.skip(1),
        ),
{
}

/// A list of keys that goes another way than a needed one, and the same way at first, is
/// longer than that part of the way.
proof fn lemma_same_way(a: Seq<Seq<char>>, b: Seq<Seq<char>>, n: int)
    requires
        !on_one_way(a, b),
        0 <= n < b.len(),
        n <= a.len(),
        forall|i: int| 0 <= i < n ==> a[i] == b[i],
    ensures
        a.len() > n,
{
    if a.len() == n {
        assert(crate::text::occurs_at(b, a, 0)) by {
            assert(b.subrange(0, n) =~= a);
        }
    }
}

/// A list of keys that is as long as a needed one differs from it in some key.
proof fn lemma_other_way(a: Seq<Seq<char>>, b: Seq<Seq<char>>)
    requires
        !on_one_way(a, b),
        a.len() >= b.len(),
    ensures
        exists|i: int| 0 <= i < b.len() && a[i] != b[i],
{
    if forall|i: int| 0 <= i < b.len() ==> a[i] == b[i] {
        assert(crate::text::occurs_at(a, b, 0)) by {
            assert(a.subrange(0, b.len() as int) =~= b);
        }
    }
}

/// At every depth, what a tool's settings say of anything else stays: under every list of
/// keys that is neither a part nor a continuation of one that the proxy needs, the value is
/// what it was.
pub proof fn all_other_settings_stay(
    kind: ToolKind,
    v: JsonView,
    url: Seq<char>,
    keys: Seq<Seq<char>>,
)
    requires
        takes_url(kind, v),
        forall|i: int|
            0 <= i < needed(kind, url).len() ==> !on_one_way(
                keys,
                (#[trigger] needed(kind, url)[i]).0,
            ),
    ensures
        value_under(settings_of(kind, v, url), keys) == value_under(v, keys),
{
    if kind != ToolKind::Codex {
        let n = needed(kind, url);
        let p = n[0].0;
        assert(!on_one_way(keys, p));
        lemma_same_way(keys, p, 0);
        let m = as_object(v);
        let r1 = keys.skip(1);
        let r2 = keys.skip(2);
        let r3 = keys.skip(3);
        if keys[0] != p[0] {
            assert(entry(settings_of(kind, v, url), keys[0]) == entry(v, keys[0]));
        } else {
            lemma_same_way(keys, p, 1);
            lemma_value_below(v, keys);
            let m1 = nested(v, p[0]);
            if kind == ToolKind::Anthropic {
                let q = n[1].0;
                assert(!on_one_way(keys, q));
                lemma_other_way(keys, p);
                lemma_other_way(keys, q);
                assert(keys[1] != p[1] && keys[1] != q[1]);
                let once = m1.insert(p[1], JsonView::Text(url));
                lemma_value_beside(m1, p[1], JsonView::Text(url), r1);
                lemma_value_beside(once, q[1], JsonView::Text("agcp"@), r1);
            } else if keys[1] != p[1] {
                let inner = entry(settings_of(kind, v, url), p[0])->0;
                assert(as_object(inner) == m1.insert(p[1], as_object(inner)[p[1]]));
                lemma_value_beside(m1, p[1], as_object(inner)[p[1]], r1);
            } else {
                lemma_same_way(keys, p, 2);
                assert(r1.skip(1) =~= r2);
                lemma_value_below(JsonView::Object(m1), r1);
                let m2 = nested_two(v, p[0], p[1]);
                let inner = entry(entry(settings_of(kind, v, url), p[0])->0, p[1])->0;
                let outer = entry(settings_of(kind, v, url), p[0])->0;
                assert(r1[0] == keys[1]);
                assert(value_under(settings_of(kind, v, url), keys) == value_under(outer, r1));
                assert(value_under(outer, r1) == value_under(inner, r1.skip(1)));
                if kind == ToolKind::OpenCode {
                    let options = as_object(inner)[p[2]];
                    lemma_value_beside(m2, p[2], options, r2);
                    if keys[2] == p[2] {
                        lemma_same_way(keys, p, 3);
                        lemma_other_way(keys, p);
                        assert(keys[3] != p[3]);
                        assert(r2.skip(1) =~= r3);
                        lemma_value_below(JsonView::Object(m2), r2);
                        lemma_value_beside(
                            nested(JsonView::Object(m2), p[2]),
                            p[3],
                            JsonView::Text(url),
                            r3,
                        );
                    }
                } else if kind == ToolKind::Zed {
                    lemma_other_way(keys, p);
                    assert(keys[2] != p[2]);
                    lemma_value_beside(m2, p[2], JsonView::Text(url), r2);
                } else {
                    let q = n[1].0;
                    let t = n[2].0;
                    assert(!on_one_way(keys, q));
                    assert(!on_one_way(keys, t));
                    lemma_other_way(keys, p);
                    lemma_other_way(keys, q);
                    lemma_other_way(keys, t);
                    assert(keys[2] != p[2] && keys[2] != q[2] && keys[2] != t[2]);
                    let once = m2.insert(p[2], JsonView::Text(url));
                    let twice = once.insert(q[2], JsonView::Text("anthropic"@));
                    lemma_value_beside(m2, p[2], JsonView::Text(url), r2);
                    lemma_value_beside(once, q[2], JsonView::Text("anthropic"@), r2);
                    lemma_value_beside(twice, t[2], JsonView::Text("agcp"@), r2);
                }
            }
        }
    }
}

/// What a tool needs to talk to the proxy stands in its settings afterwards: the URL, and what
/// goes with it.
pub proof fn needed_settings_are_set(kind: ToolKind, v: JsonView, url: Seq<char>, i: int)
    requires
        0 <= i < needed(kind, url).len(),
    ensures
        value_under(settings_of(kind, v, url), needed(kind, url)[i].0) == Some(
            JsonView::Text(needed(kind, url)[i].1),
        ),
{
    reveal_with_fuel(value_under, 6);
    reveal_strlit("ANTHROPIC_BASE_URL");
    reveal_strlit("ANTHROPIC_AUTH_TOKEN");
    reveal_strlit("base_url");
    reveal_strlit("type");
    reveal_strlit("api_key");
    assert("base_url"@.len() != "type"@.len());
    assert("api_key"@.len() != "type"@.len());
    assert("base_url"@.len() != "api_key"@.len());
    assert("ANTHROPIC_BASE_URL"@.len() != "ANTHROPIC_AUTH_TOKEN"@.len());
    let keys = needed(kind, url)[i].0;
    let r1 = keys.skip(1);
    let r2 = r1.skip(1);
    let r3 = r2.skip(1);
    assert(r1[0] == keys[1]);
    assert(keys.len() > 2 ==> r2[0] == keys[2]);
    assert(keys.len() > 3 ==> r3[0] == keys[3]);
}

/// A text that is filled up keeps what it says in front, has at least the width, and holds
/// nothing but spaces behind.
pub proof fn filled_texts_keep_what_they_say(s: Seq<char>, width: nat)
    ensures
        padded(s, width).len() == (if s.len() < width {
            width
        } else {
            s.len()
        }),
        padded(s, width).take(s.len() as int) == s,
        forall|i: int|
            s.len() <= i < padded(s, width).len() ==> #[trigger] padded(s, width)[i] == ' ',
    decreases width - s.len(),
{
    if s.len() >= width {
        assert(s.take(s.len() as int) =~= s);
    } else {
        let t = s.push(' ');
        let p = padded(s, width);
        filled_texts_keep_what_they_say(t, width);
        assert(p == padded(t, width));
        assert forall|i: int| s.len() <= i < p.len() implies #[trigger] p[i] == ' ' by {
            if i == s.len() {
                assert(p.take(t.len() as int)[i] == p[i]);
            }
        }
        assert(p.take(s.len() as int) =~= s) by {
            assert forall|i: int| 0 <= i < s.len() implies p[i] == #[trigger] s[i] by {
                assert(p.take(t.len() as int)[i] == t[i]);
            }
        }
    }
}

/// Every tool has a name and a backup of its own, and no two share their settings.
pub proof fn tools_are_told_apart(a: ToolKind, b: ToolKind, anthropic: Seq<char>)
    requires
        a != b,
        a != ToolKind::Anthropic,
        b != ToolKind::Anthropic,
    ensures
        name_of(a, anthropic) != name_of(b, anthropic),
        backup_of(a, anthropic) != backup_of(b, anthropic),
{
    reveal_strlit("Codex");
    reveal_strlit("OpenCode");
    reveal_strlit("Crush");
    reveal_strlit("Zed");
    assert("Codex"@.len() != "OpenCode"@.len());
    assert("Codex"@[1] != "Crush"@[1]);
    assert("Codex"@.len() != "Zed"@.len());
    assert("OpenCode"@.len() != "Crush"@.len());
    assert("OpenCode"@.len() != "Zed"@.len());
    assert("Crush"@.len() != "Zed"@.len());
    reveal_strlit("codex.json");
    reveal_strlit("opencode.json");
    reveal_strlit("crush.json");
    reveal_strlit("zed-settings.json");
    assert("codex.json"@.len() != "opencode.json"@.len());
    assert("codex.json"@[1] != "crush.json"@[1]);
    assert("codex.json"@.len() != "zed-settings.json"@.len());
    assert("opencode.json"@.len() != "crush.json"@.len());
    assert("opencode.json"@.len() != "zed-settings.json"@.len());
    assert("crush.json"@.len() != "zed-settings.json"@.len());
}

/// Settings that are there are read as they are, and nothing else is taken for them; in one
/// format comments are allowed.
pub proof fn settings_are_read_as_they_are(kind: ToolKind, text: Seq<char>)
    ensures
        kind != ToolKind::Zed && parsed_json(text) is Some ==> settings_in(kind, Some(text))
            == parsed_json(text)->0,
        kind == ToolKind::Zed && parsed_json(without_comments(text)) is Some ==> settings_in(
            kind,
            Some(text),
        ) == parsed_json(without_comments(text))->0,
        settings_in(kind, None) == JsonView::Object(Map::empty()),
{
}

/// Another provider is replaced by the proxy, and everything before and behind it stays.
pub proof fn another_provider_is_replaced(a: Seq<char>, name: Seq<char>, b: Seq<char>)
    requires
        !name.contains('"'),
        ({
            let s = a + "model_provider = \""@ + name + seq!['"'] + b;
            &&& !holds(s, provider_setting())
            &&& forall|j: int|
                0 <= j < a.len() ==> !#[trigger] occurs_at(s, "model_provider = \""@, j)
        }),
    ensures
        with_provider(a + "model_provider = \""@ + name + seq!['"'] + b) == a + provider_setting()
            + b,
{
    let opening = "model_provider = \""@;
    let quote = "\""@;
    let s = a + opening + name + seq!['"'] + b;
    reveal_strlit("model_provider = \"");
    reveal_strlit("model_provider = ");
    reveal_strlit("\"");
    let n = a.len() as int;
    let m = n + opening.len();
    let e = m + name.len();
    assert(s.subrange(n, m) =~= opening);
    assert(occurs_at(s, opening, n));
    crate::text::first_at_is_first(s, opening, 0);
    assert(first_at(s, opening, 0) == Some(n));
    let plain = "model_provider = "@;
    assert(s.subrange(n, n + plain.len()) =~= plain);
    assert(occurs_at(s, plain, n));
    assert(holds(s, plain));
    assert(s[e] == '"');
    assert(s.subrange(e, e + 1) =~= quote);
    assert(occurs_at(s, quote, e));
    assert forall|j: int| m <= j < e implies !occurs_at(s, quote, j) by {
        assert(s[j] == name[j - m]);
        assert(name.contains(name[j - m]));
        if occurs_at(s, quote, j) {
            assert(s.subrange(j, j + 1)[0] == s[j]);
        }
    }
    crate::text::first_at_is_first(s, quote, m);
    assert(first_at(s, quote, m) == Some(e));
    assert(s.take(n) =~= a);
    assert(s.subrange(e + 1, s.len() as int) =~= b);
}

/// Where no provider is named, the setting is put in on a line of its own, and nothing else
/// changes.
pub proof fn a_missing_provider_is_put_in(s: Seq<char>)
    requires
        !holds(s, "model_provider = "@),
        !holds(s, provider_setting()),
    ensures
        exists|p: int|
            0 <= p <= s.len() && with_provider(s) == #[trigger] s.take(p) + provider_setting()
                + seq!['\n'] + s.skip(p),
{
    let p = insert_place(s);
    a_new_setting_stands_behind_the_comments(s);
    lemma_setting_line();
    reveal_strlit("\n");
    assert("\n"@ =~= seq!['\n']);
    assert(with_provider(s) =~= s.take(p) + provider_setting() + seq!['\n'] + s.skip(p));
}

/// A configuration that has no section for the proxy keeps all it has, and the section comes
/// behind it.
pub proof fn a_new_section_stands_behind(content: Seq<char>, url: Seq<char>)
    requires
        !has_section(lines(content, '\n', '\r'), lines(content, '\n', '\r').len() as int),
    ensures
        starts(with_section(content, url), content),
        holds(with_section(content, url), url),
{
    let r = with_section(content, url);
    assert(r.subrange(0, content.len() as int) =~= content);
    lemma_new_section(content, url);
    let line = url_line(url);
    let i = choose|i: int| occurs_at(r, line, i);
    assert(holds(r, line));
    let k = "base_url = \""@.len() as int;
    assert(line.subrange(k, k + url.len()) =~= url);
    assert(r.subrange(i + k, i + k + url.len()) =~= r.subrange(i, i + line.len()).subrange(
        k,
        k + url.len(),
    ));
    assert(occurs_at(r, url, i + k));
}

/// A comment and a blank line are idle, and no line that begins with anything else.
pub proof fn comments_and_blank_lines_are_idle(c: Seq<char>, n: nat, first: char)
    requires
        first != '#',
        !crate::text::is_space(first),
    ensures
        is_idle_line(seq!['#'] + c),
        is_idle_line(Seq::new(n, |i: int| ' ')),
        !is_idle_line(seq![first] + c),
    decreases n,
{
    reveal_strlit("#");
    let hash = seq!['#'] + c;
    assert(hash.subrange(0, 1) =~= "#"@);
    let other = seq![first] + c;
    assert(other.subrange(0, 1)[0] == first);
    assert("#"@[0] == '#');
    lemma_first_stays(other);
    let blank = Seq::new(n, |i: int| ' ');
    lemma_blank_is_nothing(blank);
}

/// What begins with no white space keeps its beginning.
proof fn lemma_first_stays(s: Seq<char>)
    requires
        s.len() > 0,
        !crate::text::is_space(s[0]),
    ensures
        trimmed(s).len() > 0,
        trimmed(s)[0] == s[0],
{
    assert(crate::text::trimmed_start(s) == s);
    lemma_first_stays_at_the_end(s);
}

proof fn lemma_first_stays_at_the_end(s: Seq<char>)
    requires
        s.len() > 0,
        !crate::text::is_space(s[0]),
    ensures
        crate::text::trimmed_end(s).len() > 0,
        crate::text::trimmed_end(s)[0] == s[0],
    decreases s.len(),
{
    if crate::text::is_space(s.last()) {
        lemma_first_stays_at_the_end(s.drop_last());
    }
}

/// Nothing is left of white space.
proof fn lemma_blank_is_nothing(s: Seq<char>)
    requires
        forall|i: int| 0 <= i < s.len() ==> s[i] == ' ',
    ensures
        trimmed(s).len() == 0,
    decreases s.len(),
{
    if s.len() > 0 {
        lemma_blank_is_nothing(s.subrange(1, s.len() as int));
        assert(crate::text::trimmed_start(s) == crate::text::trimmed_start(
            s.subrange(1, s.len() as int),
        ));
    }
}

/// The proxy's section begins with its header, with nothing or a comment behind it; every other
/// line in brackets begins another.
pub proof fn the_section_begins_with_its_header(rest: Seq<char>, first: char)
    requires
        first != '[',
        !crate::text::is_space(first),
    ensures
        begins_section("[model_providers.agcp]"@),
        !begins_section(seq![first] + rest),
        !opens_section(seq![first] + rest),
        opens_section(seq!['['] + rest),
{
    let header = "[model_providers.agcp]"@;
    reveal_strlit("[model_providers.agcp]");
    reveal_strlit("[");
    lemma_first_stays(header);
    assert(!crate::text::is_space(header.last()));
    assert(trimmed(header) == header);
    assert(header.subrange(0, header.len() as int) =~= header);
    assert(after(header, header) =~= Seq::empty());
    lemma_blank_is_nothing(after(header, header));
    let s = seq![first] + rest;
    lemma_first_stays(s);
    let t = trimmed(s);
    assert(t[0] == first);
    if starts(t, header) {
        assert(t.subrange(0, header.len() as int)[0] == t[0]);
        assert(header[0] == '[');
    }
    if starts(t, "["@) {
        assert(t.subrange(0, 1)[0] == t[0]);
        assert("["@[0] == '[');
    }
    let o = seq!['['] + rest;
    lemma_first_stays(o);
    assert(trimmed(o).subrange(0, 1) =~= "["@);
}

/// The tools that were found are those whose place says so, in order, each once.
pub proof fn all_found_tools_are_listed(detected: Seq<bool>)
    ensures
        forall|i: int|
            #[trigger] found(detected).contains(i) <==> 0 <= i < detected.len() && detected[i],
        forall|j: int, k: int|
            0 <= j < k < found(detected).len() ==> (#[trigger] found(detected)[j]) < (
            #[trigger] found(detected)[k]),
    decreases detected.len(),
{
    let all = found(detected);
    if detected.len() > 0 {
        let rest = detected.drop_last();
        let before = found(rest);
        all_found_tools_are_listed(rest);
        assert forall|i: int| #[trigger] all.contains(i) <==> 0 <= i < detected.len()
            && detected[i] by {
            assert(before.contains(i) <==> 0 <= i < rest.len() && rest[i]);
            if before.contains(i) {
                let j = choose|j: int| 0 <= j < before.len() && before[j] == i;
                assert(all[j] == i);
            }
            if i == rest.len() && detected[i] {
                assert(all[all.len() - 1] == i);
            }
            if all.contains(i) {
                let j = choose|j: int| 0 <= j < all.len() && all[j] == i;
                if j < before.len() {
                    assert(before[j] == i);
                }
            }
        }
        assert forall|j: int, k: int| 0 <= j < k < all.len() implies (#[trigger] all[j]) < (
        #[trigger] all[k]) by {
            if k == before.len() {
                assert(before.contains(before[j]));
            }
        }
    }
}

/// The settings of a tool are where the tool looks for them: in the home directory, in the
/// directory of configurations, or in that of the system.
pub proof fn settings_are_where_tools_look(
    anthropic: Seq<char>,
    home: Seq<char>,
    xdg: Seq<char>,
    dir: Seq<char>,
)
    requires
        home.len() > 0 && home.last() != '/',
        xdg.len() > 0 && xdg.last() != '/',
        dir.len() > 0 && dir.last() != '/',
        anthropic.len() > 0 && anthropic.last() != '/',
    ensures
        config_path_of(ToolKind::Anthropic, anthropic, home, xdg, dir) == home + "/."@ + anthropic
            + "/settings.json"@,
        config_path_of(ToolKind::Codex, anthropic, home, xdg, dir) == home + "/.codex/config.toml"@,
        config_path_of(ToolKind::OpenCode, anthropic, home, xdg, dir) == xdg
            + "/opencode/opencode.json"@,
        config_path_of(ToolKind::Crush, anthropic, home, xdg, dir) == xdg + "/crush/crush.json"@,
        config_path_of(ToolKind::Zed, anthropic, home, xdg, dir) == dir + "/zed/settings.json"@,
        backups_dir(dir) == dir + "/agcp/backups"@,
{
    reveal_strlit("/");
    reveal_strlit(".");
    reveal_strlit("/.");
    reveal_strlit("settings.json");
    reveal_strlit("/settings.json");
    reveal_strlit(".codex");
    reveal_strlit("config.toml");
    reveal_strlit("/.codex/config.toml");
    reveal_strlit("opencode");
    reveal_strlit("opencode.json");
    reveal_strlit("/opencode/opencode.json");
    reveal_strlit("crush");
    reveal_strlit("crush.json");
    reveal_strlit("/crush/crush.json");
    reveal_strlit("zed");
    reveal_strlit("/zed/settings.json");
    reveal_strlit("agcp");
    reveal_strlit("backups");
    reveal_strlit("/agcp/backups");
    assert(home + "/"@ + ("."@ + anthropic) + "/"@ + "settings.json"@ =~= home + "/."@ + anthropic
        + "/settings.json"@);
    assert(home + "/"@ + ".codex"@ + "/"@ + "config.toml"@ =~= home + "/.codex/config.toml"@);
    assert(xdg + "/"@ + "opencode"@ + "/"@ + "opencode.json"@ =~= xdg + "/opencode/opencode.json"@);
    assert(xdg + "/"@ + "crush"@ + "/"@ + "crush.json"@ =~= xdg + "/crush/crush.json"@);
    assert(dir + "/"@ + "zed"@ + "/"@ + "settings.json"@ =~= dir + "/zed/settings.json"@);
    assert(dir + "/"@ + "agcp"@ + "/"@ + "backups"@ =~= dir + "/agcp/backups"@);
}

} // verus!
