//! The settings, as fields that can be edited.

use vstd::prelude::*;

use crate::text::{
    decimal, decimal_is_read_back, decimal_text, join, join_texts, number, parse_number, same,
    views,
};

verus! {

/// The server's settings.
#[derive(Debug, Clone, PartialEq)]
pub struct ServerConfig {
    pub port: u16,
    pub host: String,
    pub request_timeout_secs: u64,
}

/// What is logged.
#[derive(Debug, Clone, Copy, PartialEq, Eq, Structural)]
pub struct LoggingConfig {
    pub debug: bool,
    pub log_requests: bool,
}

/// How accounts are chosen. The threshold is a decimal fraction, kept as it is written.
#[derive(Debug, Clone, PartialEq)]
pub struct AccountsConfig {
    pub strategy: String,
    pub quota_threshold: String,
    pub fallback: bool,
}

/// The cache's settings.
#[derive(Debug, Clone, Copy, PartialEq, Eq, Structural)]
pub struct CacheConfig {
    pub enabled: bool,
    pub ttl_seconds: u64,
    pub max_entries: u64,
}

/// How the upstream is asked.
#[derive(Debug, Clone, Copy, PartialEq, Eq, Structural)]
pub struct CloudCodeConfig {
    pub timeout_secs: u64,
    pub max_retries: u64,
    pub max_concurrent_requests: u64,
    pub min_request_interval_ms: u64,
}

/// The settings that can be edited.
#[derive(Debug, Clone, PartialEq)]
pub struct Config {
    pub server: ServerConfig,
    pub logging: LoggingConfig,
    pub accounts: AccountsConfig,
    pub cache: CacheConfig,
    pub cloudcode: CloudCodeConfig,
}

/// What the settings say.
#[verifier::ext_equal]
pub struct ConfigView {
    pub port: u16,
    pub host: Seq<char>,
    pub request_timeout_secs: u64,
    pub logging: LoggingConfig,
    pub strategy: Seq<char>,
    pub quota_threshold: Seq<char>,
    pub fallback: bool,
    pub cache: CacheConfig,
    pub cloudcode: CloudCodeConfig,
}

impl Config {
    /// What the settings say.
    pub open spec fn view(&self) -> ConfigView {
        ConfigView {
            port: self.server.port,
            host: self.server.host@,
            request_timeout_secs: self.server.request_timeout_secs,
            logging: self.logging,
            strategy: self.accounts.strategy@,
            quota_threshold: self.accounts.quota_threshold@,
            fallback: self.accounts.fallback,
            cache: self.cache,
            cloudcode: self.cloudcode,
        }
    }
}

/// What a field takes.
#[derive(Debug, Clone, PartialEq)]
pub enum FieldType {
    /// Free text, numbers too.
    Text,
    /// True or false.
    Bool,
    /// One of these.
    Enum(Vec<&'static str>),
    /// A decimal fraction between two bounds.
    Float { min: &'static str, max: &'static str },
}

/// What a field takes, as texts.
pub enum KindView {
    Text,
    Bool,
    Enum(Seq<Seq<char>>),
    Float { min: Seq<char>, max: Seq<char> },
}

/// The texts of a list.
pub open spec fn texts(v: Seq<&'static str>) -> Seq<Seq<char>> {
    Seq::new(v.len(), |i: int| v[i]@)
}

impl FieldType {
    /// What this takes, as texts.
    pub open spec fn view(&self) -> KindView {
        match self {
            FieldType::Text => KindView::Text,
            FieldType::Bool => KindView::Bool,
            FieldType::Enum(v) => KindView::Enum(texts(v@)),
            FieldType::Float { min, max } => KindView::Float { min: min@, max: max@ },
        }
    }
}

/// A field: a setting, what it takes, what it is and was.
#[derive(Debug, Clone, PartialEq)]
pub struct ConfigField {
    pub section: &'static str,
    pub key: &'static str,
    pub field_type: FieldType,
    pub value: String,
    pub original: String,
    pub description: &'static str,
}

/// A field, as texts.
#[verifier::ext_equal]
pub struct FieldView {
    pub section: Seq<char>,
    pub key: Seq<char>,
    pub kind: KindView,
    pub value: Seq<char>,
    pub original: Seq<char>,
    pub description: Seq<char>,
}

/// What the value of a field is as a decimal fraction.
#[derive(Debug, Clone, Copy, PartialEq, Eq, Structural)]
pub enum FloatCheck {
    NotANumber,
    OutOfRange,
    InRange,
}

/// Whether a key is that of a whole number other than the port.
pub open spec fn is_count_key(key: Seq<char>) -> bool {
    ||| key == "request_timeout_secs"@
    ||| key == "ttl_seconds"@
    ||| key == "timeout_secs"@
    ||| key == "max_retries"@
    ||| key == "max_entries"@
    ||| key == "min_request_interval_ms"@
    ||| key == "max_concurrent_requests"@
}

/// Whether a key is that of a whole number other than the port.
fn names_count(key: &str) -> (r: bool)
    ensures
        r == is_count_key(key@),
{
    same(key, "request_timeout_secs") || same(key, "ttl_seconds") || same(key, "timeout_secs")
        || same(key, "max_retries") || same(key, "max_entries") || same(
        key,
        "min_request_interval_ms",
    ) || same(key, "max_concurrent_requests")
}

/// What is wrong with the value of a field. What the value is as a decimal fraction is handed
/// in.
pub open spec fn field_fault(f: FieldView, float: FloatCheck) -> Option<Seq<char>> {
    match f.kind {
        KindView::Text => if f.key == "port"@ {
            match number(f.value, u16::MAX as nat) {
                Some(n) => if n == 0 {
                    Some("Port must be 1-65535"@)
                } else {
                    None
                },
                None => Some("Must be a number 1-65535"@),
            }
        } else if is_count_key(f.key) && number(f.value, u64::MAX as nat) is None {
            Some("Must be a positive number"@)
        } else {
            None
        },
        KindView::Bool => if f.value == "true"@ || f.value == "false"@ {
            None
        } else {
            Some("Must be true or false"@)
        },
        KindView::Enum(valid) => if valid.contains(f.value) {
            None
        } else {
            Some("Must be one of: "@ + join(valid, ", "@))
        },
        KindView::Float { min, max } => match float {
            FloatCheck::NotANumber => Some(
                "Must be a number between "@ + min + " and "@ + max,
            ),
            FloatCheck::OutOfRange => Some("Must be between "@ + min + " and "@ + max),
            FloatCheck::InRange => None,
        },
    }
}

/// The place of a text in a list.
pub open spec fn place_in(list: Seq<Seq<char>>, t: Seq<char>, i: int) -> Option<int>
    decreases list.len() - i,
{
    if i < 0 || i >= list.len() {
        None
    } else if list[i] == t {
        Some(i)
    } else {
        place_in(list, t, i + 1)
    }
}

/// What is found is the first place, and nothing is found only where there is none.
pub proof fn place_in_is_first(list: Seq<Seq<char>>, t: Seq<char>, i: int)
    requires
        0 <= i,
    ensures
        match place_in(list, t, i) {
            Some(k) => i <= k < list.len() && list[k] == t && forall|j: int|
                i <= j < k ==> list[j] != t,
            None => forall|j: int| i <= j < list.len() ==> list[j] != t,
        },
    decreases list.len() - i,
{
    if i < list.len() && list[i] != t {
        place_in_is_first(list, t, i + 1);
    }
}

/// The place of a text in a list.
pub fn find_text(list: &Vec<&'static str>, t: &str) -> (r: Option<usize>)
    ensures
        match r {
            Some(i) => place_in(texts(list@), t@, 0) == Some(i as int) && i < list@.len(),
            None => place_in(texts(list@), t@, 0) is None,
        },
{
    let mut i: usize = 0;
    while i < list.len()
        invariant
            i <= list@.len(),
            place_in(texts(list@), t@, 0) == place_in(texts(list@), t@, i as int),
        decreases list@.len() - i,
    {
        assert(texts(list@)[i as int] == list@[i as int]@);
        if same(list[i], t) {
            return Some(i);
        }
        i = i + 1;
    }
    None
}

/// A list of texts, one by one.
fn owned(list: &Vec<&'static str>) -> (r: Vec<String>)
    ensures
        views(r@) == texts(list@),
{
    let mut r: Vec<String> = Vec::new();
    let mut i: usize = 0;
    while i < list.len()
        invariant
            i <= list@.len(),
            r@.len() == i,
            forall|j: int| 0 <= j < i ==> (#[trigger] r@[j])@ == list@[j]@,
        decreases list@.len() - i,
    {
        r.push(list[i].to_owned());
        i = i + 1;
    }
    assert(views(r@) =~= texts(list@));
    r
}

/// A message between two bounds.
fn between(head: &str, min: &str, max: &str) -> (r: String)
    ensures
        r@ == head@ + min@ + " and "@ + max@,
{
    let mut r = head.to_owned();
    r.push_str(min);
    r.push_str(" and ");
    r.push_str(max);
    r
}

impl ConfigField {
    /// This field, as texts.
    pub open spec fn view(&self) -> FieldView {
        FieldView {
            section: self.section@,
            key: self.key@,
            kind: self.field_type@,
            value: self.value@,
            original: self.original@,
            description: self.description@,
        }
    }

    /// A field that has not been changed.
    pub fn new(
        section: &'static str,
        key: &'static str,
        field_type: FieldType,
        value: String,
        description: &'static str,
    ) -> (r: ConfigField)
        ensures
            r@ == (FieldView {
                section: section@,
                key: key@,
                kind: field_type@,
                value: value@,
                original: value@,
                description: description@,
            }),
    {
        ConfigField { section, key, field_type, original: value.clone(), value, description }
    }

    /// Whether the value has been changed.
    pub fn is_modified(&self) -> (r: bool)
        ensures
            r == (self@.value != self@.original),
    {
        !same(&self.value, &self.original)
    }

    /// Whether only a number can be typed.
    pub fn is_numeric(&self) -> (r: bool)
        ensures
            r == takes_number(self@),
    {
        same(self.key, "port") || names_count(self.key) || match &self.field_type {
            FieldType::Float { .. } => true,
            _ => false,
        }
    }

    /// What is wrong with the value.
    pub fn validate(&self, float: FloatCheck) -> (r: Result<(), String>)
        ensures
            match r {
                Ok(_) => field_fault(self@, float) is None,
                Err(e) => field_fault(self@, float) == Some(e@),
            },
    {
        match &self.field_type {
            FieldType::Text => {
                if same(self.key, "port") {
                    match parse_number(&self.value) {
                        Some(n) => {
                            if n > 65535 {
                                Err("Must be a number 1-65535".to_owned())
                            } else if n == 0 {
                                Err("Port must be 1-65535".to_owned())
                            } else {
                                Ok(())
                            }
                        },
                        None => Err("Must be a number 1-65535".to_owned()),
                    }
                } else if names_count(self.key) && parse_number(&self.value).is_none() {
                    Err("Must be a positive number".to_owned())
                } else {
                    Ok(())
                }
            },
            FieldType::Bool => {
                if same(&self.value, "true") || same(&self.value, "false") {
                    Ok(())
                } else {
                    Err("Must be true or false".to_owned())
                }
            },
            FieldType::Enum(valid) => {
                proof {
                    place_in_is_first(texts(valid@), self.value@, 0);
                }
                match find_text(valid, &self.value) {
                    Some(_) => Ok(()),
                    None => {
                        let list = owned(valid);
                        let mut m = "Must be one of: ".to_owned();
                        let names = join_texts(&list, ", ");
                        m.push_str(&names);
                        Err(m)
                    },
                }
            },
            FieldType::Float { min, max } => match float {
                FloatCheck::NotANumber => Err(between("Must be a number between ", min, max)),
                FloatCheck::OutOfRange => Err(between("Must be between ", min, max)),
                FloatCheck::InRange => Ok(()),
            },
        }
    }
}

/// Whether only a number can be typed into a field.
pub open spec fn takes_number(f: FieldView) -> bool {
    f.key == "port"@ || is_count_key(f.key) || f.kind is Float
}

/// A field that has not been changed.
pub open spec fn plain_field(
    section: Seq<char>,
    key: Seq<char>,
    kind: KindView,
    value: Seq<char>,
    description: Seq<char>,
) -> FieldView {
    FieldView { section, key, kind, value, original: value, description }
}

/// How a truth value is written.
pub open spec fn truth(b: bool) -> Seq<char> {
    if b {
        "true"@
    } else {
        "false"@
    }
}

/// How a truth value is written.
fn truth_text(b: bool) -> (r: String)
    ensures
        r@ == truth(b),
{
    if b {
        "true".to_owned()
    } else {
        "false".to_owned()
    }
}

/// The strategies there are for choosing accounts.
pub open spec fn strategies() -> Seq<Seq<char>> {
    seq!["sticky"@, "roundrobin"@, "hybrid"@]
}

/// The strategies there are for choosing accounts.
fn strategy_names() -> (r: Vec<&'static str>)
    ensures
        texts(r@) == strategies(),
{
    let mut r: Vec<&'static str> = Vec::new();
    r.push("sticky");
    r.push("roundrobin");
    r.push("hybrid");
    assert(texts(r@) =~= strategies());
    r
}

/// The settings as fields, section by section.
pub open spec fn fields_of(c: ConfigView) -> Seq<FieldView> {
    seq![
        plain_field(
            "server"@,
            "port"@,
            KindView::Text,
            decimal(c.port as nat),
            "TCP port the proxy listens on (1-65535)"@,
        ),
        plain_field(
            "server"@,
            "host"@,
            KindView::Text,
            c.host,
            "Bind address for the proxy (e.g. 127.0.0.1 or 0.0.0.0 for all interfaces)"@,
        ),
        plain_field(
            "server"@,
            "request_timeout_secs"@,
            KindView::Text,
            decimal(c.request_timeout_secs as nat),
            "Maximum time in seconds to wait for a response before timing out"@,
        ),
        plain_field(
            "logging"@,
            "debug"@,
            KindView::Bool,
            truth(c.logging.debug),
            "Enable verbose debug logging (includes request/response details)"@,
        ),
        plain_field(
            "logging"@,
            "log_requests"@,
            KindView::Bool,
            truth(c.logging.log_requests),
            "Log each API request with model, status, and duration"@,
        ),
        plain_field(
            "accounts"@,
            "strategy"@,
            KindView::Enum(strategies()),
            c.strategy,
            "Account selection strategy: sticky (stay until rate-limited), roundrobin (rotate each request), hybrid (smart selection)"@,
        ),
        plain_field(
            "accounts"@,
            "quota_threshold"@,
            KindView::Float { min: "0"@, max: "1"@ },
            c.quota_threshold,
            "Switch accounts when quota remaining drops below this fraction (0.0-1.0)"@,
        ),
        plain_field(
            "accounts"@,
            "fallback"@,
            KindView::Bool,
            truth(c.fallback),
            "Try alternate model endpoints when the primary returns capacity errors"@,
        ),
        plain_field(
            "cache"@,
            "enabled"@,
            KindView::Bool,
            truth(c.cache.enabled),
            "Enable response caching for identical requests (reduces API usage)"@,
        ),
        plain_field(
            "cache"@,
            "ttl_seconds"@,
            KindView::Text,
            decimal(c.cache.ttl_seconds as nat),
            "How long cached responses remain valid, in seconds"@,
        ),
        plain_field(
            "cache"@,
            "max_entries"@,
            KindView::Text,
            decimal(c.cache.max_entries as nat),
            "Maximum number of responses to keep in the LRU cache"@,
        ),
        plain_field(
            "cloudcode"@,
            "timeout_secs"@,
            KindView::Text,
            decimal(c.cloudcode.timeout_secs as nat),
            "Timeout in seconds for Google Cloud Code API requests"@,
        ),
        plain_field(
            "cloudcode"@,
            "max_retries"@,
            KindView::Text,
            decimal(c.cloudcode.max_retries as nat),
            "Maximum number of retry attempts for failed or rate-limited requests"@,
        ),
        plain_field(
            "cloudcode"@,
            "max_concurrent_requests"@,
            KindView::Text,
            decimal(c.cloudcode.max_concurrent_requests as nat),
            "Maximum number of simultaneous requests to the Cloud Code API"@,
        ),
        plain_field(
            "cloudcode"@,
            "min_request_interval_ms"@,
            KindView::Text,
            decimal(c.cloudcode.min_request_interval_ms as nat),
            "Minimum delay in milliseconds between consecutive API requests"@,
        ),
    ]
}

/// The fields, as texts.
pub open spec fn field_views(f: Seq<ConfigField>) -> Seq<FieldView> {
    Seq::new(f.len(), |i: int| f[i]@)
}

/// The settings as fields, section by section.
pub fn build_config_fields(config: &Config) -> (r: Vec<ConfigField>)
    ensures
        field_views(r@) == fields_of(config@),
{
    let mut r: Vec<ConfigField> = Vec::new();
    r.push(
        ConfigField::new(
            "server",
            "port",
            FieldType::Text,
            decimal_text(config.server.port as u64),
            "TCP port the proxy listens on (1-65535)",
        ),
    );
    r.push(
        ConfigField::new(
            "server",
            "host",
            FieldType::Text,
            config.server.host.clone(),
            "Bind address for the proxy (e.g. 127.0.0.1 or 0.0.0.0 for all interfaces)",
        ),
    );
    r.push(
        ConfigField::new(
            "server",
            "request_timeout_secs",
            FieldType::Text,
            decimal_text(config.server.request_timeout_secs),
            "Maximum time in seconds to wait for a response before timing out",
        ),
    );
    r.push(
        ConfigField::new(
            "logging",
            "debug",
            FieldType::Bool,
            truth_text(config.logging.debug),
            "Enable verbose debug logging (includes request/response details)",
        ),
    );
    r.push(
        ConfigField::new(
            "logging",
            "log_requests",
            FieldType::Bool,
            truth_text(config.logging.log_requests),
            "Log each API request with model, status, and duration",
        ),
    );
    r.push(
        ConfigField::new(
            "accounts",
            "strategy",
            FieldType::Enum(strategy_names()),
            config.accounts.strategy.clone(),
            "Account selection strategy: sticky (stay until rate-limited), roundrobin (rotate each request), hybrid (smart selection)",
        ),
    );
    r.push(
        ConfigField::new(
            "accounts",
            "quota_threshold",
            FieldType::Float { min: "0", max: "1" },
            config.accounts.quota_threshold.clone(),
            "Switch accounts when quota remaining drops below this fraction (0.0-1.0)",
        ),
    );
    r.push(
        ConfigField::new(
            "accounts",
            "fallback",
            FieldType::Bool,
            truth_text(config.accounts.fallback),
            "Try alternate model endpoints when the primary returns capacity errors",
        ),
    );
    r.push(
        ConfigField::new(
            "cache",
            "enabled",
            FieldType::Bool,
            truth_text(config.cache.enabled),
            "Enable response caching for identical requests (reduces API usage)",
        ),
    );
    r.push(
        ConfigField::new(
            "cache",
            "ttl_seconds",
            FieldType::Text,
            decimal_text(config.cache.ttl_seconds),
            "How long cached responses remain valid, in seconds",
        ),
    );
    r.push(
        ConfigField::new(
            "cache",
            "max_entries",
            FieldType::Text,
            decimal_text(config.cache.max_entries),
            "Maximum number of responses to keep in the LRU cache",
        ),
    );
    r.push(
        ConfigField::new(
            "cloudcode",
            "timeout_secs",
            FieldType::Text,
            decimal_text(config.cloudcode.timeout_secs),
            "Timeout in seconds for Google Cloud Code API requests",
        ),
    );
    r.push(
        ConfigField::new(
            "cloudcode",
            "max_retries",
            FieldType::Text,
            decimal_text(config.cloudcode.max_retries),
            "Maximum number of retry attempts for failed or rate-limited requests",
        ),
    );
    r.push(
        ConfigField::new(
            "cloudcode",
            "max_concurrent_requests",
            FieldType::Text,
            decimal_text(config.cloudcode.max_concurrent_requests),
            "Maximum number of simultaneous requests to the Cloud Code API",
        ),
    );
    r.push(
        ConfigField::new(
            "cloudcode",
            "min_request_interval_ms",
            FieldType::Text,
            decimal_text(config.cloudcode.min_request_interval_ms),
            "Minimum delay in milliseconds between consecutive API requests",
        ),
    );
    assert(field_views(r@) =~= fields_of(config@));
    r
}

/// The number in a field, or what it was where the field holds none.
pub open spec fn number_or(value: Seq<char>, max: nat, was: nat) -> nat {
    match number(value, max) {
        Some(n) => n,
        None => was,
    }
}

/// The settings with that of a field. A field that is not known changes nothing, nor does
/// one whose number cannot be read; whether the threshold can be read is handed in.
pub open spec fn with_field(
    c: ConfigView,
    section: Seq<char>,
    key: Seq<char>,
    value: Seq<char>,
    is_fraction: bool,
) -> ConfigView {
    let n = |was: u64| number_or(value, u64::MAX as nat, was as nat) as u64;
    if section == "server"@ && key == "port"@ {
        ConfigView { port: number_or(value, u16::MAX as nat, c.port as nat) as u16, ..c }
    } else if section == "server"@ && key == "host"@ {
        ConfigView { host: value, ..c }
    } else if section == "server"@ && key == "request_timeout_secs"@ {
        ConfigView { request_timeout_secs: n(c.request_timeout_secs), ..c }
    } else if section == "logging"@ && key == "debug"@ {
        ConfigView { logging: LoggingConfig { debug: value == "true"@, ..c.logging }, ..c }
    } else if section == "logging"@ && key == "log_requests"@ {
        ConfigView { logging: LoggingConfig { log_requests: value == "true"@, ..c.logging }, ..c }
    } else if section == "accounts"@ && key == "strategy"@ {
        ConfigView { strategy: value, ..c }
    } else if section == "accounts"@ && key == "quota_threshold"@ {
        if is_fraction {
            ConfigView { quota_threshold: value, ..c }
        } else {
            c
        }
    } else if section == "accounts"@ && key == "fallback"@ {
        ConfigView { fallback: value == "true"@, ..c }
    } else if section == "cache"@ && key == "enabled"@ {
        ConfigView { cache: CacheConfig { enabled: value == "true"@, ..c.cache }, ..c }
    } else if section == "cache"@ && key == "ttl_seconds"@ {
        ConfigView { cache: CacheConfig { ttl_seconds: n(c.cache.ttl_seconds), ..c.cache }, ..c }
    } else if section == "cache"@ && key == "max_entries"@ {
        ConfigView { cache: CacheConfig { max_entries: n(c.cache.max_entries), ..c.cache }, ..c }
    } else if section == "cloudcode"@ && key == "timeout_secs"@ {
        ConfigView {
            cloudcode: CloudCodeConfig { timeout_secs: n(c.cloudcode.timeout_secs), ..c.cloudcode },
            ..c
        }
    } else if section == "cloudcode"@ && key == "max_retries"@ {
        ConfigView {
            cloudcode: CloudCodeConfig { max_retries: n(c.cloudcode.max_retries), ..c.cloudcode },
            ..c
        }
    } else if section == "cloudcode"@ && key == "max_concurrent_requests"@ {
        ConfigView {
            cloudcode: CloudCodeConfig {
                max_concurrent_requests: n(c.cloudcode.max_concurrent_requests),
                ..c.cloudcode
            },
            ..c
        }
    } else if section == "cloudcode"@ && key == "min_request_interval_ms"@ {
        ConfigView {
            cloudcode: CloudCodeConfig {
                min_request_interval_ms: n(c.cloudcode.min_request_interval_ms),
                ..c.cloudcode
            },
            ..c
        }
    } else {
        c
    }
}

/// The number in a field, or what it was where the field holds none.
fn read_or(value: &str, was: u64) -> (r: u64)
    ensures
        r == number_or(value@, u64::MAX as nat, was as nat),
{
    match parse_number(value) {
        Some(n) => n,
        None => was,
    }
}

/// The port in a field, or what it was where the field holds none.
fn read_port_or(value: &str, was: u16) -> (r: u16)
    ensures
        r == number_or(value@, u16::MAX as nat, was as nat),
{
    match parse_number(value) {
        Some(n) => {
            if n <= 65535 {
                n as u16
            } else {
                was
            }
        },
        None => was,
    }
}

/// Puts the value of a field into the settings.
fn put_field(config: &mut Config, section: &str, key: &str, value: &str, is_fraction: bool)
    ensures
        final(config)@ == with_field(old(config)@, section@, key@, value@, is_fraction),
{
    let yes = same(value, "true");
    if same(section, "server") && same(key, "port") {
        config.server.port = read_port_or(value, config.server.port);
    } else if same(section, "server") && same(key, "host") {
        config.server.host = value.to_owned();
    } else if same(section, "server") && same(key, "request_timeout_secs") {
        config.server.request_timeout_secs = read_or(value, config.server.request_timeout_secs);
    } else if same(section, "logging") && same(key, "debug") {
        config.logging.debug = yes;
    } else if same(section, "logging") && same(key, "log_requests") {
        config.logging.log_requests = yes;
    } else if same(section, "accounts") && same(key, "strategy") {
        config.accounts.strategy = value.to_owned();
    } else if same(section, "accounts") && same(key, "quota_threshold") {
        if is_fraction {
            config.accounts.quota_threshold = value.to_owned();
        }
    } else if same(section, "accounts") && same(key, "fallback") {
        config.accounts.fallback = yes;
    } else if same(section, "cache") && same(key, "enabled") {
        config.cache.enabled = yes;
    } else if same(section, "cache") && same(key, "ttl_seconds") {
        config.cache.ttl_seconds = read_or(value, config.cache.ttl_seconds);
    } else if same(section, "cache") && same(key, "max_entries") {
        config.cache.max_entries = read_or(value, config.cache.max_entries);
    } else if same(section, "cloudcode") && same(key, "timeout_secs") {
        config.cloudcode.timeout_secs = read_or(value, config.cloudcode.timeout_secs);
    } else if same(section, "cloudcode") && same(key, "max_retries") {
        config.cloudcode.max_retries = read_or(value, config.cloudcode.max_retries);
    } else if same(section, "cloudcode") && same(key, "max_concurrent_requests") {
        config.cloudcode.max_concurrent_requests =
        read_or(value, config.cloudcode.max_concurrent_requests);
    } else if same(section, "cloudcode") && same(key, "min_request_interval_ms") {
        config.cloudcode.min_request_interval_ms =
        read_or(value, config.cloudcode.min_request_interval_ms);
    }
}

/// The settings with those of the first `n` fields.
pub open spec fn with_fields(
    c: ConfigView,
    f: Seq<FieldView>,
    is_fraction: bool,
    n: int,
) -> ConfigView
    decreases n,
{
    if n <= 0 {
        c
    } else {
        with_field(
            with_fields(c, f, is_fraction, n - 1),
            f[n - 1].section,
            f[n - 1].key,
            f[n - 1].value,
            is_fraction,
        )
    }
}

/// The settings with those of the fields. Whether the threshold can be read as a fraction is
/// handed in.
pub fn apply_fields_to_config(config: Config, fields: &Vec<ConfigField>, is_fraction: bool) -> (r:
    Config)
    ensures
        r@ == with_fields(config@, field_views(fields@), is_fraction, fields@.len() as int),
{
    let ghost start = config@;
    let ghost f = field_views(fields@);
    let mut r = config;
    let mut i: usize = 0;
    while i < fields.len()
        invariant
            i <= fields@.len(),
            f == field_views(fields@),
            r@ == with_fields(start, f, is_fraction, i as int),
        decreases fields@.len() - i,
    {
        let field = &fields[i];
        assert(f[i as int] == fields@[i as int]@);
        put_field(&mut r, field.section, field.key, &field.value, is_fraction);
        i = i + 1;
    }
    r
}

/// The value that follows another in a list, or precedes it, round and round; the value
/// itself where it is not in the list.
pub open spec fn cycled(list: Seq<Seq<char>>, value: Seq<char>, forward: bool) -> Seq<char> {
    match place_in(list, value, 0) {
        Some(i) => if forward {
            list[(i + 1) % (list.len() as int)]
        } else {
            list[(i + list.len() - 1) % (list.len() as int)]
        },
        None => value,
    }
}

/// In a list without repetitions one step back undoes one step on, and the other way round.
pub proof fn cycling_back_undoes_cycling(list: Seq<Seq<char>>, value: Seq<char>, forward: bool)
    requires
        list.no_duplicates(),
        list.contains(value),
    ensures
        cycled(list, cycled(list, value, forward), !forward) == value,
{
    place_in_is_first(list, value, 0);
    let i = place_in(list, value, 0)->0;
    let n = list.len() as int;
    let j = if forward {
        (i + 1) % n
    } else {
        (i + n - 1) % n
    };
    if forward {
        if i + 1 == n {
            assert(j == 0) by (nonlinear_arith)
                requires
                    j == (i + 1) % n,
                    i + 1 == n,
                    n > 0,
            ;
        } else {
            vstd::arithmetic::div_mod::lemma_small_mod((i + 1) as nat, n as nat);
        }
    } else {
        if i == 0 {
            vstd::arithmetic::div_mod::lemma_small_mod((n - 1) as nat, n as nat);
        } else {
            vstd::arithmetic::div_mod::lemma_mod_add_multiples_vanish(i - 1, n);
            vstd::arithmetic::div_mod::lemma_small_mod((i - 1) as nat, n as nat);
            assert((i + n - 1) == (i - 1) + n);
        }
    }
    place_in_is_first(list, list[j], 0);
    let k = place_in(list, list[j], 0)->0;
    assert(k == j);
    if forward {
        if i + 1 == n {
            vstd::arithmetic::div_mod::lemma_small_mod((n - 1) as nat, n as nat);
        } else {
            vstd::arithmetic::div_mod::lemma_mod_add_multiples_vanish(i, n);
            vstd::arithmetic::div_mod::lemma_small_mod(i as nat, n as nat);
            assert(j + n - 1 == i + n);
        }
    } else {
        if i == 0 {
            assert((j + 1) % n == 0) by (nonlinear_arith)
                requires
                    j == n - 1,
                    n > 0,
            ;
        } else {
            vstd::arithmetic::div_mod::lemma_small_mod(i as nat, n as nat);
        }
    }
}

proof fn lemma_section_names()
    ensures
        "server"@.len() == 6,
        "logging"@.len() == 7,
        "accounts"@.len() == 8,
        "cache"@.len() == 5,
        "cloudcode"@.len() == 9,
{
    reveal_strlit("server");
    reveal_strlit("logging");
    reveal_strlit("accounts");
    reveal_strlit("cache");
    reveal_strlit("cloudcode");
}

proof fn lemma_server_keys()
    ensures
        "port"@ != "host"@,
        "port"@ != "request_timeout_secs"@,
        "host"@ != "request_timeout_secs"@,
{
    reveal_strlit("port");
    reveal_strlit("host");
    reveal_strlit("request_timeout_secs");
    assert("port"@[0] == 'p');
    assert("host"@[0] == 'h');
    assert("port"@.len() == 4);
    assert("host"@.len() == 4);
    assert("request_timeout_secs"@.len() == 20);
}

proof fn lemma_logging_keys()
    ensures
        "debug"@ != "log_requests"@,
{
    reveal_strlit("debug");
    reveal_strlit("log_requests");
    assert("debug"@.len() == 5);
    assert("log_requests"@.len() == 12);
}

proof fn lemma_accounts_keys()
    ensures
        "strategy"@ != "quota_threshold"@,
        "strategy"@ != "fallback"@,
        "quota_threshold"@ != "fallback"@,
{
    reveal_strlit("strategy");
    reveal_strlit("quota_threshold");
    reveal_strlit("fallback");
    assert("strategy"@[0] == 's');
    assert("fallback"@[0] == 'f');
    assert("strategy"@.len() == 8);
    assert("quota_threshold"@.len() == 15);
    assert("fallback"@.len() == 8);
}

proof fn lemma_cache_keys()
    ensures
        "enabled"@ != "ttl_seconds"@,
        "enabled"@ != "max_entries"@,
        "ttl_seconds"@ != "max_entries"@,
{
    reveal_strlit("enabled");
    reveal_strlit("ttl_seconds");
    reveal_strlit("max_entries");
    assert("ttl_seconds"@[0] == 't');
    assert("max_entries"@[0] == 'm');
    assert("enabled"@.len() == 7);
    assert("ttl_seconds"@.len() == 11);
    assert("max_entries"@.len() == 11);
}

proof fn lemma_cloudcode_keys()
    ensures
        "timeout_secs"@ != "max_retries"@,
        "timeout_secs"@ != "max_concurrent_requests"@,
        "timeout_secs"@ != "min_request_interval_ms"@,
        "max_retries"@ != "max_concurrent_requests"@,
        "max_retries"@ != "min_request_interval_ms"@,
        "max_concurrent_requests"@ != "min_request_interval_ms"@,
{
    reveal_strlit("timeout_secs");
    reveal_strlit("max_retries");
    reveal_strlit("max_concurrent_requests");
    reveal_strlit("min_request_interval_ms");
    assert("max_concurrent_requests"@[1] == 'a');
    assert("min_request_interval_ms"@[1] == 'i');
    assert("timeout_secs"@.len() == 12);
    assert("max_retries"@.len() == 11);
    assert("max_concurrent_requests"@.len() == 23);
    assert("min_request_interval_ms"@.len() == 23);
}

proof fn lemma_truth()
    ensures
        "true"@ != "false"@,
{
    reveal_strlit("true");
    reveal_strlit("false");
    assert("true"@.len() == 4);
    assert("false"@.len() == 5);
}

/// A number that is written down is read as itself.
pub proof fn lemma_decimal_number(n: nat, max: nat)
    requires
        n <= max,
    ensures
        number(decimal(n), max) == Some(n),
{
    decimal_is_read_back(n);
}

/// What the fields of the `server` section do to any settings.
proof fn lemma_server_fields(c: ConfigView, d: ConfigView, f: Seq<FieldView>)
    requires
        f == fields_of(c),
    ensures
        with_field(d, f[0].section, f[0].key, f[0].value, true) == (ConfigView { port: c.port, ..d }),
        with_field(d, f[1].section, f[1].key, f[1].value, true) == (ConfigView { host: c.host, ..d }),
        with_field(d, f[2].section, f[2].key, f[2].value, true) == (ConfigView { request_timeout_secs: c.request_timeout_secs, ..d }),
{
    lemma_section_names();
    lemma_server_keys();
    lemma_truth();
    lemma_decimal_number(c.port as nat, u16::MAX as nat);
    lemma_decimal_number(c.request_timeout_secs as nat, u64::MAX as nat);
}

/// What the fields of the `logging` section do to any settings.
proof fn lemma_logging_fields(c: ConfigView, d: ConfigView, f: Seq<FieldView>)
    requires
        f == fields_of(c),
    ensures
        with_field(d, f[3].section, f[3].key, f[3].value, true) == (ConfigView { logging: LoggingConfig { debug: c.logging.debug, ..d.logging }, ..d }),
        with_field(d, f[4].section, f[4].key, f[4].value, true) == (ConfigView { logging: LoggingConfig { log_requests: c.logging.log_requests, ..d.logging }, ..d }),
{
    lemma_section_names();
    lemma_logging_keys();
    lemma_truth();
}

/// What the fields of the `accounts` section do to any settings.
proof fn lemma_accounts_fields(c: ConfigView, d: ConfigView, f: Seq<FieldView>)
    requires
        f == fields_of(c),
    ensures
        with_field(d, f[5].section, f[5].key, f[5].value, true) == (ConfigView { strategy: c.strategy, ..d }),
        with_field(d, f[6].section, f[6].key, f[6].value, true) == (ConfigView { quota_threshold: c.quota_threshold, ..d }),
        with_field(d, f[7].section, f[7].key, f[7].value, true) == (ConfigView { fallback: c.fallback, ..d }),
{
    lemma_section_names();
    lemma_accounts_keys();
    lemma_truth();
}

/// What the fields of the `cache` section do to any settings.
proof fn lemma_cache_fields(c: ConfigView, d: ConfigView, f: Seq<FieldView>)
    requires
        f == fields_of(c),
    ensures
        with_field(d, f[8].section, f[8].key, f[8].value, true) == (ConfigView { cache: CacheConfig { enabled: c.cache.enabled, ..d.cache }, ..d }),
        with_field(d, f[9].section, f[9].key, f[9].value, true) == (ConfigView { cache: CacheConfig { ttl_seconds: c.cache.ttl_seconds, ..d.cache }, ..d }),
        with_field(d, f[10].section, f[10].key, f[10].value, true) == (ConfigView { cache: CacheConfig { max_entries: c.cache.max_entries, ..d.cache }, ..d }),
{
    lemma_section_names();
    lemma_cache_keys();
    lemma_truth();
    lemma_decimal_number(c.cache.ttl_seconds as nat, u64::MAX as nat);
    lemma_decimal_number(c.cache.max_entries as nat, u64::MAX as nat);
}

/// What the fields of the `cloudcode` section do to any settings.
proof fn lemma_cloudcode_fields(c: ConfigView, d: ConfigView, f: Seq<FieldView>)
    requires
        f == fields_of(c),
    ensures
        with_field(d, f[11].section, f[11].key, f[11].value, true) == (ConfigView { cloudcode: CloudCodeConfig { timeout_secs: c.cloudcode.timeout_secs, ..d.cloudcode }, ..d }),
        with_field(d, f[12].section, f[12].key, f[12].value, true) == (ConfigView { cloudcode: CloudCodeConfig { max_retries: c.cloudcode.max_retries, ..d.cloudcode }, ..d }),
        with_field(d, f[13].section, f[13].key, f[13].value, true) == (ConfigView { cloudcode: CloudCodeConfig { max_concurrent_requests: c.cloudcode.max_concurrent_requests, ..d.cloudcode }, ..d }),
        with_field(d, f[14].section, f[14].key, f[14].value, true) == (ConfigView { cloudcode: CloudCodeConfig { min_request_interval_ms: c.cloudcode.min_request_interval_ms, ..d.cloudcode }, ..d }),
{
    lemma_section_names();
    lemma_cloudcode_keys();
    lemma_truth();
    lemma_decimal_number(c.cloudcode.timeout_secs as nat, u64::MAX as nat);
    lemma_decimal_number(c.cloudcode.max_retries as nat, u64::MAX as nat);
    lemma_decimal_number(c.cloudcode.max_concurrent_requests as nat, u64::MAX as nat);
    lemma_decimal_number(c.cloudcode.min_request_interval_ms as nat, u64::MAX as nat);
}

/// The settings that were made into fields come back from them whole, whatever settings they
/// are put into.
pub proof fn fields_give_the_settings_back(c: ConfigView, d: ConfigView)
    ensures
        with_fields(d, fields_of(c), true, 15) == c,
{
    let f = fields_of(c);
    let d0 = with_fields(d, f, true, 0);
    lemma_server_fields(c, d0, f);
    let d1 = with_fields(d, f, true, 1);
    assert(d1 == with_field(d0, f[0].section, f[0].key, f[0].value, true));
    lemma_server_fields(c, d1, f);
    let d2 = with_fields(d, f, true, 2);
    assert(d2 == with_field(d1, f[1].section, f[1].key, f[1].value, true));
    lemma_server_fields(c, d2, f);
    let d3 = with_fields(d, f, true, 3);
    assert(d3 == with_field(d2, f[2].section, f[2].key, f[2].value, true));
    lemma_logging_fields(c, d3, f);
    let d4 = with_fields(d, f, true, 4);
    assert(d4 == with_field(d3, f[3].section, f[3].key, f[3].value, true));
    lemma_logging_fields(c, d4, f);
    let d5 = with_fields(d, f, true, 5);
    assert(d5 == with_field(d4, f[4].section, f[4].key, f[4].value, true));
    lemma_accounts_fields(c, d5, f);
    let d6 = with_fields(d, f, true, 6);
    assert(d6 == with_field(d5, f[5].section, f[5].key, f[5].value, true));
    lemma_accounts_fields(c, d6, f);
    let d7 = with_fields(d, f, true, 7);
    assert(d7 == with_field(d6, f[6].section, f[6].key, f[6].value, true));
    lemma_accounts_fields(c, d7, f);
    let d8 = with_fields(d, f, true, 8);
    assert(d8 == with_field(d7, f[7].section, f[7].key, f[7].value, true));
    lemma_cache_fields(c, d8, f);
    let d9 = with_fields(d, f, true, 9);
    assert(d9 == with_field(d8, f[8].section, f[8].key, f[8].value, true));
    lemma_cache_fields(c, d9, f);
    let d10 = with_fields(d, f, true, 10);
    assert(d10 == with_field(d9, f[9].section, f[9].key, f[9].value, true));
    lemma_cache_fields(c, d10, f);
    let d11 = with_fields(d, f, true, 11);
    assert(d11 == with_field(d10, f[10].section, f[10].key, f[10].value, true));
    lemma_cloudcode_fields(c, d11, f);
    let d12 = with_fields(d, f, true, 12);
    assert(d12 == with_field(d11, f[11].section, f[11].key, f[11].value, true));
    lemma_cloudcode_fields(c, d12, f);
    let d13 = with_fields(d, f, true, 13);
    assert(d13 == with_field(d12, f[12].section, f[12].key, f[12].value, true));
    lemma_cloudcode_fields(c, d13, f);
    let d14 = with_fields(d, f, true, 14);
    assert(d14 == with_field(d13, f[13].section, f[13].key, f[13].value, true));
    lemma_cloudcode_fields(c, d14, f);
    let d15 = with_fields(d, f, true, 15);
    assert(d15 == with_field(d14, f[14].section, f[14].key, f[14].value, true));
    assert(d15 =~= c);
}

/// The settings with another value in the field at place `k`.
pub open spec fn with_changed(c: ConfigView, k: int, value: Seq<char>, fraction: bool) -> ConfigView {
    with_field(c, fields_of(c)[k].section, fields_of(c)[k].key, value, fraction)
}

/// A field changes no other field.
#[verifier::rlimit(100)]
#[verifier::spinoff_prover]
proof fn lemma_fields_apart(c: ConfigView, k: int, value: Seq<char>, fraction: bool, i: int)
    requires
        0 <= k < 15,
        0 <= i < 15,
        i != k,
    ensures
        fields_of(with_changed(c, k, value, fraction))[i] == fields_of(c)[i],
{
    lemma_section_names();
    lemma_server_keys();
    lemma_logging_keys();
    lemma_accounts_keys();
    lemma_cache_keys();
    lemma_cloudcode_keys();
}

/// A field that says what the settings say changes nothing.
#[verifier::spinoff_prover]
proof fn lemma_same_field(d: ConfigView, fraction: bool, i: int)
    requires
        0 <= i < 15,
    ensures
        ({
            let f = fields_of(d)[i];
            with_field(d, f.section, f.key, f.value, fraction) == d
        }),
{
    let f = fields_of(d);
    lemma_server_fields(d, d, f);
    lemma_logging_fields(d, d, f);
    lemma_accounts_fields(d, d, f);
    lemma_cache_fields(d, d, f);
    lemma_cloudcode_fields(d, d, f);
    let e = with_field(d, f[i].section, f[i].key, f[i].value, true);
    assert(e =~= d);
    assert(fraction || with_field(d, f[i].section, f[i].key, f[i].value, false) =~= d);
}

/// What the first `n` fields do where the one at place `k` has another value.
proof fn lemma_changed_fields(c: ConfigView, k: int, value: Seq<char>, fraction: bool, n: int)
    requires
        0 <= k < 15,
        0 <= n <= 15,
    ensures
        ({
            let f = fields_of(c);
            with_fields(c, f.update(k, (FieldView { value, ..f[k] })), fraction, n) == (if n <= k {
                c
            } else {
                with_changed(c, k, value, fraction)
            })
        }),
    decreases n,
{
    if n > 0 {
        let i = n - 1;
        lemma_changed_fields(c, k, value, fraction, i);
        if i < k {
            lemma_same_field(c, fraction, i);
        } else if i > k {
            let d = with_changed(c, k, value, fraction);
            lemma_fields_apart(c, k, value, fraction, i);
            lemma_same_field(d, fraction, i);
        }
    }
}

/// One field that is changed changes its own setting and no other: the settings put together
/// from fields of which one has another value are the settings before with that value in its
/// place, and every other field of them reads as before.
pub proof fn a_changed_field_changes_its_own_setting(
    c: ConfigView,
    k: int,
    value: Seq<char>,
    fraction: bool,
)
    requires
        0 <= k < 15,
    ensures
        ({
            let f = fields_of(c);
            let r = with_fields(c, f.update(k, (FieldView { value, ..f[k] })), fraction, 15);
            &&& r == with_field(c, f[k].section, f[k].key, value, fraction)
            &&& forall|i: int| 0 <= i < 15 && i != k ==> #[trigger] fields_of(r)[i] == f[i]
        }),
{
    let f = fields_of(c);
    let r = with_changed(c, k, value, fraction);
    lemma_changed_fields(c, k, value, fraction, 15);
    assert forall|i: int| 0 <= i < 15 && i != k implies #[trigger] fields_of(r)[i] == f[i] by {
        lemma_fields_apart(c, k, value, fraction, i);
    }
}

/// What a field of the `server` section says of some settings it says of others that it is put
/// into.
#[verifier::spinoff_prover]
#[verifier::rlimit(50)]
proof fn lemma_server_read_back(c: ConfigView, d: ConfigView, k: int)
    requires
        0 <= k < 3,
    ensures
        fields_of(with_changed(c, k, fields_of(d)[k].value, true))[k].value == fields_of(
            d,
        )[k].value,
{
    let f = fields_of(c);
    let g = fields_of(d);
    lemma_server_fields(d, c, g);
    if k == 0 {
        assert(f[0].section == g[0].section && f[0].key == g[0].key);
        assert(fields_of(with_changed(c, 0, g[0].value, true))[0].value == g[0].value);
    } else if k == 1 {
        assert(f[1].section == g[1].section && f[1].key == g[1].key);
        assert(fields_of(with_changed(c, 1, g[1].value, true))[1].value == g[1].value);
    } else if k == 2 {
        assert(f[2].section == g[2].section && f[2].key == g[2].key);
        assert(fields_of(with_changed(c, 2, g[2].value, true))[2].value == g[2].value);
    }
}

/// What a field of the `logging` section says of some settings it says of others that it is put
/// into.
#[verifier::spinoff_prover]
#[verifier::rlimit(50)]
proof fn lemma_logging_read_back(c: ConfigView, d: ConfigView, k: int)
    requires
        3 <= k < 5,
    ensures
        fields_of(with_changed(c, k, fields_of(d)[k].value, true))[k].value == fields_of(
            d,
        )[k].value,
{
    let f = fields_of(c);
    let g = fields_of(d);
    lemma_logging_fields(d, c, g);
    if k == 3 {
        assert(f[3].section == g[3].section && f[3].key == g[3].key);
        assert(fields_of(with_changed(c, 3, g[3].value, true))[3].value == g[3].value);
    } else if k == 4 {
        assert(f[4].section == g[4].section && f[4].key == g[4].key);
        assert(fields_of(with_changed(c, 4, g[4].value, true))[4].value == g[4].value);
    }
}

/// What a field of the `accounts` section says of some settings it says of others that it is put
/// into.
#[verifier::spinoff_prover]
#[verifier::rlimit(50)]
proof fn lemma_accounts_read_back(c: ConfigView, d: ConfigView, k: int)
    requires
        5 <= k < 8,
    ensures
        fields_of(with_changed(c, k, fields_of(d)[k].value, true))[k].value == fields_of(
            d,
        )[k].value,
{
    let f = fields_of(c);
    let g = fields_of(d);
    lemma_accounts_fields(d, c, g);
    if k == 5 {
        assert(f[5].section == g[5].section && f[5].key == g[5].key);
        assert(fields_of(with_changed(c, 5, g[5].value, true))[5].value == g[5].value);
    } else if k == 6 {
        assert(f[6].section == g[6].section && f[6].key == g[6].key);
        assert(fields_of(with_changed(c, 6, g[6].value, true))[6].value == g[6].value);
    } else if k == 7 {
        assert(f[7].section == g[7].section && f[7].key == g[7].key);
        assert(fields_of(with_changed(c, 7, g[7].value, true))[7].value == g[7].value);
    }
}

/// What a field of the `cache` section says of some settings it says of others that it is put
/// into.
#[verifier::spinoff_prover]
#[verifier::rlimit(50)]
proof fn lemma_cache_read_back(c: ConfigView, d: ConfigView, k: int)
    requires
        8 <= k < 11,
    ensures
        fields_of(with_changed(c, k, fields_of(d)[k].value, true))[k].value == fields_of(
            d,
        )[k].value,
{
    let f = fields_of(c);
    let g = fields_of(d);
    lemma_cache_fields(d, c, g);
    if k == 8 {
        assert(f[8].section == g[8].section && f[8].key == g[8].key);
        assert(fields_of(with_changed(c, 8, g[8].value, true))[8].value == g[8].value);
    } else if k == 9 {
        assert(f[9].section == g[9].section && f[9].key == g[9].key);
        assert(fields_of(with_changed(c, 9, g[9].value, true))[9].value == g[9].value);
    } else if k == 10 {
        assert(f[10].section == g[10].section && f[10].key == g[10].key);
        assert(fields_of(with_changed(c, 10, g[10].value, true))[10].value == g[10].value);
    }
}

/// What a field of the `cloudcode` section says of some settings it says of others that it is put
/// into.
#[verifier::spinoff_prover]
#[verifier::rlimit(50)]
proof fn lemma_cloudcode_read_back(c: ConfigView, d: ConfigView, k: int)
    requires
        11 <= k < 15,
    ensures
        fields_of(with_changed(c, k, fields_of(d)[k].value, true))[k].value == fields_of(
            d,
        )[k].value,
{
    let f = fields_of(c);
    let g = fields_of(d);
    lemma_cloudcode_fields(d, c, g);
    if k == 11 {
        assert(f[11].section == g[11].section && f[11].key == g[11].key);
        assert(fields_of(with_changed(c, 11, g[11].value, true))[11].value == g[11].value);
    } else if k == 12 {
        assert(f[12].section == g[12].section && f[12].key == g[12].key);
        assert(fields_of(with_changed(c, 12, g[12].value, true))[12].value == g[12].value);
    } else if k == 13 {
        assert(f[13].section == g[13].section && f[13].key == g[13].key);
        assert(fields_of(with_changed(c, 13, g[13].value, true))[13].value == g[13].value);
    } else if k == 14 {
        assert(f[14].section == g[14].section && f[14].key == g[14].key);
        assert(fields_of(with_changed(c, 14, g[14].value, true))[14].value == g[14].value);
    }
}

/// A field that is changed to what a setting can be reads it back: where the value is what
/// the field says of some settings, it is what the field then says.
pub proof fn a_changed_field_reads_back(c: ConfigView, d: ConfigView, k: int)
    requires
        0 <= k < 15,
    ensures
        ({
            let f = fields_of(c);
            let value = fields_of(d)[k].value;
            let r = with_fields(c, f.update(k, (FieldView { value, ..f[k] })), true, 15);
            fields_of(r)[k].value == value
        }),
{
    lemma_changed_fields(c, k, fields_of(d)[k].value, true, 15);
    if k < 3 {
        lemma_server_read_back(c, d, k);
    } else if k < 5 {
        lemma_logging_read_back(c, d, k);
    } else if k < 8 {
        lemma_accounts_read_back(c, d, k);
    } else if k < 11 {
        lemma_cache_read_back(c, d, k);
    } else {
        lemma_cloudcode_read_back(c, d, k);
    }
}

/// Whether some field of a section says a value under a key, and as what it was before.
pub open spec fn said(
    f: Seq<FieldView>,
    section: Seq<char>,
    key: Seq<char>,
    value: Seq<char>,
) -> bool {
    exists|i: int|
        0 <= i < f.len() && (#[trigger] f[i]).section == section && f[i].key == key && f[i].value
            == value && f[i].original == value
}

/// Every setting has a field that says it: under its own key, in its own section.
pub proof fn every_setting_has_its_field(c: ConfigView)
    ensures
        said(fields_of(c), "server"@, "port"@, decimal(c.port as nat)),
        said(fields_of(c), "server"@, "host"@, c.host),
        said(fields_of(c), "server"@, "request_timeout_secs"@, decimal(c.request_timeout_secs as nat)),
        said(fields_of(c), "logging"@, "debug"@, (if c.logging.debug { "true"@ } else { "false"@ })),
        said(fields_of(c), "logging"@, "log_requests"@, (if c.logging.log_requests { "true"@ } else { "false"@ })),
        said(fields_of(c), "accounts"@, "strategy"@, c.strategy),
        said(fields_of(c), "accounts"@, "quota_threshold"@, c.quota_threshold),
        said(fields_of(c), "accounts"@, "fallback"@, (if c.fallback { "true"@ } else { "false"@ })),
        said(fields_of(c), "cache"@, "enabled"@, (if c.cache.enabled { "true"@ } else { "false"@ })),
        said(fields_of(c), "cache"@, "ttl_seconds"@, decimal(c.cache.ttl_seconds as nat)),
        said(fields_of(c), "cache"@, "max_entries"@, decimal(c.cache.max_entries as nat)),
        said(fields_of(c), "cloudcode"@, "timeout_secs"@, decimal(c.cloudcode.timeout_secs as nat)),
        said(fields_of(c), "cloudcode"@, "max_retries"@, decimal(c.cloudcode.max_retries as nat)),
        said(fields_of(c), "cloudcode"@, "max_concurrent_requests"@, decimal(c.cloudcode.max_concurrent_requests as nat)),
        said(fields_of(c), "cloudcode"@, "min_request_interval_ms"@, decimal(c.cloudcode.min_request_interval_ms as nat)),
        fields_of(c).len() == 15,
{
    assert(fields_of(c)[0].key == "port"@);
    assert(fields_of(c)[1].key == "host"@);
    assert(fields_of(c)[2].key == "request_timeout_secs"@);
    assert(fields_of(c)[3].key == "debug"@);
    assert(fields_of(c)[4].key == "log_requests"@);
    assert(fields_of(c)[5].key == "strategy"@);
    assert(fields_of(c)[6].key == "quota_threshold"@);
    assert(fields_of(c)[7].key == "fallback"@);
    assert(fields_of(c)[8].key == "enabled"@);
    assert(fields_of(c)[9].key == "ttl_seconds"@);
    assert(fields_of(c)[10].key == "max_entries"@);
    assert(fields_of(c)[11].key == "timeout_secs"@);
    assert(fields_of(c)[12].key == "max_retries"@);
    assert(fields_of(c)[13].key == "max_concurrent_requests"@);
    assert(fields_of(c)[14].key == "min_request_interval_ms"@);
}

/// A value is taken exactly where it is one: a port from 1 to 65535, a count that is a number, a
/// truth value that is one of the two, a choice that is offered, and a fraction in its range.
pub proof fn values_are_taken_where_they_are_valid(f: FieldView, float: FloatCheck)
    ensures
        f.kind is Text && f.key == "port"@ ==> (field_fault(f, float) is None <==> (number(
            f.value,
            65535,
        ) matches Some(n) && n >= 1)),
        f.kind is Text && (f.key == "ttl_seconds"@ || f.key == "max_retries"@ || f.key
            == "max_entries"@ || f.key == "timeout_secs"@ || f.key == "request_timeout_secs"@
            || f.key == "min_request_interval_ms"@ || f.key == "max_concurrent_requests"@) ==> (
        field_fault(f, float) is None <==> number(f.value, u64::MAX as nat) is Some),
        f.kind is Text && f.key == "host"@ ==> field_fault(f, float) is None,
        f.kind is Bool ==> (field_fault(f, float) is None <==> f.value == "true"@ || f.value
            == "false"@),
        f.kind is Enum ==> (field_fault(f, float) is None <==> f.kind->Enum_0.contains(f.value)),
        f.kind is Float ==> (field_fault(f, float) is None <==> float == FloatCheck::InRange),
{
    reveal_strlit("port");
    reveal_strlit("host");
    reveal_strlit("ttl_seconds");
    reveal_strlit("max_retries");
    reveal_strlit("max_entries");
    reveal_strlit("timeout_secs");
    reveal_strlit("request_timeout_secs");
    reveal_strlit("min_request_interval_ms");
    reveal_strlit("max_concurrent_requests");
    assert("ttl_seconds"@.len() != 4);
    assert("max_retries"@.len() != 4);
    assert("max_entries"@.len() != 4);
    assert("timeout_secs"@.len() != 4);
    assert("request_timeout_secs"@.len() != 4);
    assert("min_request_interval_ms"@.len() != 4);
    assert("max_concurrent_requests"@.len() != 4);
    assert("host"@[0] != "port"@[0]);
}

/// One step on through a list goes to the next value, behind the last to the first, one step
/// back the other way; a value that is not in the list stays.
pub proof fn cycling_goes_to_the_next(list: Seq<Seq<char>>, i: int, other: Seq<char>)
    requires
        list.no_duplicates(),
        0 <= i < list.len(),
        !list.contains(other),
    ensures
        cycled(list, list[i], true) == (if i + 1 < list.len() {
            list[i + 1]
        } else {
            list[0]
        }),
        cycled(list, list[i], false) == (if i > 0 {
            list[i - 1]
        } else {
            list[list.len() - 1]
        }),
        cycled(list, other, true) == other,
{
    place_in_is_first(list, list[i], 0);
    place_in_is_first(list, other, 0);
    let k = place_in(list, list[i], 0)->0;
    assert(k == i);
    let n = list.len() as int;
    if i + 1 < n {
        vstd::arithmetic::div_mod::lemma_small_mod((i + 1) as nat, n as nat);
    } else {
        vstd::arithmetic::div_mod::lemma_mod_self_0(n);
    }
    if i > 0 {
        vstd::arithmetic::div_mod::lemma_mod_add_multiples_vanish(i - 1, n);
        vstd::arithmetic::div_mod::lemma_small_mod((i - 1) as nat, n as nat);
        assert((n + (i - 1)) % n == i - 1);
    } else {
        vstd::arithmetic::div_mod::lemma_small_mod((n - 1) as nat, n as nat);
    }
}

} // verus!
