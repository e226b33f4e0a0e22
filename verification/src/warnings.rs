//! What is said about the program's state when the dashboard starts.

use vstd::prelude::*;

use crate::app::AccountInfo;
use crate::panels::{able, able_accounts};
use crate::spans::{
    bold, bold_tone, line_view, lines_view, no_spans, one_span, piece, plain, put, put_line,
    put_str, tone, Hue, Span, SpanView,
};
use crate::tabs::{centered, popup_area, Area};
use crate::text::{byte_len, decimal, decimal_text, len_bytes};

verus! {

/// How grave a warning is.
#[derive(Debug, Clone, Copy, PartialEq, Eq, Structural)]
pub enum WarningLevel {
    /// May keep the program from working.
    Error,
    /// Should be seen to.
    Warning,
    /// Good to know.
    Info,
}

/// How a level looks.
pub open spec fn level_hue(level: WarningLevel) -> Hue {
    match level {
        WarningLevel::Error => Hue::Error,
        WarningLevel::Warning => Hue::Warning,
        WarningLevel::Info => Hue::Secondary,
    }
}

/// The sign of a level.
pub open spec fn level_icon(level: WarningLevel) -> Seq<char> {
    match level {
        WarningLevel::Error => "\u{2717}"@,
        WarningLevel::Warning => "!"@,
        WarningLevel::Info => "i"@,
    }
}

/// How grave a level is, as a number.
pub open spec fn gravity(level: WarningLevel) -> int {
    match level {
        WarningLevel::Error => 2,
        WarningLevel::Warning => 1,
        WarningLevel::Info => 0,
    }
}

impl WarningLevel {
    /// How the level looks.
    pub fn style(&self) -> (r: Hue)
        ensures
            r == level_hue(*self),
    {
        match self {
            WarningLevel::Error => Hue::Error,
            WarningLevel::Warning => Hue::Warning,
            WarningLevel::Info => Hue::Secondary,
        }
    }

    /// The sign of the level.
    pub fn icon(&self) -> (r: &'static str)
        ensures
            r@ == level_icon(*self),
    {
        match self {
            WarningLevel::Error => "\u{2717}",
            WarningLevel::Warning => "!",
            WarningLevel::Info => "i",
        }
    }

    /// How grave the level is, as a number.
    fn weight(&self) -> (r: u8)
        ensures
            r == gravity(*self),
    {
        match self {
            WarningLevel::Error => 2,
            WarningLevel::Warning => 1,
            WarningLevel::Info => 0,
        }
    }
}

/// A warning: what it is about, and what is wrong.
#[derive(Debug, Clone, PartialEq)]
pub struct StartupWarning {
    pub level: WarningLevel,
    pub title: String,
    pub message: String,
}

/// What a warning says.
#[verifier::ext_equal]
pub struct WarningView {
    pub level: WarningLevel,
    pub title: Seq<char>,
    pub message: Seq<char>,
}

impl StartupWarning {
    /// What this warning says.
    pub open spec fn view(&self) -> WarningView {
        WarningView { level: self.level, title: self.title@, message: self.message@ }
    }

    /// Something that may keep the program from working.
    pub fn error(title: &str, message: &str) -> (r: StartupWarning)
        ensures
            r@ == (WarningView { level: WarningLevel::Error, title: title@, message: message@ }),
    {
        StartupWarning {
            level: WarningLevel::Error,
            title: title.to_owned(),
            message: message.to_owned(),
        }
    }

    /// Something that should be seen to.
    pub fn warning(title: &str, message: &str) -> (r: StartupWarning)
        ensures
            r@ == (WarningView { level: WarningLevel::Warning, title: title@, message: message@ }),
    {
        StartupWarning {
            level: WarningLevel::Warning,
            title: title.to_owned(),
            message: message.to_owned(),
        }
    }

    /// Something that is good to know.
    pub fn info(title: &str, message: &str) -> (r: StartupWarning)
        ensures
            r@ == (WarningView { level: WarningLevel::Info, title: title@, message: message@ }),
    {
        StartupWarning {
            level: WarningLevel::Info,
            title: title.to_owned(),
            message: message.to_owned(),
        }
    }
}

/// What the warnings of a list say.
pub open spec fn warning_views(w: Seq<StartupWarning>) -> Seq<WarningView> {
    Seq::new(w.len(), |i: int| w[i]@)
}

/// Adds a warning.
fn add_warning(w: &mut Vec<StartupWarning>, one: StartupWarning)
    ensures
        warning_views(final(w)@) == warning_views(old(w)@) + seq![one@],
{
    let ghost before = warning_views(w@);
    let ghost said = one@;
    w.push(one);
    assert(warning_views(w@) =~= before + seq![said]);
}

/// What is wrong with the settings.
pub open spec fn config_warnings(config: Result<(), String>) -> Seq<WarningView> {
    match config {
        Ok(_) => Seq::empty(),
        Err(e) => seq![
            WarningView { level: WarningLevel::Error, title: "Config Error"@, message: e@ },
        ],
    }
}

/// What is wrong with the server: that none listens. It is not asked for where the settings
/// that say where are wrong.
pub open spec fn daemon_warnings(config_ok: bool, addr: Seq<char>, reachable: bool) -> Seq<
    WarningView,
> {
    if config_ok && !reachable {
        seq![
            WarningView {
                level: WarningLevel::Warning,
                title: "Daemon Not Running"@,
                message: "No daemon listening on "@ + addr,
            },
        ]
    } else {
        Seq::empty()
    }
}

/// How many of the accounts are invalid.
pub open spec fn invalid(a: Seq<AccountInfo>) -> nat
    decreases a.len(),
{
    if a.len() == 0 {
        0
    } else {
        invalid(a.drop_last()) + (if a.last().is_invalid {
            1nat
        } else {
            0
        })
    }
}

/// How many of the accounts are invalid.
fn count_invalid(accounts: &Vec<AccountInfo>) -> (r: usize)
    ensures
        r == invalid(accounts@),
{
    let mut r: usize = 0;
    let mut i: usize = 0;
    assert(accounts@.take(0) =~= Seq::empty());
    while i < accounts.len()
        invariant
            i <= accounts@.len(),
            r <= i,
            r == invalid(accounts@.take(i as int)),
        decreases accounts@.len() - i,
    {
        assert(accounts@.take(i + 1).drop_last() =~= accounts@.take(i as int));
        if accounts[i].is_invalid {
            r = r + 1;
        }
        i = i + 1;
    }
    assert(accounts@.take(accounts@.len() as int) =~= accounts@);
    r
}

/// What is wrong with the accounts: there are none, none can serve, or some are invalid.
pub open spec fn account_warnings(accounts: Result<Vec<AccountInfo>, String>) -> Seq<WarningView> {
    match accounts {
        Ok(a) => if a@.len() == 0 {
            seq![
                WarningView {
                    level: WarningLevel::Warning,
                    title: "No Accounts"@,
                    message: "Run 'agcp login' to add an account"@,
                },
            ]
        } else {
            (if able(a@) == 0 {
                seq![
                    WarningView {
                        level: WarningLevel::Warning,
                        title: "No Valid Accounts"@,
                        message: "All accounts are disabled or invalid"@,
                    },
                ]
            } else {
                Seq::empty()
            }) + (if invalid(a@) > 0 {
                seq![
                    WarningView {
                        level: WarningLevel::Info,
                        title: "Invalid Accounts"@,
                        message: decimal(invalid(a@)) + " account(s) need re-authentication"@,
                    },
                ]
            } else {
                Seq::empty()
            })
        },
        Err(e) => seq![
            WarningView { level: WarningLevel::Error, title: "Account Store Error"@, message: e@ },
        ],
    }
}

/// What is wrong with the accounts.
fn check_accounts(warnings: &mut Vec<StartupWarning>, accounts: &Result<Vec<AccountInfo>, String>)
    ensures
        warning_views(final(warnings)@) == warning_views(old(warnings)@) + account_warnings(
            *accounts,
        ),
{
    let ghost before = warning_views(warnings@);
    match accounts {
        Ok(a) => {
            if a.len() == 0 {
                add_warning(
                    warnings,
                    StartupWarning::warning("No Accounts", "Run 'agcp login' to add an account"),
                );
            } else {
                if able_accounts(a) == 0 {
                    add_warning(
                        warnings,
                        StartupWarning::warning(
                            "No Valid Accounts",
                            "All accounts are disabled or invalid",
                        ),
                    );
                }
                let n = count_invalid(a);
                if n > 0 {
                    let mut m = decimal_text(n as u64);
                    m.push_str(" account(s) need re-authentication");
                    add_warning(warnings, StartupWarning::info("Invalid Accounts", &m));
                }
            }
        },
        Err(e) => add_warning(warnings, StartupWarning::error("Account Store Error", e)),
    }
    assert(warning_views(warnings@) =~= before + account_warnings(*accounts));
}

/// What is wrong with the log file: that there is none.
pub open spec fn log_warnings(path: Seq<char>, found: bool) -> Seq<WarningView> {
    if found {
        Seq::empty()
    } else {
        seq![
            WarningView {
                level: WarningLevel::Info,
                title: "Log File Not Found"@,
                message: path,
            },
        ]
    }
}

/// What is found when the dashboard starts.
pub struct StartupState {
    /// Whether the settings could be read.
    pub config: Result<(), String>,
    /// Where the server is to listen, and whether one does.
    pub daemon_addr: String,
    pub daemon_reachable: bool,
    pub accounts: Result<Vec<AccountInfo>, String>,
    pub log_path: String,
    pub log_exists: bool,
}

/// What is said of what is found when the dashboard starts.
pub open spec fn warnings_of(s: StartupState) -> Seq<WarningView> {
    config_warnings(s.config) + daemon_warnings(s.config is Ok, s.daemon_addr@, s.daemon_reachable)
        + account_warnings(s.accounts) + log_warnings(s.log_path@, s.log_exists)
}

/// What is said of what is found when the dashboard starts.
pub fn collect_startup_warnings(s: &StartupState) -> (r: Vec<StartupWarning>)
    ensures
        warning_views(r@) == warnings_of(*s),
{
    let mut r: Vec<StartupWarning> = Vec::new();
    match &s.config {
        Ok(_) => {
            if !s.daemon_reachable {
                let mut m = "No daemon listening on ".to_owned();
                m.push_str(&s.daemon_addr);
                add_warning(&mut r, StartupWarning::warning("Daemon Not Running", &m));
            }
        },
        Err(e) => add_warning(&mut r, StartupWarning::error("Config Error", e)),
    }
    assert(warning_views(r@) =~= config_warnings(s.config) + daemon_warnings(
        s.config is Ok,
        s.daemon_addr@,
        s.daemon_reachable,
    ));
    check_accounts(&mut r, &s.accounts);
    if !s.log_exists {
        add_warning(&mut r, StartupWarning::info("Log File Not Found", &s.log_path));
    }
    assert(warning_views(r@) =~= warnings_of(*s));
    r
}

/// Whether `level` is the gravest of the warnings; the least grave where there are none.
pub open spec fn is_gravest(w: Seq<StartupWarning>, level: WarningLevel) -> bool {
    &&& forall|i: int| 0 <= i < w.len() ==> gravity(#[trigger] w[i].level) <= gravity(level)
    &&& level == WarningLevel::Info || exists|i: int| 0 <= i < w.len() && #[trigger] w[i].level
        == level
}

/// The gravest level of the warnings.
pub fn max_severity(warnings: &Vec<StartupWarning>) -> (r: WarningLevel)
    ensures
        is_gravest(warnings@, r),
{
    let mut r = WarningLevel::Info;
    let mut i: usize = 0;
    while i < warnings.len()
        invariant
            i <= warnings@.len(),
            forall|k: int|
                0 <= k < i ==> gravity(#[trigger] warnings@[k].level) <= gravity(r),
            r == WarningLevel::Info || exists|k: int|
                0 <= k < i && #[trigger] warnings@[k].level == r,
        decreases warnings@.len() - i,
    {
        let level = warnings[i].level;
        if level.weight() >= r.weight() {
            r = level;
        }
        i = i + 1;
        if level == r {
            assert(warnings@[i - 1].level == r);
        }
    }
    r
}

/// Only one level is the gravest.
pub proof fn the_gravest_is_one(w: Seq<StartupWarning>, a: WarningLevel, b: WarningLevel)
    requires
        is_gravest(w, a),
        is_gravest(w, b),
    ensures
        a == b,
{
    if a != WarningLevel::Info {
        let i = choose|i: int| 0 <= i < w.len() && #[trigger] w[i].level == a;
        assert(gravity(w[i].level) <= gravity(b));
    }
    if b != WarningLevel::Info {
        let i = choose|i: int| 0 <= i < w.len() && #[trigger] w[i].level == b;
        assert(gravity(w[i].level) <= gravity(a));
    }
}

/// The title of the popup with the warnings.
pub fn popup_title(level: WarningLevel) -> (r: &'static str)
    ensures
        r@ == (match level {
            WarningLevel::Error => " Startup Errors "@,
            WarningLevel::Warning => " Startup Issues "@,
            WarningLevel::Info => " Startup Info "@,
        }),
{
    match level {
        WarningLevel::Error => " Startup Errors ",
        WarningLevel::Warning => " Startup Issues ",
        WarningLevel::Info => " Startup Info ",
    }
}

/// The longest title and the longest message, in bytes.
pub open spec fn longest_parts(w: Seq<StartupWarning>) -> (nat, nat)
    decreases w.len(),
{
    if w.len() == 0 {
        (0, 0)
    } else {
        let (t, m) = longest_parts(w.drop_last());
        let a = byte_len(w.last().title@);
        let b = byte_len(w.last().message@);
        (
            if a > t {
                a
            } else {
                t
            },
            if b > m {
                b
            } else {
                m
            },
        )
    }
}

/// The longest title and the longest message, in bytes.
fn find_longest(w: &Vec<StartupWarning>) -> (r: (usize, usize))
    ensures
        (r.0 as nat, r.1 as nat) == longest_parts(w@),
{
    let mut t: usize = 0;
    let mut m: usize = 0;
    let mut i: usize = 0;
    assert(w@.take(0) =~= Seq::empty());
    while i < w.len()
        invariant
            i <= w@.len(),
            (t as nat, m as nat) == longest_parts(w@.take(i as int)),
        decreases w@.len() - i,
    {
        assert(w@.take(i + 1).drop_last() =~= w@.take(i as int));
        let a = len_bytes(&w[i].title);
        let b = len_bytes(&w[i].message);
        if a > t {
            t = a;
        }
        if b > m {
            m = b;
        }
        i = i + 1;
    }
    assert(w@.take(w@.len() as int) =~= w@);
    (t, m)
}

/// How wide the popup with the warnings would be.
pub open spec fn popup_width(w: Seq<StartupWarning>) -> int {
    let (t, m) = longest_parts(w);
    let n = t + m + 6;
    (if n > 40 {
        n as int
    } else {
        40
    }) + 4
}

/// How high the popup with the warnings would be.
pub open spec fn popup_height(w: Seq<StartupWarning>) -> int {
    (w.len() * 2 + 5) as int
}

/// Where the popup with the warnings is: in the middle, as large as what it says, as far as
/// there is room.
pub fn warnings_area(area: Area, warnings: &Vec<StartupWarning>) -> (r: Area)
    requires
        area.fits(),
        popup_width(warnings@) <= u16::MAX,
        popup_height(warnings@) <= u16::MAX,
    ensures
        r == centered(
            area,
            popup_width(warnings@) as u16,
            popup_height(warnings@) as u16,
        ),
{
    let (t, m) = find_longest(warnings);
    let n: usize = t + m + 6;
    let width: u16 = (if n > 40 {
        n as u16
    } else {
        40
    }) + 4;
    let height: u16 = (warnings.len() * 2 + 5) as u16;
    popup_area(area, width, height)
}

/// The two lines of a warning.
pub open spec fn warning_lines(w: WarningView) -> Seq<Seq<SpanView>> {
    seq![
        seq![
            piece(" "@ + level_icon(w.level) + " "@, bold(level_hue(w.level))),
            piece(w.title, bold(level_hue(w.level))),
        ],
        seq![piece("   "@ + w.message, plain(Hue::Dim))],
    ]
}

/// The lines of the first `n` warnings.
pub open spec fn first_lines(w: Seq<StartupWarning>, n: int) -> Seq<Seq<SpanView>>
    decreases n,
{
    if n <= 0 {
        Seq::empty()
    } else {
        first_lines(w, n - 1) + warning_lines(w[n - 1]@)
    }
}

/// The lines of the popup with the warnings.
pub open spec fn popup_lines(w: Seq<StartupWarning>) -> Seq<Seq<SpanView>> {
    first_lines(w, w.len() as int) + seq![
        Seq::empty(),
        seq![piece("Press Enter or Esc to dismiss"@, plain(Hue::Dim))],
    ]
}

/// The title of a warning, with its sign.
fn title_line(w: &StartupWarning) -> (r: Vec<Span>)
    ensures
        line_view(r@) == warning_lines(w@)[0],
{
    let hue = w.level.style();
    let mut icon = " ".to_owned();
    icon.push_str(w.level.icon());
    icon.push_str(" ");
    let mut r = no_spans();
    put(&mut r, icon, bold_tone(hue));
    put_str(&mut r, &w.title, bold_tone(hue));
    assert(line_view(r@) =~= warning_lines(w@)[0]);
    r
}

/// The lines of the popup with the warnings.
pub fn warnings_text(warnings: &Vec<StartupWarning>) -> (r: Vec<Vec<Span>>)
    ensures
        lines_view(r@) == popup_lines(warnings@),
{
    let mut r: Vec<Vec<Span>> = Vec::new();
    let mut i: usize = 0;
    assert(lines_view(r@) =~= first_lines(warnings@, 0));
    while i < warnings.len()
        invariant
            i <= warnings@.len(),
            lines_view(r@) == first_lines(warnings@, i as int),
        decreases warnings@.len() - i,
    {
        let ghost before = lines_view(r@);
        let w = &warnings[i];
        put_line(&mut r, title_line(w));
        let mut m = "   ".to_owned();
        m.push_str(&w.message);
        put_line(&mut r, one_span(m, tone(Hue::Dim)));
        assert(lines_view(r@) =~= before + warning_lines(w@));
        i = i + 1;
    }
    let ghost before = lines_view(r@);
    put_line(&mut r, no_spans());
    put_line(&mut r, one_span("Press Enter or Esc to dismiss".to_owned(), tone(Hue::Dim)));
    assert(lines_view(r@) =~= popup_lines(warnings@));
    r
}

/// Whatever is wrong at the start is warned of, in its own words, and nothing else is: settings
/// that cannot be read, a server that does not listen, accounts that cannot be read, are
/// missing or cannot serve, and a log that is missing.
pub proof fn faults_are_warned_of(s: StartupState)
    ensures
        s.config matches Err(e) ==> (exists|i: int|
            0 <= i < warnings_of(s).len() && (#[trigger] warnings_of(s)[i]).message == e@
                && warnings_of(s)[i].level == WarningLevel::Error),
        s.config is Ok && !s.daemon_reachable ==> (exists|i: int|
            0 <= i < warnings_of(s).len() && crate::text::ends(
                (#[trigger] warnings_of(s)[i]).message,
                s.daemon_addr@,
            ) && warnings_of(s)[i].title == "Daemon Not Running"@),
        s.accounts matches Err(e) ==> (exists|i: int|
            0 <= i < warnings_of(s).len() && (#[trigger] warnings_of(s)[i]).message == e@
                && warnings_of(s)[i].level == WarningLevel::Error),
        s.accounts matches Ok(a) ==> a@.len() == 0 ==> (exists|i: int|
            0 <= i < warnings_of(s).len() && (#[trigger] warnings_of(s)[i]).title
                == "No Accounts"@),
        s.accounts matches Ok(a) ==> a@.len() > 0 && able(a@) == 0 ==> (exists|i: int|
            0 <= i < warnings_of(s).len() && (#[trigger] warnings_of(s)[i]).title
                == "No Valid Accounts"@),
        s.accounts matches Ok(a) ==> invalid(a@) > 0 ==> (exists|i: int|
            0 <= i < warnings_of(s).len() && crate::text::starts(
                (#[trigger] warnings_of(s)[i]).message,
                decimal(invalid(a@)),
            ) && warnings_of(s)[i].title == "Invalid Accounts"@),
        !s.log_exists ==> (exists|i: int|
            0 <= i < warnings_of(s).len() && (#[trigger] warnings_of(s)[i]).message == s.log_path@),
        s.config is Ok && s.daemon_reachable && s.log_exists && (s.accounts matches Ok(a) && a@.len()
            > 0 && able(a@) > 0 && invalid(a@) == 0) ==> warnings_of(s).len() == 0,
{
    let a = config_warnings(s.config);
    let b = daemon_warnings(s.config is Ok, s.daemon_addr@, s.daemon_reachable);
    let c = account_warnings(s.accounts);
    let d = log_warnings(s.log_path@, s.log_exists);
    let all = warnings_of(s);
    assert(all == a + b + c + d);
    let n = (a.len() + b.len()) as int;
    let m = n + c.len();
    if s.config is Err {
        assert(all[0] == a[0]);
    }
    if s.config is Ok && !s.daemon_reachable {
        assert(all[0] == b[0]);
        let t = b[0].message;
        assert(t.subrange(t.len() - s.daemon_addr@.len(), t.len() as int) =~= s.daemon_addr@);
    }
    if c.len() > 0 {
        assert(all[n] == c[0]);
    }
    if c.len() > 1 {
        assert(all[n + 1] == c[1]);
    }
    if s.accounts is Ok {
        let l = s.accounts->Ok_0@;
        if l.len() == 0 {
            assert(invalid(l) == 0);
        } else if invalid(l) > 0 {
            let k = c.len() - 1;
            let t = c[k].message;
            let p = decimal(invalid(l));
            assert(t.subrange(0, p.len() as int) =~= p);
            assert(all[n + k] == c[k]);
        }
    }
    if !s.log_exists {
        assert(all[m] == d[0]);
    }
}

/// Invalid accounts are counted one by one.
pub proof fn invalid_accounts_are_counted(a: Seq<AccountInfo>, b: Seq<AccountInfo>, x: AccountInfo)
    ensures
        invalid(a + b) == invalid(a) + invalid(b),
        invalid(seq![x]) == (if x.is_invalid {
            1nat
        } else {
            0
        }),
    decreases b.len(),
{
    let none = seq![x].drop_last();
    assert(none.len() == 0);
    assert(invalid(none) == 0);
    assert(seq![x].last() == x);
    if b.len() == 0 {
        assert(a + b =~= a);
    } else {
        assert((a + b).drop_last() =~= a + b.drop_last());
        invalid_accounts_are_counted(a, b.drop_last(), x);
    }
}

/// The popup shows every warning, in order: its title on one line, its message on the next.
pub proof fn the_popup_shows_every_warning(w: Seq<StartupWarning>, i: int)
    requires
        0 <= i < w.len(),
    ensures
        popup_lines(w).len() == 2 * w.len() + 2,
        popup_lines(w)[2 * i].len() == 2 && popup_lines(w)[2 * i][1].text == w[i].title@,
        popup_lines(w)[2 * i + 1].len() == 1 && crate::text::ends(
            popup_lines(w)[2 * i + 1][0].text,
            w[i].message@,
        ),
{
    lemma_first_lines(w, w.len() as int, i);
    let t = "   "@ + w[i].message@;
    assert(t.subrange(t.len() - w[i].message@.len(), t.len() as int) =~= w[i].message@);
    assert(popup_lines(w)[2 * i] == first_lines(w, w.len() as int)[2 * i]);
    assert(popup_lines(w)[2 * i + 1] == first_lines(w, w.len() as int)[2 * i + 1]);
}

proof fn lemma_first_lines(w: Seq<StartupWarning>, n: int, i: int)
    requires
        0 <= n <= w.len(),
    ensures
        first_lines(w, n).len() == 2 * n,
        0 <= i < n ==> first_lines(w, n)[2 * i] == warning_lines(w[i]@)[0] && first_lines(w, n)[2 * i
            + 1] == warning_lines(w[i]@)[1],
    decreases n,
{
    if n > 0 {
        lemma_first_lines(w, n - 1, i);
    }
}

/// The gravest warning gives the popup its colour: an error before a warning before a note.
pub proof fn errors_are_graver_than_warnings()
    ensures
        gravity(WarningLevel::Error) > gravity(WarningLevel::Warning),
        gravity(WarningLevel::Warning) > gravity(WarningLevel::Info),
        level_hue(WarningLevel::Error) == Hue::Error,
        level_hue(WarningLevel::Warning) == Hue::Warning,
{
}

/// Every warning has room in the popup.
pub proof fn the_popup_is_wide_enough(w: Seq<StartupWarning>, i: int)
    requires
        0 <= i < w.len(),
    ensures
        byte_len(w[i].title@) + byte_len(w[i].message@) + 10 <= popup_width(w),
        popup_height(w) >= 2 * w.len(),
{
    lemma_longest_parts(w, i);
}

proof fn lemma_longest_parts(w: Seq<StartupWarning>, i: int)
    requires
        0 <= i < w.len(),
    ensures
        byte_len(w[i].title@) <= longest_parts(w).0,
        byte_len(w[i].message@) <= longest_parts(w).1,
    decreases w.len(),
{
    if i < w.len() - 1 {
        lemma_longest_parts(w.drop_last(), i);
    }
}

} // verus!
