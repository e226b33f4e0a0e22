//! The texts of the dashboard's panels.

use vstd::prelude::*;

use crate::audio::{push_two_digits, three_digits};
use crate::logs::ServerStatus;
use crate::log_pane::minus;
use crate::spans::{
    line_view, lines_view, no_spans, piece, plain, put, put_line, put_str, run, run_of, tone, Hue,
    Span, SpanView,
};
use crate::text::{
    after, byte_len, chars_at, chars_of, decimal, decimal_text, head_bytes, head_is_whole, head_of,
    len_bytes, occurs_at, starts, strip_prefix, text_between,
};

verus! {

/// A number with a comma before every three digits.
pub open spec fn with_commas(n: nat) -> Seq<char>
    decreases n,
{
    if n < 1000 {
        decimal(n)
    } else {
        with_commas(n / 1000) + ","@ + three_digits(n % 1000)
    }
}

/// Adds a number of up to three digits, with leading zeros up to three.
fn push_three_digits(s: &mut String, n: u64)
    requires
        n < 1000,
    ensures
        final(s)@ == old(s)@ + three_digits(n as nat),
{
    let ghost before = s@;
    if n < 100 {
        s.push_str("0");
        push_two_digits(s, n);
    } else {
        let d = decimal_text(n);
        s.push_str(&d);
    }
    assert(s@ =~= before + three_digits(n as nat));
}

/// A number with a comma before every three digits.
pub fn format_number(n: u64) -> (r: String)
    ensures
        r@ == with_commas(n as nat),
    decreases n,
{
    if n < 1000 {
        decimal_text(n)
    } else {
        let mut r = format_number(n / 1000);
        r.push_str(",");
        push_three_digits(&mut r, n % 1000);
        r
    }
}

/// A text without its commas.
pub open spec fn without_commas(s: Seq<char>) -> Seq<char> {
    s.filter(|c: char| c != ',')
}

proof fn lemma_kept(s: Seq<char>)
    requires
        crate::text::all_digits(s),
    ensures
        without_commas(s) == s,
    decreases s.len(),
{
    reveal(Seq::filter);
    if s.len() > 0 {
        assert(crate::text::is_digit(s[s.len() - 1]));
        lemma_kept(s.drop_last());
        assert(s.drop_last().push(s.last()) =~= s);
    } else {
        assert(s =~= Seq::empty());
    }
}

proof fn lemma_three_digits(m: nat)
    requires
        m < 1000,
    ensures
        three_digits(m) == seq![
            crate::text::digit(m / 100),
            crate::text::digit((m / 10) % 10),
            crate::text::digit(m % 10),
        ],
{
    reveal_strlit("0");
    reveal_with_fuel(decimal, 4);
    assert(three_digits(m) =~= seq![
        crate::text::digit(m / 100),
        crate::text::digit((m / 10) % 10),
        crate::text::digit(m % 10),
    ]);
}

proof fn lemma_last_three(n: nat)
    requires
        n >= 1000,
    ensures
        decimal(n) == decimal(n / 1000) + three_digits(n % 1000),
{
    lemma_three_digits(n % 1000);
    let a = n / 10;
    let b = a / 10;
    let c = b / 10;
    assert(c == n / 1000);
    assert(b % 10 == (n % 1000) / 100);
    assert(a % 10 == ((n % 1000) / 10) % 10);
    assert(n % 10 == (n % 1000) % 10);
    assert(decimal(b) == decimal(c).push(crate::text::digit(b % 10)));
    assert(decimal(a) == decimal(b).push(crate::text::digit(a % 10)));
    assert(decimal(n) == decimal(a).push(crate::text::digit(n % 10)));
    assert(decimal(n) =~= decimal(n / 1000) + three_digits(n % 1000));
}

/// The commas group the digits of a number and change nothing else: without them the number
/// is written as ever.
pub proof fn commas_only_group(n: nat)
    ensures
        without_commas(with_commas(n)) == decimal(n),
    decreases n,
{
    crate::text::decimal_is_read_back(n);
    if n < 1000 {
        lemma_kept(decimal(n));
    } else {
        let head = with_commas(n / 1000);
        let tail = three_digits(n % 1000);
        let comma = ","@;
        commas_only_group(n / 1000);
        lemma_last_three(n);
        lemma_three_digits(n % 1000);
        assert(crate::text::all_digits(tail)) by {
            assert forall|i: int| 0 <= i < tail.len() implies crate::text::is_digit(
                #[trigger] tail[i],
            ) by {
                assert(i == 0 || i == 1 || i == 2);
            }
        }
        lemma_kept(tail);
        reveal_strlit(",");
        assert(without_commas(comma) =~= Seq::empty()) by {
            reveal(Seq::filter);
            reveal_with_fuel(Seq::filter, 2);
            assert(comma.drop_last() =~= Seq::empty());
        }
        let keep = |c: char| c != ',';
        Seq::filter_distributes_over_add(head + comma, tail, keep);
        Seq::filter_distributes_over_add(head, comma, keep);
        assert(decimal(n / 1000) + Seq::empty() =~= decimal(n / 1000));
    }
}

/// How long something took: milliseconds below a second, minutes and seconds from a minute
/// on. In between it is seconds with a tenth, which are handed in.
pub fn format_duration(ms: u64, seconds: &str) -> (r: String)
    ensures
        r@ == (if ms < 1000 {
            decimal(ms as nat) + "ms"@
        } else if ms < 60_000 {
            seconds@ + "s"@
        } else {
            decimal((ms / 60_000) as nat) + "m"@ + decimal(((ms / 1000) % 60) as nat) + "s"@
        }),
{
    if ms < 1000 {
        let mut r = decimal_text(ms);
        r.push_str("ms");
        r
    } else if ms < 60_000 {
        let mut r = seconds.to_owned();
        r.push_str("s");
        r
    } else {
        let secs: u64 = ms / 1000;
        assert(secs / 60 == ms / 60_000);
        let mut r = decimal_text(secs / 60);
        r.push_str("m");
        let s = decimal_text(secs % 60);
        r.push_str(&s);
        r.push_str("s");
        r
    }
}

/// A count of tokens: in millions or thousands where it is large, with a tenth that is handed
/// in; with a comma where it has four digits.
pub fn format_tokens(count: u64, scaled: &str) -> (r: String)
    ensures
        r@ == (if count >= 1_000_000 {
            scaled@ + "M"@
        } else if count >= 10_000 {
            scaled@ + "K"@
        } else {
            with_commas(count as nat)
        }),
{
    if count >= 1_000_000 {
        let mut r = scaled.to_owned();
        r.push_str("M");
        r
    } else if count >= 10_000 {
        let mut r = scaled.to_owned();
        r.push_str("K");
        r
    } else {
        format_number(count)
    }
}

/// A count of tokens beside an axis: in whole millions or thousands, which are handed in.
pub fn format_tokens_short(count: u64, scaled: &str) -> (r: String)
    ensures
        r@ == (if count >= 1_000_000 {
            scaled@ + "M"@
        } else if count >= 1000 {
            scaled@ + "K"@
        } else {
            decimal(count as nat)
        }),
{
    if count >= 1_000_000 {
        let mut r = scaled.to_owned();
        r.push_str("M");
        r
    } else if count >= 1000 {
        let mut r = scaled.to_owned();
        r.push_str("K");
        r
    } else {
        decimal_text(count)
    }
}

/// A text from `i` on with every `p` in it replaced by `r`, from left to right.
pub open spec fn replaced_from(s: Seq<char>, p: Seq<char>, r: Seq<char>, i: int) -> Seq<char>
    decreases s.len() - i,
{
    if i < 0 || i >= s.len() {
        Seq::empty()
    } else if p.len() > 0 && occurs_at(s, p, i) {
        r + replaced_from(s, p, r, i + p.len())
    } else {
        seq![s[i]] + replaced_from(s, p, r, i + 1)
    }
}

/// A text with every `p` in it replaced by `r`.
pub fn replace(s: &str, p: &str, r: &str) -> (t: String)
    requires
        p@.len() > 0,
    ensures
        t@ == replaced_from(s@, p@, r@, 0),
{
    let v = chars_of(s);
    let q = chars_of(p);
    let n: usize = v.len();
    let mut t = String::new();
    let mut i: usize = 0;
    assert(t@ + replaced_from(s@, p@, r@, 0) =~= replaced_from(s@, p@, r@, 0));
    while i < n
        invariant
            i <= n == v@.len(),
            v@ == s@,
            q@ == p@,
            p@.len() > 0,
            t@ + replaced_from(s@, p@, r@, i as int) == replaced_from(s@, p@, r@, 0),
        decreases n - i,
    {
        let ghost before = t@;
        if chars_at(&v, &q, i) {
            t.push_str(r);
            assert(t@ + replaced_from(s@, p@, r@, i + p@.len()) =~= before + replaced_from(
                s@,
                p@,
                r@,
                i as int,
            ));
            i = i + q.len();
        } else {
            t.push(v[i]);
            assert(t@ + replaced_from(s@, p@, r@, i + 1) =~= before + replaced_from(
                s@,
                p@,
                r@,
                i as int,
            ));
            i = i + 1;
        }
    }
    assert(t@ + replaced_from(s@, p@, r@, i as int) =~= t@);
    t
}

/// The last place at or before `i` at which `p` stands in `s`.
pub open spec fn last_at(s: Seq<char>, p: Seq<char>, i: int) -> Option<int>
    decreases i + 1,
{
    if i < 0 {
        None
    } else if occurs_at(s, p, i) {
        Some(i)
    } else {
        last_at(s, p, i - 1)
    }
}

/// A model's name for a legend: without the name of Anthropic's family, with that of Gemini
/// cut short, and without the date behind it.
pub open spec fn short_name(name: Seq<char>, anthropic: Seq<char>) -> Seq<char> {
    let bare = replaced_from(
        replaced_from(name, anthropic + "-"@, ""@, 0),
        "gemini-"@,
        "gem-"@,
        0,
    );
    match last_at(bare, "-202"@, bare.len() as int) {
        Some(i) => bare.take(i),
        None => bare,
    }
}

/// A model's name for a legend.
pub fn shorten_model_name(name: &str, anthropic: &str) -> (r: String)
    ensures
        r@ == short_name(name@, anthropic@),
{
    proof {
        reveal_strlit("-");
        reveal_strlit("gemini-");
        reveal_strlit("-202");
    }
    let mut family = anthropic.to_owned();
    family.push_str("-");
    let a = replace(name, &family, "");
    let bare = replace(&a, "gemini-", "gem-");
    let v = chars_of(&bare);
    let q = chars_of("-202");
    let mut i: usize = v.len();
    loop
        invariant
            i <= v@.len(),
            v@ == bare@,
            q@ == "-202"@,
            last_at(bare@, "-202"@, bare@.len() as int) == last_at(bare@, "-202"@, i as int),
            bare@ == replaced_from(
                replaced_from(name@, anthropic@ + "-"@, ""@, 0),
                "gemini-"@,
                "gem-"@,
                0,
            ),
        decreases i,
    {
        if chars_at(&v, &q, i) {
            let r = text_between(&v, 0, i);
            assert(r@ =~= bare@.take(i as int));
            return r;
        }
        if i == 0 {
            assert(last_at(bare@, "-202"@, -1) is None);
            return bare;
        }
        i = i - 1;
    }
}

/// A text cut to `max` bytes, with a sign that it was.
pub open spec fn cut(s: Seq<char>, max: nat, keep: nat, sign: Seq<char>) -> Seq<char> {
    if byte_len(s) <= max {
        s
    } else {
        head_bytes(s, keep) + sign
    }
}

/// A text cut to `max` bytes, with a sign that it was.
fn cut_text(s: &str, max: usize, keep: usize, sign: &str) -> (r: String)
    requires
        byte_len(s@) > max ==> head_is_whole(s@, keep as nat),
    ensures
        r@ == cut(s@, max as nat, keep as nat, sign@),
{
    if len_bytes(s) <= max {
        s.to_owned()
    } else {
        let mut r = head_of(s, keep);
        r.push_str(sign);
        r
    }
}

/// A name cut to `max` bytes. The cut has to fall between two characters.
pub fn truncate(s: &str, max: usize) -> (r: String)
    requires
        byte_len(s@) > max ==> max >= 1 && head_is_whole(s@, (max - 1) as nat),
    ensures
        r@ == cut(s@, max as nat, minus(max as int, 1) as nat, "\u{2026}"@),
{
    let keep: usize = if max >= 1 {
        max - 1
    } else {
        0
    };
    cut_text(s, max, keep, "\u{2026}")
}

/// An email cut to `max_len` bytes. The cut has to fall between two characters.
pub fn truncate_email(email: &str, max_len: usize) -> (r: String)
    requires
        byte_len(email@) > max_len ==> head_is_whole(email@, minus(max_len as int, 3) as nat),
    ensures
        r@ == cut(email@, max_len as nat, minus(max_len as int, 3) as nat, "..."@),
{
    let keep: usize = if max_len >= 3 {
        max_len - 3
    } else {
        0
    };
    cut_text(email, max_len, keep, "...")
}

/// A text without a prefix, as often as it begins with it.
pub open spec fn without_prefixes(s: Seq<char>, p: Seq<char>) -> Seq<char>
    decreases s.len(),
{
    if p.len() > 0 && starts(s, p) {
        without_prefixes(after(s, p), p)
    } else {
        s
    }
}

/// A text without a prefix, as often as it begins with it.
fn strip_prefixes(s: &str, p: &str) -> (r: String)
    requires
        p@.len() > 0,
    ensures
        r@ == without_prefixes(s@, p@),
{
    let mut r = s.to_owned();
    loop
        invariant
            p@.len() > 0,
            without_prefixes(r@, p@) == without_prefixes(s@, p@),
        decreases r@.len(),
    {
        match strip_prefix(&r, p) {
            Some(t) => {
                r = t;
            },
            None => {
                return r;
            },
        }
    }
}

/// A model's name without that of its family, Anthropic's or Gemini.
pub open spec fn bare_name(model: Seq<char>, anthropic: Seq<char>) -> Seq<char> {
    without_prefixes(without_prefixes(model, anthropic + "-"@), "gemini-"@)
}

/// A model's name without that of its family, cut to `max` bytes. The cut has to fall between two
/// characters.
pub fn truncate_model_name(model: &str, max: usize, anthropic: &str) -> (r: String)
    requires
        byte_len(bare_name(model@, anthropic@)) > max ==> head_is_whole(
            bare_name(model@, anthropic@),
            minus(max as int, 3) as nat,
        ),
    ensures
        r@ == cut(bare_name(model@, anthropic@), max as nat, minus(max as int, 3) as nat, "..."@),
{
    proof {
        reveal_strlit("-");
        reveal_strlit("gemini-");
    }
    let mut family = anthropic.to_owned();
    family.push_str("-");
    let a = strip_prefixes(model, &family);
    let name = strip_prefixes(&a, "gemini-");
    truncate_email(&name, max)
}

/// How many whole seconds are left at a moment until another, which is written down in the
/// format of RFC 3339, less than nothing where it has passed; `None` where the text is no
/// moment, or the first is not one that can be written.
pub uninterp spec fn seconds_left(text: Seq<char>, now_secs: i64, now_nanos: u32) -> Option<i64>;

/// `chrono::DateTime::signed_duration_since`, from a moment given in seconds and nanoseconds
/// to one read by `parse_from_rfc3339`, and its `num_seconds`: a function of the three, which
/// `seconds_left` names.
#[verifier::external_body]
fn until(text: &str, now_secs: i64, now_nanos: u32) -> (r: Option<i64>)
    ensures
        r == seconds_left(text@, now_secs, now_nanos),
{
    let now = chrono::DateTime::<chrono::Utc>::from_timestamp(now_secs, now_nanos)?;
    let then = chrono::DateTime::parse_from_rfc3339(text).ok()?;
    Some(then.signed_duration_since(now).num_seconds())
}

/// When a quota is reset: in how many hours and minutes, `now` where that has passed, and the
/// text itself where it is no moment.
pub open spec fn reset_note(text: Seq<char>, left: Option<i64>) -> Seq<char> {
    match left {
        Some(s) => if s <= 0 {
            "now"@
        } else if s >= 3600 {
            decimal((s / 3600) as nat) + "h"@ + decimal(((s / 60) % 60) as nat) + "m"@
        } else {
            decimal(((s / 60) % 60) as nat) + "m"@
        },
        None => text,
    }
}

/// When a quota is reset, from how many seconds are left.
pub fn reset_text(text: &str, left: Option<i64>) -> (r: String)
    ensures
        r@ == reset_note(text@, left),
{
    match left {
        Some(s) => {
            if s <= 0 {
                return "now".to_owned();
            }
            let n: u64 = s as u64;
            let mins = decimal_text((n / 60) % 60);
            let mut r = String::new();
            if n >= 3600 {
                let hours = decimal_text(n / 3600);
                r.push_str(&hours);
                r.push_str("h");
            }
            r.push_str(&mins);
            r.push_str("m");
            assert(r@ =~= reset_note(text@, left));
            r
        },
        None => text.to_owned(),
    }
}

/// When a quota is reset.
pub fn format_reset_time(reset_time: &str, now_secs: i64, now_nanos: u32) -> (r: String)
    ensures
        r@ == reset_note(reset_time@, seconds_left(reset_time@, now_secs, now_nanos)),
{
    let left = until(reset_time, now_secs, now_nanos);
    reset_text(reset_time, left)
}

/// A bar of a width, part of it filled.
pub open spec fn bar(filled: nat, width: nat) -> Seq<char> {
    run('\u{2588}', filled) + run('\u{2591}', minus(width as int, filled as int) as nat)
}

/// A bar of a width, part of it filled.
pub fn render_quota_bar(filled: usize, width: usize) -> (r: String)
    ensures
        r@ == bar(filled as nat, width as nat),
{
    let mut r = run_of('\u{2588}', filled);
    let rest = run_of(
        '\u{2591}',
        if width >= filled {
            width - filled
        } else {
            0
        },
    );
    r.push_str(&rest);
    r
}

/// A bar that is not filled beyond its width is as long as its width.
pub proof fn bars_keep_their_width(filled: nat, width: nat)
    requires
        filled <= width,
    ensures
        bar(filled, width).len() == width,
{
}

/// How many of the accounts can serve.
pub open spec fn able(a: Seq<crate::app::AccountInfo>) -> nat
    decreases a.len(),
{
    if a.len() == 0 {
        0
    } else {
        able(a.drop_last()) + (if a.last().enabled && !a.last().is_invalid {
            1nat
        } else {
            0
        })
    }
}

/// How many of the accounts can serve: they are enabled and not invalid.
pub fn able_accounts(accounts: &Vec<crate::app::AccountInfo>) -> (r: usize)
    ensures
        r == able(accounts@),
        r <= accounts@.len(),
{
    let mut r: usize = 0;
    let mut i: usize = 0;
    assert(accounts@.take(0) =~= Seq::empty());
    while i < accounts.len()
        invariant
            i <= accounts@.len(),
            r <= i,
            r == able(accounts@.take(i as int)),
        decreases accounts@.len() - i,
    {
        assert(accounts@.take(i + 1).drop_last() =~= accounts@.take(i as int));
        if accounts[i].enabled && !accounts[i].is_invalid {
            r = r + 1;
        }
        i = i + 1;
    }
    assert(accounts@.take(accounts@.len() as int) =~= accounts@);
    r
}

/// How a duration looks: good below a second, bad from five on.
pub open spec fn duration_hue(ms: u64) -> Hue {
    if ms < 1000 {
        Hue::Success
    } else if ms < 5000 {
        Hue::Warning
    } else {
        Hue::Error
    }
}

/// What the panel of figures shows. Figures that are decimal fractions are handed in as they
/// are written, those of the quota with how they look.
pub struct StatsPanel {
    pub total_requests: u64,
    pub requests_per_min: String,
    pub avg_response: Option<(u64, String)>,
    pub active_accounts: usize,
    pub total_accounts: usize,
    pub quota: Option<(String, Hue)>,
}

/// The lines of the panel of figures.
pub open spec fn stats_lines(p: StatsPanel) -> Seq<Seq<SpanView>> {
    seq![
        seq![
            piece("Requests "@, plain(Hue::Dim)),
            piece(with_commas(p.total_requests as nat), plain(Hue::Primary)),
            piece("  Rate "@, plain(Hue::Dim)),
            piece(p.requests_per_min@, plain(Hue::Success)),
            piece("/min"@, plain(Hue::Dim)),
        ],
        seq![
            piece("Avg Time "@, plain(Hue::Dim)),
            match p.avg_response {
                Some((ms, text)) => piece(text@, plain(duration_hue(ms))),
                None => piece("--"@, plain(Hue::Dim)),
            },
        ],
        seq![
            piece("Accounts "@, plain(Hue::Dim)),
            piece(
                decimal(p.active_accounts as nat) + "/"@ + decimal(p.total_accounts as nat),
                plain(Hue::Primary),
            ),
            piece("  Quota "@, plain(Hue::Dim)),
            match p.quota {
                Some((text, hue)) => piece(text@ + "%"@, plain(hue)),
                None => piece("--%"@, plain(Hue::Dim)),
            },
        ],
    ]
}

impl StatsPanel {
    /// The first line of the panel: requests.
    fn requests_line(&self) -> (r: Vec<Span>)
        ensures
            line_view(r@) == stats_lines(*self)[0],
    {
        let mut r = no_spans();
        put_str(&mut r, "Requests ", tone(Hue::Dim));
        put(&mut r, format_number(self.total_requests), tone(Hue::Primary));
        put_str(&mut r, "  Rate ", tone(Hue::Dim));
        put_str(&mut r, &self.requests_per_min, tone(Hue::Success));
        put_str(&mut r, "/min", tone(Hue::Dim));
        assert(line_view(r@) =~= stats_lines(*self)[0]);
        r
    }

    /// The second line of the panel: how long they take.
    fn time_line(&self) -> (r: Vec<Span>)
        ensures
            line_view(r@) == stats_lines(*self)[1],
    {
        let mut r = no_spans();
        put_str(&mut r, "Avg Time ", tone(Hue::Dim));
        match &self.avg_response {
            Some((ms, text)) => {
                let ms: u64 = *ms;
                let hue = if ms < 1000 {
                    Hue::Success
                } else if ms < 5000 {
                    Hue::Warning
                } else {
                    Hue::Error
                };
                put_str(&mut r, text, tone(hue));
            },
            None => put_str(&mut r, "--", tone(Hue::Dim)),
        }
        assert(line_view(r@) =~= stats_lines(*self)[1]);
        r
    }

    /// The third line of the panel: accounts and quota.
    fn accounts_line(&self) -> (r: Vec<Span>)
        ensures
            line_view(r@) == stats_lines(*self)[2],
    {
        let mut r = no_spans();
        put_str(&mut r, "Accounts ", tone(Hue::Dim));
        let mut count = decimal_text(self.active_accounts as u64);
        count.push_str("/");
        let total = decimal_text(self.total_accounts as u64);
        count.push_str(&total);
        put(&mut r, count, tone(Hue::Primary));
        put_str(&mut r, "  Quota ", tone(Hue::Dim));
        match &self.quota {
            Some((text, hue)) => {
                let mut t = text.clone();
                t.push_str("%");
                put(&mut r, t, tone(*hue));
            },
            None => put_str(&mut r, "--%", tone(Hue::Dim)),
        }
        assert(line_view(r@) =~= stats_lines(*self)[2]);
        r
    }

    /// The lines of the panel, as many as there is room for.
    pub fn lines(&self, height: usize) -> (r: Vec<Vec<Span>>)
        ensures
            lines_view(r@) == stats_lines(*self).take(
                if height < 3 {
                    height as int
                } else {
                    3
                },
            ),
    {
        let mut r: Vec<Vec<Span>> = Vec::new();
        let ghost all = stats_lines(*self);
        if height >= 1 {
            put_line(&mut r, self.requests_line());
        }
        if height >= 2 {
            put_line(&mut r, self.time_line());
        }
        if height >= 3 {
            put_line(&mut r, self.accounts_line());
        }
        assert(lines_view(r@) =~= all.take(
            if height < 3 {
                height as int
            } else {
                3
            },
        ));
        r
    }
}

/// How the state of the server is shown: a sign and a word.
pub open spec fn status_words(running: bool) -> (Seq<char>, Seq<char>) {
    if running {
        ("\u{25cf}"@, "Running"@)
    } else {
        ("\u{25cb}"@, "Stopped"@)
    }
}

/// How the state of the server is shown: a sign and a word.
pub fn status_texts(running: bool) -> (r: (&'static str, &'static str))
    ensures
        (r.0@, r.1@) == status_words(running),
{
    if running {
        ("\u{25cf}", "Running")
    } else {
        ("\u{25cb}", "Stopped")
    }
}

/// A line of the panel about the server.
pub open spec fn fact_line(name: Seq<char>, value: Seq<char>, hue: Hue) -> Seq<SpanView> {
    seq![
        piece("\u{25cf}"@, plain(Hue::Dim)),
        piece(name, plain(Hue::Plain)),
        piece(value, plain(hue)),
    ]
}

/// A line of the panel about the server.
fn fact_spans(name: &str, value: &str, hue: Hue) -> (r: Vec<Span>)
    ensures
        line_view(r@) == fact_line(name@, value@, hue),
{
    let mut r = no_spans();
    put_str(&mut r, "\u{25cf}", tone(Hue::Dim));
    put_str(&mut r, name, tone(Hue::Plain));
    put_str(&mut r, value, tone(hue));
    assert(line_view(r@) =~= fact_line(name@, value@, hue));
    r
}

/// A message about what was done, whether it failed, and how many milliseconds ago.
#[derive(Debug, Clone, PartialEq)]
pub struct StatusMessage {
    pub text: String,
    pub is_error: bool,
    pub age_ms: u64,
}

/// The lines of the panel about the server; a message is shown for four seconds.
pub open spec fn status_lines(
    status: ServerStatus,
    address: Seq<char>,
    port: u16,
    uptime: Seq<char>,
    message: Option<StatusMessage>,
) -> Seq<Seq<SpanView>> {
    let running = status == ServerStatus::Running;
    let hue = if running {
        Hue::Success
    } else {
        Hue::Error
    };
    let facts = seq![
        seq![
            piece(status_words(running).0, plain(hue)),
            piece(" Server: "@, plain(Hue::Plain)),
            piece(status_words(running).1, plain(hue)),
        ],
        fact_line(" Address: "@, address, Hue::Primary),
        fact_line(" Port: "@, decimal(port as nat), Hue::Primary),
        fact_line(" Uptime: "@, uptime, Hue::Dim),
    ];
    match message {
        Some(m) => if m.age_ms < 4000 {
            facts.push(
                seq![
                    piece(
                        "  \u{25b8} "@ + m.text@,
                        plain(
                            if m.is_error {
                                Hue::Error
                            } else {
                                Hue::Success
                            },
                        ),
                    ),
                ],
            )
        } else {
            facts
        },
        None => facts,
    }
}

/// The line that says whether the server runs.
fn server_line(status: ServerStatus) -> (r: Vec<Span>)
    ensures
        line_view(r@) == status_lines(status, Seq::empty(), 0, Seq::empty(), None)[0],
{
    let running = status.is_running();
    let hue = if running {
        Hue::Success
    } else {
        Hue::Error
    };
    let (sign, word) = status_texts(running);
    let mut r = no_spans();
    put_str(&mut r, sign, tone(hue));
    put_str(&mut r, " Server: ", tone(Hue::Plain));
    put_str(&mut r, word, tone(hue));
    assert(line_view(r@) =~= status_lines(status, Seq::empty(), 0, Seq::empty(), None)[0]);
    r
}

/// The lines of the panel about the server.
pub fn status_panel(
    status: ServerStatus,
    address: &str,
    port: u16,
    uptime: &str,
    message: &Option<StatusMessage>,
) -> (r: Vec<Vec<Span>>)
    ensures
        lines_view(r@) == status_lines(status, address@, port, uptime@, *message),
{
    let mut r: Vec<Vec<Span>> = Vec::new();
    put_line(&mut r, server_line(status));
    put_line(&mut r, fact_spans(" Address: ", address, Hue::Primary));
    let p = decimal_text(port as u64);
    put_line(&mut r, fact_spans(" Port: ", &p, Hue::Primary));
    put_line(&mut r, fact_spans(" Uptime: ", uptime, Hue::Dim));
    match message {
        Some(m) => {
            if m.age_ms < 4000 {
                let mut t = "  \u{25b8} ".to_owned();
                t.push_str(&m.text);
                let hue = if m.is_error {
                    Hue::Error
                } else {
                    Hue::Success
                };
                put_line(&mut r, crate::spans::one_span(t, tone(hue)));
            }
        },
        None => {},
    }
    assert(lines_view(r@) =~= status_lines(status, address@, port, uptime@, *message));
    r
}

/// A bar is filled from its beginning, as far as it is filled, and empty behind that.
pub proof fn bars_are_filled_from_the_beginning(filled: nat, width: nat, i: int)
    requires
        filled <= width,
        0 <= i < width,
    ensures
        i < filled ==> bar(filled, width)[i] == '\u{2588}',
        i >= filled ==> bar(filled, width)[i] == '\u{2591}',
{
}

/// A text that fits stays as it is; one that does not keeps its beginning and ends with the
/// sign that it was cut.
pub proof fn cut_texts_keep_their_beginning(s: Seq<char>, max: nat, keep: nat, sign: Seq<char>)
    ensures
        byte_len(s) <= max ==> cut(s, max, keep, sign) == s,
        byte_len(s) > max ==> cut(s, max, keep, sign) == head_bytes(s, keep) + sign,
        vstd::utf8::is_ascii_chars(s) && byte_len(s) > max
            && keep <= max ==> cut(s, max, keep, sign) == s.take(keep as int) + sign,
{
    if vstd::utf8::is_ascii_chars(s) && byte_len(s) > max
        && keep <= max {
        vstd::utf8::is_ascii_chars_encode_utf8(s);
        crate::text::ascii_texts_can_be_cut_anywhere(s, keep);
    }
}

/// Accounts that can serve are counted one by one: those that are on and not invalid.
pub proof fn able_accounts_are_counted(
    a: Seq<crate::app::AccountInfo>,
    b: Seq<crate::app::AccountInfo>,
    x: crate::app::AccountInfo,
)
    ensures
        able(a + b) == able(a) + able(b),
        able(seq![x]) == (if x.enabled && !x.is_invalid {
            1nat
        } else {
            0
        }),
    decreases b.len(),
{
    let none = seq![x].drop_last();
    assert(none.len() == 0);
    assert(able(none) == 0);
    assert(seq![x].last() == x);
    if b.len() == 0 {
        assert(a + b =~= a);
    } else {
        assert((a + b).drop_last() =~= a + b.drop_last());
        able_accounts_are_counted(a, b.drop_last(), x);
    }
}

/// The time that is left of a quota is told in hours and minutes, in minutes below an hour,
/// and as now once it is over; a time that cannot be read is shown as it is.
pub proof fn the_time_left_is_told(text: Seq<char>, hours: nat, minutes: nat, seconds: nat)
    requires
        minutes < 60,
        seconds < 60,
        hours * 3600 + minutes * 60 + seconds <= i64::MAX,
    ensures
        hours > 0 ==> reset_note(
            text,
            Some((hours * 3600 + minutes * 60 + seconds) as i64),
        ) == decimal(hours) + "h"@ + decimal(minutes) + "m"@,
        minutes > 0 || seconds > 0 ==> reset_note(
            text,
            Some((minutes * 60 + seconds) as i64),
        ) == decimal(minutes) + "m"@,
        reset_note(text, Some(0)) == "now"@,
        reset_note(text, None) == text,
{
    let s = hours * 3600 + minutes * 60 + seconds;
    assert(s / 3600 == hours);
    assert((s / 60) % 60 == minutes);
    let t = minutes * 60 + seconds;
    assert(t < 3600);
    assert((t / 60) % 60 == minutes);
}

/// The panel of the server says whether it runs, where it listens and since when.
pub proof fn the_status_is_shown_whole(
    status: ServerStatus,
    address: Seq<char>,
    port: u16,
    uptime: Seq<char>,
    message: Option<StatusMessage>,
)
    ensures
        ({
            let l = status_lines(status, address, port, uptime, message);
            &&& l.len() >= 4
            &&& l[0][2].text == (if status == ServerStatus::Running {
                "Running"@
            } else {
                "Stopped"@
            })
            &&& l[1][2].text == address
            &&& l[2][2].text == decimal(port as nat)
            &&& l[3][2].text == uptime
            &&& l.len() == 5 <==> (message matches Some(m) && m.age_ms < 4000)
            &&& l.len() == 5 ==> (message matches Some(m) && crate::text::ends(l[4][0].text, m.text@)
                && l[4][0].tone.hue == (if m.is_error {
                Hue::Error
            } else {
                Hue::Success
            }))
        }),
{
    if message is Some {
        let m = message->0;
        let t = "  \u{25b8} "@ + m.text@;
        assert(t.subrange(t.len() - m.text@.len(), t.len() as int) =~= m.text@);
    }
}

/// The panel of the statistics shows the requests, how many come in a minute, how long they
/// take and how many accounts can serve.
pub proof fn the_statistics_are_shown_whole(p: StatsPanel)
    ensures
        ({
            let l = stats_lines(p);
            &&& l.len() == 3
            &&& without_commas(l[0][1].text) == decimal(p.total_requests as nat)
            &&& l[0][3].text == p.requests_per_min@
            &&& p.avg_response matches Some((ms, text)) ==> l[1][1].text == text@
            &&& l[2][1].text == decimal(p.active_accounts as nat) + "/"@ + decimal(
                p.total_accounts as nat,
            )
            &&& p.quota matches Some((text, hue)) ==> l[2][3].text == text@ + "%"@
                && l[2][3].tone.hue == hue
        }),
{
    commas_only_group(p.total_requests as nat);
}

/// A name without a prefix does not begin with it any more, and only prefixes were taken.
pub proof fn prefixes_are_taken_off(s: Seq<char>, p: Seq<char>)
    requires
        p.len() > 0,
    ensures
        !starts(without_prefixes(s, p), p),
        !starts(s, p) ==> without_prefixes(s, p) == s,
        without_prefixes(p + s, p) == without_prefixes(s, p),
    decreases s.len(),
{
    if starts(s, p) {
        prefixes_are_taken_off(after(s, p), p);
    }
    let t = p + s;
    assert(t.subrange(0, p.len() as int) =~= p);
    assert(after(t, p) =~= s);
}

/// A text that holds none of what is replaced stays as it is, and what stands before and behind
/// the one that it holds stays too.
pub proof fn only_what_is_replaced_changes(
    a: Seq<char>,
    p: Seq<char>,
    b: Seq<char>,
    r: Seq<char>,
)
    requires
        p.len() > 0,
        forall|i: int| 0 <= i < a.len() ==> !#[trigger] occurs_at(a + p + b, p, i),
        forall|i: int|
            a.len() + p.len() <= i <= a.len() + p.len() + b.len() ==> !#[trigger] occurs_at(
                a + p + b,
                p,
                i,
            ),
    ensures
        replaced_from(a + p + b, p, r, 0) == a + r + b,
{
    let s = a + p + b;
    let n = a.len() as int;
    let e = n + p.len();
    assert(s.subrange(n, e) =~= p);
    assert(occurs_at(s, p, n));
    lemma_nothing_replaced(s, p, r, 0, n);
    lemma_nothing_replaced(s, p, r, e, s.len() as int);
    assert(replaced_from(s, p, r, s.len() as int) =~= Seq::empty());
    assert(s.subrange(e, s.len() as int) =~= b);
    assert(s.subrange(0, n) =~= a);
    assert(replaced_from(s, p, r, e) =~= b);
    assert(replaced_from(s, p, r, n) =~= r + b);
    assert(replaced_from(s, p, r, 0) =~= a + r + b);
}

/// Where nothing of the kind occurs, a text stays as it is.
pub proof fn nothing_else_is_replaced(s: Seq<char>, p: Seq<char>, r: Seq<char>)
    requires
        forall|i: int| 0 <= i < s.len() ==> !#[trigger] occurs_at(s, p, i),
    ensures
        replaced_from(s, p, r, 0) == s,
{
    lemma_nothing_replaced(s, p, r, 0, s.len() as int);
    assert(replaced_from(s, p, r, s.len() as int) =~= Seq::empty());
    assert(s.subrange(0, s.len() as int) =~= s);
    assert(replaced_from(s, p, r, 0) =~= s);
}

proof fn lemma_nothing_replaced(s: Seq<char>, p: Seq<char>, r: Seq<char>, i: int, e: int)
    requires
        0 <= i <= e <= s.len(),
        forall|k: int| i <= k < e ==> !#[trigger] occurs_at(s, p, k),
    ensures
        replaced_from(s, p, r, i) == s.subrange(i, e) + replaced_from(s, p, r, e),
    decreases e - i,
{
    if i < e {
        assert(!occurs_at(s, p, i));
        lemma_nothing_replaced(s, p, r, i + 1, e);
        assert(s.subrange(i, e) =~= seq![s[i]] + s.subrange(i + 1, e));
        assert(replaced_from(s, p, r, i) =~= s.subrange(i, e) + replaced_from(s, p, r, e));
    } else {
        assert(s.subrange(i, e) + replaced_from(s, p, r, e) =~= replaced_from(s, p, r, e));
    }
}

/// What is found last stands there, and none stands between it and where the search began.
pub proof fn the_last_one_is_found(s: Seq<char>, p: Seq<char>, i: int)
    ensures
        match last_at(s, p, i) {
            Some(k) => 0 <= k <= i && occurs_at(s, p, k) && forall|j: int|
                k < j <= i ==> !#[trigger] occurs_at(s, p, j),
            None => forall|j: int| 0 <= j <= i ==> !#[trigger] occurs_at(s, p, j),
        },
    decreases i + 1,
{
    if i >= 0 && !occurs_at(s, p, i) {
        the_last_one_is_found(s, p, i - 1);
    }
}

/// A name without the family, the other family and a date is short already; a date at its end
/// is taken off.
pub proof fn short_names_lose_their_date(name: Seq<char>, date: Seq<char>, anthropic: Seq<char>)
    requires
        ({
            let s = name + "-202"@ + date;
            &&& forall|i: int| 0 <= i < s.len() ==> !#[trigger] occurs_at(s, anthropic + "-"@, i)
            &&& forall|i: int| 0 <= i < s.len() ==> !#[trigger] occurs_at(s, "gemini-"@, i)
            &&& forall|i: int| name.len() < i <= s.len() ==> !#[trigger] occurs_at(s, "-202"@, i)
        }),
    ensures
        short_name(name + "-202"@ + date, anthropic) == name,
{
    let s = name + "-202"@ + date;
    nothing_else_is_replaced(s, anthropic + "-"@, ""@);
    nothing_else_is_replaced(s, "gemini-"@, "gem-"@);
    let n = name.len() as int;
    assert(s.subrange(n, n + "-202"@.len()) =~= "-202"@);
    assert(occurs_at(s, "-202"@, n));
    the_last_one_is_found(s, "-202"@, s.len() as int);
    assert(last_at(s, "-202"@, s.len() as int) == Some(n));
    assert(s.take(n) =~= name);
}

} // verus!
