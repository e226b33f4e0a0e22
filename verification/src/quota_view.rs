//! The lists of what is left of the quotas and of what the models are used for.

use vstd::prelude::*;

use crate::log_pane::minus;
use crate::panels::{
    bar, bare_name, cut, render_quota_bar, truncate, truncate_model_name,
};
use crate::setup::{pad_right, padded};
use crate::spans::{
    append_lines, bold, bold_tone, line_view, lines_view, no_spans, one_span, piece, plain, put,
    put_line, put_str, run, run_of, tone, Hue, Span, SpanView,
};
use crate::text::{
    byte_len, capitalize, capitalized, chars_of, decimal, decimal_text, head_is_whole,
};

verus! {

/// How wide the names of models are in the list of quotas.
pub const QUOTA_NAME_WIDTH: usize = 25;

/// How wide the names of models are in the list of what they are used for.
pub const USAGE_NAME_WIDTH: usize = 20;

/// What is left of the quota of a model: how much of the bar is filled, how many per cent
/// that is, in which colour it is shown, and when it is reset.
#[derive(Debug, Clone, PartialEq)]
pub struct QuotaLine {
    pub model: String,
    pub filled: usize,
    pub percent: u32,
    pub hue: Hue,
    pub reset: Option<String>,
}

/// A text filled up on the left to a width.
pub open spec fn padded_left(s: Seq<char>, width: int) -> Seq<char> {
    run(' ', minus(width, s.len() as int) as nat) + s
}

/// A text filled up on the left to a width.
fn pad_left(s: &str, width: usize) -> (r: String)
    ensures
        r@ == padded_left(s@, width as int),
{
    let n: usize = chars_of(s).len();
    let mut r = run_of(
        ' ',
        if width >= n {
            width - n
        } else {
            0
        },
    );
    r.push_str(s);
    r
}

/// Whether a name that is too long for a list is cut between two characters.
pub open spec fn quota_name_fits(model: Seq<char>, anthropic: Seq<char>) -> bool {
    byte_len(bare_name(model, anthropic)) > QUOTA_NAME_WIDTH ==> head_is_whole(
        bare_name(model, anthropic),
        (QUOTA_NAME_WIDTH - 3) as nat,
    )
}

/// The line of a quota: the model, a bar, how many per cent are left, which is in the colour
/// of an error where the bar is, and when it is reset.
pub open spec fn quota_row(
    q: QuotaLine,
    bar_width: nat,
    anthropic: Seq<char>,
) -> Seq<SpanView> {
    seq![
        piece(
            padded(
                cut(
                    bare_name(q.model@, anthropic),
                    QUOTA_NAME_WIDTH as nat,
                    (QUOTA_NAME_WIDTH - 3) as nat,
                    "..."@,
                ),
                QUOTA_NAME_WIDTH as nat,
            ),
            plain(Hue::Text),
        ),
        piece(" "@, plain(Hue::Plain)),
        piece(bar(q.filled as nat, bar_width), plain(q.hue)),
        piece(" "@, plain(Hue::Plain)),
        piece(
            padded_left(decimal(q.percent as nat), 3) + "%"@,
            plain(
                if q.hue == Hue::Error {
                    Hue::Error
                } else {
                    Hue::Dim
                },
            ),
        ),
        piece(
            match q.reset {
                Some(t) => " ("@ + t@ + ")"@,
                None => ""@,
            },
            plain(Hue::Dim),
        ),
    ]
}

/// The line of a quota.
pub fn render_quota_line(q: &QuotaLine, bar_width: usize, anthropic: &str) -> (r: Vec<Span>)
    requires
        quota_name_fits(q.model@, anthropic@),
    ensures
        line_view(r@) == quota_row(*q, bar_width as nat, anthropic@),
{
    let name = truncate_model_name(&q.model, QUOTA_NAME_WIDTH, anthropic);
    let mut r = no_spans();
    put(&mut r, pad_right(&name, QUOTA_NAME_WIDTH), tone(Hue::Text));
    put_str(&mut r, " ", tone(Hue::Plain));
    put(&mut r, render_quota_bar(q.filled, bar_width), tone(q.hue));
    put_str(&mut r, " ", tone(Hue::Plain));
    let digits = decimal_text(q.percent as u64);
    let mut percent = pad_left(&digits, 3);
    percent.push_str("%");
    let hue = if q.hue == Hue::Error {
        Hue::Error
    } else {
        Hue::Dim
    };
    put(&mut r, percent, tone(hue));
    match &q.reset {
        Some(t) => {
            let mut reset = " (".to_owned();
            reset.push_str(t);
            reset.push_str(")");
            put(&mut r, reset, tone(Hue::Dim));
        },
        None => {
            put_str(&mut r, "", tone(Hue::Dim));
        },
    }
    assert(line_view(r@) =~= quota_row(*q, bar_width as nat, anthropic@));
    r
}

/// The lines of a family's quotas under its name; none where there are none.
pub open spec fn quota_section(
    family: Seq<char>,
    q: Seq<QuotaLine>,
    bar_width: nat,
    anthropic: Seq<char>,
) -> Seq<Seq<SpanView>> {
    if q.len() == 0 {
        Seq::empty()
    } else {
        seq![seq![piece(family + " Models"@, bold(Hue::Primary))], Seq::empty()] + Seq::new(
            q.len(),
            |i: int| quota_row(q[i], bar_width, anthropic),
        )
    }
}

/// The lines of a family's quotas under its name.
fn section(
    family: &str,
    q: &Vec<QuotaLine>,
    bar_width: usize,
    anthropic: &str,
) -> (r: Vec<Vec<Span>>)
    requires
        forall|i: int| 0 <= i < q@.len() ==> quota_name_fits((#[trigger] q@[i]).model@, anthropic@),
    ensures
        lines_view(r@) == quota_section(family@, q@, bar_width as nat, anthropic@),
{
    let mut r: Vec<Vec<Span>> = Vec::new();
    let n: usize = q.len();
    if n == 0 {
        assert(lines_view(r@) =~= Seq::<Seq<SpanView>>::empty());
        return r;
    }
    let mut title = family.to_owned();
    title.push_str(" Models");
    put_line(&mut r, one_span(title, bold_tone(Hue::Primary)));
    put_line(&mut r, no_spans());
    let ghost head = lines_view(r@);
    assert(head =~= seq![seq![piece(family@ + " Models"@, bold(Hue::Primary))], Seq::empty()]);
    let mut i: usize = 0;
    assert(head =~= head + Seq::new(0, |k: int| quota_row(q@[k], bar_width as nat, anthropic@)));
    while i < n
        invariant
            i <= n == q@.len(),
            forall|i: int|
                0 <= i < q@.len() ==> quota_name_fits((#[trigger] q@[i]).model@, anthropic@),
            lines_view(r@) == head + Seq::new(
                i as nat,
                |k: int| quota_row(q@[k], bar_width as nat, anthropic@),
            ),
        decreases n - i,
    {
        put_line(&mut r, render_quota_line(&q[i], bar_width, anthropic));
        i = i + 1;
        assert(lines_view(r@) =~= head + Seq::new(
            i as nat,
            |k: int| quota_row(q@[k], bar_width as nat, anthropic@),
        ));
    }
    r
}

/// How wide the bars are in the list of quotas.
pub open spec fn quota_bar_width(width: u16) -> nat {
    minus(width as int, QUOTA_NAME_WIDTH + 18) as nat
}

/// The list of quotas: Anthropic's models, which go by the name `anthropic`, then Gemini's.
pub open spec fn quota_lines(
    own: Seq<QuotaLine>,
    gemini: Seq<QuotaLine>,
    width: u16,
    anthropic: Seq<char>,
) -> Seq<Seq<SpanView>> {
    quota_section(capitalized(anthropic), own, quota_bar_width(width), anthropic) + (
    if own.len() == 0 {
        Seq::empty()
    } else {
        seq![Seq::<SpanView>::empty()]
    }) + quota_section("Gemini"@, gemini, quota_bar_width(width), anthropic)
}

/// The list of quotas.
pub fn render_detail_list(
    own: &Vec<QuotaLine>,
    gemini: &Vec<QuotaLine>,
    width: u16,
    anthropic: &str,
) -> (r: Vec<Vec<Span>>)
    requires
        forall|i: int|
            0 <= i < own@.len() ==> quota_name_fits((#[trigger] own@[i]).model@, anthropic@),
        forall|i: int|
            0 <= i < gemini@.len() ==> quota_name_fits((#[trigger] gemini@[i]).model@, anthropic@),
    ensures
        lines_view(r@) == quota_lines(own@, gemini@, width, anthropic@),
{
    let bar_width: usize = if width as usize >= QUOTA_NAME_WIDTH + 18 {
        width as usize - (QUOTA_NAME_WIDTH + 18)
    } else {
        0
    };
    let family = capitalize(anthropic);
    let mut r = section(&family, own, bar_width, anthropic);
    if own.len() > 0 {
        put_line(&mut r, no_spans());
    }
    append_lines(&mut r, section("Gemini", gemini, bar_width, anthropic));
    assert(lines_view(r@) =~= quota_lines(own@, gemini@, width, anthropic@));
    r
}

/// What a model is used for: how much of the bar is filled, the share of the requests as a
/// text of at least three characters, and the colour of the bar.
#[derive(Debug, Clone, PartialEq)]
pub struct UsageLine {
    pub model: String,
    pub filled: usize,
    pub percent: String,
    pub hue: Hue,
}

/// Whether a name that is too long for the list is cut between two characters.
pub open spec fn usage_name_fits(model: Seq<char>) -> bool {
    byte_len(model) > USAGE_NAME_WIDTH ==> head_is_whole(model, (USAGE_NAME_WIDTH - 1) as nat)
}

/// The line of a model: its name, a bar and its share.
pub open spec fn usage_row(u: UsageLine, bar_width: nat) -> Seq<SpanView> {
    seq![
        piece(
            padded(
                cut(
                    u.model@,
                    USAGE_NAME_WIDTH as nat,
                    (USAGE_NAME_WIDTH - 1) as nat,
                    "\u{2026}"@,
                ),
                USAGE_NAME_WIDTH as nat,
            ),
            plain(Hue::Primary),
        ),
        piece(" "@, plain(Hue::Plain)),
        piece(bar(u.filled as nat, bar_width), plain(u.hue)),
        piece(" "@ + padded_left(u.percent@, 3) + "%"@, plain(Hue::Dim)),
    ]
}

/// The line of a model.
fn usage_line(u: &UsageLine, bar_width: usize) -> (r: Vec<Span>)
    requires
        usage_name_fits(u.model@),
    ensures
        line_view(r@) == usage_row(*u, bar_width as nat),
{
    let name = truncate(&u.model, USAGE_NAME_WIDTH);
    let mut r = no_spans();
    put(&mut r, pad_right(&name, USAGE_NAME_WIDTH), tone(Hue::Primary));
    put_str(&mut r, " ", tone(Hue::Plain));
    put(&mut r, render_quota_bar(u.filled, bar_width), tone(u.hue));
    let mut percent = " ".to_owned();
    let share = pad_left(&u.percent, 3);
    percent.push_str(&share);
    percent.push_str("%");
    put(&mut r, percent, tone(Hue::Dim));
    assert(line_view(r@) =~= usage_row(*u, bar_width as nat));
    r
}

/// How wide the bars are in the list of what the models are used for.
pub open spec fn usage_bar_width(width: u16) -> nat {
    minus(width as int, USAGE_NAME_WIDTH + 10) as nat
}

/// How wide the bars are in the list of what the models are used for.
pub fn usage_bars(width: u16) -> (r: usize)
    ensures
        r == usage_bar_width(width),
{
    if width as usize >= USAGE_NAME_WIDTH + 10 {
        width as usize - (USAGE_NAME_WIDTH + 10)
    } else {
        0
    }
}

/// The list of what the models are used for, as many as there is room for; a note where
/// nothing was asked for yet.
pub open spec fn usage_lines(
    models: Seq<UsageLine>,
    total: u64,
    width: u16,
    height: u16,
) -> Seq<Seq<SpanView>> {
    if models.len() == 0 || total == 0 {
        seq![seq![piece("No requests yet"@, plain(Hue::Dim))]]
    } else {
        Seq::new(
            if models.len() < height {
                models.len()
            } else {
                height as nat
            },
            |i: int| usage_row(models[i], usage_bar_width(width)),
        )
    }
}

/// The list of what the models are used for.
pub fn render_model_usage(
    models: &Vec<UsageLine>,
    total: u64,
    width: u16,
    height: u16,
) -> (r: Vec<Vec<Span>>)
    requires
        forall|i: int| 0 <= i < models@.len() ==> usage_name_fits((#[trigger] models@[i]).model@),
    ensures
        lines_view(r@) == usage_lines(models@, total, width, height),
{
    let mut r: Vec<Vec<Span>> = Vec::new();
    let n: usize = models.len();
    if n == 0 || total == 0 {
        put_line(&mut r, one_span("No requests yet".to_owned(), tone(Hue::Dim)));
        assert(lines_view(r@) =~= usage_lines(models@, total, width, height));
        return r;
    }
    let shown: usize = if n < height as usize {
        n
    } else {
        height as usize
    };
    let bar_width = usage_bars(width);
    let mut i: usize = 0;
    assert(lines_view(r@) =~= Seq::new(0, |k: int| usage_row(models@[k], bar_width as nat)));
    while i < shown
        invariant
            i <= shown <= models@.len(),
            forall|i: int|
                0 <= i < models@.len() ==> usage_name_fits((#[trigger] models@[i]).model@),
            lines_view(r@) == Seq::new(
                i as nat,
                |k: int| usage_row(models@[k], bar_width as nat),
            ),
        decreases shown - i,
    {
        put_line(&mut r, usage_line(&models[i], bar_width));
        i = i + 1;
        assert(lines_view(r@) =~= Seq::new(
            i as nat,
            |k: int| usage_row(models@[k], bar_width as nat),
        ));
    }
    assert(lines_view(r@) =~= usage_lines(models@, total, width, height));
    r
}

/// The account in use: its email, and a bar, or that there is none. The bar is filled so far,
/// in a colour, and the share is a text.
pub open spec fn account_lines(
    email: Option<Seq<char>>,
    filled: nat,
    hue: Hue,
    percent: Seq<char>,
) -> Seq<Seq<SpanView>> {
    match email {
        Some(e) => seq![
            seq![piece(e, plain(Hue::Primary))],
            seq![
                piece("Quota: "@, plain(Hue::Plain)),
                piece(bar(filled, 10), plain(hue)),
                piece(" "@ + percent + "%"@, plain(Hue::Dim)),
            ],
        ],
        None => seq![seq![piece("No active account"@, plain(Hue::Dim))]],
    }
}

/// The account in use.
pub fn account_panel(email: Option<&str>, filled: usize, hue: Hue, percent: &str) -> (r: Vec<
    Vec<Span>,
>)
    ensures
        lines_view(r@) == account_lines(
            match email {
                Some(e) => Some(e@),
                None => None,
            },
            filled as nat,
            hue,
            percent@,
        ),
{
    let mut r: Vec<Vec<Span>> = Vec::new();
    match email {
        Some(e) => {
            put_line(&mut r, one_span(e.to_owned(), tone(Hue::Primary)));
            let mut l = no_spans();
            put_str(&mut l, "Quota: ", tone(Hue::Plain));
            put(&mut l, render_quota_bar(filled, 10), tone(hue));
            let mut share = " ".to_owned();
            share.push_str(percent);
            share.push_str("%");
            put(&mut l, share, tone(Hue::Dim));
            assert(line_view(l@) =~= account_lines(Some(e@), filled as nat, hue, percent@)[1]);
            put_line(&mut r, l);
            assert(lines_view(r@) =~= account_lines(Some(e@), filled as nat, hue, percent@));
        },
        None => {
            put_line(&mut r, one_span("No active account".to_owned(), tone(Hue::Dim)));
            assert(lines_view(r@) =~= account_lines(None, filled as nat, hue, percent@));
        },
    }
    r
}

/// Every quota is shown, those of one family before those of the other, each family under its
/// name, each with its whole bar, its percentage and its time of reset.
pub proof fn every_quota_is_shown(
    own: Seq<QuotaLine>,
    gemini: Seq<QuotaLine>,
    width: u16,
    anthropic: Seq<char>,
    i: int,
)
    requires
        own.len() > 0,
        gemini.len() > 0,
    ensures
        quota_lines(own, gemini, width, anthropic).len() == own.len() + gemini.len() + 5,
        ({
            let all = quota_lines(own, gemini, width, anthropic);
            &&& all[0][0].text == capitalized(anthropic) + " Models"@
            &&& all[own.len() as int + 3][0].text == "Gemini Models"@
            &&& 0 <= i < own.len() ==> shows_quota(all[i + 2], own[i], quota_bar_width(width))
            &&& 0 <= i < gemini.len() ==> shows_quota(
                all[own.len() + i + 5],
                gemini[i],
                quota_bar_width(width),
            )
        }),
        quota_lines(own, Seq::empty(), width, anthropic).len() == own.len() + 3,
        quota_lines(Seq::empty(), gemini, width, anthropic).len() == gemini.len() + 2,
{
    reveal_strlit("Gemini");
    reveal_strlit(" Models");
    reveal_strlit("Gemini Models");
    assert("Gemini"@ + " Models"@ =~= "Gemini Models"@);
    let all = quota_lines(own, gemini, width, anthropic);
    let w = quota_bar_width(width);
    if 0 <= i < own.len() {
        assert(all[i + 2] == quota_row(own[i], w, anthropic));
        lemma_quota_row(own[i], w, anthropic);
    }
    if 0 <= i < gemini.len() {
        assert(all[own.len() + i + 5] == quota_row(gemini[i], w, anthropic));
        lemma_quota_row(gemini[i], w, anthropic);
    }
}

/// Whether a line has the bar, the percentage and the time of reset of a quota.
pub open spec fn shows_quota(line: Seq<SpanView>, q: QuotaLine, bar_width: nat) -> bool {
    &&& line.len() == 6
    &&& line[2].text == bar(q.filled as nat, bar_width)
    &&& line[2].tone.hue == q.hue
    &&& line[4].text.len() == (if q.percent >= 100 {
        decimal(q.percent as nat).len() + 1
    } else {
        4
    })
    &&& line[4].text.skip(line[4].text.len() - decimal(q.percent as nat).len() - 1) == decimal(
        q.percent as nat,
    ) + seq!['%']
    &&& match q.reset {
        Some(t) => line[5].text == seq![' ', '('] + t@ + seq![')'],
        None => line[5].text.len() == 0,
    }
}

proof fn lemma_quota_row(q: QuotaLine, bar_width: nat, anthropic: Seq<char>)
    ensures
        shows_quota(quota_row(q, bar_width, anthropic), q, bar_width),
{
    reveal_strlit("%");
    reveal_strlit(" (");
    reveal_strlit(")");
    reveal_strlit("");
    let d = decimal(q.percent as nat);
    let line = quota_row(q, bar_width, anthropic);
    let n = q.percent as nat;
    if n < 10 {
        assert(d.len() == 1);
    } else {
        assert(n / 10 < 10 || n >= 100);
        if n < 100 {
            assert(decimal(n / 10).len() == 1);
            assert(d.len() == 2);
        } else {
            assert(decimal(n / 100).len() >= 1);
            assert((n / 10) / 10 == n / 100);
            assert(decimal(n / 10).len() == decimal((n / 10) / 10).len() + 1);
            assert(d.len() == decimal(n / 10).len() + 1);
            assert(d.len() >= 3);
        }
    }
    let t = line[4].text;
    assert(t.skip(t.len() - d.len() - 1) =~= d + seq!['%']);
    match q.reset {
        Some(r) => {
            assert(line[5].text =~= seq![' ', '('] + r@ + seq![')']);
        },
        None => {},
    }
}

/// The use of each model is shown in order, as far as there is room, with its bar and its
/// percentage; where nothing was used, so much is said.
pub proof fn every_use_is_shown(
    models: Seq<UsageLine>,
    total: u64,
    width: u16,
    height: u16,
    i: int,
)
    ensures
        models.len() == 0 || total == 0 ==> usage_lines(models, total, width, height).len() == 1
            && usage_lines(models, total, width, height)[0][0].text == "No requests yet"@,
        models.len() > 0 && total > 0 ==> usage_lines(models, total, width, height).len() == (
        if models.len() < height {
            models.len()
        } else {
            height as nat
        }),
        total > 0 && 0 <= i < models.len() && i < height ==> ({
            let line = usage_lines(models, total, width, height)[i];
            &&& line[2].text == bar(models[i].filled as nat, usage_bar_width(width))
            &&& line[2].tone.hue == models[i].hue
            &&& models[i].percent@.len() >= 3 ==> line[3].text == seq![' '] + models[i].percent@
                + seq!['%']
        }),
{
    reveal_strlit(" ");
    reveal_strlit("%");
    if total > 0 && 0 <= i < models.len() && i < height {
        let p = models[i].percent@;
        if p.len() >= 3 {
            assert(padded_left(p, 3) =~= p);
        }
    }
}

/// The active account is shown with its email, its bar of ten and its percentage.
pub proof fn the_account_is_shown(email: Seq<char>, filled: nat, hue: Hue, percent: Seq<char>)
    ensures
        account_lines(Some(email), filled, hue, percent).len() == 2,
        account_lines(Some(email), filled, hue, percent)[0][0].text == email,
        account_lines(Some(email), filled, hue, percent)[1][1].text == bar(filled, 10),
        account_lines(Some(email), filled, hue, percent)[1][1].tone.hue == hue,
        account_lines(Some(email), filled, hue, percent)[1][2].text == seq![' '] + percent + seq![
            '%',
        ],
{
    reveal_strlit(" ");
    reveal_strlit("%");
}

} // verus!
