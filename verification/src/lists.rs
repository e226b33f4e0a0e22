//! The lists of the dashboard: accounts, settings and mappings.

use vstd::prelude::*;

use crate::app::AccountInfo;
use crate::chat::opt;
use crate::config_editor::{ConfigField, FieldType, FieldView};
use crate::config_pane::{field_row, is_changed, section_before, ConfigPane};
use crate::log_pane::{lower_text, minus, to_lower};
use crate::panels::{cut, truncate_email};
use crate::setup::{pad_right, padded};
use crate::spans::{
    append_lines, bold, bold_tone, line_view, lines_view, no_spans, one_span, piece, plain, put,
    put_line, put_str, run, run_of, tone, underlined, Hue, Span, SpanView, Tone,
};
use crate::text::{byte_len, head_is_whole, len_bytes, same};

verus! {

/// The sign before an account: invalid, the active one, or another.
pub open spec fn account_sign(a: AccountInfo) -> SpanView {
    if a.is_invalid {
        piece("\u{2717}"@, plain(Hue::Error))
    } else if a.enabled && a.is_active {
        piece("\u{25cf}"@, plain(Hue::Success))
    } else {
        piece("\u{25cb}"@, plain(Hue::Dim))
    }
}

/// The badge of an account's tier, whatever its case; one without a tier is free.
pub open spec fn tier_badge(tier: Option<Seq<char>>) -> SpanView {
    let t = lower_text(
        match tier {
            Some(t) => t,
            None => "free"@,
        },
    );
    if t == "ultra"@ {
        piece(padded("ULTRA"@, 5), bold(Hue::Magenta))
    } else if t == "pro"@ {
        piece(padded("PRO"@, 5), bold(Hue::Cyan))
    } else {
        piece(padded("FREE"@, 5), plain(Hue::DarkGray))
    }
}

/// The look of an account's email.
pub open spec fn email_tone(is_active: bool, hovered: bool) -> Tone {
    Tone {
        hue: if is_active {
            Hue::Primary
        } else {
            Hue::Text
        },
        bold: false,
        underlined: hovered,
        marked: false,
    }
}

/// The line of an account. Its bar and its share of quota are handed in as they are written,
/// with how the bar looks.
pub open spec fn account_line(
    a: AccountInfo,
    selected: bool,
    hovered: bool,
    bar: Seq<char>,
    hue: Hue,
    percent: Seq<char>,
) -> Seq<SpanView> {
    let email = cut(a.email@, 32, 29, "..."@);
    seq![
        piece(
            if selected {
                "> "@
            } else {
                "  "@
            },
            plain(Hue::Plain),
        ),
        account_sign(a),
        piece(" "@, plain(Hue::Plain)),
        piece(email, email_tone(a.is_active, hovered)),
        piece(run(' ', minus(32, byte_len(email) as int) as nat), plain(Hue::Plain)),
        piece(" "@, plain(Hue::Plain)),
        tier_badge(opt(a.subscription_tier)),
        piece(" "@, plain(Hue::Plain)),
        piece(bar, plain(hue)),
        piece(" "@ + percent + "%"@, plain(Hue::Dim)),
    ]
}

/// Adds the sign before an account.
fn put_sign(line: &mut Vec<Span>, a: &AccountInfo)
    ensures
        line_view(final(line)@) == line_view(old(line)@).push(account_sign(*a)),
{
    if a.is_invalid {
        put_str(line, "\u{2717}", tone(Hue::Error));
    } else if a.enabled && a.is_active {
        put_str(line, "\u{25cf}", tone(Hue::Success));
    } else {
        put_str(line, "\u{25cb}", tone(Hue::Dim));
    }
}

/// Adds the badge of an account's tier.
fn put_tier(line: &mut Vec<Span>, tier: &Option<String>)
    ensures
        line_view(final(line)@) == line_view(old(line)@).push(tier_badge(opt(*tier))),
{
    let t = match tier {
        Some(t) => to_lower(t),
        None => to_lower("free"),
    };
    if same(&t, "ultra") {
        put(line, pad_right("ULTRA", 5), bold_tone(Hue::Magenta));
    } else if same(&t, "pro") {
        put(line, pad_right("PRO", 5), bold_tone(Hue::Cyan));
    } else {
        put(line, pad_right("FREE", 5), tone(Hue::DarkGray));
    }
}

/// The line of an account. An email that is cut has to be cut between two characters.
pub fn account_spans(
    a: &AccountInfo,
    selected: bool,
    hovered: bool,
    bar: &str,
    hue: Hue,
    percent: &str,
) -> (r: Vec<Span>)
    requires
        byte_len(a.email@) > 32 ==> head_is_whole(a.email@, 29),
    ensures
        line_view(r@) == account_line(*a, selected, hovered, bar@, hue, percent@),
{
    let mut r = no_spans();
    put_str(
        &mut r,
        if selected {
            "> "
        } else {
            "  "
        },
        tone(Hue::Plain),
    );
    put_sign(&mut r, a);
    put_str(&mut r, " ", tone(Hue::Plain));
    let email = truncate_email(&a.email, 32);
    let n = len_bytes(&email);
    let pad: usize = if n <= 32 {
        32 - n
    } else {
        0
    };
    let look = Tone {
        hue: if a.is_active {
            Hue::Primary
        } else {
            Hue::Text
        },
        bold: false,
        underlined: hovered,
        marked: false,
    };
    put(&mut r, email, look);
    put(&mut r, run_of(' ', pad), tone(Hue::Plain));
    put_str(&mut r, " ", tone(Hue::Plain));
    put_tier(&mut r, &a.subscription_tier);
    put_str(&mut r, " ", tone(Hue::Plain));
    put_str(&mut r, bar, tone(hue));
    let mut p = " ".to_owned();
    p.push_str(percent);
    p.push_str("%");
    put(&mut r, p, tone(Hue::Dim));
    assert(line_view(r@) =~= account_line(*a, selected, hovered, bar@, hue, percent@));
    r
}

/// How the value of a setting is shown: free text that is no number in quotes. Whether it is
/// a number is handed in.
pub open spec fn shown_value(f: FieldView, is_number: bool) -> Seq<char> {
    if f.kind is Text && !is_number {
        "\""@ + f.value + "\""@
    } else {
        f.value
    }
}

/// How the value of a setting is shown.
pub fn format_value(field: &ConfigField, is_number: bool) -> (r: String)
    ensures
        r@ == shown_value(field@, is_number),
{
    match &field.field_type {
        FieldType::Text => {
            if is_number {
                field.value.clone()
            } else {
                let mut r = "\"".to_owned();
                r.push_str(&field.value);
                r.push_str("\"");
                r
            }
        },
        _ => field.value.clone(),
    }
}

/// The look of the value of a setting.
pub open spec fn value_hue(f: FieldView) -> Hue {
    if f.kind is Bool {
        if f.value == "true"@ {
            Hue::Success
        } else {
            Hue::Dim
        }
    } else if f.kind is Enum {
        Hue::Primary
    } else {
        Hue::Success
    }
}

/// The line of a setting: its key, its value or what is typed, and signs for what can be
/// cycled and what was changed.
pub open spec fn field_line(
    f: FieldView,
    selected: bool,
    hovered: bool,
    typed: Option<Seq<char>>,
    is_number: bool,
) -> Seq<SpanView> {
    seq![
        piece("  "@, plain(Hue::Plain)),
        piece(
            if selected {
                "> "@
            } else {
                "  "@
            },
            plain(
                if selected {
                    Hue::Primary
                } else {
                    Hue::Dim
                },
            ),
        ),
        piece(
            f.key,
            Tone {
                hue: Hue::Text,
                bold: selected,
                underlined: !selected && hovered,
                marked: false,
            },
        ),
        piece(run(' ', minus(24, byte_len(f.key) as int) as nat), plain(Hue::Plain)),
        piece(
            match typed {
                Some(t) => t + "\u{2588}"@,
                None => shown_value(f, is_number),
            },
            plain(value_hue(f)),
        ),
    ] + (if selected && typed is None && f.kind is Enum {
        seq![piece("  \u{25c0} \u{25b6}"@, plain(Hue::Dim))]
    } else {
        Seq::empty()
    }) + (if f.value != f.original {
        seq![piece(" [*]"@, plain(Hue::Warning))]
    } else {
        Seq::empty()
    })
}

/// What is typed into a setting, where it is the one that is edited.
pub open spec fn typed_into(pane: ConfigPane, i: int) -> Option<Seq<char>> {
    if pane.editing && i == pane.selected {
        Some(pane.edit_buffer@)
    } else {
        None
    }
}

/// The line of a setting.
fn field_spans(
    field: &ConfigField,
    selected: bool,
    hovered: bool,
    typed: Option<&String>,
    is_number: bool,
) -> (r: Vec<Span>)
    ensures
        line_view(r@) == field_line(
            field@,
            selected,
            hovered,
            match typed {
                Some(t) => Some(t@),
                None => None,
            },
            is_number,
        ),
{
    let ghost said = match typed {
        Some(t) => Some(t@),
        None => None,
    };
    let mut r = no_spans();
    put_str(&mut r, "  ", tone(Hue::Plain));
    put_str(
        &mut r,
        if selected {
            "> "
        } else {
            "  "
        },
        tone(
            if selected {
                Hue::Primary
            } else {
                Hue::Dim
            },
        ),
    );
    put_str(
        &mut r,
        field.key,
        Tone { hue: Hue::Text, bold: selected, underlined: !selected && hovered, marked: false },
    );
    let n = len_bytes(field.key);
    let pad: usize = if n <= 24 {
        24 - n
    } else {
        0
    };
    put(&mut r, run_of(' ', pad), tone(Hue::Plain));
    let value = match typed {
        Some(t) => {
            let mut v = t.clone();
            v.push_str("\u{2588}");
            v
        },
        None => format_value(field, is_number),
    };
    let (is_bool, is_enum) = match &field.field_type {
        FieldType::Bool => (true, false),
        FieldType::Enum(_) => (false, true),
        _ => (false, false),
    };
    let hue = if is_bool {
        if same(&field.value, "true") {
            Hue::Success
        } else {
            Hue::Dim
        }
    } else if is_enum {
        Hue::Primary
    } else {
        Hue::Success
    };
    put(&mut r, value, tone(hue));
    if selected && typed.is_none() && is_enum {
        put_str(&mut r, "  \u{25c0} \u{25b6}", tone(Hue::Dim));
    }
    if field.is_modified() {
        put_str(&mut r, " [*]", tone(Hue::Warning));
    }
    assert(line_view(r@) =~= field_line(field@, selected, hovered, said, is_number));
    r
}

/// The lines before a setting that begins a section: a blank one but before the first, and
/// the section's name.
pub open spec fn section_head(was: Seq<char>, section: Seq<char>) -> Seq<Seq<SpanView>> {
    let name = seq![piece("["@ + section + "]"@, plain(Hue::Primary))];
    if section == was {
        Seq::empty()
    } else if was.len() > 0 {
        seq![Seq::empty(), name]
    } else {
        seq![name]
    }
}

/// The lines of the first `n` settings.
pub open spec fn setting_lines(
    pane: ConfigPane,
    hovered: Option<usize>,
    numbers: Seq<bool>,
    n: int,
) -> Seq<Seq<SpanView>>
    decreases n,
{
    if n <= 0 {
        Seq::empty()
    } else {
        let i = n - 1;
        setting_lines(pane, hovered, numbers, i) + section_head(
            section_before(pane.shown(), i),
            pane.shown()[i].section,
        ) + seq![
            field_line(
                pane.shown()[i],
                i == pane.selected,
                hovered == Some(i as usize),
                typed_into(pane, i),
                numbers[i],
            ),
        ]
    }
}

/// What is said below the settings: why an edit was not taken, that a restart is due, or that
/// something was changed.
pub open spec fn settings_note(pane: ConfigPane) -> Seq<Seq<SpanView>> {
    match pane.error {
        Some(e) => seq![seq![piece("  Error: "@ + e@, plain(Hue::Error))]],
        None => if pane.needs_restart {
            seq![
                seq![piece("  Config saved. Press 'r' to restart daemon."@, plain(Hue::Success))],
            ]
        } else if is_changed(pane.shown()) {
            seq![seq![piece("  Unsaved changes. Press 's' to save."@, plain(Hue::Warning))]]
        } else {
            Seq::empty()
        },
    }
}

/// The lines of the settings.
pub open spec fn settings_lines(
    pane: ConfigPane,
    hovered: Option<usize>,
    numbers: Seq<bool>,
) -> Seq<Seq<SpanView>> {
    setting_lines(pane, hovered, numbers, pane.fields@.len() as int) + seq![Seq::<SpanView>::empty()]
        + settings_note(pane)
}

/// Adds the lines before a setting that begins a section.
fn put_head(lines: &mut Vec<Vec<Span>>, was: &str, section: &str)
    ensures
        lines_view(final(lines)@) == lines_view(old(lines)@) + section_head(was@, section@),
{
    let ghost before = lines_view(lines@);
    if !same(section, was) {
        if !was.is_empty() {
            put_line(lines, no_spans());
        }
        let mut name = "[".to_owned();
        name.push_str(section);
        name.push_str("]");
        put_line(lines, one_span(name, tone(Hue::Primary)));
    }
    assert(lines_view(lines@) =~= before + section_head(was@, section@));
}

/// What is said below the settings.
fn note_text(pane: &ConfigPane) -> (r: Vec<Vec<Span>>)
    ensures
        lines_view(r@) == settings_note(*pane),
{
    let mut r: Vec<Vec<Span>> = Vec::new();
    match &pane.error {
        Some(e) => {
            let mut t = "  Error: ".to_owned();
            t.push_str(e);
            put_line(&mut r, one_span(t, tone(Hue::Error)));
        },
        None => {
            if pane.needs_restart {
                put_line(
                    &mut r,
                    one_span(
                        "  Config saved. Press 'r' to restart daemon.".to_owned(),
                        tone(Hue::Success),
                    ),
                );
            } else if pane.has_changes() {
                put_line(
                    &mut r,
                    one_span(
                        "  Unsaved changes. Press 's' to save.".to_owned(),
                        tone(Hue::Warning),
                    ),
                );
            }
        },
    }
    assert(lines_view(r@) =~= settings_note(*pane));
    r
}

/// The lines of the settings. Which values are numbers is handed in.
pub fn config_lines(pane: &ConfigPane, hovered: Option<usize>, numbers: &Vec<bool>) -> (r: Vec<
    Vec<Span>,
>)
    requires
        numbers@.len() == pane.fields@.len(),
    ensures
        lines_view(r@) == settings_lines(*pane, hovered, numbers@),
{
    let ghost f = pane.shown();
    let mut r: Vec<Vec<Span>> = Vec::new();
    let n: usize = pane.fields.len();
    let mut was: &str = "";
    let mut i: usize = 0;
    assert(lines_view(r@) =~= setting_lines(*pane, hovered, numbers@, 0));
    while i < n
        invariant
            i <= n == pane.fields@.len() == numbers@.len(),
            f == pane.shown(),
            was@ == section_before(f, i as int),
            lines_view(r@) == setting_lines(*pane, hovered, numbers@, i as int),
        decreases n - i,
    {
        let field = &pane.fields[i];
        assert(f[i as int] == pane.fields@[i as int]@);
        let ghost before = lines_view(r@);
        put_head(&mut r, was, field.section);
        let selected = i == pane.selected;
        let over = match hovered {
            Some(k) => k == i,
            None => false,
        };
        let typed = if pane.editing && selected {
            Some(&pane.edit_buffer)
        } else {
            None
        };
        let line = field_spans(field, selected, over, typed, numbers[i]);
        let ghost said = line_view(line@);
        let ghost with_head = lines_view(r@);
        put_line(&mut r, line);
        assert(lines_view(r@) =~= with_head + seq![said]);
        assert(lines_view(r@) == setting_lines(*pane, hovered, numbers@, i + 1));
        was = field.section;
        i = i + 1;
    }
    let ghost before = lines_view(r@);
    put_line(&mut r, no_spans());
    assert(lines_view(r@) =~= before + seq![Seq::<SpanView>::empty()]);
    append_lines(&mut r, note_text(pane));
    r
}

proof fn lemma_setting_rows(
    pane: ConfigPane,
    hovered: Option<usize>,
    numbers: Seq<bool>,
    n: int,
)
    requires
        0 < n,
    ensures
        setting_lines(pane, hovered, numbers, n).len() == field_row(pane.shown(), n - 1) + 1,
    decreases n,
{
    reveal_strlit("");
    assert(""@.len() == 0);
    let i = n - 1;
    let f = pane.shown();
    let before = setting_lines(pane, hovered, numbers, i);
    let head = section_head(section_before(f, i), f[i].section);
    if n > 1 {
        lemma_setting_rows(pane, hovered, numbers, i);
        assert(before.len() == field_row(f, i - 1) + 1);
    } else {
        assert(before.len() == 0);
    }
    assert(setting_lines(pane, hovered, numbers, n).len() == before.len() + head.len() + 1);
}

proof fn lemma_setting_prefix(
    pane: ConfigPane,
    hovered: Option<usize>,
    numbers: Seq<bool>,
    i: int,
    n: int,
)
    requires
        0 <= i < n,
    ensures
        field_row(pane.shown(), i) < setting_lines(pane, hovered, numbers, n).len(),
        setting_lines(pane, hovered, numbers, n)[field_row(pane.shown(), i)] == field_line(
            pane.shown()[i],
            i == pane.selected,
            hovered == Some(i as usize),
            typed_into(pane, i),
            numbers[i],
        ),
    decreases n,
{
    lemma_setting_rows(pane, hovered, numbers, n);
    let all = setting_lines(pane, hovered, numbers, n);
    let before = setting_lines(pane, hovered, numbers, n - 1);
    if i < n - 1 {
        lemma_setting_rows(pane, hovered, numbers, n - 1);
        lemma_setting_prefix(pane, hovered, numbers, i, n - 1);
        let row = field_row(pane.shown(), i);
        lemma_row_not_negative(pane.shown(), i);
        assert(all[row] == before[row]);
    } else {
        assert(all[all.len() - 1] == field_line(
            pane.shown()[i],
            i == pane.selected,
            hovered == Some(i as usize),
            typed_into(pane, i),
            numbers[i],
        ));
    }
}

proof fn lemma_row_not_negative(f: Seq<FieldView>, i: int)
    requires
        0 <= i,
    ensures
        0 <= field_row(f, i),
    decreases i,
{
    if i > 0 {
        lemma_row_not_negative(f, i - 1);
    }
}

/// A setting is where it is clicked: the row in which it is drawn is the one in which the
/// mouse is taken to be on it.
pub proof fn settings_are_where_they_are_clicked(
    pane: ConfigPane,
    hovered: Option<usize>,
    numbers: Seq<bool>,
    i: int,
)
    requires
        0 <= i < pane.fields@.len(),
    ensures
        ({
            let lines = settings_lines(pane, hovered, numbers);
            let row = field_row(pane.shown(), i);
            &&& row < lines.len()
            &&& lines[row] == field_line(
                pane.shown()[i],
                i == pane.selected,
                hovered == Some(i as usize),
                typed_into(pane, i),
                numbers[i],
            )
        }),
{
    lemma_row_not_negative(pane.shown(), i);
    lemma_setting_prefix(pane, hovered, numbers, i, pane.fields@.len() as int);
}

/// An account is shown with its sign, its email, its tier, its bar and its percentage; an email
/// that is not too long is shown whole.
pub proof fn an_account_is_shown_whole(
    a: AccountInfo,
    selected: bool,
    hovered: bool,
    bar: Seq<char>,
    hue: Hue,
    percent: Seq<char>,
)
    ensures
        ({
            let line = account_line(a, selected, hovered, bar, hue, percent);
            &&& line.len() == 10
            &&& line[0].text[0] == (if selected {
                '>'
            } else {
                ' '
            })
            &&& byte_len(a.email@) <= 32 ==> line[3].text == a.email@
            &&& line[3].tone.underlined == hovered
            &&& line[8].text == bar
            &&& line[8].tone.hue == hue
            &&& line[9].text == seq![' '] + percent + seq!['%']
            &&& line[1].tone.hue == Hue::Error <==> a.is_invalid
            &&& line[1].tone.hue == Hue::Success <==> !a.is_invalid && a.enabled && a.is_active
        }),
{
    reveal_strlit("> ");
    reveal_strlit("  ");
    reveal_strlit(" ");
    reveal_strlit("%");
}

/// The tiers are told apart whatever the case of their letters, and an unknown one is free.
pub proof fn tiers_are_told_apart(tier: Seq<char>)
    ensures
        tier_badge(Some(tier)) == tier_badge(Some(lower_text(tier))) || lower_text(
            lower_text(tier),
        ) != lower_text(tier),
        lower_text(tier) == "ultra"@ ==> tier_badge(Some(tier)).text == "ULTRA"@,
        lower_text(tier) == "pro"@ ==> tier_badge(Some(tier)).text == "PRO  "@,
        lower_text(tier) != "ultra"@ && lower_text(tier) != "pro"@ ==> tier_badge(Some(tier)).text
            == "FREE "@,
{
    reveal_strlit("ULTRA");
    reveal_strlit("ultra");
    reveal_strlit("pro");
    reveal_strlit("PRO");
    reveal_strlit("FREE");
    reveal_strlit("PRO  ");
    reveal_strlit("FREE ");
    assert("ultra"@.len() != "pro"@.len());
    assert(padded("ULTRA"@, 5) =~= "ULTRA"@);
    assert("PRO"@.push(' ').push(' ') =~= "PRO  "@);
    assert(padded("PRO"@, 5) == padded("PRO"@.push(' '), 5));
    assert(padded("PRO"@.push(' '), 5) == padded("PRO"@.push(' ').push(' '), 5));
    assert("FREE"@.push(' ') =~= "FREE "@);
    assert(padded("FREE"@, 5) == padded("FREE"@.push(' '), 5));
}

/// A setting is shown with its key and with what is typed into it, or else its value, a text
/// between quotation marks; one that was changed is marked, and so is one that is selected.
pub proof fn a_setting_is_shown_whole(
    f: FieldView,
    selected: bool,
    hovered: bool,
    typed: Seq<char>,
    is_number: bool,
)
    ensures
        ({
            let typing = field_line(f, selected, hovered, Some(typed), is_number);
            let still = field_line(f, selected, hovered, None, is_number);
            &&& typing[2].text == f.key
            &&& still[2].text == f.key
            &&& typing[4].text.len() == typed.len() + 1
            &&& typing[4].text.take(typed.len() as int) == typed
            &&& f.kind is Text && !is_number ==> still[4].text == seq!['"'] + f.value + seq!['"']
            &&& !(f.kind is Text) || is_number ==> still[4].text == f.value
            &&& still.last().text == " [*]"@ <==> f.value != f.original || still[4].text == " [*]"@
                && still.len() == 5
            &&& typing.len() == (if f.value != f.original {
                6nat
            } else {
                5nat
            })
            &&& still[1].text[0] == (if selected {
                '>'
            } else {
                ' '
            })
        }),
{
    reveal_strlit("> ");
    reveal_strlit("  ");
    reveal_strlit("\"");
    reveal_strlit(" [*]");
    reveal_strlit("\u{2588}");
    reveal_strlit("  \u{25c0} \u{25b6}");
    let typing = field_line(f, selected, hovered, Some(typed), is_number);
    assert(typing[4].text.take(typed.len() as int) =~= typed);
    let still = field_line(f, selected, hovered, None, is_number);
    assert("  \u{25c0} \u{25b6}"@.len() == 5);
    assert(" [*]"@.len() == 4);
}

/// The note below the settings tells of a fault before all else, then of a restart that is
/// needed, then of what is not saved.
pub proof fn the_note_tells_the_gravest(pane: ConfigPane)
    ensures
        pane.error matches Some(e) ==> settings_note(pane).len() == 1
            && settings_note(pane)[0][0].text == "  Error: "@ + e@,
        pane.error is None && pane.needs_restart ==> settings_note(pane)[0][0].tone.hue
            == Hue::Success,
        pane.error is None && !pane.needs_restart ==> (settings_note(pane).len() == 1
            <==> is_changed(pane.shown())),
{
}

} // verus!
