//! The list of model mappings.

use vstd::prelude::*;

use crate::log_pane::minus;
use crate::spans::{
    bold, bold_tone, line_view, lines_view, no_spans, one_span, piece, plain, put, put_line,
    put_str, run, run_of, tone, underlined, underlined_tone, Hue, Span, SpanView, Tone,
};
use crate::tabs::Area;
use crate::text::{
    byte_len, decimal, decimal_text, head_bytes, head_is_whole, head_of, len_bytes, starts,
    starts_with,
};

verus! {

/// A rule: what is asked for, and what is served.
#[derive(Debug, Clone, PartialEq)]
pub struct MappingRule {
    pub from: String,
    pub to: String,
}

/// The mappings as they are shown and edited.
pub struct MappingsPane {
    pub preset_label: String,
    pub preset_description: String,
    pub background_model: String,
    pub rules: Vec<MappingRule>,
    pub selected: usize,
    pub hovered: Option<usize>,
    pub editing_from: bool,
    pub edit_buffer: String,
    pub status: Option<String>,
    pub dirty: bool,
}

/// What is above the rules: the preset, the model for background tasks and how many rules
/// there are.
pub open spec fn head_lines(p: MappingsPane, width: int) -> Seq<Seq<SpanView>> {
    seq![
        seq![
            piece(" Preset: "@, plain(Hue::Dim)),
            piece(p.preset_label@, bold(Hue::Primary)),
            piece("  (p)"@, plain(Hue::DarkGray)),
            piece("  "@, plain(Hue::Dim)),
            piece(p.preset_description@, plain(Hue::DarkGray)),
        ],
        seq![
            piece(" Background: "@, plain(Hue::Dim)),
            piece(p.background_model@, bold(Hue::Primary)),
            piece("  (b)"@, plain(Hue::DarkGray)),
            piece("  Model for CLI background tasks"@, plain(Hue::DarkGray)),
        ],
        Seq::empty(),
        seq![
            piece(
                " Rules ("@ + decimal(p.rules@.len()) + " mapping"@ + (if p.rules@.len() == 1 {
                    ""@
                } else {
                    "s"@
                }) + ")"@,
                bold(Hue::Text),
            ),
        ],
        seq![piece(" "@ + run('\u{2500}', minus(width, 2) as nat), plain(Hue::Dim))],
    ]
}

/// The line of the preset.
fn preset_line(p: &MappingsPane) -> (r: Vec<Span>)
    ensures
        line_view(r@) == head_lines(*p, 0)[0],
{
    let mut r = no_spans();
    put_str(&mut r, " Preset: ", tone(Hue::Dim));
    put_str(&mut r, &p.preset_label, bold_tone(Hue::Primary));
    put_str(&mut r, "  (p)", tone(Hue::DarkGray));
    put_str(&mut r, "  ", tone(Hue::Dim));
    put_str(&mut r, &p.preset_description, tone(Hue::DarkGray));
    assert(line_view(r@) =~= head_lines(*p, 0)[0]);
    r
}

/// The line of the model for background tasks.
fn background_line(p: &MappingsPane) -> (r: Vec<Span>)
    ensures
        line_view(r@) == head_lines(*p, 0)[1],
{
    let mut r = no_spans();
    put_str(&mut r, " Background: ", tone(Hue::Dim));
    put_str(&mut r, &p.background_model, bold_tone(Hue::Primary));
    put_str(&mut r, "  (b)", tone(Hue::DarkGray));
    put_str(&mut r, "  Model for CLI background tasks", tone(Hue::DarkGray));
    assert(line_view(r@) =~= head_lines(*p, 0)[1]);
    r
}

/// What is above the rules.
fn head_text(p: &MappingsPane, width: usize) -> (r: Vec<Vec<Span>>)
    ensures
        lines_view(r@) == head_lines(*p, width as int),
{
    let mut r: Vec<Vec<Span>> = Vec::new();
    put_line(&mut r, preset_line(p));
    put_line(&mut r, background_line(p));
    put_line(&mut r, no_spans());
    let mut count = " Rules (".to_owned();
    let n = decimal_text(p.rules.len() as u64);
    count.push_str(&n);
    count.push_str(" mapping");
    count.push_str(
        if p.rules.len() == 1 {
            ""
        } else {
            "s"
        },
    );
    count.push_str(")");
    put_line(&mut r, one_span(count, bold_tone(Hue::Text)));
    let mut rule = " ".to_owned();
    let dashes = run_of(
        '\u{2500}',
        if width >= 2 {
            width - 2
        } else {
            0
        },
    );
    rule.push_str(&dashes);
    put_line(&mut r, one_span(rule, tone(Hue::Dim)));
    assert(lines_view(r@) =~= head_lines(*p, width as int));
    r
}

/// The longest of what is asked for, in bytes.
pub open spec fn longest_from(rules: Seq<MappingRule>) -> nat
    decreases rules.len(),
{
    if rules.len() == 0 {
        0
    } else {
        let before = longest_from(rules.drop_last());
        let n = byte_len(rules.last().from@);
        if n > before {
            n
        } else {
            before
        }
    }
}

/// How wide the column of what is asked for is: as wide as the longest, from ten to thirty.
pub open spec fn from_width(rules: Seq<MappingRule>) -> int {
    let n = longest_from(rules);
    if n < 10 {
        10
    } else if n > 30 {
        30
    } else {
        n as int
    }
}

/// How wide the column of what is asked for is.
fn find_from_width(rules: &Vec<MappingRule>) -> (r: usize)
    ensures
        r == from_width(rules@),
{
    let mut n: usize = 0;
    let mut i: usize = 0;
    assert(rules@.take(0) =~= Seq::empty());
    while i < rules.len()
        invariant
            i <= rules@.len(),
            n == longest_from(rules@.take(i as int)),
        decreases rules@.len() - i,
    {
        assert(rules@.take(i + 1).drop_last() =~= rules@.take(i as int));
        let k = len_bytes(&rules[i].from);
        if k > n {
            n = k;
        }
        i = i + 1;
    }
    assert(rules@.take(rules@.len() as int) =~= rules@);
    if n < 10 {
        10
    } else if n > 30 {
        30
    } else {
        n
    }
}

/// What is asked for, as it is shown: what is typed while the rule is edited.
pub open spec fn from_text(p: MappingsPane, i: int) -> Seq<char> {
    if p.editing_from && i == p.selected {
        p.edit_buffer@ + "\u{2588}"@
    } else {
        p.rules@[i].from@
    }
}

/// A text cut to a column of a width and one.
pub open spec fn in_column(s: Seq<char>, width: int) -> Seq<char> {
    if byte_len(s) > width + 1 {
        head_bytes(s, minus(width, 3) as nat) + "..."@
    } else {
        s
    }
}

/// The look of what is asked for.
pub open spec fn from_tone(edited: bool, selected: bool, hovered: bool) -> Tone {
    if edited {
        underlined(Hue::Text)
    } else if selected {
        bold(Hue::Primary)
    } else if hovered {
        underlined(Hue::Text)
    } else {
        plain(Hue::Text)
    }
}

/// The line of a rule.
pub open spec fn rule_line(p: MappingsPane, i: int) -> Seq<SpanView> {
    let width = from_width(p.rules@);
    let selected = i == p.selected;
    let hovered = p.hovered == Some(i as usize);
    let from = in_column(from_text(p, i), width);
    seq![
        piece(" "@, plain(Hue::Plain)),
        piece(
            if selected {
                "\u{25b8} "@
            } else {
                "  "@
            },
            plain(
                if selected {
                    Hue::Primary
                } else {
                    Hue::Dim
                },
            ),
        ),
        piece(from, from_tone(p.editing_from && selected, selected, hovered)),
        piece(run(' ', minus(width + 1, byte_len(from) as int) as nat), plain(Hue::Plain)),
        piece(" \u{2192} "@, plain(Hue::Dim)),
        piece(p.rules@[i].to@, from_tone(false, selected, hovered)),
    ]
}

/// Whether the line of a rule can be drawn: what is cut has to be cut between two characters.
pub open spec fn rule_fits(p: MappingsPane, i: int) -> bool {
    let width = from_width(p.rules@);
    byte_len(from_text(p, i)) > width + 1 ==> head_is_whole(
        from_text(p, i),
        minus(width, 3) as nat,
    )
}

/// The look of what is asked for.
fn from_look(edited: bool, selected: bool, hovered: bool) -> (r: Tone)
    ensures
        r == from_tone(edited, selected, hovered),
{
    if edited {
        underlined_tone(Hue::Text)
    } else if selected {
        bold_tone(Hue::Primary)
    } else if hovered {
        underlined_tone(Hue::Text)
    } else {
        tone(Hue::Text)
    }
}

/// The line of a rule.
fn rule_spans(p: &MappingsPane, i: usize, width: usize) -> (r: Vec<Span>)
    requires
        i < p.rules@.len(),
        width == from_width(p.rules@),
        rule_fits(*p, i as int),
    ensures
        line_view(r@) == rule_line(*p, i as int),
{
    let selected = i == p.selected;
    let hovered = match p.hovered {
        Some(k) => k == i,
        None => false,
    };
    let edited = p.editing_from && selected;
    let shown = if edited {
        let mut t = p.edit_buffer.clone();
        t.push_str("\u{2588}");
        t
    } else {
        p.rules[i].from.clone()
    };
    let from = if len_bytes(&shown) > width + 1 {
        let mut t = head_of(&shown, width - 3);
        t.push_str("...");
        t
    } else {
        shown
    };
    let n = len_bytes(&from);
    let pad: usize = if n <= width + 1 {
        width + 1 - n
    } else {
        0
    };
    let mut r = no_spans();
    put_str(&mut r, " ", tone(Hue::Plain));
    put_str(
        &mut r,
        if selected {
            "\u{25b8} "
        } else {
            "  "
        },
        tone(
            if selected {
                Hue::Primary
            } else {
                Hue::Dim
            },
        ),
    );
    put(&mut r, from, from_look(edited, selected, hovered));
    put(&mut r, run_of(' ', pad), tone(Hue::Plain));
    put_str(&mut r, " \u{2192} ", tone(Hue::Dim));
    put_str(&mut r, &p.rules[i].to, from_look(false, selected, hovered));
    assert(line_view(r@) =~= rule_line(*p, i as int));
    r
}

/// The lines of the rules, or what is said where there are none.
pub open spec fn rules_lines(p: MappingsPane) -> Seq<Seq<SpanView>> {
    if p.rules@.len() == 0 {
        seq![
            seq![
                piece(
                    "   No mapping rules. Press 'a' to add one, or 'p' to select a preset."@,
                    plain(Hue::Dim),
                ),
            ],
        ]
    } else {
        Seq::new(p.rules@.len(), |i: int| rule_line(p, i))
    }
}

/// What is said below the rules: what was done, or that something was changed.
pub open spec fn foot_lines(p: MappingsPane) -> Seq<Seq<SpanView>> {
    match p.status {
        Some(s) => seq![
            Seq::empty(),
            seq![
                piece(
                    " "@ + s@,
                    plain(
                        if starts(s@, "Error"@) {
                            Hue::Error
                        } else {
                            Hue::Success
                        },
                    ),
                ),
            ],
        ],
        None => if p.dirty {
            seq![
                Seq::empty(),
                seq![piece(" Unsaved changes (s to save)"@, plain(Hue::Warning))],
            ]
        } else {
            Seq::empty()
        },
    }
}

/// What is said below the rules.
fn put_foot(lines: &mut Vec<Vec<Span>>, p: &MappingsPane)
    ensures
        lines_view(final(lines)@) == lines_view(old(lines)@) + foot_lines(*p),
{
    let ghost before = lines_view(lines@);
    match &p.status {
        Some(s) => {
            put_line(lines, no_spans());
            let mut t = " ".to_owned();
            t.push_str(s);
            let hue = if starts_with(s, "Error") {
                Hue::Error
            } else {
                Hue::Success
            };
            put_line(lines, one_span(t, tone(hue)));
        },
        None => {
            if p.dirty {
                put_line(lines, no_spans());
                put_line(
                    lines,
                    one_span(" Unsaved changes (s to save)".to_owned(), tone(Hue::Warning)),
                );
            }
        },
    }
    assert(lines_view(lines@) =~= before + foot_lines(*p));
}

/// The lines of the mappings.
pub open spec fn mappings_lines(p: MappingsPane, width: int) -> Seq<Seq<SpanView>> {
    head_lines(p, width) + rules_lines(p) + foot_lines(p)
}

/// Where the rules are clicked: below the five lines above them.
pub open spec fn rules_area(inner: Area) -> Area {
    Area {
        x: inner.x,
        y: (inner.y + 5) as u16,
        width: inner.width,
        height: minus(inner.height as int, 5) as u16,
    }
}

/// The lines of the mappings and where the rules are clicked; nothing where there is no room.
pub fn mappings_page(p: &MappingsPane, inner: Area) -> (r: Option<(Vec<Vec<Span>>, Area)>)
    requires
        inner.y + 5 <= u16::MAX,
        forall|i: int| 0 <= i < p.rules@.len() ==> #[trigger] rule_fits(*p, i),
    ensures
        match r {
            Some((lines, area)) => inner.height >= 3 && lines_view(lines@) == mappings_lines(
                *p,
                inner.width as int,
            ) && area == rules_area(inner),
            None => inner.height < 3,
        },
{
    if inner.height < 3 {
        return None;
    }
    let mut r = head_text(p, inner.width as usize);
    let ghost head = lines_view(r@);
    let n: usize = p.rules.len();
    if n == 0 {
        put_line(
            &mut r,
            one_span(
                "   No mapping rules. Press 'a' to add one, or 'p' to select a preset.".to_owned(),
                tone(Hue::Dim),
            ),
        );
        assert(lines_view(r@) =~= head + rules_lines(*p));
    } else {
        let width = find_from_width(&p.rules);
        let mut i: usize = 0;
        assert(lines_view(r@) =~= head + Seq::new(0, |k: int| rule_line(*p, k)));
        while i < n
            invariant
                i <= n == p.rules@.len(),
                width == from_width(p.rules@),
                forall|k: int| 0 <= k < p.rules@.len() ==> #[trigger] rule_fits(*p, k),
                lines_view(r@) == head + Seq::new(i as nat, |k: int| rule_line(*p, k)),
            decreases n - i,
        {
            assert(rule_fits(*p, i as int));
            put_line(&mut r, rule_spans(p, i, width));
            i = i + 1;
            assert(lines_view(r@) =~= head + Seq::new(i as nat, |k: int| rule_line(*p, k)));
        }
        assert(lines_view(r@) =~= head + rules_lines(*p));
    }
    put_foot(&mut r, p);
    let area = Area {
        x: inner.x,
        y: inner.y + 5,
        width: inner.width,
        height: if inner.height >= 5 {
            inner.height - 5
        } else {
            0
        },
    };
    Some((r, area))
}

/// A rule is where it is clicked: as far below the top of the rules' area as its place in the
/// list.
pub proof fn rules_are_where_they_are_clicked(p: MappingsPane, inner: Area, i: int)
    requires
        0 <= i < p.rules@.len(),
        inner.y + 5 <= u16::MAX,
    ensures
        mappings_lines(p, inner.width as int)[rules_area(inner).y - inner.y + i] == rule_line(p, i),
{
}

/// The number of rules, the preset and the model for background tasks stand above the rules, and
/// every rule is shown in order, with what it leads to; a pattern that is typed is shown as it is
/// typed.
pub proof fn every_rule_is_shown(p: MappingsPane, width: int, i: int)
    requires
        0 <= i < p.rules@.len(),
    ensures
        mappings_lines(p, width).len() >= 5 + p.rules@.len(),
        mappings_lines(p, width)[0][1].text == p.preset_label@,
        mappings_lines(p, width)[1][1].text == p.background_model@,
        p.rules@.len() != 1 ==> mappings_lines(p, width)[3][0].text == " Rules ("@ + decimal(
            p.rules@.len(),
        ) + " mappings)"@,
        mappings_lines(p, width)[5 + i][5].text == p.rules@[i].to@,
        !(p.editing_from && i == p.selected) && byte_len(p.rules@[i].from@) <= 31 && (
        byte_len(p.rules@[i].from@) <= 11 || byte_len(p.rules@[i].from@) <= longest_from(p.rules@))
            ==> mappings_lines(p, width)[5 + i][2].text == p.rules@[i].from@,
        p.editing_from && i == p.selected && byte_len(p.edit_buffer@.push('\u{2588}')) <= 11
            ==> mappings_lines(p, width)[5 + i][2].text == p.edit_buffer@.push('\u{2588}'),
        mappings_lines(p, width)[5 + i][1].tone.hue == Hue::Primary <==> i == p.selected,
{
    reveal_strlit(" mapping");
    reveal_strlit("s");
    reveal_strlit(")");
    reveal_strlit(" mappings)");
    reveal_strlit("\u{2588}");
    let n = decimal(p.rules@.len());
    assert(" Rules ("@ + n + " mapping"@ + "s"@ + ")"@ =~= " Rules ("@ + n + " mappings)"@);
    let l = mappings_lines(p, width)[5 + i];
    assert(l == rule_line(p, i));
    if p.editing_from && i == p.selected {
        assert(p.edit_buffer@ + "\u{2588}"@ =~= p.edit_buffer@.push('\u{2588}'));
    }
}

/// No pattern is longer than the longest, and the longest is one of them.
pub proof fn the_longest_pattern_is_one(rules: Seq<MappingRule>)
    ensures
        forall|i: int|
            0 <= i < rules.len() ==> byte_len(#[trigger] rules[i].from@) <= longest_from(rules),
        rules.len() > 0 ==> exists|i: int|
            0 <= i < rules.len() && byte_len(#[trigger] rules[i].from@) == longest_from(rules),
    decreases rules.len(),
{
    if rules.len() > 0 {
        let rest = rules.drop_last();
        the_longest_pattern_is_one(rest);
        assert forall|i: int| 0 <= i < rules.len() implies byte_len(#[trigger] rules[i].from@)
            <= longest_from(rules) by {
            if i < rest.len() {
                assert(byte_len(rest[i].from@) <= longest_from(rest));
            }
        }
        if byte_len(rules.last().from@) > longest_from(rest) || rest.len() == 0 {
            assert(byte_len(rules[rules.len() - 1].from@) == longest_from(rules));
        } else {
            let i = choose|i: int|
                0 <= i < rest.len() && byte_len(#[trigger] rest[i].from@) == longest_from(rest);
            assert(byte_len(rules[i].from@) == longest_from(rules));
        }
    }
}

/// Below the rules stands the status, in another color where it is a fault, or else that
/// something is not saved.
pub proof fn the_status_is_told(p: MappingsPane)
    ensures
        p.status matches Some(s) ==> foot_lines(p).len() == 2 && foot_lines(p)[1][0].text == seq![
            ' ',
        ] + s@ && (foot_lines(p)[1][0].tone.hue == Hue::Error <==> starts(s@, "Error"@)),
        p.status is None ==> (foot_lines(p).len() == 2 <==> p.dirty),
{
    reveal_strlit(" ");
}

} // verus!
