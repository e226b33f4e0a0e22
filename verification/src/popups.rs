//! The help and the warnings that stand over the dashboard.

use vstd::prelude::*;

use crate::spans::{
    append_lines, lines_view, no_spans, one_span, piece, plain, put_line, tone, Hue, Span,
    SpanView,
};

verus! {

/// A line with nothing in it.
pub open spec fn blank() -> Seq<Seq<SpanView>> {
    seq![Seq::<SpanView>::empty()]
}

/// What the texts of a list say.
pub open spec fn texts(l: Seq<&'static str>) -> Seq<Seq<char>> {
    Seq::new(l.len(), |i: int| l[i]@)
}

/// The keys of a part of the dashboard, under its name.
pub open spec fn help_section(title: Seq<char>, keys: Seq<Seq<char>>) -> Seq<Seq<SpanView>> {
    seq![seq![piece(title, plain(Hue::Primary))]] + Seq::new(
        keys.len(),
        |i: int| seq![piece(keys[i], plain(Hue::Plain))],
    )
}

/// The keys of a part of the dashboard, under its name.
fn section(title: &str, keys: &[&'static str]) -> (r: Vec<Vec<Span>>)
    ensures
        lines_view(r@) == help_section(title@, texts(keys@)),
{
    let mut r: Vec<Vec<Span>> = Vec::new();
    put_line(&mut r, one_span(title.to_owned(), tone(Hue::Primary)));
    let ghost head = seq![seq![piece(title@, plain(Hue::Primary))]];
    let n: usize = keys.len();
    let mut i: usize = 0;
    assert(lines_view(r@) =~= head + Seq::new(
        0,
        |k: int| seq![piece(texts(keys@)[k], plain(Hue::Plain))],
    ));
    while i < n
        invariant
            i <= n == keys@.len(),
            lines_view(r@) == head + Seq::new(
                i as nat,
                |k: int| seq![piece(texts(keys@)[k], plain(Hue::Plain))],
            ),
        decreases n - i,
    {
        put_line(&mut r, one_span(keys[i].to_owned(), tone(Hue::Plain)));
        i = i + 1;
        assert(lines_view(r@) =~= head + Seq::new(
            i as nat,
            |k: int| seq![piece(texts(keys@)[k], plain(Hue::Plain))],
        ));
    }
    assert(lines_view(r@) =~= help_section(title@, texts(keys@)));
    r
}

/// The left column of the help.
pub open spec fn help_on_the_left() -> Seq<Seq<SpanView>> {
    help_section(
        "Navigation"@,
        seq![
            "  Tab / < >     Switch tabs"@,
            "  1-7           Jump to tab"@,
            "  ^ v / j k     Navigate lists"@,
        ],
    ) + blank() + help_section(
        "Overview Tab"@,
        seq![
            "  s             Start daemon"@,
            "  x             Stop daemon"@,
            "  r             Restart daemon"@,
        ],
    ) + blank() + help_section(
        "Logs Tab"@,
        seq![
            "  /             Search logs"@,
            "  d i w e       Toggle log levels"@,
            "  a             Filter by account"@,
            "  c             Clear filters"@,
        ],
    ) + blank() + help_section(
        "Accounts Tab"@,
        seq![
            "  Enter         Set as active"@,
            "  e             Toggle enabled"@,
            "  /             Search accounts"@,
            "  s             Cycle sort"@,
            "  c             Clear filters"@,
            "  r             Refresh"@,
        ],
    )
}

/// The left column of the help.
pub fn help_left() -> (r: Vec<Vec<Span>>)
    ensures
        lines_view(r@) == help_on_the_left(),
{
    let mut r: Vec<Vec<Span>> = Vec::new();
    let keys = [
        "  Tab / < >     Switch tabs",
        "  1-7           Jump to tab",
        "  ^ v / j k     Navigate lists",
    ];
    assert(texts(keys@) =~= seq!["  Tab / < >     Switch tabs"@, "  1-7           Jump to tab"@, "  ^ v / j k     Navigate lists"@]);
    append_lines(&mut r, section("Navigation", keys.as_slice()));
    put_line(&mut r, no_spans());
    let keys = [
        "  s             Start daemon",
        "  x             Stop daemon",
        "  r             Restart daemon",
    ];
    assert(texts(keys@) =~= seq!["  s             Start daemon"@, "  x             Stop daemon"@, "  r             Restart daemon"@]);
    append_lines(&mut r, section("Overview Tab", keys.as_slice()));
    put_line(&mut r, no_spans());
    let keys = [
        "  /             Search logs",
        "  d i w e       Toggle log levels",
        "  a             Filter by account",
        "  c             Clear filters",
    ];
    assert(texts(keys@) =~= seq!["  /             Search logs"@, "  d i w e       Toggle log levels"@, "  a             Filter by account"@, "  c             Clear filters"@]);
    append_lines(&mut r, section("Logs Tab", keys.as_slice()));
    put_line(&mut r, no_spans());
    let keys = [
        "  Enter         Set as active",
        "  e             Toggle enabled",
        "  /             Search accounts",
        "  s             Cycle sort",
        "  c             Clear filters",
        "  r             Refresh",
    ];
    assert(texts(keys@) =~= seq!["  Enter         Set as active"@, "  e             Toggle enabled"@, "  /             Search accounts"@, "  s             Cycle sort"@, "  c             Clear filters"@, "  r             Refresh"@]);
    append_lines(&mut r, section("Accounts Tab", keys.as_slice()));
    assert(lines_view(r@) =~= help_on_the_left());
    r
}

/// The right column of the help.
pub open spec fn help_on_the_right() -> Seq<Seq<SpanView>> {
    help_section(
        "Config Tab"@,
        seq![
            "  Enter         Edit field"@,
            "  Space         Toggle boolean"@,
            "  s             Save config"@,
            "  r             Restart daemon"@,
        ],
    ) + blank() + help_section(
        "Mappings Tab"@,
        seq![
            "  p             Cycle preset"@,
            "  Enter         Edit pattern"@,
            "  < >           Cycle target"@,
            "  a             Add rule"@,
            "  d             Delete rule"@,
            "  b             Background model"@,
            "  s             Save mappings"@,
        ],
    ) + blank() + help_section(
        "Usage Tab"@,
        seq![
            "  r             Reset history"@,
        ],
    ) + blank() + help_section(
        "General"@,
        seq![
            "  ?             Toggle help"@,
            "  q / Esc       Quit"@,
        ],
    )
}

/// The right column of the help.
pub fn help_right() -> (r: Vec<Vec<Span>>)
    ensures
        lines_view(r@) == help_on_the_right(),
{
    let mut r: Vec<Vec<Span>> = Vec::new();
    let keys = [
        "  Enter         Edit field",
        "  Space         Toggle boolean",
        "  s             Save config",
        "  r             Restart daemon",
    ];
    assert(texts(keys@) =~= seq!["  Enter         Edit field"@, "  Space         Toggle boolean"@, "  s             Save config"@, "  r             Restart daemon"@]);
    append_lines(&mut r, section("Config Tab", keys.as_slice()));
    put_line(&mut r, no_spans());
    let keys = [
        "  p             Cycle preset",
        "  Enter         Edit pattern",
        "  < >           Cycle target",
        "  a             Add rule",
        "  d             Delete rule",
        "  b             Background model",
        "  s             Save mappings",
    ];
    assert(texts(keys@) =~= seq!["  p             Cycle preset"@, "  Enter         Edit pattern"@, "  < >           Cycle target"@, "  a             Add rule"@, "  d             Delete rule"@, "  b             Background model"@, "  s             Save mappings"@]);
    append_lines(&mut r, section("Mappings Tab", keys.as_slice()));
    put_line(&mut r, no_spans());
    let keys = [
        "  r             Reset history",
    ];
    assert(texts(keys@) =~= seq!["  r             Reset history"@]);
    append_lines(&mut r, section("Usage Tab", keys.as_slice()));
    put_line(&mut r, no_spans());
    let keys = [
        "  ?             Toggle help",
        "  q / Esc       Quit",
    ];
    assert(texts(keys@) =~= seq!["  ?             Toggle help"@, "  q / Esc       Quit"@]);
    append_lines(&mut r, section("General", keys.as_slice()));
    assert(lines_view(r@) =~= help_on_the_right());
    r
}

/// A warning that comes while the proxy runs.
pub open spec fn runtime_lines(message: Seq<char>) -> Seq<Seq<SpanView>> {
    seq![
        seq![piece("Gemini Access Disabled"@, plain(Hue::Warning))],
        Seq::empty(),
        seq![piece(message, plain(Hue::Text))],
        Seq::empty(),
        seq![piece("Press Enter or Esc to dismiss"@, plain(Hue::Dim))],
    ]
}

/// A warning that comes while the proxy runs.
pub fn runtime_warning(message: &str) -> (r: Vec<Vec<Span>>)
    ensures
        lines_view(r@) == runtime_lines(message@),
{
    let mut r: Vec<Vec<Span>> = Vec::new();
    put_line(&mut r, one_span("Gemini Access Disabled".to_owned(), tone(Hue::Warning)));
    put_line(&mut r, no_spans());
    put_line(&mut r, one_span(message.to_owned(), tone(Hue::Text)));
    put_line(&mut r, no_spans());
    put_line(&mut r, one_span("Press Enter or Esc to dismiss".to_owned(), tone(Hue::Dim)));
    assert(lines_view(r@) =~= runtime_lines(message@));
    r
}

/// The popup shows the whole message.
pub proof fn the_message_is_shown(message: Seq<char>)
    ensures
        exists|i: int|
            0 <= i < runtime_lines(message).len() && crate::spans::text_of_line(#[trigger] runtime_lines(message)[i])
                == message,
{
    let l = runtime_lines(message);
    let none = l[2].drop_last();
    assert(none.len() == 0);
    assert(crate::spans::text_of_line(none) =~= Seq::empty());
    assert(crate::spans::text_of_line(l[2]) =~= message);
}

} // verus!
