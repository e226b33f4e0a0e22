//! What is drawn whatever the tab, and what the overview and the usage show.

use vstd::prelude::*;

use crate::app::{App, Areas, Shell};
use crate::highlight::highlight_log_line;
use crate::log_pane::LogPane;
use crate::log_view::{entry_lines, in_sight};
use crate::panels::status_texts;
use crate::panels::status_words;
use crate::spans::{
    bold, bold_tone, line_view, lines_view, no_spans, piece, plain, put, put_line, put_str, tone,
    underlined, underlined_tone, Hue, Span, SpanView, Tone,
};
use crate::tabs::{
    all_tabs, binds_view, calculate_tab_areas, tab_area, tab_name, Area, Footer, Tab,
};
use crate::text::{decimal, decimal_text, same, views};
use crate::usage::TokenStats;

verus! {

/// The least width of a screen that can be drawn on.
pub const MIN_WIDTH: u16 = 60;

/// The least height of a screen that can be drawn on.
pub const MIN_HEIGHT: u16 = 15;

/// What is said on a screen that is too small; `None` where it is not.
pub open spec fn size_note(width: u16, height: u16) -> Option<Seq<char>> {
    if width < MIN_WIDTH || height < MIN_HEIGHT {
        Some(
            "Terminal too small\n\nMinimum: 60x15\nCurrent: "@ + decimal(width as nat) + "x"@
                + decimal(height as nat),
        )
    } else {
        None
    }
}

/// What is said on a screen that is too small.
pub fn check_size(width: u16, height: u16) -> (r: Option<String>)
    ensures
        crate::chat::opt(r) == size_note(width, height),
{
    if width < MIN_WIDTH || height < MIN_HEIGHT {
        let mut m = "Terminal too small\n\nMinimum: 60x15\nCurrent: ".to_owned();
        let w = decimal_text(width as u64);
        let h = decimal_text(height as u64);
        m.push_str(&w);
        m.push_str("x");
        m.push_str(&h);
        Some(m)
    } else {
        None
    }
}

/// The effects that are started before the screen is drawn.
#[derive(Debug, Clone, Copy, PartialEq, Eq, Structural)]
pub struct Effects {
    pub startup: bool,
    pub tab: bool,
    pub help: bool,
}

/// `a + b`, from zero again behind the largest number.
pub open spec fn wrapped(a: u64, b: u64) -> int {
    if a + b <= u64::MAX {
        a + b
    } else {
        a + b - u64::MAX - 1
    }
}

/// Whether what a tab shows can be clicked in an area.
pub open spec fn content_placed(a: Areas, tab: Tab, content: Area, inner: Area, b: Areas) -> bool {
    b == (Areas {
        logs: if tab == Tab::Logs {
            content
        } else {
            a.logs
        },
        accounts: if tab == Tab::Accounts {
            content
        } else {
            a.accounts
        },
        activity: a.activity,
        config: if tab == Tab::Config {
            inner
        } else {
            a.config
        },
        about: if tab == Tab::About {
            inner
        } else {
            a.about
        },
        ..a
    })
}

impl App {
    /// Begins to draw, `elapsed_ms` after the last time: which effects are started. Each is
    /// started once for what it belongs to: the first screen, another tab, the help that has
    /// come up.
    pub fn begin_frame(&mut self, elapsed_ms: u64) -> (r: Effects)
        ensures
            r == (Effects {
                startup: !old(self).shell.startup_done,
                tab: old(self).shell.trigger_tab_effect,
                help: old(self).shell.show_help && !old(self).shell.prev_show_help,
            }),
            *final(self) == (App {
                shell: Shell {
                    animation_time_ms: wrapped(
                        old(self).shell.animation_time_ms,
                        elapsed_ms,
                    ) as u64,
                    startup_done: true,
                    trigger_tab_effect: false,
                    prev_show_help: old(self).shell.show_help,
                    ..old(self).shell
                },
                ..*old(self)
            }),
    {
        let r = Effects {
            startup: !self.shell.startup_done,
            tab: self.shell.trigger_tab_effect,
            help: self.shell.show_help && !self.shell.prev_show_help,
        };
        self.shell.animation_time_ms = self.shell.animation_time_ms.wrapping_add(elapsed_ms);
        self.shell.startup_done = true;
        self.shell.trigger_tab_effect = false;
        self.shell.prev_show_help = self.shell.show_help;
        r
    }

    /// Notes where the tabs are drawn. Where they are clicked is reckoned anew only when that
    /// has changed.
    pub fn place_tabs(&mut self, tabs_area: Area)
        requires
            tabs_area.x + 54 <= u16::MAX,
        ensures
            *final(self) == (App { areas: final(self).areas, ..*old(self) }),
            final(self).areas == (Areas {
                tabs_row: tabs_area,
                tabs: final(self).areas.tabs,
                ..old(self).areas
            }),
            if old(self).areas.tabs_row == tabs_area {
                final(self).areas.tabs == old(self).areas.tabs
            } else {
                final(self).areas.tabs@ == Seq::new(6, |i: int| tab_area(tabs_area, i))
            },
    {
        if self.areas.tabs_row != tabs_area {
            self.areas.tabs_row = tabs_area;
            self.areas.tabs = calculate_tab_areas(tabs_area);
        }
    }

    /// Notes where the tab's content is drawn, and where it is within its border.
    pub fn place_content(&mut self, content: Area, inner: Area)
        ensures
            *final(self) == (App { areas: final(self).areas, ..*old(self) }),
            content_placed(
                old(self).areas,
                old(self).shell.current_tab,
                content,
                inner,
                final(self).areas,
            ),
    {
        match self.shell.current_tab {
            Tab::Logs => {
                self.areas.logs = content;
            },
            Tab::Accounts => {
                self.areas.accounts = content;
            },
            Tab::Config => {
                self.areas.config = inner;
            },
            Tab::About => {
                self.areas.about = inner;
            },
            _ => {},
        }
    }
}

/// The names of the tabs, the current one told apart, and the one under the mouse.
#[derive(Debug, Clone, Copy, PartialEq, Eq, Structural)]
pub struct TabBar {
    pub current: Tab,
    pub hovered: Option<usize>,
}

/// A tab's name as the bar shows it.
pub open spec fn tab_title(bar: TabBar, i: int) -> SpanView {
    let t = all_tabs()[i];
    piece(
        tab_name(t),
        if t == bar.current {
            bold(Hue::Primary)
        } else if bar.hovered == Some(i as usize) {
            underlined(Hue::Text)
        } else {
            plain(Hue::Dim)
        },
    )
}

impl TabBar {
    /// The bar with this tab current.
    pub fn new(current: Tab) -> (r: TabBar)
        ensures
            r == (TabBar { current, hovered: None }),
    {
        TabBar { current, hovered: None }
    }

    /// This bar with the mouse over a tab.
    pub fn hovered(self, hovered: Option<usize>) -> (r: TabBar)
        ensures
            r == (TabBar { hovered, ..self }),
    {
        TabBar { current: self.current, hovered }
    }

    /// The names of the tabs.
    pub fn titles(&self) -> (r: Vec<Span>)
        ensures
            line_view(r@) == Seq::new(6, |i: int| tab_title(*self, i)),
    {
        let tabs = Tab::all();
        let mut r = no_spans();
        let mut i: usize = 0;
        assert(line_view(r@) =~= Seq::new(0, |k: int| tab_title(*self, k)));
        while i < tabs.len()
            invariant
                i <= tabs@.len() == 6,
                tabs@ == all_tabs(),
                line_view(r@) == Seq::new(i as nat, |k: int| tab_title(*self, k)),
            decreases tabs@.len() - i,
        {
            let over = match self.hovered {
                Some(k) => k == i,
                None => false,
            };
            let look = if tabs[i] == self.current {
                bold_tone(Hue::Primary)
            } else if over {
                underlined_tone(Hue::Text)
            } else {
                tone(Hue::Dim)
            };
            put_str(&mut r, tabs[i].name(), look);
            i = i + 1;
            assert(line_view(r@) =~= Seq::new(i as nat, |k: int| tab_title(*self, k)));
        }
        r
    }
}

/// The state of the server in the header.
pub fn header_status(running: bool, look: Tone) -> (r: Vec<Span>)
    ensures
        line_view(r@) == seq![
            piece(status_words(running).0, look),
            piece(" "@, plain(Hue::Plain)),
            piece(status_words(running).1, look),
        ],
{
    let (sign, word) = status_texts(running);
    let mut r = no_spans();
    put_str(&mut r, sign, look);
    put_str(&mut r, " ", tone(Hue::Plain));
    put_str(&mut r, word, look);
    assert(line_view(r@) =~= seq![
        piece(status_words(running).0, look),
        piece(" "@, plain(Hue::Plain)),
        piece(status_words(running).1, look),
    ]);
    r
}

/// The spans of the first `n` keys of a footer of `total`, with a gap behind all but the
/// last.
pub open spec fn footer_spans(b: Seq<(Seq<char>, Seq<char>)>, n: int) -> Seq<SpanView>
    decreases n,
{
    if n <= 0 {
        Seq::empty()
    } else {
        let one = seq![
            piece(b[n - 1].0, plain(Hue::Primary)),
            piece(" "@, plain(Hue::Plain)),
            piece(b[n - 1].1, plain(Hue::Dim)),
        ];
        footer_spans(b, n - 1) + one + (if n < b.len() {
            seq![piece("  "@, plain(Hue::Plain))]
        } else {
            Seq::empty()
        })
    }
}

/// The line of a footer.
pub fn footer_line(footer: &Footer) -> (r: Vec<Span>)
    ensures
        line_view(r@) == footer_spans(
            binds_view(footer.keybinds@),
            footer.keybinds@.len() as int,
        ),
{
    let ghost b = binds_view(footer.keybinds@);
    let n: usize = footer.keybinds.len();
    let mut r = no_spans();
    let mut i: usize = 0;
    while i < n
        invariant
            i <= n == footer.keybinds@.len(),
            b == binds_view(footer.keybinds@),
            line_view(r@) == footer_spans(b, i as int),
        decreases n - i,
    {
        let ghost before = line_view(r@);
        let (key, what) = footer.keybinds[i];
        assert(b[i as int] == (key@, what@));
        put_str(&mut r, key, tone(Hue::Primary));
        put_str(&mut r, " ", tone(Hue::Plain));
        put_str(&mut r, what, tone(Hue::Dim));
        if i + 1 < n {
            put_str(&mut r, "  ", tone(Hue::Plain));
        }
        assert(line_view(r@) =~= footer_spans(b, i + 1));
        i = i + 1;
    }
    r
}

/// The entries of a log, by their places.
pub open spec fn all_places(pane: LogPane) -> Seq<int> {
    Seq::new(pane.entries@.len(), |i: int| i)
}

/// The lines of the recent activity that are in sight: those of the log, without filters.
pub fn activity_lines(pane: &LogPane, visible: usize) -> (r: Vec<Vec<Span>>)
    ensures
        lines_view(r@) == entry_lines(
            *pane,
            in_sight(all_places(*pane), visible as int, pane.activity_scroll as int),
        ),
{
    let total: usize = pane.entries.len();
    let most: usize = if total >= visible {
        total - visible
    } else {
        0
    };
    let from: usize = if most >= pane.activity_scroll {
        most - pane.activity_scroll
    } else {
        0
    };
    let to: usize = if visible <= total - from {
        from + visible
    } else {
        total
    };
    let ghost part = in_sight(all_places(*pane), visible as int, pane.activity_scroll as int);
    let mut r: Vec<Vec<Span>> = Vec::new();
    let mut i: usize = from;
    assert(part.take(0) =~= Seq::empty());
    assert(lines_view(r@) =~= entry_lines(*pane, part.take(0)));
    while i < to
        invariant
            from <= i <= to <= total == pane.entries@.len(),
            part == all_places(*pane).subrange(from as int, to as int),
            lines_view(r@) == entry_lines(*pane, part.take(i - from)),
        decreases to - i,
    {
        assert(part[i - from] == i);
        assert(part.take(i - from + 1).drop_last() =~= part.take(i - from));
        let e = &pane.entries[i];
        put_line(&mut r, highlight_log_line(&e.line, e.level));
        i = i + 1;
    }
    assert(part.take(part.len() as int) =~= part);
    r
}

/// The largest of a list, zero where there is none.
pub open spec fn largest(h: Seq<u64>) -> u64
    decreases h.len(),
{
    if h.len() == 0 {
        0
    } else {
        let before = largest(h.drop_last());
        if h.last() > before {
            h.last()
        } else {
            before
        }
    }
}

/// The labels beside the chart of requests, from its largest value: without repetitions where
/// that is small, with the middle, rounded up, where it is large.
pub open spec fn rate_labels_of(max: u64) -> Seq<Seq<char>> {
    if max <= 1 {
        seq!["0"@, "1"@, "2"@]
    } else if max <= 5 {
        seq!["0"@, decimal(max as nat)]
    } else {
        seq!["0"@, decimal(((max + 1) / 2) as nat), decimal(max as nat)]
    }
}

/// The labels beside the chart of requests; `None` where there were none, and there is no
/// chart.
pub fn rate_labels(history: &Vec<u64>) -> (r: Option<Vec<String>>)
    ensures
        match r {
            Some(l) => largest(history@) > 0 && views(l@) == rate_labels_of(largest(history@)),
            None => largest(history@) == 0,
        },
{
    let mut max: u64 = 0;
    let mut i: usize = 0;
    assert(history@.take(0) =~= Seq::empty());
    while i < history.len()
        invariant
            i <= history@.len(),
            max == largest(history@.take(i as int)),
        decreases history@.len() - i,
    {
        assert(history@.take(i + 1).drop_last() =~= history@.take(i as int));
        if history[i] > max {
            max = history[i];
        }
        i = i + 1;
    }
    assert(history@.take(history@.len() as int) =~= history@);
    if max == 0 {
        return None;
    }
    let mut r: Vec<String> = Vec::new();
    r.push("0".to_owned());
    if max <= 1 {
        r.push("1".to_owned());
        r.push("2".to_owned());
    } else if max <= 5 {
        r.push(decimal_text(max));
    } else {
        let mid: u64 = max / 2 + max % 2;
        assert(mid == (max + 1) / 2);
        r.push(decimal_text(mid));
        r.push(decimal_text(max));
    }
    assert(views(r@) =~= rate_labels_of(max));
    Some(r)
}

/// Whether any tokens were counted.
pub fn has_token_data(stats: &Option<TokenStats>) -> (r: bool)
    ensures
        r == (stats matches Some(s) && (s.total_input_tokens > 0 || s.total_output_tokens > 0)),
{
    match stats {
        Some(s) => s.total_input_tokens > 0 || s.total_output_tokens > 0,
        None => false,
    }
}

/// A figure of the summary of tokens.
pub open spec fn figure(name: Seq<char>, value: Seq<char>, hue: Hue) -> Seq<SpanView> {
    seq![piece(name, bold(Hue::Text)), piece(value, plain(hue))]
}

/// The summary of tokens: what went in and out, what came from the cache where anything did,
/// and all together. The figures are handed in as they are written.
pub open spec fn summary_spans(
    input: Seq<char>,
    output: Seq<char>,
    cached: Option<Seq<char>>,
    total: Seq<char>,
) -> Seq<SpanView> {
    let gap = seq![piece("    "@, plain(Hue::Plain))];
    figure("  Input: "@, input, Hue::Secondary) + gap + figure("Output: "@, output, Hue::Primary)
        + (match cached {
        Some(c) => gap + figure("Cached: "@, c, Hue::Success),
        None => Seq::empty(),
    }) + gap + figure("Total: "@, total, Hue::Warning)
}

/// The summary of tokens.
pub fn token_summary(input: &str, output: &str, cached: Option<&str>, total: &str) -> (r: Vec<Span>)
    ensures
        line_view(r@) == summary_spans(
            input@,
            output@,
            match cached {
                Some(c) => Some(c@),
                None => None,
            },
            total@,
        ),
{
    let ghost c = match cached {
        Some(c) => Some(c@),
        None => None,
    };
    let mut r = no_spans();
    put_str(&mut r, "  Input: ", bold_tone(Hue::Text));
    put_str(&mut r, input, tone(Hue::Secondary));
    put_str(&mut r, "    ", tone(Hue::Plain));
    put_str(&mut r, "Output: ", bold_tone(Hue::Text));
    put_str(&mut r, output, tone(Hue::Primary));
    match cached {
        Some(c) => {
            put_str(&mut r, "    ", tone(Hue::Plain));
            put_str(&mut r, "Cached: ", bold_tone(Hue::Text));
            put_str(&mut r, c, tone(Hue::Success));
        },
        None => {},
    }
    put_str(&mut r, "    ", tone(Hue::Plain));
    put_str(&mut r, "Total: ", bold_tone(Hue::Text));
    put_str(&mut r, total, tone(Hue::Warning));
    assert(line_view(r@) =~= summary_spans(input@, output@, c, total@));
    r
}

/// How many colours there are for models.
pub const MODEL_COLORS: usize = 8;

/// The spans of the first `n` models of the usage, each in its colour; the colours come round
/// again.
pub open spec fn model_spans(names: Seq<Seq<char>>, counts: Seq<Seq<char>>, n: int) -> Seq<SpanView>
    decreases n,
{
    if n <= 0 {
        seq![piece("  "@, plain(Hue::Plain))]
    } else {
        let i = n - 1;
        let hue = Hue::Model((i % (MODEL_COLORS as int)) as usize);
        model_spans(names, counts, i) + (if i > 0 {
            seq![piece("  "@, plain(Hue::Plain))]
        } else {
            Seq::empty()
        }) + seq![piece(names[i], bold(hue)), piece(" "@ + counts[i], plain(hue))]
    }
}

/// The models of the usage, by their short names and what each used, as it is written.
pub fn model_usage_line(names: &Vec<String>, counts: &Vec<String>) -> (r: Vec<Span>)
    requires
        counts@.len() == names@.len(),
    ensures
        line_view(r@) == model_spans(views(names@), views(counts@), names@.len() as int),
{
    let ghost a = views(names@);
    let ghost b = views(counts@);
    let n: usize = names.len();
    let mut r = no_spans();
    put_str(&mut r, "  ", tone(Hue::Plain));
    let mut i: usize = 0;
    assert(line_view(r@) =~= model_spans(a, b, 0));
    while i < n
        invariant
            i <= n == names@.len() == counts@.len(),
            a == views(names@),
            b == views(counts@),
            line_view(r@) == model_spans(a, b, i as int),
        decreases n - i,
    {
        let ghost before = line_view(r@);
        let hue = Hue::Model(i % MODEL_COLORS);
        if i > 0 {
            put_str(&mut r, "  ", tone(Hue::Plain));
        }
        put_str(&mut r, &names[i], bold_tone(hue));
        let mut t = " ".to_owned();
        t.push_str(&counts[i]);
        put(&mut r, t, tone(hue));
        assert(a[i as int] == names@[i as int]@);
        assert(b[i as int] == counts@[i as int]@);
        assert(line_view(r@) =~= model_spans(a, b, i + 1));
        i = i + 1;
    }
    r
}

/// The places of the models of a family.
pub open spec fn family_places(families: Seq<Seq<char>>, family: Seq<char>) -> Seq<int>
    decreases families.len(),
{
    if families.len() == 0 {
        Seq::empty()
    } else {
        let before = family_places(families.drop_last(), family);
        if families.last() == family {
            before.push(families.len() - 1)
        } else {
            before
        }
    }
}

/// The places of the models of a family.
pub fn models_of_family(families: &Vec<String>, family: &str) -> (r: Vec<usize>)
    ensures
        crate::log_pane::places(r@) == family_places(views(families@), family@),
{
    let ghost all = views(families@);
    let mut r: Vec<usize> = Vec::new();
    let mut i: usize = 0;
    assert(all.take(0) =~= Seq::empty());
    assert(crate::log_pane::places(r@) =~= family_places(all.take(0), family@));
    while i < families.len()
        invariant
            i <= families@.len(),
            all == views(families@),
            crate::log_pane::places(r@) == family_places(all.take(i as int), family@),
        decreases families@.len() - i,
    {
        assert(all.take(i + 1).drop_last() =~= all.take(i as int));
        assert(all.take(i + 1).last() == families@[i as int]@);
        if same(&families[i], family) {
            let ghost before = crate::log_pane::places(r@);
            r.push(i);
            assert(crate::log_pane::places(r@) =~= before.push(i as int));
        }
        i = i + 1;
    }
    assert(all.take(all.len() as int) =~= all);
    r
}

/// The largest of some numbers is one of them, and none of them is larger.
pub proof fn the_largest_is_not_exceeded(h: Seq<u64>)
    ensures
        forall|i: int| 0 <= i < h.len() ==> #[trigger] h[i] <= largest(h),
        h.len() > 0 ==> exists|i: int| 0 <= i < h.len() && #[trigger] h[i] == largest(h),
        h.len() == 0 ==> largest(h) == 0,
    decreases h.len(),
{
    if h.len() > 0 {
        let rest = h.drop_last();
        the_largest_is_not_exceeded(rest);
        assert forall|i: int| 0 <= i < h.len() implies #[trigger] h[i] <= largest(h) by {
            if i < rest.len() {
                assert(rest[i] == h[i]);
            }
        }
        if h.last() > largest(rest) || rest.len() == 0 {
            assert(h[h.len() - 1] == largest(h));
        } else {
            let i = choose|i: int| 0 <= i < rest.len() && #[trigger] rest[i] == largest(rest);
            assert(h[i] == largest(h));
        }
    }
}

/// The models of a family are those whose family it is, in order, each once.
pub proof fn a_family_has_its_models(families: Seq<Seq<char>>, family: Seq<char>)
    ensures
        forall|i: int|
            #[trigger] family_places(families, family).contains(i) <==> 0 <= i < families.len()
                && families[i] == family,
        forall|j: int, k: int|
            0 <= j < k < family_places(families, family).len() ==> (#[trigger] family_places(
                families,
                family,
            )[j]) < (#[trigger] family_places(families, family)[k]),
    decreases families.len(),
{
    let all = family_places(families, family);
    if families.len() > 0 {
        let rest = families.drop_last();
        let before = family_places(rest, family);
        a_family_has_its_models(rest, family);
        assert forall|i: int| #[trigger] all.contains(i) <==> 0 <= i < families.len()
            && families[i] == family by {
            if 0 <= i < rest.len() {
                assert(rest[i] == families[i]);
            }
            assert(before.contains(i) <==> 0 <= i < rest.len() && rest[i] == family);
            if before.contains(i) {
                let j = choose|j: int| 0 <= j < before.len() && before[j] == i;
                assert(all[j] == i);
            }
            if i == rest.len() && families[i] == family {
                assert(all[all.len() - 1] == i);
            }
            if all.contains(i) {
                let j = choose|j: int| 0 <= j < all.len() && all[j] == i;
                if j < before.len() {
                    assert(before[j] == i);
                }
            }
        }
        assert forall|j: int, k: int| 0 <= j < k < all.len() implies (#[trigger] all[j]) < (
        #[trigger] all[k]) by {
            if k == before.len() {
                assert(before.contains(before[j]));
            }
        }
    }
}

/// Every key of the footer is shown with what it does, in order.
pub proof fn every_key_is_shown(b: Seq<(Seq<char>, Seq<char>)>, n: int, i: int)
    requires
        0 <= i < n <= b.len(),
    ensures
        footer_spans(b, n).len() == 4 * n - (if n == b.len() {
            1int
        } else {
            0int
        }),
        footer_spans(b, n)[4 * i].text == b[i].0,
        footer_spans(b, n)[4 * i + 2].text == b[i].1,
    decreases n,
{
    if n > 1 {
        if i < n - 1 {
            every_key_is_shown(b, n - 1, i);
        } else {
            every_key_is_shown(b, n - 1, 0);
        }
    } else {
        assert(footer_spans(b, 0) =~= Seq::empty());
    }
}

/// Every model is shown with its count, in order, and the two in one color.
pub proof fn every_model_is_shown(names: Seq<Seq<char>>, counts: Seq<Seq<char>>, n: int, i: int)
    requires
        0 <= i < n,
    ensures
        model_spans(names, counts, n).len() == 3 * n,
        model_spans(names, counts, n)[3 * i + 1].text == names[i],
        model_spans(names, counts, n)[3 * i + 2].text == seq![' '] + counts[i],
        model_spans(names, counts, n)[3 * i + 1].tone.hue == model_spans(
            names,
            counts,
            n,
        )[3 * i + 2].tone.hue,
    decreases n,
{
    reveal_strlit(" ");
    assert(model_spans(names, counts, 0).len() == 1);
    if n > 1 {
        if i < n - 1 {
            every_model_is_shown(names, counts, n - 1, i);
        } else {
            every_model_is_shown(names, counts, n - 1, 0);
        }
    }
}

/// The summary names what came in, what went out, what was cached where it is known, and all
/// together.
pub proof fn the_summary_is_shown_whole(
    input: Seq<char>,
    output: Seq<char>,
    cached: Seq<char>,
    total: Seq<char>,
)
    ensures
        summary_spans(input, output, None, total).len() == 8,
        summary_spans(input, output, None, total)[1].text == input,
        summary_spans(input, output, None, total)[4].text == output,
        summary_spans(input, output, None, total)[7].text == total,
        summary_spans(input, output, Some(cached), total).len() == 11,
        summary_spans(input, output, Some(cached), total)[1].text == input,
        summary_spans(input, output, Some(cached), total)[4].text == output,
        summary_spans(input, output, Some(cached), total)[7].text == cached,
        summary_spans(input, output, Some(cached), total)[10].text == total,
{
}

/// The labels of the rate go from nought to the greatest rate, but to two where nothing much
/// happens.
pub proof fn the_labels_reach_the_greatest_rate(max: u64)
    ensures
        rate_labels_of(max)[0] == "0"@,
        rate_labels_of(max).last() == (if max > 1 {
            decimal(max as nat)
        } else {
            "2"@
        }),
        max > 5 ==> rate_labels_of(max).len() == 3 && exists|half: nat|
            max <= 2 * half <= max + 1 && rate_labels_of(max)[1] == #[trigger] decimal(half),
{
    if max > 5 {
        let half = ((max + 1) / 2) as nat;
        assert(max <= 2 * half <= max + 1 && rate_labels_of(max)[1] == decimal(half));
    }
}

/// The current tab stands out among all tabs, and no other does.
pub proof fn the_current_tab_stands_out(bar: TabBar, i: int)
    requires
        0 <= i < all_tabs().len(),
    ensures
        tab_title(bar, i).text == tab_name(all_tabs()[i]),
        tab_title(bar, i).tone.bold <==> all_tabs()[i] == bar.current,
        tab_title(bar, i).tone.underlined <==> all_tabs()[i] != bar.current && bar.hovered == Some(
            i as usize,
        ),
{
}

} // verus!
