//! How the log is drawn: the toolbar above it, the part of it in sight, and the list of
//! accounts.

use vstd::prelude::*;

use crate::app::Hover;
use crate::chat::opt;
use crate::highlight::{highlight_log_line, highlighted};
use crate::log_pane::{minus, places, LogPane, ScrollState};
use crate::spans::{
    bold, bold_tone, line_view, lines_view, no_spans, one_span, piece, plain, put, put_line, put_str, tone,
    underlined, underlined_tone, Hue, Span, SpanView, Tone,
};
use crate::tabs::{within_border, Area};
use crate::text::{byte_len, decimal, decimal_text, len_bytes, same, views};

verus! {

/// The toolbar above the log: what it says, and where it can be clicked.
pub struct Toolbar {
    pub spans: Vec<Span>,
    pub badges: [Area; 4],
    pub account: Area,
    /// Where the search is, and what it says.
    pub search: Area,
    pub search_spans: Vec<Span>,
}

/// How the box of a level looks.
pub open spec fn box_tone(on: bool, hovered: bool, hue: Hue) -> Tone {
    if hovered {
        Tone {
            hue: if on {
                hue
            } else {
                Hue::White
            },
            bold: true,
            underlined: true,
            marked: false,
        }
    } else if on {
        bold(hue)
    } else {
        plain(Hue::DarkGray)
    }
}

/// How the name of a level looks.
pub open spec fn label_tone(on: bool, hovered: bool, hue: Hue) -> Tone {
    if hovered {
        underlined(
            if on {
                hue
            } else {
                Hue::White
            },
        )
    } else if on {
        plain(hue)
    } else {
        plain(Hue::DarkGray)
    }
}

/// A level as the toolbar shows it: a box, its name and its key.
pub open spec fn badge(
    key: Seq<char>,
    label: Seq<char>,
    hue: Hue,
    on: bool,
    hovered: bool,
) -> Seq<SpanView> {
    seq![
        piece(
            if on {
                "\u{25a0} "@
            } else {
                "\u{25a1} "@
            },
            box_tone(on, hovered, hue),
        ),
        piece(label, label_tone(on, hovered, hue)),
        piece(
            key,
            plain(
                if hovered {
                    Hue::White
                } else {
                    Hue::DarkGray
                },
            ),
        ),
        piece(" "@, plain(Hue::Plain)),
    ]
}

/// Adds a level to the toolbar.
fn put_badge(spans: &mut Vec<Span>, key: &str, label: &str, hue: Hue, on: bool, hovered: bool)
    ensures
        line_view(final(spans)@) == line_view(old(spans)@) + badge(key@, label@, hue, on, hovered),
{
    let ghost before = line_view(spans@);
    let shown = if on {
        hue
    } else {
        Hue::White
    };
    let box_look = if hovered {
        Tone { hue: shown, bold: true, underlined: true, marked: false }
    } else if on {
        bold_tone(hue)
    } else {
        tone(Hue::DarkGray)
    };
    let label_look = if hovered {
        underlined_tone(shown)
    } else if on {
        tone(hue)
    } else {
        tone(Hue::DarkGray)
    };
    put_str(
        spans,
        if on {
            "\u{25a0} "
        } else {
            "\u{25a1} "
        },
        box_look,
    );
    put_str(spans, label, label_look);
    put_str(
        spans,
        key,
        tone(
            if hovered {
                Hue::White
            } else {
                Hue::DarkGray
            },
        ),
    );
    put_str(spans, " ", tone(Hue::Plain));
    assert(line_view(spans@) =~= before + badge(key@, label@, hue, on, hovered));
}

/// The account that the log is filtered by, as the toolbar names it.
pub open spec fn account_label(filter: Option<Seq<char>>) -> Seq<char> {
    match filter {
        Some(e) => e,
        None => "All Accounts"@,
    }
}

/// The part of the toolbar that tells the account.
pub open spec fn account_spans(filter: Option<Seq<char>>, open: bool, hovered: bool) -> Seq<
    SpanView,
> {
    seq![
        piece(
            "Account: "@,
            if hovered {
                underlined(Hue::Primary)
            } else {
                plain(Hue::Dim)
            },
        ),
        piece(
            account_label(filter),
            if hovered {
                Tone { hue: Hue::Primary, bold: true, underlined: true, marked: false }
            } else if filter is Some {
                bold(Hue::Primary)
            } else {
                plain(Hue::Dim)
            },
        ),
        piece(
            if open {
                " \u{25b2}"@
            } else {
                " \u{25bc}"@
            },
            plain(
                if hovered {
                    Hue::Primary
                } else {
                    Hue::Dim
                },
            ),
        ),
    ]
}

/// Adds the account to the toolbar.
fn put_account(spans: &mut Vec<Span>, filter: &Option<String>, open: bool, hovered: bool)
    ensures
        line_view(final(spans)@) == line_view(old(spans)@) + account_spans(
            opt(*filter),
            open,
            hovered,
        ),
{
    let ghost before = line_view(spans@);
    put_str(
        spans,
        "Account: ",
        if hovered {
            underlined_tone(Hue::Primary)
        } else {
            tone(Hue::Dim)
        },
    );
    let look = if hovered {
        Tone { hue: Hue::Primary, bold: true, underlined: true, marked: false }
    } else if filter.is_some() {
        bold_tone(Hue::Primary)
    } else {
        tone(Hue::Dim)
    };
    match filter {
        Some(e) => put_str(spans, e, look),
        None => put_str(spans, "All Accounts", look),
    }
    put_str(
        spans,
        if open {
            " \u{25b2}"
        } else {
            " \u{25bc}"
        },
        tone(
            if hovered {
                Hue::Primary
            } else {
                Hue::Dim
            },
        ),
    );
    assert(line_view(spans@) =~= before + account_spans(opt(*filter), open, hovered));
}

/// How many entries are shown of how many, where that is not all.
pub open spec fn count_spans(shown: nat, total: nat) -> Seq<SpanView> {
    seq![
        piece(" \u{2502} "@, plain(Hue::Dim)),
        piece(decimal(shown) + "/"@ + decimal(total), plain(Hue::Warning)),
    ]
}

/// What the search says: what is searched for, and a cursor while it is typed.
pub open spec fn search_line(query: Seq<char>, active: bool) -> Seq<SpanView> {
    let text = seq![
        piece(" / "@, bold(Hue::Primary)),
        piece(
            query,
            plain(
                if active {
                    Hue::Text
                } else {
                    Hue::Dim
                },
            ),
        ),
    ];
    if active {
        text.push(piece("\u{2588}"@, plain(Hue::Primary)))
    } else {
        text
    }
}

/// Whether there is a search to be shown.
pub open spec fn shows_search(pane: LogPane) -> bool {
    pane.search_active || pane.search_query@.len() > 0
}

/// A row of a toolbar at `x`, as wide as what is in it.
pub open spec fn in_row(area: Area, x: int, width: int) -> Area {
    Area { x: x as u16, y: area.y, width: width as u16, height: 1 }
}

/// Where the toolbar's parts are clicked: the levels one behind the other, then the account;
/// the search is the row below.
pub open spec fn toolbar_places(area: Area, pane: LogPane, t: Toolbar) -> bool {
    let label = byte_len(account_label(opt(pane.account_filter))) as int;
    &&& t.badges@[0] == in_row(area, area.x + 1, 11)
    &&& t.badges@[1] == in_row(area, area.x + 12, 10)
    &&& t.badges@[2] == in_row(area, area.x + 22, 10)
    &&& t.badges@[3] == in_row(area, area.x + 32, 11)
    &&& t.account == in_row(area, area.x + 45, 11 + label)
    &&& if area.height >= 2 && shows_search(pane) {
        t.search == (Area { y: (area.y + 1) as u16, height: 1, ..area })
    } else {
        t.search == (Area { x: 0, y: 0, width: 0, height: 0 })
    }
}

/// What is always on the toolbar: the levels and the account.
pub open spec fn toolbar_head(pane: LogPane, hover: Hover) -> Seq<SpanView> {
    let on = pane.level_filter@;
    let over = hover.log_level;
    seq![piece(" "@, plain(Hue::Dim))] + badge(
        "(d)"@,
        "Debug"@,
        Hue::DarkGray,
        on[0],
        over == Some(0usize),
    ) + badge("(i)"@, "Info"@, Hue::Green, on[1], over == Some(1usize)) + badge(
        "(w)"@,
        "Warn"@,
        Hue::Yellow,
        on[2],
        over == Some(2usize),
    ) + badge("(e)"@, "Error"@, Hue::Red, on[3], over == Some(3usize)) + seq![
        piece("\u{2502} "@, plain(Hue::Dim)),
    ] + account_spans(opt(pane.account_filter), pane.dropdown_open, hover.log_account)
}

/// What the toolbar says: the levels, the account, and how many entries are shown where that
/// is not all.
pub open spec fn toolbar_line(pane: LogPane, hover: Hover) -> Seq<SpanView> {
    if pane.is_filtered() {
        toolbar_head(pane, hover) + count_spans(
            pane.filtered_indices@.len(),
            pane.entries@.len(),
        )
    } else {
        toolbar_head(pane, hover)
    }
}

/// Adds a divider to a line.
fn put_divider(line: &mut Vec<Span>)
    ensures
        line_view(final(line)@) == line_view(old(line)@) + seq![
            piece("\u{2502} "@, plain(Hue::Dim)),
        ],
{
    let ghost before = line_view(line@);
    put_str(line, "\u{2502} ", tone(Hue::Dim));
    assert(line_view(line@) =~= before + seq![piece("\u{2502} "@, plain(Hue::Dim))]);
}

/// Adds how many entries are shown of how many.
fn put_count(line: &mut Vec<Span>, shown: usize, total: usize)
    ensures
        line_view(final(line)@) == line_view(old(line)@) + count_spans(shown as nat, total as nat),
{
    let ghost before = line_view(line@);
    put_str(line, " \u{2502} ", tone(Hue::Dim));
    let mut count = decimal_text(shown as u64);
    count.push_str("/");
    let t = decimal_text(total as u64);
    count.push_str(&t);
    put(line, count, tone(Hue::Warning));
    assert(line_view(line@) =~= before + count_spans(shown as nat, total as nat));
}

/// Whether the mouse is over a level.
fn is_over(hover: &Hover, i: usize) -> (r: bool)
    ensures
        r == (hover.log_level == Some(i)),
{
    match hover.log_level {
        Some(k) => k == i,
        None => false,
    }
}

/// What the toolbar says.
pub fn toolbar_spans(pane: &LogPane, hover: &Hover) -> (r: Vec<Span>)
    ensures
        line_view(r@) == toolbar_line(*pane, *hover),
{
    let on = pane.level_filter;
    let mut r = one_span(" ".to_owned(), tone(Hue::Dim));
    put_badge(&mut r, "(d)", "Debug", Hue::DarkGray, on[0], is_over(hover, 0));
    put_badge(&mut r, "(i)", "Info", Hue::Green, on[1], is_over(hover, 1));
    put_badge(&mut r, "(w)", "Warn", Hue::Yellow, on[2], is_over(hover, 2));
    put_badge(&mut r, "(e)", "Error", Hue::Red, on[3], is_over(hover, 3));
    put_divider(&mut r);
    put_account(&mut r, &pane.account_filter, pane.dropdown_open, hover.log_account);
    if pane.has_active_filter() {
        put_count(&mut r, pane.filtered_indices.len(), pane.entries.len());
    }
    r
}

/// What the search says.
pub fn search_spans(query: &str, active: bool) -> (r: Vec<Span>)
    ensures
        line_view(r@) == search_line(query@, active),
{
    let mut r = no_spans();
    put_str(&mut r, " / ", bold_tone(Hue::Primary));
    put_str(
        &mut r,
        query,
        tone(
            if active {
                Hue::Text
            } else {
                Hue::Dim
            },
        ),
    );
    if active {
        put_str(&mut r, "\u{2588}", tone(Hue::Primary));
    }
    assert(line_view(r@) =~= search_line(query@, active));
    r
}

/// The toolbar above the log; none where there is no room for it.
pub fn toolbar(area: Area, pane: &LogPane, hover: &Hover) -> (r: Option<Toolbar>)
    requires
        area.fits(),
        area.x + 56 + byte_len(account_label(opt(pane.account_filter))) <= u16::MAX,
    ensures
        r is Some <==> area.height > 0,
        r matches Some(t) ==> {
            &&& line_view(t.spans@) == toolbar_line(*pane, *hover)
            &&& toolbar_places(area, *pane, t)
            &&& line_view(t.search_spans@) == (if area.height >= 2 && shows_search(*pane) {
                search_line(pane.search_query@, pane.search_active)
            } else {
                Seq::empty()
            })
        },
{
    if area.height == 0 {
        return None;
    }
    let spans = toolbar_spans(pane, hover);
    let label_len: u16 = match &pane.account_filter {
        Some(e) => len_bytes(e) as u16,
        None => len_bytes("All Accounts") as u16,
    };
    let badges = [
        Area { x: area.x + 1, y: area.y, width: 11, height: 1 },
        Area { x: area.x + 12, y: area.y, width: 10, height: 1 },
        Area { x: area.x + 22, y: area.y, width: 10, height: 1 },
        Area { x: area.x + 32, y: area.y, width: 11, height: 1 },
    ];
    let account = Area { x: area.x + 45, y: area.y, width: 11 + label_len, height: 1 };
    if area.height >= 2 && (pane.search_active || !pane.search_query.as_str().is_empty()) {
        let search = Area { x: area.x, y: area.y + 1, width: area.width, height: 1 };
        let said = search_spans(&pane.search_query, pane.search_active);
        Some(Toolbar { spans, badges, account, search, search_spans: said })
    } else {
        Some(Toolbar { spans, badges, account, search: Area::nowhere(), search_spans: no_spans() })
    }
}

/// Where the parts of the log's tab are drawn.
#[derive(Debug, Clone, Copy, PartialEq, Eq, Structural)]
pub struct LogAreas {
    pub toolbar: Area,
    pub content: Area,
    pub text: Area,
    pub scrollbar: Area,
}

/// Where the parts of the log's tab are drawn: the toolbar at the top, in one row or in two
/// with a search; the log below it; its scrollbar in the last column.
pub open spec fn log_areas_of(inner: Area, search: bool) -> LogAreas {
    let rows: int = if search {
        2
    } else {
        1
    };
    let content = Area {
        y: (inner.y + rows) as u16,
        height: minus(inner.height as int, rows) as u16,
        ..inner
    };
    LogAreas {
        toolbar: Area { height: rows as u16, ..inner },
        content,
        text: Area { width: minus(inner.width as int, 1) as u16, ..content },
        scrollbar: Area {
            x: (content.x + minus(content.width as int, 1)) as u16,
            width: 1,
            ..content
        },
    }
}

/// Where the parts of the log's tab are drawn.
pub fn log_areas(inner: Area, pane: &LogPane) -> (r: LogAreas)
    requires
        inner.fits(),
        inner.y + 2 <= u16::MAX,
    ensures
        r == log_areas_of(inner, shows_search(*pane)),
{
    let rows: u16 = if pane.search_active || !pane.search_query.as_str().is_empty() {
        2
    } else {
        1
    };
    let height: u16 = if inner.height >= rows {
        inner.height - rows
    } else {
        0
    };
    let width: u16 = if inner.width >= 1 {
        inner.width - 1
    } else {
        0
    };
    let y: u16 = inner.y + rows;
    LogAreas {
        toolbar: Area { x: inner.x, y: inner.y, width: inner.width, height: rows },
        content: Area { x: inner.x, y, width: inner.width, height },
        text: Area { x: inner.x, y, width, height },
        scrollbar: Area { x: inner.x + width, y, width: 1, height },
    }
}

/// The first line in sight of `total`, of which `visible` are, when the newest `scroll` are
/// below.
pub open spec fn first_in_sight(total: int, visible: int, scroll: int) -> int {
    minus(minus(total, visible), scroll)
}

/// `a` less `b`, at least nothing.
fn less(a: usize, b: usize) -> (r: usize)
    ensures
        r == minus(a as int, b as int),
{
    if a >= b {
        a - b
    } else {
        0
    }
}

/// The places of the entries that can be scrolled through: those that the filters let
/// through, or all.
pub open spec fn listed(pane: LogPane) -> Seq<int> {
    if pane.is_filtered() {
        places(pane.filtered_indices@)
    } else {
        Seq::new(pane.entries@.len(), |i: int| i)
    }
}

/// The part of a list that is in sight.
pub open spec fn in_sight(list: Seq<int>, visible: int, scroll: int) -> Seq<int> {
    let from = first_in_sight(list.len() as int, visible, scroll);
    let to = if from + visible <= list.len() {
        from + visible
    } else {
        list.len() as int
    };
    list.subrange(from, to)
}

/// The lines of the entries at some places; a place without an entry has none.
pub open spec fn entry_lines(pane: LogPane, list: Seq<int>) -> Seq<Seq<SpanView>>
    decreases list.len(),
{
    if list.len() == 0 {
        Seq::empty()
    } else {
        let before = entry_lines(pane, list.drop_last());
        let i = list.last();
        if 0 <= i < pane.entries@.len() {
            before.push(highlighted(pane.entries@[i].line@, pane.entries@[i].level))
        } else {
            before
        }
    }
}

/// The lines of the log that are in sight.
pub fn visible_lines(pane: &LogPane, visible: usize) -> (r: Vec<Vec<Span>>)
    ensures
        lines_view(r@) == entry_lines(
            *pane,
            in_sight(listed(*pane), visible as int, pane.scroll as int),
        ),
{
    let filtered = pane.has_active_filter();
    let entries: usize = pane.entries.len();
    let total: usize = if filtered {
        pane.filtered_indices.len()
    } else {
        entries
    };
    let ghost list = listed(*pane);
    assert(list.len() == total);
    let from = less(less(total, visible), pane.scroll);
    let to: usize = if visible <= total - from {
        from + visible
    } else {
        total
    };
    let ghost part = in_sight(list, visible as int, pane.scroll as int);
    let mut r: Vec<Vec<Span>> = Vec::new();
    let mut i: usize = from;
    assert(part.take(0) =~= Seq::empty());
    assert(lines_view(r@) =~= entry_lines(*pane, part.take(0)));
    while i < to
        invariant
            from <= i <= to <= total == list.len(),
            list == listed(*pane),
            part == list.subrange(from as int, to as int),
            filtered == pane.is_filtered(),
            entries == pane.entries@.len(),
            lines_view(r@) == entry_lines(*pane, part.take(i - from)),
        decreases to - i,
    {
        let place: usize = if filtered {
            pane.filtered_indices[i]
        } else {
            i
        };
        assert(part[i - from] == place);
        assert(part.take(i - from + 1).drop_last() =~= part.take(i - from));
        if place < entries {
            let e = &pane.entries[place];
            let line = highlight_log_line(&e.line, e.level);
            put_line(&mut r, line);
        }
        i = i + 1;
    }
    assert(part.take(part.len() as int) =~= part);
    r
}

/// What the scrollbar of the log shows: how far the first line in sight is, stretched over
/// all lines.
pub open spec fn scroll_state(total: int, visible: int, scroll: int) -> ScrollState {
    let most = minus(total, visible);
    ScrollState {
        content_length: total as usize,
        viewport: visible as usize,
        position: (if most == 0 {
            0
        } else {
            first_in_sight(total, visible, scroll) * minus(total, 1) / most
        }) as usize,
    }
}

/// What the scrollbar of the log shows.
pub fn scrollbar_state(pane: &LogPane, visible: usize) -> (r: ScrollState)
    ensures
        r == scroll_state(listed(*pane).len() as int, visible as int, pane.scroll as int),
{
    let total: usize = if pane.has_active_filter() {
        pane.filtered_indices.len()
    } else {
        pane.entries.len()
    };
    let most = less(total, visible);
    let from = less(most, pane.scroll);
    let last = less(total, 1);
    let position: usize = if most == 0 {
        0
    } else {
        proof {
            lemma_stretched(from as int, last as int, most as int);
        }
        let wide: u128 = from as u128 * last as u128;
        (wide / most as u128) as usize
    };
    ScrollState { content_length: total, viewport: visible, position }
}

proof fn lemma_stretched(from: int, last: int, most: int)
    requires
        0 <= from <= most <= usize::MAX,
        0 <= last <= usize::MAX,
        most > 0,
    ensures
        0 <= from * last <= u128::MAX,
        0 <= from * last / most <= last,
{
    assert(0 <= from * last <= u128::MAX) by (nonlinear_arith)
        requires
            0 <= from <= 0xffff_ffff_ffff_ffff,
            0 <= last <= 0xffff_ffff_ffff_ffff,
    ;
    assert(from * last <= most * last) by (nonlinear_arith)
        requires
            0 <= from <= most,
            0 <= last,
    ;
    assert(0 <= from * last / most <= last) by (nonlinear_arith)
        requires
            0 <= from * last <= most * last,
            most > 0,
    ;
}

/// With the log at its newest entry, the newest are in sight, as many as there is room for.
pub proof fn the_newest_are_in_sight(pane: LogPane, visible: int)
    requires
        pane.scroll == 0,
        visible >= 0,
    ensures
        in_sight(listed(pane), visible, 0) == crate::log_reader::last_of(
            listed(pane),
            visible as nat,
        ),
{
    assert(in_sight(listed(pane), visible, 0) =~= crate::log_reader::last_of(
        listed(pane),
        visible as nat,
    ));
}

/// The list of accounts: where it is, what it says and where it can be clicked.
pub struct Dropdown {
    pub area: Area,
    pub items: Vec<Area>,
    pub lines: Vec<Vec<Span>>,
}

/// The longest of some texts, in bytes.
pub open spec fn longest(texts: Seq<Seq<char>>) -> nat
    decreases texts.len(),
{
    if texts.len() == 0 {
        0
    } else {
        let before = longest(texts.drop_last());
        if byte_len(texts.last()) > before {
            byte_len(texts.last())
        } else {
            before
        }
    }
}

/// The longest of some texts, in bytes.
pub fn longest_of(list: &Vec<String>) -> (r: usize)
    ensures
        r == longest(views(list@)),
{
    let ghost all = views(list@);
    let mut r: usize = 0;
    let mut i: usize = 0;
    assert(all.take(0) =~= Seq::empty());
    while i < list.len()
        invariant
            i <= list@.len(),
            all == views(list@),
            r == longest(all.take(i as int)),
        decreases list@.len() - i,
    {
        assert(all.take(i + 1).drop_last() =~= all.take(i as int));
        assert(all.take(i + 1).last() == list@[i as int]@);
        let n = len_bytes(&list[i]);
        if n > r {
            r = n;
        }
        i = i + 1;
    }
    assert(all.take(all.len() as int) =~= all);
    r
}

/// How wide the list of accounts is: as wide as its longest entry, at least fourteen, and
/// six for its border and marks.
pub open spec fn dropdown_width(emails: Seq<Seq<char>>) -> int {
    (if longest(emails) > 14 {
        longest(emails) as int
    } else {
        14
    }) + 6
}

/// Where the list of accounts is: below the account in the toolbar, but within `area`.
pub open spec fn dropdown_area(area: Area, filter: Area, emails: Seq<Seq<char>>) -> Area {
    let width = dropdown_width(emails);
    let right = area.x + minus(area.width as int, width);
    let height = emails.len() + 3;
    let room = minus(area.height as int, 4);
    Area {
        x: (if filter.x <= right {
            filter.x as int
        } else {
            right
        }) as u16,
        y: (filter.y + 1) as u16,
        width: (if width <= area.width {
            width
        } else {
            area.width as int
        }) as u16,
        height: (if height <= room {
            height as int
        } else {
            room
        }) as u16,
    }
}

/// How an entry of the list of accounts looks.
pub open spec fn item_tone(chosen: bool, current: bool) -> Tone {
    if chosen {
        Tone { hue: Hue::Primary, bold: true, underlined: false, marked: true }
    } else if current {
        plain(Hue::Text)
    } else {
        plain(Hue::Dim)
    }
}

/// An entry of the list of accounts, with a mark where it is the one that is set.
pub open spec fn item_line(text: Seq<char>, chosen: bool, current: bool) -> Seq<SpanView> {
    seq![
        piece(
            if current {
                "\u{25cf} "@
            } else {
                "  "@
            },
            item_tone(chosen, current),
        ),
        piece(text, item_tone(chosen, current)),
    ]
}

/// An entry of the list of accounts.
fn item_spans(text: &str, chosen: bool, current: bool) -> (r: Vec<Span>)
    ensures
        line_view(r@) == item_line(text@, chosen, current),
{
    let look = if chosen {
        Tone { hue: Hue::Primary, bold: true, underlined: false, marked: true }
    } else if current {
        tone(Hue::Text)
    } else {
        tone(Hue::Dim)
    };
    let mut r = no_spans();
    put_str(
        &mut r,
        if current {
            "\u{25cf} "
        } else {
            "  "
        },
        look,
    );
    put_str(&mut r, text, look);
    assert(line_view(r@) =~= item_line(text@, chosen, current));
    r
}

/// Whether an entry of the list of accounts is selected, or under the mouse.
pub open spec fn is_chosen(pane: LogPane, hover: Hover, i: int) -> bool {
    hover.dropdown_item == Some(i as usize) || pane.dropdown_selected == i
}

/// The lines of the list of accounts: all of them first, then each.
pub open spec fn dropdown_lines(pane: LogPane, hover: Hover, emails: Seq<Seq<char>>) -> Seq<
    Seq<SpanView>,
> {
    Seq::new(
        emails.len() + 1,
        |i: int|
            if i == 0 {
                item_line(
                    "All Accounts"@,
                    is_chosen(pane, hover, 0),
                    pane.account_filter is None,
                )
            } else {
                item_line(
                    emails[i - 1],
                    is_chosen(pane, hover, i),
                    opt(pane.account_filter) == Some(emails[i - 1]),
                )
            },
    )
}

/// Where the entries of the list of accounts are clicked: one below the other, as far as
/// there is room; the first in any case.
pub open spec fn dropdown_items(inner: Area, emails: nat) -> Seq<Area> {
    let n = if emails + 1 <= inner.height {
        emails + 1
    } else if inner.height >= 1 {
        inner.height as nat
    } else {
        1
    };
    Seq::new(
        n,
        |i: int| Area { x: inner.x, y: (inner.y + i) as u16, width: inner.width, height: 1 },
    )
}

/// Whether an entry of the list of accounts is selected, or under the mouse.
fn chosen_item(pane: &LogPane, hover: &Hover, i: usize) -> (r: bool)
    ensures
        r == is_chosen(*pane, *hover, i as int),
{
    let over = match hover.dropdown_item {
        Some(k) => k == i,
        None => false,
    };
    over || pane.dropdown_selected == i
}

/// Whether the account that is set is this one.
fn is_current(filter: &Option<String>, email: &str) -> (r: bool)
    ensures
        r == (opt(*filter) == Some(email@)),
{
    match filter {
        Some(e) => same(e, email),
        None => false,
    }
}

/// The lines of the list of accounts.
fn dropdown_text(pane: &LogPane, hover: &Hover, emails: &Vec<String>) -> (r: Vec<Vec<Span>>)
    ensures
        lines_view(r@) == dropdown_lines(*pane, *hover, views(emails@)),
{
    let ghost want = dropdown_lines(*pane, *hover, views(emails@));
    let mut r: Vec<Vec<Span>> = Vec::new();
    let first = item_spans(
        "All Accounts",
        chosen_item(pane, hover, 0),
        pane.account_filter.is_none(),
    );
    put_line(&mut r, first);
    let n: usize = emails.len();
    let mut i: usize = 0;
    assert(lines_view(r@) =~= want.take(1));
    while i < n
        invariant
            i <= n == emails@.len(),
            want == dropdown_lines(*pane, *hover, views(emails@)),
            lines_view(r@) == want.take(i + 1),
        decreases n - i,
    {
        let email = &emails[i];
        let line = item_spans(
            email,
            chosen_item(pane, hover, i + 1),
            is_current(&pane.account_filter, email),
        );
        assert(views(emails@)[i as int] == email@);
        assert(line_view(line@) == want[i + 1]);
        put_line(&mut r, line);
        i = i + 1;
        assert(lines_view(r@) =~= want.take(i + 1));
    }
    assert(want.take(want.len() as int) =~= want);
    r
}

/// Where the entries of the list of accounts are clicked.
fn dropdown_places(inner: Area, emails: usize) -> (r: Vec<Area>)
    requires
        inner.fits(),
    ensures
        r@ == dropdown_items(inner, emails as nat),
{
    let n: u16 = if (emails as u64) < inner.height as u64 {
        (emails + 1) as u16
    } else if inner.height >= 1 {
        inner.height
    } else {
        1
    };
    let mut r: Vec<Area> = Vec::new();
    let mut i: u16 = 0;
    while i < n
        invariant
            i <= n,
            inner.fits(),
            n <= inner.height || n == 1,
            r@ == Seq::new(
                i as nat,
                |k: int| Area { x: inner.x, y: (inner.y + k) as u16, width: inner.width, height: 1 },
            ),
        decreases n - i,
    {
        r.push(Area { x: inner.x, y: inner.y + i, width: inner.width, height: 1 });
        i = i + 1;
        assert(r@ =~= Seq::new(
            i as nat,
            |k: int| Area { x: inner.x, y: (inner.y + k) as u16, width: inner.width, height: 1 },
        ));
    }
    assert(r@ =~= dropdown_items(inner, emails as nat));
    r
}

/// The list of accounts.
pub fn account_dropdown(
    area: Area,
    filter: Area,
    emails: &Vec<String>,
    pane: &LogPane,
    hover: &Hover,
) -> (r: Dropdown)
    requires
        area.fits(),
        filter.y + 1 + area.height <= u16::MAX,
        emails@.len() + 3 <= u16::MAX,
        longest(views(emails@)) + 6 <= u16::MAX,
    ensures
        r.area == dropdown_area(area, filter, views(emails@)),
        r.items@ == dropdown_items(within_border(r.area), emails@.len()),
        lines_view(r.lines@) == dropdown_lines(*pane, *hover, views(emails@)),
{
    let most = longest_of(emails);
    let width: u16 = (if most > 14 {
        most as u16
    } else {
        14
    }) + 6;
    let side: u16 = if area.width >= width {
        area.width - width
    } else {
        0
    };
    let right: u16 = area.x + side;
    let height: u16 = emails.len() as u16 + 3;
    let room: u16 = if area.height >= 4 {
        area.height - 4
    } else {
        0
    };
    let place = Area {
        x: if filter.x <= right {
            filter.x
        } else {
            right
        },
        y: filter.y + 1,
        width: if width <= area.width {
            width
        } else {
            area.width
        },
        height: if height <= room {
            height
        } else {
            room
        },
    };
    assert(place == dropdown_area(area, filter, views(emails@)));
    let inner = place.inside();
    Dropdown {
        area: place,
        items: dropdown_places(inner, emails.len()),
        lines: dropdown_text(pane, hover, emails),
    }
}

/// What is in sight is a part of the list, in order: as many as there is room for or there are,
/// and one that is scrolled up by some ends by so many earlier, unless the list begins there.
pub proof fn a_part_of_the_list_is_in_sight(list: Seq<int>, visible: int, scroll: int)
    requires
        0 <= visible,
        0 <= scroll,
    ensures
        in_sight(list, visible, scroll).len() == (if list.len() < visible {
            list.len() as int
        } else {
            visible
        }),
        visible + scroll <= list.len() ==> in_sight(list, visible, scroll) == list.subrange(
            list.len() - scroll - visible,
            list.len() - scroll,
        ),
        visible + scroll > list.len() ==> in_sight(list, visible, scroll) == list.take(
            in_sight(list, visible, scroll).len() as int,
        ),
{
    if visible + scroll <= list.len() {
        assert(in_sight(list, visible, scroll) =~= list.subrange(
            list.len() - scroll - visible,
            list.len() - scroll,
        ));
    } else {
        assert(in_sight(list, visible, scroll) =~= list.take(
            in_sight(list, visible, scroll).len() as int,
        ));
    }
}

/// Every entry of a list is shown, in order, with the whole text of its line.
pub proof fn entries_are_shown_whole(pane: LogPane, list: Seq<int>, i: int)
    requires
        forall|k: int| 0 <= k < list.len() ==> 0 <= #[trigger] list[k] < pane.entries@.len(),
        0 <= i < list.len(),
    ensures
        entry_lines(pane, list).len() == list.len(),
        crate::spans::text_of_line(entry_lines(pane, list)[i]) == pane.entries@[list[i]].line@,
    decreases list.len(),
{
    let rest = list.drop_last();
    assert forall|k: int| 0 <= k < rest.len() implies 0 <= #[trigger] rest[k]
        < pane.entries@.len() by {
        assert(rest[k] == list[k]);
    }
    assert(0 <= list[list.len() - 1] < pane.entries@.len());
    lemma_entry_lines_len(pane, rest);
    if i < rest.len() {
        entries_are_shown_whole(pane, rest, i);
    } else {
        crate::highlight::highlighting_keeps_the_line(
            pane.entries@[list[i]].line@,
            pane.entries@[list[i]].level,
        );
    }
}

proof fn lemma_entry_lines_len(pane: LogPane, list: Seq<int>)
    requires
        forall|k: int| 0 <= k < list.len() ==> 0 <= #[trigger] list[k] < pane.entries@.len(),
    ensures
        entry_lines(pane, list).len() == list.len(),
    decreases list.len(),
{
    if list.len() > 0 {
        let rest = list.drop_last();
        assert forall|k: int| 0 <= k < rest.len() implies 0 <= #[trigger] rest[k]
            < pane.entries@.len() by {
            assert(rest[k] == list[k]);
        }
        assert(0 <= list[list.len() - 1] < pane.entries@.len());
        lemma_entry_lines_len(pane, rest);
    }
}

/// The list of accounts offers all of them first and then each one, in order, and marks the one
/// that is chosen.
pub proof fn the_list_offers_every_account(
    pane: LogPane,
    hover: Hover,
    emails: Seq<Seq<char>>,
    i: int,
)
    requires
        0 <= i < emails.len(),
    ensures
        dropdown_lines(pane, hover, emails).len() == emails.len() + 1,
        dropdown_lines(pane, hover, emails)[0][1].text == "All Accounts"@,
        dropdown_lines(pane, hover, emails)[i + 1][1].text == emails[i],
        dropdown_lines(pane, hover, emails)[i + 1][0].text == (if opt(pane.account_filter) == Some(
            emails[i],
        ) {
            "\u{25cf} "@
        } else {
            "  "@
        }),
{
}

/// Where filters are set, the toolbar ends with how many entries of how many are shown.
pub proof fn the_toolbar_counts_entries(pane: LogPane, hover: Hover)
    ensures
        pane.is_filtered() ==> toolbar_line(pane, hover).last().text == decimal(
            pane.filtered_indices@.len(),
        ) + "/"@ + decimal(pane.entries@.len()),
{
}

/// What is searched for is shown whole, and behind it the cursor where it is being typed.
pub proof fn the_search_is_shown(query: Seq<char>, active: bool)
    ensures
        search_line(query, active)[1].text == query,
        search_line(query, active).len() == (if active {
            3nat
        } else {
            2nat
        }),
{
}

/// The scrollbar stands at the end where the newest is in sight, and at the beginning where the
/// oldest is.
pub proof fn the_scrollbar_follows_the_view(total: int, visible: int, scroll: int)
    requires
        0 <= visible < total <= usize::MAX,
        0 <= scroll,
    ensures
        scroll_state(total, visible, 0).position == total - 1,
        scroll >= total - visible ==> scroll_state(total, visible, scroll).position == 0,
        scroll_state(total, visible, scroll).content_length == total,
        scroll_state(total, visible, scroll).viewport == visible,
{
    let most = total - visible;
    assert(most * (total - 1) / most == total - 1) by {
        vstd::arithmetic::div_mod::lemma_div_multiples_vanish(total - 1, most);
    }
    if scroll >= total - visible {
        assert(first_in_sight(total, visible, scroll) == 0);
        assert(0 * (total - 1) / most == 0) by {
            vstd::arithmetic::div_mod::lemma_div_basics(most);
        }
    }
}

/// Every email has room in the list of accounts.
pub proof fn the_list_is_wide_enough(emails: Seq<Seq<char>>)
    ensures
        forall|i: int|
            0 <= i < emails.len() ==> byte_len(#[trigger] emails[i]) + 6 <= dropdown_width(emails),
        dropdown_width(emails) >= 20,
    decreases emails.len(),
{
    if emails.len() > 0 {
        let rest = emails.drop_last();
        the_list_is_wide_enough(rest);
        lemma_longest(emails);
    }
}

proof fn lemma_longest(texts: Seq<Seq<char>>)
    ensures
        forall|i: int| 0 <= i < texts.len() ==> byte_len(#[trigger] texts[i]) <= longest(texts),
    decreases texts.len(),
{
    if texts.len() > 0 {
        let rest = texts.drop_last();
        lemma_longest(rest);
        assert forall|i: int| 0 <= i < texts.len() implies byte_len(#[trigger] texts[i])
            <= longest(texts) by {
            if i < rest.len() {
                assert(rest[i] == texts[i]);
            }
        }
    }
}

} // verus!
