//! The log as the dashboard shows it: narrowed down and scrolled.

use std::collections::VecDeque;

use vstd::prelude::*;

use crate::chat::opt;
use crate::log_reader::{append_entries, appended};
use crate::logs::{LogEntry, LogLevel};
use crate::text::{ascii_lower, contains, holds, same};

verus! {

/// What a scrollbar shows.
#[derive(Debug, Clone, Copy, PartialEq, Eq, Structural)]
pub struct ScrollState {
    pub content_length: usize,
    pub viewport: usize,
    pub position: usize,
}

/// The log as it is shown.
pub struct LogPane {
    pub entries: VecDeque<LogEntry>,
    /// How many entries lie below the last one shown; none where the newest is shown.
    pub scroll: usize,
    pub scrollbar: ScrollState,
    /// Whether the newest entry stays in sight when others come.
    pub auto_scroll: bool,
    /// The same two for the recent activity of the overview.
    pub activity_scroll: usize,
    pub activity_auto_scroll: bool,
    /// Which levels are shown: debug, info, warning, error.
    pub level_filter: [bool; 4],
    pub account_filter: Option<String>,
    pub search_active: bool,
    pub search_query: String,
    /// The entries that are shown while any filter is set, by their places.
    pub filtered_indices: Vec<usize>,
    pub dropdown_open: bool,
    /// What is selected in the list of accounts: none of them, or one of them by its place.
    pub dropdown_selected: usize,
}

/// What `to_lowercase` makes of a text.
pub uninterp spec fn lower_text(s: Seq<char>) -> Seq<char>;

/// `str::to_lowercase`: a function of the text, which `lower_text` names. A text of ASCII
/// characters has its letters lowered one by one.
#[verifier::external_body]
pub(crate) fn to_lower(s: &str) -> (r: String)
    ensures
        r@ == lower_text(s@),
        vstd::utf8::is_ascii_chars(s@) ==> r@ == ascii_lower(s@),
{
    s.to_lowercase()
}

/// A level's place among the toggles.
pub open spec fn level_place(l: LogLevel) -> int {
    match l {
        LogLevel::Debug => 0,
        LogLevel::Info => 1,
        LogLevel::Warn => 2,
        LogLevel::Error => 3,
    }
}

/// Whether an entry is shown: its level is, its account is the one asked for or it names
/// none, and it holds what is searched for, whatever the case.
pub open spec fn passes(
    e: LogEntry,
    levels: Seq<bool>,
    account: Option<Seq<char>>,
    query: Seq<char>,
) -> bool {
    &&& levels[level_place(e.level)]
    &&& match (account, e.account_email) {
        (Some(wanted), Some(email)) => email@ == wanted,
        _ => true,
    }
    &&& query.len() > 0 ==> holds(lower_text(e.line@), lower_text(query))
}

/// The places of the entries that are shown.
pub open spec fn shown(
    logs: Seq<LogEntry>,
    levels: Seq<bool>,
    account: Option<Seq<char>>,
    query: Seq<char>,
) -> Seq<int>
    decreases logs.len(),
{
    if logs.len() == 0 {
        Seq::empty()
    } else {
        let before = shown(logs.drop_last(), levels, account, query);
        if passes(logs.last(), levels, account, query) {
            before.push(logs.len() - 1)
        } else {
            before
        }
    }
}

/// The places that a list of indices gives.
pub open spec fn places(v: Seq<usize>) -> Seq<int> {
    Seq::new(v.len(), |i: int| v[i] as int)
}

/// Whether an entry is shown.
fn entry_passes(
    e: &LogEntry,
    levels: &[bool; 4],
    account: &Option<String>,
    query: &str,
) -> (r: bool)
    ensures
        r == passes(*e, levels@, opt(*account), query@),
{
    let place: usize = match e.level {
        LogLevel::Debug => 0,
        LogLevel::Info => 1,
        LogLevel::Warn => 2,
        LogLevel::Error => 3,
    };
    if !levels[place] {
        return false;
    }
    match (account, &e.account_email) {
        (Some(wanted), Some(email)) => {
            if !same(email, wanted) {
                return false;
            }
        },
        _ => {},
    }
    if query.is_empty() {
        return true;
    }
    let q = to_lower(query);
    let line = to_lower(&e.line);
    contains(&line, &q)
}

/// `a` less `b`, at least nothing.
pub open spec fn minus(a: int, b: int) -> int {
    if a >= b {
        a - b
    } else {
        0
    }
}

/// The toggles with one of them turned.
pub open spec fn toggled(levels: Seq<bool>, i: int) -> Seq<bool> {
    levels.update(i, !levels[i])
}

/// Turning a toggle twice leaves everything as it was.
pub proof fn toggling_twice_changes_nothing(levels: Seq<bool>, i: int)
    requires
        0 <= i < levels.len(),
    ensures
        toggled(toggled(levels, i), i) == levels,
{
    assert(toggled(toggled(levels, i), i) =~= levels);
}

/// The scrollbar of a log: where it stands when the newest entries are `scroll` below.
pub open spec fn scrollbar_at(before: ScrollState, total: nat, scroll: int) -> ScrollState {
    ScrollState {
        content_length: total as usize,
        viewport: before.viewport,
        position: minus(minus(total as int, 1), scroll) as usize,
    }
}

/// How far a log of `total` entries is scrolled after `amount` more, up to its oldest entry.
pub open spec fn scrolled_up(scroll: int, amount: int, total: nat) -> int {
    let most = minus(total as int, 1);
    if scroll + amount <= most {
        scroll + amount
    } else {
        most
    }
}

/// How far a log of `total` entries is scrolled after `amount` more.
fn scroll_more(scroll: usize, amount: usize, total: usize) -> (r: usize)
    ensures
        r == scrolled_up(scroll as int, amount as int, total as nat),
{
    let most: usize = if total >= 1 {
        total - 1
    } else {
        0
    };
    if scroll <= most && amount <= most - scroll {
        scroll + amount
    } else {
        most
    }
}

impl LogPane {
    /// Whether this is the pane before anything was done to it: the newest entries in sight,
    /// no filter set, nothing searched for.
    pub open spec fn is_fresh(&self, entries: VecDeque<LogEntry>) -> bool {
        &&& self.entries == entries
        &&& self.scroll == 0
        &&& self.scrollbar == (ScrollState {
            content_length: entries@.len() as usize,
            viewport: 0,
            position: 0,
        })
        &&& self.auto_scroll
        &&& self.activity_scroll == 0
        &&& self.activity_auto_scroll
        &&& forall|i: int| 0 <= i < 4 ==> self.level_filter@[i]
        &&& self.account_filter is None
        &&& !self.search_active
        &&& self.search_query@.len() == 0
        &&& self.filtered_indices@.len() == 0
        &&& !self.dropdown_open
        &&& self.dropdown_selected == 0
    }

    /// The log when the dashboard starts: at its newest entry, with no filter set.
    pub fn new(entries: VecDeque<LogEntry>) -> (r: LogPane)
        ensures
            r.is_fresh(entries),
            !r.is_filtered(),
    {
        let n: usize = entries.len();
        LogPane {
            entries,
            scroll: 0,
            scrollbar: ScrollState { content_length: n, viewport: 0, position: 0 },
            auto_scroll: true,
            activity_scroll: 0,
            activity_auto_scroll: true,
            level_filter: [true, true, true, true],
            account_filter: None,
            search_active: false,
            search_query: String::new(),
            filtered_indices: Vec::new(),
            dropdown_open: false,
            dropdown_selected: 0,
        }
    }

    /// The places of the entries that the filters let through.
    pub open spec fn filtered(&self) -> Seq<int> {
        shown(self.entries@, self.level_filter@, opt(self.account_filter), self.search_query@)
    }

    /// Whether the places kept are those of the entries that the filters let through.
    pub open spec fn is_refiltered(&self) -> bool {
        places(self.filtered_indices@) == self.filtered()
    }

    /// Finds the entries that the filters let through.
    pub fn refilter(&mut self)
        ensures
            *final(self) == (LogPane {
                filtered_indices: final(self).filtered_indices,
                ..*old(self)
            }),
            final(self).is_refiltered(),
    {
        let mut found: Vec<usize> = Vec::new();
        let ghost all = self.entries@;
        let ghost levels = self.level_filter@;
        let ghost account = opt(self.account_filter);
        let ghost query = self.search_query@;
        let n: usize = self.entries.len();
        let mut i: usize = 0;
        assert(all.take(0) =~= Seq::empty());
        assert(places(found@) =~= shown(all.take(0), levels, account, query));
        while i < n
            invariant
                i <= n == all.len(),
                self.entries@ == all,
                self.level_filter@ == levels,
                opt(self.account_filter) == account,
                self.search_query@ == query,
                places(found@) == shown(all.take(i as int), levels, account, query),
            decreases n - i,
        {
            assert(all.take(i + 1).drop_last() =~= all.take(i as int));
            if entry_passes(
                &self.entries[i],
                &self.level_filter,
                &self.account_filter,
                &self.search_query,
            ) {
                let ghost before = places(found@);
                found.push(i);
                assert(places(found@) =~= before.push(i as int));
            }
            i = i + 1;
        }
        assert(all.take(all.len() as int) =~= all);
        self.filtered_indices = found;
    }

    /// Whether any filter is set.
    pub open spec fn is_filtered(&self) -> bool {
        ||| !(self.level_filter@[0] && self.level_filter@[1] && self.level_filter@[2]
            && self.level_filter@[3])
        ||| self.account_filter is Some
        ||| self.search_query@.len() > 0
    }

    /// Whether any filter is set.
    pub fn has_active_filter(&self) -> (r: bool)
        ensures
            r == self.is_filtered(),
    {
        !(self.level_filter[0] && self.level_filter[1] && self.level_filter[2]
            && self.level_filter[3]) || self.account_filter.is_some()
            || !self.search_query.as_str().is_empty()
    }

    /// Turns a level on or off. There is no fifth level.
    pub fn toggle_level(&mut self, level_idx: usize)
        ensures
            level_turned(*old(self), level_idx as int, *final(self)),
    {
        if level_idx < 4 {
            let mut levels = self.level_filter;
            levels[level_idx] = !levels[level_idx];
            self.level_filter = levels;
            self.refilter();
        }
    }

    /// Removes all filters.
    pub fn clear_filters(&mut self)
        ensures
            filters_cleared(*old(self), *final(self)),
    {
        self.level_filter = [true, true, true, true];
        self.account_filter = None;
        self.search_query = String::new();
        self.search_active = false;
        self.filtered_indices = Vec::new();
    }

    /// This log scrolled, and the scrollbar in step.
    pub open spec fn scrolled_to(self, scroll: int, auto: bool) -> LogPane {
        LogPane {
            scroll: scroll as usize,
            auto_scroll: auto,
            scrollbar: scrollbar_at(self.scrollbar, self.entries@.len(), scroll),
            ..self
        }
    }

    /// Scrolls to `scroll`, and keeps the scrollbar in step.
    pub fn set_scroll(&mut self, scroll: usize, auto: bool)
        ensures
            *final(self) == old(self).scrolled_to(scroll as int, auto),
    {
        let n: usize = self.entries.len();
        let most: usize = if n >= 1 {
            n - 1
        } else {
            0
        };
        let position: usize = if most >= scroll {
            most - scroll
        } else {
            0
        };
        self.scroll = scroll;
        self.auto_scroll = auto;
        self.scrollbar =
        ScrollState { content_length: n, viewport: self.scrollbar.viewport, position };
    }

    /// This log scrolled towards older entries.
    pub open spec fn up(self, amount: int) -> LogPane {
        self.scrolled_to(scrolled_up(self.scroll as int, amount, self.entries@.len()), false)
    }

    /// Scrolls towards older entries.
    pub fn scroll_up(&mut self, amount: usize)
        ensures
            *final(self) == old(self).up(amount as int),
    {
        let n: usize = self.entries.len();
        let scroll = scroll_more(self.scroll, amount, n);
        self.set_scroll(scroll, false);
    }

    /// This log scrolled towards newer entries. At the newest it stays there.
    pub open spec fn down(self, amount: int) -> LogPane {
        let scroll = minus(self.scroll as int, amount);
        self.scrolled_to(scroll, self.auto_scroll || scroll == 0)
    }

    /// Scrolls towards newer entries.
    pub fn scroll_down(&mut self, amount: usize)
        ensures
            *final(self) == old(self).down(amount as int),
    {
        let scroll: usize = if self.scroll >= amount {
            self.scroll - amount
        } else {
            0
        };
        let auto = self.auto_scroll || scroll == 0;
        self.set_scroll(scroll, auto);
    }

    /// The recent activity scrolled towards older entries.
    pub open spec fn activity_up(self, amount: int) -> LogPane {
        LogPane {
            activity_scroll: scrolled_up(
                self.activity_scroll as int,
                amount,
                self.entries@.len(),
            ) as usize,
            activity_auto_scroll: false,
            ..self
        }
    }

    /// Scrolls the recent activity towards older entries.
    pub fn scroll_activity_up(&mut self, amount: usize)
        ensures
            *final(self) == old(self).activity_up(amount as int),
    {
        let n: usize = self.entries.len();
        self.activity_scroll = scroll_more(self.activity_scroll, amount, n);
        self.activity_auto_scroll = false;
    }

    /// The recent activity scrolled towards newer entries. At the newest it stays there.
    pub open spec fn activity_down(self, amount: int) -> LogPane {
        let scroll = minus(self.activity_scroll as int, amount);
        LogPane {
            activity_scroll: scroll as usize,
            activity_auto_scroll: self.activity_auto_scroll || scroll == 0,
            ..self
        }
    }

    /// Scrolls the recent activity towards newer entries.
    pub fn scroll_activity_down(&mut self, amount: usize)
        ensures
            *final(self) == old(self).activity_down(amount as int),
    {
        let scroll: usize = if self.activity_scroll >= amount {
            self.activity_scroll - amount
        } else {
            0
        };
        let auto = self.activity_auto_scroll || scroll == 0;
        self.activity_scroll = scroll;
        self.activity_auto_scroll = auto;
    }

    /// Takes entries that have come. What was at its newest entry stays there; the filters
    /// are applied anew.
    pub fn take_entries(&mut self, new_entries: Vec<LogEntry>)
        ensures
            entries_taken(*old(self), new_entries@, *final(self)),
    {
        let n: usize = new_entries.len();
        append_entries(&mut self.entries, new_entries);
        let scroll: usize = if n > 0 && self.auto_scroll {
            0
        } else {
            self.scroll
        };
        let activity: usize = if n > 0 && self.activity_auto_scroll {
            0
        } else {
            self.activity_scroll
        };
        self.scroll = scroll;
        self.activity_scroll = activity;
        if self.has_active_filter() {
            self.refilter();
        }
    }
}

/// Whether `b` is `a` with one level turned and the entries found anew; `a` itself where
/// there is no such level.
pub open spec fn level_turned(a: LogPane, i: int, b: LogPane) -> bool {
    if 0 <= i < 4 {
        &&& b == (LogPane {
            level_filter: b.level_filter,
            filtered_indices: b.filtered_indices,
            ..a
        })
        &&& b.level_filter@ == toggled(a.level_filter@, i)
        &&& b.is_refiltered()
    } else {
        b == a
    }
}

/// Whether `b` is `a` without filters.
pub open spec fn filters_cleared(a: LogPane, b: LogPane) -> bool {
    &&& b == (LogPane {
        level_filter: b.level_filter,
        account_filter: None,
        search_active: false,
        search_query: b.search_query,
        filtered_indices: b.filtered_indices,
        ..a
    })
    &&& !b.is_filtered()
    &&& b.filtered_indices@.len() == 0
}

/// Whether `b` is `a` with entries that have come.
pub open spec fn entries_taken(a: LogPane, new: Seq<LogEntry>, b: LogPane) -> bool {
    &&& b == (LogPane {
        entries: b.entries,
        scroll: if new.len() > 0 && a.auto_scroll {
            0
        } else {
            a.scroll
        },
        activity_scroll: if new.len() > 0 && a.activity_auto_scroll {
            0
        } else {
            a.activity_scroll
        },
        filtered_indices: b.filtered_indices,
        ..a
    })
    &&& b.entries@ == appended(a.entries@, new)
    &&& if a.is_filtered() {
        b.is_refiltered()
    } else {
        b.filtered_indices == a.filtered_indices
    }
}

/// A log that was scrolled up and down again by as much is where it was, unless it was
/// already at its oldest entry or would have gone past it.
pub proof fn scrolling_back_undoes_scrolling(scroll: int, amount: int, total: nat)
    requires
        0 <= scroll,
        0 <= amount,
        scroll + amount <= minus(total as int, 1),
    ensures
        minus(scrolled_up(scroll, amount, total), amount) == scroll,
{
}

/// However far a log is scrolled, one of its entries stays in sight.
pub proof fn scrolling_stays_in_the_log(scroll: int, amount: int, total: nat)
    requires
        0 <= scroll,
        0 <= amount,
        total > 0,
    ensures
        0 <= scrolled_up(scroll, amount, total) < total,
{
}

proof fn lemma_all_shown(logs: Seq<LogEntry>, levels: Seq<bool>)
    requires
        levels.len() == 4,
        levels[0] && levels[1] && levels[2] && levels[3],
    ensures
        shown(logs, levels, None, Seq::empty()) == Seq::new(logs.len(), |i: int| i),
    decreases logs.len(),
{
    if logs.len() > 0 {
        lemma_all_shown(logs.drop_last(), levels);
    }
    assert(shown(logs, levels, None, Seq::empty()) =~= Seq::new(logs.len(), |i: int| i));
}

/// With no filter set every entry is shown.
pub proof fn without_filters_all_is_shown(pane: LogPane)
    requires
        !pane.is_filtered(),
    ensures
        pane.filtered() == Seq::new(pane.entries@.len(), |i: int| i),
{
    assert(pane.search_query@ =~= Seq::empty());
    lemma_all_shown(pane.entries@, pane.level_filter@);
}

proof fn lemma_shown(
    logs: Seq<LogEntry>,
    levels: Seq<bool>,
    account: Option<Seq<char>>,
    query: Seq<char>,
    i: int,
)
    requires
        0 <= i < logs.len(),
    ensures
        shown(logs, levels, account, query).contains(i) <==> passes(
            logs[i],
            levels,
            account,
            query,
        ),
        forall|k: int|
            0 <= k < shown(logs, levels, account, query).len() ==> 0 <= #[trigger] shown(
                logs,
                levels,
                account,
                query,
            )[k] < logs.len(),
    decreases logs.len(),
{
    let rest = logs.drop_last();
    let before = shown(rest, levels, account, query);
    let all = shown(logs, levels, account, query);
    lemma_places_bounded(rest, levels, account, query);
    lemma_places_bounded(logs, levels, account, query);
    if i < rest.len() {
        lemma_shown(rest, levels, account, query, i);
        assert(rest[i] == logs[i]);
        if before.contains(i) {
            let k = choose|k: int| 0 <= k < before.len() && before[k] == i;
            assert(all[k] == i);
        }
        if all.contains(i) {
            let k = choose|k: int| 0 <= k < all.len() && all[k] == i;
            assert(k < before.len());
            assert(before[k] == i);
        }
    } else {
        if passes(logs[i], levels, account, query) {
            assert(all[before.len() as int] == i);
        } else if all.contains(i) {
            let k = choose|k: int| 0 <= k < all.len() && all[k] == i;
            assert(before[k] == i);
        }
    }
}

proof fn lemma_places_bounded(
    logs: Seq<LogEntry>,
    levels: Seq<bool>,
    account: Option<Seq<char>>,
    query: Seq<char>,
)
    ensures
        forall|k: int|
            0 <= k < shown(logs, levels, account, query).len() ==> 0 <= #[trigger] shown(
                logs,
                levels,
                account,
                query,
            )[k] < logs.len(),
    decreases logs.len(),
{
    if logs.len() > 0 {
        let before = shown(logs.drop_last(), levels, account, query);
        let all = shown(logs, levels, account, query);
        lemma_places_bounded(logs.drop_last(), levels, account, query);
        assert forall|k: int| 0 <= k < all.len() implies 0 <= #[trigger] all[k] < logs.len() by {
            if k < before.len() {
                assert(all[k] == before[k]);
            }
        }
    }
}

proof fn lemma_places_increase(
    logs: Seq<LogEntry>,
    levels: Seq<bool>,
    account: Option<Seq<char>>,
    query: Seq<char>,
)
    ensures
        forall|j: int, k: int|
            0 <= j < k < shown(logs, levels, account, query).len() ==> #[trigger] shown(
                logs,
                levels,
                account,
                query,
            )[j] < #[trigger] shown(logs, levels, account, query)[k],
    decreases logs.len(),
{
    if logs.len() > 0 {
        let before = shown(logs.drop_last(), levels, account, query);
        let all = shown(logs, levels, account, query);
        lemma_places_increase(logs.drop_last(), levels, account, query);
        lemma_places_bounded(logs.drop_last(), levels, account, query);
        assert forall|j: int, k: int| 0 <= j < k < all.len() implies #[trigger] all[j]
            < #[trigger] all[k] by {
            assert(all[j] == before[j]);
            if k < before.len() {
                assert(all[k] == before[k]);
            }
        }
    }
}

/// An entry is shown exactly where the filters let it through, nothing that is shown lies
/// outside the log, and the entries are shown in their order, each once.
pub proof fn the_filters_decide_what_is_shown(pane: LogPane, i: int)
    requires
        0 <= i < pane.entries@.len(),
    ensures
        pane.filtered().contains(i) <==> passes(
            pane.entries@[i],
            pane.level_filter@,
            opt(pane.account_filter),
            pane.search_query@,
        ),
        forall|k: int|
            0 <= k < pane.filtered().len() ==> 0 <= #[trigger] pane.filtered()[k]
                < pane.entries@.len(),
        forall|j: int, k: int|
            0 <= j < k < pane.filtered().len() ==> #[trigger] pane.filtered()[j]
                < #[trigger] pane.filtered()[k],
{
    lemma_places_increase(
        pane.entries@,
        pane.level_filter@,
        opt(pane.account_filter),
        pane.search_query@,
    );
    lemma_shown(
        pane.entries@,
        pane.level_filter@,
        opt(pane.account_filter),
        pane.search_query@,
        i,
    );
}

/// An entry is shown exactly where its level is turned on, it is not another account's than the
/// one that is chosen, and it holds what is searched for, in any case. Entries of no account
/// belong to all.
pub proof fn entries_pass_by_level_account_and_text(
    e: LogEntry,
    levels: Seq<bool>,
    account: Option<Seq<char>>,
    query: Seq<char>,
)
    requires
        levels.len() == 4,
    ensures
        !levels[0] && e.level == LogLevel::Debug ==> !passes(e, levels, account, query),
        !levels[1] && e.level == LogLevel::Info ==> !passes(e, levels, account, query),
        !levels[2] && e.level == LogLevel::Warn ==> !passes(e, levels, account, query),
        !levels[3] && e.level == LogLevel::Error ==> !passes(e, levels, account, query),
        account is Some && e.account_email is Some && e.account_email->0@ != account->0 ==> !passes(
            e,
            levels,
            account,
            query,
        ),
        query.len() > 0 && !holds(lower_text(e.line@), lower_text(query)) ==> !passes(
            e,
            levels,
            account,
            query,
        ),
        levels[0] && levels[1] && levels[2] && levels[3] && (account is None || e.account_email
            is None || e.account_email->0@ == account->0) && (query.len() == 0 || holds(
            lower_text(e.line@),
            lower_text(query),
        )) ==> passes(e, levels, account, query),
{
}

/// Entries that come are put behind those that are there; a log that follows its end goes on
/// to do so, and one that was scrolled stays where it is. No filter changes.
pub proof fn new_entries_stand_behind(a: LogPane, new: Seq<LogEntry>, b: LogPane)
    requires
        entries_taken(a, new, b),
        a.entries@.len() <= crate::log_reader::MAX_LOG_ENTRIES,
    ensures
        b.entries@ == crate::usage::newest(a.entries@ + new, 1000),
        a.auto_scroll && new.len() > 0 ==> b.scroll == 0,
        !a.auto_scroll ==> b.scroll == a.scroll,
        b.auto_scroll == a.auto_scroll,
        b.level_filter == a.level_filter,
        b.account_filter == a.account_filter,
        b.search_query == a.search_query,
        a.is_filtered() ==> places(b.filtered_indices@) == b.filtered(),
{
    crate::log_reader::the_newest_entries_are_kept(a.entries@, new);
}

/// Turning a level on or off turns no other, and what is shown follows.
pub proof fn levels_are_turned_one_by_one(a: LogPane, i: int, b: LogPane, k: int)
    requires
        level_turned(a, i, b),
        0 <= i < 4,
        0 <= k < 4,
    ensures
        b.level_filter@[k] == (if k == i {
            !a.level_filter@[k]
        } else {
            a.level_filter@[k]
        }),
        places(b.filtered_indices@) == b.filtered(),
        b.entries == a.entries,
        b.account_filter == a.account_filter,
        b.search_query == a.search_query,
        b.scroll == a.scroll,
{
}

/// Clearing the filters turns every level on, chooses no account and searches for nothing; the
/// log itself stays.
pub proof fn clearing_filters_shows_all(a: LogPane, b: LogPane)
    requires
        filters_cleared(a, b),
    ensures
        forall|i: int| 0 <= i < 4 ==> #[trigger] b.level_filter@[i],
        b.account_filter is None,
        b.search_query@.len() == 0,
        b.entries == a.entries,
        b.scroll == a.scroll,
{
}

} // verus!
