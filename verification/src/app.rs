//! The dashboard's state.

use std::collections::VecDeque;

use vstd::prelude::*;

use crate::audio::push_two_digits;
use crate::config_editor::ConfigField;
use crate::config_pane::ConfigPane;
use crate::log_pane::{entries_taken, level_turned, minus, LogPane};
use crate::logs::{
    build_rate_history, calculate_avg_response_time, calculate_requests_per_min,
    count_requests_from_logs, duration_list, find_daemon_start_time, history_start, last_start,
    model_counts, ranked, recent_count, request_count, seconds_count, total_of, usages, LogEntry,
    ModelUsage, ServerStatus,
};
use crate::order::{in_order, names_in_order};
use crate::tabs::{Area, Tab};
use crate::text::{two_digits, views};
use crate::warnings::StartupWarning;

verus! {

/// An account as it is listed.
#[derive(Debug, Clone, PartialEq)]
pub struct AccountInfo {
    pub id: String,
    pub email: String,
    pub is_active: bool,
    pub enabled: bool,
    pub is_invalid: bool,
    pub subscription_tier: Option<String>,
}

/// What is known of a newer version.
#[derive(Debug, Clone, PartialEq)]
pub enum UpdateStatus {
    /// Not looked for yet.
    NotChecked,
    /// Being looked for.
    Checking,
    /// There is none.
    UpToDate,
    /// There is one.
    UpdateAvailable { current: String, latest: String },
    /// It could not be looked for.
    Error(String),
}

/// What is on the screen whatever the tab.
#[derive(Debug, Clone, Copy, PartialEq, Eq, Structural)]
pub struct Shell {
    pub running: bool,
    pub current_tab: Tab,
    pub show_help: bool,
    /// Whether the help was shown when the screen was last drawn.
    pub prev_show_help: bool,
    pub startup_done: bool,
    /// Whether the tab has changed since the screen was last drawn.
    pub trigger_tab_effect: bool,
    pub animation_time_ms: u64,
    pub dragging_scrollbar: bool,
    /// How far the scrollbar's thumb is from where it was taken hold of.
    pub scrollbar_drag_offset: i16,
}

/// Where things were last drawn.
pub struct Areas {
    pub tabs: Vec<Area>,
    pub tabs_row: Area,
    pub logs: Area,
    pub scrollbar: Area,
    pub accounts: Area,
    pub activity: Area,
    pub config: Area,
    pub about: Area,
    pub level_badges: [Area; 4],
    pub account_filter: Area,
    pub dropdown: Area,
    pub dropdown_items: Vec<Area>,
    pub search: Area,
}

impl Areas {
    /// Whether nothing has been drawn yet.
    pub open spec fn are_nowhere(&self) -> bool {
        let none = Area { x: 0, y: 0, width: 0, height: 0 };
        &&& self.tabs@.len() == 0
        &&& self.tabs_row == none
        &&& self.logs == none
        &&& self.scrollbar == none
        &&& self.accounts == none
        &&& self.activity == none
        &&& self.config == none
        &&& self.about == none
        &&& forall|i: int| 0 <= i < 4 ==> self.level_badges@[i] == none
        &&& self.account_filter == none
        &&& self.dropdown == none
        &&& self.dropdown_items@.len() == 0
        &&& self.search == none
    }
}

/// What the mouse is over.
#[derive(Debug, Clone, Copy, PartialEq, Eq, Structural)]
pub struct Hover {
    pub column: u16,
    pub row: u16,
    pub tab: Option<usize>,
    pub account: Option<usize>,
    pub config: Option<usize>,
    pub log_level: Option<usize>,
    pub log_account: bool,
    pub dropdown_item: Option<usize>,
    pub about_link: bool,
}

/// What the overview shows, as it was last counted.
pub struct OverviewData {
    pub daemon_start_time: Option<u64>,
    pub request_count: u64,
    pub model_usage: Vec<ModelUsage>,
    pub rate_history: Vec<u64>,
    pub avg_response_ms: Option<u64>,
    pub requests_per_min: usize,
    pub uptime: String,
    pub server_status: ServerStatus,
}

/// The dashboard's state.
pub struct App {
    pub shell: Shell,
    pub log: LogPane,
    pub config: ConfigPane,
    pub areas: Areas,
    pub hover: Hover,
    pub overview: OverviewData,
    pub accounts: Vec<AccountInfo>,
    pub account_selected: usize,
    pub quota_fetch_pending: bool,
    pub startup_warnings: Vec<StartupWarning>,
    pub show_startup_warnings: bool,
    pub update_status: UpdateStatus,
}

/// The emails of the accounts that have one.
pub open spec fn account_emails(a: Seq<AccountInfo>) -> Seq<Seq<char>>
    decreases a.len(),
{
    if a.len() == 0 {
        Seq::empty()
    } else {
        let before = account_emails(a.drop_last());
        if a.last().email@.len() > 0 {
            before.push(a.last().email@)
        } else {
            before
        }
    }
}

/// The emails that log entries name.
pub open spec fn logged_emails(l: Seq<LogEntry>) -> Seq<Seq<char>>
    decreases l.len(),
{
    if l.len() == 0 {
        Seq::empty()
    } else {
        let before = logged_emails(l.drop_last());
        match l.last().account_email {
            Some(e) => before.push(e@),
            None => before,
        }
    }
}

/// How long the server has run, as hours, minutes and seconds.
pub open spec fn uptime_text(start: Option<u64>, now: u64) -> Seq<char> {
    match start {
        Some(s) => {
            let t = minus(now as int, s as int) as nat;
            two_digits(t / 3600) + ":"@ + two_digits((t % 3600) / 60) + ":"@ + two_digits(t % 60)
        },
        None => "00:00:00"@,
    }
}

/// What has become of something that was started in the background.
#[derive(Debug, Clone, Copy, PartialEq, Eq, Structural)]
pub enum Background {
    /// Nothing was started.
    Idle,
    /// It has not ended.
    Waiting,
    /// It has ended with a result.
    Done,
    /// It has ended without one.
    Gone,
}

/// What has become of the search for a newer version.
#[derive(Debug, Clone, PartialEq)]
pub enum UpdateEvent {
    Idle,
    Waiting,
    Done(UpdateStatus),
    Gone,
}

/// The mean duration of the requests of a log.
pub open spec fn mean_duration(logs: Seq<LogEntry>) -> Option<u64> {
    if duration_list(logs).len() == 0 || total_of(duration_list(logs)) > u64::MAX {
        None
    } else {
        Some((total_of(duration_list(logs)) / duration_list(logs).len()) as u64)
    }
}

/// The later of two starts of the server.
pub open spec fn later_start(was: Option<u64>, found: Option<int>) -> Option<u64> {
    match found {
        Some(s) => match was {
            Some(w) => if s > w {
                Some(s as u64)
            } else {
                was
            },
            None => Some(s as u64),
        },
        None => was,
    }
}

impl OverviewData {
    /// Whether nothing has been counted yet, of a server that started at a moment.
    pub open spec fn is_uncounted(&self, daemon_start_time: Option<u64>) -> bool {
        &&& self.daemon_start_time == daemon_start_time
        &&& self.request_count == 0
        &&& self.model_usage@.len() == 0
        &&& self.rate_history@.len() == 0
        &&& self.avg_response_ms is None
        &&& self.requests_per_min == 0
        &&& self.uptime@ == "00:00:00"@
        &&& self.server_status == ServerStatus::Running
    }

    /// Whether this is what was counted of a log at `now`.
    pub open spec fn counts(&self, logs: Seq<LogEntry>, now: u64) -> bool {
        &&& self.request_count == request_count(logs)
        &&& ranked(usages(self.model_usage@))
        &&& usages(self.model_usage@).to_multiset() == model_counts(logs).to_multiset()
        &&& self.rate_history@ == Seq::new(
            60,
            |i: int|
                if now == 0 {
                    0u64
                } else {
                    seconds_count(logs, history_start(now) + i, now) as u64
                },
        )
        &&& self.avg_response_ms == mean_duration(logs)
        &&& self.requests_per_min == recent_count(logs, now)
    }

    /// How long the server has run.
    pub fn get_daemon_uptime(&self, now: u64) -> (r: String)
        ensures
            r@ == uptime_text(self.daemon_start_time, now),
    {
        match self.daemon_start_time {
            Some(start) => {
                let t: u64 = if now >= start {
                    now - start
                } else {
                    0
                };
                let mut r = String::new();
                push_two_digits(&mut r, t / 3600);
                r.push_str(":");
                push_two_digits(&mut r, (t % 3600) / 60);
                r.push_str(":");
                push_two_digits(&mut r, t % 60);
                assert(r@ =~= uptime_text(self.daemon_start_time, now));
                r
            },
            None => "00:00:00".to_owned(),
        }
    }

    /// Counts a log anew at `now`. A later start of the server is noted.
    pub fn refresh(&mut self, logs: &VecDeque<LogEntry>, now: u64)
        ensures
            final(self).counts(logs@, now),
            final(self).daemon_start_time == later_start(
                old(self).daemon_start_time,
                last_start(logs@),
            ),
            final(self).uptime@ == uptime_text(final(self).daemon_start_time, now),
            final(self).server_status == old(self).server_status,
    {
        match find_daemon_start_time(logs) {
            Some(start) => match self.daemon_start_time {
                Some(was) => {
                    if start > was {
                        self.daemon_start_time = Some(start);
                    }
                },
                None => {
                    self.daemon_start_time = Some(start);
                },
            },
            None => {},
        }
        let (count, models) = count_requests_from_logs(logs);
        self.request_count = count;
        self.model_usage = models;
        self.rate_history = build_rate_history(logs, now);
        self.avg_response_ms = calculate_avg_response_time(logs);
        self.requests_per_min = calculate_requests_per_min(logs, now);
        self.uptime = self.get_daemon_uptime(now);
    }
}

/// Whether `b` is `a` with entries that have come at `now`.
pub open spec fn logs_refreshed(a: App, new: Seq<LogEntry>, now: u64, b: App) -> bool {
    &&& b == (App { log: b.log, overview: b.overview, ..a })
    &&& entries_taken(a.log, new, b.log)
    &&& b.overview.counts(b.log.entries@, now)
    &&& b.overview.daemon_start_time == later_start(
        a.overview.daemon_start_time,
        last_start(b.log.entries@),
    )
    &&& b.overview.uptime@ == uptime_text(b.overview.daemon_start_time, now)
    &&& b.overview.server_status == a.overview.server_status
}

impl App {
    /// The dashboard when it starts, from what was read of the log, the accounts and the
    /// settings.
    pub fn new(
        entries: VecDeque<LogEntry>,
        daemon_start_time: Option<u64>,
        accounts: Vec<AccountInfo>,
        fields: Vec<ConfigField>,
    ) -> (r: App)
        ensures
            r.shell == (Shell {
                running: true,
                current_tab: Tab::Overview,
                show_help: false,
                prev_show_help: false,
                startup_done: false,
                trigger_tab_effect: false,
                animation_time_ms: 0,
                dragging_scrollbar: false,
                scrollbar_drag_offset: 0,
            }),
            r.log.is_fresh(entries),
            r.config.is_fresh(fields),
            r.areas.are_nowhere(),
            r.hover == (Hover {
                column: 0,
                row: 0,
                tab: None,
                account: None,
                config: None,
                log_level: None,
                log_account: false,
                dropdown_item: None,
                about_link: false,
            }),
            r.overview.is_uncounted(daemon_start_time),
            r.accounts == accounts,
            r.account_selected == 0,
            !r.quota_fetch_pending,
            r.startup_warnings@.len() == 0,
            !r.show_startup_warnings,
            r.update_status == UpdateStatus::NotChecked,
    {
        App {
            shell: Shell {
                running: true,
                current_tab: Tab::Overview,
                show_help: false,
                prev_show_help: false,
                startup_done: false,
                trigger_tab_effect: false,
                animation_time_ms: 0,
                dragging_scrollbar: false,
                scrollbar_drag_offset: 0,
            },
            log: LogPane::new(entries),
            config: ConfigPane::new(fields),
            areas: Areas {
                tabs: Vec::new(),
                tabs_row: Area::nowhere(),
                logs: Area::nowhere(),
                scrollbar: Area::nowhere(),
                accounts: Area::nowhere(),
                activity: Area::nowhere(),
                config: Area::nowhere(),
                about: Area::nowhere(),
                level_badges: [Area::nowhere(), Area::nowhere(), Area::nowhere(), Area::nowhere()],
                account_filter: Area::nowhere(),
                dropdown: Area::nowhere(),
                dropdown_items: Vec::new(),
                search: Area::nowhere(),
            },
            hover: Hover {
                column: 0,
                row: 0,
                tab: None,
                account: None,
                config: None,
                log_level: None,
                log_account: false,
                dropdown_item: None,
                about_link: false,
            },
            overview: OverviewData {
                daemon_start_time,
                request_count: 0,
                model_usage: Vec::new(),
                rate_history: Vec::new(),
                avg_response_ms: None,
                requests_per_min: 0,
                uptime: "00:00:00".to_owned(),
                server_status: ServerStatus::Running,
            },
            accounts,
            account_selected: 0,
            quota_fetch_pending: false,
            startup_warnings: Vec::new(),
            show_startup_warnings: false,
            update_status: UpdateStatus::NotChecked,
        }
    }

    /// Takes log entries that have come, at `now`. What was at its newest entry stays there;
    /// a later start of the server is noted; everything that is counted or filtered is done
    /// anew.
    pub fn refresh_logs(&mut self, new_entries: Vec<LogEntry>, now: u64)
        ensures
            logs_refreshed(*old(self), new_entries@, now, *final(self)),
    {
        self.log.take_entries(new_entries);
        self.overview.refresh(&self.log.entries, now);
    }

    /// Finds the log entries that the filters let through.
    pub fn refilter_logs(&mut self)
        ensures
            *final(self) == (App { log: final(self).log, ..*old(self) }),
            final(self).log == (LogPane {
                filtered_indices: final(self).log.filtered_indices,
                ..old(self).log
            }),
            final(self).log.is_refiltered(),
    {
        self.log.refilter();
    }

    /// Whether any filter is set on the log.
    pub fn has_active_log_filter(&self) -> (r: bool)
        ensures
            r == self.log.is_filtered(),
    {
        self.log.has_active_filter()
    }

    /// Turns a level of the log on or off. There is no fifth level.
    pub fn toggle_log_level(&mut self, level_idx: usize)
        ensures
            *final(self) == (App { log: final(self).log, ..*old(self) }),
            level_turned(old(self).log, level_idx as int, final(self).log),
    {
        self.log.toggle_level(level_idx);
    }

    /// How long the server has run.
    pub fn get_daemon_uptime(&self, now: u64) -> (r: String)
        ensures
            r@ == uptime_text(self.overview.daemon_start_time, now),
    {
        self.overview.get_daemon_uptime(now)
    }

    /// The emails that can be filtered by.
    pub open spec fn emails(&self) -> Seq<Seq<char>> {
        in_order(account_emails(self.accounts@) + logged_emails(self.log.entries@))
    }

    /// The emails that can be filtered by: those of the accounts and those that log entries
    /// name, in order, each once.
    pub fn log_account_emails(&self) -> (r: Vec<String>)
        ensures
            views(r@) == self.emails(),
    {
        let mut names: Vec<String> = Vec::new();
        let ghost acc = self.accounts@;
        let mut i: usize = 0;
        assert(acc.take(0) =~= Seq::empty());
        assert(views(names@) =~= account_emails(acc.take(0)));
        while i < self.accounts.len()
            invariant
                i <= self.accounts@.len(),
                acc == self.accounts@,
                views(names@) == account_emails(acc.take(i as int)),
            decreases self.accounts@.len() - i,
        {
            assert(acc.take(i + 1).drop_last() =~= acc.take(i as int));
            let email = &self.accounts[i].email;
            if !email.as_str().is_empty() {
                let ghost before = views(names@);
                names.push(email.clone());
                assert(views(names@) =~= before.push(email@));
            }
            i = i + 1;
        }
        assert(acc.take(acc.len() as int) =~= acc);
        let ghost head = views(names@);
        let ghost all = self.log.entries@;
        let n: usize = self.log.entries.len();
        let mut k: usize = 0;
        assert(all.take(0) =~= Seq::empty());
        assert(head + logged_emails(all.take(0)) =~= head);
        while k < n
            invariant
                k <= n == all.len(),
                all == self.log.entries@,
                views(names@) == head + logged_emails(all.take(k as int)),
            decreases n - k,
        {
            assert(all.take(k + 1).drop_last() =~= all.take(k as int));
            match &self.log.entries[k].account_email {
                Some(email) => {
                    let ghost before = views(names@);
                    names.push(email.clone());
                    assert(views(names@) =~= before.push(email@));
                    assert(before.push(email@) =~= head + logged_emails(all.take(k as int)).push(
                        email@,
                    ));
                },
                None => {},
            }
            k = k + 1;
        }
        assert(all.take(all.len() as int) =~= all);
        names_in_order(&names)
    }

    /// Takes the accounts that were read anew. The selection stays on the list.
    pub fn refresh_accounts(&mut self, accounts: Vec<AccountInfo>)
        ensures
            *final(self) == (App {
                accounts,
                account_selected: (if old(self).account_selected >= accounts@.len() {
                    minus(accounts@.len() as int, 1)
                } else {
                    old(self).account_selected as int
                }) as usize,
                ..*old(self)
            }),
    {
        let n: usize = accounts.len();
        let selected: usize = if self.account_selected >= n {
            if n >= 1 {
                n - 1
            } else {
                0
            }
        } else {
            self.account_selected
        };
        self.accounts = accounts;
        self.account_selected = selected;
    }

    /// Looks after the quotas, `elapsed_secs` after they were last asked for: whether they
    /// are to be asked for now. That is once a minute, unless they still are.
    pub fn maybe_refresh_quota(&mut self, fetch: Background, elapsed_secs: u64) -> (r: bool)
        ensures
            ({
                let pending = old(self).quota_fetch_pending && fetch != Background::Done && fetch
                    != Background::Gone;
                &&& r == (elapsed_secs >= 60 && !pending)
                &&& *final(self) == (App { quota_fetch_pending: pending || r, ..*old(self) })
            }),
    {
        let pending = self.quota_fetch_pending && fetch != Background::Done && fetch
            != Background::Gone;
        let start = elapsed_secs >= 60 && !pending;
        self.quota_fetch_pending = pending || start;
        start
    }

    /// The state of the server as it is kept, with a new one where that was looked up.
    pub fn get_cached_server_status(&mut self, fresh: Option<ServerStatus>) -> (r: ServerStatus)
        ensures
            r == (match fresh {
                Some(s) => s,
                None => old(self).overview.server_status,
            }),
            *final(self) == (App {
                overview: OverviewData { server_status: r, ..old(self).overview },
                ..*old(self)
            }),
    {
        let status = match fresh {
            Some(s) => s,
            None => self.overview.server_status,
        };
        self.overview.server_status = status;
        status
    }

    /// Looks after the search for a newer version: whether it is to be started now. That is
    /// once only.
    pub fn maybe_check_for_updates(&mut self, event: UpdateEvent) -> (r: bool)
        ensures
            updates_checked(*old(self), event, *final(self), r),
    {
        match event {
            UpdateEvent::Done(status) => {
                self.update_status = status;
            },
            UpdateEvent::Gone => {
                self.update_status = UpdateStatus::Error("Update check failed".to_owned());
            },
            _ => {},
        }
        let first = match &self.update_status {
            UpdateStatus::NotChecked => true,
            _ => false,
        };
        if first {
            self.update_status = UpdateStatus::Checking;
        }
        first
    }

    /// Takes the warnings that were gathered: they are shown where there are any.
    pub fn poll_startup_warnings(&mut self, warnings: Vec<StartupWarning>)
        ensures
            *final(self) == (App {
                startup_warnings: warnings,
                show_startup_warnings: warnings@.len() > 0,
                ..*old(self)
            }),
    {
        self.show_startup_warnings = warnings.len() > 0;
        self.startup_warnings = warnings;
    }

    /// Scrolls the log towards older entries.
    pub fn scroll_logs_up(&mut self, amount: usize)
        ensures
            *final(self) == (App { log: old(self).log.up(amount as int), ..*old(self) }),
    {
        self.log.scroll_up(amount);
    }

    /// Scrolls the log towards newer entries. At the newest it stays there.
    pub fn scroll_logs_down(&mut self, amount: usize)
        ensures
            *final(self) == (App { log: old(self).log.down(amount as int), ..*old(self) }),
    {
        self.log.scroll_down(amount);
    }

    /// Scrolls the recent activity towards older entries.
    pub fn scroll_activity_up(&mut self, amount: usize)
        ensures
            *final(self) == (App { log: old(self).log.activity_up(amount as int), ..*old(self) }),
    {
        self.log.scroll_activity_up(amount);
    }

    /// Scrolls the recent activity towards newer entries. At the newest it stays there.
    pub fn scroll_activity_down(&mut self, amount: usize)
        ensures
            *final(self) == (App { log: old(self).log.activity_down(amount as int), ..*old(self) }),
    {
        self.log.scroll_activity_down(amount);
    }
}

/// Whether `b` is `a` after a look at the search for a newer version, and `start` whether it
/// is to be started.
pub open spec fn updates_checked(a: App, event: UpdateEvent, b: App, start: bool) -> bool {
    &&& b == (App { update_status: b.update_status, ..a })
    &&& match event {
        UpdateEvent::Done(s) => if s is NotChecked {
            start && b.update_status is Checking
        } else {
            !start && b.update_status == s
        },
        UpdateEvent::Gone => !start && (b.update_status matches UpdateStatus::Error(m) && m@
            == "Update check failed"@),
        _ => if a.update_status is NotChecked {
            start && b.update_status is Checking
        } else {
            !start && b.update_status == a.update_status
        },
    }
}

/// Whether the state of the server is to be looked up, `elapsed_secs` after it last was.
pub fn status_is_due(elapsed_secs: u64) -> (r: bool)
    ensures
        r == (elapsed_secs >= 2),
{
    elapsed_secs >= 2
}

/// The account that is active and whose quotas are known, by its place; `None` where there
/// is none.
pub open spec fn active_place(a: Seq<AccountInfo>, known: Seq<bool>, i: int) -> Option<int>
    decreases a.len() - i,
{
    if i < 0 || i >= a.len() {
        None
    } else if a[i].is_active && known[i] {
        Some(i)
    } else {
        active_place(a, known, i + 1)
    }
}

/// The account whose quotas are shown: the first that is active and whose quotas are known.
pub fn find_active(accounts: &Vec<AccountInfo>, known: &Vec<bool>) -> (r: Option<usize>)
    requires
        known@.len() == accounts@.len(),
    ensures
        match r {
            Some(i) => active_place(accounts@, known@, 0) == Some(i as int),
            None => active_place(accounts@, known@, 0) is None,
        },
{
    let mut i: usize = 0;
    while i < accounts.len()
        invariant
            i <= accounts@.len() == known@.len(),
            active_place(accounts@, known@, 0) == active_place(accounts@, known@, i as int),
        decreases accounts@.len() - i,
    {
        if accounts[i].is_active && known[i] {
            return Some(i);
        }
        i = i + 1;
    }
    None
}

/// The emails of accounts are taken one by one, but for those that are empty, and so are those
/// of log entries that name one.
pub proof fn emails_are_taken_one_by_one(
    a: Seq<AccountInfo>,
    b: Seq<AccountInfo>,
    x: AccountInfo,
    l: Seq<LogEntry>,
    m: Seq<LogEntry>,
    e: LogEntry,
)
    ensures
        account_emails(a + b) == account_emails(a) + account_emails(b),
        account_emails(seq![x]) == (if x.email@.len() > 0 {
            seq![x.email@]
        } else {
            Seq::empty()
        }),
        logged_emails(l + m) == logged_emails(l) + logged_emails(m),
        logged_emails(seq![e]) == (match e.account_email {
            Some(t) => seq![t@],
            None => Seq::empty(),
        }),
    decreases b.len() + m.len(),
{
    let none = seq![x].drop_last();
    assert(none.len() == 0);
    assert(account_emails(none) =~= Seq::empty());
    assert(seq![x].last() == x);
    assert(account_emails(seq![x]) =~= (if x.email@.len() > 0 {
        seq![x.email@]
    } else {
        Seq::empty()
    }));
    let nil = seq![e].drop_last();
    assert(nil.len() == 0);
    assert(logged_emails(nil) =~= Seq::empty());
    assert(seq![e].last() == e);
    assert(logged_emails(seq![e]) =~= (match e.account_email {
        Some(t) => seq![t@],
        None => Seq::empty(),
    }));
    if b.len() == 0 {
        assert(a + b =~= a);
    } else {
        assert((a + b).drop_last() =~= a + b.drop_last());
        emails_are_taken_one_by_one(a, b.drop_last(), x, l, m, e);
    }
    assert(account_emails(a + b) =~= account_emails(a) + account_emails(b));
    if m.len() == 0 {
        assert(l + m =~= l);
    } else {
        assert((l + m).drop_last() =~= l + m.drop_last());
        emails_are_taken_one_by_one(a, b, x, l, m.drop_last(), e);
    }
    assert(logged_emails(l + m) =~= logged_emails(l) + logged_emails(m));
}

/// The accounts that can be chosen are those that are there and those that the log names, each
/// once, in order.
pub proof fn every_account_can_be_chosen(a: App)
    ensures
        crate::order::ascending(a.emails()),
        forall|e: Seq<char>|
            #[trigger] a.emails().contains(e) <==> account_emails(a.accounts@).contains(e)
                || logged_emails(a.log.entries@).contains(e),
{
    let x = account_emails(a.accounts@);
    let y = logged_emails(a.log.entries@);
    let all = x + y;
    crate::order::ordered_names_are_the_same(all);
    assert forall|e: Seq<char>| #[trigger] a.emails().contains(e) <==> x.contains(e) || y.contains(
        e,
    ) by {
        assert(a.emails().contains(e) <==> all.contains(e));
        if x.contains(e) {
            let i = choose|i: int| 0 <= i < x.len() && x[i] == e;
            assert(all[i] == e);
        }
        if y.contains(e) {
            let i = choose|i: int| 0 <= i < y.len() && y[i] == e;
            assert(all[x.len() + i] == e);
        }
        if all.contains(e) {
            let i = choose|i: int| 0 <= i < all.len() && all[i] == e;
            if i < x.len() {
                assert(x[i] == e);
            } else {
                assert(y[i - x.len()] == e);
            }
        }
    }
}

/// The time since the start is told in hours, minutes and seconds, and is zero before the start
/// and where none is known.
pub proof fn the_uptime_is_told(start: u64, hours: nat, minutes: nat, seconds: nat)
    requires
        minutes < 60,
        seconds < 60,
        start + hours * 3600 + minutes * 60 + seconds <= u64::MAX,
    ensures
        uptime_text(
            Some(start),
            (start + hours * 3600 + minutes * 60 + seconds) as u64,
        ) == two_digits(hours) + ":"@ + two_digits(minutes) + ":"@ + two_digits(seconds),
        start > 0 ==> uptime_text(Some(start), 0) == two_digits(0) + ":"@ + two_digits(0) + ":"@
            + two_digits(0),
        uptime_text(None, start) == "00:00:00"@,
{
    let t = hours * 3600 + minutes * 60 + seconds;
    assert(t / 3600 == hours);
    assert((t % 3600) / 60 == minutes);
    assert(t % 60 == seconds);
}

/// The start that counts is the later one of what was known and what was found.
pub proof fn the_later_start_counts(was: u64, found: u64)
    ensures
        later_start(Some(was), Some(found as int)) == Some(if found > was {
            found
        } else {
            was
        }),
        later_start(None, Some(found as int)) == Some(found),
        later_start(Some(was), None) == Some(was),
        later_start(None, None) is None,
{
}

/// The mean of the durations is their sum over their number, rounded down.
pub proof fn the_mean_is_the_sum_over_the_number(logs: Seq<LogEntry>)
    requires
        duration_list(logs).len() > 0,
        total_of(duration_list(logs)) <= u64::MAX,
    ensures
        mean_duration(logs) matches Some(m) && m * duration_list(logs).len() <= total_of(
            duration_list(logs),
        ) < (m + 1) * duration_list(logs).len(),
{
    let n = duration_list(logs).len() as int;
    let t = total_of(duration_list(logs)) as int;
    vstd::arithmetic::div_mod::lemma_fundamental_div_mod(t, n);
    vstd::arithmetic::div_mod::lemma_mod_bound(t, n);
    vstd::arithmetic::div_mod::lemma_div_is_ordered_by_denominator(t, 1, n);
    let m = t / n;
    assert(t == n * m + t % n);
    assert(m * n <= t < (m + 1) * n) by (nonlinear_arith)
        requires
            t == n * m + t % n,
            0 <= t % n < n,
    ;
    assert(0 <= m <= t) by (nonlinear_arith)
        requires
            t == n * m + t % n,
            0 <= t % n < n,
            n >= 1,
            t >= 0,
    ;
}

/// The active account is the first that is active and known.
pub proof fn the_active_account_is_found(a: Seq<AccountInfo>, known: Seq<bool>, from: int)
    requires
        0 <= from <= a.len(),
    ensures
        match active_place(a, known, from) {
            Some(k) => from <= k < a.len() && a[k].is_active && known[k] && forall|j: int|
                from <= j < k ==> !((#[trigger] a[j]).is_active && known[j]),
            None => forall|j: int|
                from <= j < a.len() ==> !((#[trigger] a[j]).is_active && known[j]),
        },
    decreases a.len() - from,
{
    if from < a.len() {
        let x = a[from];
        if !(x.is_active && known[from]) {
            the_active_account_is_found(a, known, from + 1);
        }
    }
}

/// A check for updates is begun once: where none was begun yet; what it finds is kept, and a
/// check that is lost is told as failed.
pub proof fn updates_are_checked_once(a: App, event: UpdateEvent, b: App, start: bool)
    requires
        updates_checked(a, event, b, start),
    ensures
        start ==> b.update_status is Checking,
        event matches UpdateEvent::Done(s) ==> !(s is NotChecked) ==> !start && b.update_status == s,
        event is Gone ==> !start && b.update_status is Error,
        !(event is Done) && !(event is Gone) ==> (start <==> a.update_status is NotChecked),
        b.accounts == a.accounts && b.log == a.log && b.config == a.config,
{
}

} // verus!
