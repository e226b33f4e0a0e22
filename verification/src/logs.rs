//! Log lines as the dashboard reads them, and what it counts from them.

use std::collections::VecDeque;

use vstd::prelude::*;

use crate::clock::{moment_of_text, parse_timestamp, stamp};
use crate::counter::{counted, sum, Counter};
use crate::order::{precedes, precedes_is_total, precedes_is_transitive, text_precedes};
use crate::text::{contains, holds, number, parse_number};

verus! {

/// Whether the server runs.
#[derive(Debug, Clone, Copy, PartialEq, Eq, Structural)]
pub enum ServerStatus {
    Running,
    Stopped,
}

impl ServerStatus {
    /// Whether the server runs.
    pub fn is_running(&self) -> (r: bool)
        ensures
            r == (*self == ServerStatus::Running),
    {
        match self {
            ServerStatus::Running => true,
            ServerStatus::Stopped => false,
        }
    }
}

/// How often a model was used.
#[derive(Debug, Clone, PartialEq)]
pub struct ModelUsage {
    pub model: String,
    pub requests: u64,
}

/// The level of a log line.
#[derive(Debug, Clone, Copy, PartialEq, Eq, Structural)]
pub enum LogLevel {
    Debug,
    Info,
    Warn,
    Error,
}

/// The level of a line: the first that occurs in it of debug, warning and error; a line
/// with none of them is taken as information.
pub open spec fn level_of(line: Seq<char>) -> LogLevel {
    if holds(line, " DEBUG "@) {
        LogLevel::Debug
    } else if holds(line, " WARN "@) || holds(line, "WARN "@) {
        LogLevel::Warn
    } else if holds(line, " ERROR "@) || holds(line, "ERROR "@) {
        LogLevel::Error
    } else {
        LogLevel::Info
    }
}

impl LogLevel {
    /// The level of a line.
    pub fn parse(line: &str) -> (r: LogLevel)
        ensures
            r == level_of(line@),
    {
        if contains(line, " DEBUG ") {
            LogLevel::Debug
        } else if contains(line, " WARN ") || contains(line, "WARN ") {
            LogLevel::Warn
        } else if contains(line, " ERROR ") || contains(line, "ERROR ") {
            LogLevel::Error
        } else {
            LogLevel::Info
        }
    }
}

/// The text of the first group in the leftmost match of a regular expression in a text;
/// `None` where there is no match, the group has no part in it, or the expression is not
/// valid.
pub uninterp spec fn first_group(pattern: Seq<char>, text: Seq<char>) -> Option<Seq<char>>;

/// `regex_lite::Regex::captures`, and group 1 of what it finds: a function of the
/// expression and the text, which `first_group` names.
#[verifier::external_body]
fn capture(pattern: &str, text: &str) -> (r: Option<String>)
    ensures
        match r {
            Some(g) => first_group(pattern@, text@) == Some(g@),
            None => first_group(pattern@, text@) is None,
        },
{
    let re = regex_lite::Regex::new(pattern).ok()?;
    re.captures(text)?.get(1).map(|m| m.as_str().to_string())
}

/// Whether a character may stand between `ESC [` and the `m` that ends a colour code.
pub open spec fn code_char(c: char) -> bool {
    '0' <= c <= '9' || c == ';'
}

/// Where the digits and semicolons of `s` that begin at `i` end.
pub open spec fn code_end(s: Seq<char>, i: int) -> int
    decreases s.len() - i,
{
    if 0 <= i < s.len() && code_char(s[i]) {
        code_end(s, i + 1)
    } else {
        i
    }
}

/// The length of the colour code that `s` has at `i`, zero where it has none there:
/// `ESC [`, digits and semicolons, `m`.
pub open spec fn code_len(s: Seq<char>, i: int) -> int {
    if 0 <= i && i + 2 < s.len() && s[i] == '\u{1b}' && s[i + 1] == '[' {
        let e = code_end(s, i + 2);
        if e < s.len() && s[e] == 'm' {
            e + 1 - i
        } else {
            0
        }
    } else {
        0
    }
}

/// `s` from index `i` on, without its colour codes.
pub open spec fn without_codes_from(s: Seq<char>, i: int) -> Seq<char>
    decreases s.len() - i,
{
    if i < 0 || i >= s.len() {
        Seq::empty()
    } else if code_len(s, i) > 0 {
        without_codes_from(s, i + code_len(s, i))
    } else {
        seq![s[i]] + without_codes_from(s, i + 1)
    }
}

/// `s` without its colour codes.
pub open spec fn without_codes(s: Seq<char>) -> Seq<char> {
    without_codes_from(s, 0)
}

/// The expression of a colour code.
pub open spec fn code_pattern() -> Seq<char> {
    r"\x1b\[[0-9;]*m"@
}

/// `regex_lite::Regex::replace_all` of an expression, here that of a colour code, by nothing:
/// every code is taken out, from left to right.
#[verifier::external_body]
fn replace_all(text: &str, pattern: &str, by: &str) -> (r: String)
    requires
        pattern@ == code_pattern(),
        by@ == ""@,
    ensures
        r@ == without_codes(text@),
{
    regex_lite::Regex::new(pattern).expect("valid regex").replace_all(text, by).to_string()
}

/// The expression of a completed request to the Messages API; its group is the moment.
pub open spec fn request_pattern() -> Seq<char> {
    r"(\d{4}-\d{2}-\d{2}T\d{2}:\d{2}:\d{2})\.\d+Z\s+INFO\s+Request completed.*path=(/v1)?/messages"@
}

/// The expression of the line that says the server has started; its group is the moment.
pub open spec fn start_pattern() -> Seq<char> {
    r"(\d{4}-\d{2}-\d{2}T\d{2}:\d{2}:\d{2})\.\d+Z\s+INFO\s+Server listening"@
}

/// The expression of the line that says which model was used; its group is the model.
pub open spec fn model_pattern() -> Seq<char> {
    r"INFO\s+Model used\s+model=([^\s]+)"@
}

/// The expression of how long a request took; its group is the milliseconds.
pub open spec fn duration_pattern() -> Seq<char> {
    r"duration_ms=(\d+)"@
}

/// The expression of the account that served; its group is the account.
pub open spec fn account_pattern() -> Seq<char> {
    r"account=([^\s]+)"@
}

/// A log line and what was read from it.
#[derive(Debug, Clone, PartialEq)]
pub struct LogEntry {
    pub line: String,
    pub level: LogLevel,
    /// When a completed request was logged, counted as `parse_timestamp` counts.
    pub timestamp_secs: Option<u64>,
    /// Whether the line is that of a completed request.
    pub is_request: bool,
    pub account_email: Option<String>,
}

/// The seconds counted for a moment that may be missing.
pub open spec fn stamp_of_group(group: Option<Seq<char>>) -> Option<int> {
    match group {
        Some(t) => match moment_of_text(t) {
            Some(m) => Some(stamp(m)),
            None => None,
        },
        None => None,
    }
}

/// Whether an entry says of a line without colour codes what the two groups found in it say.
pub open spec fn entry_says(
    e: LogEntry,
    line: Seq<char>,
    request: Option<Seq<char>>,
    account: Option<Seq<char>>,
) -> bool {
    &&& e.line@ == line
    &&& e.level == level_of(line)
    &&& e.is_request == (request is Some)
    &&& match e.timestamp_secs {
        Some(n) => stamp_of_group(request) == Some(n as int),
        None => stamp_of_group(request) is None,
    }
    &&& crate::chat::opt(e.account_email) == account
}

impl LogEntry {
    /// What is read from a line.
    pub fn new(line: String) -> (r: LogEntry)
        ensures
            entry_says(
                r,
                without_codes(line@),
                first_group(request_pattern(), without_codes(line@)),
                first_group(account_pattern(), without_codes(line@)),
            ),
    {
        let clean = replace_all(&line, r"\x1b\[[0-9;]*m", "");
        let request = capture(
            r"(\d{4}-\d{2}-\d{2}T\d{2}:\d{2}:\d{2})\.\d+Z\s+INFO\s+Request completed.*path=(/v1)?/messages",
            &clean,
        );
        let account = capture(r"account=([^\s]+)", &clean);
        LogEntry::from_groups(clean, request, account)
    }

    /// The entry of a line without colour codes, from the moment of its completed request
    /// and its account, where the line has them.
    pub fn from_groups(line: String, request: Option<String>, account: Option<String>) -> (r:
        LogEntry)
        ensures
            entry_says(r, line@, crate::chat::opt(request), crate::chat::opt(account)),
    {
        let level = LogLevel::parse(&line);
        let (timestamp_secs, is_request) = match &request {
            Some(t) => (parse_timestamp(t), true),
            None => (None, false),
        };
        LogEntry { line, level, timestamp_secs, is_request, account_email: account }
    }
}


/// A line without escape characters has no colour codes to take out.
pub proof fn plain_lines_stay(s: Seq<char>)
    requires
        !s.contains('\u{1b}'),
    ensures
        without_codes(s) == s,
{
    lemma_plain_from(s, 0);
    assert(s.subrange(0, s.len() as int) =~= s);
}

proof fn lemma_plain_from(s: Seq<char>, i: int)
    requires
        !s.contains('\u{1b}'),
        0 <= i <= s.len(),
    ensures
        without_codes_from(s, i) == s.subrange(i, s.len() as int),
    decreases s.len() - i,
{
    if i < s.len() {
        assert(s.contains(s[i]));
        lemma_plain_from(s, i + 1);
        assert(without_codes_from(s, i) =~= s.subrange(i, s.len() as int));
    } else {
        assert(without_codes_from(s, i) =~= s.subrange(i, s.len() as int));
    }
}

/// Whether an entry is a request completed in second `t`, within the minute before `now`.
pub open spec fn in_second(e: LogEntry, t: int, now: u64) -> bool {
    &&& e.is_request
    &&& e.timestamp_secs matches Some(ts) && ts == t && ts > now - 60 && ts > 0 && ts <= now
}

/// How many of the entries `in_second` holds of.
pub open spec fn seconds_count(s: Seq<LogEntry>, t: int, now: u64) -> nat
    decreases s.len(),
{
    if s.len() == 0 {
        0
    } else {
        seconds_count(s.drop_last(), t, now) + (if in_second(s.last(), t, now) {
            1nat
        } else {
            0
        })
    }
}

/// The first of the sixty seconds up to `now`; the very first second where `now` is
/// earlier than that.
pub open spec fn history_start(now: u64) -> int {
    if now < 59 {
        0
    } else {
        now - 59
    }
}

/// The requests completed in each of sixty seconds, oldest first, up to `now` where it
/// is later than the first minute.
pub fn build_rate_history(logs: &VecDeque<LogEntry>, now: u64) -> (r: Vec<u64>)
    ensures
        r@ == Seq::new(
            60,
            |i: int|
                if now == 0 {
                    0u64
                } else {
                    seconds_count(logs@, history_start(now) + i, now) as u64
                },
        ),
{
    let mut r: Vec<u64> = Vec::new();
    let ghost want = |i: int|
        if now == 0 {
            0u64
        } else {
            seconds_count(logs@, history_start(now) + i, now) as u64
        };
    let start: u64 = if now < 59 {
        0
    } else {
        now - 59
    };
    let mut i: u64 = 0;
    while i < 60
        invariant
            i <= 60,
            start == history_start(now),
            r@ == Seq::new(i as nat, want),
            want == (|i: int|
                if now == 0 {
                    0u64
                } else {
                    seconds_count(logs@, history_start(now) + i, now) as u64
                }),
        decreases 60 - i,
    {
        let n: u64 = if now == 0 || i > now {
            proof {
                if now != 0 {
                    lemma_no_later_seconds(logs@, history_start(now) + i, now);
                }
            }
            0
        } else {
            count_second(logs, start + i, now)
        };
        r.push(n);
        i = i + 1;
        assert(r@ =~= Seq::new(i as nat, want));
    }
    r
}

/// Nothing is counted for a second after `now`.
proof fn lemma_no_later_seconds(s: Seq<LogEntry>, t: int, now: u64)
    requires
        t > now,
    ensures
        seconds_count(s, t, now) == 0,
    decreases s.len(),
{
    if s.len() > 0 {
        lemma_no_later_seconds(s.drop_last(), t, now);
    }
}

/// How many requests were completed in one second, within the minute before `now`.
fn count_second(logs: &VecDeque<LogEntry>, t: u64, now: u64) -> (r: u64)
    ensures
        r == seconds_count(logs@, t as int, now),
{
    let mut n: u64 = 0;
    let mut i: usize = 0;
    assert(logs@.take(0) =~= Seq::empty());
    while i < logs.len()
        invariant
            i <= logs@.len(),
            n <= i,
            n == seconds_count(logs@.take(i as int), t as int, now),
        decreases logs@.len() - i,
    {
        assert(logs@.take(i + 1).drop_last() =~= logs@.take(i as int));
        let e = &logs[i];
        let hit: bool = match e.timestamp_secs {
            Some(ts) => e.is_request && ts == t && (now < 60 || ts > now - 60) && ts > 0 && ts
                <= now,
            None => false,
        };
        if hit {
            n = n + 1;
        }
        i = i + 1;
    }
    assert(logs@.take(logs@.len() as int) =~= logs@);
    n
}

/// How many of the entries are completed requests.
pub open spec fn request_count(s: Seq<LogEntry>) -> nat
    decreases s.len(),
{
    if s.len() == 0 {
        0
    } else {
        request_count(s.drop_last()) + (if s.last().is_request {
            1nat
        } else {
            0
        })
    }
}

/// The models that the entries say were used, counted.
pub open spec fn model_counts(s: Seq<LogEntry>) -> Seq<(Seq<char>, u64)>
    decreases s.len(),
{
    if s.len() == 0 {
        Seq::empty()
    } else {
        let before = model_counts(s.drop_last());
        match first_group(model_pattern(), s.last().line@) {
            Some(model) => counted(before, model, 1),
            None => before,
        }
    }
}

/// Whether `a` stands before `b`: used more often, or as often and first by name.
pub open spec fn ranks_before(a: (Seq<char>, u64), b: (Seq<char>, u64)) -> bool {
    a.1 > b.1 || (a.1 == b.1 && precedes(a.0, b.0))
}

/// Whether every entry ranks before the later ones.
pub open spec fn ranked(s: Seq<(Seq<char>, u64)>) -> bool {
    forall|i: int, j: int| 0 <= i < j < s.len() ==> ranks_before(#[trigger] s[i], #[trigger] s[j])
}

/// The names and numbers of a list of usages.
pub open spec fn usages(s: Seq<ModelUsage>) -> Seq<(Seq<char>, u64)> {
    Seq::new(s.len(), |i: int| (s[i].model@, s[i].requests))
}

/// Puts a usage in its place in a ranked list that does not have its model.
fn insert_ranked(list: &mut Vec<ModelUsage>, u: ModelUsage)
    requires
        ranked(usages(old(list)@)),
        forall|i: int| 0 <= i < old(list)@.len() ==> (#[trigger] old(list)@[i]).model@ != u.model@,
    ensures
        ranked(usages(final(list)@)),
        usages(final(list)@).to_multiset() == usages(old(list)@).to_multiset().insert(
            (u.model@, u.requests),
        ),
{
    let ghost before = usages(list@);
    let ghost new = (u.model@, u.requests);
    let mut i: usize = 0;
    while i < list.len() && (list[i].requests > u.requests || (list[i].requests == u.requests
        && text_precedes(&list[i].model, &u.model)))
        invariant
            i <= list@.len(),
            usages(list@) == before,
            new == (u.model@, u.requests),
            forall|j: int| 0 <= j < i ==> ranks_before(#[trigger] before[j], new),
        decreases list@.len() - i,
    {
        assert(before[i as int] == (list@[i as int].model@, list@[i as int].requests));
        i = i + 1;
    }
    proof {
        assert forall|j: int| i <= j < before.len() implies ranks_before(
            new,
            #[trigger] before[j],
        ) by {
            assert(before[i as int] == (list@[i as int].model@, list@[i as int].requests));
            precedes_is_total(new.0, before[i as int].0);
            if j > i {
                assert(ranks_before(before[i as int], before[j]));
                if new.1 == before[i as int].1 && before[i as int].1 == before[j].1 {
                    precedes_is_transitive(new.0, before[i as int].0, before[j].0);
                }
            }
        }
    }
    list.insert(i, u);
    let ghost after = usages(list@);
    assert(after =~= before.insert(i as int, new));
    proof {
        after.to_multiset_ensures();
        assert(after[i as int] == new);
        assert(after.remove(i as int) =~= before);
        assert(after.contains(new));
        assert(after.to_multiset() =~= before.to_multiset().insert(new));
        assert forall|a: int, b: int| 0 <= a < b < after.len() implies ranks_before(
            #[trigger] after[a],
            #[trigger] after[b],
        ) by {
            if a < i && b > i {
                assert(after[a] == before[a] && after[b] == before[b - 1]);
            } else if a == i {
                assert(after[b] == before[b - 1]);
            } else if b == i {
                assert(after[a] == before[a]);
            } else if b < i {
                assert(after[a] == before[a] && after[b] == before[b]);
            } else {
                assert(after[a] == before[a - 1] && after[b] == before[b - 1]);
            }
        }
    }
}


/// Counting never counts more than was counted before and one.
proof fn lemma_model_counts(s: Seq<LogEntry>)
    requires
        s.len() <= u64::MAX,
    ensures
        crate::counter::distinct(model_counts(s)),
        sum(model_counts(s)) <= s.len(),
    decreases s.len(),
{
    if s.len() > 0 {
        lemma_model_counts(s.drop_last());
        match first_group(model_pattern(), s.last().line@) {
            Some(model) => {
                crate::counter::counting_adds_up(model_counts(s.drop_last()), model, 1);
            },
            None => {},
        }
    }
}

/// A counter's names and counts, ranked.
pub fn ranked_usage(models: &Counter) -> (r: Vec<ModelUsage>)
    requires
        models.wf(),
    ensures
        ranked(usages(r@)),
        usages(r@).to_multiset() == models@.to_multiset(),
{
    let mut r: Vec<ModelUsage> = Vec::new();
    let mut i: usize = 0;
    assert(models@.take(0) =~= Seq::empty());
    assert(usages(r@) =~= Seq::empty());
    while i < models.len()
        invariant
            i <= models@.len(),
            models.wf(),
            ranked(usages(r@)),
            usages(r@).to_multiset() == models@.take(i as int).to_multiset(),
        decreases models@.len() - i,
    {
        let u = ModelUsage { model: models.name(i).clone(), requests: models.count_at(i) };
        let ghost part = models@.take(i as int);
        proof {
            let all = usages(r@);
            all.to_multiset_ensures();
            part.to_multiset_ensures();
            assert forall|j: int| 0 <= j < r@.len() implies (#[trigger] r@[j]).model@
                != u.model@ by {
                let e = (r@[j].model@, r@[j].requests);
                assert(all[j] == e);
                assert(all.contains(e));
                assert(all.to_multiset().count(e) > 0);
                assert(part.to_multiset().count(e) > 0);
                assert(part.contains(e));
                let k = choose|k: int| 0 <= k < part.len() && part[k] == e;
                assert(models@[k].0 != models@[i as int].0);
            }
            assert(models@.take(i + 1) =~= part.push(models@[i as int]));
        }
        insert_ranked(&mut r, u);
        i = i + 1;
    }
    assert(models@.take(models@.len() as int) =~= models@);
    r
}

/// How many requests the entries say were completed, and how often each model was used,
/// the most used first and by name among equals.
pub fn count_requests_from_logs(logs: &VecDeque<LogEntry>) -> (r: (u64, Vec<ModelUsage>))
    ensures
        r.0 == request_count(logs@),
        ranked(usages(r.1@)),
        usages(r.1@).to_multiset() == model_counts(logs@).to_multiset(),
{
    let mut total: u64 = 0;
    let mut models = Counter::new();
    let mut i: usize = 0;
    assert(logs@.take(0) =~= Seq::empty());
    while i < logs.len()
        invariant
            i <= logs@.len(),
            total == request_count(logs@.take(i as int)),
            total <= i,
            models.wf(),
            models@ == model_counts(logs@.take(i as int)),
        decreases logs@.len() - i,
    {
        assert(logs@.take(i + 1).drop_last() =~= logs@.take(i as int));
        proof {
            lemma_model_counts(logs@.take(i as int));
        }
        if logs[i].is_request {
            total = total + 1;
        }
        match capture(r"INFO\s+Model used\s+model=([^\s]+)", &logs[i].line) {
            Some(model) => {
                models.bump(&model, 1);
            },
            None => {},
        }
        i = i + 1;
    }
    assert(logs@.take(logs@.len() as int) =~= logs@);
    (total, ranked_usage(&models))
}

/// The milliseconds that an entry says its request took.
pub open spec fn duration_of(e: LogEntry) -> Option<nat> {
    if e.is_request {
        match first_group(duration_pattern(), e.line@) {
            Some(t) => number(t, u64::MAX as nat),
            None => None,
        }
    } else {
        None
    }
}

/// The milliseconds that each completed request took, in order.
pub open spec fn duration_list(s: Seq<LogEntry>) -> Seq<nat>
    decreases s.len(),
{
    if s.len() == 0 {
        Seq::empty()
    } else {
        match duration_of(s.last()) {
            Some(ms) => duration_list(s.drop_last()).push(ms),
            None => duration_list(s.drop_last()),
        }
    }
}

/// The sum of a list of numbers.
pub open spec fn total_of(v: Seq<nat>) -> nat
    decreases v.len(),
{
    if v.len() == 0 {
        0
    } else {
        total_of(v.drop_last()) + v.last()
    }
}

/// The average of a list of milliseconds; `None` where it is empty, or where the sum does
/// not fit in a `u64`.
pub fn average(ms: &Vec<u64>) -> (r: Option<u64>)
    ensures
        r == (if ms@.len() == 0 || total_of(ms@.map_values(|m: u64| m as nat)) > u64::MAX {
            None::<u64>
        } else {
            Some((total_of(ms@.map_values(|m: u64| m as nat)) / ms@.len()) as u64)
        }),
{
    let ghost all = ms@.map_values(|m: u64| m as nat);
    let mut total: u64 = 0;
    let mut i: usize = 0;
    assert(all.take(0) =~= Seq::empty());
    while i < ms.len()
        invariant
            i <= ms@.len(),
            all == ms@.map_values(|m: u64| m as nat),
            total == total_of(all.take(i as int)),
        decreases ms@.len() - i,
    {
        assert(all.take(i + 1).drop_last() =~= all.take(i as int));
        match total.checked_add(ms[i]) {
            Some(t) => {
                total = t;
            },
            None => {
                proof {
                    lemma_total_grows(all, i + 1);
                }
                return None;
            },
        }
        i = i + 1;
    }
    assert(all.take(all.len() as int) =~= all);
    if ms.len() == 0 {
        None
    } else {
        Some(total / (ms.len() as u64))
    }
}

/// A prefix never sums to more than the whole.
proof fn lemma_total_grows(v: Seq<nat>, i: int)
    requires
        0 <= i <= v.len(),
    ensures
        total_of(v.take(i)) <= total_of(v),
    decreases v.len() - i,
{
    if i == v.len() {
        assert(v.take(i) =~= v);
    } else {
        lemma_total_grows(v, i + 1);
        assert(v.take(i + 1).drop_last() =~= v.take(i));
    }
}


/// The average milliseconds that the completed requests took; `None` where no entry says,
/// or where the sum does not fit in a `u64`.
pub fn calculate_avg_response_time(logs: &VecDeque<LogEntry>) -> (r: Option<u64>)
    ensures
        r == (if duration_list(logs@).len() == 0 || total_of(duration_list(logs@)) > u64::MAX {
            None::<u64>
        } else {
            Some((total_of(duration_list(logs@)) / duration_list(logs@).len()) as u64)
        }),
{
    let mut ms: Vec<u64> = Vec::new();
    let mut i: usize = 0;
    assert(logs@.take(0) =~= Seq::empty());
    while i < logs.len()
        invariant
            i <= logs@.len(),
            ms@.map_values(|m: u64| m as nat) == duration_list(logs@.take(i as int)),
        decreases logs@.len() - i,
    {
        assert(logs@.take(i + 1).drop_last() =~= logs@.take(i as int));
        let ghost before = ms@;
        if logs[i].is_request {
            match capture(r"duration_ms=(\d+)", &logs[i].line) {
                Some(t) => match parse_number(&t) {
                    Some(n) => {
                        ms.push(n);
                        assert(ms@.map_values(|m: u64| m as nat) =~= before.map_values(
                            |m: u64| m as nat,
                        ).push(n as nat));
                    },
                    None => {},
                },
                None => {},
            }
        }
        i = i + 1;
    }
    assert(logs@.take(logs@.len() as int) =~= logs@);
    average(&ms)
}

/// Whether an entry is a request completed at most a minute before `now`.
pub open spec fn is_recent(e: LogEntry, now: u64) -> bool {
    e.is_request && (e.timestamp_secs matches Some(ts) && ts + 60 >= now)
}

/// How many entries are recent requests.
pub open spec fn recent_count(s: Seq<LogEntry>, now: u64) -> nat
    decreases s.len(),
{
    if s.len() == 0 {
        0
    } else {
        recent_count(s.drop_last(), now) + (if is_recent(s.last(), now) {
            1nat
        } else {
            0
        })
    }
}

/// The requests of the last minute.
pub fn calculate_requests_per_min(logs: &VecDeque<LogEntry>, now: u64) -> (r: usize)
    ensures
        r == recent_count(logs@, now),
{
    let since: u64 = if now < 60 {
        0
    } else {
        now - 60
    };
    let mut n: usize = 0;
    let mut i: usize = 0;
    assert(logs@.take(0) =~= Seq::empty());
    while i < logs.len()
        invariant
            i <= logs@.len(),
            n <= i,
            since == (if now < 60 {
                0
            } else {
                now - 60
            }),
            n == recent_count(logs@.take(i as int), now),
        decreases logs@.len() - i,
    {
        assert(logs@.take(i + 1).drop_last() =~= logs@.take(i as int));
        let hit: bool = match logs[i].timestamp_secs {
            Some(ts) => logs[i].is_request && ts >= since,
            None => false,
        };
        if hit {
            n = n + 1;
        }
        i = i + 1;
    }
    assert(logs@.take(logs@.len() as int) =~= logs@);
    n
}

/// When the server last started, as far as the entries say.
pub open spec fn last_start(s: Seq<LogEntry>) -> Option<int>
    decreases s.len(),
{
    if s.len() == 0 {
        None
    } else {
        match stamp_of_group(first_group(start_pattern(), s.last().line@)) {
            Some(t) => Some(t),
            None => last_start(s.drop_last()),
        }
    }
}

/// When a line without colour codes says the server started.
fn start_of(line: &str) -> (r: Option<u64>)
    ensures
        match r {
            Some(n) => stamp_of_group(first_group(start_pattern(), line@)) == Some(n as int),
            None => stamp_of_group(first_group(start_pattern(), line@)) is None,
        },
{
    match capture(
        r"(\d{4}-\d{2}-\d{2}T\d{2}:\d{2}:\d{2})\.\d+Z\s+INFO\s+Server listening",
        line,
    ) {
        Some(t) => parse_timestamp(&t),
        None => None,
    }
}

/// When the server last started, as far as the entries say: the latest line counts.
pub fn find_daemon_start_time(logs: &VecDeque<LogEntry>) -> (r: Option<u64>)
    ensures
        match r {
            Some(n) => last_start(logs@) == Some(n as int),
            None => last_start(logs@) is None,
        },
{
    let mut i: usize = logs.len();
    assert(logs@.take(logs@.len() as int) =~= logs@);
    while i > 0
        invariant
            i <= logs@.len(),
            last_start(logs@) == last_start(logs@.take(i as int)),
        decreases i,
    {
        assert(logs@.take(i as int).drop_last() =~= logs@.take(i - 1));
        i = i - 1;
        match start_of(&logs[i].line) {
            Some(t) => {
                return Some(t);
            },
            None => {},
        }
    }
    None
}

/// When a raw log line says the server started.
pub fn parse_daemon_start_from_line(line: &str) -> (r: Option<u64>)
    ensures
        match r {
            Some(n) => stamp_of_group(first_group(start_pattern(), without_codes(line@))) == Some(
                n as int,
            ),
            None => stamp_of_group(first_group(start_pattern(), without_codes(line@))) is None,
        },
{
    let clean = replace_all(line, r"\x1b\[[0-9;]*m", "");
    start_of(&clean)
}

/// A line has the level it says, the first of debug, warning and error that it says, and is
/// information where it says none.
pub proof fn lines_have_the_level_they_say(line: Seq<char>)
    ensures
        level_of(line) == LogLevel::Debug <==> holds(line, " DEBUG "@),
        level_of(line) == LogLevel::Warn <==> !holds(line, " DEBUG "@) && (holds(line, " WARN "@)
            || holds(line, "WARN "@)),
        level_of(line) == LogLevel::Error <==> !holds(line, " DEBUG "@) && !holds(line, " WARN "@)
            && !holds(line, "WARN "@) && (holds(line, " ERROR "@) || holds(line, "ERROR "@)),
{
}

/// Requests are counted one by one, in every second, in the last minute and in all.
pub proof fn requests_count_one_by_one(
    a: Seq<LogEntry>,
    b: Seq<LogEntry>,
    e: LogEntry,
    t: int,
    now: u64,
)
    ensures
        request_count(a + b) == request_count(a) + request_count(b),
        seconds_count(a + b, t, now) == seconds_count(a, t, now) + seconds_count(b, t, now),
        recent_count(a + b, now) == recent_count(a, now) + recent_count(b, now),
        duration_list(a + b) == duration_list(a) + duration_list(b),
        request_count(seq![e]) == (if e.is_request {
            1nat
        } else {
            0
        }),
        seconds_count(seq![e], t, now) == (if e.is_request && e.timestamp_secs is Some
            && e.timestamp_secs->0 == t && now - 60 < t <= now && t > 0 {
            1nat
        } else {
            0
        }),
        recent_count(seq![e], now) == (if e.is_request && e.timestamp_secs is Some && now
            - e.timestamp_secs->0 <= 60 {
            1nat
        } else {
            0
        }),
    decreases b.len(),
{
    let none = seq![e].drop_last();
    assert(none.len() == 0);
    assert(request_count(none) == 0);
    assert(seconds_count(none, t, now) == 0);
    assert(recent_count(none, now) == 0);
    assert(seq![e].last() == e);
    if b.len() == 0 {
        assert(a + b =~= a);
        assert(duration_list(a) + duration_list(b) =~= duration_list(a));
    } else {
        assert((a + b).drop_last() =~= a + b.drop_last());
        requests_count_one_by_one(a, b.drop_last(), e, t, now);
        assert(duration_list(a + b) =~= duration_list(a) + duration_list(b));
    }
}

/// How many entries say that a model was used.
pub open spec fn uses_of(s: Seq<LogEntry>, model: Seq<char>) -> nat
    decreases s.len(),
{
    if s.len() == 0 {
        0
    } else {
        uses_of(s.drop_last(), model) + (if first_group(model_pattern(), s.last().line@) == Some(
            model,
        ) {
            1nat
        } else {
            0
        })
    }
}

/// A model is counted as often as entries say that it was used.
pub proof fn models_are_counted_by_their_uses(s: Seq<LogEntry>, model: Seq<char>)
    requires
        s.len() <= u64::MAX,
    ensures
        crate::counter::count(model_counts(s), model) == uses_of(s, model),
        uses_of(s, model) <= s.len(),
    decreases s.len(),
{
    if s.len() > 0 {
        let rest = s.drop_last();
        models_are_counted_by_their_uses(rest, model);
        lemma_model_counts(rest);
        match first_group(model_pattern(), s.last().line@) {
            Some(used) => {
                crate::counter::counting_adds_up(model_counts(rest), used, 1);
            },
            None => {},
        }
    } else {
        assert(!exists|i: int| crate::counter::has_name(model_counts(s), model, i));
    }
}

/// A sum is that of its parts, and an average is the sum over the number, rounded down.
pub proof fn totals_add_up(a: Seq<nat>, b: Seq<nat>, x: nat)
    ensures
        total_of(a + b) == total_of(a) + total_of(b),
        total_of(seq![x]) == x,
    decreases b.len(),
{
    let none = seq![x].drop_last();
    assert(none.len() == 0);
    assert(total_of(none) == 0);
    assert(seq![x].last() == x);
    if b.len() == 0 {
        assert(a + b =~= a);
    } else {
        assert((a + b).drop_last() =~= a + b.drop_last());
        totals_add_up(a, b.drop_last(), x);
    }
}

/// The start of the server is the one that the last entry names that names one.
pub proof fn the_last_start_counts(s: Seq<LogEntry>, more: Seq<LogEntry>)
    ensures
        (forall|i: int|
            0 <= i < more.len() ==> stamp_of_group(
                first_group(start_pattern(), (#[trigger] more[i]).line@),
            ) is None) ==> last_start(s + more) == last_start(s),
        s.len() > 0 && stamp_of_group(first_group(start_pattern(), s.last().line@)) is Some
            ==> last_start(s) == stamp_of_group(first_group(start_pattern(), s.last().line@)),
        s.len() == 0 ==> last_start(s) is None,
    decreases more.len(),
{
    if more.len() == 0 {
        assert(s + more =~= s);
    } else {
        let rest = more.drop_last();
        assert((s + more).drop_last() =~= s + rest);
        assert((s + more).last() == more[more.len() - 1]);
        the_last_start_counts(s, rest);
        if forall|i: int|
            0 <= i < more.len() ==> stamp_of_group(
                first_group(start_pattern(), (#[trigger] more[i]).line@),
            ) is None {
            assert forall|i: int| 0 <= i < rest.len() implies stamp_of_group(
                first_group(start_pattern(), (#[trigger] rest[i]).line@),
            ) is None by {
                assert(rest[i] == more[i]);
            }
            assert(stamp_of_group(
                first_group(start_pattern(), more[more.len() - 1].line@),
            ) is None);
        }
    }
}

/// A colour code is taken out from between plain texts, which stay as they are.
pub proof fn codes_are_taken_out(a: Seq<char>, code: Seq<char>, b: Seq<char>)
    requires
        !a.contains('\u{1b}'),
        !b.contains('\u{1b}'),
        forall|i: int| 0 <= i < code.len() ==> code_char(#[trigger] code[i]),
    ensures
        without_codes(a + seq!['\u{1b}', '['] + code + seq!['m'] + b) == a + b,
{
    let s = a + seq!['\u{1b}', '['] + code + seq!['m'] + b;
    let n = a.len() as int;
    let e = n + 2 + code.len();
    assert(s[n] == '\u{1b}' && s[n + 1] == '[' && s[e] == 'm');
    assert forall|i: int| n + 2 <= i < e implies code_char(#[trigger] s[i]) by {
        assert(s[i] == code[i - n - 2]);
    }
    lemma_code_end(s, n + 2, e);
    assert(code_len(s, n) == e + 1 - n);
    assert forall|i: int| 0 <= i < n implies s[i] != '\u{1b}' by {
        assert(s[i] == a[i]);
        assert(a.contains(a[i]));
    }
    assert forall|i: int| e < i < s.len() implies s[i] != '\u{1b}' by {
        assert(s[i] == b[i - e - 1]);
        assert(b.contains(b[i - e - 1]));
    }
    lemma_plain_rest(s, e + 1);
    assert(s.subrange(e + 1, s.len() as int) =~= b);
    assert(without_codes_from(s, n) == without_codes_from(s, e + 1));
    lemma_plain_part(s, 0, n);
    assert(s.subrange(0, n) =~= a);
}

/// The characters of a code end at the first that is none.
proof fn lemma_code_end(s: Seq<char>, i: int, e: int)
    requires
        0 <= i <= e < s.len(),
        forall|j: int| i <= j < e ==> code_char(#[trigger] s[j]),
        !code_char(s[e]),
    ensures
        code_end(s, i) == e,
    decreases e - i,
{
    if i < e {
        assert(code_char(s[i]));
        lemma_code_end(s, i + 1, e);
    }
}

/// What has no escape behind a place stays from there on.
proof fn lemma_plain_rest(s: Seq<char>, i: int)
    requires
        0 <= i <= s.len(),
        forall|j: int| i <= j < s.len() ==> s[j] != '\u{1b}',
    ensures
        without_codes_from(s, i) == s.subrange(i, s.len() as int),
    decreases s.len() - i,
{
    if i < s.len() {
        lemma_plain_rest(s, i + 1);
    }
    assert(without_codes_from(s, i) =~= s.subrange(i, s.len() as int));
}

/// What has no escape up to a place stays up to there.
proof fn lemma_plain_part(s: Seq<char>, i: int, n: int)
    requires
        0 <= i <= n <= s.len(),
        forall|j: int| i <= j < n ==> s[j] != '\u{1b}',
    ensures
        without_codes_from(s, i) == s.subrange(i, n) + without_codes_from(s, n),
    decreases n - i,
{
    if i < n {
        lemma_plain_part(s, i + 1, n);
    }
    assert(without_codes_from(s, i) =~= s.subrange(i, n) + without_codes_from(s, n));
}

/// The history is of the sixty seconds that end now, or of the first sixty of all.
pub proof fn the_history_ends_now(now: u64)
    ensures
        now >= 59 ==> history_start(now) + 59 == now,
        now < 59 ==> history_start(now) == 0,
{
}

} // verus!
