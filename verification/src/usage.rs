//! Token usage over time, as the dashboard keeps it, and what it reads from the server.

use vstd::prelude::*;

use crate::json::{
    array_view, entry, lemma_array_view, number_u64, parse_json, parsed_json, Json, JsonView,
};
use crate::text::{chars_of, find_chars, occurs_at, same, text_between};

verus! {

/// The tokens one model used.
#[derive(Debug, Clone, PartialEq)]
pub struct ModelTokenStats {
    pub model: String,
    pub input_tokens: u64,
    pub output_tokens: u64,
    pub cache_read_tokens: u64,
}

/// The tokens used, by model and in all.
#[derive(Debug, Clone, PartialEq)]
pub struct TokenStats {
    pub models: Vec<ModelTokenStats>,
    pub total_input_tokens: u64,
    pub total_output_tokens: u64,
    pub total_cache_read_tokens: u64,
}

/// How many snapshots are kept.
pub const TOKEN_HISTORY_MAX_POINTS: usize = 2000;

/// The tokens used up to a moment, by model.
#[derive(Debug, Clone, PartialEq)]
pub struct TokenSnapshot {
    /// Seconds since the start of 1970.
    pub timestamp: u64,
    pub models: Vec<(String, u64)>,
}

/// Token usage over time: snapshots in the order in which they were taken.
#[derive(Debug, Clone, PartialEq)]
pub struct TokenHistory {
    pub snapshots: Vec<TokenSnapshot>,
    /// When the quota period began, in seconds since the start of 1970.
    pub period_start: Option<u64>,
}

/// Whether the tokens of each model add up to a `u64`.
pub open spec fn sums_fit(stats: TokenStats) -> bool {
    forall|i: int|
        0 <= i < stats.models@.len() ==> (#[trigger] stats.models@[i]).input_tokens
            + stats.models@[i].output_tokens <= u64::MAX
}

/// The names and totals of a snapshot of `stats`.
pub open spec fn totals(stats: TokenStats) -> Seq<(Seq<char>, u64)> {
    Seq::new(
        stats.models@.len(),
        |i: int|
            (
                stats.models@[i].model@,
                (stats.models@[i].input_tokens + stats.models@[i].output_tokens) as u64,
            ),
    )
}

/// The names and totals of a snapshot.
pub open spec fn snapshot_totals(s: TokenSnapshot) -> Seq<(Seq<char>, u64)> {
    Seq::new(s.models@.len(), |i: int| (s.models@[i].0@, s.models@[i].1))
}

/// Whether any model used any tokens.
pub open spec fn any_tokens(t: Seq<(Seq<char>, u64)>) -> bool {
    exists|i: int| 0 <= i < t.len() && (#[trigger] t[i]).1 != 0
}

/// The newest of a list, as many as are kept.
pub open spec fn newest<T>(s: Seq<T>, max: nat) -> Seq<T> {
    if s.len() > max {
        s.subrange(s.len() - max, s.len() as int)
    } else {
        s
    }
}

impl TokenHistory {
    /// No snapshots.
    pub fn new() -> (r: TokenHistory)
        ensures
            r.snapshots@.len() == 0,
            r.period_start is None,
    {
        TokenHistory { snapshots: Vec::new(), period_start: None }
    }

    /// Takes a snapshot of `stats` at `now`, where any model used any tokens: whether it
    /// was taken is handed back. The newest two thousand are kept.
    pub fn push_at(&mut self, stats: &TokenStats, now: u64) -> (taken: bool)
        requires
            sums_fit(*stats),
        ensures
            taken == any_tokens(totals(*stats)),
            !taken ==> *final(self) == *old(self),
            taken ==> final(self).period_start == old(self).period_start && exists|
                s: TokenSnapshot,
            |
                s.timestamp == now && snapshot_totals(s) == totals(*stats) && final(self).snapshots@
                    == #[trigger] newest(old(self).snapshots@.push(s), 2000),
    {
        let mut models: Vec<(String, u64)> = Vec::new();
        let mut any = false;
        let mut i: usize = 0;
        while i < stats.models.len()
            invariant
                i <= stats.models@.len(),
                sums_fit(*stats),
                models@.len() == i,
                forall|j: int|
                    0 <= j < i ==> (#[trigger] models@[j]).0@ == totals(*stats)[j].0
                        && models@[j].1 == totals(*stats)[j].1,
                any == exists|j: int| 0 <= j < i && (#[trigger] totals(*stats)[j]).1 != 0,
            decreases stats.models@.len() - i,
        {
            let m = &stats.models[i];
            let total: u64 = m.input_tokens + m.output_tokens;
            assert(totals(*stats)[i as int] == (m.model@, total));
            models.push((m.model.clone(), total));
            if total != 0 {
                any = true;
            }
            i = i + 1;
        }
        if !any {
            return false;
        }
        let s = TokenSnapshot { timestamp: now, models };
        assert(snapshot_totals(s) =~= totals(*stats));
        let ghost before = self.snapshots@;
        self.snapshots.push(s);
        if self.snapshots.len() > TOKEN_HISTORY_MAX_POINTS {
            let excess: usize = self.snapshots.len() - TOKEN_HISTORY_MAX_POINTS;
            let rest = self.snapshots.split_off(excess);
            self.snapshots = rest;
        }
        assert(self.snapshots@ =~= newest(before.push(s), 2000));
        true
    }

    /// Takes a snapshot of `stats` now, where any model used any tokens.
    pub fn push(&mut self, stats: &TokenStats) -> (taken: bool)
        requires
            sums_fit(*stats),
        ensures
            taken == any_tokens(totals(*stats)),
            !taken ==> *final(self) == *old(self),
            taken ==> final(self).period_start == old(self).period_start && exists|
                s: TokenSnapshot,
            |
                snapshot_totals(s) == totals(*stats) && final(self).snapshots@
                    == #[trigger] newest(old(self).snapshots@.push(s), 2000),
    {
        let now = crate::clock::now_secs();
        self.push_at(stats, now)
    }

    /// Forgets all snapshots.
    pub fn reset(&mut self)
        ensures
            final(self).snapshots@.len() == 0,
            final(self).period_start == old(self).period_start,
    {
        self.snapshots.clear();
    }
}

/// The seconds since the start of 1970 of a moment written down in the format of RFC
/// 3339; `None` where the text is not one.
pub uninterp spec fn rfc3339_secs(text: Seq<char>) -> Option<i64>;

/// `chrono::DateTime::parse_from_rfc3339`, and the `timestamp` of what it reads: a function
/// of the text, which `rfc3339_secs` names.
#[verifier::external_body]
fn rfc3339(text: &str) -> (r: Option<i64>)
    ensures
        r == rfc3339_secs(text@),
{
    chrono::DateTime::parse_from_rfc3339(text).ok().map(|dt| dt.timestamp())
}

/// The seconds of a moment, as an unsigned number: one before 1970 wraps round.
pub open spec fn reset_secs(text: Seq<char>) -> Option<u64> {
    match rfc3339_secs(text) {
        Some(t) => Some(t as u64),
        None => None,
    }
}

/// The seconds since the start of 1970 at which a quota is reset, from its text.
pub fn parse_reset_time(text: &str) -> (r: Option<u64>)
    ensures
        r == reset_secs(text@),
{
    match rfc3339(text) {
        Some(t) => Some(t as u64),
        None => None,
    }
}

impl TokenHistory {
    /// Sets the start of the quota period from its end: a day before it.
    pub fn set_period(&mut self, reset: u64)
        ensures
            final(self).snapshots == old(self).snapshots,
            final(self).period_start == Some(if reset < 86400 {
                0u64
            } else {
                (reset - 86400) as u64
            }),
    {
        self.period_start = Some(
            if reset < 86400 {
                0
            } else {
                reset - 86400
            },
        );
    }

    /// Sets the start of the quota period from the text of its end, where it is readable.
    pub fn set_period_from_reset_time(&mut self, reset_time: &str)
        ensures
            final(self).snapshots == old(self).snapshots,
            match reset_secs(reset_time@) {
                Some(t) => final(self).period_start == Some(if t < 86400 {
                    0u64
                } else {
                    (t - 86400) as u64
                }),
                None => final(self).period_start == old(self).period_start,
            },
    {
        match parse_reset_time(reset_time) {
            Some(t) => {
                self.set_period(t);
            },
            None => {},
        }
    }

    /// Whether the quota period that ends at `reset` is over at `now`, which it is from the
    /// second after its end on, and the snapshots began in it.
    pub fn is_over(&self, reset: u64, now: u64) -> (r: bool)
        ensures
            r == (now > reset && self.snapshots@.len() > 0 && self.snapshots@[0].timestamp
                < reset),
    {
        now > reset && self.snapshots.len() > 0 && self.snapshots[0].timestamp < reset
    }

    /// Whether the snapshots should be forgotten at `now`, from the text of the end of the
    /// quota period.
    pub fn should_reset(&self, reset_time: &str, now: u64) -> (r: bool)
        ensures
            r == (reset_secs(reset_time@) matches Some(t) && now > t && self.snapshots@.len() > 0
                && self.snapshots@[0].timestamp < t),
    {
        match parse_reset_time(reset_time) {
            Some(t) => self.is_over(t, now),
            None => false,
        }
    }

    /// Where the time axis begins: the start of the quota period where it is known, else
    /// the first snapshot.
    pub open spec fn origin(&self) -> u64 {
        match self.period_start {
            Some(t) => t,
            None => self.snapshots@[0].timestamp,
        }
    }

    /// The seconds that the time axis covers at `now`; `None` where there are no snapshots.
    pub fn time_range_secs(&self, now: u64) -> (r: Option<u64>)
        ensures
            self.snapshots@.len() == 0 ==> r is None,
            self.snapshots@.len() > 0 ==> r == Some(if now < self.origin() {
                0u64
            } else {
                (now - self.origin()) as u64
            }),
    {
        if self.snapshots.len() == 0 {
            return None;
        }
        let origin: u64 = match self.period_start {
            Some(t) => t,
            None => self.snapshots[0].timestamp,
        };
        Some(
            if now < origin {
                0
            } else {
                now - origin
            },
        )
    }
}


/// The names of a list that are not in `known`, after `known`, each once.
pub open spec fn with_names(known: Seq<Seq<char>>, t: Seq<(Seq<char>, u64)>) -> Seq<Seq<char>>
    decreases t.len(),
{
    if t.len() == 0 {
        known
    } else {
        let before = with_names(known, t.drop_last());
        if before.contains(t.last().0) {
            before
        } else {
            before.push(t.last().0)
        }
    }
}

/// The models of the snapshots, in the order in which they first occur.
pub open spec fn all_names(s: Seq<TokenSnapshot>) -> Seq<Seq<char>>
    decreases s.len(),
{
    if s.len() == 0 {
        Seq::empty()
    } else {
        with_names(all_names(s.drop_last()), snapshot_totals(s.last()))
    }
}

/// The tokens of the first entry of a name from index `i` on; zero where it has none.
pub open spec fn tokens_from(t: Seq<(Seq<char>, u64)>, name: Seq<char>, i: int) -> u64
    decreases t.len() - i,
{
    if i < 0 || i >= t.len() {
        0
    } else if t[i].0 == name {
        t[i].1
    } else {
        tokens_from(t, name, i + 1)
    }
}

/// One point of a model's line: seconds after the origin, tokens used up to then.
pub open spec fn point(s: TokenSnapshot, origin: u64, name: Seq<char>) -> (u64, u64) {
    (
        if s.timestamp < origin {
            0
        } else {
            (s.timestamp - origin) as u64
        },
        tokens_from(snapshot_totals(s), name, 0),
    )
}

/// A model's line: one point for each snapshot.
pub open spec fn line_of(h: TokenHistory, name: Seq<char>) -> Seq<(u64, u64)> {
    Seq::new(h.snapshots@.len(), |i: int| point(h.snapshots@[i], h.origin(), name))
}

/// Whether a line rises above zero.
pub open spec fn rises(line: Seq<(u64, u64)>) -> bool {
    exists|i: int| 0 <= i < line.len() && (#[trigger] line[i]).1 > 0
}

/// The lines of the models in `names` that rise above zero, in order.
pub open spec fn lines_of(h: TokenHistory, names: Seq<Seq<char>>) -> Seq<
    (Seq<char>, Seq<(u64, u64)>),
>
    decreases names.len(),
{
    if names.len() == 0 {
        Seq::empty()
    } else {
        let before = lines_of(h, names.drop_last());
        let line = line_of(h, names.last());
        if rises(line) {
            before.push((names.last(), line))
        } else {
            before
        }
    }
}

/// The names and points of a list of lines.
pub open spec fn line_views(v: Seq<(String, Vec<(u64, u64)>)>) -> Seq<
    (Seq<char>, Seq<(u64, u64)>),
> {
    Seq::new(v.len(), |i: int| (v[i].0@, v[i].1@))
}

/// Whether a name is in a list.
fn has_name(names: &Vec<String>, name: &str) -> (r: bool)
    ensures
        r == crate::text::views(names@).contains(name@),
{
    let mut i: usize = 0;
    while i < names.len()
        invariant
            i <= names@.len(),
            forall|j: int| 0 <= j < i ==> (#[trigger] names@[j])@ != name@,
        decreases names@.len() - i,
    {
        if same(&names[i], name) {
            assert(crate::text::views(names@)[i as int] == name@);
            return true;
        }
        i = i + 1;
    }
    assert(!crate::text::views(names@).contains(name@)) by {
        let v = crate::text::views(names@);
        if v.contains(name@) {
            let k = choose|k: int| 0 <= k < v.len() && v[k] == name@;
            assert(names@[k]@ == name@);
        }
    }
    false
}

impl TokenSnapshot {
    /// The tokens of the first entry of a name; zero where it has none.
    fn tokens(&self, name: &str) -> (r: u64)
        ensures
            r == tokens_from(snapshot_totals(*self), name@, 0),
    {
        let ghost t = snapshot_totals(*self);
        let mut i: usize = 0;
        while i < self.models.len()
            invariant
                i <= self.models@.len(),
                t == snapshot_totals(*self),
                tokens_from(t, name@, 0) == tokens_from(t, name@, i as int),
            decreases self.models@.len() - i,
        {
            assert(t[i as int] == (self.models@[i as int].0@, self.models@[i as int].1));
            if same(&self.models[i].0, name) {
                return self.models[i].1;
            }
            i = i + 1;
        }
        0
    }
}

impl TokenHistory {
    /// The models of the snapshots, in the order in which they first occur.
    fn names(&self) -> (r: Vec<String>)
        ensures
            crate::text::views(r@) == all_names(self.snapshots@),
    {
        let mut r: Vec<String> = Vec::new();
        let mut i: usize = 0;
        assert(self.snapshots@.take(0) =~= Seq::empty());
        assert(crate::text::views(r@) =~= Seq::empty());
        while i < self.snapshots.len()
            invariant
                i <= self.snapshots@.len(),
                crate::text::views(r@) == all_names(self.snapshots@.take(i as int)),
            decreases self.snapshots@.len() - i,
        {
            assert(self.snapshots@.take(i + 1).drop_last() =~= self.snapshots@.take(i as int));
            let s = &self.snapshots[i];
            let ghost t = snapshot_totals(*s);
            let ghost known = crate::text::views(r@);
            let mut k: usize = 0;
            assert(t.take(0) =~= Seq::empty());
            while k < s.models.len()
                invariant
                    k <= s.models@.len(),
                    t == snapshot_totals(*s),
                    crate::text::views(r@) == with_names(known, t.take(k as int)),
                decreases s.models@.len() - k,
            {
                assert(t.take(k + 1).drop_last() =~= t.take(k as int));
                assert(t.take(k + 1).last().0 == s.models@[k as int].0@);
                let ghost before = r@;
                if !has_name(&r, &s.models[k].0) {
                    r.push(s.models[k].0.clone());
                    assert(crate::text::views(r@) =~= crate::text::views(before).push(
                        s.models@[k as int].0@,
                    ));
                }
                k = k + 1;
            }
            assert(t.take(t.len() as int) =~= t);
            i = i + 1;
        }
        assert(self.snapshots@.take(self.snapshots@.len() as int) =~= self.snapshots@);
        r
    }

    /// A line for each model that used any tokens: seconds after the origin of the time
    /// axis, tokens used up to then.
    pub fn get_cumulative_series(&self) -> (r: Vec<(String, Vec<(u64, u64)>)>)
        ensures
            line_views(r@) == lines_of(*self, all_names(self.snapshots@)),
    {
        let mut r: Vec<(String, Vec<(u64, u64)>)> = Vec::new();
        assert(line_views(r@) =~= Seq::empty());
        if self.snapshots.len() == 0 {
            return r;
        }
        let origin: u64 = match self.period_start {
            Some(t) => t,
            None => self.snapshots[0].timestamp,
        };
        let names = self.names();
        let ghost all = all_names(self.snapshots@);
        let mut i: usize = 0;
        assert(all.take(0) =~= Seq::empty());
        while i < names.len()
            invariant
                i <= names@.len(),
                origin == self.origin(),
                all == crate::text::views(names@),
                line_views(r@) == lines_of(*self, all.take(i as int)),
            decreases names@.len() - i,
        {
            assert(all.take(i + 1).drop_last() =~= all.take(i as int));
            assert(all.take(i + 1).last() == names@[i as int]@);
            let mut points: Vec<(u64, u64)> = Vec::new();
            let mut any = false;
            let mut k: usize = 0;
            while k < self.snapshots.len()
                invariant
                    k <= self.snapshots@.len(),
                    i < names@.len(),
                    origin == self.origin(),
                    points@.len() == k,
                    forall|j: int|
                        0 <= j < k ==> #[trigger] points@[j] == point(
                            self.snapshots@[j],
                            origin,
                            names@[i as int]@,
                        ),
                    any == exists|j: int| 0 <= j < k && (#[trigger] points@[j]).1 > 0,
                decreases self.snapshots@.len() - k,
            {
                let s = &self.snapshots[k];
                let x: u64 = if s.timestamp < origin {
                    0
                } else {
                    s.timestamp - origin
                };
                let y = s.tokens(&names[i]);
                let ghost before = points@;
                points.push((x, y));
                if y > 0 {
                    any = true;
                    assert(points@[k as int].1 > 0);
                } else {
                    assert forall|j: int| 0 <= j < k + 1 && (#[trigger] points@[j]).1
                        > 0 implies before[j].1 > 0 by {}
                }
                if any {
                    assert(exists|j: int| 0 <= j < k + 1 && (#[trigger] points@[j]).1 > 0) by {
                        if y == 0 {
                            let j = choose|j: int| 0 <= j < k && (#[trigger] before[j]).1 > 0;
                            assert(points@[j].1 > 0);
                        }
                    }
                }
                k = k + 1;
            }
            let ghost line = line_of(*self, names@[i as int]@);
            assert(points@ =~= line);
            if any {
                let ghost before = r@;
                let ghost added = (names@[i as int]@, points@);
                r.push((names[i].clone(), points));
                assert(line_views(r@) =~= line_views(before).push(added));
            }
            i = i + 1;
        }
        assert(all.take(all.len() as int) =~= all);
        r
    }
}


/// The number at a key; zero where there is none that a `u64` holds.
pub open spec fn number_at(v: Option<JsonView>, key: Seq<char>) -> u64 {
    match v {
        Some(o) => match entry(o, key) {
            Some(JsonView::Number(n)) => match number_u64(n) {
                Some(x) => x,
                None => 0,
            },
            _ => 0,
        },
        None => 0,
    }
}

/// The model that an entry names; `unknown` where it names none.
pub open spec fn model_at(v: JsonView) -> Seq<char> {
    match entry(v, "model"@) {
        Some(JsonView::Text(t)) => t,
        _ => "unknown"@,
    }
}

/// What a model's statistics say: its name and its tokens, in, out and from the cache.
pub open spec fn model_tokens(m: ModelTokenStats) -> (Seq<char>, u64, u64, u64) {
    (m.model@, m.input_tokens, m.output_tokens, m.cache_read_tokens)
}

/// The models of a list of entries that used tokens, in order.
pub open spec fn used_models(a: Seq<JsonView>) -> Seq<(Seq<char>, u64, u64, u64)>
    decreases a.len(),
{
    if a.len() == 0 {
        Seq::empty()
    } else {
        let before = used_models(a.drop_last());
        let m = Some(a.last());
        let input = number_at(m, "input_tokens"@);
        let output = number_at(m, "output_tokens"@);
        if input > 0 || output > 0 {
            before.push((model_at(a.last()), input, output, number_at(m, "cache_read_tokens"@)))
        } else {
            before
        }
    }
}

/// Whether `t` is what the value of the `/stats` endpoint says.
pub open spec fn stats_say(t: TokenStats, v: JsonView) -> bool {
    let requests = entry(v, "requests"@);
    let usage = match requests {
        Some(r) => entry(r, "token_usage"@),
        None => None,
    };
    let models = match requests {
        Some(r) => match entry(r, "models"@) {
            Some(JsonView::Array(a)) => used_models(a),
            _ => Seq::empty(),
        },
        None => Seq::empty(),
    };
    &&& Seq::new(t.models@.len(), |i: int| model_tokens(t.models@[i])) == models
    &&& t.total_input_tokens == number_at(usage, "total_input_tokens"@)
    &&& t.total_output_tokens == number_at(usage, "total_output_tokens"@)
    &&& t.total_cache_read_tokens == number_at(usage, "total_cache_read_tokens"@)
}

/// The number at a key.
fn read_number(v: Option<&Json>, key: &str) -> (r: u64)
    ensures
        r == number_at(
            match v {
                Some(j) => Some(j@),
                None => None,
            },
            key@,
        ),
{
    match v {
        Some(o) => match o.get(key) {
            Some(j) => match j.as_u64() {
                Some(x) => x,
                None => 0,
            },
            None => 0,
        },
        None => 0,
    }
}

/// What the value of the `/stats` endpoint says of the tokens used.
pub fn token_stats_of(v: &Json) -> (r: TokenStats)
    ensures
        stats_say(r, v@),
{
    let requests = v.get("requests");
    let usage = match requests {
        Some(q) => q.get("token_usage"),
        None => None,
    };
    let mut models: Vec<ModelTokenStats> = Vec::new();
    assert(Seq::new(models@.len(), |i: int| model_tokens(models@[i])) =~= Seq::empty());
    match requests {
        Some(q) => match q.get("models") {
            Some(list) => match list.as_array() {
                Some(a) => {
                    let ghost all = array_view(a@);
                    let mut i: usize = 0;
                    proof {
                        lemma_array_view(a@);
                    }
                    assert(all.take(0) =~= Seq::empty());
                    while i < a.len()
                        invariant
                            i <= a@.len(),
                            all == array_view(a@),
                            all.len() == a@.len(),
                            forall|j: int| 0 <= j < a@.len() ==> #[trigger] all[j] == a@[j]@,
                            Seq::new(models@.len(), |i: int| model_tokens(models@[i]))
                                == used_models(all.take(i as int)),
                        decreases a@.len() - i,
                    {
                        assert(all.take(i + 1).drop_last() =~= all.take(i as int));
                        assert(all.take(i + 1).last() == a@[i as int]@);
                        let m = Some(&a[i]);
                        let input_tokens = read_number(m, "input_tokens");
                        let output_tokens = read_number(m, "output_tokens");
                        let cache_read_tokens = read_number(m, "cache_read_tokens");
                        if input_tokens > 0 || output_tokens > 0 {
                            let model = match a[i].get("model") {
                                Some(j) => match j.as_str() {
                                    Some(t) => t.to_owned(),
                                    None => "unknown".to_owned(),
                                },
                                None => "unknown".to_owned(),
                            };
                            let ghost before = Seq::new(
                                models@.len(),
                                |i: int| model_tokens(models@[i]),
                            );
                            let ghost added = (
                                model@,
                                input_tokens,
                                output_tokens,
                                cache_read_tokens,
                            );
                            models.push(
                                ModelTokenStats {
                                    model,
                                    input_tokens,
                                    output_tokens,
                                    cache_read_tokens,
                                },
                            );
                            assert(Seq::new(models@.len(), |i: int| model_tokens(models@[i]))
                                =~= before.push(added));
                        }
                        i = i + 1;
                    }
                    assert(all.take(all.len() as int) =~= all);
                },
                None => {},
            },
            None => {},
        },
        None => {},
    }
    TokenStats {
        models,
        total_input_tokens: read_number(usage, "total_input_tokens"),
        total_output_tokens: read_number(usage, "total_output_tokens"),
        total_cache_read_tokens: read_number(usage, "total_cache_read_tokens"),
    }
}

/// The JSON object in an HTTP response: from the first brace after the headers to the
/// last brace.
pub open spec fn is_body_object(response: Seq<char>, from: int, to: int) -> bool {
    exists|h: int| #[trigger]
        occurs_at(response, "\r\n\r\n"@, h) && (forall|j: int|
            0 <= j < h ==> !occurs_at(response, "\r\n\r\n"@, j)) && h + 4 <= from < to
            <= response.len() && response[from] == '{' && (forall|j: int|
            h + 4 <= j < from ==> response[j] != '{') && response[to - 1] == '}' && (forall|j: int|
            to <= j < response.len() ==> response[j] != '}')
}

/// Where the JSON object of an HTTP response stands.
fn body_object(v: &Vec<char>) -> (r: Option<(usize, usize)>)
    ensures
        match r {
            Some((from, to)) => is_body_object(v@, from as int, to as int),
            None => !exists|from: int, to: int| is_body_object(v@, from, to),
        },
{
    let gap = chars_of("\r\n\r\n");
    proof {
        reveal_strlit("\r\n\r\n");
    }
    let h = match find_chars(v, &gap, 0) {
        Some(h) => h,
        None => {
            return None;
        },
    };
    let n: usize = v.len();
    assert(h + 4 <= n);
    let mut from: usize = h + 4;
    while from < v.len() && v[from] != '{'
        invariant
            h + 4 <= from <= v@.len(),
            forall|j: int| h + 4 <= j < from ==> v@[j] != '{',
        decreases v@.len() - from,
    {
        from = from + 1;
    }
    let mut to: usize = v.len();
    while to > from && v[to - 1] != '}'
        invariant
            from <= to <= v@.len(),
            forall|j: int| to <= j < v@.len() ==> v@[j] != '}',
        decreases to,
    {
        to = to - 1;
    }
    if from < to {
        assert(is_body_object(v@, from as int, to as int));
        Some((from, to))
    } else {
        assert forall|a: int, b: int| !is_body_object(v@, a, b) by {
            if is_body_object(v@, a, b) {
                let g = choose|g: int| #[trigger]
                    occurs_at(v@, "\r\n\r\n"@, g) && (forall|j: int|
                        0 <= j < g ==> !occurs_at(v@, "\r\n\r\n"@, j)) && g + 4 <= a < b
                        <= v@.len() && v@[a] == '{' && (forall|j: int|
                        g + 4 <= j < a ==> v@[j] != '{') && v@[b - 1] == '}';
                assert(g == h);
            }
        }
        None
    }
}

/// What an HTTP response of the `/stats` endpoint says of the tokens used: `None` where it
/// holds no JSON object after its headers, or one that is not valid JSON.
pub fn parse_token_stats(response: &str) -> (r: Option<TokenStats>)
    ensures
        match r {
            Some(t) => exists|from: int, to: int| #[trigger]
                is_body_object(response@, from, to) && (parsed_json(
                    response@.subrange(from, to),
                ) matches Some(v) && stats_say(t, v)),
            None => (!exists|from: int, to: int| is_body_object(response@, from, to)) || exists|
                from: int,
                to: int,
            | #[trigger]
                is_body_object(response@, from, to) && parsed_json(
                    response@.subrange(from, to),
                ) is None,
        },
{
    let v = chars_of(response);
    match body_object(&v) {
        Some((from, to)) => {
            let text = text_between(&v, from, to);
            match parse_json(&text) {
                Some(j) => Some(token_stats_of(&j)),
                None => None,
            }
        },
        None => None,
    }
}

/// A snapshot counts, for every model, what went in and what came out, together.
pub proof fn snapshots_count_both_ways(stats: TokenStats, i: int)
    requires
        sums_fit(stats),
        0 <= i < stats.models@.len(),
    ensures
        totals(stats).len() == stats.models@.len(),
        totals(stats)[i].0 == stats.models@[i].model@,
        totals(stats)[i].1 == stats.models@[i].input_tokens + stats.models@[i].output_tokens,
        stats.models@[i].input_tokens > 0 || stats.models@[i].output_tokens > 0 ==> any_tokens(
            totals(stats),
        ),
{
    let t = totals(stats)[i];
}

/// What is kept of a list is its end, in order and whole as far as it fits: the newest stays,
/// and only the oldest go.
pub proof fn only_the_oldest_go<T>(s: Seq<T>, max: nat, x: T)
    ensures
        newest(s, max).len() == (if s.len() < max {
            s.len()
        } else {
            max
        }),
        forall|i: int|
            0 <= i < newest(s, max).len() ==> #[trigger] newest(s, max)[i] == s[s.len() - newest(
                s,
                max,
            ).len() + i],
        max > 0 ==> newest(s.push(x), max).len() > 0 && newest(s.push(x), max).last() == x,
{
}

/// The end of a quota period is read as the moment it is.
pub proof fn resets_are_read(text: Seq<char>, t: i64)
    requires
        rfc3339_secs(text) == Some(t),
        t >= 0,
    ensures
        reset_secs(text) matches Some(n) && n == t,
{
}

/// The names that are known with a list are those known before and those of the list, each
/// once, the earlier ones first.
proof fn lemma_with_names(known: Seq<Seq<char>>, t: Seq<(Seq<char>, u64)>)
    requires
        known.no_duplicates(),
    ensures
        with_names(known, t).no_duplicates(),
        known.len() <= with_names(known, t).len(),
        forall|i: int| 0 <= i < known.len() ==> #[trigger] with_names(known, t)[i] == known[i],
        forall|n: Seq<char>|
            #[trigger] with_names(known, t).contains(n) <==> known.contains(n) || exists|i: int|
                0 <= i < t.len() && (#[trigger] t[i]).0 == n,
    decreases t.len(),
{
    if t.len() > 0 {
        let rest = t.drop_last();
        let before = with_names(known, rest);
        let all = with_names(known, t);
        let x = t.last().0;
        lemma_with_names(known, rest);
        assert forall|n: Seq<char>| #[trigger] all.contains(n) <==> known.contains(n) || exists|
            i: int,
        |
            0 <= i < t.len() && (#[trigger] t[i]).0 == n by {
            if before.contains(n) {
                let j = choose|j: int| 0 <= j < before.len() && before[j] == n;
                assert(all[j] == n);
                if !known.contains(n) {
                    let i = choose|i: int| 0 <= i < rest.len() && (#[trigger] rest[i]).0 == n;
                    assert(t[i].0 == n);
                }
            }
            if all.contains(n) && !before.contains(n) {
                let j = choose|j: int| 0 <= j < all.len() && all[j] == n;
                if j < before.len() {
                    assert(before[j] == n);
                }
                assert(t[t.len() - 1].0 == n);
            }
            if exists|i: int| 0 <= i < t.len() && (#[trigger] t[i]).0 == n {
                let i = choose|i: int| 0 <= i < t.len() && (#[trigger] t[i]).0 == n;
                if i < rest.len() {
                    assert(rest[i].0 == n);
                    assert(before.contains(n));
                } else {
                    if !before.contains(x) {
                        assert(all[all.len() - 1] == x);
                    }
                }
            }
        }
        if !before.contains(x) {
            assert forall|i: int, j: int| 0 <= i < j < all.len() implies all[i] != all[j] by {
                if j == before.len() {
                    assert(before.contains(before[i]));
                }
            }
        }
    }
}

/// The models that have a line are those of the snapshots, each once; a later snapshot only
/// adds names behind those that are there.
pub proof fn every_model_is_named_once(s: Seq<TokenSnapshot>)
    ensures
        all_names(s).no_duplicates(),
        forall|n: Seq<char>|
            #[trigger] all_names(s).contains(n) <==> exists|i: int, k: int|
                0 <= i < s.len() && 0 <= k < snapshot_totals(s[i]).len() && (
                #[trigger] snapshot_totals(s[i])[k]).0 == n,
        s.len() > 0 ==> all_names(s.drop_last()).len() <= all_names(s).len() && forall|j: int|
            0 <= j < all_names(s.drop_last()).len() ==> #[trigger] all_names(s)[j] == all_names(
                s.drop_last(),
            )[j],
    decreases s.len(),
{
    if s.len() > 0 {
        let rest = s.drop_last();
        every_model_is_named_once(rest);
        let t = snapshot_totals(s.last());
        lemma_with_names(all_names(rest), t);
        assert forall|n: Seq<char>| #[trigger] all_names(s).contains(n) <==> exists|i: int, k: int|
            0 <= i < s.len() && 0 <= k < snapshot_totals(s[i]).len() && (#[trigger] snapshot_totals(
                s[i],
            )[k]).0 == n by {
            if all_names(s).contains(n) {
                if all_names(rest).contains(n) {
                    let (i, k) = choose|i: int, k: int|
                        0 <= i < rest.len() && 0 <= k < snapshot_totals(rest[i]).len() && (
                        #[trigger] snapshot_totals(rest[i])[k]).0 == n;
                    assert(snapshot_totals(s[i])[k].0 == n);
                } else {
                    let k = choose|k: int| 0 <= k < t.len() && (#[trigger] t[k]).0 == n;
                    assert(snapshot_totals(s[s.len() - 1])[k].0 == n);
                }
            }
            if exists|i: int, k: int|
                0 <= i < s.len() && 0 <= k < snapshot_totals(s[i]).len() && (
                #[trigger] snapshot_totals(s[i])[k]).0 == n {
                let (i, k) = choose|i: int, k: int|
                    0 <= i < s.len() && 0 <= k < snapshot_totals(s[i]).len() && (
                    #[trigger] snapshot_totals(s[i])[k]).0 == n;
                if i < rest.len() {
                    assert(snapshot_totals(rest[i])[k].0 == n);
                    assert(all_names(rest).contains(n));
                } else {
                    assert(t[k].0 == n);
                }
            }
        }
    }
}

/// The tokens of a name in a snapshot are those of its first entry, none where it has none.
pub proof fn the_first_entry_counts(t: Seq<(Seq<char>, u64)>, name: Seq<char>, from: int, k: int)
    requires
        0 <= from <= t.len(),
    ensures
        from <= k < t.len() && t[k].0 == name && (forall|j: int|
            from <= j < k ==> (#[trigger] t[j]).0 != name) ==> tokens_from(t, name, from) == t[k].1,
        (forall|j: int| from <= j < t.len() ==> (#[trigger] t[j]).0 != name) ==> tokens_from(
            t,
            name,
            from,
        ) == 0,
    decreases t.len() - from,
{
    if from < t.len() {
        let x = t[from];
        if x.0 != name {
            the_first_entry_counts(t, name, from + 1, k);
        }
    }
}

/// Every model that used tokens has one line, of a point for each snapshot: how long after the
/// origin it was taken, and what the model had used by then.
pub proof fn lines_show_what_was_used(h: TokenHistory, names: Seq<Seq<char>>, n: int, i: int)
    requires
        names.no_duplicates(),
        0 <= n < names.len(),
        0 <= i < h.snapshots@.len(),
        tokens_from(snapshot_totals(h.snapshots@[i]), names[n], 0) > 0,
    ensures
        exists|k: int|
            0 <= k < lines_of(h, names).len() && (#[trigger] lines_of(h, names)[k]).0 == names[n]
                && lines_of(h, names)[k].1.len() == h.snapshots@.len() && lines_of(h, names)[k].1[i]
                == (
                (if h.snapshots@[i].timestamp < h.origin() {
                    0
                } else {
                    h.snapshots@[i].timestamp - h.origin()
                }) as u64,
                tokens_from(snapshot_totals(h.snapshots@[i]), names[n], 0),
            ),
    decreases names.len(),
{
    let rest = names.drop_last();
    let before = lines_of(h, rest);
    let all = lines_of(h, names);
    let line = line_of(h, names[n]);
    assert(line[i].1 > 0);
    if n < rest.len() {
        assert(rest[n] == names[n]);
        lines_show_what_was_used(h, rest, n, i);
        let k = choose|k: int|
            0 <= k < before.len() && (#[trigger] before[k]).0 == names[n] && before[k].1.len()
                == h.snapshots@.len() && before[k].1[i] == (
                (if h.snapshots@[i].timestamp < h.origin() {
                    0
                } else {
                    h.snapshots@[i].timestamp - h.origin()
                }) as u64,
                tokens_from(snapshot_totals(h.snapshots@[i]), names[n], 0),
            );
        assert(all[k] == before[k]);
    } else {
        assert(rises(line));
        assert(all[all.len() - 1] == (names[n], line));
    }
}

/// What the server says of its models is read one by one: each that used tokens, in order,
/// with its name and its numbers, and no other.
pub proof fn used_models_are_read_one_by_one(a: Seq<JsonView>, b: Seq<JsonView>, x: JsonView)
    ensures
        used_models(a + b) == used_models(a) + used_models(b),
        used_models(seq![x]) == (if number_at(Some(x), "input_tokens"@) > 0 || number_at(
            Some(x),
            "output_tokens"@,
        ) > 0 {
            seq![
                (
                    model_at(x),
                    number_at(Some(x), "input_tokens"@),
                    number_at(Some(x), "output_tokens"@),
                    number_at(Some(x), "cache_read_tokens"@),
                ),
            ]
        } else {
            Seq::empty()
        }),
    decreases b.len(),
{
    let none = seq![x].drop_last();
    assert(none.len() == 0);
    assert(used_models(none) =~= Seq::empty());
    assert(seq![x].last() == x);
    assert(used_models(seq![x]) =~= (if number_at(Some(x), "input_tokens"@) > 0 || number_at(
        Some(x),
        "output_tokens"@,
    ) > 0 {
        seq![
            (
                model_at(x),
                number_at(Some(x), "input_tokens"@),
                number_at(Some(x), "output_tokens"@),
                number_at(Some(x), "cache_read_tokens"@),
            ),
        ]
    } else {
        Seq::empty()
    }));
    if b.len() == 0 {
        assert(a + b =~= a);
    } else {
        assert((a + b).drop_last() =~= a + b.drop_last());
        used_models_are_read_one_by_one(a, b.drop_last(), x);
    }
    assert(used_models(a + b) =~= used_models(a) + used_models(b));
}

/// The numbers that the server gives are the ones that are read.
pub proof fn given_numbers_are_read(
    t: TokenStats,
    v: JsonView,
    r: JsonView,
    u: JsonView,
    n: serde_json::Number,
    k: u64,
)
    requires
        stats_say(t, v),
        entry(v, "requests"@) == Some(r),
        entry(r, "token_usage"@) == Some(u),
        number_u64(n) == Some(k),
    ensures
        entry(u, "total_input_tokens"@) == Some(JsonView::Number(n)) ==> t.total_input_tokens == k,
        entry(u, "total_output_tokens"@) == Some(JsonView::Number(n)) ==> t.total_output_tokens
            == k,
        entry(u, "total_cache_read_tokens"@) == Some(JsonView::Number(n))
            ==> t.total_cache_read_tokens == k,
        entry(r, "models"@) matches Some(JsonView::Array(a)) ==> t.models@.len() == used_models(
            a,
        ).len() && forall|i: int|
            0 <= i < t.models@.len() ==> model_tokens(#[trigger] t.models@[i]) == used_models(
                a,
            )[i],
{
    let got = Seq::new(t.models@.len(), |i: int| model_tokens(t.models@[i]));
    assert(got.len() == t.models@.len());
    assert forall|i: int| 0 <= i < t.models@.len() implies model_tokens(#[trigger] t.models@[i])
        == got[i] by {}
}

/// A response has one JSON object, from the first brace behind its headers to the last brace
/// of all.
pub proof fn a_response_has_one_object(response: Seq<char>, a: int, b: int, c: int, d: int)
    requires
        is_body_object(response, a, b),
        is_body_object(response, c, d),
    ensures
        a == c && b == d,
        response[a] == '{' && response[b - 1] == '}',
{
    let g = choose|h: int| #[trigger]
        occurs_at(response, "\r\n\r\n"@, h) && (forall|j: int|
            0 <= j < h ==> !occurs_at(response, "\r\n\r\n"@, j)) && h + 4 <= a < b
            <= response.len() && response[a] == '{' && (forall|j: int|
            h + 4 <= j < a ==> response[j] != '{') && response[b - 1] == '}' && (forall|j: int|
            b <= j < response.len() ==> response[j] != '}');
    let k = choose|h: int| #[trigger]
        occurs_at(response, "\r\n\r\n"@, h) && (forall|j: int|
            0 <= j < h ==> !occurs_at(response, "\r\n\r\n"@, j)) && h + 4 <= c < d
            <= response.len() && response[c] == '{' && (forall|j: int|
            h + 4 <= j < c ==> response[j] != '{') && response[d - 1] == '}' && (forall|j: int|
            d <= j < response.len() ==> response[j] != '}');
    assert(g == k);
}

} // verus!
