//! Statistics of the requests served and the tokens used.

use std::collections::VecDeque;

use vstd::prelude::*;

use crate::counter::{count, counted, has_name, lemma_same_names_counted, same_names, sum, Counter};
use crate::errors::Span;
use crate::json::{array_view, json_object, json_str, json_uint, uint, with, Json, JsonView};

verus! {

/// How many seconds the request rate is kept for.
pub const RATE_HISTORY_SIZE: usize = 60;

/// How many token events are kept.
pub const MAX_TOKEN_EVENTS: usize = 1000;

/// Requests per second, for the last minute. `buckets` is a ring: the slot before
/// `current_idx` holds the second before `last_second`, and so on back. Until the first
/// request is `recorded`, nothing stands in it.
#[derive(Debug, Clone, Copy, PartialEq)]
pub struct RateHistory {
    buckets: [u64; 60],
    current_idx: usize,
    last_second: u64,
    current_count: u64,
    recorded: bool,
}

/// How often second `t` occurs among the seconds of some requests.
pub open spec fn requests_in(seconds: Seq<u64>, t: int) -> nat
    decreases seconds.len(),
{
    if seconds.len() == 0 {
        0
    } else {
        requests_in(seconds.drop_last(), t) + (if seconds.last() == t {
            1nat
        } else {
            0
        })
    }
}

impl RateHistory {
    /// Whether the index is within the ring, and nothing is counted before the first request.
    pub closed spec fn wf(&self) -> bool {
        &&& self.current_idx < RATE_HISTORY_SIZE
        &&& !self.recorded ==> self.last_second == 0 && self.current_count == 0
        &&& !self.recorded ==> forall|i: int| 0 <= i < 60 ==> self.buckets@[i] == 0
    }

    /// The second last recorded in; zero before the first.
    pub closed spec fn last(&self) -> u64 {
        self.last_second
    }

    /// The requests recorded in second `t`, as far as they are kept: the last minute.
    pub closed spec fn rate(&self, t: int) -> u64 {
        if t == self.last_second {
            self.current_count
        } else if 0 <= t && self.last_second - RATE_HISTORY_SIZE < t < self.last_second {
            self.buckets@[(self.current_idx + RATE_HISTORY_SIZE - (self.last_second - t)) % 60]
        } else {
            0
        }
    }

    /// Whether this is what recording a request in second `now_secs` makes of `before`: the
    /// request counts in that second or, where the clock went back, in the last one; all
    /// other seconds of the minute that ends there keep their counts.
    pub open spec fn records(&self, before: RateHistory, now_secs: u64) -> bool {
        &&& self.last() == (if before.last() < now_secs {
            now_secs
        } else {
            before.last()
        })
        &&& forall|t: int| #[trigger]
            self.rate(t) == (if t == self.last() {
                before.rate(t) + 1
            } else if self.last() - RATE_HISTORY_SIZE < t < self.last() {
                before.rate(t) as int
            } else {
                0
            })
    }

    /// Nothing recorded.
    pub fn new() -> (r: RateHistory)
        ensures
            r.wf(),
            r.last() == 0,
            forall|t: int| r.rate(t) == 0,
    {
        RateHistory {
            buckets: [0u64;60],
            current_idx: 0,
            last_second: 0,
            current_count: 0,
            recorded: false,
        }
    }

    /// Records a request in second `now_secs`. Where the clock went back, the request counts
    /// with what was being counted.
    pub fn record(&mut self, now_secs: u64)
        requires
            old(self).wf(),
            old(self).rate(old(self).last() as int) < u64::MAX,
        ensures
            final(self).wf(),
            final(self).records(*old(self), now_secs),
    {
        if !self.recorded {
            self.last_second = now_secs;
            self.recorded = true;
        }
        let ghost start = *self;
        assert(forall|t: int| #[trigger] start.rate(t) == old(self).rate(t));
        while self.last_second < now_secs
            invariant
                self.wf(),
                self.recorded,
                start.last_second <= self.last_second,
                now_secs < start.last_second ==> self.last_second == start.last_second,
                start.last_second <= now_secs ==> self.last_second <= now_secs,
                start.current_count < u64::MAX,
                self.current_count < u64::MAX,
                forall|t: int|
                    self.last_second - RATE_HISTORY_SIZE < t <= self.last_second
                        ==> #[trigger] self.rate(t) == start.rate(t),
            decreases now_secs - self.last_second,
        {
            let ghost before = *self;
            self.buckets[self.current_idx] = self.current_count;
            self.current_count = 0;
            self.current_idx = (self.current_idx + 1) % RATE_HISTORY_SIZE;
            self.last_second = self.last_second + 1;
            proof {
                assert forall|t: int|
                    self.last_second - RATE_HISTORY_SIZE < t
                        <= self.last_second implies #[trigger] self.rate(t) == start.rate(t) by {
                    assert(before.rate(t) == start.rate(t) || t == self.last_second);
                    if t < before.last_second {
                        let d = before.last_second - t;
                        assert((self.current_idx + RATE_HISTORY_SIZE - (d + 1)) % 60 == (
                        before.current_idx + RATE_HISTORY_SIZE - d) % 60);
                        assert((before.current_idx + RATE_HISTORY_SIZE - d) % 60
                            != before.current_idx);
                    }
                }
            }
        }
        let ghost rotated = *self;
        self.current_count = self.current_count + 1;
        proof {
            assert forall|t: int| #[trigger]
                self.rate(t) == (if t == self.last() {
                    old(self).rate(t) + 1
                } else if self.last() - RATE_HISTORY_SIZE < t < self.last() {
                    old(self).rate(t) as int
                } else {
                    0
                }) by {
                if self.last_second - RATE_HISTORY_SIZE < t <= self.last_second {
                    assert(rotated.rate(t) == start.rate(t));
                    assert(start.rate(t) == old(self).rate(t));
                }
            }
        }
    }

    /// The requests of each of the last sixty seconds, oldest first.
    pub fn get_history(&self, now_secs: u64) -> (r: Vec<u64>)
        requires
            self.wf(),
        ensures
            r@ == Seq::new(60, |i: int| self.rate(now_secs - 59 + i)),
    {
        let mut r: Vec<u64> = Vec::new();
        let mut i: usize = 0;
        while i < RATE_HISTORY_SIZE
            invariant
                i <= RATE_HISTORY_SIZE,
                self.wf(),
                r@ == Seq::new(i as nat, |j: int| self.rate(now_secs - 59 + j)),
            decreases RATE_HISTORY_SIZE - i,
        {
            let back: u64 = (59 - i) as u64;
            let v: u64 = if now_secs < back {
                0
            } else {
                let t: u64 = now_secs - back;
                if t == self.last_second {
                    self.current_count
                } else if t < self.last_second && self.last_second - t < 60 {
                    let d: usize = (self.last_second - t) as usize;
                    self.buckets[(self.current_idx + RATE_HISTORY_SIZE - d) % RATE_HISTORY_SIZE]
                } else {
                    0
                }
            };
            assert(v == self.rate(now_secs - 59 + i));
            r.push(v);
            i = i + 1;
            assert(r@ =~= Seq::new(i as nat, |j: int| self.rate(now_secs - 59 + j)));
        }
        r
    }
}

/// The history counts requests: after requests in some seconds, none before the one ahead of
/// it, each second of the minute that ends at the last of them has as many as fell in it.
pub proof fn the_history_counts_requests(histories: Seq<RateHistory>, seconds: Seq<u64>, t: int)
    requires
        histories.len() == seconds.len() + 1,
        histories[0].last() == 0,
        forall|u: int| histories[0].rate(u) == 0,
        forall|i: int|
            0 <= i < seconds.len() ==> #[trigger] histories[i + 1].records(histories[i], seconds[i]),
        forall|i: int, j: int| 0 <= i <= j < seconds.len() ==> seconds[i] <= seconds[j],
        seconds.len() > 0,
        seconds.last() - RATE_HISTORY_SIZE < t,
    ensures
        histories.last().last() == seconds.last(),
        histories.last().rate(t) == requests_in(seconds, t),
    decreases seconds.len(),
{
    let n = seconds.len() - 1;
    let fewer = seconds.drop_last();
    assert(histories[n + 1].records(histories[n], seconds[n]));
    if n > 0 {
        assert(histories.drop_last()[0] == histories[0]);
        assert forall|i: int|
            0 <= i < fewer.len() implies #[trigger] histories.drop_last()[i + 1].records(
            histories.drop_last()[i],
            fewer[i],
        ) by {
            assert(histories[i + 1].records(histories[i], seconds[i]));
        }
        assert(seconds[n - 1] <= seconds[n]);
        the_history_counts_requests(histories.drop_last(), fewer, t);
    } else {
        assert(fewer =~= Seq::empty());
        assert(histories[0].rate(t) == 0);
    }
    if t > seconds.last() {
        lemma_no_later_requests(seconds, t);
        assert(histories.last().rate(t) == 0);
    }
}

/// No request falls in a second after all of theirs.
proof fn lemma_no_later_requests(seconds: Seq<u64>, t: int)
    requires
        forall|i: int| 0 <= i < seconds.len() ==> seconds[i] < t,
    ensures
        requests_in(seconds, t) == 0,
    decreases seconds.len(),
{
    if seconds.len() > 0 {
        lemma_no_later_requests(seconds.drop_last(), t);
    }
}

/// The tokens of one reply, and when it was given.
#[derive(Debug, Clone, PartialEq)]
pub struct TokenEvent {
    /// Seconds since the server started.
    pub elapsed_secs: u64,
    pub model: String,
    pub input_tokens: u32,
    pub output_tokens: u32,
    pub cache_read_tokens: u32,
}

/// What a token event says.
pub struct TokenEventView {
    pub elapsed_secs: u64,
    pub model: Seq<char>,
    pub input_tokens: u32,
    pub output_tokens: u32,
    pub cache_read_tokens: u32,
}

impl TokenEvent {
    /// What this event says.
    pub open spec fn view(&self) -> TokenEventView {
        TokenEventView {
            elapsed_secs: self.elapsed_secs,
            model: self.model@,
            input_tokens: self.input_tokens,
            output_tokens: self.output_tokens,
            cache_read_tokens: self.cache_read_tokens,
        }
    }

    /// The same event again.
    fn copy(&self) -> (r: TokenEvent)
        ensures
            r@ == self@,
    {
        TokenEvent {
            elapsed_secs: self.elapsed_secs,
            model: self.model.clone(),
            input_tokens: self.input_tokens,
            output_tokens: self.output_tokens,
            cache_read_tokens: self.cache_read_tokens,
        }
    }
}

/// The views of a list of events.
pub open spec fn token_event_views(s: Seq<TokenEvent>) -> Seq<TokenEventView> {
    Seq::new(s.len(), |i: int| s[i]@)
}

/// A list of events after one more: at most the newest thousand are kept.
pub open spec fn kept(events: Seq<TokenEventView>, event: TokenEventView) -> Seq<TokenEventView> {
    if events.len() >= MAX_TOKEN_EVENTS {
        events.subrange(1, events.len() as int).push(event)
    } else {
        events.push(event)
    }
}

/// What one model used.
#[derive(Debug, Clone, PartialEq)]
pub struct ModelStats {
    pub model: String,
    pub requests: u64,
    pub input_tokens: u64,
    pub output_tokens: u64,
    pub cache_read_tokens: u64,
}

/// How often one endpoint was called.
#[derive(Debug, Clone, PartialEq)]
pub struct EndpointStats {
    pub endpoint: String,
    pub requests: u64,
}

/// The tokens used, over all models.
#[derive(Debug, Clone, Copy, PartialEq, Eq, Structural)]
pub struct TokenUsageSummary {
    pub total_input_tokens: u64,
    pub total_output_tokens: u64,
    pub total_cache_read_tokens: u64,
}

/// The statistics at one moment.
#[derive(Debug, Clone, PartialEq)]
pub struct StatsSummary {
    pub uptime: Span,
    pub total_requests: u64,
    pub models: Vec<ModelStats>,
    pub endpoints: Vec<EndpointStats>,
    pub rate_history: Vec<u64>,
    pub token_usage: TokenUsageSummary,
}

/// The tokens of each model, of three kinds.
#[derive(Debug, PartialEq)]
pub struct TokenCounters {
    pub input: Counter,
    pub output: Counter,
    pub cache_read: Counter,
}

/// Statistics of the requests served and the tokens used.
#[derive(Debug, PartialEq)]
pub struct Stats {
    pub requests: Counter,
    pub endpoint_requests: Counter,
    pub rate_history: RateHistory,
    pub tokens: TokenCounters,
    pub token_events: VecDeque<TokenEvent>,
}

/// What `get_model_stats` says of a model.
pub open spec fn is_model_stats(m: ModelStats, s: Stats, i: int) -> bool {
    &&& m.model@ == s.requests@[i].0
    &&& m.requests == s.requests@[i].1
    &&& m.input_tokens == count(s.tokens.input@, m.model@)
    &&& m.output_tokens == count(s.tokens.output@, m.model@)
    &&& m.cache_read_tokens == count(s.tokens.cache_read@, m.model@)
}

/// Whether `v` has one entry for each model that was asked for, in order.
pub open spec fn are_model_stats(v: Seq<ModelStats>, s: Stats) -> bool {
    &&& v.len() == s.requests@.len()
    &&& forall|i: int| 0 <= i < v.len() ==> is_model_stats(#[trigger] v[i], s, i)
}

/// Whether `v` has one entry for each endpoint that was called, in order.
pub open spec fn are_endpoint_stats(v: Seq<EndpointStats>, s: Stats) -> bool {
    &&& v.len() == s.endpoint_requests@.len()
    &&& forall|i: int|
        0 <= i < v.len() ==> (#[trigger] v[i]).endpoint@ == s.endpoint_requests@[i].0
            && v[i].requests == s.endpoint_requests@[i].1
}

/// The totals over all models.
pub open spec fn token_totals(s: Stats) -> TokenUsageSummary {
    TokenUsageSummary {
        total_input_tokens: sum(s.tokens.input@) as u64,
        total_output_tokens: sum(s.tokens.output@) as u64,
        total_cache_read_tokens: sum(s.tokens.cache_read@) as u64,
    }
}

/// How often the statistics are saved: after every so many requests.
pub const SAVE_EVERY: u64 = 50;

impl Stats {
    /// Whether the counters and the ring are well formed and no more than the newest
    /// events are kept.
    pub open spec fn wf(&self) -> bool {
        &&& self.requests.wf()
        &&& self.endpoint_requests.wf()
        &&& self.rate_history.wf()
        &&& self.tokens.input.wf()
        &&& self.tokens.output.wf()
        &&& self.tokens.cache_read.wf()
        &&& same_names(self.tokens.input@, self.tokens.output@)
        &&& same_names(self.tokens.input@, self.tokens.cache_read@)
        &&& self.token_events@.len() <= MAX_TOKEN_EVENTS
    }

    /// Nothing counted.
    pub fn new() -> (r: Stats)
        ensures
            r.wf(),
            r.requests@.len() == 0,
            r.endpoint_requests@.len() == 0,
            r.tokens.input@.len() == 0,
            r.tokens.output@.len() == 0,
            r.tokens.cache_read@.len() == 0,
            r.token_events@.len() == 0,
            r.rate_history.last() == 0,
            forall|t: int| r.rate_history.rate(t) == 0,
    {
        Stats {
            requests: Counter::new(),
            endpoint_requests: Counter::new(),
            rate_history: RateHistory::new(),
            tokens: TokenCounters {
                input: Counter::new(),
                output: Counter::new(),
                cache_read: Counter::new(),
            },
            token_events: VecDeque::new(),
        }
    }

    /// Records a request `now_secs` after the server started. Whether the statistics are
    /// now due to be saved is handed back.
    pub fn record_request(&mut self, model: &str, endpoint: &str, now_secs: u64) -> (save: bool)
        requires
            old(self).wf(),
            sum(old(self).requests@) < u64::MAX,
            sum(old(self).endpoint_requests@) < u64::MAX,
            old(self).rate_history.rate(old(self).rate_history.last() as int) < u64::MAX,
        ensures
            final(self).wf(),
            final(self).requests@ == counted(old(self).requests@, model@, 1),
            final(self).endpoint_requests@ == counted(old(self).endpoint_requests@, endpoint@, 1),
            final(self).tokens == old(self).tokens,
            final(self).token_events == old(self).token_events,
            final(self).rate_history.records(old(self).rate_history, now_secs),
            save == ((sum(old(self).requests@) + 1) % (SAVE_EVERY as nat) == 0),
    {
        proof {
            crate::counter::counting_adds_up(self.requests@, model@, 1);
        }
        self.requests.bump(model, 1);
        self.endpoint_requests.bump(endpoint, 1);
        self.rate_history.record(now_secs);
        let total = self.requests.total();
        total % SAVE_EVERY == 0
    }

    /// Whether these statistics are `before` with the tokens of a reply recorded: counted for
    /// its model, and its event kept.
    pub open spec fn has_recorded(&self, before: Stats, event: TokenEventView) -> bool {
        &&& self.requests == before.requests
        &&& self.endpoint_requests == before.endpoint_requests
        &&& self.rate_history == before.rate_history
        &&& self.tokens.input@ == counted(
            before.tokens.input@,
            event.model,
            event.input_tokens as u64,
        )
        &&& self.tokens.output@ == counted(
            before.tokens.output@,
            event.model,
            event.output_tokens as u64,
        )
        &&& self.tokens.cache_read@ == counted(
            before.tokens.cache_read@,
            event.model,
            event.cache_read_tokens as u64,
        )
        &&& token_event_views(self.token_events@) == kept(
            token_event_views(before.token_events@),
            event,
        )
    }

    /// Records the tokens of a reply given `elapsed_secs` after the server started.
    pub fn record_token_usage(
        &mut self,
        model: &str,
        input_tokens: u32,
        output_tokens: u32,
        cache_read_tokens: u32,
        elapsed_secs: u64,
    )
        requires
            old(self).wf(),
            sum(old(self).tokens.input@) + input_tokens <= u64::MAX,
            sum(old(self).tokens.output@) + output_tokens <= u64::MAX,
            sum(old(self).tokens.cache_read@) + cache_read_tokens <= u64::MAX,
        ensures
            final(self).wf(),
            final(self).has_recorded(
                *old(self),
                (TokenEventView {
                    elapsed_secs,
                    model: model@,
                    input_tokens,
                    output_tokens,
                    cache_read_tokens,
                }),
            ),
    {
        proof {
            lemma_same_names_counted(
                self.tokens.input@,
                self.tokens.output@,
                model@,
                input_tokens as u64,
                output_tokens as u64,
            );
            lemma_same_names_counted(
                self.tokens.input@,
                self.tokens.cache_read@,
                model@,
                input_tokens as u64,
                cache_read_tokens as u64,
            );
        }
        self.tokens.input.bump(model, input_tokens as u64);
        self.tokens.output.bump(model, output_tokens as u64);
        self.tokens.cache_read.bump(model, cache_read_tokens as u64);
        let event = TokenEvent {
            elapsed_secs,
            model: model.to_owned(),
            input_tokens,
            output_tokens,
            cache_read_tokens,
        };
        let ghost before = token_event_views(self.token_events@);
        if self.token_events.len() >= MAX_TOKEN_EVENTS {
            let _ = self.token_events.pop_front();
        }
        self.token_events.push_back(event);
        assert(token_event_views(self.token_events@) =~= kept(before, event@));
    }

    /// The token events kept, oldest first.
    pub fn get_token_events(&self) -> (r: Vec<TokenEvent>)
        ensures
            token_event_views(r@) == token_event_views(self.token_events@),
    {
        let mut r: Vec<TokenEvent> = Vec::new();
        let mut i: usize = 0;
        while i < self.token_events.len()
            invariant
                i <= self.token_events@.len(),
                r@.len() == i,
                forall|j: int| 0 <= j < i ==> (#[trigger] r@[j])@ == self.token_events@[j]@,
            decreases self.token_events@.len() - i,
        {
            r.push(self.token_events[i].copy());
            i = i + 1;
        }
        assert(token_event_views(r@) =~= token_event_views(self.token_events@));
        r
    }

    /// Requests per second for the last sixty seconds, oldest first.
    pub fn get_rate_history(&self, now_secs: u64) -> (r: Vec<u64>)
        requires
            self.wf(),
        ensures
            r@ == Seq::new(60, |i: int| self.rate_history.rate(now_secs - 59 + i)),
    {
        self.rate_history.get_history(now_secs)
    }

    /// What each model that was asked for used.
    pub fn get_model_stats(&self) -> (r: Vec<ModelStats>)
        requires
            self.wf(),
        ensures
            are_model_stats(r@, *self),
    {
        let mut r: Vec<ModelStats> = Vec::new();
        let mut i: usize = 0;
        while i < self.requests.len()
            invariant
                i <= self.requests@.len(),
                self.wf(),
                r@.len() == i,
                forall|j: int| 0 <= j < i ==> is_model_stats(#[trigger] r@[j], *self, j),
            decreases self.requests@.len() - i,
        {
            let model = self.requests.name(i);
            r.push(
                ModelStats {
                    model: model.clone(),
                    requests: self.requests.count_at(i),
                    input_tokens: self.tokens.input.get(model),
                    output_tokens: self.tokens.output.get(model),
                    cache_read_tokens: self.tokens.cache_read.get(model),
                },
            );
            i = i + 1;
        }
        r
    }

    /// How often each endpoint was called.
    pub fn get_endpoint_stats(&self) -> (r: Vec<EndpointStats>)
        ensures
            are_endpoint_stats(r@, *self),
    {
        let mut r: Vec<EndpointStats> = Vec::new();
        let mut i: usize = 0;
        while i < self.endpoint_requests.len()
            invariant
                i <= self.endpoint_requests@.len(),
                r@.len() == i,
                forall|j: int|
                    0 <= j < i ==> (#[trigger] r@[j]).endpoint@ == self.endpoint_requests@[j].0
                        && r@[j].requests == self.endpoint_requests@[j].1,
            decreases self.endpoint_requests@.len() - i,
        {
            r.push(
                EndpointStats {
                    endpoint: self.endpoint_requests.name(i).clone(),
                    requests: self.endpoint_requests.count_at(i),
                },
            );
            i = i + 1;
        }
        r
    }

    /// The tokens used, over all models.
    pub fn get_token_usage(&self) -> (r: TokenUsageSummary)
        requires
            self.wf(),
        ensures
            r == token_totals(*self),
    {
        TokenUsageSummary {
            total_input_tokens: self.tokens.input.total(),
            total_output_tokens: self.tokens.output.total(),
            total_cache_read_tokens: self.tokens.cache_read.total(),
        }
    }

    /// The statistics `uptime` after the server started.
    pub fn summary(&self, uptime: Span) -> (r: StatsSummary)
        requires
            self.wf(),
        ensures
            r.uptime == uptime,
            r.total_requests == sum(self.requests@),
            are_model_stats(r.models@, *self),
            are_endpoint_stats(r.endpoints@, *self),
            r.rate_history@ == Seq::new(60, |i: int| self.rate_history.rate(uptime.secs - 59 + i)),
            r.token_usage == token_totals(*self),
    {
        StatsSummary {
            uptime,
            total_requests: self.requests.total(),
            models: self.get_model_stats(),
            endpoints: self.get_endpoint_stats(),
            rate_history: self.get_rate_history(uptime.secs),
            token_usage: self.get_token_usage(),
        }
    }
}


/// The JSON of one model's statistics.
pub open spec fn model_json(m: ModelStats) -> JsonView {
    JsonView::Object(
        Map::empty().insert("model"@, JsonView::Text(m.model@)).insert(
            "requests"@,
            uint(m.requests),
        ).insert("input_tokens"@, uint(m.input_tokens)).insert(
            "output_tokens"@,
            uint(m.output_tokens),
        ).insert("cache_read_tokens"@, uint(m.cache_read_tokens)),
    )
}

/// The JSON of one endpoint's statistics.
pub open spec fn endpoint_json(e: EndpointStats) -> JsonView {
    JsonView::Object(
        Map::empty().insert("endpoint"@, JsonView::Text(e.endpoint@)).insert(
            "requests"@,
            uint(e.requests),
        ),
    )
}

/// The JSON of the totals.
pub open spec fn usage_json(u: TokenUsageSummary) -> JsonView {
    JsonView::Object(
        Map::empty().insert("total_input_tokens"@, uint(u.total_input_tokens)).insert(
            "total_output_tokens"@,
            uint(u.total_output_tokens),
        ).insert("total_cache_read_tokens"@, uint(u.total_cache_read_tokens)),
    )
}

/// The JSON of a summary.
pub open spec fn summary_json(s: StatsSummary) -> JsonView {
    JsonView::Object(
        Map::empty().insert("uptime_seconds"@, uint(s.uptime.secs)).insert(
            "total_requests"@,
            uint(s.total_requests),
        ).insert(
            "models"@,
            JsonView::Array(Seq::new(s.models@.len(), |i: int| model_json(s.models@[i]))),
        ).insert(
            "endpoints"@,
            JsonView::Array(Seq::new(s.endpoints@.len(), |i: int| endpoint_json(s.endpoints@[i]))),
        ).insert(
            "rate_history"@,
            JsonView::Array(Seq::new(s.rate_history@.len(), |i: int| uint(s.rate_history@[i]))),
        ).insert("token_usage"@, usage_json(s.token_usage)),
    )
}

impl ModelStats {
    /// The JSON of these statistics.
    fn to_json(&self) -> (r: Json)
        ensures
            r@ == model_json(*self),
    {
        let o = with(json_object(), "model", json_str(&self.model));
        let o = with(o, "requests", json_uint(self.requests));
        let o = with(o, "input_tokens", json_uint(self.input_tokens));
        let o = with(o, "output_tokens", json_uint(self.output_tokens));
        with(o, "cache_read_tokens", json_uint(self.cache_read_tokens))
    }
}

impl StatsSummary {
    /// The JSON of the models.
    fn models_json(&self) -> (r: Json)
        ensures
            r@ == JsonView::Array(Seq::new(self.models@.len(), |i: int| model_json(self.models@[i]))),
    {
        let mut out: Vec<Json> = Vec::new();
        let mut i: usize = 0;
        while i < self.models.len()
            invariant
                i <= self.models@.len(),
                array_view(out@) == Seq::new(i as nat, |j: int| model_json(self.models@[j])),
            decreases self.models@.len() - i,
        {
            let ghost before = out@;
            out.push(self.models[i].to_json());
            assert(out@.drop_last() =~= before);
            i = i + 1;
            assert(array_view(out@) =~= Seq::new(i as nat, |j: int| model_json(self.models@[j])));
        }
        Json::Array(out)
    }

    /// The JSON of the endpoints.
    fn endpoints_json(&self) -> (r: Json)
        ensures
            r@ == JsonView::Array(
                Seq::new(self.endpoints@.len(), |i: int| endpoint_json(self.endpoints@[i])),
            ),
    {
        let mut out: Vec<Json> = Vec::new();
        let mut i: usize = 0;
        while i < self.endpoints.len()
            invariant
                i <= self.endpoints@.len(),
                array_view(out@) == Seq::new(i as nat, |j: int| endpoint_json(self.endpoints@[j])),
            decreases self.endpoints@.len() - i,
        {
            let ghost before = out@;
            let o = with(json_object(), "endpoint", json_str(&self.endpoints[i].endpoint));
            out.push(with(o, "requests", json_uint(self.endpoints[i].requests)));
            assert(out@.drop_last() =~= before);
            i = i + 1;
            assert(array_view(out@) =~= Seq::new(
                i as nat,
                |j: int| endpoint_json(self.endpoints@[j]),
            ));
        }
        Json::Array(out)
    }

    /// The JSON of the request rates.
    fn rates_json(&self) -> (r: Json)
        ensures
            r@ == JsonView::Array(
                Seq::new(self.rate_history@.len(), |i: int| uint(self.rate_history@[i])),
            ),
    {
        let mut out: Vec<Json> = Vec::new();
        let mut i: usize = 0;
        while i < self.rate_history.len()
            invariant
                i <= self.rate_history@.len(),
                array_view(out@) == Seq::new(i as nat, |j: int| uint(self.rate_history@[j])),
            decreases self.rate_history@.len() - i,
        {
            let ghost before = out@;
            out.push(json_uint(self.rate_history[i]));
            assert(out@.drop_last() =~= before);
            i = i + 1;
            assert(array_view(out@) =~= Seq::new(i as nat, |j: int| uint(self.rate_history@[j])));
        }
        Json::Array(out)
    }

    /// The JSON of this summary.
    pub fn to_json(&self) -> (r: Json)
        ensures
            r@ == summary_json(*self),
    {
        let u = with(
            json_object(),
            "total_input_tokens",
            json_uint(self.token_usage.total_input_tokens),
        );
        let u = with(u, "total_output_tokens", json_uint(self.token_usage.total_output_tokens));
        let u = with(
            u,
            "total_cache_read_tokens",
            json_uint(self.token_usage.total_cache_read_tokens),
        );
        let o = with(json_object(), "uptime_seconds", json_uint(self.uptime.secs));
        let o = with(o, "total_requests", json_uint(self.total_requests));
        let o = with(o, "models", self.models_json());
        let o = with(o, "endpoints", self.endpoints_json());
        let o = with(o, "rate_history", self.rates_json());
        with(o, "token_usage", u)
    }
}

/// The tokens of one model, as they are saved.
#[derive(Debug, Clone, Copy, PartialEq, Eq, Structural)]
pub struct PersistentTokenCounters {
    pub input: u64,
    pub output: u64,
    pub cache_read: u64,
}

/// What is saved of the statistics.
#[derive(Debug, Clone, PartialEq)]
pub struct PersistentStats {
    pub requests: Vec<(String, u64)>,
    pub endpoint_requests: Vec<(String, u64)>,
    pub tokens: Vec<(String, PersistentTokenCounters)>,
}

/// The names and counts of a saved list.
pub open spec fn saved_counts(s: Seq<(String, u64)>) -> Seq<(Seq<char>, u64)> {
    Seq::new(s.len(), |i: int| (s[i].0@, s[i].1))
}

/// One kind of tokens of a saved list, by a choice of the kind.
pub open spec fn saved_tokens(
    s: Seq<(String, PersistentTokenCounters)>,
    kind: spec_fn(PersistentTokenCounters) -> u64,
) -> Seq<(Seq<char>, u64)> {
    Seq::new(s.len(), |i: int| (s[i].0@, kind(s[i].1)))
}

/// The counts after each entry of `more` has been counted, one by one.
pub open spec fn merged(s: Seq<(Seq<char>, u64)>, more: Seq<(Seq<char>, u64)>) -> Seq<
    (Seq<char>, u64),
>
    decreases more.len(),
{
    if more.len() == 0 {
        s
    } else {
        counted(merged(s, more.drop_last()), more.last().0, more.last().1)
    }
}

/// Merging adds the sums up and keeps names distinct.
pub proof fn merging_adds_up(s: Seq<(Seq<char>, u64)>, more: Seq<(Seq<char>, u64)>)
    requires
        crate::counter::distinct(s),
        sum(s) + sum(more) <= u64::MAX,
    ensures
        crate::counter::distinct(merged(s, more)),
        sum(merged(s, more)) == sum(s) + sum(more),
    decreases more.len(),
{
    if more.len() > 0 {
        merging_adds_up(s, more.drop_last());
        crate::counter::counting_adds_up(
            merged(s, more.drop_last()),
            more.last().0,
            more.last().1,
        );
    }
}

/// Merging adds each count up: of every name the merged counts have as many as the two
/// lists together.
pub proof fn merging_adds_each_count(
    s: Seq<(Seq<char>, u64)>,
    more: Seq<(Seq<char>, u64)>,
    name: Seq<char>,
)
    requires
        crate::counter::distinct(s),
        crate::counter::distinct(more),
        sum(s) + sum(more) <= u64::MAX,
    ensures
        count(merged(s, more), name) == count(s, name) + count(more, name),
    decreases more.len(),
{
    if more.len() == 0 {
        assert(!exists|i: int| has_name(more, name, i));
    } else {
        let rest = more.drop_last();
        assert(crate::counter::distinct(rest)) by {
            assert forall|i: int, j: int| 0 <= i < j < rest.len() implies #[trigger] rest[i].0
                != #[trigger] rest[j].0 by {
                assert(more[i].0 != more[j].0);
            }
        }
        merging_adds_each_count(s, rest, name);
        merging_adds_up(s, rest);
        crate::counter::counting_adds_up(merged(s, rest), more.last().0, more.last().1);
        let n = more.len() - 1;
        if more.last().0 == name {
            assert(has_name(more, name, n));
            crate::counter::lemma_count(more, name, n);
            assert forall|i: int| !has_name(rest, name, i) by {
                if has_name(rest, name, i) {
                    assert(more[i].0 != more[n].0);
                }
            }
        } else if exists|i: int| has_name(more, name, i) {
            let i = choose|i: int| has_name(more, name, i);
            assert(has_name(rest, name, i));
            crate::counter::lemma_count(more, name, i);
            crate::counter::lemma_count(rest, name, i);
        } else {
            assert forall|i: int| !has_name(rest, name, i) by {
                if has_name(rest, name, i) {
                    assert(has_name(more, name, i));
                }
            }
        }
    }
}

/// Counts each entry of a saved list.
fn merge(counter: &mut Counter, more: &Vec<(String, u64)>)
    requires
        old(counter).wf(),
        sum(old(counter)@) + sum(saved_counts(more@)) <= u64::MAX,
    ensures
        final(counter).wf(),
        final(counter)@ == merged(old(counter)@, saved_counts(more@)),
{
    let ghost start = counter@;
    let ghost all = saved_counts(more@);
    let mut i: usize = 0;
    assert(all.take(0) =~= Seq::empty());
    while i < more.len()
        invariant
            i <= more@.len(),
            counter.wf(),
            all == saved_counts(more@),
            counter@ == merged(start, all.take(i as int)),
            crate::counter::distinct(start),
            sum(start) + sum(all) <= u64::MAX,
        decreases more@.len() - i,
    {
        assert(all.take(i + 1).drop_last() =~= all.take(i as int));
        assert(all.take(i + 1).last() == all[i as int]);
        proof {
            crate::counter::lemma_sum_of_prefix(all, i + 1);
            merging_adds_up(start, all.take(i as int));
        }
        counter.bump(&more[i].0, more[i].1);
        i = i + 1;
    }
    assert(all.take(all.len() as int) =~= all);
}

/// The names and counts of a counter, as they are saved.
fn saved(counter: &Counter) -> (r: Vec<(String, u64)>)
    ensures
        saved_counts(r@) == counter@,
{
    let mut r: Vec<(String, u64)> = Vec::new();
    let mut i: usize = 0;
    while i < counter.len()
        invariant
            i <= counter@.len(),
            r@.len() == i,
            forall|j: int| 0 <= j < i ==> (#[trigger] r@[j]).0@ == counter@[j].0 && r@[j].1
                == counter@[j].1,
        decreases counter@.len() - i,
    {
        r.push((counter.name(i).clone(), counter.count_at(i)));
        i = i + 1;
    }
    assert(saved_counts(r@) =~= counter@);
    r
}


/// The number of input tokens.
pub open spec fn input_kind() -> spec_fn(PersistentTokenCounters) -> u64 {
    |t: PersistentTokenCounters| t.input
}

/// The number of output tokens.
pub open spec fn output_kind() -> spec_fn(PersistentTokenCounters) -> u64 {
    |t: PersistentTokenCounters| t.output
}

/// The number of tokens read from the cache.
pub open spec fn cache_kind() -> spec_fn(PersistentTokenCounters) -> u64 {
    |t: PersistentTokenCounters| t.cache_read
}

/// Recording the tokens of a reply adds up: the counters of its model grow by exactly those
/// tokens, those of every other model and all requests stay, and of the events with the new
/// one behind them the newest thousand are kept.
pub proof fn recorded_tokens_add_up(
    before: Stats,
    after: Stats,
    event: TokenEventView,
    name: Seq<char>,
)
    requires
        before.wf(),
        after.has_recorded(before, event),
        sum(before.tokens.input@) + event.input_tokens <= u64::MAX,
        sum(before.tokens.output@) + event.output_tokens <= u64::MAX,
        sum(before.tokens.cache_read@) + event.cache_read_tokens <= u64::MAX,
    ensures
        count(after.tokens.input@, name) == count(before.tokens.input@, name) + (if name
            == event.model {
            event.input_tokens as int
        } else {
            0
        }),
        count(after.tokens.output@, name) == count(before.tokens.output@, name) + (if name
            == event.model {
            event.output_tokens as int
        } else {
            0
        }),
        count(after.tokens.cache_read@, name) == count(before.tokens.cache_read@, name) + (if name
            == event.model {
            event.cache_read_tokens as int
        } else {
            0
        }),
        after.requests == before.requests,
        after.endpoint_requests == before.endpoint_requests,
        token_event_views(after.token_events@) == crate::usage::newest(
            token_event_views(before.token_events@).push(event),
            1000,
        ),
        after.token_events@.len() <= MAX_TOKEN_EVENTS,
{
    crate::counter::counting_adds_up(
        before.tokens.input@,
        event.model,
        event.input_tokens as u64,
    );
    crate::counter::counting_adds_up(
        before.tokens.output@,
        event.model,
        event.output_tokens as u64,
    );
    crate::counter::counting_adds_up(
        before.tokens.cache_read@,
        event.model,
        event.cache_read_tokens as u64,
    );
    let e = token_event_views(before.token_events@);
    let r = token_event_views(after.token_events@);
    assert(r.len() == after.token_events@.len());
    assert(r =~= crate::usage::newest(e.push(event), 1000));
}

impl PersistentStats {
    /// Whether these are the counts of `s`.
    pub open spec fn is_saved_from(&self, s: Stats) -> bool {
        &&& saved_counts(self.requests@) == s.requests@
        &&& saved_counts(self.endpoint_requests@) == s.endpoint_requests@
        &&& saved_tokens(self.tokens@, input_kind()) == s.tokens.input@
        &&& saved_tokens(self.tokens@, output_kind()) == s.tokens.output@
        &&& saved_tokens(self.tokens@, cache_kind()) == s.tokens.cache_read@
    }
}

impl Stats {
    /// Whether these statistics are `before` with the counts of `p` counted too; the recent
    /// past is that of `before`.
    pub open spec fn is_loaded_from(&self, before: Stats, p: PersistentStats) -> bool {
        &&& self.requests@ == merged(before.requests@, saved_counts(p.requests@))
        &&& self.endpoint_requests@ == merged(
            before.endpoint_requests@,
            saved_counts(p.endpoint_requests@),
        )
        &&& self.tokens.input@ == merged(
            before.tokens.input@,
            saved_tokens(p.tokens@, input_kind()),
        )
        &&& self.tokens.output@ == merged(
            before.tokens.output@,
            saved_tokens(p.tokens@, output_kind()),
        )
        &&& self.tokens.cache_read@ == merged(
            before.tokens.cache_read@,
            saved_tokens(p.tokens@, cache_kind()),
        )
        &&& self.rate_history == before.rate_history
        &&& self.token_events == before.token_events
    }

    /// Whether the counts of both fit together in the counters.
    pub open spec fn fits_with(&self, other: Stats) -> bool {
        &&& sum(self.requests@) + sum(other.requests@) <= u64::MAX
        &&& sum(self.endpoint_requests@) + sum(other.endpoint_requests@) <= u64::MAX
        &&& sum(self.tokens.input@) + sum(other.tokens.input@) <= u64::MAX
        &&& sum(self.tokens.output@) + sum(other.tokens.output@) <= u64::MAX
        &&& sum(self.tokens.cache_read@) + sum(other.tokens.cache_read@) <= u64::MAX
    }
}

/// Loading adds up: where `p` was saved from `s` and then loaded into `before`, every request,
/// endpoint and token counter is the sum of the two, and the recent past stays.
pub proof fn loaded_counts_are_sums(
    before: Stats,
    s: Stats,
    p: PersistentStats,
    after: Stats,
    name: Seq<char>,
)
    requires
        before.wf(),
        s.wf(),
        before.fits_with(s),
        p.is_saved_from(s),
        after.is_loaded_from(before, p),
    ensures
        count(after.requests@, name) == count(before.requests@, name) + count(s.requests@, name),
        count(after.endpoint_requests@, name) == count(before.endpoint_requests@, name) + count(
            s.endpoint_requests@,
            name,
        ),
        count(after.tokens.input@, name) == count(before.tokens.input@, name) + count(
            s.tokens.input@,
            name,
        ),
        count(after.tokens.output@, name) == count(before.tokens.output@, name) + count(
            s.tokens.output@,
            name,
        ),
        count(after.tokens.cache_read@, name) == count(before.tokens.cache_read@, name) + count(
            s.tokens.cache_read@,
            name,
        ),
        after.rate_history == before.rate_history,
        after.token_events == before.token_events,
{
    merging_adds_each_count(before.requests@, s.requests@, name);
    merging_adds_each_count(before.endpoint_requests@, s.endpoint_requests@, name);
    merging_adds_each_count(before.tokens.input@, s.tokens.input@, name);
    merging_adds_each_count(before.tokens.output@, s.tokens.output@, name);
    merging_adds_each_count(before.tokens.cache_read@, s.tokens.cache_read@, name);
}

impl Stats {
    /// What is saved of the statistics: the counters, not the recent past.
    pub fn to_persistent(&self) -> (r: PersistentStats)
        requires
            self.wf(),
        ensures
            r.is_saved_from(*self),
    {
        let mut tokens: Vec<(String, PersistentTokenCounters)> = Vec::new();
        let mut i: usize = 0;
        while i < self.tokens.input.len()
            invariant
                i <= self.tokens.input@.len(),
                self.wf(),
                tokens@.len() == i,
                forall|j: int|
                    0 <= j < i ==> (#[trigger] tokens@[j]).0@ == self.tokens.input@[j].0
                        && tokens@[j].1.input == self.tokens.input@[j].1 && tokens@[j].1.output
                        == self.tokens.output@[j].1 && tokens@[j].1.cache_read
                        == self.tokens.cache_read@[j].1,
            decreases self.tokens.input@.len() - i,
        {
            tokens.push(
                (
                    self.tokens.input.name(i).clone(),
                    PersistentTokenCounters {
                        input: self.tokens.input.count_at(i),
                        output: self.tokens.output.count_at(i),
                        cache_read: self.tokens.cache_read.count_at(i),
                    },
                ),
            );
            i = i + 1;
        }
        assert(saved_tokens(tokens@, input_kind()) =~= self.tokens.input@);
        assert(saved_tokens(tokens@, output_kind()) =~= self.tokens.output@);
        assert(saved_tokens(tokens@, cache_kind()) =~= self.tokens.cache_read@);
        PersistentStats {
            requests: saved(&self.requests),
            endpoint_requests: saved(&self.endpoint_requests),
            tokens,
        }
    }

    /// Adds what was saved to the counters.
    pub fn load_persistent(&mut self, p: &PersistentStats)
        requires
            old(self).wf(),
            sum(old(self).requests@) + sum(saved_counts(p.requests@)) <= u64::MAX,
            sum(old(self).endpoint_requests@) + sum(saved_counts(p.endpoint_requests@))
                <= u64::MAX,
            sum(old(self).tokens.input@) + sum(saved_tokens(p.tokens@, input_kind())) <= u64::MAX,
            sum(old(self).tokens.output@) + sum(saved_tokens(p.tokens@, output_kind()))
                <= u64::MAX,
            sum(old(self).tokens.cache_read@) + sum(saved_tokens(p.tokens@, cache_kind()))
                <= u64::MAX,
        ensures
            final(self).wf(),
            final(self).is_loaded_from(*old(self), *p),
    {
        merge(&mut self.requests, &p.requests);
        merge(&mut self.endpoint_requests, &p.endpoint_requests);
        let ghost before = *self;
        let ghost ins = saved_tokens(p.tokens@, input_kind());
        let ghost outs = saved_tokens(p.tokens@, output_kind());
        let ghost caches = saved_tokens(p.tokens@, cache_kind());
        let mut i: usize = 0;
        assert(ins.take(0) =~= Seq::empty());
        assert(outs.take(0) =~= Seq::empty());
        assert(caches.take(0) =~= Seq::empty());
        while i < p.tokens.len()
            invariant
                i <= p.tokens@.len(),
                self.wf(),
                before.wf(),
                ins == saved_tokens(p.tokens@, input_kind()),
                outs == saved_tokens(p.tokens@, output_kind()),
                caches == saved_tokens(p.tokens@, cache_kind()),
                self.tokens.input@ == merged(before.tokens.input@, ins.take(i as int)),
                self.tokens.output@ == merged(before.tokens.output@, outs.take(i as int)),
                self.tokens.cache_read@ == merged(before.tokens.cache_read@, caches.take(i as int)),
                sum(before.tokens.input@) + sum(ins) <= u64::MAX,
                sum(before.tokens.output@) + sum(outs) <= u64::MAX,
                sum(before.tokens.cache_read@) + sum(caches) <= u64::MAX,
                self.requests == before.requests,
                self.endpoint_requests == before.endpoint_requests,
                self.rate_history == before.rate_history,
                self.token_events == before.token_events,
            decreases p.tokens@.len() - i,
        {
            proof {
                assert(ins.take(i + 1).drop_last() =~= ins.take(i as int));
                assert(outs.take(i + 1).drop_last() =~= outs.take(i as int));
                assert(caches.take(i + 1).drop_last() =~= caches.take(i as int));
                crate::counter::lemma_sum_of_prefix(ins, i + 1);
                crate::counter::lemma_sum_of_prefix(outs, i + 1);
                crate::counter::lemma_sum_of_prefix(caches, i + 1);
                merging_adds_up(before.tokens.input@, ins.take(i as int));
                merging_adds_up(before.tokens.output@, outs.take(i as int));
                merging_adds_up(before.tokens.cache_read@, caches.take(i as int));
                lemma_same_names_counted(
                    self.tokens.input@,
                    self.tokens.output@,
                    p.tokens@[i as int].0@,
                    ins[i as int].1,
                    outs[i as int].1,
                );
                lemma_same_names_counted(
                    self.tokens.input@,
                    self.tokens.cache_read@,
                    p.tokens@[i as int].0@,
                    ins[i as int].1,
                    caches[i as int].1,
                );
            }
            let t = p.tokens[i].1;
            self.tokens.input.bump(&p.tokens[i].0, t.input);
            self.tokens.output.bump(&p.tokens[i].0, t.output);
            self.tokens.cache_read.bump(&p.tokens[i].0, t.cache_read);
            i = i + 1;
        }
        assert(ins.take(ins.len() as int) =~= ins);
        assert(outs.take(outs.len() as int) =~= outs);
        assert(caches.take(caches.len() as int) =~= caches);
    }
}

/// What was saved comes back: counts merged into no counts are those counts.
pub proof fn saved_counts_come_back(s: Seq<(Seq<char>, u64)>)
    requires
        crate::counter::distinct(s),
    ensures
        merged(Seq::empty(), s) == s,
    decreases s.len(),
{
    if s.len() > 0 {
        let rest = s.drop_last();
        assert(crate::counter::distinct(rest)) by {
            assert forall|i: int, j: int| 0 <= i < j < rest.len() implies #[trigger] rest[i].0
                != #[trigger] rest[j].0 by {
                assert(s[i].0 != s[j].0);
            }
        }
        saved_counts_come_back(rest);
        assert forall|i: int| !crate::counter::has_name(rest, s.last().0, i) by {
            if crate::counter::has_name(rest, s.last().0, i) {
                assert(s[i].0 != s[s.len() - 1].0);
            }
        }
        assert(merged(Seq::empty(), s) =~= s);
    }
}

/// A sum is that of its parts.
pub proof fn sums_add_up(a: Seq<(Seq<char>, u64)>, b: Seq<(Seq<char>, u64)>, x: (Seq<char>, u64))
    ensures
        sum(a + b) == sum(a) + sum(b),
        sum(seq![x]) == x.1,
    decreases b.len(),
{
    let none = seq![x].drop_last();
    assert(none.len() == 0);
    assert(sum(none) == 0);
    assert(seq![x].last() == x);
    if b.len() == 0 {
        assert(a + b =~= a);
    } else {
        assert((a + b).drop_last() =~= a + b.drop_last());
        sums_add_up(a, b.drop_last(), x);
    }
}

/// The tokens used in all are those of all models together.
pub proof fn totals_are_those_of_all_models(s: Stats)
    requires
        s.wf(),
    ensures
        token_totals(s).total_input_tokens == sum(s.tokens.input@),
        token_totals(s).total_output_tokens == sum(s.tokens.output@),
        token_totals(s).total_cache_read_tokens == sum(s.tokens.cache_read@),
{
}

/// What is said of a model is what was counted for it: its requests and its tokens.
pub proof fn models_have_their_own_counts(v: Seq<ModelStats>, s: Stats, i: int)
    requires
        s.wf(),
        are_model_stats(v, s),
        0 <= i < s.requests@.len(),
    ensures
        v[i].model@ == s.requests@[i].0,
        v[i].requests == count(s.requests@, v[i].model@),
        v[i].input_tokens == count(s.tokens.input@, v[i].model@),
        v[i].output_tokens == count(s.tokens.output@, v[i].model@),
        v[i].cache_read_tokens == count(s.tokens.cache_read@, v[i].model@),
{
    assert(is_model_stats(v[i], s, i));
    crate::counter::lemma_count(s.requests@, v[i].model@, i);
}

/// The statistics are answered whole: the requests in all, every model with its numbers, every
/// endpoint with its requests, every second of the last minute, and the tokens.
pub proof fn statistics_are_answered_whole(s: StatsSummary)
    ensures
        ({
            let v = summary_json(s);
            &&& crate::json::entry(v, "uptime_seconds"@) == Some(uint(s.uptime.secs))
            &&& crate::json::entry(v, "total_requests"@) == Some(uint(s.total_requests))
            &&& crate::json::entry(v, "models"@) matches Some(JsonView::Array(m)) && m.len()
                == s.models@.len() && forall|i: int|
                0 <= i < m.len() ==> {
                    &&& crate::json::entry(#[trigger] m[i], "model"@) == Some(
                        JsonView::Text(s.models@[i].model@),
                    )
                    &&& crate::json::entry(m[i], "requests"@) == Some(uint(s.models@[i].requests))
                    &&& crate::json::entry(m[i], "input_tokens"@) == Some(
                        uint(s.models@[i].input_tokens),
                    )
                    &&& crate::json::entry(m[i], "output_tokens"@) == Some(
                        uint(s.models@[i].output_tokens),
                    )
                    &&& crate::json::entry(m[i], "cache_read_tokens"@) == Some(
                        uint(s.models@[i].cache_read_tokens),
                    )
                }
        }),
        ({
            let v = summary_json(s);
            &&& crate::json::entry(v, "endpoints"@) matches Some(JsonView::Array(e)) && e.len()
                == s.endpoints@.len() && forall|i: int|
                0 <= i < e.len() ==> crate::json::entry(#[trigger] e[i], "endpoint"@) == Some(
                    JsonView::Text(s.endpoints@[i].endpoint@),
                ) && crate::json::entry(e[i], "requests"@) == Some(uint(s.endpoints@[i].requests))
        }),
        ({
            let v = summary_json(s);
            &&& crate::json::entry(v, "rate_history"@) matches Some(JsonView::Array(h)) && h.len()
                == s.rate_history@.len() && forall|i: int|
                0 <= i < h.len() ==> #[trigger] h[i] == uint(s.rate_history@[i])
        }),
        ({
            let v = summary_json(s);
            &&& crate::json::entry(v, "token_usage"@) matches Some(u) && crate::json::entry(
                u,
                "total_input_tokens"@,
            ) == Some(uint(s.token_usage.total_input_tokens)) && crate::json::entry(
                u,
                "total_output_tokens"@,
            ) == Some(uint(s.token_usage.total_output_tokens)) && crate::json::entry(
                u,
                "total_cache_read_tokens"@,
            ) == Some(uint(s.token_usage.total_cache_read_tokens))
        }),
{
    reveal_strlit("uptime_seconds");
    reveal_strlit("total_requests");
    reveal_strlit("models");
    reveal_strlit("endpoints");
    reveal_strlit("rate_history");
    reveal_strlit("token_usage");
    assert("uptime_seconds"@[0] != "total_requests"@[0]);
    assert("uptime_seconds"@.len() != "models"@.len());
    assert("uptime_seconds"@.len() != "endpoints"@.len());
    assert("uptime_seconds"@.len() != "rate_history"@.len());
    assert("uptime_seconds"@.len() != "token_usage"@.len());
    assert("total_requests"@.len() != "models"@.len());
    assert("total_requests"@.len() != "endpoints"@.len());
    assert("total_requests"@.len() != "rate_history"@.len());
    assert("total_requests"@.len() != "token_usage"@.len());
    assert("models"@.len() != "endpoints"@.len());
    assert("models"@.len() != "rate_history"@.len());
    assert("models"@.len() != "token_usage"@.len());
    assert("endpoints"@.len() != "rate_history"@.len());
    assert("endpoints"@.len() != "token_usage"@.len());
    assert("rate_history"@.len() != "token_usage"@.len());
    reveal_strlit("model");
    reveal_strlit("requests");
    reveal_strlit("input_tokens");
    reveal_strlit("output_tokens");
    reveal_strlit("cache_read_tokens");
    assert("model"@.len() != "requests"@.len());
    assert("model"@.len() != "input_tokens"@.len());
    assert("model"@.len() != "output_tokens"@.len());
    assert("model"@.len() != "cache_read_tokens"@.len());
    assert("requests"@.len() != "input_tokens"@.len());
    assert("requests"@.len() != "output_tokens"@.len());
    assert("requests"@.len() != "cache_read_tokens"@.len());
    assert("input_tokens"@.len() != "output_tokens"@.len());
    assert("input_tokens"@.len() != "cache_read_tokens"@.len());
    assert("output_tokens"@.len() != "cache_read_tokens"@.len());
    reveal_strlit("total_input_tokens");
    reveal_strlit("total_output_tokens");
    reveal_strlit("total_cache_read_tokens");
    assert("total_input_tokens"@.len() != "total_output_tokens"@.len());
    assert("total_input_tokens"@.len() != "total_cache_read_tokens"@.len());
    assert("total_output_tokens"@.len() != "total_cache_read_tokens"@.len());
    reveal_strlit("endpoint");
    assert("endpoint"@[0] != "requests"@[0]);
}

} // verus!
