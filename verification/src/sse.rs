//! Server-sent events: cutting a stream of bytes into events, and what the adapter from
//! chat to legacy completions does with each.

use vstd::prelude::*;

use crate::text::{
    after, chars_of, decode_lossy, decoded, join, join_texts, lines, lines_of, same, starts,
    starts_with, strip_prefix, text_between, trim, trim_end_char, trim_start, trimmed,
    trimmed_start, views, without_trailing,
};

verus! {

/// The first index, from `i` on, of a blank line: two ends of line in a row.
pub open spec fn blank_from(s: Seq<char>, i: int) -> Option<int>
    decreases s.len() - i,
{
    if i < 0 || i + 2 > s.len() {
        None
    } else if s[i] == '\n' && s[i + 1] == '\n' {
        Some(i)
    } else {
        blank_from(s, i + 1)
    }
}

/// A blank line that was found is there, and none is before it.
proof fn lemma_blank(s: Seq<char>, i: int)
    requires
        0 <= i,
    ensures
        match blank_from(s, i) {
            Some(k) => i <= k && k + 2 <= s.len() && s[k] == '\n' && s[k + 1] == '\n' && forall|
                j: int,
            |
                i <= j < k ==> !(#[trigger] s[j] == '\n' && s[j + 1] == '\n'),
            None => forall|j: int| i <= j && j + 2 <= s.len() ==> !(#[trigger] s[j] == '\n' && s[j
                + 1] == '\n'),
        },
    decreases s.len() - i,
{
    if i + 2 <= s.len() && !(s[i] == '\n' && s[i + 1] == '\n') {
        lemma_blank(s, i + 1);
    }
}

/// The events that are complete in a text, each ended by a blank line.
pub open spec fn complete_events(s: Seq<char>) -> Seq<Seq<char>>
    decreases s.len(),
{
    match blank_from(s, 0) {
        Some(k) => if 0 <= k && k + 2 <= s.len() {
            seq![s.subrange(0, k)] + complete_events(s.subrange(k + 2, s.len() as int))
        } else {
            Seq::empty()
        },
        None => Seq::empty(),
    }
}

/// What follows the last complete event of a text.
pub open spec fn unfinished(s: Seq<char>) -> Seq<char>
    decreases s.len(),
{
    match blank_from(s, 0) {
        Some(k) => if 0 <= k && k + 2 <= s.len() {
            unfinished(s.subrange(k + 2, s.len() as int))
        } else {
            s
        },
        None => s,
    }
}

/// A stream cut into events: what is not complete waits for more.
#[derive(Debug, Clone, PartialEq)]
pub struct EventBuffer {
    buffer: String,
}

impl EventBuffer {
    /// The text that waits.
    pub closed spec fn view(&self) -> Seq<char> {
        self.buffer@
    }

    /// Nothing received yet.
    pub fn new() -> (r: EventBuffer)
        ensures
            r@.len() == 0,
    {
        EventBuffer { buffer: String::new() }
    }

    /// Takes more of the stream: the events that are now complete, in order.
    pub fn feed(&mut self, data: &[u8]) -> (r: Vec<String>)
        ensures
            views(r@) == complete_events(old(self)@ + decoded(data@)),
            final(self)@ == unfinished(old(self)@ + decoded(data@)),
    {
        let more = decode_lossy(data);
        self.buffer.push_str(&more);
        let ghost all = self.buffer@;
        let v = chars_of(&self.buffer);
        let n: usize = v.len();
        let mut r: Vec<String> = Vec::new();
        let mut from: usize = 0;
        let mut i: usize = 0;
        assert(v@.subrange(0, v@.len() as int) =~= v@);
        assert(views(r@) + complete_events(v@) =~= complete_events(all));
        while n - i >= 2
            invariant
                from <= i <= n,
                n == v@.len(),
                v@ == all,
                views(r@) + complete_events(v@.subrange(from as int, n as int))
                    == complete_events(all),
                unfinished(v@.subrange(from as int, n as int)) == unfinished(all),
                blank_from(v@.subrange(from as int, n as int), 0) == blank_from(
                    v@.subrange(from as int, n as int),
                    i - from,
                ),
            decreases n - i,
        {
            let ghost part = v@.subrange(from as int, n as int);
            assert(part[i - from] == v@[i as int]);
            assert(part[i - from + 1] == v@[i + 1]);
            if v[i] == '\n' && v[i + 1] == '\n' {
                let event = text_between(&v, from, i);
                assert(part.subrange(0, i - from) =~= event@);
                assert(part.subrange(i - from + 2, part.len() as int) =~= v@.subrange(
                    i + 2,
                    n as int,
                ));
                let ghost before = views(r@);
                r.push(event);
                assert(views(r@) =~= before.push(event@));
                assert(before + (seq![event@] + complete_events(v@.subrange(i + 2, n as int)))
                    =~= views(r@) + complete_events(v@.subrange(i + 2, n as int)));
                from = i + 2;
                i = from;
            } else {
                i = i + 1;
            }
        }
        let ghost part = v@.subrange(from as int, n as int);
        assert(blank_from(part, 0) is None);
        assert(views(r@) + Seq::<Seq<char>>::empty() =~= views(r@));
        self.buffer = text_between(&v, from, n);
        r
    }

    /// Ends the stream: what is left, without the ends of line after it, where it is not
    /// blank.
    pub fn finish(&self) -> (r: Option<String>)
        ensures
            match r {
                Some(t) => trimmed(self@).len() > 0 && t@ == without_trailing(self@, '\n'),
                None => trimmed(self@).len() == 0,
            },
    {
        if trim(&self.buffer).as_str().is_empty() {
            None
        } else {
            Some(trim_end_char(&self.buffer, '\n'))
        }
    }
}

/// How a stream is cut into chunks does not matter: the events of a text and of what follows
/// it are the events of the whole, and the same is left over.
pub proof fn chunking_does_not_matter(s: Seq<char>, t: Seq<char>)
    ensures
        complete_events(s + t) == complete_events(s) + complete_events(unfinished(s) + t),
        unfinished(s + t) == unfinished(unfinished(s) + t),
    decreases s.len(),
{
    lemma_blank(s, 0);
    lemma_blank(s + t, 0);
    match blank_from(s, 0) {
        None => {
            assert(complete_events(s) + complete_events(s + t) =~= complete_events(s + t));
        },
        Some(k) => {
            let w = s + t;
            assert(w[k] == s[k] && w[k + 1] == s[k + 1]);
            match blank_from(w, 0) {
                Some(m) => {
                    if m < k {
                        assert(w[m] == s[m] && w[m + 1] == s[m + 1]);
                    }
                    assert(m == k);
                },
                None => {},
            }
            let rest = s.subrange(k + 2, s.len() as int);
            assert(w.subrange(0, k) =~= s.subrange(0, k));
            assert(w.subrange(k + 2, w.len() as int) =~= rest + t);
            chunking_does_not_matter(rest, t);
            assert(complete_events(w) =~= complete_events(s) + complete_events(unfinished(s) + t));
        },
    }
}

/// What is left over holds no complete event.
pub proof fn nothing_complete_is_left_over(s: Seq<char>)
    ensures
        complete_events(unfinished(s)).len() == 0,
        unfinished(unfinished(s)) == unfinished(s),
    decreases s.len(),
{
    lemma_blank(s, 0);
    match blank_from(s, 0) {
        Some(k) => {
            nothing_complete_is_left_over(s.subrange(k + 2, s.len() as int));
        },
        None => {},
    }
}

/// The payloads of the data lines among lines, each without the white space before it.
pub open spec fn data_payloads(l: Seq<Seq<char>>) -> Seq<Seq<char>>
    decreases l.len(),
{
    if l.len() == 0 {
        Seq::empty()
    } else {
        let before = data_payloads(l.drop_last());
        if starts(l.last(), "data:"@) {
            before.push(trimmed_start(after(l.last(), "data:"@)))
        } else {
            before
        }
    }
}

/// The payload of an event: that of its data lines, joined by ends of line.
pub open spec fn payload(event: Seq<char>) -> Seq<char> {
    join(data_payloads(lines(event, '\n', '\r')), "\n"@)
}

/// Whether an event is nothing but comments.
pub open spec fn is_comment(event: Seq<char>) -> bool {
    let l = lines(event, '\n', '\r');
    forall|i: int| 0 <= i < l.len() ==> starts(#[trigger] l[i], ":"@)
}

/// An event with one line of data.
pub open spec fn data_event(payload: Seq<char>) -> Seq<char> {
    "data: "@ + payload + "\n\n"@
}

/// An event with one line of data.
pub fn data_frame(payload: &str) -> (r: String)
    ensures
        r@ == data_event(payload@),
{
    let mut r = "data: ".to_owned();
    r.push_str(payload);
    r.push_str("\n\n");
    r
}

/// What the adapter does with an event.
#[derive(Debug, Clone, PartialEq)]
pub enum EventAction {
    Skip,
    /// Sends this text.
    Send(String),
    /// Reads this payload as a chunk of a chat completion: sends the legacy chunk that
    /// stands for it, or the payload as it is where it is no such chunk.
    Convert(String),
}

/// Whether `a` is what the adapter does with an event: blank ones are skipped, comments and
/// the end of the stream handed on, other data converted.
pub open spec fn is_action_for(a: EventAction, event: Seq<char>) -> bool {
    if trimmed(event).len() == 0 {
        a is Skip
    } else if is_comment(event) {
        a matches EventAction::Send(t) && t@ == event + "\n\n"@
    } else if payload(event).len() == 0 {
        a is Skip
    } else if payload(event) == "[DONE]"@ {
        a matches EventAction::Send(t) && t@ == data_event("[DONE]"@)
    } else {
        a matches EventAction::Convert(t) && t@ == payload(event)
    }
}

/// What the adapter does with an event.
pub fn classify_event(event: &str) -> (r: EventAction)
    ensures
        is_action_for(r, event@),
{
    if trim(event).as_str().is_empty() {
        return EventAction::Skip;
    }
    let list = lines_of(event);
    let ghost all = lines(event@, '\n', '\r');
    let mut comment = true;
    let mut data: Vec<String> = Vec::new();
    let mut i: usize = 0;
    assert(all.take(0) =~= Seq::empty());
    assert(views(data@) =~= Seq::empty());
    while i < list.len()
        invariant
            i <= list@.len(),
            all == views(list@),
            comment == forall|j: int| 0 <= j < i ==> starts(#[trigger] all[j], ":"@),
            views(data@) == data_payloads(all.take(i as int)),
        decreases list@.len() - i,
    {
        assert(all.take(i + 1).drop_last() =~= all.take(i as int));
        assert(all[i as int] == list@[i as int]@);
        if !starts_with(&list[i], ":") {
            comment = false;
        }
        match strip_prefix(&list[i], "data:") {
            Some(p) => {
                let ghost before = views(data@);
                data.push(trim_start(&p));
                assert(views(data@) =~= before.push(
                    trimmed_start(after(list@[i as int]@, "data:"@)),
                ));
            },
            None => {},
        }
        i = i + 1;
    }
    assert(all.take(all.len() as int) =~= all);
    if comment {
        let mut t = event.to_owned();
        t.push_str("\n\n");
        return EventAction::Send(t);
    }
    let joined = join_texts(&data, "\n");
    if joined.as_str().is_empty() {
        EventAction::Skip
    } else if same(&joined, "[DONE]") {
        EventAction::Send(data_frame("[DONE]"))
    } else {
        EventAction::Convert(joined)
    }
}

/// What woke the loop that forwards a stream.
#[derive(Debug, Clone, Copy, PartialEq, Eq, Structural)]
pub enum Wake {
    /// No frame came in time.
    FrameTimeout,
    /// It is time for a sign of life.
    Heartbeat,
    Frame,
    UpstreamError,
    UpstreamEnd,
}

/// What the loop does then.
#[derive(Debug, Clone, Copy, PartialEq, Eq, Structural)]
pub enum Turn {
    /// Ends: what the parser still holds is flushed.
    Stop,
    /// Sends a comment; the client may have gone.
    Ping,
    /// Feeds the frame to the parser and starts the wait anew.
    Feed,
}

/// What the loop that forwards a stream does when it wakes.
pub fn turn(wake: Wake) -> (r: Turn)
    ensures
        r == (match wake {
            Wake::FrameTimeout | Wake::UpstreamError | Wake::UpstreamEnd => Turn::Stop,
            Wake::Heartbeat => Turn::Ping,
            Wake::Frame => Turn::Feed,
        }),
{
    match wake {
        Wake::FrameTimeout | Wake::UpstreamError | Wake::UpstreamEnd => Turn::Stop,
        Wake::Heartbeat => Turn::Ping,
        Wake::Frame => Turn::Feed,
    }
}

/// Events as they stand in a stream, each with the blank line that ends it.
pub open spec fn ended(events: Seq<Seq<char>>) -> Seq<char>
    decreases events.len(),
{
    if events.len() == 0 {
        Seq::empty()
    } else {
        events[0] + "\n\n"@ + ended(events.skip(1))
    }
}

/// Nothing of a stream is lost, added or reordered: its events, each with its blank line, and
/// what is left over are the stream; and no event has a blank line in it.
pub proof fn events_are_the_stream(s: Seq<char>)
    ensures
        ended(complete_events(s)) + unfinished(s) == s,
        forall|i: int, j: int|
            0 <= i < complete_events(s).len() && 0 <= j < complete_events(s)[i].len() - 1 ==> !(
            #[trigger] complete_events(s)[i][j] == '\n' && complete_events(s)[i][j + 1] == '\n'),
    decreases s.len(),
{
    lemma_blank(s, 0);
    reveal_strlit("\n\n");
    match blank_from(s, 0) {
        Some(k) => {
            let rest = s.subrange(k + 2, s.len() as int);
            let head = s.subrange(0, k);
            events_are_the_stream(rest);
            let all = complete_events(s);
            assert(all.skip(1) =~= complete_events(rest));
            assert(all[0] == head);
            assert(s =~= head + "\n\n"@ + rest);
            assert(ended(all) + unfinished(s) =~= head + "\n\n"@ + (ended(complete_events(rest))
                + unfinished(rest)));
            assert forall|i: int, j: int|
                0 <= i < all.len() && 0 <= j < all[i].len() - 1 implies !(#[trigger] all[i][j]
                == '\n' && all[i][j + 1] == '\n') by {
                if i == 0 {
                    assert(all[0][j] == s[j] && all[0][j + 1] == s[j + 1]);
                } else {
                    assert(all[i] == complete_events(rest)[i - 1]);
                    assert(complete_events(rest)[i - 1][j] == all[i][j]);
                }
            }
        },
        None => {
            assert(ended(complete_events(s)) + unfinished(s) =~= s);
        },
    }
}

/// Data that is sent as one line is received again: the stream of its frame is one event, the
/// payload of which is the data.
pub proof fn sent_data_is_received(data: Seq<char>)
    requires
        !data.contains('\n'),
        data.len() > 0,
        !crate::text::is_space(data[0]),
    ensures
        complete_events(data_event(data)) == seq!["data: "@ + data],
        unfinished(data_event(data)).len() == 0,
        payload("data: "@ + data) == data,
{
    reveal_strlit("data: ");
    reveal_strlit("data:");
    reveal_strlit("\n\n");
    reveal_strlit("\n");
    let line = "data: "@ + data;
    let s = data_event(data);
    let n = line.len() as int;
    assert(s =~= line + "\n\n"@);
    assert forall|i: int| 0 <= i < n implies s[i] != '\n' by {
        if i >= 6 {
            assert(s[i] == data[i - 6]);
            assert(data.contains(data[i - 6]));
        }
    }
    lemma_blank(s, 0);
    assert(s[n] == '\n' && s[n + 1] == '\n');
    match blank_from(s, 0) {
        Some(k) => {
            assert(k >= n);
            if k > n {
                assert(!(s[n] == '\n' && s[n + 1] == '\n'));
            }
        },
        None => {
            assert(!(s[n] == '\n' && s[n + 1] == '\n'));
        },
    }
    assert(blank_from(s, 0) == Some(n));
    let rest = s.subrange(n + 2, s.len() as int);
    assert(rest.len() == 0);
    assert(s.subrange(0, n) =~= line);
    assert(complete_events(rest) =~= Seq::empty());
    assert(unfinished(rest) == rest);
    assert(unfinished(s) == unfinished(rest));
    assert(complete_events(s) =~= seq![line]);
    assert(!line.contains('\n')) by {
        if line.contains('\n') {
            let i = choose|i: int| 0 <= i < line.len() && line[i] == '\n';
            assert(s[i] == line[i]);
        }
    }
    crate::text::lemma_one_piece(line, '\n');
    let l = lines(line, '\n', '\r');
    assert(l =~= seq![line]);
    assert(line.subrange(0, 5) =~= "data:"@);
    let tail = after(line, "data:"@);
    assert(tail[0] == ' ');
    assert(tail.subrange(1, tail.len() as int) =~= data);
    reveal_with_fuel(trimmed_start, 2);
    assert(trimmed_start(tail) == data);
    let none = l.drop_last();
    assert(none.len() == 0);
    assert(data_payloads(none) =~= Seq::empty());
    assert(l.last() == line);
    assert(data_payloads(l) =~= seq![data]);
    assert(join(seq![data], "\n"@) == data);
}

/// The end of a stream is handed on as such, data is never skipped, and what is converted is
/// the payload of the event.
pub proof fn data_is_never_skipped(a: EventAction, event: Seq<char>)
    requires
        is_action_for(a, event),
        !is_comment(event),
        payload(event).len() > 0,
        trimmed(event).len() > 0,
    ensures
        !(a is Skip),
        payload(event) == "[DONE]"@ ==> (a matches EventAction::Send(t) && t@ == "data: [DONE]\n\n"@),
        payload(event) != "[DONE]"@ ==> (a matches EventAction::Convert(t) && t@ == payload(event)),
{
    reveal_strlit("data: [DONE]\n\n");
    reveal_strlit("data: ");
    reveal_strlit("[DONE]");
    reveal_strlit("\n\n");
    assert(data_event("[DONE]"@) =~= "data: [DONE]\n\n"@);
}

} // verus!
