//! Following the log file as a stream of events.

use vstd::prelude::*;

use crate::log_reader::{last_of, TailReader};
use crate::provider::{join_path, joined};
use crate::reply::{Reply, ReplyView};
use crate::sse::{data_event, data_frame};
use crate::text::{
    chars_of, decode_lossy, decoded, is_subsequence, lemma_pieces_nonempty, picks, pieces, split,
    trim_end_char, views, without_trailing,
};

verus! {

/// How many lines a stream begins with.
pub const LOG_STREAM_TAIL_LINES: usize = 100;

/// Whether a character is an ASCII letter.
pub open spec fn is_letter(c: char) -> bool {
    'a' <= c <= 'z' || 'A' <= c <= 'Z'
}

/// Where an escape sequence whose parameters begin at `j` has ended: behind its first
/// letter, or at the end of the text.
pub open spec fn sequence_end(s: Seq<char>, j: int) -> int
    decreases s.len() - j,
{
    if j >= s.len() {
        s.len() as int
    } else if is_letter(s[j]) {
        j + 1
    } else {
        sequence_end(s, j + 1)
    }
}

/// An escape sequence ends behind where it begins, and within the text.
pub proof fn lemma_sequence_end(s: Seq<char>, j: int)
    requires
        j <= s.len(),
    ensures
        j <= sequence_end(s, j) <= s.len(),
    decreases s.len() - j,
{
    if j < s.len() && !is_letter(s[j]) {
        lemma_sequence_end(s, j + 1);
    }
}

/// Where the character or the escape sequence at `i` has ended.
pub open spec fn step_end(s: Seq<char>, i: int) -> int {
    if s[i] == '\u{1b}' && i + 1 < s.len() && s[i + 1] == '[' {
        sequence_end(s, i + 2)
    } else {
        i + 1
    }
}

/// What is left of `s` from `i` on without escape sequences.
pub open spec fn stripped_from(s: Seq<char>, i: int) -> Seq<char>
    decreases s.len() - i,
{
    if i < 0 || i >= s.len() {
        Seq::empty()
    } else {
        proof {
            if i + 2 <= s.len() {
                lemma_sequence_end(s, i + 2);
            }
        }
        let rest = stripped_from(s, step_end(s, i));
        if s[i] == '\u{1b}' {
            rest
        } else {
            seq![s[i]] + rest
        }
    }
}

/// `s` without escape sequences.
pub open spec fn stripped(s: Seq<char>) -> Seq<char> {
    stripped_from(s, 0)
}

/// `s` without escape sequences: an escape character alone, or one with a bracket and all
/// that follows up to a letter.
pub fn strip_ansi_codes(s: &str) -> (r: String)
    ensures
        r@ == stripped(s@),
{
    let v = chars_of(s);
    let mut r = String::new();
    let mut i: usize = 0;
    assert(r@ + stripped_from(v@, 0) =~= stripped(s@));
    while i < v.len()
        invariant
            i <= v@.len(),
            v@ == s@,
            r@ + stripped_from(v@, i as int) == stripped(s@),
        decreases v@.len() - i,
    {
        let ghost start = i as int;
        let ghost before = r@;
        let c = v[i];
        i = i + 1;
        if c == '\u{1b}' {
            if i < v.len() && v[i] == '[' {
                i = i + 1;
                let mut open = true;
                while open && i < v.len()
                    invariant
                        start + 2 <= i <= v@.len(),
                        open ==> sequence_end(v@, i as int) == sequence_end(v@, start + 2),
                        !open ==> i == sequence_end(v@, start + 2),
                    decreases v@.len() - i,
                {
                    let d = v[i];
                    i = i + 1;
                    if ('a' <= d && d <= 'z') || ('A' <= d && d <= 'Z') {
                        open = false;
                    }
                }
                assert(i == sequence_end(v@, start + 2));
            }
            assert(i == step_end(v@, start));
        } else {
            r.push(c);
            assert(i == step_end(v@, start));
            assert(r@ + stripped_from(v@, i as int) =~= before + (seq![c] + stripped_from(
                v@,
                i as int,
            )));
        }
    }
    assert(r@ + stripped_from(v@, i as int) =~= r@);
    r
}

proof fn lemma_stripped_from(s: Seq<char>, i: int)
    requires
        0 <= i <= s.len(),
    ensures
        !stripped_from(s, i).contains('\u{1b}'),
        !s.contains('\u{1b}') ==> stripped_from(s, i) == s.subrange(i, s.len() as int),
    decreases s.len() - i,
{
    if i < s.len() {
        if i + 2 <= s.len() {
            lemma_sequence_end(s, i + 2);
        }
        let next = step_end(s, i);
        lemma_stripped_from(s, next);
        let rest = stripped_from(s, next);
        if s[i] != '\u{1b}' {
            let all = seq![s[i]] + rest;
            assert(!all.contains('\u{1b}')) by {
                if all.contains('\u{1b}') {
                    let k = choose|k: int| 0 <= k < all.len() && all[k] == '\u{1b}';
                    assert(k > 0 && rest[k - 1] == '\u{1b}');
                }
            }
            if !s.contains('\u{1b}') {
                assert(all =~= s.subrange(i, s.len() as int));
            }
        } else {
            assert(s.contains(s[i]));
        }
    } else {
        assert(stripped_from(s, i) =~= Seq::empty());
        assert(s.subrange(i, s.len() as int) =~= Seq::empty());
    }
}

/// No escape character is left in a text without escape sequences, and a text that has none
/// stays as it is; so a second time changes nothing.
pub proof fn no_escape_is_left(s: Seq<char>)
    ensures
        !stripped(s).contains('\u{1b}'),
        !s.contains('\u{1b}') ==> stripped(s) == s,
        stripped(stripped(s)) == stripped(s),
{
    lemma_stripped_from(s, 0);
    assert(s.subrange(0, s.len() as int) =~= s);
    let t = stripped(s);
    lemma_stripped_from(t, 0);
    assert(t.subrange(0, t.len() as int) =~= t);
}

/// The log file: in the configuration directory under the home directory, or where the
/// program was started if there is none.
pub open spec fn log_file(home: Option<Seq<char>>) -> Seq<char> {
    match home {
        Some(h) => joined(joined(joined(h, ".config"@), "agcp"@), "agcp.log"@),
        None => joined("."@, "agcp.log"@),
    }
}

/// The log file.
pub fn logs_file_path(home: Option<&str>) -> (r: String)
    ensures
        r@ == log_file(
            match home {
                Some(h) => Some(h@),
                None => None,
            },
        ),
{
    match home {
        Some(h) => {
            let config = join_path(h, ".config");
            let dir = join_path(&config, "agcp");
            join_path(&dir, "agcp.log")
        },
        None => join_path(".", "agcp.log"),
    }
}

/// The lines that a stream begins with, from the end of the log file where there is one.
pub open spec fn tail_lines(file: Option<TailReader>, count: nat) -> Seq<Seq<char>> {
    match file {
        None => seq!["No log file available"@],
        Some(t) => if t.tail().len() == 0 && t.before() == 0 {
            seq!["No log entries"@]
        } else {
            let last = last_of(t.whole(), count);
            Seq::new(last.len(), |i: int| decoded(last[i]))
        },
    }
}

/// The lines that a stream begins with.
pub fn read_log_tail_lines(file: &Option<TailReader>, tail_count: usize) -> (r: Vec<String>)
    ensures
        views(r@) == tail_lines(*file, tail_count as nat),
{
    match file {
        None => {
            let mut r: Vec<String> = Vec::new();
            r.push("No log file available".to_owned());
            assert(views(r@) =~= seq!["No log file available"@]);
            r
        },
        Some(t) => {
            if t.is_of_empty_file() {
                let mut r: Vec<String> = Vec::new();
                r.push("No log entries".to_owned());
                assert(views(r@) =~= seq!["No log entries"@]);
                r
            } else {
                t.last_lines(tail_count)
            }
        },
    }
}

/// The events that send a list of lines, each without escape sequences.
pub open spec fn line_events(lines: Seq<Seq<char>>) -> Seq<Seq<char>> {
    Seq::new(lines.len(), |i: int| data_event(stripped(lines[i])))
}

/// The events that send a list of lines.
pub fn line_frames(lines: &Vec<String>) -> (r: Vec<String>)
    ensures
        views(r@) == line_events(views(lines@)),
{
    let mut r: Vec<String> = Vec::new();
    let mut i: usize = 0;
    while i < lines.len()
        invariant
            i <= lines@.len(),
            r@.len() == i,
            forall|j: int|
                0 <= j < i ==> (#[trigger] r@[j])@ == data_event(stripped(lines@[j]@)),
        decreases lines@.len() - i,
    {
        let clean = strip_ansi_codes(&lines[i]);
        r.push(data_frame(&clean));
        i = i + 1;
    }
    assert(views(r@) =~= line_events(views(lines@)));
    r
}

/// Follows a growing file: how far it was read, and the line that has not ended yet.
#[derive(Debug, Clone, PartialEq)]
pub struct LogFollower {
    pub offset: u64,
    pub partial: String,
}

/// The lines of a text that were ended, each without the `\r` at its end. A text that ends
/// with an end of line has an empty one behind it.
pub open spec fn ended_lines(text: Seq<char>) -> Seq<Seq<char>> {
    let p = pieces(text, '\n');
    let n = if text.len() > 0 && text.last() == '\n' {
        p.len()
    } else {
        (p.len() - 1) as nat
    };
    Seq::new(n, |i: int| without_trailing(p[i], '\r'))
}

impl LogFollower {
    /// Follows a file from its end.
    pub fn new(file_len: u64) -> (r: LogFollower)
        ensures
            r.offset == file_len,
            r.partial@.len() == 0,
    {
        LogFollower { offset: file_len, partial: String::new() }
    }

    /// Looks at the file's length: where to read from, or `None` where nothing was added.
    /// A file that has become shorter is another one, and is read from its beginning.
    pub fn poll(&mut self, current_len: u64) -> (r: Option<u64>)
        ensures
            final(self).offset == (if current_len < old(self).offset {
                0
            } else {
                old(self).offset
            }),
            final(self).partial@ == (if current_len < old(self).offset {
                Seq::empty()
            } else {
                old(self).partial@
            }),
            r == (if current_len == final(self).offset {
                None::<u64>
            } else {
                Some(final(self).offset)
            }),
    {
        if current_len < self.offset {
            self.offset = 0;
            self.partial = String::new();
        }
        if current_len == self.offset {
            None
        } else {
            Some(self.offset)
        }
    }

    /// Takes what was read of the file: the events for the lines that were ended. What
    /// follows the last end of line is kept.
    pub fn take(&mut self, current_len: u64, bytes: &Vec<u8>) -> (r: Vec<String>)
        ensures
            final(self).offset == current_len,
            final(self).partial@ == pieces(old(self).partial@ + decoded(bytes@), '\n').last(),
            views(r@) == line_events(ended_lines(old(self).partial@ + decoded(bytes@))),
    {
        let more = decode_lossy(bytes);
        let mut text = self.partial.clone();
        text.push_str(&more);
        let ghost t = self.partial@ + more@;
        let mut parts = split(&text, '\n');
        let ghost p = pieces(t, '\n');
        assert(p =~= views(parts@));
        proof {
            lemma_pieces_nonempty(t, '\n');
        }
        let v = chars_of(&text);
        let ended = v.len() > 0 && v[v.len() - 1] == '\n';
        let mut next = String::new();
        if !ended {
            match parts.pop() {
                Some(last) => {
                    next = last;
                },
                None => {},
            }
        }
        assert(next@ =~= p.last());
        let mut lines: Vec<String> = Vec::new();
        let mut i: usize = 0;
        while i < parts.len()
            invariant
                i <= parts@.len() <= p.len(),
                lines@.len() == i,
                forall|j: int| 0 <= j < parts@.len() ==> (#[trigger] parts@[j])@ == p[j],
                forall|j: int|
                    0 <= j < i ==> (#[trigger] lines@[j])@ == without_trailing(p[j], '\r'),
            decreases parts@.len() - i,
        {
            lines.push(trim_end_char(&parts[i], '\r'));
            i = i + 1;
        }
        assert(views(lines@) =~= ended_lines(t));
        self.offset = current_len;
        self.partial = next;
        line_frames(&lines)
    }
}

/// A reply that begins a stream of the log.
pub open spec fn log_stream_reply() -> ReplyView {
    ReplyView {
        status: 200,
        headers: seq![
            ("Content-Type"@, "text/event-stream"@),
            ("Cache-Control"@, "no-cache"@),
            ("Connection"@, "keep-alive"@),
        ],
        body: Seq::empty(),
    }
}

/// The reply that begins a stream of the log. Its body follows event by event.
pub fn handle_logs_stream() -> (r: Reply)
    ensures
        r@ == log_stream_reply(),
{
    Reply::new(200, String::new()).header("Content-Type", "text/event-stream").header(
        "Cache-Control",
        "no-cache",
    ).header("Connection", "keep-alive")
}

/// Nothing that was read is lost: the ended lines and what is kept are the pieces of what
/// was kept and of what came, but for the `\r` at the ends of lines.
pub proof fn all_lines_are_accounted_for(text: Seq<char>)
    ensures
        text.len() == 0 || text.last() != '\n' ==> ended_lines(text).len() + 1 == pieces(
            text,
            '\n',
        ).len(),
        text.len() > 0 && text.last() == '\n' ==> ended_lines(text).len() == pieces(
            text,
            '\n',
        ).len() && pieces(text, '\n').last().len() == 0,
        forall|i: int|
            0 <= i < ended_lines(text).len() ==> #[trigger] ended_lines(text)[i]
                == without_trailing(pieces(text, '\n')[i], '\r'),
{
    lemma_pieces_nonempty(text, '\n');
    if text.len() > 0 {
        lemma_pieces_nonempty(text.drop_last(), '\n');
    }
}

/// Where the characters stand that are left of a text from `i` on.
proof fn lemma_stripped_places(s: Seq<char>, i: int) -> (places: Seq<int>)
    requires
        0 <= i <= s.len(),
    ensures
        picks(stripped_from(s, i), s, places),
        forall|k: int| 0 <= k < places.len() ==> #[trigger] places[k] >= i,
    decreases s.len() - i,
{
    if i >= s.len() {
        Seq::empty()
    } else {
        if i + 1 < s.len() {
            lemma_sequence_end(s, i + 2);
        }
        let next = step_end(s, i);
        let rest = lemma_stripped_places(s, next);
        if s[i] != '\u{1b}' {
            let places = seq![i] + rest;
            assert(picks(stripped_from(s, i), s, places)) by {
                let a = stripped_from(s, i);
                assert forall|k: int| 0 <= k < a.len() implies 0 <= #[trigger] places[k] < s.len()
                    && s[places[k]] == a[k] by {
                    if k > 0 {
                        assert(places[k] == rest[k - 1]);
                    }
                }
                assert forall|j: int, k: int| 0 <= j < k < a.len() implies #[trigger] places[j]
                    < #[trigger] places[k] by {
                    assert(places[k] == rest[k - 1]);
                    if j > 0 {
                        assert(places[j] == rest[j - 1]);
                    }
                }
            }
            places
        } else {
            rest
        }
    }
}

/// Nothing is added and nothing changes its place: a text without escape sequences is the
/// text without some of its characters.
pub proof fn escapes_are_only_taken_out(s: Seq<char>)
    ensures
        is_subsequence(stripped(s), s),
{
    let places = lemma_stripped_places(s, 0);
    assert(picks(stripped(s), s, places));
}

/// An escape sequence is taken out of a text, and what stands before and behind it stays.
pub proof fn escape_sequences_are_taken_out(
    a: Seq<char>,
    parameters: Seq<char>,
    letter: char,
    b: Seq<char>,
)
    requires
        !a.contains('\u{1b}'),
        !b.contains('\u{1b}'),
        is_letter(letter),
        forall|i: int| 0 <= i < parameters.len() ==> !is_letter(#[trigger] parameters[i]),
    ensures
        stripped(a + seq!['\u{1b}', '['] + parameters + seq![letter] + b) == a + b,
{
    let s = a + seq!['\u{1b}', '['] + parameters + seq![letter] + b;
    let n = a.len() as int;
    let e = n + 2 + parameters.len();
    assert(s[n] == '\u{1b}' && s[n + 1] == '[' && s[e] == letter);
    assert forall|i: int| n + 2 <= i < e implies !is_letter(#[trigger] s[i]) by {
        assert(s[i] == parameters[i - n - 2]);
    }
    lemma_sequence_ends_at(s, n + 2, e);
    assert forall|i: int| e < i < s.len() implies s[i] != '\u{1b}' by {
        assert(s[i] == b[i - e - 1]);
        assert(b.contains(b[i - e - 1]));
    }
    lemma_plain_run(s, e + 1, s.len() as int);
    assert(stripped_from(s, s.len() as int) =~= Seq::empty());
    assert(stripped_from(s, e + 1) =~= b) by {
        assert(s.subrange(e + 1, s.len() as int) =~= b);
    }
    assert(stripped_from(s, n) == stripped_from(s, e + 1));
    assert forall|i: int| 0 <= i < n implies s[i] != '\u{1b}' by {
        assert(s[i] == a[i]);
        assert(a.contains(a[i]));
    }
    lemma_plain_run(s, 0, n);
    assert(s.subrange(0, n) =~= a);
}

/// A sequence whose first letter stands at `e` ends behind it.
proof fn lemma_sequence_ends_at(s: Seq<char>, j: int, e: int)
    requires
        0 <= j <= e < s.len(),
        is_letter(s[e]),
        forall|i: int| j <= i < e ==> !is_letter(#[trigger] s[i]),
    ensures
        sequence_end(s, j) == e + 1,
    decreases e - j,
{
    if j < e {
        lemma_sequence_ends_at(s, j + 1, e);
    }
}

/// What holds no escape character stays.
proof fn lemma_plain_run(s: Seq<char>, i: int, e: int)
    requires
        0 <= i <= e <= s.len(),
        forall|k: int| i <= k < e ==> s[k] != '\u{1b}',
    ensures
        stripped_from(s, i) == s.subrange(i, e) + stripped_from(s, e),
    decreases e - i,
{
    if i < e {
        lemma_plain_run(s, i + 1, e);
        assert(s.subrange(i, e) =~= seq![s[i]] + s.subrange(i + 1, e));
        assert(stripped_from(s, i) =~= s.subrange(i, e) + stripped_from(s, e));
    } else {
        assert(s.subrange(i, e) + stripped_from(s, e) =~= stripped_from(s, e));
    }
}

/// Every line is sent as one event, in order: a line without escape sequences as it is.
pub proof fn every_line_is_sent(lines: Seq<Seq<char>>, i: int)
    requires
        0 <= i < lines.len(),
        !lines[i].contains('\u{1b}'),
    ensures
        line_events(lines).len() == lines.len(),
        line_events(lines)[i] == data_event(lines[i]),
{
    no_escape_is_left(lines[i]);
}

/// A stream begins with as many of the last lines as are asked for or there are; where there are
/// none, so much is said.
pub proof fn the_last_lines_are_shown(t: TailReader, count: nat)
    ensures
        t.tail().len() > 0 || t.before() > 0 ==> tail_lines(Some(t), count).len() == last_of(
            t.whole(),
            count,
        ).len() && forall|i: int|
            0 <= i < last_of(t.whole(), count).len() ==> #[trigger] tail_lines(Some(t), count)[i]
                == decoded(last_of(t.whole(), count)[i]),
        tail_lines(None, count).len() == 1,
{
}

} // verus!
