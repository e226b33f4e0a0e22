//! Reading a log file from its end, and keeping the newest lines.

use std::collections::VecDeque;

use vstd::prelude::*;

use crate::logs::{
    account_pattern, entry_says, first_group, request_pattern, without_codes, LogEntry,
};
use crate::text::{
    contains, decode_lossy, decoded, holds, lemma_pieces_join, lemma_pieces_nonempty, lines, pieces,
    trim_end, trimmed_end, views, without_end,
};

verus! {

/// How many log entries are kept.
pub const MAX_LOG_ENTRIES: usize = 1000;

/// `log` followed by `more`, the newest thousand of it.
pub open spec fn appended(log: Seq<LogEntry>, more: Seq<LogEntry>) -> Seq<LogEntry>
    decreases more.len(),
{
    if more.len() == 0 {
        log
    } else {
        let longer = appended(log, more.drop_last()).push(more.last());
        if longer.len() > MAX_LOG_ENTRIES {
            longer.subrange(1, longer.len() as int)
        } else {
            longer
        }
    }
}

/// Appends entries one by one, dropping the oldest where there are more than are kept.
pub fn append_entries(logs: &mut VecDeque<LogEntry>, new_entries: Vec<LogEntry>)
    ensures
        final(logs)@ == appended(old(logs)@, new_entries@),
{
    let ghost start = logs@;
    let ghost all = new_entries@;
    assert(all.take(0) =~= Seq::empty());
    for e in it: new_entries
        invariant
            it.seq() == all,
            logs@ == appended(start, all.take(it.index() as int)),
    {
        assert(all.take(it.index() + 1).drop_last() =~= all.take(it.index() as int));
        logs.push_back(e);
        if logs.len() > MAX_LOG_ENTRIES {
            let _ = logs.pop_front();
        }
        assert(logs@ =~= appended(start, all.take(it.index() + 1)));
    }
    assert(all.take(all.len() as int) =~= all);
}

/// What is kept is the newest of everything: where no more than a thousand were there, the
/// result is the end of the old entries followed by the new ones, a thousand at most.
pub proof fn the_newest_entries_are_kept(log: Seq<LogEntry>, more: Seq<LogEntry>)
    requires
        log.len() <= MAX_LOG_ENTRIES,
    ensures
        appended(log, more).len() <= MAX_LOG_ENTRIES,
        appended(log, more) == crate::usage::newest(log + more, 1000),
    decreases more.len(),
{
    if more.len() == 0 {
        assert(log + more =~= log);
    } else {
        let rest = more.drop_last();
        the_newest_entries_are_kept(log, rest);
        assert(log + more =~= (log + rest).push(more.last()));
        assert(appended(log, more) =~= crate::usage::newest(log + more, 1000));
    }
}


/// The size of the first piece in which a file is read from its end; each piece after it is
/// as long as what has been read.
pub const READ_CHUNK_SIZE: u64 = 65536;

/// The lines of a run of bytes.
pub open spec fn byte_lines(b: Seq<u8>) -> Seq<Seq<u8>> {
    lines(b, 10u8, 13u8)
}

/// The lines of the end of a file: all of them where it is the whole file, else all but the
/// first, which may have begun before it.
pub open spec fn whole_lines(tail: Seq<u8>, whole: bool) -> Seq<Seq<u8>> {
    let l = byte_lines(tail);
    if whole || l.len() == 0 {
        l
    } else {
        l.subrange(1, l.len() as int)
    }
}

/// The last of a list, `count` of them or all where there are fewer.
pub open spec fn last_of<T>(s: Seq<T>, count: nat) -> Seq<T> {
    if s.len() > count {
        s.subrange(s.len() - count, s.len() as int)
    } else {
        s
    }
}

/// Reads a file from its end until there are more than `limit` whole lines and, where that is
/// asked for, the line that says the server has started.
#[derive(Debug, Clone, PartialEq)]
pub struct TailReader {
    tail: Vec<u8>,
    remaining: u64,
    limit: usize,
    to_start: bool,
}

/// The pieces of a run of bytes between ends of line.
fn split_lines(b: &Vec<u8>) -> (r: Vec<Vec<u8>>)
    ensures
        Seq::new(r@.len(), |i: int| r@[i]@) == pieces(b@, 10u8),
        r@.len() > 0,
{
    let mut r: Vec<Vec<u8>> = Vec::new();
    let mut cur: Vec<u8> = Vec::new();
    let mut i: usize = 0;
    assert(Seq::new(r@.len(), |i: int| r@[i]@).push(cur@) =~= pieces(b@.take(0), 10u8));
    while i < b.len()
        invariant
            i <= b@.len(),
            Seq::new(r@.len(), |i: int| r@[i]@).push(cur@) == pieces(b@.take(i as int), 10u8),
        decreases b@.len() - i,
    {
        let c = b[i];
        let ghost done = Seq::new(r@.len(), |i: int| r@[i]@);
        let ghost before = done.push(cur@);
        assert(b@.take(i + 1).drop_last() =~= b@.take(i as int));
        if c == 10u8 {
            r.push(cur);
            cur = Vec::new();
            assert(Seq::new(r@.len(), |i: int| r@[i]@) =~= before);
            assert(cur@ =~= Seq::empty());
        } else {
            cur.push(c);
            assert(Seq::new(r@.len(), |i: int| r@[i]@).push(cur@) =~= before.update(
                before.len() - 1,
                before.last().push(c),
            ));
        }
        i = i + 1;
    }
    assert(b@.take(b@.len() as int) =~= b@);
    let ghost all = Seq::new(r@.len(), |i: int| r@[i]@).push(cur@);
    r.push(cur);
    assert(Seq::new(r@.len(), |i: int| r@[i]@) =~= all);
    r
}

/// The lines of a run of bytes.
fn split_byte_lines(b: &Vec<u8>) -> (r: Vec<Vec<u8>>)
    ensures
        Seq::new(r@.len(), |i: int| r@[i]@) == byte_lines(b@),
{
    let mut parts = split_lines(b);
    let ghost p = pieces(b@, 10u8);
    assert(p =~= Seq::new(parts@.len(), |i: int| parts@[i]@));
    let n: usize = parts.len();
    let last = match parts.pop() {
        Some(l) => l,
        None => Vec::new(),
    };
    let mut r: Vec<Vec<u8>> = Vec::new();
    let mut i: usize = 0;
    while i < parts.len()
        invariant
            i <= parts@.len(),
            parts@.len() == p.len() - 1,
            forall|j: int| 0 <= j < parts@.len() ==> (#[trigger] parts@[j])@ == p[j],
            Seq::new(r@.len(), |i: int| r@[i]@) == Seq::new(
                i as nat,
                |j: int| without_end(p[j], 13u8),
            ),
        decreases parts@.len() - i,
    {
        let mut line: Vec<u8> = Vec::new();
        let len: usize = parts[i].len();
        let keep: usize = if len > 0 && parts[i][len - 1] == 13u8 {
            len - 1
        } else {
            len
        };
        let mut k: usize = 0;
        while k < keep
            invariant
                k <= keep <= parts@[i as int]@.len(),
                i < parts@.len(),
                line@ == parts@[i as int]@.take(k as int),
            decreases keep - k,
        {
            line.push(parts[i][k]);
            k = k + 1;
            assert(line@ =~= parts@[i as int]@.take(k as int));
        }
        assert(line@ =~= without_end(p[i as int], 13u8));
        let ghost before = Seq::new(r@.len(), |i: int| r@[i]@);
        r.push(line);
        assert(Seq::new(r@.len(), |i: int| r@[i]@) =~= before.push(without_end(p[i as int], 13u8)));
        i = i + 1;
        assert(Seq::new(r@.len(), |i: int| r@[i]@) =~= Seq::new(
            i as nat,
            |j: int| without_end(p[j], 13u8),
        ));
    }
    if last.len() > 0 {
        let ghost before = Seq::new(r@.len(), |i: int| r@[i]@);
        r.push(last);
        assert(Seq::new(r@.len(), |i: int| r@[i]@) =~= before.push(p.last()));
    }
    r
}

impl TailReader {
    /// The bytes read, the end of the file.
    pub closed spec fn tail(&self) -> Seq<u8> {
        self.tail@
    }

    /// How many bytes of the file come before them.
    pub closed spec fn before(&self) -> u64 {
        self.remaining
    }

    /// How many whole lines are enough.
    pub closed spec fn enough(&self) -> usize {
        self.limit
    }

    /// Whether the line that says the server has started is looked for.
    pub closed spec fn seeks_start(&self) -> bool {
        self.to_start
    }

    /// Whether nothing more is to be read: the whole file has been, or all that is looked
    /// for is there.
    pub open spec fn is_done(&self) -> bool {
        let l = whole_lines(self.tail(), false);
        self.before() == 0 || l.len() > self.enough() && (self.seeks_start() ==> last_start(
            l,
        ) is Some)
    }

    /// The whole lines among the bytes read.
    pub open spec fn whole(&self) -> Seq<Seq<u8>> {
        whole_lines(self.tail(), self.before() == 0)
    }

    /// Nothing read yet of a file of `file_len` bytes.
    pub fn new(file_len: u64, limit: usize, to_start: bool) -> (r: TailReader)
        ensures
            r.tail().len() == 0,
            r.before() == file_len,
            r.enough() == limit,
            r.seeks_start() == to_start,
    {
        TailReader { tail: Vec::new(), remaining: file_len, limit, to_start }
    }

    /// The whole lines read.
    fn lines(&self) -> (r: Vec<Vec<u8>>)
        ensures
            Seq::new(r@.len(), |i: int| r@[i]@) == self.whole(),
    {
        let mut r = split_byte_lines(&self.tail);
        if self.remaining > 0 && r.len() > 0 {
            let ghost all = Seq::new(r@.len(), |i: int| r@[i]@);
            let _ = r.remove(0);
            assert(Seq::new(r@.len(), |i: int| r@[i]@) =~= all.subrange(1, all.len() as int));
        }
        r
    }

    /// What to read next: an offset and a number of bytes, which double what has been read
    /// or are the first chunk; `None` once nothing more is to be read.
    pub fn next_read(&self) -> (r: Option<(u64, u64)>)
        ensures
            r == (if self.is_done() {
                None::<(u64, u64)>
            } else {
                let size = if self.tail().len() < READ_CHUNK_SIZE {
                    READ_CHUNK_SIZE as int
                } else {
                    self.tail().len() as int
                };
                if self.before() < size {
                    Some((0u64, self.before()))
                } else {
                    Some(((self.before() - size) as u64, size as u64))
                }
            }),
    {
        if self.remaining == 0 {
            return None;
        }
        let lines = self.lines();
        assert(Seq::new(lines@.len(), |i: int| lines@[i]@).len() == lines@.len());
        if lines.len() > self.limit && (!self.to_start || self.server_start_line().is_some()) {
            return None;
        }
        let read: u64 = self.tail.len() as u64;
        let size: u64 = if read < READ_CHUNK_SIZE {
            READ_CHUNK_SIZE
        } else {
            read
        };
        if self.remaining < size {
            Some((0, self.remaining))
        } else {
            Some((self.remaining - size, size))
        }
    }

    /// Takes the bytes that come just before those read so far.
    pub fn feed(&mut self, chunk: Vec<u8>)
        requires
            chunk@.len() <= old(self).before(),
        ensures
            final(self).tail() == chunk@ + old(self).tail(),
            final(self).before() == old(self).before() - chunk@.len(),
            final(self).enough() == old(self).enough(),
            final(self).seeks_start() == old(self).seeks_start(),
    {
        let n: usize = chunk.len();
        let mut joined = chunk;
        joined.append(&mut self.tail);
        self.tail = joined;
        self.remaining = self.remaining - n as u64;
    }

    /// Whether there is nothing in the file at all.
    pub fn is_of_empty_file(&self) -> (r: bool)
        ensures
            r == (self.tail().len() == 0 && self.before() == 0),
    {
        self.tail.len() == 0 && self.remaining == 0
    }

    /// The last lines read, `count` of them or all where there are fewer, as text.
    pub fn last_lines(&self, count: usize) -> (r: Vec<String>)
        ensures
            views(r@) == Seq::new(
                last_of(self.whole(), count as nat).len(),
                |i: int|
                    decoded(
                        last_of(self.whole(), count as nat)[i],
                    ),
            ),
    {
        let lines = self.lines();
        let ghost all = self.whole();
        assert(all =~= Seq::new(lines@.len(), |i: int| lines@[i]@));
        let start: usize = if lines.len() > count {
            lines.len() - count
        } else {
            0
        };
        let mut r: Vec<String> = Vec::new();
        let mut i: usize = start;
        while i < lines.len()
            invariant
                start <= i <= lines@.len(),
                all == Seq::new(lines@.len(), |i: int| lines@[i]@),
                views(r@) == Seq::new((i - start) as nat, |j: int| decoded(all[start + j])),
            decreases lines@.len() - i,
        {
            let ghost before = views(r@);
            r.push(decode_lossy(&lines[i]));
            assert(views(r@) =~= before.push(decoded(all[i as int])));
            i = i + 1;
            assert(views(r@) =~= Seq::new((i - start) as nat, |j: int| decoded(all[start + j])));
        }
        assert(views(r@) =~= Seq::new(
            last_of(all, count as nat).len(),
            |i: int| decoded(last_of(all, count as nat)[i]),
        ));
        r
    }

    /// The last line read that says the server has started.
    pub fn server_start_line(&self) -> (r: Option<String>)
        ensures
            match r {
                Some(t) => last_start(self.whole()) matches Some(line) && t@ == decoded(line),
                None => last_start(self.whole()) is None,
            },
    {
        let lines = self.lines();
        let ghost all = self.whole();
        assert(all =~= Seq::new(lines@.len(), |i: int| lines@[i]@));
        let mut i: usize = lines.len();
        assert(all.take(i as int) =~= all);
        while i > 0
            invariant
                i <= lines@.len(),
                all == Seq::new(lines@.len(), |i: int| lines@[i]@),
                all == self.whole(),
                last_start(all) == last_start(all.take(i as int)),
            decreases i,
        {
            assert(all.take(i as int).drop_last() =~= all.take(i - 1));
            i = i - 1;
            let text = decode_lossy(&lines[i]);
            assert(all[i as int] == lines@[i as int]@);
            if contains(&text, "Server listening") {
                return Some(text);
            }
        }
        None
    }
}

/// Whether a line says that the server has started.
pub open spec fn says_start(line: Seq<u8>) -> bool {
    holds(decoded(line), "Server listening"@)
}

/// The last line that says so; `None` where none does.
pub open spec fn last_start(lines: Seq<Seq<u8>>) -> Option<Seq<u8>>
    decreases lines.len(),
{
    if lines.len() == 0 {
        None
    } else if says_start(lines.last()) {
        Some(lines.last())
    } else {
        last_start(lines.drop_last())
    }
}

/// A start in the end of a list is the last one of the list.
proof fn lemma_start_in_end(lines: Seq<Seq<u8>>, skip: int)
    requires
        0 <= skip <= lines.len(),
        last_start(lines.subrange(skip, lines.len() as int)) is Some,
    ensures
        last_start(lines) == last_start(lines.subrange(skip, lines.len() as int)),
    decreases lines.len(),
{
    let end = lines.subrange(skip, lines.len() as int);
    assert(end.last() == lines.last());
    if !says_start(lines.last()) {
        let rest = lines.drop_last();
        assert(end.drop_last() =~= rest.subrange(skip, rest.len() as int));
        lemma_start_in_end(rest, skip);
    }
}

/// The whole lines of the end of a file are the last lines of the file.
proof fn lemma_whole_lines_are_last(head: Seq<u8>, tail: Seq<u8>)
    requires
        head.len() > 0,
    ensures
        ({
            let part = whole_lines(tail, false);
            let all = byte_lines(head + tail);
            part.len() <= all.len() && part == all.subrange(
                all.len() - part.len(),
                all.len() as int,
            )
        }),
{
    lemma_pieces_join(head, tail, 10u8);
    lemma_pieces_nonempty(head, 10u8);
    lemma_pieces_nonempty(tail, 10u8);
    let p = pieces(head, 10u8);
    let t = pieces(tail, 10u8);
    let f = pieces(head + tail, 10u8);
    let part = whole_lines(tail, false);
    let all = byte_lines(head + tail);
    assert(f.len() == p.len() - 1 + t.len());
    assert(forall|i: int| 1 <= i < t.len() ==> f[p.len() - 1 + i] == #[trigger] t[i]);
    if t.len() == 1 {
        assert(part.len() == 0);
        assert(part =~= all.subrange(all.len() as int, all.len() as int));
    } else {
        assert(f.last() == t.last());
        let skip = all.len() - part.len();
        assert forall|i: int| 0 <= i < part.len() implies #[trigger] part[i] == all[skip + i] by {
            assert(byte_lines(tail)[i + 1] == part[i]);
            assert(skip == p.len());
            assert(f[p.len() - 1 + (i + 1)] == t[i + 1]);
        }
        assert(part =~= all.subrange(skip, all.len() as int));
    }
}

/// Once a reader is done, what it says is what the file says: its last lines are the last
/// lines of the file, and its last start of the server, where it looks for one, is the last
/// in the file.
pub proof fn a_reader_that_is_done_knows_the_file(
    reader: TailReader,
    head: Seq<u8>,
    count: nat,
)
    requires
        reader.is_done(),
        reader.before() == head.len(),
        count <= reader.enough(),
    ensures
        last_of(reader.whole(), count) == last_of(byte_lines(head + reader.tail()), count),
        reader.seeks_start() ==> last_start(reader.whole()) == last_start(
            byte_lines(head + reader.tail()),
        ),
{
    the_tail_holds_the_last_lines(head, reader.tail(), count);
    if head.len() == 0 {
        assert(head + reader.tail() =~= reader.tail());
    } else if reader.seeks_start() {
        let all = byte_lines(head + reader.tail());
        lemma_whole_lines_are_last(head, reader.tail());
        lemma_start_in_end(all, all.len() - reader.whole().len());
    }
}

/// The lines of the end of a file are the end of the lines of the file: reading from the
/// end gives the last lines of the whole file once there are as many of them.
pub proof fn the_tail_holds_the_last_lines(head: Seq<u8>, tail: Seq<u8>, count: nat)
    requires
        head.len() == 0 || whole_lines(tail, false).len() >= count,
    ensures
        last_of(whole_lines(tail, head.len() == 0), count) == last_of(
            byte_lines(head + tail),
            count,
        ),
{
    if head.len() == 0 {
        assert(head + tail =~= tail);
    } else {
        lemma_whole_lines_are_last(head, tail);
        assert(last_of(whole_lines(tail, false), count) =~= last_of(
            byte_lines(head + tail),
            count,
        ));
    }
}

/// Whether an entry is what `LogEntry::new` reads from a line.
pub open spec fn is_entry_of(e: LogEntry, line: Seq<char>) -> bool {
    entry_says(
        e,
        without_codes(line),
        first_group(request_pattern(), without_codes(line)),
        first_group(account_pattern(), without_codes(line)),
    )
}

/// The entries of a list of lines, in order.
pub fn entries_of(lines: Vec<String>) -> (r: VecDeque<LogEntry>)
    ensures
        r@.len() == lines@.len(),
        forall|i: int| 0 <= i < r@.len() ==> is_entry_of(#[trigger] r@[i], lines@[i]@),
{
    let mut r: VecDeque<LogEntry> = VecDeque::new();
    let ghost all = lines@;
    for line in it: lines
        invariant
            it.seq() == all,
            r@.len() == it.index(),
            forall|i: int| 0 <= i < r@.len() ==> is_entry_of(#[trigger] r@[i], all[i]@),
    {
        r.push_back(LogEntry::new(line));
    }
    r
}

/// The entry of a line as it was read from a growing file, with its end of line: `None`
/// where it is blank.
pub fn tailed_entry(line: &str) -> (r: Option<LogEntry>)
    ensures
        match r {
            Some(e) => trimmed_end(line@).len() > 0 && is_entry_of(e, trimmed_end(line@)),
            None => trimmed_end(line@).len() == 0,
        },
{
    let t = trim_end(line);
    if t.as_str().is_empty() {
        None
    } else {
        Some(LogEntry::new(t))
    }
}

/// The lines that were read of a growing file, without the white space at their ends and
/// without those that are blank.
pub open spec fn tailed(lines: Seq<Seq<char>>) -> Seq<Seq<char>>
    decreases lines.len(),
{
    if lines.len() == 0 {
        Seq::empty()
    } else {
        let before = tailed(lines.drop_last());
        let t = trimmed_end(lines.last());
        if t.len() > 0 {
            before.push(t)
        } else {
            before
        }
    }
}

/// The entries of the lines that were read of a growing file.
pub fn read_new_lines(lines: &Vec<String>) -> (r: Vec<LogEntry>)
    ensures
        r@.len() == tailed(views(lines@)).len(),
        forall|i: int|
            0 <= i < r@.len() ==> is_entry_of(#[trigger] r@[i], tailed(views(lines@))[i]),
{
    let ghost all = views(lines@);
    let mut r: Vec<LogEntry> = Vec::new();
    let mut i: usize = 0;
    assert(all.take(0) =~= Seq::empty());
    while i < lines.len()
        invariant
            i <= lines@.len(),
            all == views(lines@),
            r@.len() == tailed(all.take(i as int)).len(),
            forall|k: int|
                0 <= k < r@.len() ==> is_entry_of(#[trigger] r@[k], tailed(all.take(i as int))[k]),
        decreases lines@.len() - i,
    {
        let ghost before = tailed(all.take(i as int));
        let ghost had = r@;
        assert(all.take(i + 1).drop_last() =~= all.take(i as int));
        assert(all.take(i + 1).last() == lines@[i as int]@);
        match tailed_entry(&lines[i]) {
            Some(e) => {
                r.push(e);
            },
            None => {},
        }
        assert forall|k: int| 0 <= k < r@.len() implies is_entry_of(
            #[trigger] r@[k],
            tailed(all.take(i + 1))[k],
        ) by {
            if k < had.len() {
                assert(r@[k] == had[k]);
                assert(tailed(all.take(i + 1))[k] == before[k]);
            }
        }
        i = i + 1;
    }
    assert(all.take(all.len() as int) =~= all);
    r
}

/// The lines of a growing file are read one by one, in order: each without the white space at
/// its end, and none that is blank.
pub proof fn new_lines_are_read_one_by_one(a: Seq<Seq<char>>, b: Seq<Seq<char>>, x: Seq<char>)
    ensures
        tailed(a + b) == tailed(a) + tailed(b),
        tailed(seq![x]) == (if trimmed_end(x).len() > 0 {
            seq![trimmed_end(x)]
        } else {
            Seq::empty()
        }),
    decreases b.len(),
{
    let none = seq![x].drop_last();
    assert(none.len() == 0);
    assert(tailed(none) =~= Seq::empty());
    assert(seq![x].last() == x);
    assert(tailed(seq![x]) =~= (if trimmed_end(x).len() > 0 {
        seq![trimmed_end(x)]
    } else {
        Seq::empty()
    }));
    if b.len() == 0 {
        assert(a + b =~= a);
    } else {
        assert((a + b).drop_last() =~= a + b.drop_last());
        new_lines_are_read_one_by_one(a, b.drop_last(), x);
    }
    assert(tailed(a + b) =~= tailed(a) + tailed(b));
}

/// The last lines are the end of the list, in order, as many as are asked for or there are.
pub proof fn the_last_lines_are_the_end<T>(s: Seq<T>, count: nat)
    ensures
        last_of(s, count).len() == (if s.len() < count {
            s.len()
        } else {
            count
        }),
        forall|i: int|
            0 <= i < last_of(s, count).len() ==> #[trigger] last_of(s, count)[i] == s[s.len()
                - last_of(s, count).len() + i],
{
}

} // verus!
