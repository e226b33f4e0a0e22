//! Log lines with their parts told apart by colour.

use vstd::prelude::*;

use crate::logs::LogLevel;
use crate::spans::{
    bold, bold_tone, lemma_text_of_both, line_view, no_spans, piece, plain, put, put_str,
    text_of_line, tone, Hue, Span, SpanView, Tone,
};
use crate::text::{
    chars_of, find_chars, find_next, first_at, first_at_is_first, next_of, next_of_is_next, number,
    occurs_at, parse_number, same, starts, starts_with, text_between,
};

verus! {

/// How a value looks, by its key and by what it is.
pub open spec fn value_tone(key: Seq<char>, value: Seq<char>) -> Tone {
    if key == "model"@ {
        bold(Hue::Magenta)
    } else if key == "status"@ {
        plain(
            if starts(value, "2"@) {
                Hue::Green
            } else if starts(value, "4"@) {
                Hue::Yellow
            } else if starts(value, "5"@) {
                Hue::Red
            } else {
                Hue::Text
            },
        )
    } else if key == "method"@ {
        bold(Hue::Blue)
    } else if key == "path"@ {
        plain(Hue::White)
    } else if key == "duration_ms"@ {
        plain(
            match number(value, u64::MAX as nat) {
                Some(ms) => if ms < 1000 {
                    Hue::Green
                } else if ms < 5000 {
                    Hue::Yellow
                } else {
                    Hue::Red
                },
                None => Hue::Text,
            },
        )
    } else if key == "request_id"@ || key == "agent"@ {
        plain(Hue::DarkGray)
    } else if key == "address"@ || key == "port"@ {
        plain(Hue::Cyan)
    } else if key == "account"@ {
        plain(Hue::Magenta)
    } else if key == "error"@ {
        plain(Hue::Red)
    } else {
        plain(Hue::Text)
    }
}

/// How a value looks, by its key and by what it is.
pub fn get_value_style(key: &str, value: &str) -> (r: Tone)
    ensures
        r == value_tone(key@, value@),
{
    if same(key, "model") {
        bold_tone(Hue::Magenta)
    } else if same(key, "status") {
        if starts_with(value, "2") {
            tone(Hue::Green)
        } else if starts_with(value, "4") {
            tone(Hue::Yellow)
        } else if starts_with(value, "5") {
            tone(Hue::Red)
        } else {
            tone(Hue::Text)
        }
    } else if same(key, "method") {
        bold_tone(Hue::Blue)
    } else if same(key, "path") {
        tone(Hue::White)
    } else if same(key, "duration_ms") {
        match parse_number(value) {
            Some(ms) => {
                if ms < 1000 {
                    tone(Hue::Green)
                } else if ms < 5000 {
                    tone(Hue::Yellow)
                } else {
                    tone(Hue::Red)
                }
            },
            None => tone(Hue::Text),
        }
    } else if same(key, "request_id") || same(key, "agent") {
        tone(Hue::DarkGray)
    } else if same(key, "address") || same(key, "port") {
        tone(Hue::Cyan)
    } else if same(key, "account") {
        tone(Hue::Magenta)
    } else if same(key, "error") {
        tone(Hue::Red)
    } else {
        tone(Hue::Text)
    }
}

/// Where the word that ends at `e` begins: behind the last space from `start` on, or at
/// `start`.
pub open spec fn word_start(s: Seq<char>, start: int, e: int) -> int
    decreases e - start,
{
    if e <= start {
        start
    } else if s[e - 1] == ' ' {
        e
    } else {
        word_start(s, start, e - 1)
    }
}

proof fn lemma_word_start(s: Seq<char>, start: int, e: int)
    requires
        start <= e,
    ensures
        start <= word_start(s, start, e) <= e,
    decreases e - start,
{
    if e > start && s[e - 1] != ' ' {
        lemma_word_start(s, start, e - 1);
    }
}

/// Where the word that ends at `e` begins.
fn find_word_start(v: &[char], start: usize, e: usize) -> (r: usize)
    requires
        start <= e <= v@.len(),
    ensures
        r == word_start(v@, start as int, e as int),
        start <= r <= e,
{
    let mut k: usize = e;
    while k > start && v[k - 1] != ' '
        invariant
            start <= k <= e <= v@.len(),
            word_start(v@, start as int, e as int) == word_start(v@, start as int, k as int),
        decreases k - start,
    {
        k = k - 1;
    }
    k
}

/// The spans of a text from `start` on: `key=value` pairs, with their parts told apart, and
/// the text between them. A pair whose equals sign ends the text is none.
pub open spec fn pairs(s: Seq<char>, start: int) -> Seq<SpanView>
    decreases s.len() - start,
{
    if start < 0 || start >= s.len() {
        Seq::empty()
    } else {
        let e = next_of(s, '=', start);
        proof {
            next_of_is_next(s, '=', start);
            next_of_is_next(
                s,
                ' ',
                if e + 1 <= s.len() {
                    e + 1
                } else {
                    s.len() as int
                },
            );
        }
        if e + 1 >= s.len() {
            seq![piece(s.subrange(start, s.len() as int), plain(Hue::Text))]
        } else {
            let k = word_start(s, start, e);
            let before = if k > start {
                seq![piece(s.subrange(start, k), plain(Hue::Text))]
            } else {
                Seq::empty()
            };
            let v = next_of(s, ' ', e + 1);
            let key = s.subrange(k, e);
            let value = s.subrange(e + 1, v);
            let pair = seq![
                piece(key, plain(Hue::Cyan)),
                piece("="@, plain(Hue::DarkGray)),
                piece(value, value_tone(key, value)),
            ];
            if v < s.len() {
                before + pair + seq![piece(" "@, plain(Hue::Plain))] + pairs(s, v + 1)
            } else {
                before + pair
            }
        }
    }
}

/// Adds the spans of a text to a line.
pub fn parse_key_value_pairs(text: &str, spans: &mut Vec<Span>)
    ensures
        line_view(final(spans)@) == line_view(old(spans)@) + pairs(text@, 0),
{
    let v = chars_of(text);
    let ghost first = line_view(spans@);
    let n: usize = v.len();
    let mut start: usize = 0;
    assert(first + pairs(v@, 0) =~= first + pairs(text@, 0));
    while start < n
        invariant
            start <= n == v@.len(),
            v@ == text@,
            line_view(spans@) + pairs(v@, start as int) == first + pairs(text@, 0),
        decreases n - start,
    {
        let ghost before = line_view(spans@);
        let ghost rest = pairs(v@, start as int);
        let e = find_next(&v, '=', start);
        if e >= n || e + 1 == n {
            put(spans, text_between(&v, start, n), tone(Hue::Text));
            assert(line_view(spans@) =~= before + rest);
            start = n;
            assert(line_view(spans@) + pairs(v@, start as int) =~= line_view(spans@));
        } else {
            let k = find_word_start(&v, start, e);
            if k > start {
                put(spans, text_between(&v, start, k), tone(Hue::Text));
            }
            let end = find_next(&v, ' ', e + 1);
            let key = text_between(&v, k, e);
            let value = text_between(&v, e + 1, end);
            let look = get_value_style(&key, &value);
            put(spans, key, tone(Hue::Cyan));
            put_str(spans, "=", tone(Hue::DarkGray));
            put(spans, value, look);
            if end < n {
                put_str(spans, " ", tone(Hue::Plain));
                start = end + 1;
                assert(line_view(spans@) + pairs(v@, start as int) =~= before + rest);
            } else {
                start = n;
                assert(line_view(spans@) =~= before + rest);
                assert(line_view(spans@) + pairs(v@, start as int) =~= line_view(spans@));
            }
        }
    }
    assert(line_view(spans@) + pairs(v@, start as int) =~= line_view(spans@));
}

proof fn lemma_one(a: SpanView)
    ensures
        text_of_line(seq![a]) == a.text,
{
    reveal_with_fuel(text_of_line, 2);
    assert(seq![a].drop_last() =~= Seq::empty());
    assert(text_of_line(seq![a]) =~= a.text);
}

proof fn lemma_pair(a: SpanView, b: SpanView, c: SpanView)
    ensures
        text_of_line(seq![a, b, c]) == a.text + b.text + c.text,
{
    assert(seq![a, b, c].drop_last() =~= seq![a, b]);
    assert(seq![a, b].drop_last() =~= seq![a]);
    lemma_one(a);
    assert(text_of_line(seq![a, b]) == a.text + b.text);
}

proof fn lemma_pairs_text(s: Seq<char>, start: int)
    requires
        0 <= start <= s.len(),
    ensures
        text_of_line(pairs(s, start)) == s.subrange(start, s.len() as int),
    decreases s.len() - start,
{
    if start >= s.len() {
        assert(s.subrange(start, s.len() as int) =~= Seq::empty());
    } else {
        let e = next_of(s, '=', start);
        next_of_is_next(s, '=', start);
        if e + 1 >= s.len() {
            lemma_one(piece(s.subrange(start, s.len() as int), plain(Hue::Text)));
        } else {
            let k = word_start(s, start, e);
            lemma_word_start(s, start, e);
            let v = next_of(s, ' ', e + 1);
            next_of_is_next(s, ' ', e + 1);
            let key = s.subrange(k, e);
            let value = s.subrange(e + 1, v);
            let head = if k > start {
                seq![piece(s.subrange(start, k), plain(Hue::Text))]
            } else {
                Seq::empty()
            };
            let a = piece(key, plain(Hue::Cyan));
            let b = piece("="@, plain(Hue::DarkGray));
            let c = piece(value, value_tone(key, value));
            if k > start {
                lemma_one(piece(s.subrange(start, k), plain(Hue::Text)));
            }
            assert(text_of_line(head) =~= s.subrange(start, k));
            lemma_pair(a, b, c);
            lemma_text_of_both(head, seq![a, b, c]);
            reveal_strlit("=");
            reveal_strlit(" ");
            let both = head + seq![a, b, c];
            assert(text_of_line(both) =~= s.subrange(start, v));
            if v < s.len() {
                let gap = piece(" "@, plain(Hue::Plain));
                lemma_one(gap);
                lemma_text_of_both(both, seq![gap]);
                lemma_text_of_both(both + seq![gap], pairs(s, v + 1));
                lemma_pairs_text(s, v + 1);
                assert(text_of_line(both + seq![gap]) =~= s.subrange(start, v + 1));
                assert(text_of_line(pairs(s, start)) =~= s.subrange(start, s.len() as int));
            }
        }
    }
}

/// Telling the parts of a text apart loses and adds nothing.
pub proof fn pairs_keep_the_text(s: Seq<char>)
    ensures
        text_of_line(pairs(s, 0)) == s,
{
    lemma_pairs_text(s, 0);
    assert(s.subrange(0, s.len() as int) =~= s);
}

/// The words that a level is found by, in the order in which they are looked for.
pub open spec fn level_words() -> Seq<Seq<char>> {
    seq![
        " INFO "@,
        "INFO "@,
        " WARN "@,
        "WARN "@,
        " ERROR "@,
        "ERROR "@,
        " DEBUG "@,
        "DEBUG "@,
    ]
}

/// Where the level stands in a line, from the words from the `i`th on: the first that occurs
/// decides, without the space before it.
pub open spec fn level_pos(line: Seq<char>, i: int) -> Option<int>
    decreases level_words().len() - i,
{
    if i < 0 || i >= level_words().len() {
        None
    } else {
        match first_at(line, level_words()[i], 0) {
            Some(p) => Some(
                if i % 2 == 0 {
                    p + 1
                } else {
                    p
                },
            ),
            None => level_pos(line, i + 1),
        }
    }
}

/// Where a word stands in a line.
fn find_word(v: &[char], word: &str) -> (r: Option<usize>)
    requires
        word@.len() > 0,
    ensures
        match r {
            Some(i) => first_at(v@, word@, 0) == Some(i as int) && i + word@.len() <= v@.len(),
            None => first_at(v@, word@, 0) is None,
        },
{
    let w = chars_of(word);
    proof {
        first_at_is_first(v@, w@, 0);
    }
    let r = find_chars(v, &w, 0);
    proof {
        match r {
            Some(i) => {
                match first_at(v@, w@, 0) {
                    Some(k) => {
                        if k < i {
                            assert(!occurs_at(v@, w@, k));
                        }
                        if i < k {
                            assert(!occurs_at(v@, w@, i as int));
                        }
                    },
                    None => {
                        assert(!occurs_at(v@, w@, i as int));
                    },
                }
            },
            None => {
                match first_at(v@, w@, 0) {
                    Some(k) => {
                        assert(!occurs_at(v@, w@, k));
                    },
                    None => {},
                }
            },
        }
    }
    r
}

proof fn lemma_word_lengths()
    ensures
        " INFO "@.len() == 6,
        "INFO "@.len() == 5,
        " WARN "@.len() == 6,
        "WARN "@.len() == 5,
        " ERROR "@.len() == 7,
        "ERROR "@.len() == 6,
        " DEBUG "@.len() == 7,
        "DEBUG "@.len() == 6,
{
    reveal_strlit(" INFO ");
    reveal_strlit("INFO ");
    reveal_strlit(" WARN ");
    reveal_strlit("WARN ");
    reveal_strlit(" ERROR ");
    reveal_strlit("ERROR ");
    reveal_strlit(" DEBUG ");
    reveal_strlit("DEBUG ");
}

/// Where the level stands in a line, from the words of one level on.
fn find_level_word(v: &[char], spaced: &str, bare: &str) -> (r: Option<usize>)
    requires
        spaced@.len() > 1,
        bare@.len() > 0,
    ensures
        match r {
            Some(i) => (first_at(v@, spaced@, 0) == Some(i - 1) || (first_at(v@, spaced@, 0) is None
                && first_at(v@, bare@, 0) == Some(i as int))) && i <= v@.len(),
            None => first_at(v@, spaced@, 0) is None && first_at(v@, bare@, 0) is None,
        },
{
    let n: usize = v.len();
    match find_word(v, spaced) {
        Some(p) => {
            assert(p < n);
            Some(p + 1)
        },
        None => find_word(v, bare),
    }
}

/// Where the level stands in a line.
fn find_log_level_pos(v: &[char]) -> (r: Option<usize>)
    ensures
        match r {
            Some(i) => level_pos(v@, 0) == Some(i as int) && i <= v@.len(),
            None => level_pos(v@, 0) is None,
        },
{
    proof {
        lemma_word_lengths();
        reveal_with_fuel(level_pos, 9);
    }
    match find_level_word(v, " INFO ", "INFO ") {
        Some(i) => {
            return Some(i);
        },
        None => {},
    }
    match find_level_word(v, " WARN ", "WARN ") {
        Some(i) => {
            return Some(i);
        },
        None => {},
    }
    match find_level_word(v, " ERROR ", "ERROR ") {
        Some(i) => {
            return Some(i);
        },
        None => {},
    }
    find_level_word(v, " DEBUG ", "DEBUG ")
}

/// How a level looks.
pub open spec fn level_tone(level: LogLevel) -> Tone {
    match level {
        LogLevel::Debug => plain(Hue::DarkGray),
        LogLevel::Info => plain(Hue::Green),
        LogLevel::Warn => bold(Hue::Yellow),
        LogLevel::Error => bold(Hue::Red),
    }
}

/// The spans of a line: its time, where its level is found; the word behind that, with the
/// look of its level; and the rest.
pub open spec fn highlighted(line: Seq<char>, level: LogLevel) -> Seq<SpanView> {
    let at = match level_pos(line, 0) {
        Some(p) => p,
        None => 0,
    };
    let time = if level_pos(line, 0) is Some {
        seq![piece(line.take(at), plain(Hue::Dim))]
    } else {
        Seq::empty()
    };
    let rest = line.subrange(at, line.len() as int);
    let end = next_of(rest, ' ', 0);
    if end < rest.len() {
        time + seq![piece(rest.take(end), level_tone(level))] + pairs(
            rest.subrange(end, rest.len() as int),
            0,
        )
    } else {
        time + pairs(rest, 0)
    }
}

/// The spans of a line.
pub fn highlight_log_line(line: &str, level: LogLevel) -> (r: Vec<Span>)
    ensures
        line_view(r@) == highlighted(line@, level),
{
    let v = chars_of(line);
    let n: usize = v.len();
    let mut r = no_spans();
    let mut at: usize = 0;
    match find_log_level_pos(&v) {
        Some(p) => {
            let t = text_between(&v, 0, p);
            assert(t@ =~= line@.take(p as int));
            put(&mut r, t, tone(Hue::Dim));
            at = p;
        },
        None => {},
    }
    let ghost time = line_view(r@);
    let rest = text_between(&v, at, n);
    let w = chars_of(&rest);
    let end = find_next(&w, ' ', 0);
    let look = match level {
        LogLevel::Debug => tone(Hue::DarkGray),
        LogLevel::Info => tone(Hue::Green),
        LogLevel::Warn => bold_tone(Hue::Yellow),
        LogLevel::Error => bold_tone(Hue::Red),
    };
    if end < w.len() {
        let word = text_between(&w, 0, end);
        assert(word@ =~= rest@.take(end as int));
        put(&mut r, word, look);
        let tail = text_between(&w, end, w.len());
        parse_key_value_pairs(&tail, &mut r);
    } else {
        parse_key_value_pairs(&rest, &mut r);
    }
    assert(line_view(r@) =~= highlighted(line@, level));
    r
}

proof fn lemma_level_pos(line: Seq<char>, i: int)
    requires
        0 <= i,
    ensures
        level_pos(line, i) matches Some(p) ==> 0 <= p <= line.len(),
    decreases level_words().len() - i,
{
    if i < level_words().len() {
        lemma_word_lengths();
        let w = level_words()[i];
        assert(w.len() > 0) by {
            assert(i == 0 || i == 1 || i == 2 || i == 3 || i == 4 || i == 5 || i == 6 || i == 7);
        }
        first_at_is_first(line, w, 0);
        lemma_level_pos(line, i + 1);
    }
}

/// A line whose parts are told apart reads as it did.
pub proof fn highlighting_keeps_the_line(line: Seq<char>, level: LogLevel)
    ensures
        text_of_line(highlighted(line, level)) == line,
{
    lemma_level_pos(line, 0);
    let at = match level_pos(line, 0) {
        Some(p) => p,
        None => 0,
    };
    let time = if level_pos(line, 0) is Some {
        seq![piece(line.take(at), plain(Hue::Dim))]
    } else {
        Seq::empty()
    };
    if level_pos(line, 0) is Some {
        lemma_one(piece(line.take(at), plain(Hue::Dim)));
    }
    assert(text_of_line(time) =~= line.take(at));
    let rest = line.subrange(at, line.len() as int);
    let end = next_of(rest, ' ', 0);
    next_of_is_next(rest, ' ', 0);
    if end < rest.len() {
        let word = piece(rest.take(end), level_tone(level));
        let tail = rest.subrange(end, rest.len() as int);
        pairs_keep_the_text(tail);
        lemma_one(word);
        lemma_text_of_both(time, seq![word]);
        lemma_text_of_both(time + seq![word], pairs(tail, 0));
        assert(line.take(at) + rest.take(end) + tail =~= line);
    } else {
        pairs_keep_the_text(rest);
        lemma_text_of_both(time, pairs(rest, 0));
        assert(line.take(at) + rest =~= line);
    }
}

/// A value is colored by what it says: a status by its first digit, a duration by how long it
/// is, an error as one.
pub proof fn values_are_colored_by_what_they_say(digit: char, rest: Seq<char>, ms: nat, other: Seq<char>)
    requires
        ms <= u64::MAX,
    ensures
        ({
            let status = value_tone("status"@, seq![digit] + rest).hue;
            &&& status == Hue::Green <==> digit == '2'
            &&& status == Hue::Yellow <==> digit == '4'
            &&& status == Hue::Red <==> digit == '5'
        }),
        ({
            let time = value_tone("duration_ms"@, crate::text::decimal(ms)).hue;
            &&& time == Hue::Green <==> ms < 1000
            &&& time == Hue::Red <==> ms >= 5000
            &&& time == Hue::Yellow <==> 1000 <= ms < 5000
        }),
        value_tone("error"@, other).hue == Hue::Red,
        value_tone("model"@, other).bold,
        value_tone("method"@, other).bold,
{
    reveal_strlit("model");
    reveal_strlit("status");
    reveal_strlit("method");
    reveal_strlit("path");
    reveal_strlit("duration_ms");
    reveal_strlit("request_id");
    reveal_strlit("agent");
    reveal_strlit("address");
    reveal_strlit("port");
    reveal_strlit("account");
    reveal_strlit("error");
    assert("model"@.len() != "status"@.len());
    assert("model"@.len() != "method"@.len());
    assert("model"@.len() != "path"@.len());
    assert("model"@.len() != "duration_ms"@.len());
    assert("model"@.len() != "request_id"@.len());
    assert("model"@[0] != "agent"@[0]);
    assert("model"@.len() != "address"@.len());
    assert("model"@.len() != "port"@.len());
    assert("model"@.len() != "account"@.len());
    assert("model"@[0] != "error"@[0]);
    assert("status"@[0] != "method"@[0]);
    assert("status"@.len() != "path"@.len());
    assert("status"@.len() != "duration_ms"@.len());
    assert("status"@.len() != "request_id"@.len());
    assert("status"@.len() != "agent"@.len());
    assert("status"@.len() != "address"@.len());
    assert("status"@.len() != "port"@.len());
    assert("status"@.len() != "account"@.len());
    assert("status"@.len() != "error"@.len());
    assert("method"@.len() != "path"@.len());
    assert("method"@.len() != "duration_ms"@.len());
    assert("method"@.len() != "request_id"@.len());
    assert("method"@.len() != "agent"@.len());
    assert("method"@.len() != "address"@.len());
    assert("method"@.len() != "port"@.len());
    assert("method"@.len() != "account"@.len());
    assert("method"@.len() != "error"@.len());
    assert("path"@.len() != "duration_ms"@.len());
    assert("path"@.len() != "request_id"@.len());
    assert("path"@.len() != "agent"@.len());
    assert("path"@.len() != "address"@.len());
    assert("path"@[1] != "port"@[1]);
    assert("path"@.len() != "account"@.len());
    assert("path"@.len() != "error"@.len());
    assert("duration_ms"@.len() != "request_id"@.len());
    assert("duration_ms"@.len() != "agent"@.len());
    assert("duration_ms"@.len() != "address"@.len());
    assert("duration_ms"@.len() != "port"@.len());
    assert("duration_ms"@.len() != "account"@.len());
    assert("duration_ms"@.len() != "error"@.len());
    assert("request_id"@.len() != "agent"@.len());
    assert("request_id"@.len() != "address"@.len());
    assert("request_id"@.len() != "port"@.len());
    assert("request_id"@.len() != "account"@.len());
    assert("request_id"@.len() != "error"@.len());
    assert("agent"@.len() != "address"@.len());
    assert("agent"@.len() != "port"@.len());
    assert("agent"@.len() != "account"@.len());
    assert("agent"@[0] != "error"@[0]);
    assert("address"@.len() != "port"@.len());
    assert("address"@[1] != "account"@[1]);
    assert("address"@.len() != "error"@.len());
    assert("port"@.len() != "account"@.len());
    assert("port"@.len() != "error"@.len());
    assert("account"@.len() != "error"@.len());
    reveal_strlit("2");
    reveal_strlit("4");
    reveal_strlit("5");
    let s = seq![digit] + rest;
    assert(s[0] == digit);
    assert(s.take(1) =~= seq![digit]);
    assert(starts(s, "2"@) <==> digit == '2') by {
        if digit == '2' {
            assert(s.take(1) =~= "2"@);
        }
    }
    assert(starts(s, "4"@) <==> digit == '4') by {
        if digit == '4' {
            assert(s.take(1) =~= "4"@);
        }
    }
    assert(starts(s, "5"@) <==> digit == '5') by {
        if digit == '5' {
            assert(s.take(1) =~= "5"@);
        }
    }
    crate::config_editor::lemma_decimal_number(ms, u64::MAX as nat);
}

} // verus!
