//! Text as a sequence of characters: the string operations the other modules are
//! written with, each stated over the view of `str` and `String`.

use vstd::prelude::*;

verus! {

/// `String::push` appends one character.
pub assume_specification[ String::push ](s: &mut String, c: char)
    ensures
        final(s)@ == old(s)@.push(c),
;

/// `String::push_str` appends a string slice.
pub assume_specification[ String::push_str ](s: &mut String, other: &str)
    ensures
        final(s)@ == old(s)@ + other@,
;

/// `==` on `str`, which holds exactly when both sides hold the same characters.
pub assume_specification[ <str as PartialEq>::eq ](a: &str, b: &str) -> (r: bool)
    ensures
        r == (a@ == b@),
;

/// Whether both strings hold the same characters.
pub fn same(a: &str, b: &str) -> (r: bool)
    ensures
        r == (a@ == b@),
{
    *a == *b
}

/// The characters of a string.
pub fn chars_of(s: &str) -> (v: Vec<char>)
    ensures
        v@ == s@,
{
    let mut v: Vec<char> = Vec::new();
    for c in it: s.chars()
        invariant
            v@ == s@.take(it.index() as int),
            it.seq() == s@,
    {
        v.push(c);
        assert(v@ =~= s@.take(it.index() + 1));
    }
    assert(s@.take(s@.len() as int) =~= s@);
    v
}

/// The string made of the characters `v[from..to]`.
pub fn text_between(v: &[char], from: usize, to: usize) -> (s: String)
    requires
        from <= to <= v@.len(),
    ensures
        s@ == v@.subrange(from as int, to as int),
{
    let mut s = String::new();
    let mut i: usize = from;
    while i < to
        invariant
            from <= i <= to <= v@.len(),
            s@ == v@.subrange(from as int, i as int),
        decreases to - i,
    {
        s.push(v[i]);
        i = i + 1;
        assert(s@ =~= v@.subrange(from as int, i as int));
    }
    s
}

/// The string made of all the characters of `v`.
pub fn text_of(v: &[char]) -> (s: String)
    ensures
        s@ == v@,
{
    let s = text_between(v, 0, v.len());
    assert(v@.subrange(0, v@.len() as int) =~= v@);
    s
}


/// Whether `s` holds `p` from index `i` on.
pub open spec fn occurs_at<T>(s: Seq<T>, p: Seq<T>, i: int) -> bool {
    0 <= i && i + p.len() <= s.len() && s.subrange(i, i + p.len()) == p
}

/// Whether `s` begins with `p`.
pub open spec fn starts<T>(s: Seq<T>, p: Seq<T>) -> bool {
    occurs_at(s, p, 0)
}

/// Whether `s` ends with `p`.
pub open spec fn ends<T>(s: Seq<T>, p: Seq<T>) -> bool {
    occurs_at(s, p, s.len() - p.len())
}

/// Whether `s` holds `p` somewhere.
pub open spec fn holds<T>(s: Seq<T>, p: Seq<T>) -> bool {
    exists|i: int| occurs_at(s, p, i)
}

/// What follows the prefix `p` of `s`.
pub open spec fn after<T>(s: Seq<T>, p: Seq<T>) -> Seq<T> {
    s.subrange(p.len() as int, s.len() as int)
}

/// The first index at or after `from` at which `n` stands in `h`; none where `n` is empty.
pub open spec fn first_at<T>(h: Seq<T>, n: Seq<T>, from: int) -> Option<int>
    decreases h.len() - from,
{
    if n.len() == 0 || from < 0 || from >= h.len() {
        None
    } else if occurs_at(h, n, from) {
        Some(from)
    } else {
        first_at(h, n, from + 1)
    }
}

/// What `first_at` finds is the first place: it stands there and nowhere before it;
/// where it finds nothing, it stands nowhere from there on.
pub proof fn first_at_is_first<T>(h: Seq<T>, n: Seq<T>, from: int)
    requires
        n.len() > 0,
        0 <= from,
    ensures
        match first_at(h, n, from) {
            Some(i) => from <= i && occurs_at(h, n, i) && forall|j: int|
                from <= j < i ==> !occurs_at(h, n, j),
            None => forall|j: int| from <= j ==> !occurs_at(h, n, j),
        },
    decreases h.len() - from,
{
    if from < h.len() && !occurs_at(h, n, from) {
        first_at_is_first(h, n, from + 1);
        match first_at(h, n, from) {
            Some(i) => {
                assert forall|j: int| from <= j < i implies !occurs_at(h, n, j) by {
                    if j > from {
                    }
                }
            },
            None => {
                assert forall|j: int| from <= j implies !occurs_at(h, n, j) by {
                    if j > from {
                    }
                }
            },
        }
    }
}

/// Whether the characters of `p` stand in `v` from index `i` on.
pub fn chars_at(v: &[char], p: &[char], i: usize) -> (r: bool)
    requires
        i <= v@.len(),
    ensures
        r == occurs_at(v@, p@, i as int),
{
    let n: usize = v.len();
    if n - i < p.len() {
        return false;
    }
    let mut k: usize = 0;
    while k < p.len()
        invariant
            k <= p@.len(),
            i + p@.len() <= v@.len(),
            n == v@.len(),
            forall|j: int| 0 <= j < k ==> v@[i + j] == p@[j],
        decreases p@.len() - k,
    {
        if v[i + k] != p[k] {
            assert(v@.subrange(i as int, i + p@.len())[k as int] != p@[k as int]);
            return false;
        }
        k = k + 1;
    }
    assert(v@.subrange(i as int, i + p@.len()) =~= p@);
    true
}

/// The first index at or after `from` at which `p` stands in `v`.
pub fn find_chars(v: &[char], p: &[char], from: usize) -> (r: Option<usize>)
    requires
        from <= v@.len(),
    ensures
        match r {
            Some(i) => from <= i && occurs_at(v@, p@, i as int) && forall|j: int|
                from <= j < i ==> !occurs_at(v@, p@, j),
            None => forall|j: int| from <= j ==> !occurs_at(v@, p@, j),
        },
{
    let mut i: usize = from;
    loop
        invariant
            from <= i <= v@.len(),
            forall|j: int| from <= j < i ==> !occurs_at(v@, p@, j),
        decreases v@.len() - i,
    {
        if chars_at(v, p, i) {
            return Some(i);
        }
        if i == v.len() {
            assert forall|j: int| from <= j implies !occurs_at(v@, p@, j) by {
                if j > v@.len() {
                    assert(j + p@.len() > v@.len());
                }
            }
            return None;
        }
        i = i + 1;
    }
}

/// Whether `s` begins with `p`.
pub fn starts_with(s: &str, p: &str) -> (r: bool)
    ensures
        r == starts(s@, p@),
{
    let v = chars_of(s);
    let q = chars_of(p);
    chars_at(&v, &q, 0)
}

/// Whether `s` ends with `p`.
pub fn ends_with(s: &str, p: &str) -> (r: bool)
    ensures
        r == ends(s@, p@),
{
    let v = chars_of(s);
    let q = chars_of(p);
    if v.len() < q.len() {
        return false;
    }
    chars_at(&v, &q, v.len() - q.len())
}

/// Whether `s` holds `p` somewhere.
pub fn contains(s: &str, p: &str) -> (r: bool)
    ensures
        r == holds(s@, p@),
{
    let v = chars_of(s);
    let q = chars_of(p);
    find_chars(&v, &q, 0).is_some()
}

/// What follows the prefix `p` of `s`, where `s` begins with `p`.
pub fn strip_prefix(s: &str, p: &str) -> (r: Option<String>)
    ensures
        r.is_some() == starts(s@, p@),
        r matches Some(t) ==> t@ == after(s@, p@),
{
    let v = chars_of(s);
    let q = chars_of(p);
    if chars_at(&v, &q, 0) {
        Some(text_between(&v, q.len(), v.len()))
    } else {
        None
    }
}

/// What precedes the suffix `p` of `s`, where `s` ends with `p`.
pub fn strip_suffix(s: &str, p: &str) -> (r: Option<String>)
    ensures
        r.is_some() == ends(s@, p@),
        r matches Some(t) ==> t@ == s@.subrange(0, s@.len() - p@.len()),
{
    let v = chars_of(s);
    let q = chars_of(p);
    if v.len() >= q.len() && chars_at(&v, &q, v.len() - q.len()) {
        Some(text_between(&v, 0, v.len() - q.len()))
    } else {
        None
    }
}

/// The characters with the Unicode property `White_Space`.
pub open spec fn is_space(c: char) -> bool {
    ||| '\u{9}' <= c <= '\u{d}'
    ||| c == ' '
    ||| c == '\u{85}'
    ||| c == '\u{a0}'
    ||| c == '\u{1680}'
    ||| '\u{2000}' <= c <= '\u{200a}'
    ||| c == '\u{2028}'
    ||| c == '\u{2029}'
    ||| c == '\u{202f}'
    ||| c == '\u{205f}'
    ||| c == '\u{3000}'
}

/// Whether `c` is white space.
pub fn space_char(c: char) -> (r: bool)
    ensures
        r == is_space(c),
{
    ('\u{9}' <= c && c <= '\u{d}') || c == ' ' || c == '\u{85}' || c == '\u{a0}' || c == '\u{1680}'
        || ('\u{2000}' <= c && c <= '\u{200a}') || c == '\u{2028}' || c == '\u{2029}' || c
        == '\u{202f}' || c == '\u{205f}' || c == '\u{3000}'
}

/// `s` without its leading white space.
pub open spec fn trimmed_start(s: Seq<char>) -> Seq<char>
    decreases s.len(),
{
    if s.len() > 0 && is_space(s[0]) {
        trimmed_start(s.subrange(1, s.len() as int))
    } else {
        s
    }
}

/// `s` without its trailing white space.
pub open spec fn trimmed_end(s: Seq<char>) -> Seq<char>
    decreases s.len(),
{
    if s.len() > 0 && is_space(s.last()) {
        trimmed_end(s.drop_last())
    } else {
        s
    }
}

/// `s` without the white space at both ends.
pub open spec fn trimmed(s: Seq<char>) -> Seq<char> {
    trimmed_end(trimmed_start(s))
}

/// The index at which the leading white space of `v` ends.
pub fn skip_spaces(v: &[char]) -> (i: usize)
    ensures
        i <= v@.len(),
        v@.subrange(i as int, v@.len() as int) == trimmed_start(v@),
        forall|j: int| 0 <= j < i ==> is_space(v@[j]),
        i < v@.len() ==> !is_space(v@[i as int]),
{
    let mut i: usize = 0;
    assert(v@.subrange(0, v@.len() as int) =~= v@);
    while i < v.len() && space_char(v[i])
        invariant
            i <= v@.len(),
            trimmed_start(v@.subrange(i as int, v@.len() as int)) == trimmed_start(v@),
            forall|j: int| 0 <= j < i ==> is_space(v@[j]),
        decreases v@.len() - i,
    {
        let ghost rest = v@.subrange(i as int, v@.len() as int);
        assert(rest.subrange(1, rest.len() as int) =~= v@.subrange(i + 1, v@.len() as int));
        i = i + 1;
    }
    i
}

/// The length of `v[..to]` without its trailing white space.
fn end_of_text(v: &[char], from: usize) -> (to: usize)
    requires
        from <= v@.len(),
    ensures
        from <= to <= v@.len(),
        v@.subrange(from as int, to as int) == trimmed_end(
            v@.subrange(from as int, v@.len() as int),
        ),
{
    let mut to: usize = v.len();
    while from < to && space_char(v[to - 1])
        invariant
            from <= to <= v@.len(),
            trimmed_end(v@.subrange(from as int, to as int)) == trimmed_end(
                v@.subrange(from as int, v@.len() as int),
            ),
        decreases to,
    {
        let ghost part = v@.subrange(from as int, to as int);
        assert(part.drop_last() =~= v@.subrange(from as int, to - 1));
        to = to - 1;
    }
    to
}

/// `s` without the white space at both ends.
pub fn trim(s: &str) -> (r: String)
    ensures
        r@ == trimmed(s@),
{
    let v = chars_of(s);
    let from = skip_spaces(&v);
    let to = end_of_text(&v, from);
    text_between(&v, from, to)
}

/// `s` without its leading white space.
pub fn trim_start(s: &str) -> (r: String)
    ensures
        r@ == trimmed_start(s@),
{
    let v = chars_of(s);
    let from = skip_spaces(&v);
    text_between(&v, from, v.len())
}

/// `s` without its trailing white space.
pub fn trim_end(s: &str) -> (r: String)
    ensures
        r@ == trimmed_end(s@),
{
    let v = chars_of(s);
    assert(v@.subrange(0, v@.len() as int) =~= v@);
    let to = end_of_text(&v, 0);
    text_between(&v, 0, to)
}

/// `s` without the characters `c` at its beginning.
pub open spec fn without_leading(s: Seq<char>, c: char) -> Seq<char>
    decreases s.len(),
{
    if s.len() > 0 && s[0] == c {
        without_leading(s.subrange(1, s.len() as int), c)
    } else {
        s
    }
}

/// `s` without the characters `c` at its end.
pub open spec fn without_trailing(s: Seq<char>, c: char) -> Seq<char>
    decreases s.len(),
{
    if s.len() > 0 && s.last() == c {
        without_trailing(s.drop_last(), c)
    } else {
        s
    }
}

/// `s` without the characters `c` at both ends.
pub open spec fn without_ends(s: Seq<char>, c: char) -> Seq<char> {
    without_trailing(without_leading(s, c), c)
}

/// `s` without the characters `c` at its end.
pub fn trim_end_char(s: &str, c: char) -> (r: String)
    ensures
        r@ == without_trailing(s@, c),
{
    let v = chars_of(s);
    let mut to: usize = v.len();
    assert(v@.subrange(0, v@.len() as int) =~= v@);
    while to > 0 && v[to - 1] == c
        invariant
            to <= v@.len(),
            without_trailing(v@.subrange(0, to as int), c) == without_trailing(v@, c),
        decreases to,
    {
        assert(v@.subrange(0, to as int).drop_last() =~= v@.subrange(0, to - 1));
        to = to - 1;
    }
    text_between(&v, 0, to)
}

/// `s` without the characters `c` at both ends.
pub fn trim_char(s: &str, c: char) -> (r: String)
    ensures
        r@ == without_ends(s@, c),
{
    let v = chars_of(s);
    let mut from: usize = 0;
    assert(v@.subrange(0, v@.len() as int) =~= v@);
    while from < v.len() && v[from] == c
        invariant
            from <= v@.len(),
            without_leading(v@.subrange(from as int, v@.len() as int), c) == without_leading(v@, c),
        decreases v@.len() - from,
    {
        let ghost rest = v@.subrange(from as int, v@.len() as int);
        assert(rest.subrange(1, rest.len() as int) =~= v@.subrange(from + 1, v@.len() as int));
        from = from + 1;
    }
    let t = text_between(&v, from, v.len());
    trim_end_char(&t, c)
}

/// The lower case of an ASCII letter; any other character as it is.
pub open spec fn lower_char(c: char) -> char {
    if 'A' <= c <= 'Z' {
        (c as u8 + 32) as char
    } else {
        c
    }
}

/// `s` with its ASCII letters in lower case.
pub open spec fn ascii_lower(s: Seq<char>) -> Seq<char> {
    Seq::new(s.len(), |i: int| lower_char(s[i]))
}

/// `s` with its ASCII letters in lower case.
pub fn to_ascii_lower(s: &str) -> (r: String)
    ensures
        r@ == ascii_lower(s@),
{
    let v = chars_of(s);
    let mut r = String::new();
    let mut i: usize = 0;
    while i < v.len()
        invariant
            i <= v@.len(),
            r@ == ascii_lower(v@.take(i as int)),
        decreases v@.len() - i,
    {
        let c = v[i];
        if 'A' <= c && c <= 'Z' {
            r.push((c as u8 + 32) as char);
        } else {
            r.push(c);
        }
        i = i + 1;
        assert(r@ =~= ascii_lower(v@.take(i as int)));
    }
    assert(v@.take(v@.len() as int) =~= v@);
    r
}

/// `s` with a first ASCII letter in upper case.
pub open spec fn capitalized(s: Seq<char>) -> Seq<char> {
    if s.len() > 0 && 'a' <= s[0] <= 'z' {
        s.update(0, (s[0] as u8 - 32) as char)
    } else {
        s
    }
}

/// `s` with a first ASCII letter in upper case.
pub fn capitalize(s: &str) -> (r: String)
    ensures
        r@ == capitalized(s@),
{
    let mut v = chars_of(s);
    if v.len() > 0 && 'a' <= v[0] && v[0] <= 'z' {
        let c = v[0];
        v[0] = (c as u8 - 32) as char;
    }
    assert(v@ =~= capitalized(s@));
    text_of(v.as_slice())
}


/// Whether `c` is one of the ten ASCII digits.
pub open spec fn is_digit(c: char) -> bool {
    '0' <= c <= '9'
}

/// The digit that stands for `d`.
pub open spec fn digit(d: nat) -> char {
    (('0' as u8) + d) as char
}

/// `n` in decimal notation.
pub open spec fn decimal(n: nat) -> Seq<char>
    decreases n,
{
    if n < 10 {
        seq![digit(n)]
    } else {
        decimal(n / 10).push(digit(n % 10))
    }
}

/// The number that a sequence of digits stands for.
pub open spec fn digits_value(s: Seq<char>) -> nat
    decreases s.len(),
{
    if s.len() == 0 {
        0
    } else {
        digits_value(s.drop_last()) * 10 + ((s.last() as u32 - '0' as u32) as nat)
    }
}

/// Whether `s` holds digits only.
pub open spec fn all_digits(s: Seq<char>) -> bool {
    forall|i: int| 0 <= i < s.len() ==> is_digit(#[trigger] s[i])
}

/// `s` without one leading plus sign.
pub open spec fn unsigned_part(s: Seq<char>) -> Seq<char> {
    if s.len() > 0 && s[0] == '+' {
        s.subrange(1, s.len() as int)
    } else {
        s
    }
}

/// The number that `s` writes down, where it is one or more digits, after a plus
/// sign or not, and the number is at most `max`.
pub open spec fn number(s: Seq<char>, max: nat) -> Option<nat> {
    let d = unsigned_part(s);
    if d.len() > 0 && all_digits(d) && digits_value(d) <= max {
        Some(digits_value(d))
    } else {
        None
    }
}

/// The digit that stands for `d`.
fn digit_char(d: u8) -> (c: char)
    requires
        d < 10,
    ensures
        c == digit(d as nat),
{
    (48u8 + d) as char
}

/// `n` in decimal notation.
pub fn decimal_text(n: u64) -> (s: String)
    ensures
        s@ == decimal(n as nat),
    decreases n,
{
    if n < 10 {
        let mut s = String::new();
        s.push(digit_char(n as u8));
        assert(s@ =~= decimal(n as nat));
        s
    } else {
        let mut s = decimal_text(n / 10);
        s.push(digit_char((n % 10) as u8));
        s
    }
}

/// The number that `s` writes down, where it is one or more digits, after a plus
/// sign or not, and fits in a `u64`.
pub fn parse_number(s: &str) -> (r: Option<u64>)
    ensures
        match r {
            Some(n) => number(s@, u64::MAX as nat) == Some(n as nat),
            None => number(s@, u64::MAX as nat) is None,
        },
{
    let v = chars_of(s);
    let start: usize = if v.len() > 0 && v[0] == '+' {
        1
    } else {
        0
    };
    let ghost d = unsigned_part(s@);
    assert(d =~= v@.subrange(start as int, v@.len() as int));
    if start == v.len() {
        return None;
    }
    let mut n: u64 = 0;
    let mut i: usize = start;
    let mut fits = true;
    while i < v.len()
        invariant
            start <= i <= v@.len(),
            d == v@.subrange(start as int, v@.len() as int),
            d == unsigned_part(s@),
            forall|j: int| start <= j < i ==> is_digit(v@[j]),
            fits ==> n == digits_value(d.take(i - start)),
            !fits ==> digits_value(d.take(i - start)) > u64::MAX,
        decreases v@.len() - i,
    {
        let c = v[i];
        if !('0' <= c && c <= '9') {
            assert(d[i - start] == c);
            assert(!all_digits(d));
            return None;
        }
        let x: u64 = (c as u32 - '0' as u32) as u64;
        assert(d.take(i + 1 - start).drop_last() =~= d.take(i - start));
        assert(d.take(i + 1 - start).last() == c);
        if fits {
            match n.checked_mul(10) {
                Some(m) => match m.checked_add(x) {
                    Some(k) => {
                        n = k;
                    },
                    None => {
                        fits = false;
                    },
                },
                None => {
                    fits = false;
                },
            }
        }
        i = i + 1;
    }
    assert(d.take(d.len() as int) =~= d);
    assert(all_digits(d)) by {
        assert forall|j: int| 0 <= j < d.len() implies is_digit(#[trigger] d[j]) by {
            assert(is_digit(v@[start + j]));
        }
    }
    if fits {
        Some(n)
    } else {
        None
    }
}

/// As `parse_number`, for a number that fits in a `u32`.
pub fn parse_number_u32(s: &str) -> (r: Option<u32>)
    ensures
        match r {
            Some(n) => number(s@, u32::MAX as nat) == Some(n as nat),
            None => number(s@, u32::MAX as nat) is None,
        },
{
    match parse_number(s) {
        Some(n) => {
            if n <= u32::MAX as u64 {
                Some(n as u32)
            } else {
                None
            }
        },
        None => None,
    }
}

/// Decimal notation is digits only, at least one, and stands for the number it was
/// made from.
pub proof fn decimal_is_read_back(n: nat)
    ensures
        decimal(n).len() > 0,
        all_digits(decimal(n)),
        digits_value(decimal(n)) == n,
        forall|max: nat| n <= max ==> number(decimal(n), max) == Some(n),
    decreases n,
{
    if n < 10 {
        assert(decimal(n).drop_last() =~= Seq::<char>::empty());
        assert(digits_value(Seq::<char>::empty()) == 0);
    } else {
        decimal_is_read_back(n / 10);
        assert(decimal(n).drop_last() =~= decimal(n / 10));
        assert forall|i: int| 0 <= i < decimal(n).len() implies is_digit(#[trigger] decimal(n)[i]) by {
            if i < decimal(n / 10).len() {
                assert(decimal(n)[i] == decimal(n / 10)[i]);
            }
        }
    }
    assert(is_digit(decimal(n)[0]));
    assert(unsigned_part(decimal(n)) == decimal(n));
}

/// `n` in decimal notation, with a leading zero where it has one digit.
pub open spec fn two_digits(n: nat) -> Seq<char> {
    if n < 10 {
        seq!['0', digit(n)]
    } else {
        decimal(n)
    }
}

/// Two-digit notation is digits only, at least one, and stands for the number it was
/// made from.
pub proof fn two_digits_are_read_back(n: nat)
    ensures
        two_digits(n).len() > 0,
        all_digits(two_digits(n)),
        forall|max: nat| n <= max ==> number(two_digits(n), max) == Some(n),
{
    if n < 10 {
        let s = two_digits(n);
        assert(s.drop_last() =~= seq!['0']);
        assert(seq!['0'].drop_last() =~= Seq::<char>::empty());
        assert(digits_value(Seq::<char>::empty()) == 0);
        assert(digits_value(seq!['0']) == 0);
        assert(digits_value(s) == n);
        assert(unsigned_part(s) == s);
    } else {
        decimal_is_read_back(n);
    }
}

/// The pieces of `s` between the separators `d`: always one more than there are
/// separators.
pub open spec fn pieces<T>(s: Seq<T>, d: T) -> Seq<Seq<T>>
    decreases s.len(),
{
    if s.len() == 0 {
        seq![Seq::empty()]
    } else {
        let before = pieces(s.drop_last(), d);
        if s.last() == d {
            before.push(Seq::empty())
        } else {
            before.update(before.len() - 1, before.last().push(s.last()))
        }
    }
}

/// There is always at least one piece.
pub proof fn lemma_pieces_nonempty<T>(s: Seq<T>, d: T)
    ensures
        pieces(s, d).len() > 0,
    decreases s.len(),
{
    if s.len() > 0 {
        lemma_pieces_nonempty(s.drop_last(), d);
    }
}

/// A text without separators is its only piece.
pub proof fn lemma_one_piece(s: Seq<char>, d: char)
    requires
        !s.contains(d),
    ensures
        pieces(s, d) == seq![s],
    decreases s.len(),
{
    if s.len() > 0 {
        let rest = s.drop_last();
        assert(!rest.contains(d)) by {
            if rest.contains(d) {
                let i = choose|i: int| 0 <= i < rest.len() && rest[i] == d;
                assert(s[i] == d);
            }
        }
        lemma_one_piece(rest, d);
        assert(s[s.len() - 1] != d);
        assert(rest.push(s.last()) =~= s);
        assert(pieces(s, d) =~= seq![s]);
    } else {
        assert(s =~= Seq::empty());
    }
}

/// The pieces of a text that begins with a piece and a separator.
pub proof fn lemma_first_piece(a: Seq<char>, d: char, b: Seq<char>)
    requires
        !a.contains(d),
    ensures
        pieces(a.push(d) + b, d) == seq![a] + pieces(b, d),
    decreases b.len(),
{
    let s = a.push(d) + b;
    if b.len() == 0 {
        assert(s =~= a.push(d));
        assert(s.drop_last() =~= a);
        lemma_one_piece(a, d);
        assert(pieces(s, d) =~= seq![a] + pieces(b, d));
    } else {
        assert(s.drop_last() =~= a.push(d) + b.drop_last());
        lemma_first_piece(a, d, b.drop_last());
        lemma_pieces_nonempty(b.drop_last(), d);
        assert(pieces(s, d) =~= seq![a] + pieces(b, d));
    }
}

/// The pieces of a text in two parts: those of the first part and those of the second,
/// the piece in the middle joined.
pub proof fn lemma_pieces_join<T>(p: Seq<T>, t: Seq<T>, d: T)
    ensures
        pieces(p + t, d) == pieces(p, d).drop_last() + seq![pieces(p, d).last() + pieces(t, d)[0]]
            + pieces(t, d).subrange(1, pieces(t, d).len() as int),
    decreases t.len(),
{
    lemma_pieces_nonempty(p, d);
    lemma_pieces_nonempty(t, d);
    if t.len() == 0 {
        assert(p + t =~= p);
        assert(pieces(p, d).last() + Seq::<T>::empty() =~= pieces(p, d).last());
        assert(pieces(p + t, d) =~= pieces(p, d).drop_last() + seq![
            pieces(p, d).last() + pieces(t, d)[0],
        ] + pieces(t, d).subrange(1, pieces(t, d).len() as int));
    } else {
        let u = t.drop_last();
        let c = t.last();
        assert((p + t).drop_last() =~= p + u);
        lemma_pieces_nonempty(u, d);
        lemma_pieces_join(p, u, d);
        let a = pieces(p, d);
        let b = pieces(u, d);
        if c == d {
            assert(pieces(p + t, d) =~= a.drop_last() + seq![a.last() + pieces(t, d)[0]] + pieces(
                t,
                d,
            ).subrange(1, pieces(t, d).len() as int));
        } else {
            if b.len() == 1 {
                assert((a.last() + b[0]).push(c) =~= a.last() + b[0].push(c));
            }
            assert(pieces(p + t, d) =~= a.drop_last() + seq![a.last() + pieces(t, d)[0]] + pieces(
                t,
                d,
            ).subrange(1, pieces(t, d).len() as int));
        }
    }
}

/// `s` without one character `c` at its end.
pub open spec fn without_end<T>(s: Seq<T>, c: T) -> Seq<T> {
    if s.len() > 0 && s.last() == c {
        s.drop_last()
    } else {
        s
    }
}

/// The lines of a text: its pieces between the ends of line `nl`, without one `cr` before
/// each; what follows the last end of line is a line where it is not empty.
pub open spec fn lines<T>(s: Seq<T>, nl: T, cr: T) -> Seq<Seq<T>> {
    let p = pieces(s, nl);
    let ended = Seq::new((p.len() - 1) as nat, |i: int| without_end(p[i], cr));
    if p.last().len() == 0 {
        ended
    } else {
        ended.push(p.last())
    }
}

/// The views of a list of strings.
pub open spec fn views(v: Seq<String>) -> Seq<Seq<char>> {
    Seq::new(v.len(), |i: int| v[i]@)
}

/// The pieces of `s` between the separators `d`.
pub fn split(s: &str, d: char) -> (r: Vec<String>)
    ensures
        views(r@) == pieces(s@, d),
        r@.len() > 0,
{
    let v = chars_of(s);
    let mut r: Vec<String> = Vec::new();
    let mut cur = String::new();
    let mut i: usize = 0;
    assert(views(r@).push(cur@) =~= pieces(v@.take(0), d));
    while i < v.len()
        invariant
            i <= v@.len(),
            views(r@).push(cur@) == pieces(v@.take(i as int), d),
        decreases v@.len() - i,
    {
        let c = v[i];
        let ghost before = views(r@).push(cur@);
        assert(v@.take(i + 1).drop_last() =~= v@.take(i as int));
        assert(v@.take(i + 1).last() == c);
        if c == d {
            r.push(cur);
            cur = String::new();
            assert(views(r@) =~= before);
        } else {
            cur.push(c);
            assert(views(r@).push(cur@) =~= before.update(before.len() - 1, before.last().push(c)));
        }
        i = i + 1;
    }
    assert(v@.take(v@.len() as int) =~= v@);
    let ghost all = views(r@).push(cur@);
    r.push(cur);
    assert(views(r@) =~= all);
    r
}

/// The lines of a text.
pub fn lines_of(s: &str) -> (r: Vec<String>)
    ensures
        views(r@) == lines(s@, '\n', '\r'),
{
    let parts = split(s, '\n');
    let ghost p = pieces(s@, '\n');
    let mut r: Vec<String> = Vec::new();
    let mut i: usize = 0;
    while i < parts.len() - 1
        invariant
            i < parts@.len(),
            p == views(parts@),
            views(r@) == Seq::new(i as nat, |j: int| without_end(p[j], '\r')),
        decreases parts@.len() - i,
    {
        let ghost before = views(r@);
        let line = match strip_suffix(&parts[i], "\r") {
            Some(t) => t,
            None => parts[i].clone(),
        };
        proof {
            reveal_strlit("\r");
            let t = p[i as int];
            if t.len() > 0 {
                assert(t.subrange(t.len() - 1, t.len() as int) =~= seq![t.last()]);
                assert("\r"@ =~= seq!['\r']);
                assert(ends(t, "\r"@) == (t.last() == '\r')) by {
                    if ends(t, "\r"@) {
                        assert(seq![t.last()][0] == "\r"@[0]);
                    }
                }
                assert(t.drop_last() =~= t.subrange(0, t.len() - 1));
            }
        }
        r.push(line);
        assert(views(r@) =~= before.push(without_end(p[i as int], '\r')));
        i = i + 1;
        assert(views(r@) =~= Seq::new(i as nat, |j: int| without_end(p[j], '\r')));
    }
    if !parts[i].as_str().is_empty() {
        let ghost before = views(r@);
        r.push(parts[i].clone());
        assert(views(r@) =~= before.push(p[i as int]));
    }
    r
}

/// Texts joined with `sep` between them.
pub open spec fn join(parts: Seq<Seq<char>>, sep: Seq<char>) -> Seq<char>
    decreases parts.len(),
{
    if parts.len() == 0 {
        Seq::empty()
    } else if parts.len() == 1 {
        parts[0]
    } else {
        join(parts.drop_last(), sep) + sep + parts.last()
    }
}

/// Texts joined with `sep` between them.
pub fn join_texts(parts: &Vec<String>, sep: &str) -> (r: String)
    ensures
        r@ == join(views(parts@), sep@),
{
    let ghost all = views(parts@);
    if parts.len() == 0 {
        return String::new();
    }
    let mut r = parts[0].clone();
    let mut i: usize = 1;
    assert(all.take(1) =~= seq![parts@[0]@]);
    while i < parts.len()
        invariant
            1 <= i <= parts@.len(),
            all == views(parts@),
            r@ == join(all.take(i as int), sep@),
        decreases parts@.len() - i,
    {
        assert(all.take(i + 1).drop_last() =~= all.take(i as int));
        assert(all.take(i + 1).last() == parts@[i as int]@);
        r.push_str(sep);
        r.push_str(&parts[i]);
        i = i + 1;
    }
    assert(all.take(all.len() as int) =~= all);
    r
}

/// What `from_utf8_lossy` makes of bytes that are not UTF-8.
pub uninterp spec fn lossy_text(bytes: Seq<u8>) -> Seq<char>;

/// The text of some bytes: what they encode where they are UTF-8, else what is made of them.
pub open spec fn decoded(bytes: Seq<u8>) -> Seq<char> {
    if vstd::utf8::valid_utf8(bytes) {
        vstd::utf8::decode_utf8(bytes)
    } else {
        lossy_text(bytes)
    }
}

/// `String::from_utf8_lossy`: bytes that are valid UTF-8 are decoded; of others the result is
/// a function of the bytes, which `lossy_text` names.
#[verifier::external_body]
pub(crate) fn decode_lossy(bytes: &[u8]) -> (r: String)
    ensures
        vstd::utf8::valid_utf8(bytes@) ==> r@ == vstd::utf8::decode_utf8(bytes@),
        !vstd::utf8::valid_utf8(bytes@) ==> r@ == lossy_text(bytes@),
{
    String::from_utf8_lossy(bytes).into_owned()
}

/// The length of a string in bytes.
pub open spec fn byte_len(s: Seq<char>) -> nat {
    vstd::utf8::encode_utf8(s).len()
}

/// The length of a string in bytes.
pub fn len_bytes(s: &str) -> (n: usize)
    ensures
        n == byte_len(s@),
{
    s.as_bytes().len()
}

/// Where the first `n` bytes of `s` end, or `s` itself where it is shorter.
pub open spec fn head_len(s: Seq<char>, n: nat) -> int {
    if byte_len(s) < n {
        byte_len(s) as int
    } else {
        n as int
    }
}

/// The characters that make up the first `n` bytes of `s`, or all where it is shorter.
pub open spec fn head_bytes(s: Seq<char>, n: nat) -> Seq<char> {
    vstd::utf8::decode_utf8(vstd::utf8::encode_utf8(s).subrange(0, head_len(s, n)))
}

/// Whether the first `n` bytes of `s` end between two characters.
pub open spec fn head_is_whole(s: Seq<char>, n: nat) -> bool {
    vstd::utf8::is_char_boundary(vstd::utf8::encode_utf8(s), head_len(s, n))
}

/// The first `n` bytes of `s`, or all of it where it is shorter.
pub fn head_of(s: &str, n: usize) -> (r: String)
    requires
        head_is_whole(s@, n as nat),
    ensures
        r@ == head_bytes(s@, n as nat),
{
    let len = len_bytes(s);
    let k: usize = if len < n {
        len
    } else {
        n
    };
    let (head, _rest) = s.split_at(k);
    proof {
        vstd::utf8::encode_utf8_decode_utf8(head@);
    }
    head.to_owned()
}

/// In a text of ASCII characters every byte is a character.
pub proof fn ascii_texts_can_be_cut_anywhere(s: Seq<char>, n: nat)
    requires
        vstd::utf8::is_ascii_chars(s),
    ensures
        head_is_whole(s, n),
        head_bytes(s, n) == s.take(if s.len() < n { s.len() as int } else { n as int }),
    decreases s.len(),
{
    let k: int = if s.len() < n { s.len() as int } else { n as int };
    vstd::utf8::is_ascii_chars_encode_utf8(s);
    vstd::utf8::is_ascii_chars_encode_utf8(s.take(k));
    vstd::utf8::encode_utf8_decode_utf8(s.take(k));
    assert(vstd::utf8::encode_utf8(s).subrange(0, k) =~= vstd::utf8::encode_utf8(s.take(k)));
    lemma_ascii_boundary(s, k);
}

/// In a text of ASCII characters every index is a boundary.
proof fn lemma_ascii_boundary(s: Seq<char>, k: int)
    requires
        vstd::utf8::is_ascii_chars(s),
        0 <= k <= s.len(),
    ensures
        vstd::utf8::is_char_boundary(vstd::utf8::encode_utf8(s), k),
    decreases k,
{
    vstd::utf8::encode_utf8_valid_utf8(s);
    vstd::utf8::is_ascii_chars_encode_utf8(s);
    if k > 0 {
        let rest = s.subrange(1, s.len() as int);
        vstd::utf8::is_ascii_chars_encode_utf8(rest);
        lemma_ascii_boundary(rest, k - 1);
        let bytes = vstd::utf8::encode_utf8(s);
        assert(vstd::utf8::is_leading_byte_width_1(bytes[0]));
        assert(vstd::utf8::pop_first_scalar(bytes) =~= vstd::utf8::encode_utf8(rest));
    }
}

/// The lower-case hexadecimal digit that stands for `d`.
pub open spec fn hex_digit(d: nat) -> char {
    if d < 10 {
        digit(d)
    } else {
        ('a' as u8 + (d - 10)) as char
    }
}

/// A byte as two hexadecimal digits.
pub open spec fn hex(b: u8) -> Seq<char> {
    seq![hex_digit((b / 16) as nat), hex_digit((b % 16) as nat)]
}

/// Appends the two hexadecimal digits of a byte.
pub fn push_hex(s: &mut String, b: u8)
    ensures
        final(s)@ == old(s)@ + hex(b),
{
    let hi = b / 16;
    let lo = b % 16;
    s.push(if hi < 10 { (48u8 + hi) as char } else { (97u8 + (hi - 10)) as char });
    s.push(if lo < 10 { (48u8 + lo) as char } else { (97u8 + (lo - 10)) as char });
    assert(s@ =~= old(s)@ + hex(b));
}

/// The bytes of two texts in a row are the bytes of the one and those of the other.
pub proof fn lemma_encoded_join(a: Seq<char>, b: Seq<char>)
    ensures
        vstd::utf8::encode_utf8(a + b) == vstd::utf8::encode_utf8(a) + vstd::utf8::encode_utf8(b),
    decreases a.len(),
{
    if a.len() == 0 {
        assert(a + b =~= b);
        assert(vstd::utf8::encode_utf8(a) + vstd::utf8::encode_utf8(b) =~= vstd::utf8::encode_utf8(b));
    } else {
        lemma_encoded_join(a.drop_first(), b);
        assert((a + b).drop_first() =~= a.drop_first() + b);
        assert(vstd::utf8::encode_utf8(a + b) =~= vstd::utf8::encode_utf8(a) + vstd::utf8::encode_utf8(b));
    }
}

/// A text has at least as many bytes as characters.
pub proof fn lemma_encoded_len(s: Seq<char>)
    ensures
        vstd::utf8::encode_utf8(s).len() >= s.len(),
    decreases s.len(),
{
    if s.len() > 0 {
        lemma_encoded_len(s.drop_first());
    }
}

/// The first place of a character at or behind `i`, the end of the text where there is none.
pub open spec fn next_of(s: Seq<char>, c: char, i: int) -> int
    decreases s.len() - i,
{
    if i < 0 || i >= s.len() {
        s.len() as int
    } else if s[i] == c {
        i
    } else {
        next_of(s, c, i + 1)
    }
}

/// What is found is the character, and it does not occur before it.
pub proof fn next_of_is_next(s: Seq<char>, c: char, i: int)
    requires
        0 <= i <= s.len(),
    ensures
        i <= next_of(s, c, i) <= s.len(),
        next_of(s, c, i) < s.len() ==> s[next_of(s, c, i)] == c,
        forall|k: int| i <= k < next_of(s, c, i) ==> s[k] != c,
    decreases s.len() - i,
{
    if i < s.len() && s[i] != c {
        next_of_is_next(s, c, i + 1);
    }
}

/// The first place of a character at or behind `i`.
pub(crate) fn find_next(v: &[char], c: char, i: usize) -> (r: usize)
    requires
        i <= v@.len(),
    ensures
        r == next_of(v@, c, i as int),
        i <= r <= v@.len(),
{
    let n: usize = v.len();
    let mut k: usize = i;
    while k < n && v[k] != c
        invariant
            i <= k <= n == v@.len(),
            next_of(v@, c, i as int) == next_of(v@, c, k as int),
        decreases n - k,
    {
        k = k + 1;
    }
    k
}

/// Whether `a` is what stands in `b` at some places, one behind the other.
pub open spec fn picks<T>(a: Seq<T>, b: Seq<T>, places: Seq<int>) -> bool {
    &&& places.len() == a.len()
    &&& forall|i: int| 0 <= i < a.len() ==> 0 <= #[trigger] places[i] < b.len() && b[places[i]] == a[i]
    &&& forall|i: int, j: int| 0 <= i < j < a.len() ==> #[trigger] places[i] < #[trigger] places[j]
}

/// Whether `a` is `b` without some of its elements.
pub open spec fn is_subsequence<T>(a: Seq<T>, b: Seq<T>) -> bool {
    exists|places: Seq<int>| picks(a, b, places)
}

} // verus!
