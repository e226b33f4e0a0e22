//! JSON with comments.

use vstd::prelude::*;

use crate::text::{chars_of, is_subsequence, picks};

verus! {

/// What a character of a text is read as.
#[derive(Debug, Clone, Copy, PartialEq, Eq, Structural)]
pub enum Mode {
    /// Outside strings and comments.
    Code,
    /// In a string.
    Quoted,
    /// In a string, behind a backslash.
    Escaped,
    /// In a comment that ends with the line.
    Line,
    /// The star that opens a comment.
    Opening,
    /// In a comment between stars; whether a star was just read.
    Block { star: bool },
}

/// Whether a comment of either kind begins at `i`.
pub open spec fn opens_comment(s: Seq<char>, i: int) -> bool {
    &&& s[i] == '/'
    &&& i + 1 < s.len()
    &&& (s[i + 1] == '/' || s[i + 1] == '*')
}

/// What the character behind one read as `m` is read as.
pub open spec fn next_mode(s: Seq<char>, i: int, m: Mode) -> Mode {
    let c = s[i];
    match m {
        Mode::Code => if c == '"' {
            Mode::Quoted
        } else if opens_comment(s, i) {
            if s[i + 1] == '/' {
                Mode::Line
            } else {
                Mode::Opening
            }
        } else {
            Mode::Code
        },
        Mode::Quoted => if c == '\\' {
            Mode::Escaped
        } else if c == '"' {
            Mode::Code
        } else {
            Mode::Quoted
        },
        Mode::Escaped => Mode::Quoted,
        Mode::Line => if c == '\n' {
            Mode::Code
        } else {
            Mode::Line
        },
        Mode::Opening => Mode::Block { star: false },
        Mode::Block { star } => if star && c == '/' {
            Mode::Code
        } else {
            Mode::Block { star: c == '*' }
        },
    }
}

/// What the character at `i` is read as.
pub open spec fn mode_at(s: Seq<char>, i: int) -> Mode
    decreases i,
{
    if i <= 0 {
        Mode::Code
    } else {
        next_mode(s, i - 1, mode_at(s, i - 1))
    }
}

/// Whether the character at `i` is kept: everything outside comments, and the ends of line
/// in them.
pub open spec fn keeps(s: Seq<char>, i: int) -> bool {
    match mode_at(s, i) {
        Mode::Code => !opens_comment(s, i),
        Mode::Quoted | Mode::Escaped => true,
        Mode::Line | Mode::Block { .. } => s[i] == '\n',
        Mode::Opening => false,
    }
}

/// The characters kept of the first `n`.
pub open spec fn kept(s: Seq<char>, n: int) -> Seq<char>
    decreases n,
{
    if n <= 0 {
        Seq::empty()
    } else if keeps(s, n - 1) {
        kept(s, n - 1).push(s[n - 1])
    } else {
        kept(s, n - 1)
    }
}

/// A text without its comments.
pub open spec fn without_comments(s: Seq<char>) -> Seq<char> {
    kept(s, s.len() as int)
}

/// A text without its comments, of either kind; a comment leaves its ends of line behind,
/// and what looks like one in a string is none.
pub fn strip_jsonc_comments(input: &str) -> (r: String)
    ensures
        r@ == without_comments(input@),
{
    let v = chars_of(input);
    let mut r = String::new();
    let mut mode = Mode::Code;
    let mut i: usize = 0;
    while i < v.len()
        invariant
            i <= v@.len(),
            mode == mode_at(v@, i as int),
            r@ == kept(v@, i as int),
        decreases v@.len() - i,
    {
        let c = v[i];
        let opens = c == '/' && i + 1 < v.len() && (v[i + 1] == '/' || v[i + 1] == '*');
        let keep = match mode {
            Mode::Code => !opens,
            Mode::Quoted | Mode::Escaped => true,
            Mode::Line | Mode::Block { .. } => c == '\n',
            Mode::Opening => false,
        };
        if keep {
            r.push(c);
        }
        mode =
        match mode {
            Mode::Code => {
                if c == '"' {
                    Mode::Quoted
                } else if opens {
                    if v[i + 1] == '/' {
                        Mode::Line
                    } else {
                        Mode::Opening
                    }
                } else {
                    Mode::Code
                }
            },
            Mode::Quoted => {
                if c == '\\' {
                    Mode::Escaped
                } else if c == '"' {
                    Mode::Code
                } else {
                    Mode::Quoted
                }
            },
            Mode::Escaped => Mode::Quoted,
            Mode::Line => {
                if c == '\n' {
                    Mode::Code
                } else {
                    Mode::Line
                }
            },
            Mode::Opening => Mode::Block { star: false },
            Mode::Block { star } => {
                if star && c == '/' {
                    Mode::Code
                } else {
                    Mode::Block { star: c == '*' }
                }
            },
        };
        i = i + 1;
    }
    r
}

/// How often a character occurs among the first `n` of a text.
pub open spec fn occurrences(s: Seq<char>, c: char, n: int) -> nat
    decreases n,
{
    if n <= 0 {
        0
    } else {
        occurrences(s, c, n - 1) + (if s[n - 1] == c {
            1nat
        } else {
            0
        })
    }
}

proof fn lemma_occurrences_push(s: Seq<char>, c: char, d: char, n: int)
    requires
        n <= s.len(),
    ensures
        occurrences(s.push(d), c, n) == occurrences(s, c, n),
    decreases n,
{
    if n > 0 {
        lemma_occurrences_push(s, c, d, n - 1);
    }
}

proof fn lemma_opening_is_star(s: Seq<char>, i: int)
    requires
        0 <= i < s.len(),
        mode_at(s, i) == Mode::Opening,
    ensures
        s[i] == '*',
{
}

proof fn lemma_lines_kept(s: Seq<char>, n: int)
    requires
        n <= s.len(),
    ensures
        occurrences(kept(s, n), '\n', kept(s, n).len() as int) == occurrences(s, '\n', n),
    decreases n,
{
    if n > 0 {
        lemma_lines_kept(s, n - 1);
        let before = kept(s, n - 1);
        if keeps(s, n - 1) {
            lemma_occurrences_push(before, '\n', s[n - 1], before.len() as int);
            assert(kept(s, n).len() == before.len() + 1);
            assert(kept(s, n)[before.len() as int] == s[n - 1]);
        } else if mode_at(s, n - 1) == Mode::Opening {
            lemma_opening_is_star(s, n - 1);
        }
    }
}

/// A text without its comments has as many lines as before: what a parser says of a line
/// holds of the same line of the text with comments.
pub proof fn the_line_count_is_preserved(s: Seq<char>)
    ensures
        occurrences(without_comments(s), '\n', without_comments(s).len() as int) == occurrences(
            s,
            '\n',
            s.len() as int,
        ),
{
    lemma_lines_kept(s, s.len() as int);
}

/// Whether no comment begins in a text, outside of its strings.
pub open spec fn has_no_comment(s: Seq<char>) -> bool {
    forall|i: int|
        0 <= i < s.len() && #[trigger] mode_at(s, i) is Code ==> !opens_comment(s, i)
}

proof fn lemma_plain_kept(s: Seq<char>, n: int)
    requires
        0 <= n <= s.len(),
        has_no_comment(s),
    ensures
        kept(s, n) == s.take(n),
        n < s.len() ==> mode_at(s, n) is Code || mode_at(s, n) is Quoted || mode_at(
            s,
            n,
        ) is Escaped,
    decreases n,
{
    if n > 0 {
        lemma_plain_kept(s, n - 1);
        assert(mode_at(s, n - 1) is Code ==> !opens_comment(s, n - 1));
        assert(kept(s, n) =~= s.take(n));
    } else {
        assert(kept(s, n) =~= s.take(n));
    }
}

/// A text in which no comment begins stays as it is.
pub proof fn text_without_comments_stays(s: Seq<char>)
    requires
        has_no_comment(s),
    ensures
        without_comments(s) == s,
{
    lemma_plain_kept(s, s.len() as int);
    assert(s.take(s.len() as int) =~= s);
}

/// Nothing in a string is taken out, whatever it looks like.
pub proof fn strings_are_kept(s: Seq<char>, i: int)
    requires
        0 <= i < s.len(),
        mode_at(s, i) is Quoted || mode_at(s, i) is Escaped,
    ensures
        kept(s, i + 1) == kept(s, i).push(s[i]),
{
}

/// Where the characters kept of the first `n` stand.
proof fn lemma_kept_places(s: Seq<char>, n: int) -> (places: Seq<int>)
    requires
        0 <= n <= s.len(),
    ensures
        picks(kept(s, n), s, places),
        forall|i: int| 0 <= i < places.len() ==> #[trigger] places[i] < n,
    decreases n,
{
    if n <= 0 {
        Seq::empty()
    } else {
        let before = lemma_kept_places(s, n - 1);
        if keeps(s, n - 1) {
            before.push(n - 1)
        } else {
            before
        }
    }
}

/// Nothing is added and nothing changes its place: a text without its comments is the text
/// without some of its characters.
pub proof fn comments_are_only_taken_out(s: Seq<char>)
    ensures
        is_subsequence(without_comments(s), s),
{
    let places = lemma_kept_places(s, s.len() as int);
    assert(picks(without_comments(s), s, places));
}

/// What is kept of the first characters is the beginning of what is kept of all.
proof fn lemma_kept_first(s: Seq<char>, n: int, m: int)
    requires
        0 <= n <= m <= s.len(),
    ensures
        kept(s, n).len() <= kept(s, m).len(),
        kept(s, n) == kept(s, m).take(kept(s, n).len() as int),
    decreases m - n,
{
    let first = kept(s, n);
    if n < m {
        lemma_kept_first(s, n, m - 1);
        assert(kept(s, m).take(first.len() as int) =~= kept(s, m - 1).take(first.len() as int));
    } else {
        assert(first.take(first.len() as int) =~= first);
    }
}

/// What a character that is kept is read as without the comments: in a string as before, else
/// outside.
spec fn mode_without(m: Mode) -> Mode {
    match m {
        Mode::Quoted | Mode::Escaped => m,
        _ => Mode::Code,
    }
}

/// A text without its comments is read like the text outside of them, and no comment begins
/// in it.
proof fn lemma_read_without(s: Seq<char>, n: int)
    requires
        0 <= n <= s.len(),
    ensures
        mode_at(without_comments(s), kept(s, n).len() as int) == mode_without(mode_at(s, n)),
        forall|k: int|
            0 <= k < kept(s, n).len() && #[trigger] mode_at(without_comments(s), k) is Code
                ==> !opens_comment(without_comments(s), k),
    decreases n,
{
    if n > 0 {
        let r = without_comments(s);
        let i = n - 1;
        let k = kept(s, i).len() as int;
        lemma_read_without(s, i);
        lemma_kept_first(s, n, s.len() as int);
        if keeps(s, i) {
            assert(r.take(k + 1)[k] == s[i]);
            assert(r[k] == s[i]);
            if mode_at(s, i) is Code && s[i] == '/' && n < s.len() {
                // What follows a slash that begins no comment is kept behind it.
                assert(mode_at(s, n) is Code);
                assert(keeps(s, n));
                lemma_kept_first(s, n + 1, s.len() as int);
                assert(r.take(k + 2)[k + 1] == s[n]);
            } else if n == s.len() {
                assert(r.len() == k + 1);
            }
            assert(mode_without(mode_at(s, i)) is Code ==> !opens_comment(r, k));
        }
    }
}

/// Taking comments out a second time changes nothing: none is left.
pub proof fn no_comment_is_left(s: Seq<char>)
    ensures
        has_no_comment(without_comments(s)),
        without_comments(without_comments(s)) == without_comments(s),
{
    lemma_read_without(s, s.len() as int);
    text_without_comments_stays(without_comments(s));
}

/// A comment to the end of its line is taken out, and what stands before it and from the end of
/// the line on stays.
pub proof fn line_comments_are_taken_out(a: Seq<char>, c: Seq<char>, b: Seq<char>)
    requires
        !a.contains('"') && !a.contains('/'),
        !b.contains('"') && !b.contains('/'),
        !c.contains('\n'),
    ensures
        without_comments(a + seq!['/', '/'] + c + seq!['\n'] + b) == a + seq!['\n'] + b,
{
    let s = a + seq!['/', '/'] + c + seq!['\n'] + b;
    let n = a.len() as int;
    let e = n + 2 + c.len();
    assert forall|k: int| 0 <= k < n implies s[k] != '"' && s[k] != '/' by {
        assert(s[k] == a[k] && a.contains(a[k]));
    }
    lemma_code_run(s, 0, n);
    assert(s.subrange(0, n) =~= a);
    assert(kept(s, n) =~= a);
    assert(s[n] == '/' && s[n + 1] == '/');
    assert(opens_comment(s, n));
    assert(mode_at(s, n + 1) == Mode::Line);
    assert(mode_at(s, n + 2) == Mode::Line);
    assert(kept(s, n + 1) == kept(s, n));
    assert(kept(s, n + 2) == kept(s, n + 1));
    assert forall|k: int| n + 2 <= k < e implies s[k] != '\n' by {
        assert(s[k] == c[k - n - 2] && c.contains(c[k - n - 2]));
    }
    lemma_line_run(s, n + 2, e);
    assert(s[e] == '\n');
    assert(mode_at(s, e + 1) == Mode::Code);
    assert(kept(s, e + 1) == kept(s, e).push('\n'));
    assert forall|k: int| e + 1 <= k < s.len() implies s[k] != '"' && s[k] != '/' by {
        assert(s[k] == b[k - e - 1] && b.contains(b[k - e - 1]));
    }
    lemma_code_run(s, e + 1, s.len() as int);
    assert(s.subrange(e + 1, s.len() as int) =~= b);
    assert(kept(s, s.len() as int) =~= a + seq!['\n'] + b);
}

/// A comment between its signs is taken out, and what stands before and behind it stays.
pub proof fn block_comments_are_taken_out(a: Seq<char>, c: Seq<char>, b: Seq<char>)
    requires
        !a.contains('"') && !a.contains('/'),
        !b.contains('"') && !b.contains('/'),
        !c.contains('\n') && !c.contains('*'),
    ensures
        without_comments(a + seq!['/', '*'] + c + seq!['*', '/'] + b) == a + b,
{
    let s = a + seq!['/', '*'] + c + seq!['*', '/'] + b;
    let n = a.len() as int;
    let e = n + 2 + c.len();
    assert forall|k: int| 0 <= k < n implies s[k] != '"' && s[k] != '/' by {
        assert(s[k] == a[k] && a.contains(a[k]));
    }
    lemma_code_run(s, 0, n);
    assert(s.subrange(0, n) =~= a);
    assert(kept(s, n) =~= a);
    assert(s[n] == '/' && s[n + 1] == '*');
    assert(opens_comment(s, n));
    assert(mode_at(s, n + 1) == Mode::Opening);
    assert(mode_at(s, n + 2) == Mode::Block { star: false });
    assert(kept(s, n + 1) == kept(s, n));
    assert(kept(s, n + 2) == kept(s, n + 1));
    assert forall|k: int| n + 2 <= k < e implies s[k] != '\n' && s[k] != '*' by {
        assert(s[k] == c[k - n - 2] && c.contains(c[k - n - 2]));
    }
    lemma_block_run(s, n + 2, e);
    assert(s[e] == '*' && s[e + 1] == '/');
    assert(mode_at(s, e + 1) == Mode::Block { star: true });
    assert(mode_at(s, e + 2) == Mode::Code);
    assert(kept(s, e + 1) == kept(s, e));
    assert(kept(s, e + 2) == kept(s, e + 1));
    assert forall|k: int| e + 2 <= k < s.len() implies s[k] != '"' && s[k] != '/' by {
        assert(s[k] == b[k - e - 2] && b.contains(b[k - e - 2]));
    }
    lemma_code_run(s, e + 2, s.len() as int);
    assert(s.subrange(e + 2, s.len() as int) =~= b);
    assert(kept(s, s.len() as int) =~= a + b);
}

proof fn lemma_code_run(s: Seq<char>, i: int, e: int)
    requires
        0 <= i <= e <= s.len(),
        mode_at(s, i) == Mode::Code,
        forall|k: int| i <= k < e ==> s[k] != '"' && s[k] != '/',
    ensures
        mode_at(s, e) == Mode::Code,
        kept(s, e) == kept(s, i) + s.subrange(i, e),
    decreases e - i,
{
    if i < e {
        lemma_code_run(s, i, e - 1);
        assert(s.subrange(i, e) =~= s.subrange(i, e - 1).push(s[e - 1]));
        assert(kept(s, e) =~= kept(s, i) + s.subrange(i, e));
    } else {
        assert(kept(s, i) + s.subrange(i, e) =~= kept(s, i));
    }
}

proof fn lemma_line_run(s: Seq<char>, i: int, e: int)
    requires
        0 <= i <= e <= s.len(),
        mode_at(s, i) == Mode::Line,
        forall|k: int| i <= k < e ==> s[k] != '\n',
    ensures
        mode_at(s, e) == Mode::Line,
        kept(s, e) == kept(s, i),
    decreases e - i,
{
    if i < e {
        lemma_line_run(s, i, e - 1);
    }
}

proof fn lemma_block_run(s: Seq<char>, i: int, e: int)
    requires
        0 <= i <= e <= s.len(),
        mode_at(s, i) == (Mode::Block { star: false }),
        forall|k: int| i <= k < e ==> s[k] != '\n' && s[k] != '*',
    ensures
        mode_at(s, e) == (Mode::Block { star: false }),
        kept(s, e) == kept(s, i),
    decreases e - i,
{
    if i < e {
        lemma_block_run(s, i, e - 1);
    }
}

} // verus!
