//! That Codex talks to the proxy once it has been configured, whatever its configuration was.

use vstd::prelude::*;

use crate::setup::{
    begins_section, behind_idle, codex_is_configured, has_section, has_url_line, insert_place,
    is_idle_line, is_url_line, lemma_holds_part, lemma_section_end_within, lemma_section_opening,
    lemma_section_parts, lemma_url_closing, provider_setting, section_end, section_lines,
    url_line, with_provider, with_section,
};
use crate::text::{
    after, first_at, first_at_is_first, holds, is_space, join, lemma_pieces_nonempty, lines,
    next_of, next_of_is_next, occurs_at, pieces, starts, trimmed, trimmed_end, trimmed_start,
};

verus! {

/// Whether `line` is a line of `s` of its own, at index `a`.
pub open spec fn stands(s: Seq<char>, line: Seq<char>, a: int) -> bool {
    &&& occurs_at(s, line, a)
    &&& !line.contains('\n')
    &&& a == 0 || s[a - 1] == '\n'
    &&& a + line.len() == s.len() || s[a + line.len()] == '\n'
}

/// A line stands in what it was joined into.
proof fn lemma_joined_stands(parts: Seq<Seq<char>>, i: int) -> (a: int)
    requires
        0 <= i < parts.len(),
        !parts[i].contains('\n'),
    ensures
        stands(join(parts, "\n"@), parts[i], a),
    decreases parts.len(),
{
    reveal_strlit("\n");
    let all = join(parts, "\n"@);
    let line = parts[i];
    if parts.len() == 1 {
        assert(all.subrange(0, all.len() as int) =~= line);
        0
    } else {
        let head = join(parts.drop_last(), "\n"@);
        if i < parts.len() - 1 {
            let a = lemma_joined_stands(parts.drop_last(), i);
            assert(all.subrange(a, a + line.len()) =~= head.subrange(a, a + line.len()));
            a
        } else {
            let a = head.len() as int + 1;
            assert(all.subrange(a, a + line.len()) =~= line);
            a
        }
    }
}

/// No piece holds the separator.
proof fn lemma_pieces_hold_none(s: Seq<char>, d: char, i: int)
    requires
        0 <= i < pieces(s, d).len(),
    ensures
        !pieces(s, d)[i].contains(d),
    decreases s.len(),
{
    if s.len() > 0 {
        let before = pieces(s.drop_last(), d);
        lemma_pieces_nonempty(s.drop_last(), d);
        if i < before.len() {
            lemma_pieces_hold_none(s.drop_last(), d, i);
        }
        let p = pieces(s, d)[i];
        if p.contains(d) {
            let k = choose|k: int| 0 <= k < p.len() && p[k] == d;
            if s.last() == d {
                assert(i < before.len());
                assert(before[i].contains(d));
            } else if i == before.len() - 1 {
                assert(p == before[i].push(s.last()));
                assert(k < before[i].len());
                assert(before[i][k] == d);
                assert(before[i].contains(d));
            } else {
                assert(before[i].contains(d));
            }
        }
    }
}

/// No line of a text holds an end of line.
proof fn lemma_lines_hold_none(s: Seq<char>, i: int)
    requires
        0 <= i < lines(s, '\n', '\r').len(),
    ensures
        !lines(s, '\n', '\r')[i].contains('\n'),
{
    let p = pieces(s, '\n');
    let line = lines(s, '\n', '\r')[i];
    lemma_pieces_nonempty(s, '\n');
    lemma_pieces_hold_none(s, '\n', i);
    if line.contains('\n') {
        let k = choose|k: int| 0 <= k < line.len() && line[k] == '\n';
        assert(p[i][k] == '\n');
        assert(p[i].contains('\n'));
    }
}

/// The line with the proxy's URL holds no end of line where the URL holds none.
proof fn lemma_url_line_holds_none(url: Seq<char>)
    requires
        !url.contains('\n'),
    ensures
        !url_line(url).contains('\n'),
        url_line(url).len() == 16 + url.len(),
        url_line(url)[0] == 'b',
{
    reveal_strlit("base_url = \"");
    reveal_strlit("/v1\"");
    let line = url_line(url);
    if line.contains('\n') {
        let k = choose|k: int| 0 <= k < line.len() && line[k] == '\n';
        if 12 <= k < 12 + url.len() {
            assert(url[k - 12] == '\n');
        }
    }
}

/// The header of the proxy's section begins it.
proof fn lemma_header_begins()
    ensures
        begins_section("[model_providers.agcp]"@),
        !"[model_providers.agcp]"@.contains('\n'),
        "[model_providers.agcp]"@.len() == 22,
{
    reveal_strlit("[model_providers.agcp]");
    let h = "[model_providers.agcp]"@;
    assert(h[0] == '[' && h[21] == ']');
    assert(trimmed_start(h) == h);
    assert(trimmed_end(h) == h);
    assert(h.subrange(0, 22) =~= h);
    assert(after(h, h) =~= Seq::empty());
    assert(trimmed(after(h, h)).len() == 0);
}

/// In a configuration with the proxy's section, a line begins it and a line gives the URL.
proof fn lemma_section_stands(content: Seq<char>, url: Seq<char>) -> (r: (Seq<char>, int, int))
    requires
        !url.contains('\n'),
    ensures
        begins_section(r.0),
        stands(with_section(content, url), r.0, r.1),
        stands(with_section(content, url), url_line(url), r.2),
{
    let l = lines(content, '\n', '\r');
    let n = l.len() as int;
    let line = url_line(url);
    lemma_url_line_holds_none(url);
    if has_section(l, n) {
        let r = section_lines(l, url);
        let end = section_end(l, 0);
        let b = choose|i: int| 0 <= i < n && begins_section(#[trigger] l[i]);
        lemma_section_end_within(l, 0);
        lemma_lines_hold_none(content, b);
        assert(!is_url_line(l, b));
        let k = if has_url_line(l, n) {
            choose|i: int| 0 <= i < n && #[trigger] is_url_line(l, i)
        } else {
            end
        };
        let h = if has_url_line(l, n) || b < end {
            b
        } else {
            b + 1
        };
        assert(r[k] == line);
        assert(r[h] == l[b]);
        (l[b], lemma_joined_stands(r, h), lemma_joined_stands(r, k))
    } else {
        let header = "[model_providers.agcp]"@;
        let open = "\n[model_providers.agcp]\nname = \"AGCP\"\nbase_url = \""@;
        let s = with_section(content, url);
        lemma_header_begins();
        lemma_section_opening();
        lemma_url_closing();
        lemma_section_parts(
            content,
            open,
            open.take(38),
            "base_url = \""@,
            url,
            "/v1\""@,
            "\n"@,
        );
        reveal_strlit("[model_providers.agcp]");
        reveal_strlit("\n[model_providers.agcp]\nname = \"AGCP\"\nbase_url = \"");
        reveal_strlit("\n");
        let a = content.len() as int + 1;
        let c = content.len() as int + 38;
        assert(s == content + open + (url + "/v1\"\n"@));
        assert(s == (content + open.take(38)) + line + "\n"@);
        assert(s.subrange(a, a + 22) =~= open.subrange(1, 23));
        assert(open.subrange(1, 23) =~= header);
        assert(s.subrange(c, c + line.len()) =~= line);
        (header, a, c)
    }
}

/// What comes before a text without its leading white space is white space.
proof fn lemma_spaces_before(s: Seq<char>)
    ensures
        ({
            let q = s.len() - trimmed_start(s).len();
            &&& 0 <= q
            &&& forall|k: int| 0 <= k < q ==> is_space(#[trigger] s[k])
            &&& s.subrange(q, s.len() as int) == trimmed_start(s)
        }),
    decreases s.len(),
{
    if s.len() > 0 && is_space(s[0]) {
        let rest = s.subrange(1, s.len() as int);
        lemma_spaces_before(rest);
        let q = s.len() - trimmed_start(s).len();
        assert forall|k: int| 0 <= k < q implies is_space(#[trigger] s[k]) by {
            if k > 0 {
                assert(is_space(rest[k - 1]));
            }
        }
        assert(s.subrange(q, s.len() as int) =~= rest.subrange(q - 1, rest.len() as int));
    } else {
        assert(s.subrange(0, s.len() as int) =~= s);
    }
}

/// A text without its trailing white space is its beginning.
proof fn lemma_trimmed_end_begins(s: Seq<char>)
    ensures
        trimmed_end(s).len() <= s.len(),
        s.take(trimmed_end(s).len() as int) == trimmed_end(s),
    decreases s.len(),
{
    if s.len() > 0 && is_space(s.last()) {
        lemma_trimmed_end_begins(s.drop_last());
        let n = trimmed_end(s).len() as int;
        assert(s.take(n) =~= s.drop_last().take(n));
    } else {
        assert(s.take(s.len() as int) =~= s);
    }
}

/// Where the header stands in a line that begins the proxy's section: behind white space.
proof fn lemma_header_place(line: Seq<char>) -> (q: int)
    requires
        begins_section(line),
    ensures
        0 <= q,
        occurs_at(line, "[model_providers.agcp]"@, q),
        forall|k: int| 0 <= k < q ==> is_space(#[trigger] line[k]),
{
    let header = "[model_providers.agcp]"@;
    let t = trimmed_start(line);
    let q = line.len() - t.len();
    lemma_spaces_before(line);
    lemma_trimmed_end_begins(t);
    assert(line.subrange(q, q + header.len()) =~= trimmed(line).subrange(
        0,
        header.len() as int,
    )) by {
        assert(t == line.subrange(q, line.len() as int));
        assert(trimmed(line) == t.take(trimmed(line).len() as int));
    }
    q
}

/// What lies before or behind a stretch of a text is still there when the stretch is
/// replaced.
proof fn lemma_kept_apart(s: Seq<char>, i: int, j: int, by: Seq<char>, p: Seq<char>, a: int)
    requires
        0 <= i <= j < s.len(),
        occurs_at(s, p, a),
        0 <= a,
        a + p.len() <= i || j < a,
    ensures
        holds(s.take(i) + by + s.subrange(j + 1, s.len() as int), p),
{
    let head = s.take(i);
    let tail = s.subrange(j + 1, s.len() as int);
    if a + p.len() <= i {
        assert(head.subrange(a, a + p.len()) =~= s.subrange(a, a + p.len()));
        assert(occurs_at(head, p, a));
        lemma_holds_part(Seq::empty(), head, by + tail, p);
        assert(Seq::empty() + head + (by + tail) =~= head + by + tail);
    } else {
        let b = a - (j + 1);
        assert(tail.subrange(b, b + p.len()) =~= s.subrange(a, a + p.len()));
        assert(occurs_at(tail, p, b));
        lemma_holds_part(head + by, tail, Seq::empty(), p);
        assert(head + by + tail + Seq::empty() =~= head + by + tail);
    }
}

/// A stretch without an end of line that touches a line lies within it.
proof fn lemma_within_line(s: Seq<char>, line: Seq<char>, a: int, i: int, j: int)
    requires
        stands(s, line, a),
        0 <= a,
        0 <= i <= j < s.len(),
        forall|k: int| i <= k <= j ==> #[trigger] s[k] != '\n',
    ensures
        a + line.len() <= i || j < a || (a <= i && j < a + line.len()),
{
    if i < a <= j {
        assert(s[a - 1] == '\n');
    }
    if a <= i < a + line.len() && a + line.len() <= j {
        assert(s[a + line.len()] == '\n');
    }
}

/// The characters that tell the opening of a provider from the header and from the URL.
proof fn lemma_opening()
    ensures
        ({
            let o = "model_provider = \""@;
            &&& o.len() == 18
            &&& o[0] == 'm'
            &&& o[14] == ' '
            &&& o[16] == ' '
            &&& o[17] == '"'
            &&& !is_space('m')
        }),
{
    reveal_strlit("model_provider = \"");
}

/// The opening of a provider does not stand in the line with the proxy's URL.
proof fn lemma_not_in_url(s: Seq<char>, url: Seq<char>, a: int, i: int)
    requires
        !url.contains('"'),
        occurs_at(s, url_line(url), a),
        0 <= a <= i,
        i + 18 <= a + url_line(url).len(),
    ensures
        !occurs_at(s, "model_provider = \""@, i),
{
    let line = url_line(url);
    let o = "model_provider = \""@;
    reveal_strlit("base_url = \"");
    reveal_strlit("/v1\"");
    lemma_opening();
    let q = i - a;
    if occurs_at(s, o, i) {
        assert(s.subrange(i, i + 18)[17] == o[17]);
        assert(s.subrange(i, i + 18)[16] == o[16]);
        assert(s.subrange(a, a + line.len())[q + 17] == line[q + 17]);
        assert(s.subrange(a, a + line.len())[q + 16] == line[q + 16]);
        assert(line[q + 17] == '"');
        assert(line.len() == 12 + url.len() + 4);
        if q + 17 < 12 + url.len() {
            assert(url[q + 17 - 12] == '"');
            assert(url.contains('"'));
        } else {
            let r = q + 17 - 12 - url.len();
            assert("/v1\""@[r] == '"');
            assert(r == 3);
            assert(line[q + 16] == "/v1\""@[2]);
        }
    }
}

/// The opening of a provider does not stand in the header of the proxy's section, nor before
/// it on its line.
proof fn lemma_not_in_header(s: Seq<char>, line: Seq<char>, b: int, q: int, i: int)
    requires
        occurs_at(s, line, b),
        occurs_at(line, "[model_providers.agcp]"@, q),
        0 <= q,
        forall|k: int| 0 <= k < q ==> is_space(#[trigger] line[k]),
        0 <= b <= i < b + q + 22,
    ensures
        !occurs_at(s, "model_provider = \""@, i),
{
    let h = "[model_providers.agcp]"@;
    let o = "model_provider = \""@;
    reveal_strlit("[model_providers.agcp]");
    lemma_opening();
    let k = i - b;
    if occurs_at(s, o, i) {
        assert(s.subrange(i, i + 18)[0] == o[0]);
        assert(s.subrange(b, b + line.len())[k] == line[k]);
        if k < q {
            assert(is_space(line[k]));
        } else {
            assert(line.subrange(q, q + 22)[k - q] == h[k - q]);
            assert(h[k - q] == 'm');
            assert(k - q == 1);
            assert(s.subrange(i, i + 18)[14] == o[14]);
            assert(line.subrange(q, q + 22)[15] == h[15]);
            assert(s.subrange(b, b + line.len())[k + 14] == line[k + 14]);
        }
    }
}

/// Whether the first provider that is named in quotes has its closing quote on the same line.
pub open spec fn closes_on_its_line(s: Seq<char>) -> bool {
    let opening = "model_provider = \""@;
    first_at(s, opening, 0) matches Some(i) ==> (first_at(s, "\""@, i + opening.len()) matches Some(
        j,
    ) ==> forall|k: int| i <= k <= j ==> #[trigger] s[k] != '\n')
}

/// Replacing the provider leaves the proxy's section as it is.
proof fn lemma_replaced_keeps(
    s: Seq<char>,
    url: Seq<char>,
    line: Seq<char>,
    b: int,
    a: int,
)
    requires
        !url.contains('"'),
        begins_section(line),
        stands(s, line, b),
        stands(s, url_line(url), a),
        closes_on_its_line(s),
    ensures
        codex_is_configured(crate::setup::provider_replaced(s), url),
{
    let opening = "model_provider = \""@;
    let header = "[model_providers.agcp]"@;
    let q = lemma_header_place(line);
    let h = b + q;
    lemma_opening();
    assert(occurs_at(s, header, h)) by {
        assert(s.subrange(h, h + header.len()) =~= s.subrange(b, b + line.len()).subrange(
            q,
            q + header.len(),
        ));
    }
    match first_at(s, opening, 0) {
        Some(i) => match first_at(s, "\""@, i + opening.len()) {
            Some(j) => {
                reveal_strlit("\"");
                lemma_header_begins();
                first_at_is_first(s, opening, 0);
                first_at_is_first(s, "\""@, i + opening.len());
                lemma_within_line(s, url_line(url), a, i, j);
                if a <= i && j < a + url_line(url).len() {
                    lemma_not_in_url(s, url, a, i);
                }
                lemma_kept_apart(s, i, j, provider_setting(), url_line(url), a);
                lemma_within_line(s, line, b, i, j);
                if b <= i < h + 22 {
                    lemma_not_in_header(s, line, b, q, i);
                }
                lemma_kept_apart(s, i, j, provider_setting(), header, h);
            },
            None => {},
        },
        None => {},
    }
}

/// A text in which a character is no white space is not blank.
proof fn lemma_not_blank(s: Seq<char>, k: int)
    requires
        0 <= k < s.len(),
        !is_space(s[k]),
    ensures
        trimmed(s).len() > 0,
{
    lemma_spaces_before(s);
    let t = trimmed_start(s);
    let q = s.len() - t.len();
    assert(k >= q);
    assert(t[k - q] == s[k]);
    lemma_not_blank_end(t, k - q);
}

proof fn lemma_not_blank_end(s: Seq<char>, k: int)
    requires
        0 <= k < s.len(),
        !is_space(s[k]),
    ensures
        trimmed_end(s).len() > 0,
    decreases s.len(),
{
    if is_space(s.last()) {
        lemma_not_blank_end(s.drop_last(), k);
    }
}

/// The comments and blank lines from a line's beginning on end before a line that is neither.
proof fn lemma_idle_before(s: Seq<char>, line: Seq<char>, a: int, i: int)
    requires
        stands(s, line, a),
        line.len() > 0,
        !is_idle_line(line),
        0 <= i <= a,
    ensures
        i <= behind_idle(s, i) <= a,
    decreases a - i,
{
    let e = next_of(s, '\n', i);
    next_of_is_next(s, '\n', i);
    if i == a {
        if e < s.len() {
            if e < a + line.len() {
                assert(s.subrange(a, a + line.len())[e - a] == '\n');
                assert(line.contains('\n'));
            }
            assert(s.subrange(a, e) =~= line);
        }
    } else {
        assert(s[a - 1] == '\n');
        if is_idle_line(s.subrange(i, e)) {
            lemma_idle_before(s, line, a, e + 1);
        }
    }
}

/// A line that begins with no number sign, and in which a character is no white space, is
/// neither a comment nor blank.
proof fn lemma_not_idle(line: Seq<char>, q: int)
    requires
        0 <= q < line.len(),
        !is_space(line[q]),
        line[0] != '#',
    ensures
        !is_idle_line(line),
{
    reveal_strlit("#");
    if starts(line, "#"@) {
        assert(line.subrange(0, 1)[0] == '#');
    }
    lemma_not_blank(line, q);
}

/// Once configured, Codex talks to the proxy: the configuration that is written has the
/// proxy's section with its URL, whatever it had before, unless a provider is named in quotes
/// that do not close on their line.
pub proof fn codex_is_configured_afterwards(content: Seq<char>, url: Seq<char>)
    requires
        !url.contains('\n'),
        !url.contains('"'),
        closes_on_its_line(with_section(content, url)),
    ensures
        codex_is_configured(with_provider(with_section(content, url)), url),
{
    let s = with_section(content, url);
    let (line, b, a) = lemma_section_stands(content, url);
    if holds(s, provider_setting()) {
        crate::setup::the_section_is_written(content, url);
    } else if holds(s, "model_provider = "@) {
        lemma_replaced_keeps(s, url, line, b, a);
    } else {
        let header = "[model_providers.agcp]"@;
        let q = lemma_header_place(line);
        let c = insert_place(s);
        let head = s.take(c);
        let tail = s.subrange(c, s.len() as int);
        let new = "model_provider = \"agcp\"\n"@;
        reveal_strlit("[model_providers.agcp]");
        lemma_url_line_holds_none(url);
        assert(line.subrange(q, q + header.len())[0] == header[0]);
        assert(!is_space('['));
        assert(!is_space('b'));
        if q > 0 {
            assert(is_space(line[0]));
        }
        lemma_not_idle(line, q);
        lemma_idle_before(s, line, b, 0);
        lemma_not_idle(url_line(url), 0);
        lemma_idle_before(s, url_line(url), a, 0);
        let all = head + new + tail;
        assert(tail.subrange(a - c, a - c + url_line(url).len()) =~= s.subrange(
            a,
            a + url_line(url).len(),
        ));
        assert(occurs_at(tail, url_line(url), a - c));
        lemma_holds_part(head + new, tail, Seq::empty(), url_line(url));
        let h = b + q;
        assert(tail.subrange(h - c, h - c + header.len()) =~= s.subrange(b, b + line.len()).subrange(
            q,
            q + header.len(),
        ));
        assert(occurs_at(tail, header, h - c));
        lemma_holds_part(head + new, tail, Seq::empty(), header);
        assert(head + new + tail + Seq::empty() =~= all);
    }
}

} // verus!
