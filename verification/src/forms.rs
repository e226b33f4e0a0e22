//! That a form that was sent is read back: its fields by their names and values, its files by
//! their names, types and data.

use vstd::prelude::*;
use vstd::utf8::encode_utf8;

use crate::multipart::{
    empty_form, form_from, head_of, head_with, lemma_separators, parameter, stands_apart,
    with_part, with_parts, written, written_parts_are_read_back, FileView, FormView, HeadView,
    WrittenPart,
};
use crate::text::{
    after, ascii_lower, decoded, first_at, first_at_is_first, holds, is_space, lemma_encoded_join,
    lemma_first_piece, lemma_one_piece, lines, occurs_at, pieces, starts, trimmed, trimmed_end,
    trimmed_start, without_end, without_ends, without_leading, without_trailing,
};

verus! {

/// A part of a form as it is sent: a field, or a file.
pub enum SentPart {
    Field { name: Seq<char>, value: Seq<char> },
    File { name: Seq<char>, filename: Seq<char>, content_type: Seq<char>, data: Seq<u8> },
}

/// The headers of a part.
pub open spec fn head_text(p: SentPart) -> Seq<char> {
    match p {
        SentPart::Field { name, .. } => field_head(name),
        SentPart::File { name, filename, content_type, .. } => file_head(name, filename)
            + "\r\n"@ + type_head(content_type),
    }
}

/// The header that names a field.
pub open spec fn field_head(name: Seq<char>) -> Seq<char> {
    "Content-Disposition: form-data; name=\""@ + name + "\""@
}

/// The header that names a file.
pub open spec fn file_head(name: Seq<char>, filename: Seq<char>) -> Seq<char> {
    field_head(name) + "; filename=\""@ + filename + "\""@
}

/// The header with the type of a file.
pub open spec fn type_head(content_type: Seq<char>) -> Seq<char> {
    "Content-Type: "@ + content_type
}

/// The bytes that a part sends.
pub open spec fn sent_data(p: SentPart) -> Seq<u8> {
    match p {
        SentPart::Field { value, .. } => encode_utf8(value),
        SentPart::File { data, .. } => data,
    }
}

/// A part as it is written.
pub open spec fn as_written(p: SentPart) -> WrittenPart {
    WrittenPart { head: encode_utf8(head_text(p)), data: sent_data(p) }
}

/// The body of a form: each part behind a boundary, the boundary with two hyphens at the end,
/// and whatever follows it, an end of line for one.
pub open spec fn sent_body(
    parts: Seq<SentPart>,
    boundary: Seq<char>,
    epilogue: Seq<u8>,
) -> Seq<u8> {
    written(Seq::new(parts.len(), |i: int| as_written(parts[i])), boundary) + epilogue
}

/// Whether a text can stand in quotes in a header.
pub open spec fn is_plain_word(t: Seq<char>) -> bool {
    !t.contains('"') && !t.contains(';') && !t.contains('\r') && !t.contains('\n')
}

/// Whether a part can be sent: its names stand in quotes, a field is not named as a file, a
/// type fits on its line without white space round it, and the boundary does not occur in
/// what is sent.
pub open spec fn can_be_sent(p: SentPart, boundary: Seq<char>) -> bool {
    &&& !holds(sent_data(p), encode_utf8("\r\n--"@ + boundary))
    &&& match p {
        SentPart::Field { name, .. } => is_plain_word(name) && name != "file"@,
        SentPart::File { name, filename, content_type, .. } => {
            &&& is_plain_word(name)
            &&& is_plain_word(filename)
            &&& !content_type.contains('\r')
            &&& !content_type.contains('\n')
            &&& trimmed(content_type) == content_type
        },
    }
}

/// The names and values of the fields, in the order in which they are sent, without the white
/// space round the values.
pub open spec fn sent_fields(parts: Seq<SentPart>) -> Seq<(Seq<char>, Seq<char>)>
    decreases parts.len(),
{
    if parts.len() == 0 {
        Seq::empty()
    } else {
        let more = sent_fields(parts.drop_first());
        match parts[0] {
            SentPart::Field { name, value } => seq![(name, trimmed(value))] + more,
            SentPart::File { .. } => more,
        }
    }
}

/// The names, types and data of the files, in the order in which they are sent.
pub open spec fn sent_files(parts: Seq<SentPart>) -> Seq<(Seq<char>, FileView)>
    decreases parts.len(),
{
    if parts.len() == 0 {
        Seq::empty()
    } else {
        let more = sent_files(parts.drop_first());
        match parts[0] {
            SentPart::Field { .. } => more,
            SentPart::File { name, content_type, data, .. } => seq![
                (name, FileView { content_type: Some(content_type), data }),
            ] + more,
        }
    }
}

/// The form that is sent: its fields, its files, and the first of them.
pub open spec fn sent_form(parts: Seq<SentPart>) -> FormView {
    let files = sent_files(parts);
    FormView {
        fields: sent_fields(parts),
        files,
        file: if files.len() > 0 {
            Some(files[0].1)
        } else {
            None
        },
    }
}

/// The bytes of a character are itself where it is an ASCII character, else none of them is.
proof fn lemma_scalar_bytes(c: u32, i: int)
    requires
        0 <= i < vstd::utf8::encode_scalar(c).len(),
    ensures
        vstd::utf8::encode_scalar(c)[i] < 0x80 ==> c < 0x80 && vstd::utf8::encode_scalar(c)[i] == c,
{
    assert(c <= 0x7F ==> (c & 0x7F) as u8 == c) by (bit_vector);
    let a = ((c >> 6) & 0x1F) as u8;
    let b = ((c >> 12) & 0x0F) as u8;
    let d = ((c >> 18) & 0x7) as u8;
    let e = (c & 0x3F) as u8;
    let f = ((c >> 6) & 0x3F) as u8;
    let g = ((c >> 12) & 0x3F) as u8;
    assert(0xC0u8 | a >= 0x80) by (bit_vector);
    assert(0xE0u8 | b >= 0x80) by (bit_vector);
    assert(0xF0u8 | d >= 0x80) by (bit_vector);
    assert(0x80u8 | e >= 0x80) by (bit_vector);
    assert(0x80u8 | f >= 0x80) by (bit_vector);
    assert(0x80u8 | g >= 0x80) by (bit_vector);
}

/// An ASCII character that a text does not hold is not among its bytes.
proof fn lemma_bytes_without(s: Seq<char>, c: char)
    requires
        !s.contains(c),
        (c as u32) < 0x80,
    ensures
        !encode_utf8(s).contains(c as u8),
    decreases s.len(),
{
    if s.len() > 0 {
        let first = vstd::utf8::encode_scalar(s[0] as u32);
        let rest = s.drop_first();
        if rest.contains(c) {
            let i = choose|i: int| 0 <= i < rest.len() && rest[i] == c;
            assert(s[i + 1] == c);
        }
        lemma_bytes_without(rest, c);
        let all = encode_utf8(s);
        assert(all == first + encode_utf8(rest));
        if all.contains(c as u8) {
            let i = choose|i: int| 0 <= i < all.len() && all[i] == c as u8;
            if i < first.len() {
                lemma_scalar_bytes(s[0] as u32, i);
                vstd::utf8::char_u32_cast(s[0], s[0] as u32);
                vstd::utf8::char_u32_cast(c, c as u32);
                assert(s[0] as u32 == c as u32);
                assert(s[0] == c);
                assert(s.contains(c));
            } else {
                assert(encode_utf8(rest)[i - first.len()] == c as u8);
                assert(encode_utf8(rest).contains(c as u8));
            }
        }
    }
}

/// What two texts do not hold, the two in a row do not hold.
proof fn lemma_neither_holds(a: Seq<char>, b: Seq<char>, c: char)
    requires
        !a.contains(c),
        !b.contains(c),
    ensures
        !(a + b).contains(c),
{
    if (a + b).contains(c) {
        let i = choose|i: int| 0 <= i < (a + b).len() && (a + b)[i] == c;
        if i < a.len() {
            assert(a[i] == c);
        } else {
            assert(b[i - a.len()] == c);
        }
    }
}

/// The bytes between the parts.
proof fn lemma_separator_bytes()
    ensures
        encode_utf8("\r\n"@) == seq![13u8, 10u8],
        encode_utf8("\r\n\r\n"@) == seq![13u8, 10u8, 13u8, 10u8],
        "\r\n"@ == seq!['\r', '\n'],
        !"--"@.contains('\r'),
{
    reveal_strlit("\r\n");
    reveal_strlit("\r\n\r\n");
    reveal_strlit("--");
    vstd::utf8::is_ascii_chars_encode_utf8("\r\n"@);
    vstd::utf8::is_ascii_chars_encode_utf8("\r\n\r\n"@);
    assert("\r\n"@ =~= seq!['\r', '\n']);
    assert(encode_utf8("\r\n"@) =~= seq![13u8, 10u8]);
    assert(encode_utf8("\r\n\r\n"@) =~= seq![13u8, 10u8, 13u8, 10u8]);
}

/// Where something stands first, from the places where it does not stand.
proof fn lemma_first_at_end(part: Seq<u8>, n: Seq<u8>)
    requires
        n.len() > 0,
        forall|j: int| 0 <= j < part.len() ==> !#[trigger] occurs_at(part + n, n, j),
    ensures
        first_at(part + n, n, 0) == Some(part.len() as int),
{
    let t = part + n;
    let end = part.len() as int;
    first_at_is_first(t, n, 0);
    assert(t.subrange(end, end + n.len()) =~= n);
    assert(occurs_at(t, n, end));
}

/// The boundary that ends the data of a part does not begin in it.
proof fn lemma_data_apart(data: Seq<u8>, boundary: Seq<char>)
    requires
        !boundary.contains('\r'),
        !holds(data, encode_utf8("\r\n--"@ + boundary)),
    ensures
        ({
            let next = encode_utf8("\r\n--"@ + boundary);
            first_at(data + next, next, 0) == Some(data.len() as int)
        }),
{
    let next = encode_utf8("\r\n--"@ + boundary);
    let marker = encode_utf8("--"@ + boundary);
    let t = data + next;
    lemma_separators(boundary);
    lemma_separator_bytes();
    lemma_neither_holds("--"@, boundary, '\r');
    lemma_bytes_without("--"@ + boundary, '\r');
    assert(next == seq![13u8, 10u8] + marker);
    assert forall|k: int| 1 <= k < next.len() implies #[trigger] next[k] != 13u8 by {
        if k >= 2 {
            assert(next[k] == marker[k - 2]);
            assert(marker.contains(marker[k - 2]));
        }
    }
    assert forall|j: int| 0 <= j < data.len() implies !#[trigger] occurs_at(t, next, j) by {
        if occurs_at(t, next, j) {
            let o = data.len() - j;
            if o < next.len() {
                assert(t.subrange(j, j + next.len())[o] == t[data.len() as int]);
                assert(next[o] == next[0]);
            } else {
                assert(data.subrange(j, j + next.len()) =~= t.subrange(j, j + next.len()));
                assert(occurs_at(data, next, j));
            }
        }
    }
    lemma_first_at_end(data, next);
}

/// The blank line that ends headers of one line does not begin in them.
proof fn lemma_line_apart(head: Seq<char>)
    requires
        !head.contains('\r'),
    ensures
        ({
            let h = encode_utf8(head);
            let blank = encode_utf8("\r\n\r\n"@);
            first_at(h + blank, blank, 0) == Some(h.len() as int)
        }),
{
    let h = encode_utf8(head);
    let blank = encode_utf8("\r\n\r\n"@);
    let t = h + blank;
    lemma_separator_bytes();
    lemma_bytes_without(head, '\r');
    assert forall|j: int| 0 <= j < h.len() implies !#[trigger] occurs_at(t, blank, j) by {
        if occurs_at(t, blank, j) {
            assert(t.subrange(j, j + 4)[0] == h[j]);
            assert(h.contains(13u8));
        }
    }
    lemma_first_at_end(h, blank);
}

/// The blank line that ends headers of two lines does not begin in them.
proof fn lemma_lines_apart(first: Seq<char>, second: Seq<char>)
    requires
        !first.contains('\r'),
        !second.contains('\r'),
        second.len() > 0,
        second[0] == 'C',
    ensures
        ({
            let h = encode_utf8(first + "\r\n"@ + second);
            let blank = encode_utf8("\r\n\r\n"@);
            first_at(h + blank, blank, 0) == Some(h.len() as int)
        }),
{
    let a = encode_utf8(first);
    let b = encode_utf8(second);
    let blank = encode_utf8("\r\n\r\n"@);
    lemma_separator_bytes();
    lemma_encoded_join(first + "\r\n"@, second);
    lemma_encoded_join(first, "\r\n"@);
    lemma_bytes_without(first, '\r');
    lemma_bytes_without(second, '\r');
    let h = a + seq![13u8, 10u8] + b;
    let t = h + blank;
    assert(b.len() > 0) by {
        crate::text::lemma_encoded_len(second);
    }
    assert forall|j: int| 0 <= j < h.len() implies !#[trigger] occurs_at(t, blank, j) by {
        if occurs_at(t, blank, j) {
            assert(t.subrange(j, j + 4)[0] == h[j]);
            if j < a.len() {
                assert(a[j] == 13u8);
                assert(a.contains(13u8));
            } else if j == a.len() {
                assert(t.subrange(j, j + 4)[2] == b[0]);
                assert(b.contains(13u8));
            } else if j >= a.len() + 2 {
                assert(b[j - a.len() - 2] == 13u8);
                assert(b.contains(13u8));
            }
        }
    }
    lemma_first_at_end(h, blank);
}

/// A text with no white space at its ends stays as it is.
proof fn lemma_trimmed_itself(s: Seq<char>)
    requires
        s.len() > 0,
        !is_space(s[0]),
        !is_space(s.last()),
    ensures
        trimmed(s) == s,
{
    assert(trimmed_start(s) == s);
}

/// A space before a text with no white space at its ends goes.
proof fn lemma_space_goes(s: Seq<char>)
    requires
        s.len() > 0,
        !is_space(s[0]),
        !is_space(s.last()),
    ensures
        trimmed(seq![' '] + s) == s,
{
    let t = seq![' '] + s;
    assert(t.subrange(1, t.len() as int) =~= s);
    assert(trimmed_start(s) == s);
    assert(trimmed_start(t) == trimmed_start(t.subrange(1, t.len() as int)));
}

/// A text in which trimming changes nothing has no white space at its ends.
proof fn lemma_no_space_round(s: Seq<char>)
    requires
        s.len() > 0,
        trimmed(s) == s,
    ensures
        !is_space(s[0]),
        !is_space(s.last()),
{
    let t = trimmed_start(s);
    lemma_start_is_shorter(s);
    lemma_end_is_shorter(t);
    assert(t.len() == s.len());
    if is_space(s[0]) {
        lemma_start_is_shorter(s.subrange(1, s.len() as int));
    }
    assert(t == s);
    if is_space(s.last()) {
        lemma_end_is_shorter(s.drop_last());
    }
}

proof fn lemma_start_is_shorter(s: Seq<char>)
    ensures
        trimmed_start(s).len() <= s.len(),
    decreases s.len(),
{
    if s.len() > 0 && is_space(s[0]) {
        lemma_start_is_shorter(s.subrange(1, s.len() as int));
    }
}

proof fn lemma_end_is_shorter(s: Seq<char>)
    ensures
        trimmed_end(s).len() <= s.len(),
    decreases s.len(),
{
    if s.len() > 0 && is_space(s.last()) {
        lemma_end_is_shorter(s.drop_last());
    }
}

/// The quotes round a text without quotes go.
proof fn lemma_unquoted(t: Seq<char>)
    requires
        !t.contains('"'),
    ensures
        without_ends("\""@ + t + "\""@, '"') == t,
{
    reveal_strlit("\"");
    let q = "\""@ + t + "\""@;
    let r = t + "\""@;
    assert(q.subrange(1, q.len() as int) =~= r);
    if t.len() == 0 {
        assert(r[0] == '"');
        assert(r.subrange(1, r.len() as int) =~= t);
        assert(without_leading(r, '"') == without_leading(t, '"'));
        assert(without_leading(q, '"') == without_leading(r, '"'));
    } else {
        assert(t[0] != '"') by {
            if t[0] == '"' {
                assert(t.contains('"'));
            }
        }
        assert(t.last() != '"') by {
            if t.last() == '"' {
                assert(t.contains('"'));
            }
        }
        assert(without_leading(r, '"') == r);
        assert(r.last() == '"');
        assert(r.drop_last() =~= t);
        assert(without_trailing(r, '"') == without_trailing(t, '"'));
    }
}

/// The literals of the headers.
proof fn lemma_header_literals()
    ensures
        ({
            let a = "Content-Disposition: form-data"@;
            &&& a.len() == 30
            &&& a[0] == 'C'
            &&& a.last() == 'a'
            &&& !a.contains(';')
            &&& !a.contains('\r')
            &&& !a.contains('\n')
            &&& ascii_lower(a).subrange(0, 20) == "content-disposition:"@
            &&& "Content-Disposition: form-data; name=\""@ == a.push(';') + " name="@ + "\""@
        }),
        " name="@ == seq![' '] + "name="@,
        "name="@ == "name"@ + "="@,
        "name="@.len() == 5,
        "name="@[0] == 'n',
        " filename="@ == seq![' '] + "filename="@,
        "filename="@ == "filename"@ + "="@,
        "filename="@.len() == 9,
        "filename="@[0] == 'f',
        "; filename=\""@ == seq![';'] + " filename="@ + "\""@,
        "\""@ == seq!['"'],
        "content-disposition:"@.len() == 20,
{
    reveal_strlit("Content-Disposition: form-data");
    reveal_strlit("content-disposition:");
    reveal_strlit("Content-Disposition: form-data; name=\"");
    reveal_strlit(" name=");
    reveal_strlit("name=");
    reveal_strlit("name");
    reveal_strlit("=");
    reveal_strlit(" filename=");
    reveal_strlit("filename=");
    reveal_strlit("filename");
    reveal_strlit("; filename=\"");
    reveal_strlit("\"");
    let a = "Content-Disposition: form-data"@;
    assert(ascii_lower(a).subrange(0, 20) =~= "content-disposition:"@);
    assert("Content-Disposition: form-data; name=\""@ =~= a.push(';') + " name="@ + "\""@);
    assert(" name="@ =~= seq![' '] + "name="@);
    assert("name="@ =~= "name"@ + "="@);
    assert(" filename="@ =~= seq![' '] + "filename="@);
    assert("filename="@ =~= "filename"@ + "="@);
    assert("; filename=\""@ =~= seq![';'] + " filename="@ + "\""@);
    assert("\""@ =~= seq!['"']);
}

/// A parameter of a header: a space, its key, and its value in quotes.
spec fn header_part(key: Seq<char>, t: Seq<char>) -> Seq<char> {
    seq![' '] + (key + "\""@ + t + "\""@)
}

/// A parameter of a header begins with its key, and its value is what stands in the quotes.
proof fn lemma_header_part(key: Seq<char>, t: Seq<char>)
    requires
        key.len() > 0,
        !is_space(key[0]),
        !t.contains('"'),
    ensures
        ({
            let part = trimmed(header_part(key, t));
            &&& part.len() > 0
            &&& part[0] == key[0]
            &&& starts(part, key)
            &&& without_ends(after(part, key), '"') == t
        }),
{
    lemma_header_literals();
    let s = key + "\""@ + t + "\""@;
    assert(s.last() == '"');
    assert(!is_space('"'));
    lemma_space_goes(s);
    assert(s.subrange(0, key.len() as int) =~= key);
    assert(after(s, key) =~= "\""@ + t + "\""@);
    lemma_unquoted(t);
}

/// A parameter of a header holds no separator where its key and its value hold none.
proof fn lemma_part_holds_none(key: Seq<char>, t: Seq<char>, c: char)
    requires
        !key.contains(c),
        !t.contains(c),
        c != ' ',
        c != '"',
    ensures
        !header_part(key, t).contains(c),
{
    lemma_header_literals();
    lemma_neither_holds(key, "\""@, c);
    lemma_neither_holds(key + "\""@, t, c);
    lemma_neither_holds(key + "\""@ + t, "\""@, c);
    lemma_neither_holds(seq![' '], key + "\""@ + t + "\""@, c);
}

/// How the header that names a field is made up.
proof fn lemma_field_head(name: Seq<char>)
    ensures
        field_head(name) == "Content-Disposition: form-data"@.push(';') + header_part(
            "name="@,
            name,
        ),
{
    lemma_header_literals();
    assert(field_head(name) =~= "Content-Disposition: form-data"@.push(';') + header_part(
        "name="@,
        name,
    ));
}

/// How the header that names a file is made up.
proof fn lemma_file_head(name: Seq<char>, filename: Seq<char>)
    ensures
        file_head(name, filename) == "Content-Disposition: form-data"@.push(';') + (header_part(
            "name="@,
            name,
        ).push(';') + header_part("filename="@, filename)),
{
    lemma_header_literals();
    lemma_field_head(name);
    assert(file_head(name, filename) =~= "Content-Disposition: form-data"@.push(';') + (
    header_part("name="@, name).push(';') + header_part("filename="@, filename)));
}

/// The keys hold no separator.
proof fn lemma_keys()
    ensures
        !"name="@.contains(';') && !"name="@.contains('\r') && !"name="@.contains('\n'),
        !"filename="@.contains(';') && !"filename="@.contains('\r') && !"filename="@.contains(
            '\n',
        ),
{
    reveal_strlit("name=");
    reveal_strlit("filename=");
}

/// A header that begins as one that names a part does is read as one.
proof fn lemma_is_disposition(line: Seq<char>, rest: Seq<char>)
    requires
        line == "Content-Disposition: form-data"@.push(';') + rest,
        rest.len() > 0,
        rest.last() == '"',
    ensures
        trimmed(line) == line,
        starts(ascii_lower(line), "content-disposition:"@),
{
    let a = "Content-Disposition: form-data"@;
    lemma_header_literals();
    assert(line[0] == 'C' && line.last() == '"');
    lemma_trimmed_itself(line);
    assert(ascii_lower(line).subrange(0, 20) =~= ascii_lower(a).subrange(0, 20));
}

/// What the header that names a field says.
proof fn lemma_field_head_read(h: HeadView, name: Seq<char>)
    requires
        is_plain_word(name),
    ensures
        head_with(h, field_head(name)) == (HeadView { name: Some(name), filename: None, ..h }),
{
    let a = "Content-Disposition: form-data"@;
    let b = header_part("name="@, name);
    let line = field_head(name);
    lemma_header_literals();
    lemma_keys();
    lemma_field_head(name);
    lemma_header_part("name="@, name);
    lemma_is_disposition(line, b);
    lemma_part_holds_none("name="@, name, ';');
    lemma_first_piece(a, ';', b);
    lemma_one_piece(b, ';');
    let parts = pieces(line, ';');
    assert(parts =~= seq![a, b]);
    lemma_trimmed_itself(a);
    lemma_no_start(a, "name="@);
    lemma_no_start(a, "filename="@);
    lemma_no_start(trimmed(b), "filename="@);
    reveal_with_fuel(parameter, 4);
    assert(parameter(parts, "name"@ + "="@, 0) == Some(name));
    assert(parameter(parts, "filename"@ + "="@, 0) is None);
}

/// A text does not begin with one that begins otherwise.
proof fn lemma_no_start(s: Seq<char>, p: Seq<char>)
    requires
        s.len() > 0,
        p.len() > 0,
        s[0] != p[0],
    ensures
        !starts(s, p),
{
    if starts(s, p) {
        assert(s.subrange(0, p.len() as int)[0] == s[0]);
    }
}

/// What the header that names a file says.
proof fn lemma_file_head_read(h: HeadView, name: Seq<char>, filename: Seq<char>)
    requires
        is_plain_word(name),
        is_plain_word(filename),
    ensures
        head_with(h, file_head(name, filename)) == (HeadView {
            name: Some(name),
            filename: Some(filename),
            ..h
        }),
{
    let a = "Content-Disposition: form-data"@;
    let b = header_part("name="@, name);
    let c = header_part("filename="@, filename);
    let line = file_head(name, filename);
    lemma_header_literals();
    lemma_keys();
    lemma_file_head(name, filename);
    lemma_header_part("name="@, name);
    lemma_header_part("filename="@, filename);
    lemma_is_disposition(line, b.push(';') + c);
    lemma_part_holds_none("name="@, name, ';');
    lemma_part_holds_none("filename="@, filename, ';');
    lemma_first_piece(a, ';', b.push(';') + c);
    lemma_first_piece(b, ';', c);
    lemma_one_piece(c, ';');
    let parts = pieces(line, ';');
    assert(parts =~= seq![a, b, c]);
    lemma_trimmed_itself(a);
    lemma_no_start(a, "name="@);
    lemma_no_start(a, "filename="@);
    lemma_no_start(trimmed(b), "filename="@);
    reveal_with_fuel(parameter, 4);
    assert(parameter(parts, "name"@ + "="@, 0) == Some(name));
    assert(parameter(parts, "filename"@ + "="@, 0) == Some(filename));
}

/// What the header with a type says.
proof fn lemma_type_head_read(h: HeadView, content_type: Seq<char>)
    requires
        trimmed(content_type) == content_type,
    ensures
        head_with(h, type_head(content_type)) == (HeadView {
            content_type: Some(content_type),
            ..h
        }),
{
    reveal_strlit("Content-Type: ");
    reveal_strlit("content-type:");
    reveal_strlit("content-disposition:");
    let raw = type_head(content_type);
    let p = "Content-Type: "@;
    assert(p.len() == 14 && p[0] == 'C' && p[8] == 'T' && p[12] == ':' && p[13] == ' ');
    let line = trimmed(raw);
    if content_type.len() == 0 {
        assert(raw =~= p);
        assert(trimmed_start(raw) == raw);
        assert(!is_space(raw.drop_last().last()));
        assert(is_space(raw.last()));
        assert(trimmed_end(raw) == trimmed_end(raw.drop_last()));
        assert(trimmed_end(raw.drop_last()) == raw.drop_last());
        assert(after(line, "content-type:"@) =~= content_type);
    } else {
        lemma_no_space_round(content_type);
        lemma_trimmed_itself(raw);
        assert(after(line, "content-type:"@) =~= seq![' '] + content_type);
        lemma_space_goes(content_type);
    }
    assert(line.len() >= 13);
    assert(forall|i: int| 0 <= i < 13 ==> line[i] == p[i]);
    assert(ascii_lower(line).subrange(0, 13) =~= "content-type:"@);
    assert(!starts(ascii_lower(line), "content-disposition:"@)) by {
        if starts(ascii_lower(line), "content-disposition:"@) {
            assert(ascii_lower(line).subrange(0, 20)[8] == ascii_lower(line)[8]);
            assert("content-disposition:"@[8] == 'd');
        }
    }
}

/// What the headers of a part say.
spec fn sent_head(p: SentPart) -> HeadView {
    match p {
        SentPart::Field { name, .. } => HeadView {
            name: Some(name),
            filename: None,
            content_type: None,
        },
        SentPart::File { name, filename, content_type, .. } => HeadView {
            name: Some(name),
            filename: Some(filename),
            content_type: Some(content_type),
        },
    }
}

/// The headers of a part hold no end of line but the one between two of them.
proof fn lemma_heads_hold_none(name: Seq<char>, filename: Seq<char>, c: char)
    requires
        is_plain_word(name),
        is_plain_word(filename),
        c == '\r' || c == '\n',
    ensures
        !field_head(name).contains(c),
        !file_head(name, filename).contains(c),
{
    let a = "Content-Disposition: form-data"@;
    let b = header_part("name="@, name);
    let d = header_part("filename="@, filename);
    lemma_header_literals();
    lemma_keys();
    lemma_field_head(name);
    lemma_file_head(name, filename);
    lemma_part_holds_none("name="@, name, c);
    lemma_part_holds_none("filename="@, filename, c);
    assert(!seq![';'].contains(c));
    lemma_neither_holds(a, seq![';'], c);
    assert(a + seq![';'] =~= a.push(';'));
    lemma_neither_holds(a.push(';'), b, c);
    lemma_neither_holds(b, seq![';'], c);
    assert(b + seq![';'] =~= b.push(';'));
    lemma_neither_holds(b.push(';'), d, c);
    lemma_neither_holds(a.push(';'), b.push(';') + d, c);
}

/// The headers of a part are read as they were written.
proof fn lemma_head_read(p: SentPart, boundary: Seq<char>)
    requires
        can_be_sent(p, boundary),
    ensures
        head_of(lines(decoded(as_written(p).head), '\n', '\r')) == sent_head(p),
{
    let text = head_text(p);
    let none = HeadView { name: None, filename: None, content_type: None };
    vstd::utf8::encode_utf8_valid_utf8(text);
    vstd::utf8::encode_utf8_decode_utf8(text);
    let l = lines(text, '\n', '\r');
    reveal_with_fuel(head_of, 3);
    match p {
        SentPart::Field { name, .. } => {
            lemma_heads_hold_none(name, name, '\n');
            lemma_one_piece(text, '\n');
            lemma_field_head(name);
            assert(l =~= seq![text]);
            assert(l.drop_last() =~= Seq::empty());
            lemma_field_head_read(none, name);
        },
        SentPart::File { name, filename, content_type, .. } => {
            let first = file_head(name, filename);
            let second = type_head(content_type);
            let marked = first.push('\r');
            reveal_strlit("Content-Type: ");
            lemma_separator_bytes();
            lemma_heads_hold_none(name, filename, '\n');
            lemma_neither_holds("Content-Type: "@, content_type, '\n');
            lemma_neither_holds(first, seq!['\r'], '\n');
            assert(first + seq!['\r'] =~= marked);
            assert(text =~= marked.push('\n') + second);
            lemma_first_piece(marked, '\n', second);
            lemma_one_piece(second, '\n');
            let parts = pieces(text, '\n');
            assert(parts =~= seq![marked, second]);
            assert(without_end(marked, '\r') =~= first);
            assert(l =~= seq![first, second]);
            assert(l.drop_last() =~= seq![first]);
            assert(seq![first].drop_last() =~= Seq::empty());
            lemma_file_head_read(none, name, filename);
            lemma_type_head_read(
                HeadView { name: Some(name), filename: Some(filename), ..none },
                content_type,
            );
        },
    }
}

/// A part that can be sent stands apart from what is round it.
proof fn lemma_sent_apart(p: SentPart, boundary: Seq<char>)
    requires
        can_be_sent(p, boundary),
        !boundary.contains('\r'),
    ensures
        stands_apart(as_written(p), boundary),
{
    lemma_data_apart(sent_data(p), boundary);
    match p {
        SentPart::Field { name, .. } => {
            lemma_heads_hold_none(name, name, '\r');
            lemma_line_apart(head_text(p));
        },
        SentPart::File { name, filename, content_type, .. } => {
            reveal_strlit("Content-Type: ");
            lemma_heads_hold_none(name, filename, '\r');
            lemma_neither_holds("Content-Type: "@, content_type, '\r');
            lemma_lines_apart(file_head(name, filename), type_head(content_type));
        },
    }
}

/// A form with the parts that are sent, one after the other.
proof fn lemma_parts_taken(form: FormView, parts: Seq<SentPart>, boundary: Seq<char>)
    requires
        forall|i: int| 0 <= i < parts.len() ==> can_be_sent(#[trigger] parts[i], boundary),
    ensures
        with_parts(form, Seq::new(parts.len(), |i: int| as_written(parts[i]))) == (FormView {
            fields: form.fields + sent_fields(parts),
            files: form.files + sent_files(parts),
            file: match form.file {
                Some(first) => Some(first),
                None => sent_form(parts).file,
            },
        }),
    decreases parts.len(),
{
    let all = Seq::new(parts.len(), |i: int| as_written(parts[i]));
    let r = with_parts(form, all);
    if parts.len() == 0 {
        assert(form.fields + sent_fields(parts) =~= form.fields);
        assert(form.files + sent_files(parts) =~= form.files);
    } else {
        let p = parts[0];
        let more = parts.drop_first();
        assert(can_be_sent(p, boundary));
        lemma_head_read(p, boundary);
        assert(all[0] == as_written(p));
        assert(all.drop_first() =~= Seq::new(more.len(), |i: int| as_written(more[i])));
        let taken = with_part(form, sent_head(p), sent_data(p));
        assert(r == with_parts(taken, all.drop_first()));
        assert forall|i: int| 0 <= i < more.len() implies can_be_sent(#[trigger] more[i], boundary) by {
            assert(can_be_sent(parts[i + 1], boundary));
        }
        lemma_parts_taken(taken, more, boundary);
        match p {
            SentPart::Field { name, value } => {
                vstd::utf8::encode_utf8_valid_utf8(value);
                vstd::utf8::encode_utf8_decode_utf8(value);
                assert(form.fields.push((name, trimmed(value))) + sent_fields(more)
                    =~= form.fields + sent_fields(parts));
            },
            SentPart::File { name, content_type, data, .. } => {
                let f = FileView { content_type: Some(content_type), data };
                assert(form.files.push((name, f)) + sent_files(more) =~= form.files + sent_files(
                    parts,
                ));
                assert(sent_files(parts)[0] == (name, f));
            },
        }
    }
}

/// A form that was sent is read back: its fields with their names and values, without the
/// white space round them, and its files with their names, their types and their data byte
/// for byte, each in the order in which they were sent, and nothing else; the file that stands
/// apart is the first that was sent.
pub proof fn a_sent_form_is_read_back(
    parts: Seq<SentPart>,
    boundary: Seq<char>,
    epilogue: Seq<u8>,
)
    requires
        !boundary.contains('\r'),
        forall|i: int| 0 <= i < parts.len() ==> can_be_sent(#[trigger] parts[i], boundary),
    ensures
        form_from(sent_body(parts, boundary, epilogue), boundary, 0, empty_form()) == Some(
            sent_form(parts),
        ),
{
    let all = Seq::new(parts.len(), |i: int| as_written(parts[i]));
    assert forall|i: int| 0 <= i < all.len() implies stands_apart(#[trigger] all[i], boundary) by {
        assert(can_be_sent(parts[i], boundary));
        lemma_sent_apart(parts[i], boundary);
    }
    written_parts_are_read_back(all, boundary, epilogue);
    lemma_parts_taken(empty_form(), parts, boundary);
    assert(empty_form().fields + sent_fields(parts) =~= sent_fields(parts));
    assert(empty_form().files + sent_files(parts) =~= sent_files(parts));
}

} // verus!
