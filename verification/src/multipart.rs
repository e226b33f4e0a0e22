//! Forms sent as `multipart/form-data`.

use vstd::prelude::*;
use vstd::utf8::encode_utf8;

use crate::errors::{invalid_request, is_invalid_request, ProxyError};
use crate::text::{
    after, ascii_lower, decode_lossy, decoded, first_at, first_at_is_first, lemma_encoded_join,
    lemma_encoded_len, lines, lines_of, occurs_at, pieces, same, split, starts,
    starts_with, strip_prefix, text_between, to_ascii_lower, trim, trim_char, trimmed, views,
    without_ends,
};

verus! {

/// A file in a form.
#[derive(Debug, Clone, PartialEq)]
pub struct MultipartFilePart {
    pub content_type: Option<String>,
    pub data: Vec<u8>,
}

/// What a file in a form says.
#[verifier::ext_equal]
pub struct FileView {
    pub content_type: Option<Seq<char>>,
    pub data: Seq<u8>,
}

impl MultipartFilePart {
    /// What this file says.
    pub open spec fn view(&self) -> FileView {
        FileView { content_type: crate::chat::opt(self.content_type), data: self.data@ }
    }
}

/// A form: its fields and its files, each with its name, in the order in which they came,
/// and the first file.
#[derive(Debug, Clone, PartialEq)]
pub struct MultipartFormData {
    pub fields: Vec<(String, String)>,
    pub files: Vec<(String, MultipartFilePart)>,
    pub file: Option<MultipartFilePart>,
}

/// What a form says.
#[verifier::ext_equal]
pub struct FormView {
    pub fields: Seq<(Seq<char>, Seq<char>)>,
    pub files: Seq<(Seq<char>, FileView)>,
    pub file: Option<FileView>,
}

impl MultipartFormData {
    /// What this form says.
    pub open spec fn view(&self) -> FormView {
        FormView {
            fields: field_views(self.fields@),
            files: Seq::new(self.files@.len(), |i: int| (self.files@[i].0@, self.files@[i].1@)),
            file: match self.file {
                Some(f) => Some(f@),
                None => None,
            },
        }
    }
}

/// The names and values of a list of fields.
pub open spec fn field_views(s: Seq<(String, String)>) -> Seq<(Seq<char>, Seq<char>)> {
    Seq::new(s.len(), |i: int| (s[i].0@, s[i].1@))
}

/// Whether the bytes `p` stand in `v` from index `i` on.
fn bytes_at(v: &[u8], p: &[u8], i: usize) -> (r: bool)
    requires
        i <= v@.len(),
    ensures
        r == occurs_at(v@, p@, i as int),
{
    let n: usize = v.len();
    if n - i < p.len() {
        return false;
    }
    let mut k: usize = 0;
    while k < p.len()
        invariant
            k <= p@.len(),
            i + p@.len() <= v@.len(),
            n == v@.len(),
            forall|j: int| 0 <= j < k ==> v@[i + j] == p@[j],
        decreases p@.len() - k,
    {
        if v[i + k] != p[k] {
            assert(v@.subrange(i as int, i + p@.len())[k as int] != p@[k as int]);
            return false;
        }
        k = k + 1;
    }
    assert(v@.subrange(i as int, i + p@.len()) =~= p@);
    true
}

/// The first index at or after `from` at which `needle` stands in `haystack`.
pub fn find_bytes(haystack: &[u8], needle: &[u8], from: usize) -> (r: Option<usize>)
    ensures
        match r {
            Some(i) => first_at(haystack@, needle@, from as int) == Some(i as int),
            None => first_at(haystack@, needle@, from as int) is None,
        },
{
    if needle.len() == 0 {
        return None;
    }
    let mut i: usize = from;
    while i < haystack.len()
        invariant
            from <= i,
            needle@.len() > 0,
            first_at(haystack@, needle@, from as int) == first_at(haystack@, needle@, i as int),
        decreases haystack@.len() - i,
    {
        if bytes_at(haystack, needle, i) {
            return Some(i);
        }
        i = i + 1;
    }
    None
}

/// The value of the first part, from index `i` on, that begins with `prefix`, without the
/// white space round the part and the quotes round the value.
pub open spec fn parameter(parts: Seq<Seq<char>>, prefix: Seq<char>, i: int) -> Option<Seq<char>>
    decreases parts.len() - i,
{
    if i < 0 || i >= parts.len() {
        None
    } else if starts(trimmed(parts[i]), prefix) {
        Some(without_ends(after(trimmed(parts[i]), prefix), '"'))
    } else {
        parameter(parts, prefix, i + 1)
    }
}

/// The value of the first part of a header that begins with `prefix`.
fn find_parameter(header: &str, prefix: &str) -> (r: Option<String>)
    ensures
        crate::chat::opt(r) == parameter(pieces(header@, ';'), prefix@, 0),
{
    let parts = split(header, ';');
    let ghost all = pieces(header@, ';');
    let mut i: usize = 0;
    while i < parts.len()
        invariant
            i <= parts@.len(),
            all == views(parts@),
            parameter(all, prefix@, 0) == parameter(all, prefix@, i as int),
            all == pieces(header@, ';'),
        decreases parts@.len() - i,
    {
        assert(all[i as int] == parts@[i as int]@);
        let part = trim(&parts[i]);
        match strip_prefix(&part, prefix) {
            Some(value) => {
                return Some(trim_char(&value, '"'));
            },
            None => {},
        }
        i = i + 1;
    }
    None
}

/// The boundary that a content type names.
pub fn parse_multipart_boundary(content_type: &str) -> (r: Option<String>)
    ensures
        crate::chat::opt(r) == parameter(pieces(content_type@, ';'), "boundary="@, 0),
{
    find_parameter(content_type, "boundary=")
}

/// A parameter of a content disposition.
pub fn parse_disposition_param(disposition: &str, key: &str) -> (r: Option<String>)
    ensures
        crate::chat::opt(r) == parameter(pieces(disposition@, ';'), key@ + "="@, 0),
{
    let mut prefix = key.to_owned();
    prefix.push_str("=");
    find_parameter(disposition, &prefix)
}

/// What the headers of a part say.
pub struct HeadView {
    pub name: Option<Seq<char>>,
    pub filename: Option<Seq<char>>,
    pub content_type: Option<Seq<char>>,
}

/// What the headers of a part say after one more line.
pub open spec fn head_with(h: HeadView, raw: Seq<char>) -> HeadView {
    let line = trimmed(raw);
    if starts(ascii_lower(line), "content-disposition:"@) {
        HeadView {
            name: parameter(pieces(line, ';'), "name"@ + "="@, 0),
            filename: parameter(pieces(line, ';'), "filename"@ + "="@, 0),
            ..h
        }
    } else if starts(ascii_lower(line), "content-type:"@) {
        HeadView { content_type: Some(trimmed(after(line, "content-type:"@))), ..h }
    } else {
        h
    }
}

/// What a list of header lines says.
pub open spec fn head_of(l: Seq<Seq<char>>) -> HeadView
    decreases l.len(),
{
    if l.len() == 0 {
        HeadView { name: None, filename: None, content_type: None }
    } else {
        head_with(head_of(l.drop_last()), l.last())
    }
}

/// A form with one more part: a file where it is named `file` or has a file name, else a
/// field, without the white space round its value; nothing where it has no name.
pub open spec fn with_part(form: FormView, h: HeadView, data: Seq<u8>) -> FormView {
    match h.name {
        None => form,
        Some(name) => if name == "file"@ || h.filename is Some {
            let f = FileView { content_type: h.content_type, data };
            FormView {
                files: form.files.push((name, f)),
                file: match form.file {
                    Some(first) => Some(first),
                    None => Some(f),
                },
                ..form
            }
        } else {
            FormView { fields: form.fields.push((name, trimmed(decoded(data)))), ..form }
        },
    }
}

/// The parts of a body come one after the other: the next boundary is after the last.
pub proof fn lemma_progress(
    body: Seq<u8>,
    boundary: Seq<char>,
    cursor: int,
    start: int,
    head: int,
    head_end: int,
    data_end: int,
)
    requires
        first_at(body, encode_utf8("--"@ + boundary), cursor) == Some(start),
        head >= start + encode_utf8("--"@ + boundary).len(),
        first_at(body, encode_utf8("\r\n\r\n"@), head) == Some(head_end),
        first_at(body, encode_utf8("\r\n--"@ + boundary), head_end + 4) == Some(data_end),
    ensures
        0 <= cursor <= start,
        encode_utf8("--"@ + boundary).len() >= 2,
        start + encode_utf8("--"@ + boundary).len() <= body.len(),
        head <= head_end,
        head_end + 4 <= data_end,
        head_end + 4 <= body.len(),
        cursor < data_end + 2 <= body.len(),
{
    reveal_strlit("--");
    reveal_strlit("\r\n\r\n");
    reveal_strlit("\r\n--");
    lemma_encoded_len("--"@ + boundary);
    lemma_encoded_len("\r\n\r\n"@);
    lemma_encoded_len("\r\n--"@ + boundary);
    first_at_is_first(body, encode_utf8("--"@ + boundary), cursor);
    first_at_is_first(body, encode_utf8("\r\n\r\n"@), head);
    first_at_is_first(body, encode_utf8("\r\n--"@ + boundary), head_end + 4);
}

/// The form that a body holds from `cursor` on, after `form`; `None` where a part has no
/// end to its headers or its data. The part after a boundary with two hyphens ends it.
pub open spec fn form_from(
    body: Seq<u8>,
    boundary: Seq<char>,
    cursor: int,
    form: FormView,
) -> Option<FormView>
    decreases body.len() - cursor,
{
    let marker = encode_utf8("--"@ + boundary);
    match first_at(body, marker, cursor) {
        None => Some(form),
        Some(start) => {
            let at = start + marker.len();
            if occurs_at(body, encode_utf8("--"@), at) {
                Some(form)
            } else {
                let head = if occurs_at(body, encode_utf8("\r\n"@), at) {
                    at + 2
                } else {
                    at
                };
                match first_at(body, encode_utf8("\r\n\r\n"@), head) {
                    None => None,
                    Some(head_end) => {
                        let data = head_end + 4;
                        match first_at(body, encode_utf8("\r\n--"@ + boundary), data) {
                            None => None,
                            Some(data_end) => {
                                proof {
                                    lemma_progress(
                                        body,
                                        boundary,
                                        cursor,
                                        start,
                                        head,
                                        head_end,
                                        data_end,
                                    );
                                }
                                form_from(
                                    body,
                                    boundary,
                                    data_end + 2,
                                    with_part(
                                        form,
                                        head_of(
                                            lines(
                                                decoded(body.subrange(head, head_end)),
                                                '\n',
                                                '\r',
                                            ),
                                        ),
                                        body.subrange(data, data_end),
                                    ),
                                )
                            },
                        }
                    },
                }
            }
        },
    }
}


/// An empty form.
pub open spec fn empty_form() -> FormView {
    FormView { fields: Seq::empty(), files: Seq::empty(), file: None }
}

/// What the headers of a part say.
struct PartHead {
    name: Option<String>,
    filename: Option<String>,
    content_type: Option<String>,
}

impl PartHead {
    spec fn view(&self) -> HeadView {
        HeadView {
            name: crate::chat::opt(self.name),
            filename: crate::chat::opt(self.filename),
            content_type: crate::chat::opt(self.content_type),
        }
    }
}

/// What the headers of a part say.
fn parse_head(headers: &str) -> (r: PartHead)
    ensures
        r@ == head_of(lines(headers@, '\n', '\r')),
{
    let list = lines_of(headers);
    let ghost all = lines(headers@, '\n', '\r');
    let mut name: Option<String> = None;
    let mut filename: Option<String> = None;
    let mut content_type: Option<String> = None;
    let mut i: usize = 0;
    assert(all.take(0) =~= Seq::empty());
    while i < list.len()
        invariant
            i <= list@.len(),
            all == views(list@),
            (HeadView {
                name: crate::chat::opt(name),
                filename: crate::chat::opt(filename),
                content_type: crate::chat::opt(content_type),
            }) == head_of(all.take(i as int)),
        decreases list@.len() - i,
    {
        assert(all.take(i + 1).drop_last() =~= all.take(i as int));
        assert(all.take(i + 1).last() == list@[i as int]@);
        let line = trim(&list[i]);
        let lower = to_ascii_lower(&line);
        if starts_with(&lower, "content-disposition:") {
            name = parse_disposition_param(&line, "name");
            filename = parse_disposition_param(&line, "filename");
        } else if starts_with(&lower, "content-type:") {
            let v = crate::text::chars_of(&line);
            proof {
                reveal_strlit("content-type:");
            }
            let value = text_between(&v, 13, v.len());
            content_type = Some(trim(&value));
        }
        i = i + 1;
    }
    assert(all.take(all.len() as int) =~= all);
    PartHead { name, filename, content_type }
}

/// The bytes `b[from..to]`.
fn bytes_between(b: &[u8], from: usize, to: usize) -> (r: Vec<u8>)
    requires
        from <= to <= b@.len(),
    ensures
        r@ == b@.subrange(from as int, to as int),
{
    let mut r: Vec<u8> = Vec::new();
    let mut i: usize = from;
    while i < to
        invariant
            from <= i <= to <= b@.len(),
            r@ == b@.subrange(from as int, i as int),
        decreases to - i,
    {
        r.push(b[i]);
        i = i + 1;
        assert(r@ =~= b@.subrange(from as int, i as int));
    }
    r
}

impl MultipartFilePart {
    /// The same file again.
    pub fn copy(&self) -> (r: MultipartFilePart)
        ensures
            r@ == self@,
    {
        let content_type = match &self.content_type {
            Some(t) => Some(t.clone()),
            None => None,
        };
        let data = bytes_between(&self.data, 0, self.data.len());
        assert(data@ =~= self.data@);
        MultipartFilePart { content_type, data }
    }
}

impl MultipartFormData {
    /// Takes one more part.
    fn take_part(&mut self, head: PartHead, data: Vec<u8>)
        ensures
            final(self)@ == with_part(old(self)@, head@, data@),
    {
        let ghost before = self@;
        match head.name {
            Some(name) => {
                if same(&name, "file") || head.filename.is_some() {
                    let part = MultipartFilePart { content_type: head.content_type, data };
                    let first = part.copy();
                    if self.file.is_none() {
                        self.file = Some(first);
                    }
                    let ghost f = part@;
                    self.files.push((name, part));
                    assert(self@.files =~= before.files.push((name@, f)));
                } else {
                    let raw = decode_lossy(&data);
                    let value = trim(&raw);
                    self.fields.push((name, value));
                    assert(self@.fields =~= before.fields.push((name@, value@)));
                }
            },
            None => {},
        }
        assert(self@ =~= with_part(before, head@, data@));
    }
}

/// The form that a body holds: an error where a part has no end to its headers or its data.
pub fn parse_multipart_form_data(body: &[u8], boundary: &str) -> (r: Result<
    MultipartFormData,
    ProxyError,
>)
    ensures
        match r {
            Ok(form) => form_from(body@, boundary@, 0, empty_form()) == Some(form@),
            Err(e) => form_from(body@, boundary@, 0, empty_form()) is None && is_invalid_request(
                e,
                "Malformed multipart payload"@,
            ),
        },
{
    let mut marker = "--".to_owned();
    marker.push_str(boundary);
    let mut next_marker = "\r\n--".to_owned();
    next_marker.push_str(boundary);
    let marker_bytes = marker.as_str().as_bytes();
    let next_bytes = next_marker.as_str().as_bytes();
    let hyphens = "--".as_bytes();
    let newline = "\r\n".as_bytes();
    let blank = "\r\n\r\n".as_bytes();
    proof {
        reveal_strlit("--");
        reveal_strlit("\r\n");
        reveal_strlit("\r\n\r\n");
        reveal_strlit("\r\n--");
        vstd::utf8::is_ascii_chars_encode_utf8("\r\n"@);
        lemma_encoded_len("--"@ + boundary@);
        lemma_encoded_len("\r\n\r\n"@);
        lemma_encoded_len("\r\n--"@ + boundary@);
    }
    let mut form = MultipartFormData { fields: Vec::new(), files: Vec::new(), file: None };
    assert(form@ =~= empty_form());
    let mut cursor: usize = 0;
    loop
        invariant
            cursor <= body@.len(),
            marker_bytes@ == encode_utf8("--"@ + boundary@),
            next_bytes@ == encode_utf8("\r\n--"@ + boundary@),
            hyphens@ == encode_utf8("--"@),
            newline@ == encode_utf8("\r\n"@),
            newline@.len() == 2,
            blank@ == encode_utf8("\r\n\r\n"@),
            marker_bytes@.len() >= 2,
            blank@.len() >= 4,
            next_bytes@.len() >= 4,
            form_from(body@, boundary@, 0, empty_form()) == form_from(
                body@,
                boundary@,
                cursor as int,
                form@,
            ),
        decreases body@.len() - cursor,
    {
        let n: usize = body.len();
        let start = match find_bytes(body, marker_bytes, cursor) {
            Some(s) => s,
            None => {
                return Ok(form);
            },
        };
        proof {
            first_at_is_first(body@, marker_bytes@, cursor as int);
        }
        let at: usize = start + marker_bytes.len();
        if bytes_at(body, hyphens, at) {
            return Ok(form);
        }
        let head: usize = if bytes_at(body, newline, at) {
            at + 2
        } else {
            at
        };
        let head_end = match find_bytes(body, blank, head) {
            Some(e) => e,
            None => {
                return Err(invalid_request("Malformed multipart payload"));
            },
        };
        proof {
            first_at_is_first(body@, blank@, head as int);
        }
        let data_start: usize = head_end + 4;
        let data_end = match find_bytes(body, next_bytes, data_start) {
            Some(e) => e,
            None => {
                return Err(invalid_request("Malformed multipart payload"));
            },
        };
        proof {
            first_at_is_first(body@, next_bytes@, data_start as int);
        }
        let head_bytes = bytes_between(body, head, head_end);
        let headers = decode_lossy(&head_bytes);
        let data = bytes_between(body, data_start, data_end);
        let parsed = parse_head(&headers);
        form.take_part(parsed, data);
        cursor = data_end + 2;
    }
}

/// The values of the fields of a name, in order.
pub open spec fn values_of(fields: Seq<(Seq<char>, Seq<char>)>, key: Seq<char>) -> Seq<Seq<char>>
    decreases fields.len(),
{
    if fields.len() == 0 {
        Seq::empty()
    } else {
        let before = values_of(fields.drop_last(), key);
        if fields.last().0 == key {
            before.push(fields.last().1)
        } else {
            before
        }
    }
}

/// The values of the fields of a name, in order.
pub fn multipart_field_values(fields: &Vec<(String, String)>, key: &str) -> (r: Vec<String>)
    ensures
        views(r@) == values_of(field_views(fields@), key@),
{
    let ghost all = field_views(fields@);
    let mut r: Vec<String> = Vec::new();
    let mut i: usize = 0;
    assert(all.take(0) =~= Seq::empty());
    assert(views(r@) =~= Seq::empty());
    while i < fields.len()
        invariant
            i <= fields@.len(),
            all == field_views(fields@),
            views(r@) == values_of(all.take(i as int), key@),
        decreases fields@.len() - i,
    {
        assert(all.take(i + 1).drop_last() =~= all.take(i as int));
        if same(&fields[i].0, key) {
            let ghost before = views(r@);
            r.push(fields[i].1.clone());
            assert(views(r@) =~= before.push(fields@[i as int].1@));
        }
        i = i + 1;
    }
    assert(all.take(all.len() as int) =~= all);
    r
}

/// The first value of a name.
pub open spec fn first_value(fields: Seq<(Seq<char>, Seq<char>)>, key: Seq<char>) -> Option<
    Seq<char>,
> {
    let v = values_of(fields, key);
    if v.len() > 0 {
        Some(v[0])
    } else {
        None
    }
}

/// The first value of a name.
pub fn multipart_first_field(fields: &Vec<(String, String)>, key: &str) -> (r: Option<String>)
    ensures
        crate::chat::opt(r) == first_value(field_views(fields@), key@),
{
    let mut v = multipart_field_values(fields, key);
    let ghost all = values_of(field_views(fields@), key@);
    assert(all.len() == v@.len());
    if v.len() > 0 {
        assert(all[0] == v@[0]@);
        Some(v.remove(0))
    } else {
        None
    }
}


/// Whether the first file stands apart exactly where there are files.
pub open spec fn first_file_stands(form: FormView) -> bool {
    form.file == (if form.files.len() > 0 {
        Some(form.files[0].1)
    } else {
        None
    })
}

/// The file that stands apart in a form that was read is the first of its files.
pub proof fn the_first_file_is_kept(
    body: Seq<u8>,
    boundary: Seq<char>,
    cursor: int,
    form: FormView,
)
    requires
        first_file_stands(form),
    ensures
        form_from(body, boundary, cursor, form) matches Some(f) ==> first_file_stands(f),
    decreases body.len() - cursor,
{
    let marker = encode_utf8("--"@ + boundary);
    match first_at(body, marker, cursor) {
        None => {},
        Some(start) => {
            let at = start + marker.len();
            if !occurs_at(body, encode_utf8("--"@), at) {
                let head = if occurs_at(body, encode_utf8("\r\n"@), at) {
                    at + 2
                } else {
                    at
                };
                match first_at(body, encode_utf8("\r\n\r\n"@), head) {
                    None => {},
                    Some(head_end) => {
                        match first_at(body, encode_utf8("\r\n--"@ + boundary), head_end + 4) {
                            None => {},
                            Some(data_end) => {
                                lemma_progress(
                                    body,
                                    boundary,
                                    cursor,
                                    start,
                                    head,
                                    head_end,
                                    data_end,
                                );
                                let more = with_part(
                                    form,
                                    head_of(
                                        lines(
                                            decoded(body.subrange(head, head_end)),
                                            '\n',
                                            '\r',
                                        ),
                                    ),
                                    body.subrange(head_end + 4, data_end),
                                );
                                assert(first_file_stands(more));
                                the_first_file_is_kept(body, boundary, data_end + 2, more);
                            },
                        }
                    },
                }
            }
        },
    }
}

/// A part as it is written: the bytes of its headers and its data.
pub struct WrittenPart {
    pub head: Seq<u8>,
    pub data: Seq<u8>,
}

/// Whether a part can be told from what is round it: the blank line that ends its headers and
/// the boundary that ends its data do not begin any earlier.
pub open spec fn stands_apart(p: WrittenPart, boundary: Seq<char>) -> bool {
    let blank = encode_utf8("\r\n\r\n"@);
    let next = encode_utf8("\r\n--"@ + boundary);
    &&& first_at(p.head + blank, blank, 0) == Some(p.head.len() as int)
    &&& first_at(p.data + next, next, 0) == Some(p.data.len() as int)
}

/// The body of a form: each part behind a boundary, and the boundary with two hyphens at the
/// end.
pub open spec fn written(parts: Seq<WrittenPart>, boundary: Seq<char>) -> Seq<u8>
    decreases parts.len(),
{
    let marker = encode_utf8("--"@ + boundary);
    if parts.len() == 0 {
        marker + encode_utf8("--"@)
    } else {
        marker + encode_utf8("\r\n"@) + parts[0].head + encode_utf8("\r\n\r\n"@) + parts[0].data
            + encode_utf8("\r\n"@) + written(parts.drop_first(), boundary)
    }
}

/// A form with the parts of a list, one after the other.
pub open spec fn with_parts(form: FormView, parts: Seq<WrittenPart>) -> FormView
    decreases parts.len(),
{
    if parts.len() == 0 {
        form
    } else {
        let head = head_of(lines(decoded(parts[0].head), '\n', '\r'));
        with_parts(with_part(form, head, parts[0].data), parts.drop_first())
    }
}

/// The bytes that stand between the parts.
pub(crate) proof fn lemma_separators(boundary: Seq<char>)
    ensures
        encode_utf8("\r\n"@).len() == 2,
        encode_utf8("--"@).len() == 2,
        encode_utf8("\r\n"@)[0] != encode_utf8("--"@)[0],
        encode_utf8("\r\n\r\n"@).len() == 4,
        encode_utf8("--"@ + boundary).len() >= 2,
        encode_utf8("\r\n--"@ + boundary) == encode_utf8("\r\n"@) + encode_utf8("--"@ + boundary),
{
    reveal_strlit("--");
    reveal_strlit("\r\n");
    reveal_strlit("\r\n\r\n");
    reveal_strlit("\r\n--");
    vstd::utf8::is_ascii_chars_encode_utf8("\r\n"@);
    vstd::utf8::is_ascii_chars_encode_utf8("--"@);
    vstd::utf8::is_ascii_chars_encode_utf8("\r\n\r\n"@);
    lemma_encoded_len("--"@ + boundary);
    assert("\r\n--"@ + boundary =~= "\r\n"@ + ("--"@ + boundary));
    lemma_encoded_join("\r\n"@, "--"@ + boundary);
}

/// What stands first in a text that begins with `t` at `at` stands there too.
proof fn lemma_first_within(body: Seq<u8>, at: int, part: Seq<u8>, n: Seq<u8>)
    requires
        0 <= at,
        n.len() > 0,
        occurs_at(body, part + n, at),
        first_at(part + n, n, 0) == Some(part.len() as int),
    ensures
        first_at(body, n, at) == Some(at + part.len()),
{
    let t = part + n;
    first_at_is_first(t, n, 0);
    first_at_is_first(body, n, at);
    let end = at + part.len();
    assert(body.subrange(at, at + t.len()) == t);
    assert(occurs_at(body, n, end)) by {
        assert(body.subrange(end, end + n.len()) =~= t.subrange(
            part.len() as int,
            t.len() as int,
        ));
        assert(t.subrange(part.len() as int, t.len() as int) =~= n);
    }
    assert forall|j: int| at <= j < end implies !occurs_at(body, n, j) by {
        if occurs_at(body, n, j) {
            assert(t.subrange(j - at, j - at + n.len()) =~= body.subrange(j, j + n.len()));
            assert(occurs_at(t, n, j - at));
        }
    }
}

/// Where a text stands in another, a part of it stands too.
proof fn lemma_part_occurs(body: Seq<u8>, at: int, a: Seq<u8>, b: Seq<u8>, c: Seq<u8>)
    requires
        0 <= at,
        occurs_at(body, a + b + c, at),
    ensures
        occurs_at(body, b, at + a.len()),
{
    let t = a + b + c;
    let i = at + a.len();
    assert(body.subrange(i, i + b.len()) =~= body.subrange(at, at + t.len()).subrange(
        a.len() as int,
        (a.len() + b.len()) as int,
    ));
    assert(t.subrange(a.len() as int, (a.len() + b.len()) as int) =~= b);
}

/// The pieces of a part, put together one way and another.
proof fn lemma_regrouped(
    m: Seq<u8>,
    nl: Seq<u8>,
    h: Seq<u8>,
    bl: Seq<u8>,
    d: Seq<u8>,
    nx: Seq<u8>,
    tail: Seq<u8>,
)
    ensures
        ({
            let w = m + nl + h + bl + d + nx + tail;
            &&& w == Seq::<u8>::empty() + m + (nl + h + bl + d + nx + tail)
            &&& w == m + nl + (h + bl + d + nx + tail)
            &&& w == (m + nl) + (h + bl) + (d + nx + tail)
            &&& w == (m + nl) + h + (bl + d + nx + tail)
            &&& w == (m + nl + h + bl) + (d + nx) + tail
            &&& w == (m + nl + h + bl) + d + (nx + tail)
        }),
{
    let w = m + nl + h + bl + d + nx + tail;
    assert(w =~= Seq::<u8>::empty() + m + (nl + h + bl + d + nx + tail));
    assert(w =~= m + nl + (h + bl + d + nx + tail));
    assert(w =~= (m + nl) + (h + bl) + (d + nx + tail));
    assert(w =~= (m + nl) + h + (bl + d + nx + tail));
    assert(w =~= (m + nl + h + bl) + (d + nx) + tail);
    assert(w =~= (m + nl + h + bl) + d + (nx + tail));
}

/// A part that is written at `cursor` is found there, from its boundary to the next.
proof fn lemma_part_read(
    body: Seq<u8>,
    cursor: int,
    p: WrittenPart,
    boundary: Seq<char>,
    tail: Seq<u8>,
)
    requires
        0 <= cursor,
        stands_apart(p, boundary),
        occurs_at(
            body,
            encode_utf8("--"@ + boundary) + encode_utf8("\r\n"@) + p.head + encode_utf8(
                "\r\n\r\n"@,
            ) + p.data + encode_utf8("\r\n--"@ + boundary) + tail,
            cursor,
        ),
    ensures
        ({
            let at = cursor + encode_utf8("--"@ + boundary).len();
            let head_end = at + 2 + p.head.len();
            let data = head_end + 4;
            let data_end = data + p.data.len();
            &&& first_at(body, encode_utf8("--"@ + boundary), cursor) == Some(cursor)
            &&& !occurs_at(body, encode_utf8("--"@), at)
            &&& occurs_at(body, encode_utf8("\r\n"@), at)
            &&& first_at(body, encode_utf8("\r\n\r\n"@), at + 2) == Some(head_end)
            &&& body.subrange(at + 2, head_end) == p.head
            &&& first_at(body, encode_utf8("\r\n--"@ + boundary), data) == Some(data_end)
            &&& body.subrange(data, data_end) == p.data
        }),
{
    let m = encode_utf8("--"@ + boundary);
    let hyphens = encode_utf8("--"@);
    let nl = encode_utf8("\r\n"@);
    let bl = encode_utf8("\r\n\r\n"@);
    let nx = encode_utf8("\r\n--"@ + boundary);
    let h = p.head;
    let d = p.data;
    lemma_separators(boundary);
    lemma_regrouped(m, nl, h, bl, d, nx, tail);
    let at = cursor + m.len();
    lemma_part_occurs(body, cursor, Seq::empty(), m, nl + h + bl + d + nx + tail);
    lemma_part_occurs(body, cursor, m, nl, h + bl + d + nx + tail);
    assert(!occurs_at(body, hyphens, at)) by {
        if occurs_at(body, hyphens, at) {
            assert(body.subrange(at, at + 2)[0] == hyphens[0]);
        }
    }
    lemma_part_occurs(body, cursor, m + nl, h + bl, d + nx + tail);
    lemma_first_within(body, at + 2, h, bl);
    lemma_part_occurs(body, cursor, m + nl, h, bl + d + nx + tail);
    lemma_part_occurs(body, cursor, m + nl + h + bl, d + nx, tail);
    lemma_first_within(body, at + 2 + h.len() + 4, d, nx);
    lemma_part_occurs(body, cursor, m + nl + h + bl, d, nx + tail);
}

/// What follows the marker of the first part, or of the end.
spec fn behind_marker(parts: Seq<WrittenPart>, boundary: Seq<char>) -> Seq<u8> {
    if parts.len() == 0 {
        encode_utf8("--"@)
    } else {
        encode_utf8("\r\n"@) + parts[0].head + encode_utf8("\r\n\r\n"@) + parts[0].data
            + encode_utf8("\r\n"@) + written(parts.drop_first(), boundary)
    }
}

/// How a part is followed by the next: by an end of line and its marker.
proof fn lemma_written_apart(parts: Seq<WrittenPart>, boundary: Seq<char>)
    requires
        parts.len() > 0,
    ensures
        ({
            let p = parts[0];
            let more = parts.drop_first();
            let m = encode_utf8("--"@ + boundary);
            let nl = encode_utf8("\r\n"@);
            let bl = encode_utf8("\r\n\r\n"@);
            &&& written(parts, boundary) == m + nl + p.head + bl + p.data + encode_utf8(
                "\r\n--"@ + boundary,
            ) + behind_marker(more, boundary)
            &&& written(parts, boundary) == (m + nl + p.head + bl + p.data + nl) + written(
                more,
                boundary,
            ) + Seq::<u8>::empty()
        }),
{
    let p = parts[0];
    let more = parts.drop_first();
    let m = encode_utf8("--"@ + boundary);
    let nl = encode_utf8("\r\n"@);
    let bl = encode_utf8("\r\n\r\n"@);
    let tail = behind_marker(more, boundary);
    lemma_separators(boundary);
    assert(written(more, boundary) =~= m + tail);
    let before = m + nl + p.head + bl + p.data;
    assert(before + nl + (m + tail) =~= before + (nl + m) + tail);
    assert(before + nl + written(more, boundary) =~= (before + nl) + written(more, boundary)
        + Seq::<u8>::empty());
}

/// A form that is written from `cursor` on is read from there.
proof fn lemma_form_read(
    body: Seq<u8>,
    cursor: int,
    parts: Seq<WrittenPart>,
    boundary: Seq<char>,
    form: FormView,
)
    requires
        0 <= cursor,
        occurs_at(body, written(parts, boundary), cursor),
        forall|i: int| 0 <= i < parts.len() ==> stands_apart(#[trigger] parts[i], boundary),
    ensures
        form_from(body, boundary, cursor, form) == Some(with_parts(form, parts)),
    decreases parts.len(),
{
    let m = encode_utf8("--"@ + boundary);
    lemma_separators(boundary);
    if parts.len() == 0 {
        let hyphens = encode_utf8("--"@);
        let none = Seq::<u8>::empty();
        assert(m + hyphens =~= none + m + hyphens);
        assert(m + hyphens =~= m + hyphens + none);
        lemma_part_occurs(body, cursor, none, m, hyphens);
        lemma_part_occurs(body, cursor, m, hyphens, none);
        assert(first_at(body, m, cursor) == Some(cursor));
    } else {
        let p = parts[0];
        let more = parts.drop_first();
        assert(stands_apart(p, boundary));
        lemma_written_apart(parts, boundary);
        lemma_part_read(body, cursor, p, boundary, behind_marker(more, boundary));
        let head = cursor + m.len() + 2;
        let head_end = head + p.head.len();
        let data_end = head_end + 4 + p.data.len();
        lemma_part_occurs(
            body,
            cursor,
            m + encode_utf8("\r\n"@) + p.head + encode_utf8("\r\n\r\n"@) + p.data + encode_utf8(
                "\r\n"@,
            ),
            written(more, boundary),
            Seq::empty(),
        );
        assert forall|i: int| 0 <= i < more.len() implies stands_apart(
            #[trigger] more[i],
            boundary,
        ) by {
            assert(stands_apart(parts[i + 1], boundary));
        }
        let taken = with_part(form, head_of(lines(decoded(p.head), '\n', '\r')), p.data);
        lemma_progress(body, boundary, cursor, cursor, head, head_end, data_end);
        lemma_form_read(body, data_end + 2, more, boundary, taken);
    }
}

/// A form that was written is read back: the parts that were put between boundaries, where
/// none of them holds what ends it, are the parts of the form, in their order and each with
/// its data byte for byte, whatever follows the last boundary.
pub proof fn written_parts_are_read_back(
    parts: Seq<WrittenPart>,
    boundary: Seq<char>,
    epilogue: Seq<u8>,
)
    requires
        forall|i: int| 0 <= i < parts.len() ==> stands_apart(#[trigger] parts[i], boundary),
    ensures
        form_from(written(parts, boundary) + epilogue, boundary, 0, empty_form()) == Some(
            with_parts(empty_form(), parts),
        ),
{
    let w = written(parts, boundary);
    assert((w + epilogue).subrange(0, w.len() as int) =~= w);
    lemma_form_read(w + epilogue, 0, parts, boundary, empty_form());
}

} // verus!
