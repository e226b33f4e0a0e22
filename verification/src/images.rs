//! OpenAI's Images API on top of Gemini: what is checked, what is asked, what is answered.

use vstd::prelude::*;

use crate::chat::opt;
use crate::json::{
    array_view, compact_json, json_object, json_str, json_text, json_uint, uint, with, Json,
    JsonView,
};
use crate::multipart::{
    first_value, multipart_first_field, FileView, FormView, MultipartFilePart, MultipartFormData,
};
use crate::reply::{
    error_body, json_ok_reply, json_ok_response, openai_error_response, ErrorFormat, Reply,
    ReplyView,
};
use crate::routes::ImageEditMode;
use crate::text::{
    contains, decimal, decimal_text, holds, number, parse_number_u32, same, starts, starts_with,
    trim, trimmed, views,
};

verus! {

/// A request to generate images.
#[derive(Debug, Clone, PartialEq)]
pub struct ImagesGenerationsRequest {
    pub prompt: Option<String>,
    pub model: Option<String>,
    pub n: Option<u32>,
    pub response_format: Option<String>,
    pub size: Option<String>,
    pub quality: Option<String>,
    pub style: Option<String>,
    pub user: Option<String>,
}

/// One part of a message to or from Gemini.
#[derive(Debug, Clone, PartialEq)]
pub enum GooglePart {
    Text { text: String },
    InlineData { mime_type: String, data: String },
    Other,
}

/// What a part says.
pub enum PartView {
    Text { text: Seq<char> },
    InlineData { mime_type: Seq<char>, data: Seq<char> },
    Other,
}

impl GooglePart {
    /// What this part says.
    pub open spec fn view(&self) -> PartView {
        match *self {
            GooglePart::Text { text } => PartView::Text { text: text@ },
            GooglePart::InlineData { mime_type, data } => PartView::InlineData {
                mime_type: mime_type@,
                data: data@,
            },
            GooglePart::Other => PartView::Other,
        }
    }
}

/// What a list of parts says.
pub open spec fn part_views(s: Seq<GooglePart>) -> Seq<PartView> {
    Seq::new(s.len(), |i: int| s[i]@)
}

/// A request of an OpenAI API that is not in order, answered.
pub open spec fn bad_request(message: Seq<char>) -> ReplyView {
    ReplyView {
        status: 400,
        headers: seq![("Content-Type"@, "application/json"@)],
        body: compact_json(
            error_body(message, "invalid_request_error"@, ErrorFormat::OpenAI, None),
        ),
    }
}

/// A request of an OpenAI API that is not in order, answered.
pub fn bad_request_reply(message: &str) -> (r: Reply)
    ensures
        r@ == bad_request(message@),
{
    openai_error_response(400, message, "invalid_request_error")
}

/// An upstream reply that is of no use, answered.
pub open spec fn bad_gateway(message: Seq<char>) -> ReplyView {
    ReplyView {
        status: 502,
        headers: seq![("Content-Type"@, "application/json"@)],
        body: compact_json(error_body(message, "api_error"@, ErrorFormat::OpenAI, None)),
    }
}

/// The sizes that can be asked for.
pub open spec fn is_size(s: Seq<char>) -> bool {
    s == "256x256"@ || s == "512x512"@ || s == "1024x1024"@ || s == "1024x1536"@ || s
        == "1536x1024"@ || s == "auto"@
}

/// The qualities that can be asked for.
pub open spec fn is_quality(s: Seq<char>) -> bool {
    s == "low"@ || s == "medium"@ || s == "high"@ || s == "standard"@ || s == "hd"@ || s == "auto"@
}

/// The styles that can be asked for.
pub open spec fn is_style(s: Seq<char>) -> bool {
    s == "vivid"@ || s == "natural"@
}

/// The first thing that is wrong with the parameters of an image request.
pub open spec fn parameter_fault(
    response_format: Seq<char>,
    n: u32,
    size: Option<Seq<char>>,
    quality: Option<Seq<char>>,
    style: Option<Seq<char>>,
) -> Option<Seq<char>> {
    if response_format != "b64_json"@ && response_format != "url"@ {
        Some("Unsupported response_format (supported: b64_json, url)"@)
    } else if n < 1 || n > 10 {
        Some("n must be between 1 and 10"@)
    } else if size is Some && !is_size(size->0) {
        Some(
            "Unsupported size (supported: 256x256, 512x512, 1024x1024, 1024x1536, 1536x1024, auto)"@,
        )
    } else if quality is Some && !is_quality(quality->0) {
        Some("Unsupported quality (supported: low, medium, high, standard, hd, auto)"@)
    } else if style is Some && !is_style(style->0) {
        Some("Unsupported style (supported: vivid, natural)"@)
    } else {
        None
    }
}

/// The reply to an image request whose parameters are not in order; `None` where they are.
pub fn validate_openai_image_params(
    response_format: &str,
    candidate_count: u32,
    size: &Option<String>,
    quality: &Option<String>,
    style: &Option<String>,
) -> (r: Option<Reply>)
    ensures
        match r {
            Some(reply) => parameter_fault(
                response_format@,
                candidate_count,
                opt(*size),
                opt(*quality),
                opt(*style),
            ) matches Some(m) && reply@ == bad_request(m),
            None => parameter_fault(
                response_format@,
                candidate_count,
                opt(*size),
                opt(*quality),
                opt(*style),
            ) is None,
        },
{
    if !same(response_format, "b64_json") && !same(response_format, "url") {
        return Some(bad_request_reply("Unsupported response_format (supported: b64_json, url)"));
    }
    if candidate_count < 1 || candidate_count > 10 {
        return Some(bad_request_reply("n must be between 1 and 10"));
    }
    match size {
        Some(s) => {
            if !(same(s, "256x256") || same(s, "512x512") || same(s, "1024x1024") || same(
                s,
                "1024x1536",
            ) || same(s, "1536x1024") || same(s, "auto")) {
                return Some(
                    bad_request_reply(
                        "Unsupported size (supported: 256x256, 512x512, 1024x1024, 1024x1536, 1536x1024, auto)",
                    ),
                );
            }
        },
        None => {},
    }
    match quality {
        Some(s) => {
            if !(same(s, "low") || same(s, "medium") || same(s, "high") || same(s, "standard")
                || same(s, "hd") || same(s, "auto")) {
                return Some(
                    bad_request_reply(
                        "Unsupported quality (supported: low, medium, high, standard, hd, auto)",
                    ),
                );
            }
        },
        None => {},
    }
    match style {
        Some(s) => {
            if !(same(s, "vivid") || same(s, "natural")) {
                return Some(bad_request_reply("Unsupported style (supported: vivid, natural)"));
            }
        },
        None => {},
    }
    None
}

/// Whether a content type is that of JSON; the reply where it is not.
pub fn check_json_content_type(content_type: &str) -> (r: Option<Reply>)
    ensures
        match r {
            Some(reply) => !holds(content_type@, "application/json"@) && reply@ == bad_request(
                "Content-Type must be application/json"@,
            ),
            None => holds(content_type@, "application/json"@),
        },
{
    if contains(content_type, "application/json") {
        None
    } else {
        Some(bad_request_reply("Content-Type must be application/json"))
    }
}

/// The reply to a body that is not the JSON it should be, from what the parser said.
pub fn invalid_json_reply(reason: &str) -> (r: Reply)
    ensures
        r@ == bad_request("Invalid JSON: "@ + reason@),
{
    let mut m = "Invalid JSON: ".to_owned();
    m.push_str(reason);
    bad_request_reply(&m)
}

/// What is asked of the model, for one image request.
#[derive(Debug, Clone, PartialEq)]
pub struct ImagePlan {
    pub response_format: String,
    pub candidate_count: u32,
    pub requested_model: String,
    /// The prompt that a mock reply is made from.
    pub prompt_seed: String,
    pub parts: Vec<GooglePart>,
}

/// The text of a preference, where there is one.
pub open spec fn preference(label: Seq<char>, value: Option<Seq<char>>) -> Seq<char> {
    match value {
        Some(v) => label + v + "."@,
        None => Seq::empty(),
    }
}

/// Appends the text of a preference, where there is one.
fn push_preference(text: &mut String, label: &str, value: &Option<String>)
    ensures
        final(text)@ == old(text)@ + preference(label@, opt(*value)),
{
    match value {
        Some(v) => {
            text.push_str(label);
            text.push_str(v);
            text.push_str(".");
            assert(text@ =~= old(text)@ + preference(label@, opt(*value)));
        },
        None => {
            assert(text@ =~= old(text)@ + preference(label@, opt(*value)));
        },
    }
}

/// The value, or what it is where it is missing.
pub open spec fn or_else(v: Option<Seq<char>>, missing: Seq<char>) -> Seq<char> {
    match v {
        Some(t) => t,
        None => missing,
    }
}

/// The value, or what it is where it is missing.
fn text_or(v: &Option<String>, missing: &str) -> (r: String)
    ensures
        r@ == or_else(opt(*v), missing@),
{
    match v {
        Some(t) => t.clone(),
        None => missing.to_owned(),
    }
}

/// The preferences of a request, in the order in which the model is told them.
pub open spec fn preferences(
    size: Option<Seq<char>>,
    quality: Option<Seq<char>>,
    style: Option<Seq<char>>,
    user: Option<Seq<char>>,
) -> Seq<char> {
    preference(" Preferred size: "@, size) + preference(" Preferred quality: "@, quality)
        + preference(" Preferred style: "@, style) + preference(" User context: "@, user)
}

/// The first thing that is wrong with a request to generate images.
pub open spec fn generation_fault(q: ImagesGenerationsRequest) -> Option<Seq<char>> {
    match q.prompt {
        None => Some("Missing required field: prompt"@),
        Some(p) => if trimmed(p@).len() == 0 {
            Some("prompt cannot be empty"@)
        } else {
            parameter_fault(
                or_else(opt(q.response_format), "b64_json"@),
                match q.n {
                    Some(n) => n,
                    None => 1,
                },
                opt(q.size),
                opt(q.quality),
                opt(q.style),
            )
        },
    }
}

/// Whether a plan is that of a request to generate images.
pub open spec fn is_generation_plan(p: ImagePlan, q: ImagesGenerationsRequest) -> bool {
    &&& p.response_format@ == or_else(opt(q.response_format), "b64_json"@)
    &&& p.candidate_count == match q.n {
        Some(n) => n,
        None => 1,
    }
    &&& p.requested_model@ == or_else(opt(q.model), "gemini-3-flash"@)
    &&& p.prompt_seed@ == or_else(opt(q.prompt), Seq::empty())
    &&& part_views(p.parts@) == seq![
        PartView::Text {
            text: "Generate an image for the following prompt. Return image data only."@
                + preferences(opt(q.size), opt(q.quality), opt(q.style), opt(q.user))
                + "\n\nPrompt: "@ + or_else(opt(q.prompt), Seq::empty()),
        },
    ]
}

/// What is asked of the model to generate images, or the reply where the request is not in
/// order.
pub fn plan_images_generation(q: &ImagesGenerationsRequest) -> (r: Result<ImagePlan, Reply>)
    ensures
        match r {
            Ok(p) => generation_fault(*q) is None && is_generation_plan(p, *q),
            Err(reply) => generation_fault(*q) matches Some(m) && reply@ == bad_request(m),
        },
{
    let prompt = match &q.prompt {
        Some(p) => p,
        None => {
            return Err(bad_request_reply("Missing required field: prompt"));
        },
    };
    if trim(prompt).as_str().is_empty() {
        return Err(bad_request_reply("prompt cannot be empty"));
    }
    let response_format = text_or(&q.response_format, "b64_json");
    let candidate_count: u32 = match q.n {
        Some(n) => n,
        None => 1,
    };
    match validate_openai_image_params(
        &response_format,
        candidate_count,
        &q.size,
        &q.quality,
        &q.style,
    ) {
        Some(reply) => {
            return Err(reply);
        },
        None => {},
    }
    let mut text = "Generate an image for the following prompt. Return image data only.".to_owned();
    let ghost opening = text@;
    push_preference(&mut text, " Preferred size: ", &q.size);
    push_preference(&mut text, " Preferred quality: ", &q.quality);
    push_preference(&mut text, " Preferred style: ", &q.style);
    push_preference(&mut text, " User context: ", &q.user);
    assert(text@ =~= opening + preferences(opt(q.size), opt(q.quality), opt(q.style), opt(q.user)));
    text.push_str("\n\nPrompt: ");
    text.push_str(prompt);
    let mut parts: Vec<GooglePart> = Vec::new();
    let ghost said = text@;
    parts.push(GooglePart::Text { text });
    assert(part_views(parts@) =~= seq![PartView::Text { text: said }]);
    Ok(
        ImagePlan {
            response_format,
            candidate_count,
            requested_model: text_or(&q.model, "gemini-3-flash"),
            prompt_seed: prompt.clone(),
            parts,
        },
    )
}


/// Whether the base64 text of bytes fits in memory at all.
pub open spec fn encodable(bytes: Seq<u8>) -> bool {
    4 * ((bytes.len() + 2) / 3) <= isize::MAX
}

/// The base64 character of a number below 64: letters, small letters, digits, `+`, `/`.
pub open spec fn base64_char(n: int) -> char {
    if n < 26 {
        ('A' as int + n) as char
    } else if n < 52 {
        ('a' as int + (n - 26)) as char
    } else if n < 62 {
        ('0' as int + (n - 52)) as char
    } else if n == 62 {
        '+'
    } else {
        '/'
    }
}

/// The standard base64 text of bytes: four characters for every three of them, six bits to a
/// character, and padding where fewer are left.
pub open spec fn base64_text(b: Seq<u8>) -> Seq<char>
    decreases b.len(),
{
    if b.len() == 0 {
        Seq::empty()
    } else {
        let x = b[0] as int;
        let y = if b.len() > 1 {
            b[1] as int
        } else {
            0
        };
        let z = if b.len() > 2 {
            b[2] as int
        } else {
            0
        };
        let third = if b.len() > 1 {
            base64_char(y % 16 * 4 + z / 64)
        } else {
            '='
        };
        let fourth = if b.len() > 2 {
            base64_char(z % 64)
        } else {
            '='
        };
        let four = seq![base64_char(x / 4), base64_char(x % 4 * 16 + y / 16), third, fourth];
        if b.len() <= 3 {
            four
        } else {
            four + base64_text(b.subrange(3, b.len() as int))
        }
    }
}

/// `base64`'s `STANDARD` engine, `encode`: the standard alphabet, with padding.
#[verifier::external_body]
pub(crate) fn base64_encode(bytes: &[u8]) -> (r: String)
    requires
        encodable(bytes@),
    ensures
        r@ == base64_text(bytes@),
{
    base64::Engine::encode(&base64::engine::general_purpose::STANDARD, bytes)
}

/// The part that sends a file: its own type where that is an image's, else the default.
pub open spec fn file_part(f: FileView, default_mime: Seq<char>) -> PartView {
    PartView::InlineData {
        mime_type: match f.content_type {
            Some(t) => if starts(t, "image/"@) {
                t
            } else {
                default_mime
            },
            None => default_mime,
        },
        data: base64_text(f.data),
    }
}

/// The part that sends a file.
pub fn image_file_to_google_part(file: &MultipartFilePart, default_mime: &str) -> (r: GooglePart)
    requires
        encodable(file.data@),
    ensures
        r@ == file_part(file@, default_mime@),
{
    let mime_type = match &file.content_type {
        Some(t) => {
            if starts_with(t, "image/") {
                t.clone()
            } else {
                default_mime.to_owned()
            }
        },
        None => default_mime.to_owned(),
    };
    GooglePart::InlineData { mime_type, data: base64_encode(&file.data) }
}

/// The first index, from `i` on, of a file of a name.
pub open spec fn file_from(files: Seq<(Seq<char>, FileView)>, name: Seq<char>, i: int) -> Option<int>
    decreases files.len() - i,
{
    if i < 0 || i >= files.len() {
        None
    } else if files[i].0 == name {
        Some(i)
    } else {
        file_from(files, name, i + 1)
    }
}

/// The first index of a file of a name.
pub fn multipart_first_file(form: &MultipartFormData, key: &str) -> (r: Option<usize>)
    ensures
        match r {
            Some(i) => file_from(form@.files, key@, 0) == Some(i as int) && i < form.files@.len(),
            None => file_from(form@.files, key@, 0) is None,
        },
{
    let mut i: usize = 0;
    while i < form.files.len()
        invariant
            i <= form.files@.len(),
            file_from(form@.files, key@, 0) == file_from(form@.files, key@, i as int),
        decreases form.files@.len() - i,
    {
        assert(form@.files[i as int].0 == form.files@[i as int].0@);
        if same(&form.files[i].0, key) {
            return Some(i);
        }
        i = i + 1;
    }
    None
}

/// The names of the files.
pub open spec fn file_names(files: Seq<(Seq<char>, FileView)>) -> Seq<Seq<char>> {
    Seq::new(files.len(), |i: int| files[i].0)
}

/// The first file of the first name, from index `k` on, that begins with `image`.
pub open spec fn image_from(
    files: Seq<(Seq<char>, FileView)>,
    names: Seq<Seq<char>>,
    k: int,
) -> Option<int>
    decreases names.len() - k,
{
    if k < 0 || k >= names.len() {
        None
    } else if starts(names[k], "image"@) && file_from(files, names[k], 0) is Some {
        file_from(files, names[k], 0)
    } else {
        image_from(files, names, k + 1)
    }
}

/// The image that a request is about: the first file named `image`, else the first named
/// `file`, else the first of the names that begin with `image`, in the order of the names.
pub open spec fn primary(files: Seq<(Seq<char>, FileView)>) -> Option<int> {
    if file_from(files, "image"@, 0) is Some {
        file_from(files, "image"@, 0)
    } else if file_from(files, "file"@, 0) is Some {
        file_from(files, "file"@, 0)
    } else {
        image_from(files, crate::order::in_order(file_names(files)), 0)
    }
}

/// The names of the files in ascending order, each once.
fn sorted_file_names(form: &MultipartFormData) -> (r: Vec<String>)
    ensures
        views(r@) == crate::order::in_order(file_names(form@.files)),
{
    let mut names: Vec<String> = Vec::new();
    let mut i: usize = 0;
    while i < form.files.len()
        invariant
            i <= form.files@.len(),
            names@.len() == i,
            forall|j: int| 0 <= j < i ==> (#[trigger] names@[j])@ == form.files@[j].0@,
        decreases form.files@.len() - i,
    {
        names.push(form.files[i].0.clone());
        i = i + 1;
    }
    assert(views(names@) =~= file_names(form@.files));
    crate::order::names_in_order(&names)
}

/// The index of the image that a request is about.
pub fn select_primary_image(form: &MultipartFormData) -> (r: Option<usize>)
    ensures
        match r {
            Some(i) => primary(form@.files) == Some(i as int) && i < form.files@.len(),
            None => primary(form@.files) is None,
        },
{
    match multipart_first_file(form, "image") {
        Some(i) => {
            return Some(i);
        },
        None => {},
    }
    match multipart_first_file(form, "file") {
        Some(i) => {
            return Some(i);
        },
        None => {},
    }
    let names = sorted_file_names(form);
    let ghost all = crate::order::in_order(file_names(form@.files));
    let mut k: usize = 0;
    while k < names.len()
        invariant
            k <= names@.len(),
            all == views(names@),
            primary(form@.files) == image_from(form@.files, all, 0),
            image_from(form@.files, all, 0) == image_from(form@.files, all, k as int),
        decreases names@.len() - k,
    {
        assert(all[k as int] == names@[k as int]@);
        if starts_with(&names[k], "image") {
            match multipart_first_file(form, &names[k]) {
                Some(i) => {
                    return Some(i);
                },
                None => {},
            }
        }
        k = k + 1;
    }
    None
}

/// The indices of the files of a name, in order.
pub open spec fn files_named(files: Seq<(Seq<char>, FileView)>, name: Seq<char>) -> Seq<int>
    decreases files.len(),
{
    if files.len() == 0 {
        Seq::empty()
    } else {
        let before = files_named(files.drop_last(), name);
        if files.last().0 == name {
            before.push(files.len() - 1)
        } else {
            before
        }
    }
}

/// Whether files of a name are sent along.
pub open spec fn is_candidate(name: Seq<char>) -> bool {
    name == "image"@ || name == "file"@ || starts(name, "image"@)
}

/// The indices of the files that are sent along, by name and then in order.
pub open spec fn candidates(files: Seq<(Seq<char>, FileView)>, names: Seq<Seq<char>>) -> Seq<int>
    decreases names.len(),
{
    if names.len() == 0 {
        Seq::empty()
    } else {
        let before = candidates(files, names.drop_last());
        if is_candidate(names.last()) {
            before + files_named(files, names.last())
        } else {
            before
        }
    }
}

/// The indices of the files that are sent along.
pub open spec fn sent_files(files: Seq<(Seq<char>, FileView)>) -> Seq<int> {
    candidates(files, crate::order::in_order(file_names(files)))
}

/// A list of indices as numbers.
pub open spec fn indices(v: Seq<usize>) -> Seq<int> {
    Seq::new(v.len(), |i: int| v[i] as int)
}

/// The indices of the files that are sent along, by name and then in order.
pub fn collect_candidate_image_files(form: &MultipartFormData) -> (r: Vec<usize>)
    ensures
        indices(r@) == sent_files(form@.files),
        forall|i: int| 0 <= i < r@.len() ==> #[trigger] r@[i] < form.files@.len(),
{
    let names = sorted_file_names(form);
    let ghost all = crate::order::in_order(file_names(form@.files));
    let ghost files = form@.files;
    let mut r: Vec<usize> = Vec::new();
    let mut k: usize = 0;
    assert(all.take(0) =~= Seq::empty());
    assert(indices(r@) =~= Seq::empty());
    while k < names.len()
        invariant
            k <= names@.len(),
            all == views(names@),
            files == form@.files,
            indices(r@) == candidates(files, all.take(k as int)),
            forall|i: int| 0 <= i < r@.len() ==> #[trigger] r@[i] < form.files@.len(),
        decreases names@.len() - k,
    {
        assert(all.take(k + 1).drop_last() =~= all.take(k as int));
        assert(all.take(k + 1).last() == names@[k as int]@);
        if same(&names[k], "image") || same(&names[k], "file") || starts_with(&names[k], "image") {
            let ghost before = indices(r@);
            let mut i: usize = 0;
            assert(files.take(0) =~= Seq::empty());
            assert(before + Seq::<int>::empty() =~= before);
            while i < form.files.len()
                invariant
                    i <= form.files@.len(),
                    k < names@.len(),
                    files == form@.files,
                    indices(r@) == before + files_named(files.take(i as int), names@[k as int]@),
                    forall|i: int| 0 <= i < r@.len() ==> #[trigger] r@[i] < form.files@.len(),
                decreases form.files@.len() - i,
            {
                assert(files.take(i + 1).drop_last() =~= files.take(i as int));
                assert(files.take(i + 1).last() == files[i as int]);
                if same(&form.files[i].0, &names[k]) {
                    let ghost earlier = r@;
                    r.push(i);
                    assert(indices(r@) =~= indices(earlier).push(i as int));
                    assert(indices(r@) =~= before + files_named(
                        files.take(i + 1),
                        names@[k as int]@,
                    ));
                }
                i = i + 1;
            }
            assert(files.take(files.len() as int) =~= files);
        }
        k = k + 1;
    }
    assert(all.take(all.len() as int) =~= all);
    r
}


/// Whether every file of a form can be sent.
pub open spec fn all_encodable(form: FormView) -> bool {
    forall|i: int| 0 <= i < form.files.len() ==> encodable((#[trigger] form.files[i]).1.data)
}

/// The prompt of a form, without the white space round it; empty where there is none.
pub open spec fn form_prompt(form: FormView) -> Seq<char> {
    trimmed(or_else(first_value(form.fields, "prompt"@), Seq::empty()))
}

/// How many images a form asks for: one where it does not say, or not with a number.
pub open spec fn form_count(form: FormView) -> u32 {
    match first_value(form.fields, "n"@) {
        Some(t) => match number(t, u32::MAX as nat) {
            Some(n) => n as u32,
            None => 1,
        },
        None => 1,
    }
}

/// The format of the images that a form asks for.
pub open spec fn form_format(form: FormView) -> Seq<char> {
    or_else(first_value(form.fields, "response_format"@), "b64_json"@)
}

/// The first thing that is wrong with a form that asks for edits or variations.
pub open spec fn edit_fault(form: FormView, mode: ImageEditMode) -> Option<Seq<char>> {
    match primary(form.files) {
        None => Some("Missing required multipart field 'image'"@),
        Some(i) => if form.files[i].1.data.len() == 0 {
            Some("Uploaded image is empty"@)
        } else if mode == ImageEditMode::Edits && form_prompt(form).len() == 0 {
            Some("Missing required multipart field 'prompt'"@)
        } else {
            parameter_fault(
                form_format(form),
                form_count(form),
                first_value(form.fields, "size"@),
                first_value(form.fields, "quality"@),
                first_value(form.fields, "style"@),
            )
        },
    }
}

/// What the model is told to do with the images of a form.
pub open spec fn edit_instruction(form: FormView, mode: ImageEditMode) -> Seq<char> {
    let told = mode.instruction() + " Return image data only."@;
    let prompted = if form_prompt(form).len() == 0 {
        told
    } else {
        told + "\n\nPrompt: "@ + form_prompt(form)
    };
    let preferred = prompted + preferences(
        first_value(form.fields, "size"@),
        first_value(form.fields, "quality"@),
        first_value(form.fields, "style"@),
        first_value(form.fields, "user"@),
    );
    if file_from(form.files, "mask"@, 0) is Some && mode == ImageEditMode::Edits {
        preferred + " Use the provided mask to focus edits."@
    } else {
        preferred
    }
}

/// The parts of the files at a list of indices, without the one at `skip`.
pub open spec fn parts_at(
    files: Seq<(Seq<char>, FileView)>,
    at: Seq<int>,
    skip: int,
) -> Seq<PartView>
    decreases at.len(),
{
    if at.len() == 0 {
        Seq::empty()
    } else {
        let before = parts_at(files, at.drop_last(), skip);
        if at.last() == skip {
            before
        } else {
            before.push(file_part(files[at.last()].1, "image/png"@))
        }
    }
}

/// What is sent for a form: what to do, the image it is about, the mask where there is one
/// and edits are asked for, then the other images.
pub open spec fn edit_parts(form: FormView, mode: ImageEditMode, i: int) -> Seq<PartView> {
    let told = seq![
        PartView::Text { text: edit_instruction(form, mode) },
        file_part(form.files[i].1, "image/png"@),
    ];
    let masked = match file_from(form.files, "mask"@, 0) {
        Some(m) => if mode == ImageEditMode::Edits {
            told.push(file_part(form.files[m].1, "image/png"@))
        } else {
            told
        },
        None => told,
    };
    masked + parts_at(form.files, sent_files(form.files), i)
}

/// Whether a plan is that of a form.
pub open spec fn is_edit_plan(p: ImagePlan, form: FormView, mode: ImageEditMode) -> bool {
    &&& p.response_format@ == form_format(form)
    &&& p.candidate_count == form_count(form)
    &&& p.requested_model@ == or_else(first_value(form.fields, "model"@), "gemini-3-flash"@)
    &&& p.prompt_seed@ == (if form_prompt(form).len() == 0 {
        mode.instruction()
    } else {
        form_prompt(form)
    })
    &&& primary(form.files) matches Some(i) && part_views(p.parts@) == edit_parts(form, mode, i)
}

/// What the model is told to do with the images of a form.
fn edit_text(form: &MultipartFormData, mode: ImageEditMode, prompt: &str, masked: bool) -> (r:
    String)
    requires
        prompt@ == form_prompt(form@),
        masked == (file_from(form@.files, "mask"@, 0) is Some),
    ensures
        r@ == edit_instruction(form@, mode),
{
    let mut text = mode.action().to_owned();
    text.push_str(" Return image data only.");
    if !prompt.is_empty() {
        text.push_str("\n\nPrompt: ");
        text.push_str(prompt);
    }
    let ghost prompted = text@;
    push_preference(&mut text, " Preferred size: ", &multipart_first_field(&form.fields, "size"));
    push_preference(
        &mut text,
        " Preferred quality: ",
        &multipart_first_field(&form.fields, "quality"),
    );
    push_preference(&mut text, " Preferred style: ", &multipart_first_field(&form.fields, "style"));
    push_preference(&mut text, " User context: ", &multipart_first_field(&form.fields, "user"));
    assert(text@ =~= prompted + preferences(
        first_value(form@.fields, "size"@),
        first_value(form@.fields, "quality"@),
        first_value(form@.fields, "style"@),
        first_value(form@.fields, "user"@),
    ));
    if masked && mode.requires_prompt() {
        text.push_str(" Use the provided mask to focus edits.");
    }
    text
}

/// Appends the parts of the other images.
fn push_other_images(parts: &mut Vec<GooglePart>, form: &MultipartFormData, skip: usize)
    requires
        all_encodable(form@),
    ensures
        part_views(final(parts)@) == part_views(old(parts)@) + parts_at(
            form@.files,
            sent_files(form@.files),
            skip as int,
        ),
{
    let list = collect_candidate_image_files(form);
    let ghost start = part_views(parts@);
    let ghost all = sent_files(form@.files);
    let mut k: usize = 0;
    assert(all.take(0) =~= Seq::empty());
    assert(start + Seq::<PartView>::empty() =~= start);
    while k < list.len()
        invariant
            k <= list@.len(),
            all == indices(list@),
            all_encodable(form@),
            forall|i: int| 0 <= i < list@.len() ==> #[trigger] list@[i] < form.files@.len(),
            part_views(parts@) == start + parts_at(form@.files, all.take(k as int), skip as int),
        decreases list@.len() - k,
    {
        assert(all.take(k + 1).drop_last() =~= all.take(k as int));
        assert(all.take(k + 1).last() == list@[k as int]);
        let i: usize = list[k];
        assert(form@.files[i as int].1 == form.files@[i as int].1@);
        if i != skip {
            let ghost before = part_views(parts@);
            parts.push(image_file_to_google_part(&form.files[i].1, "image/png"));
            assert(part_views(parts@) =~= before.push(
                file_part(form@.files[i as int].1, "image/png"@),
            ));
            assert(part_views(parts@) =~= start + parts_at(
                form@.files,
                all.take(k + 1),
                skip as int,
            ));
        }
        k = k + 1;
    }
    assert(all.take(all.len() as int) =~= all);
}

/// What is asked of the model for a form that asks for edits or variations, or the reply
/// where the form is not in order.
pub fn plan_images_edit(form: &MultipartFormData, mode: ImageEditMode) -> (r: Result<
    ImagePlan,
    Reply,
>)
    requires
        all_encodable(form@),
    ensures
        match r {
            Ok(p) => edit_fault(form@, mode) is None && is_edit_plan(p, form@, mode),
            Err(reply) => edit_fault(form@, mode) matches Some(m) && reply@ == bad_request(m),
        },
{
    let at = match select_primary_image(form) {
        Some(i) => i,
        None => {
            return Err(bad_request_reply("Missing required multipart field 'image'"));
        },
    };
    assert(form@.files[at as int].1 == form.files@[at as int].1@);
    if form.files[at].1.data.len() == 0 {
        return Err(bad_request_reply("Uploaded image is empty"));
    }
    let given = text_or(&multipart_first_field(&form.fields, "prompt"), "");
    assert(""@ =~= Seq::empty()) by {
        reveal_strlit("");
    }
    let prompt = trim(&given);
    if mode.requires_prompt() && prompt.as_str().is_empty() {
        return Err(bad_request_reply("Missing required multipart field 'prompt'"));
    }
    let response_format = text_or(
        &multipart_first_field(&form.fields, "response_format"),
        "b64_json",
    );
    let candidate_count: u32 = match multipart_first_field(&form.fields, "n") {
        Some(t) => match parse_number_u32(&t) {
            Some(n) => n,
            None => 1,
        },
        None => 1,
    };
    match validate_openai_image_params(
        &response_format,
        candidate_count,
        &multipart_first_field(&form.fields, "size"),
        &multipart_first_field(&form.fields, "quality"),
        &multipart_first_field(&form.fields, "style"),
    ) {
        Some(reply) => {
            return Err(reply);
        },
        None => {},
    }
    let mask = multipart_first_file(form, "mask");
    let text = edit_text(form, mode, &prompt, mask.is_some());
    let mut parts: Vec<GooglePart> = Vec::new();
    parts.push(GooglePart::Text { text });
    parts.push(image_file_to_google_part(&form.files[at].1, "image/png"));
    assert(part_views(parts@) =~= seq![
        PartView::Text { text: edit_instruction(form@, mode) },
        file_part(form@.files[at as int].1, "image/png"@),
    ]);
    if mode.requires_prompt() {
        match mask {
            Some(m) => {
                assert(form@.files[m as int].1 == form.files@[m as int].1@);
                let ghost told = part_views(parts@);
                parts.push(image_file_to_google_part(&form.files[m].1, "image/png"));
                assert(part_views(parts@) =~= told.push(
                    file_part(form@.files[m as int].1, "image/png"@),
                ));
            },
            None => {},
        }
    }
    push_other_images(&mut parts, form, at);
    let requested_model = text_or(
        &multipart_first_field(&form.fields, "model"),
        "gemini-3-flash",
    );
    let prompt_seed = if prompt.as_str().is_empty() {
        mode.action().to_owned()
    } else {
        prompt
    };
    Ok(ImagePlan { response_format, candidate_count, requested_model, prompt_seed, parts })
}

/// The boundary of a form that a request says it sends, or the reply where it says it sends
/// no form, or names no boundary.
pub fn multipart_boundary(content_type: &str) -> (r: Result<String, Reply>)
    ensures
        ({
            let named = crate::multipart::parameter(
                crate::text::pieces(content_type@, ';'),
                "boundary="@,
                0,
            );
            match r {
                Ok(b) => starts(content_type@, "multipart/form-data"@) && named == Some(b@),
                Err(reply) => if !starts(content_type@, "multipart/form-data"@) {
                    reply@ == bad_request("Content-Type must be multipart/form-data"@)
                } else {
                    named is None && reply@ == bad_request("Missing multipart boundary"@)
                },
            }
        }),
{
    if !starts_with(content_type, "multipart/form-data") {
        return Err(bad_request_reply("Content-Type must be multipart/form-data"));
    }
    match crate::multipart::parse_multipart_boundary(content_type) {
        Some(b) => Ok(b),
        None => Err(bad_request_reply("Missing multipart boundary")),
    }
}


/// One candidate of an upstream reply: its parts, where it has content.
#[derive(Debug, Clone, PartialEq)]
pub struct GoogleCandidate {
    pub parts: Option<Vec<GooglePart>>,
}

/// The parts of all candidates, in order.
pub open spec fn parts_of(c: Seq<GoogleCandidate>) -> Seq<PartView>
    decreases c.len(),
{
    if c.len() == 0 {
        Seq::empty()
    } else {
        parts_of(c.drop_last()) + match c.last().parts {
            Some(p) => part_views(p@),
            None => Seq::empty(),
        }
    }
}

/// The entry of an image: a data URL, or its base64 text.
pub open spec fn image_entry(mime_type: Seq<char>, data: Seq<char>, url: bool) -> Map<
    Seq<char>,
    JsonView,
> {
    if url {
        Map::empty().insert(
            "url"@,
            JsonView::Text("data:"@ + mime_type + ";base64,"@ + data),
        )
    } else {
        Map::empty().insert("b64_json"@, JsonView::Text(data))
    }
}

/// The entries of the images among the parts, in order.
pub open spec fn image_entries(p: Seq<PartView>, url: bool) -> Seq<Map<Seq<char>, JsonView>>
    decreases p.len(),
{
    if p.len() == 0 {
        Seq::empty()
    } else {
        let before = image_entries(p.drop_last(), url);
        match p.last() {
            PartView::InlineData { mime_type, data } => before.push(
                image_entry(mime_type, data, url),
            ),
            _ => before,
        }
    }
}

/// The first text among the parts that is not blank, without the white space round it.
pub open spec fn revised_prompt(p: Seq<PartView>) -> Option<Seq<char>>
    decreases p.len(),
{
    if p.len() == 0 {
        None
    } else {
        match revised_prompt(p.drop_last()) {
            Some(t) => Some(t),
            None => match p.last() {
                PartView::Text { text } => if trimmed(text).len() > 0 {
                    Some(trimmed(text))
                } else {
                    None
                },
                _ => None,
            },
        }
    }
}

/// An entry with the prompt as the model revised it, where it did.
pub open spec fn with_revision(
    e: Map<Seq<char>, JsonView>,
    revised: Option<Seq<char>>,
) -> JsonView {
    match revised {
        Some(t) => JsonView::Object(e.insert("revised_prompt"@, JsonView::Text(t))),
        None => JsonView::Object(e),
    }
}

/// The images of a reply's parts, each with the prompt as the model revised it.
pub open spec fn image_items(p: Seq<PartView>, url: bool) -> Seq<JsonView> {
    Seq::new(
        image_entries(p, url).len(),
        |i: int| with_revision(image_entries(p, url)[i], revised_prompt(p)),
    )
}

/// What is said of a reply without images: whether the model answered with text instead.
pub open spec fn no_image_message(p: Seq<PartView>) -> Seq<char> {
    if revised_prompt(p) is Some {
        "Upstream model returned text instead of image data"@
    } else {
        "Upstream model did not return any image data"@
    }
}

/// The parts of all candidates.
pub open spec fn reply_parts(candidates: Option<Vec<GoogleCandidate>>) -> Seq<PartView> {
    match candidates {
        Some(c) => parts_of(c@),
        None => Seq::empty(),
    }
}

/// The JSON of an image.
fn image_json(mime_type: &str, data: &str, url: bool) -> (r: Json)
    ensures
        r@ == JsonView::Object(image_entry(mime_type@, data@, url)),
{
    if url {
        let mut t = "data:".to_owned();
        t.push_str(mime_type);
        t.push_str(";base64,");
        t.push_str(data);
        with(json_object(), "url", Json::Text(t))
    } else {
        with(json_object(), "b64_json", json_str(data))
    }
}

/// The images among the parts of a reply, and the prompt as the model revised it; what to
/// say where there are no images.
pub fn extract_image_items_from_google_response(
    candidates: &Option<Vec<GoogleCandidate>>,
    response_format: &str,
) -> (r: Result<(Vec<Json>, Option<String>), &'static str>)
    ensures
        ({
            let p = reply_parts(*candidates);
            let url = response_format@ == "url"@;
            match r {
                Ok((items, revised)) => image_entries(p, url).len() > 0 && array_view(items@)
                    == image_items(p, url) && opt(revised) == revised_prompt(p),
                Err(m) => image_entries(p, url).len() == 0 && m@ == no_image_message(p),
            }
        }),
{
    let url = same(response_format, "url");
    let mut items: Vec<Json> = Vec::new();
    let mut revised: Option<String> = None;
    let ghost mut seen: Seq<PartView> = Seq::empty();
    assert(array_view(items@) =~= Seq::new(
        image_entries(seen, url).len(),
        |i: int| JsonView::Object(image_entries(seen, url)[i]),
    ));
    match candidates {
        Some(c) => {
            let mut i: usize = 0;
            assert(c@.take(0) =~= Seq::empty());
            while i < c.len()
                invariant
                    i <= c@.len(),
                    seen == parts_of(c@.take(i as int)),
                    array_view(items@) == Seq::new(
                        image_entries(seen, url).len(),
                        |i: int| JsonView::Object(image_entries(seen, url)[i]),
                    ),
                    opt(revised) == revised_prompt(seen),
                decreases c@.len() - i,
            {
                assert(c@.take(i + 1).drop_last() =~= c@.take(i as int));
                match &c[i].parts {
                    Some(p) => {
                        let ghost before = seen;
                        let ghost all = part_views(p@);
                        let mut k: usize = 0;
                        assert(before + all.take(0) =~= before);
                        while k < p.len()
                            invariant
                                k <= p@.len(),
                                all == part_views(p@),
                                seen == before + all.take(k as int),
                                array_view(items@) == Seq::new(
                                    image_entries(seen, url).len(),
                                    |i: int| JsonView::Object(image_entries(seen, url)[i]),
                                ),
                                opt(revised) == revised_prompt(seen),
                            decreases p@.len() - k,
                        {
                            let ghost earlier = seen;
                            proof {
                                seen = seen.push(all[k as int]);
                                assert(seen =~= before + all.take(k + 1));
                                assert(seen.drop_last() =~= earlier);
                            }
                            match &p[k] {
                                GooglePart::InlineData { mime_type, data } => {
                                    let ghost old_items = items@;
                                    items.push(image_json(mime_type, data, url));
                                    assert(items@.drop_last() =~= old_items);
                                },
                                GooglePart::Text { text } => {
                                    let t = trim(text);
                                    if revised.is_none() && !t.as_str().is_empty() {
                                        revised = Some(t);
                                    }
                                },
                                GooglePart::Other => {},
                            }
                            assert(array_view(items@) =~= Seq::new(
                                image_entries(seen, url).len(),
                                |i: int| JsonView::Object(image_entries(seen, url)[i]),
                            ));
                            k = k + 1;
                        }
                        assert(all.take(all.len() as int) =~= all);
                    },
                    None => {
                        assert(seen + Seq::<PartView>::empty() =~= seen);
                    },
                }
                i = i + 1;
            }
            assert(c@.take(c@.len() as int) =~= c@);
        },
        None => {},
    }
    let ghost entries = image_entries(seen, url);
    proof {
        crate::json::lemma_array_view(items@);
    }
    if items.len() == 0 {
        return Err(
            if revised.is_some() {
                "Upstream model returned text instead of image data"
            } else {
                "Upstream model did not return any image data"
            },
        );
    }
    match revised {
        Some(t) => {
            let ghost plain = items@;
            assert forall|j: int| 0 <= j < plain.len() implies (#[trigger] plain[j])@
                == JsonView::Object(entries[j]) by {
                assert(array_view(plain)[j] == plain[j]@);
            }
            let mut out: Vec<Json> = Vec::new();
            for item in it: items
                invariant
                    it.seq() == plain,
                    entries == image_entries(seen, url),
                    plain.len() == entries.len(),
                    forall|j: int|
                        0 <= j < plain.len() ==> (#[trigger] plain[j])@ == JsonView::Object(
                            entries[j],
                        ),
                    array_view(out@) == Seq::new(
                        it.index() as nat,
                        |j: int| with_revision(entries[j], Some(t@)),
                    ),
            {
                let ghost before = out@;
                assert(item@ == plain[it.index() as int]@);
                out.push(with(item, "revised_prompt", json_str(&t)));
                assert(out@.drop_last() =~= before);
                assert(array_view(out@) =~= Seq::new(
                    (it.index() + 1) as nat,
                    |j: int| with_revision(entries[j], Some(t@)),
                ));
            }
            assert(array_view(out@) =~= image_items(seen, url));
            Ok((out, Some(t)))
        },
        None => {
            assert(array_view(items@) =~= image_items(seen, url));
            Ok((items, None))
        },
    }
}

/// The JSON of a list of images made at `created`.
pub open spec fn images_json(created: u64, items: Seq<JsonView>) -> JsonView {
    JsonView::Object(
        Map::empty().insert("created"@, uint(created)).insert("data"@, JsonView::Array(items)),
    )
}

/// The reply to an image request, from the upstream reply to it.
pub fn images_reply(
    candidates: &Option<Vec<GoogleCandidate>>,
    response_format: &str,
    created: u64,
    request_id: &str,
) -> (r: Reply)
    ensures
        ({
            let p = reply_parts(*candidates);
            let url = response_format@ == "url"@;
            r@ == (if image_entries(p, url).len() == 0 {
                bad_gateway(no_image_message(p))
            } else {
                json_ok_reply(
                    compact_json(images_json(created, image_items(p, url))),
                    request_id@,
                    Some("BYPASS"@),
                )
            })
        }),
{
    match extract_image_items_from_google_response(candidates, response_format) {
        Ok((items, _revised)) => {
            let body = with(
                with(json_object(), "created", json_uint(created)),
                "data",
                Json::Array(items),
            );
            json_ok_response(json_text(&body), request_id, Some("BYPASS"))
        },
        Err(m) => openai_error_response(502, m, "api_error"),
    }
}

/// The mock image of a number.
pub open spec fn mock_item(i: int, url: bool, revised: Seq<char>) -> JsonView {
    let name = "MOCK_IMAGE_DATA_"@ + decimal((i + 1) as nat);
    let e = if url {
        Map::empty().insert("url"@, JsonView::Text("data:image/png;base64,"@ + name))
    } else {
        Map::empty().insert("b64_json"@, JsonView::Text(name))
    };
    JsonView::Object(e.insert("revised_prompt"@, JsonView::Text(revised)))
}

/// A reply as an upstream would give it, for as many images as are asked for.
pub fn build_mock_image_response(
    response_format: &str,
    candidate_count: u32,
    revised_prompt_seed: &str,
    created: u64,
) -> (r: Json)
    ensures
        r@ == images_json(
            created,
            Seq::new(
                candidate_count as nat,
                |i: int|
                    mock_item(
                        i,
                        response_format@ == "url"@,
                        "mock revised prompt for: "@ + trimmed(revised_prompt_seed@),
                    ),
            ),
        ),
{
    let url = same(response_format, "url");
    let mut revised = "mock revised prompt for: ".to_owned();
    let seed = trim(revised_prompt_seed);
    revised.push_str(&seed);
    let mut items: Vec<Json> = Vec::new();
    let mut i: u32 = 0;
    while i < candidate_count
        invariant
            i <= candidate_count,
            array_view(items@) == Seq::new(i as nat, |j: int| mock_item(j, url, revised@)),
        decreases candidate_count - i,
    {
        let mut name = "MOCK_IMAGE_DATA_".to_owned();
        name.push_str(&decimal_text(i as u64 + 1));
        let e = if url {
            let mut t = "data:image/png;base64,".to_owned();
            t.push_str(&name);
            with(json_object(), "url", Json::Text(t))
        } else {
            with(json_object(), "b64_json", Json::Text(name))
        };
        let ghost before = items@;
        items.push(with(e, "revised_prompt", json_str(&revised)));
        assert(items@.drop_last() =~= before);
        i = i + 1;
        assert(array_view(items@) =~= Seq::new(i as nat, |j: int| mock_item(j, url, revised@)));
    }
    with(with(json_object(), "created", json_uint(created)), "data", Json::Array(items))
}

/// A text that stands between two others is held by the whole.
proof fn lemma_held(a: Seq<char>, p: Seq<char>, b: Seq<char>)
    ensures
        holds(a + p + b, p),
{
    assert((a + p + b).subrange(a.len() as int, (a.len() + p.len()) as int) =~= p);
    assert(crate::text::occurs_at(a + p + b, p, a.len() as int));
}

/// A text of two parts between two others is held by the whole.
proof fn lemma_pair_held(a: Seq<char>, x: Seq<char>, p: Seq<char>, q: Seq<char>, b: Seq<char>)
    ensures
        holds(a + (x + p) + q + b, p + q),
{
    assert(a + (x + p) + q + b =~= (a + x) + (p + q) + b);
    lemma_held(a + x, p + q, b);
}

/// The label of the prompt in a request to the model.
proof fn lemma_prompt_label()
    ensures
        "\n\nPrompt: "@ == "\n\n"@ + "Prompt: "@,
{
    reveal_strlit("\n\nPrompt: ");
    reveal_strlit("\n\n");
    reveal_strlit("Prompt: ");
    assert("\n\nPrompt: "@ =~= "\n\n"@ + "Prompt: "@);
}

/// The labels of the preferences.
proof fn lemma_preference_labels()
    ensures
        " Preferred size: "@ == " "@ + "Preferred size: "@,
        " Preferred quality: "@ == " "@ + "Preferred quality: "@,
        " Preferred style: "@ == " "@ + "Preferred style: "@,
        " User context: "@ == " "@ + "User context: "@,
{
    reveal_strlit(" ");
    reveal_strlit(" Preferred size: ");
    reveal_strlit("Preferred size: ");
    reveal_strlit(" Preferred quality: ");
    reveal_strlit("Preferred quality: ");
    reveal_strlit(" Preferred style: ");
    reveal_strlit("Preferred style: ");
    reveal_strlit(" User context: ");
    reveal_strlit("User context: ");
    assert(" Preferred size: "@ =~= " "@ + "Preferred size: "@);
    assert(" Preferred quality: "@ =~= " "@ + "Preferred quality: "@);
    assert(" Preferred style: "@ =~= " "@ + "Preferred style: "@);
    assert(" User context: "@ =~= " "@ + "User context: "@);
}

/// A preference is held by a text that it is part of.
proof fn lemma_one_preference(a: Seq<char>, label: Seq<char>, t: Seq<char>, b: Seq<char>)
    ensures
        holds(a + preference(" "@ + label, Some(t)) + b, label + t + "."@),
{
    let p = label + t + "."@;
    assert(a + preference(" "@ + label, Some(t)) + b =~= (a + " "@) + p + b);
    lemma_held(a + " "@, p, b);
}

/// A preference that is given is named in the preferences.
proof fn lemma_preference_named(
    size: Option<Seq<char>>,
    quality: Option<Seq<char>>,
    style: Option<Seq<char>>,
    user: Option<Seq<char>>,
    before: Seq<char>,
    behind: Seq<char>,
)
    ensures
        ({
            let text = before + preferences(size, quality, style, user) + behind;
            &&& size matches Some(t) ==> holds(text, "Preferred size: "@ + t + "."@)
            &&& quality matches Some(t) ==> holds(text, "Preferred quality: "@ + t + "."@)
            &&& style matches Some(t) ==> holds(text, "Preferred style: "@ + t + "."@)
            &&& user matches Some(t) ==> holds(text, "User context: "@ + t + "."@)
        }),
{
    lemma_preference_labels();
    let a = preference(" Preferred size: "@, size);
    let b = preference(" Preferred quality: "@, quality);
    let c = preference(" Preferred style: "@, style);
    let d = preference(" User context: "@, user);
    let text = before + preferences(size, quality, style, user) + behind;
    assert(text == before + (a + b + c + d) + behind);
    lemma_regrouped(before, a, b, c, d, behind);
    if size is Some {
        lemma_one_preference(before, "Preferred size: "@, size->0, b + c + d + behind);
    }
    if quality is Some {
        lemma_one_preference(before + a, "Preferred quality: "@, quality->0, c + d + behind);
    }
    if style is Some {
        lemma_one_preference(before + a + b, "Preferred style: "@, style->0, d + behind);
    }
    if user is Some {
        lemma_one_preference(before + a + b + c, "User context: "@, user->0, behind);
    }
}

/// Joined texts can be grouped in any way.
proof fn lemma_regrouped(
    x: Seq<char>,
    a: Seq<char>,
    b: Seq<char>,
    c: Seq<char>,
    d: Seq<char>,
    y: Seq<char>,
)
    ensures
        x + (a + b + c + d) + y == x + a + (b + c + d + y),
        x + (a + b + c + d) + y == (x + a) + b + (c + d + y),
        x + (a + b + c + d) + y == (x + a + b) + c + (d + y),
        x + (a + b + c + d) + y == (x + a + b + c) + d + y,
{
    assert(x + (a + b + c + d) + y =~= x + a + (b + c + d + y));
    assert(x + (a + b + c + d) + y =~= (x + a) + b + (c + d + y));
    assert(x + (a + b + c + d) + y =~= (x + a + b) + c + (d + y));
    assert(x + (a + b + c + d) + y =~= (x + a + b + c) + d + y);
}

/// A request to generate images tells the model the whole prompt, and every preference that is
/// given; it is made for the model, the number and the format that are asked for.
pub proof fn a_generation_says_its_prompt(p: ImagePlan, q: ImagesGenerationsRequest)
    requires
        is_generation_plan(p, q),
        q.prompt is Some,
    ensures
        p.parts@.len() == 1,
        part_views(p.parts@)[0] matches PartView::Text { text } && ({
            &&& crate::text::ends(text, "Prompt: "@ + q.prompt->0@)
            &&& q.size matches Some(t) ==> holds(text, "Preferred size: "@ + t@ + "."@)
            &&& q.quality matches Some(t) ==> holds(text, "Preferred quality: "@ + t@ + "."@)
            &&& q.style matches Some(t) ==> holds(text, "Preferred style: "@ + t@ + "."@)
            &&& q.user matches Some(t) ==> holds(text, "User context: "@ + t@ + "."@)
        }),
        p.prompt_seed@ == q.prompt->0@,
        q.model matches Some(m) ==> p.requested_model@ == m@,
        q.n matches Some(n) ==> p.candidate_count == n,
        q.n is None ==> p.candidate_count == 1,
        q.response_format matches Some(f) ==> p.response_format@ == f@,
        q.response_format is None ==> p.response_format@ == "b64_json"@,
{
    lemma_prompt_label();
    let prompt = q.prompt->0@;
    let opening = "Generate an image for the following prompt. Return image data only."@;
    let asked = preferences(opt(q.size), opt(q.quality), opt(q.style), opt(q.user));
    let text = opening + asked + "\n\nPrompt: "@ + prompt;
    assert(part_views(p.parts@).len() == 1);
    assert(part_views(p.parts@)[0] == PartView::Text { text });
    let said = "Prompt: "@ + prompt;
    assert(text =~= opening + asked + "\n\n"@ + said);
    assert(text.subrange(text.len() - said.len(), text.len() as int) =~= said);
    lemma_preference_named(
        opt(q.size),
        opt(q.quality),
        opt(q.style),
        opt(q.user),
        opening,
        "\n\nPrompt: "@ + prompt,
    );
    assert(text =~= opening + asked + ("\n\nPrompt: "@ + prompt));
}

/// A request to edit or vary images tells the model the prompt, where there is one that is not
/// blank, and every preference that is given.
pub proof fn an_edit_says_its_prompt(p: ImagePlan, form: FormView, mode: ImageEditMode)
    requires
        is_edit_plan(p, form, mode),
    ensures
        p.parts@.len() > 0,
        part_views(p.parts@)[0] matches PartView::Text { text } && ({
            &&& first_value(form.fields, "prompt"@) matches Some(given) ==> trimmed(given).len() > 0
                ==> holds(text, "Prompt: "@ + trimmed(given)) && p.prompt_seed@ == trimmed(given)
            &&& first_value(form.fields, "size"@) matches Some(t) ==> holds(
                text,
                "Preferred size: "@ + t + "."@,
            )
            &&& first_value(form.fields, "quality"@) matches Some(t) ==> holds(
                text,
                "Preferred quality: "@ + t + "."@,
            )
            &&& first_value(form.fields, "style"@) matches Some(t) ==> holds(
                text,
                "Preferred style: "@ + t + "."@,
            )
            &&& first_value(form.fields, "user"@) matches Some(t) ==> holds(
                text,
                "User context: "@ + t + "."@,
            )
        }),
{
    lemma_prompt_label();
    let i = primary(form.files)->0;
    let text = edit_instruction(form, mode);
    assert(edit_parts(form, mode, i)[0] == PartView::Text { text });
    assert(part_views(p.parts@).len() == p.parts@.len());
    assert(part_views(p.parts@)[0] == PartView::Text { text });
    let told = mode.instruction() + " Return image data only."@;
    let prompt = form_prompt(form);
    let prompted = if prompt.len() == 0 {
        told
    } else {
        told + "\n\nPrompt: "@ + prompt
    };
    let size = first_value(form.fields, "size"@);
    let quality = first_value(form.fields, "quality"@);
    let style = first_value(form.fields, "style"@);
    let user = first_value(form.fields, "user"@);
    let asked = preferences(size, quality, style, user);
    let behind = if file_from(form.files, "mask"@, 0) is Some && mode == ImageEditMode::Edits {
        " Use the provided mask to focus edits."@
    } else {
        Seq::empty()
    };
    assert(text =~= prompted + asked + behind);
    lemma_preference_named(size, quality, style, user, prompted, behind);
    if prompt.len() > 0 {
        assert(text =~= told + ("\n\n"@ + "Prompt: "@) + prompt + (asked + behind));
        lemma_pair_held(told, "\n\n"@, "Prompt: "@, prompt, asked + behind);
    }
}

/// Two forms that differ in their prompts alone, neither of them blank, ask the model for
/// different things.
pub proof fn prompts_tell_edits_apart(
    p: ImagePlan,
    form: FormView,
    q: ImagePlan,
    other: FormView,
    mode: ImageEditMode,
)
    requires
        is_edit_plan(p, form, mode),
        is_edit_plan(q, other, mode),
        form.files == other.files,
        forall|name: Seq<char>|
            name != "prompt"@ ==> #[trigger] first_value(form.fields, name) == first_value(
                other.fields,
                name,
            ),
        first_value(form.fields, "prompt"@) is Some,
        first_value(other.fields, "prompt"@) is Some,
        trimmed(first_value(form.fields, "prompt"@)->0).len() > 0,
        trimmed(first_value(other.fields, "prompt"@)->0).len() > 0,
        trimmed(first_value(form.fields, "prompt"@)->0) != trimmed(
            first_value(other.fields, "prompt"@)->0,
        ),
    ensures
        part_views(p.parts@) != part_views(q.parts@),
{
    reveal_strlit("prompt");
    reveal_strlit("size");
    reveal_strlit("quality");
    reveal_strlit("style");
    reveal_strlit("user");
    assert("prompt"@[0] == 'p' && "size"@[0] == 's' && "quality"@[0] == 'q' && "style"@[0] == 's'
        && "user"@[0] == 'u');
    let i = primary(form.files)->0;
    let a = form_prompt(form);
    let b = form_prompt(other);
    let told = mode.instruction() + " Return image data only."@ + "\n\nPrompt: "@;
    let asked = preferences(
        first_value(form.fields, "size"@),
        first_value(form.fields, "quality"@),
        first_value(form.fields, "style"@),
        first_value(form.fields, "user"@),
    );
    let behind = if file_from(form.files, "mask"@, 0) is Some && mode == ImageEditMode::Edits {
        asked + " Use the provided mask to focus edits."@
    } else {
        asked
    };
    let x = edit_instruction(form, mode);
    let y = edit_instruction(other, mode);
    assert(x =~= told + a + behind);
    assert(y =~= told + b + behind);
    if x == y {
        assert(a.len() == b.len());
        assert(a =~= x.subrange(told.len() as int, (told.len() + a.len()) as int));
        assert(b =~= y.subrange(told.len() as int, (told.len() + b.len()) as int));
    }
    assert(edit_parts(form, mode, i)[0] == PartView::Text { text: x });
    assert(edit_parts(other, mode, i)[0] == PartView::Text { text: y });
}

/// The indices of the files of a name are those files, each once, in order.
proof fn lemma_files_named(files: Seq<(Seq<char>, FileView)>, name: Seq<char>)
    ensures
        forall|k: int|
            #[trigger] files_named(files, name).contains(k) <==> 0 <= k < files.len() && files[k].0
                == name,
        files_named(files, name).no_duplicates(),
    decreases files.len(),
{
    let all = files_named(files, name);
    if files.len() > 0 {
        let rest = files.drop_last();
        let before = files_named(rest, name);
        lemma_files_named(rest, name);
        assert forall|k: int| #[trigger] all.contains(k) <==> 0 <= k < files.len() && files[k].0
            == name by {
            assert(before.contains(k) <==> 0 <= k < rest.len() && rest[k].0 == name);
            if before.contains(k) {
                let j = choose|j: int| 0 <= j < before.len() && before[j] == k;
                assert(all[j] == k);
            }
            if all.contains(k) {
                let j = choose|j: int| 0 <= j < all.len() && all[j] == k;
                if j < before.len() {
                    assert(before[j] == k);
                }
            }
            if k == files.len() - 1 && files[k].0 == name {
                assert(all[all.len() - 1] == k);
            }
        }
        assert forall|i: int, j: int| 0 <= i < j < all.len() implies all[i] != all[j] by {
            if i < before.len() {
                assert(before.contains(before[i]));
            }
            if j < before.len() {
                assert(before.contains(before[j]));
            }
        }
    }
}

/// The indices that are sent along for some names are those of the files of these names that
/// are images, each once.
proof fn lemma_candidates(files: Seq<(Seq<char>, FileView)>, names: Seq<Seq<char>>)
    requires
        names.no_duplicates(),
    ensures
        forall|k: int|
            #[trigger] candidates(files, names).contains(k) <==> 0 <= k < files.len()
                && names.contains(files[k].0) && is_candidate(files[k].0),
        candidates(files, names).no_duplicates(),
    decreases names.len(),
{
    let all = candidates(files, names);
    if names.len() > 0 {
        let rest = names.drop_last();
        let name = names.last();
        let before = candidates(files, rest);
        let more = files_named(files, name);
        lemma_candidates(files, rest);
        lemma_files_named(files, name);
        assert(!rest.contains(name)) by {
            if rest.contains(name) {
                let j = choose|j: int| 0 <= j < rest.len() && rest[j] == name;
                assert(names[j] == names[names.len() - 1]);
            }
        }
        assert forall|k: int| #[trigger] all.contains(k) <==> 0 <= k < files.len()
            && names.contains(files[k].0) && is_candidate(files[k].0) by {
            let n = files[k].0;
            assert(names.contains(n) <==> rest.contains(n) || n == name) by {
                if rest.contains(n) {
                    let j = choose|j: int| 0 <= j < rest.len() && rest[j] == n;
                    assert(names[j] == n);
                }
                if names.contains(n) {
                    let j = choose|j: int| 0 <= j < names.len() && names[j] == n;
                    if j < rest.len() {
                        assert(rest[j] == n);
                    }
                }
                assert(names[names.len() - 1] == name);
            }
            assert(before.contains(k) <==> 0 <= k < files.len() && rest.contains(n)
                && is_candidate(n));
            assert(more.contains(k) <==> 0 <= k < files.len() && n == name);
            if is_candidate(name) {
                if before.contains(k) {
                    let j = choose|j: int| 0 <= j < before.len() && before[j] == k;
                    assert(all[j] == k);
                }
                if more.contains(k) {
                    let j = choose|j: int| 0 <= j < more.len() && more[j] == k;
                    assert(all[before.len() + j] == k);
                }
                if all.contains(k) {
                    let j = choose|j: int| 0 <= j < all.len() && all[j] == k;
                    if j < before.len() {
                        assert(before[j] == k);
                    } else {
                        assert(more[j - before.len()] == k);
                    }
                }
            }
        }
        assert forall|i: int, j: int| 0 <= i < j < all.len() implies all[i] != all[j] by {
            if is_candidate(name) && i < before.len() && j >= before.len() {
                assert(before.contains(before[i]));
                assert(more.contains(more[j - before.len()]));
            }
        }
    }
}

/// The files that are sent along are those named `file` or with a name that begins with
/// `image`, each once.
pub proof fn every_image_is_sent_once(files: Seq<(Seq<char>, FileView)>)
    ensures
        sent_files(files).no_duplicates(),
        forall|k: int|
            #[trigger] sent_files(files).contains(k) <==> 0 <= k < files.len() && (files[k].0
                == "file"@ || starts(files[k].0, "image"@)),
{
    let names = crate::order::in_order(file_names(files));
    crate::order::ordered_names_are_the_same(file_names(files));
    assert(names.no_duplicates()) by {
        assert forall|i: int, j: int| 0 <= i < j < names.len() implies names[i] != names[j] by {
            crate::order::precedes_is_irreflexive(names[i]);
            assert(crate::order::precedes(names[i], names[j]));
        }
    }
    lemma_candidates(files, names);
    assert(starts("image"@, "image"@)) by {
        assert("image"@.subrange(0, "image"@.len() as int) =~= "image"@);
    }
    assert forall|k: int| #[trigger] sent_files(files).contains(k) <==> 0 <= k < files.len() && (
    files[k].0 == "file"@ || starts(files[k].0, "image"@)) by {
        if 0 <= k < files.len() {
            assert(file_names(files)[k] == files[k].0);
            assert(file_names(files).contains(files[k].0));
            assert(names.contains(files[k].0));
        }
    }
}

/// Without the file at `skip`, the files at a list of indices are all sent.
proof fn lemma_parts_at(
    files: Seq<(Seq<char>, FileView)>,
    at: Seq<int>,
    skip: int,
)
    requires
        at.no_duplicates(),
    ensures
        forall|k: int|
            #[trigger] at.contains(k) && k != skip ==> parts_at(files, at, skip).contains(
                file_part(files[k].1, "image/png"@),
            ),
        parts_at(files, at, skip).len() == at.len() - (if at.contains(skip) {
            1int
        } else {
            0
        }),
    decreases at.len(),
{
    if at.len() > 0 {
        let rest = at.drop_last();
        let before = parts_at(files, rest, skip);
        let all = parts_at(files, at, skip);
        lemma_parts_at(files, rest, skip);
        assert(at[at.len() - 1] == at.last());
        assert(rest.contains(skip) ==> at.contains(skip)) by {
            if rest.contains(skip) {
                let j = choose|j: int| 0 <= j < rest.len() && rest[j] == skip;
                assert(at[j] == skip);
            }
        }
        assert(at.last() == skip ==> !rest.contains(skip)) by {
            if at.last() == skip && rest.contains(skip) {
                let j = choose|j: int| 0 <= j < rest.len() && rest[j] == skip;
                assert(at[j] == at[at.len() - 1]);
            }
        }
        assert(at.contains(skip) ==> rest.contains(skip) || at.last() == skip) by {
            if at.contains(skip) {
                let j = choose|j: int| 0 <= j < at.len() && at[j] == skip;
                if j < rest.len() {
                    assert(rest[j] == skip);
                }
            }
        }
        assert forall|k: int| #[trigger] at.contains(k) && k != skip implies all.contains(
            file_part(files[k].1, "image/png"@),
        ) by {
            let part = file_part(files[k].1, "image/png"@);
            let j = choose|j: int| 0 <= j < at.len() && at[j] == k;
            if j < rest.len() {
                assert(rest[j] == k);
                assert(rest.contains(k));
                let i = choose|i: int| 0 <= i < before.len() && before[i] == part;
                assert(all[i] == part);
            } else {
                assert(all[all.len() - 1] == part);
            }
        }
    }
}

/// What is sent for a form carries the bytes of every image in it, the one it is about first
/// behind the text; and beside the text, the images and the mask nothing is sent.
pub proof fn an_edit_sends_its_images(p: ImagePlan, form: FormView, mode: ImageEditMode, k: int)
    requires
        is_edit_plan(p, form, mode),
        0 <= k < form.files.len(),
    ensures
        primary(form.files) matches Some(i) && part_views(p.parts@).len() > 1 && (part_views(
            p.parts@,
        )[1] matches PartView::InlineData { data, .. } && data == base64_text(
            form.files[i].1.data,
        )),
        form.files[k].0 == "file"@ || starts(form.files[k].0, "image"@) ==> exists|j: int|
            0 < j < part_views(p.parts@).len() && (#[trigger] part_views(p.parts@)[j] matches
                PartView::InlineData { data, .. } && data == base64_text(form.files[k].1.data)),
        mode == ImageEditMode::Edits && file_from(form.files, "mask"@, 0) is Some ==> part_views(
            p.parts@,
        ).len() > 2 && (part_views(p.parts@)[2] matches PartView::InlineData { data, .. } && data
            == base64_text(form.files[file_from(form.files, "mask"@, 0)->0].1.data)),
        p.parts@.len() == sent_files(form.files).len() + 1 + (if sent_files(form.files).contains(
            primary(form.files)->0,
        ) {
            0int
        } else {
            1
        }) + (if mode == ImageEditMode::Edits && file_from(form.files, "mask"@, 0) is Some {
            1int
        } else {
            0
        }),
{
    let files = form.files;
    let i = primary(files)->0;
    let parts = edit_parts(form, mode, i);
    let at = sent_files(files);
    assert(part_views(p.parts@).len() == p.parts@.len());
    every_image_is_sent_once(files);
    lemma_parts_at(files, at, i);
    let others = parts_at(files, at, i);
    let n = parts.len() - others.len();
    assert(parts[1] == file_part(files[i].1, "image/png"@));
    if files[k].0 == "file"@ || starts(files[k].0, "image"@) {
        assert(at.contains(k));
        if k == i {
            assert(part_views(p.parts@)[1] is InlineData);
        } else {
            let part = file_part(files[k].1, "image/png"@);
            let j = choose|j: int| 0 <= j < others.len() && others[j] == part;
            assert(parts[n + j] == part);
            assert(part_views(p.parts@)[n + j] is InlineData);
        }
    }
}

/// The first file of a name.
proof fn lemma_file_from(files: Seq<(Seq<char>, FileView)>, name: Seq<char>, i: int)
    requires
        0 <= i <= files.len(),
    ensures
        match file_from(files, name, i) {
            Some(k) => i <= k < files.len() && files[k].0 == name && forall|j: int|
                i <= j < k ==> (#[trigger] files[j]).0 != name,
            None => forall|j: int| i <= j < files.len() ==> (#[trigger] files[j]).0 != name,
        },
    decreases files.len() - i,
{
    if i < files.len() && files[i].0 != name {
        lemma_file_from(files, name, i + 1);
    }
}

/// The image that a form is about is the first one named `image`; where none is, the first one
/// named `file`; where neither is, one whose name begins with `image`; and there is one where
/// any file has such a name.
pub proof fn the_image_of_a_form_is_found(files: Seq<(Seq<char>, FileView)>, k: int)
    requires
        0 <= k < files.len(),
    ensures
        files[k].0 == "image"@ ==> (primary(files) matches Some(i) && 0 <= i <= k && files[i].0
            == "image"@),
        files[k].0 == "file"@ ==> (primary(files) matches Some(i) && 0 <= i < files.len() && (
        files[i].0 == "image"@ || i <= k && files[i].0 == "file"@)),
        starts(files[k].0, "image"@) ==> (primary(files) matches Some(i) && 0 <= i < files.len()
            && (files[i].0 == "file"@ || starts(files[i].0, "image"@))),
{
    lemma_file_from(files, "image"@, 0);
    lemma_file_from(files, "file"@, 0);
    assert(starts("image"@, "image"@)) by {
        assert("image"@.subrange(0, "image"@.len() as int) =~= "image"@);
    }
    if starts(files[k].0, "image"@) {
        let names = crate::order::in_order(file_names(files));
        crate::order::ordered_names_are_the_same(file_names(files));
        assert(file_names(files)[k] == files[k].0);
        assert(file_names(files).contains(files[k].0));
        assert(names.contains(files[k].0));
        let j = choose|j: int| 0 <= j < names.len() && names[j] == files[k].0;
        lemma_file_from(files, files[k].0, 0);
        lemma_image_from(files, names, 0, j);
    }
}

proof fn lemma_image_from(
    files: Seq<(Seq<char>, FileView)>,
    names: Seq<Seq<char>>,
    k: int,
    j: int,
)
    requires
        0 <= k <= j < names.len(),
        starts(names[j], "image"@),
        file_from(files, names[j], 0) is Some,
    ensures
        image_from(files, names, k) matches Some(i) && 0 <= i < files.len() && starts(
            files[i].0,
            "image"@,
        ),
    decreases names.len() - k,
{
    lemma_file_from(files, names[k], 0);
    if !(starts(names[k], "image"@) && file_from(files, names[k], 0) is Some) {
        lemma_image_from(files, names, k + 1, j);
    }
}

/// Every image of an upstream reply is passed on, in order, with its whole data, as a data URL
/// or as base64 text; and with each the text of the model, where there is one.
pub proof fn images_are_passed_on(p: Seq<PartView>, url: bool)
    ensures
        ({
            let images = p.filter(|x: PartView| x is InlineData);
            let items = image_items(p, url);
            &&& items.len() == images.len()
            &&& forall|i: int|
                #![trigger items[i]]
                0 <= i < images.len() ==> {
                    &&& images[i] matches PartView::InlineData { mime_type, data } && (if url {
                        crate::json::entry(items[i], "url"@) == Some(
                            JsonView::Text("data:"@ + mime_type + ";base64,"@ + data),
                        )
                    } else {
                        crate::json::entry(items[i], "b64_json"@) == Some(JsonView::Text(data))
                    })
                    &&& crate::json::entry(items[i], "revised_prompt"@) == (match revised_prompt(
                        p,
                    ) {
                        Some(t) => Some(JsonView::Text(t)),
                        None => None,
                    })
                }
        }),
{
    reveal_strlit("url");
    reveal_strlit("b64_json");
    reveal_strlit("revised_prompt");
    assert("url"@.len() != "revised_prompt"@.len());
    assert("b64_json"@.len() != "revised_prompt"@.len());
    lemma_image_entries(p, url);
    let images = p.filter(|x: PartView| x is InlineData);
    let items = image_items(p, url);
    assert forall|i: int|
        #![trigger items[i]]
        0 <= i < images.len() implies {
        &&& images[i] matches PartView::InlineData { mime_type, data } && (if url {
            crate::json::entry(items[i], "url"@) == Some(
                JsonView::Text("data:"@ + mime_type + ";base64,"@ + data),
            )
        } else {
            crate::json::entry(items[i], "b64_json"@) == Some(JsonView::Text(data))
        })
        &&& crate::json::entry(items[i], "revised_prompt"@) == (match revised_prompt(p) {
            Some(t) => Some(JsonView::Text(t)),
            None => None,
        })
    } by {
        let e = image_entries(p, url)[i];
        assert(items[i] == with_revision(e, revised_prompt(p)));
    }
}

proof fn lemma_image_entries(p: Seq<PartView>, url: bool)
    ensures
        ({
            let images = p.filter(|x: PartView| x is InlineData);
            let entries = image_entries(p, url);
            &&& entries.len() == images.len()
            &&& forall|i: int|
                #![trigger entries[i]]
                0 <= i < images.len() ==> (images[i] matches PartView::InlineData {
                    mime_type,
                    data,
                } && entries[i] == image_entry(mime_type, data, url))
        }),
    decreases p.len(),
{
    reveal(Seq::filter);
    if p.len() > 0 {
        lemma_image_entries(p.drop_last(), url);
    }
}

/// The text that is passed on is the first one of the reply that is not blank, without the
/// white space round it; there is none only where all texts are blank.
pub proof fn the_first_text_is_passed_on(p: Seq<PartView>)
    ensures
        match revised_prompt(p) {
            Some(t) => exists|i: int|
                0 <= i < p.len() && (#[trigger] p[i] matches PartView::Text { text } && t == trimmed(
                    text,
                ) && t.len() > 0) && forall|j: int|
                    0 <= j < i ==> (#[trigger] p[j] matches PartView::Text { text } ==> trimmed(
                        text,
                    ).len() == 0),
            None => forall|j: int|
                0 <= j < p.len() ==> (#[trigger] p[j] matches PartView::Text { text } ==> trimmed(
                    text,
                ).len() == 0),
        },
    decreases p.len(),
{
    if p.len() > 0 {
        let rest = p.drop_last();
        the_first_text_is_passed_on(rest);
        match revised_prompt(rest) {
            Some(t) => {
                let i = choose|i: int|
                    0 <= i < rest.len() && (#[trigger] rest[i] matches PartView::Text { text } && t
                        == trimmed(text) && t.len() > 0) && forall|j: int|
                        0 <= j < i ==> (#[trigger] rest[j] matches PartView::Text { text }
                            ==> trimmed(text).len() == 0);
                assert(p[i] == rest[i]);
                assert forall|j: int| 0 <= j < i implies (#[trigger] p[j] matches PartView::Text {
                    text,
                } ==> trimmed(text).len() == 0) by {
                    assert(rest[j] == p[j]);
                }
            },
            None => {
                let last = p[p.len() - 1];
                assert forall|j: int| 0 <= j < p.len() - 1 implies (#[trigger] p[j] matches
                    PartView::Text { text } ==> trimmed(text).len() == 0) by {
                    assert(rest[j] == p[j]);
                }
            },
        }
    }
}

/// A request to generate images is in order where it has a prompt that is not blank, a known
/// format or none, between one and ten images, and nothing unknown about their looks.
pub proof fn generations_in_order_have_no_fault(q: ImagesGenerationsRequest)
    ensures
        generation_fault(q) is None <==> {
            &&& q.prompt matches Some(p) && trimmed(p@).len() > 0
            &&& q.response_format matches Some(f) ==> f@ == "b64_json"@ || f@ == "url"@
            &&& q.n matches Some(n) ==> 1 <= n <= 10
            &&& q.size matches Some(s) ==> is_size(s@)
            &&& q.quality matches Some(s) ==> is_quality(s@)
            &&& q.style matches Some(s) ==> is_style(s@)
        },
{
}

/// A size that is taken is automatic or has its width and height in it, each at least 256.
pub proof fn sizes_have_width_and_height(s: Seq<char>)
    ensures
        is_size(s) && s != "auto"@ ==> exists|w: nat, h: nat|
            256 <= w <= 1536 && 256 <= h <= 1536 && s == #[trigger] sized(w, h),
        is_size("auto"@) && is_quality("auto"@),
{
    if is_size(s) && s != "auto"@ {
        reveal_strlit("256x256");
        reveal_strlit("512x512");
        reveal_strlit("1024x1024");
        reveal_strlit("1024x1536");
        reveal_strlit("1536x1024");
        lemma_side_texts();
        assert("256x256"@ =~= sized(256, 256));
        assert("512x512"@ =~= sized(512, 512));
        assert("1024x1024"@ =~= sized(1024, 1024));
        assert("1024x1536"@ =~= sized(1024, 1536));
        assert("1536x1024"@ =~= sized(1536, 1024));
    }
}

/// A width and a height in one text.
pub open spec fn sized(w: nat, h: nat) -> Seq<char> {
    decimal(w) + seq!['x'] + decimal(h)
}

proof fn lemma_side_texts()
    ensures
        decimal(256) == seq!['2', '5', '6'],
        decimal(512) == seq!['5', '1', '2'],
        decimal(1024) == seq!['1', '0', '2', '4'],
        decimal(1536) == seq!['1', '5', '3', '6'],
{
    reveal_with_fuel(decimal, 5);
    assert(decimal(256) =~= seq!['2', '5', '6']);
    assert(decimal(512) =~= seq!['5', '1', '2']);
    assert(decimal(1024) =~= seq!['1', '0', '2', '4']);
    assert(decimal(1536) =~= seq!['1', '5', '3', '6']);
}

/// An edit is in order where it has an image that is not empty, and a prompt unless it is a
/// variation, and its parameters are in order.
pub proof fn edits_in_order_have_no_fault(form: FormView)
    ensures
        edit_fault(form, ImageEditMode::Edits) is None <==> edit_fault(
            form,
            ImageEditMode::Variations,
        ) is None && form_prompt(form).len() > 0,
        edit_fault(form, ImageEditMode::Variations) is None ==> primary(form.files) is Some
            && form.files[primary(form.files)->0].1.data.len() > 0 && 1 <= form_count(form) <= 10
            && (form_format(form) == "b64_json"@ || form_format(form) == "url"@),
        primary(form.files) is None ==> edit_fault(form, ImageEditMode::Variations) is Some,
{
}

/// The parts of several candidates are those of each, in order.
pub proof fn candidates_are_read_one_by_one(
    a: Seq<GoogleCandidate>,
    b: Seq<GoogleCandidate>,
    x: GoogleCandidate,
)
    ensures
        parts_of(a + b) == parts_of(a) + parts_of(b),
        parts_of(seq![x]) == (match x.parts {
            Some(p) => part_views(p@),
            None => Seq::empty(),
        }),
    decreases b.len(),
{
    let none = seq![x].drop_last();
    assert(none.len() == 0);
    assert(parts_of(none) =~= Seq::empty());
    assert(seq![x].last() == x);
    assert(parts_of(seq![x]) =~= (match x.parts {
        Some(p) => part_views(p@),
        None => Seq::empty(),
    }));
    if b.len() == 0 {
        assert(a + b =~= a);
        assert(parts_of(a + b) =~= parts_of(a) + parts_of(b));
    } else {
        assert((a + b).drop_last() =~= a + b.drop_last());
        candidates_are_read_one_by_one(a, b.drop_last(), x);
        assert(parts_of(a + b) =~= parts_of(a) + parts_of(b));
    }
}

/// A list of images has all of them and the time they were made.
pub proof fn image_lists_are_whole(created: u64, items: Seq<JsonView>)
    ensures
        crate::json::entry(images_json(created, items), "created"@) == Some(uint(created)),
        crate::json::entry(images_json(created, items), "data"@) == Some(JsonView::Array(items)),
{
    reveal_strlit("created");
    reveal_strlit("data");
    assert("created"@.len() != "data"@.len());
}

/// Mock images are told apart by their number and say the prompt; one that is asked for as an
/// address is the same image in one.
pub proof fn mock_images_are_told_apart(i: int, j: int, revised: Seq<char>)
    requires
        0 <= i,
        0 <= j,
        i != j,
    ensures
        mock_item(i, false, revised) != mock_item(j, false, revised),
        crate::json::entry(mock_item(i, false, revised), "revised_prompt"@) == Some(
            JsonView::Text(revised),
        ),
        crate::json::entry(mock_item(i, true, revised), "revised_prompt"@) == Some(
            JsonView::Text(revised),
        ),
        exists|t: Seq<char>|
            crate::json::entry(mock_item(i, false, revised), "b64_json"@) == Some(
                JsonView::Text(t),
            ) && crate::json::entry(mock_item(i, true, revised), "url"@) == Some(
                JsonView::Text(#[trigger] ("data:image/png;base64,"@ + t)),
            ),
{
    reveal_strlit("b64_json");
    reveal_strlit("revised_prompt");
    reveal_strlit("url");
    assert("b64_json"@.len() != "revised_prompt"@.len());
    assert("url"@.len() != "revised_prompt"@.len());
    let d = decimal((i + 1) as nat);
    let e = decimal((j + 1) as nat);
    let t = "MOCK_IMAGE_DATA_"@ + d;
    let u = "MOCK_IMAGE_DATA_"@ + e;
    crate::text::decimal_is_read_back((i + 1) as nat);
    crate::text::decimal_is_read_back((j + 1) as nat);
    if t == u {
        assert(d =~= t.skip("MOCK_IMAGE_DATA_"@.len() as int));
        assert(e =~= u.skip("MOCK_IMAGE_DATA_"@.len() as int));
    }
    let a = mock_item(i, false, revised);
    let b = mock_item(j, false, revised);
    assert(crate::json::entry(a, "b64_json"@) == Some(JsonView::Text(t)));
    assert(crate::json::entry(b, "b64_json"@) == Some(JsonView::Text(u)));
    assert(crate::json::entry(mock_item(i, true, revised), "url"@) == Some(
        JsonView::Text("data:image/png;base64,"@ + t),
    ));
}

/// A request that is not in order is refused with 400 and a failure upstream is answered with
/// 502, each with its message and its type.
pub proof fn refusals_say_why(message: Seq<char>)
    ensures
        bad_request(message).status == 400,
        bad_gateway(message).status == 502,
        bad_request(message).body == compact_json(
            error_body(message, "invalid_request_error"@, ErrorFormat::OpenAI, None),
        ),
        bad_gateway(message).body == compact_json(
            error_body(message, "api_error"@, ErrorFormat::OpenAI, None),
        ),
        bad_request(message).headers == seq![("Content-Type"@, "application/json"@)],
        bad_gateway(message).headers == seq![("Content-Type"@, "application/json"@)],
{
}

/// The digits of base64 are told apart, are letters, digits or one of two signs, and none is the
/// sign that fills up.
pub proof fn base64_digits_are_told_apart(m: int, n: int)
    requires
        0 <= m < 64,
        0 <= n < 64,
    ensures
        base64_char(m) == base64_char(n) ==> m == n,
        base64_char(n) != '=',
        'A' <= base64_char(n) <= 'Z' || 'a' <= base64_char(n) <= 'z' || '0' <= base64_char(n) <= '9'
            || base64_char(n) == '+' || base64_char(n) == '/',
{
}

/// Nothing is lost in base64: different bytes have different texts.
pub proof fn base64_tells_bytes_apart(a: Seq<u8>, b: Seq<u8>)
    requires
        base64_text(a) == base64_text(b),
    ensures
        a == b,
    decreases a.len(),
{
    if a.len() == 0 || b.len() == 0 {
        assert(a =~= b);
    } else {
        let s = base64_text(a);
        lemma_first_four(a);
        lemma_first_four(b);
        lemma_same_three(a, b);
        if a.len() <= 3 || b.len() <= 3 {
            assert(a =~= b);
        } else {
            let x = a.subrange(3, a.len() as int);
            let y = b.subrange(3, b.len() as int);
            assert(base64_text(x) =~= s.skip(4));
            assert(base64_text(y) =~= s.skip(4));
            base64_tells_bytes_apart(x, y);
            assert forall|i: int| 0 <= i < a.len() implies a[i] == b[i] by {
                if i >= 3 {
                    assert(x[i - 3] == a[i]);
                    assert(y[i - 3] == b[i]);
                }
            }
            assert(x.len() == y.len());
            assert(a =~= b);
        }
    }
}

/// The first four characters of a base64 text, and whether more follow.
proof fn lemma_first_four(b: Seq<u8>)
    requires
        b.len() > 0,
    ensures
        ({
            let s = base64_text(b);
            let y = if b.len() > 1 {
                b[1] as int
            } else {
                0
            };
            let z = if b.len() > 2 {
                b[2] as int
            } else {
                0
            };
            &&& s.len() >= 4
            &&& s[0] == base64_char(b[0] as int / 4)
            &&& s[1] == base64_char(b[0] as int % 4 * 16 + y / 16)
            &&& s[2] == (if b.len() > 1 {
                base64_char(y % 16 * 4 + z / 64)
            } else {
                '='
            })
            &&& s[3] == (if b.len() > 2 {
                base64_char(z % 64)
            } else {
                '='
            })
            &&& s.len() > 4 <==> b.len() > 3
        }),
{
    if b.len() > 3 {
        let rest = b.subrange(3, b.len() as int);
        assert(base64_text(rest).len() >= 4);
    }
}

/// The bytes behind the same first four characters are the same.
proof fn lemma_same_three(a: Seq<u8>, b: Seq<u8>)
    requires
        a.len() > 0,
        b.len() > 0,
        base64_text(a) == base64_text(b),
    ensures
        a.len() > 1 <==> b.len() > 1,
        a.len() > 2 <==> b.len() > 2,
        a.len() > 3 <==> b.len() > 3,
        a[0] == b[0],
        a.len() > 1 ==> a[1] == b[1],
        a.len() > 2 ==> a[2] == b[2],
{
    lemma_first_four(a);
    lemma_first_four(b);
    let ax = a[0] as int;
    let bx = b[0] as int;
    let ay = if a.len() > 1 {
        a[1] as int
    } else {
        0
    };
    let by = if b.len() > 1 {
        b[1] as int
    } else {
        0
    };
    let az = if a.len() > 2 {
        a[2] as int
    } else {
        0
    };
    let bz = if b.len() > 2 {
        b[2] as int
    } else {
        0
    };
    base64_digits_are_told_apart(ax / 4, bx / 4);
    base64_digits_are_told_apart(ax % 4 * 16 + ay / 16, bx % 4 * 16 + by / 16);
    base64_digits_are_told_apart(ay % 16 * 4 + az / 64, by % 16 * 4 + bz / 64);
    base64_digits_are_told_apart(by % 16 * 4 + bz / 64, ay % 16 * 4 + az / 64);
    base64_digits_are_told_apart(az % 64, bz % 64);
    base64_digits_are_told_apart(bz % 64, az % 64);
}

} // verus!
