//! OpenAI's audio transcriptions: what is checked, what is asked, what is answered.

use vstd::prelude::*;

use crate::chat::opt;
use crate::images::{
    bad_gateway, bad_request, bad_request_reply, base64_encode, base64_text, encodable, or_else,
};
use crate::json::{
    array_view, compact_json, entry, json_object, json_str, json_text, json_uint, uint, with, Json,
    JsonView,
};
use crate::messages::{ContentBlock, Message, MessageContent, Role, Source};
use crate::multipart::{
    field_views, first_value, multipart_field_values, multipart_first_field, values_of, FormView,
    MultipartFormData,
};
use crate::reply::{json_ok_reply, json_ok_response, openai_error_response, Reply, ReplyView};
use crate::text::{
    ascii_lower, decimal, decimal_text, ends, holds, same, starts, to_ascii_lower, trim, trimmed, two_digits, views,
};

verus! {

/// `n` in decimal notation, with leading zeros up to three digits.
pub open spec fn three_digits(n: nat) -> Seq<char> {
    if n < 100 {
        "0"@ + two_digits(n)
    } else {
        decimal(n)
    }
}

/// A time in a subtitle file: hours, minutes, seconds, milliseconds; WebVTT has a point
/// before the milliseconds, SubRip a comma.
pub open spec fn subtitle_time(total_ms: nat, webvtt: bool) -> Seq<char> {
    two_digits(total_ms / 3_600_000) + ":"@ + two_digits((total_ms / 60_000) % 60) + ":"@
        + two_digits((total_ms / 1000) % 60) + (if webvtt {
        "."@
    } else {
        ","@
    }) + three_digits(total_ms % 1000)
}

/// Appends a number with a leading zero where it has one digit.
pub fn push_two_digits(s: &mut String, n: u64)
    ensures
        final(s)@ == old(s)@ + two_digits(n as nat),
{
    if n < 10 {
        s.push('0');
    }
    let d = decimal_text(n);
    s.push_str(&d);
    assert(s@ =~= old(s)@ + two_digits(n as nat));
}

/// A time in a subtitle file.
pub fn subtitle_timestamp(total_ms: u64, webvtt: bool) -> (r: String)
    ensures
        r@ == subtitle_time(total_ms as nat, webvtt),
{
    let ms: u64 = total_ms % 1000;
    let total_s: u64 = total_ms / 1000;
    let s: u64 = total_s % 60;
    let total_m: u64 = total_s / 60;
    let m: u64 = total_m % 60;
    let h: u64 = total_m / 60;
    assert(total_m == total_ms / 60_000);
    assert(h == total_ms / 3_600_000);
    let mut r = String::new();
    push_two_digits(&mut r, h);
    r.push_str(":");
    push_two_digits(&mut r, m);
    r.push_str(":");
    push_two_digits(&mut r, s);
    r.push_str(if webvtt {
        "."
    } else {
        ","
    });
    let ghost before = r@;
    if ms < 100 {
        r.push_str("0");
        push_two_digits(&mut r, ms);
    } else {
        r.push_str(&decimal_text(ms));
    }
    assert(r@ =~= before + three_digits(ms as nat));
    assert(r@ =~= subtitle_time(total_ms as nat, webvtt));
    r
}

/// The subtitles of a transcript, as one SubRip entry of half a minute.
pub open spec fn srt(transcript: Seq<char>) -> Seq<char> {
    "1\n"@ + subtitle_time(0, false) + " --> "@ + subtitle_time(30_000, false) + "\n"@ + trimmed(
        transcript,
    ) + "\n"@
}

/// The subtitles of a transcript, as one WebVTT entry of half a minute.
pub open spec fn vtt(transcript: Seq<char>) -> Seq<char> {
    "WEBVTT\n\n"@ + subtitle_time(0, true) + " --> "@ + subtitle_time(30_000, true) + "\n"@
        + trimmed(transcript) + "\n"@
}

/// The subtitles of a transcript, in SubRip's format.
pub fn to_srt(transcript: &str) -> (r: String)
    ensures
        r@ == srt(transcript@),
{
    let mut r = "1\n".to_owned();
    r.push_str(&subtitle_timestamp(0, false));
    r.push_str(" --> ");
    r.push_str(&subtitle_timestamp(30_000, false));
    r.push_str("\n");
    r.push_str(&trim(transcript));
    r.push_str("\n");
    r
}

/// The subtitles of a transcript, in WebVTT's format.
pub fn to_vtt(transcript: &str) -> (r: String)
    ensures
        r@ == vtt(transcript@),
{
    let mut r = "WEBVTT\n\n".to_owned();
    r.push_str(&subtitle_timestamp(0, true));
    r.push_str(" --> ");
    r.push_str(&subtitle_timestamp(30_000, true));
    r.push_str("\n");
    r.push_str(&trim(transcript));
    r.push_str("\n");
    r
}

/// The JSON numbers of a segment that are written with a decimal point: zero and the half
/// minute that a segment lasts.
#[derive(Debug, PartialEq)]
pub struct SegmentNumbers {
    pub zero: Json,
    pub end: Json,
}

/// The one segment of a transcript.
pub open spec fn segment_json(transcript: Seq<char>, zero: JsonView, end: JsonView) -> JsonView {
    JsonView::Object(
        Map::empty().insert("id"@, uint(0)).insert("seek"@, uint(0)).insert("start"@, zero).insert(
            "end"@,
            end,
        ).insert("text"@, JsonView::Text(transcript)).insert(
            "tokens"@,
            JsonView::Array(Seq::empty()),
        ).insert("temperature"@, zero).insert("avg_logprob"@, zero).insert(
            "compression_ratio"@,
            zero,
        ).insert("no_speech_prob"@, zero),
    )
}

/// The value of a detailed transcription.
pub open spec fn verbose_json(
    transcript: Seq<char>,
    language: Seq<char>,
    words: bool,
    segments: bool,
    zero: JsonView,
    end: JsonView,
) -> JsonView {
    let base = Map::empty().insert("task"@, JsonView::Text("transcribe"@)).insert(
        "language"@,
        JsonView::Text(language),
    ).insert("duration"@, JsonView::Null).insert("text"@, JsonView::Text(transcript));
    let worded = if words {
        base.insert("words"@, JsonView::Array(Seq::empty()))
    } else {
        base
    };
    JsonView::Object(
        if segments {
            worded.insert(
                "segments"@,
                JsonView::Array(seq![segment_json(transcript, zero, end)]),
            )
        } else {
            worded
        },
    )
}

/// A reply of plain text.
pub open spec fn text_reply(content_type: Seq<char>, body: Seq<char>) -> ReplyView {
    ReplyView { status: 200, headers: seq![("Content-Type"@, content_type)], body }
}

/// What a transcript is answered with in a format.
pub open spec fn transcription_reply(
    format: Seq<char>,
    transcript: Seq<char>,
    language: Seq<char>,
    words: bool,
    segments: bool,
    zero: JsonView,
    end: JsonView,
    request_id: Seq<char>,
) -> ReplyView {
    if format == "text"@ {
        text_reply("text/plain; charset=utf-8"@, transcript)
    } else if format == "srt"@ {
        text_reply("text/plain; charset=utf-8"@, srt(transcript))
    } else if format == "vtt"@ {
        text_reply("text/vtt; charset=utf-8"@, vtt(transcript))
    } else if format == "verbose_json"@ {
        json_ok_reply(
            compact_json(verbose_json(transcript, language, words, segments, zero, end)),
            request_id,
            Some("BYPASS"@),
        )
    } else {
        json_ok_reply(
            compact_json(
                JsonView::Object(Map::empty().insert("text"@, JsonView::Text(transcript))),
            ),
            request_id,
            Some("BYPASS"@),
        )
    }
}

/// The one segment of a transcript.
fn segment(transcript: &str, numbers: &SegmentNumbers) -> (r: Json)
    ensures
        r@ == segment_json(transcript@, numbers.zero@, numbers.end@),
{
    let none: Vec<Json> = Vec::new();
    let tokens = Json::Array(none);
    assert(tokens@ == JsonView::Array(Seq::empty()));
    let o = with(json_object(), "id", json_uint(0));
    let o = with(o, "seek", json_uint(0));
    let o = with(o, "start", numbers.zero.clone());
    let o = with(o, "end", numbers.end.clone());
    let o = with(o, "text", json_str(transcript));
    let o = with(o, "tokens", tokens);
    let o = with(o, "temperature", numbers.zero.clone());
    let o = with(o, "avg_logprob", numbers.zero.clone());
    let o = with(o, "compression_ratio", numbers.zero.clone());
    with(o, "no_speech_prob", numbers.zero.clone())
}

/// The reply with a transcript, in the format that was asked for.
pub fn build_transcription_response(
    response_format: &str,
    transcript: &str,
    language: &str,
    include_word_timestamps: bool,
    include_segment_timestamps: bool,
    numbers: &SegmentNumbers,
    request_id: &str,
) -> (r: Reply)
    ensures
        r@ == transcription_reply(
            response_format@,
            transcript@,
            language@,
            include_word_timestamps,
            include_segment_timestamps,
            numbers.zero@,
            numbers.end@,
            request_id@,
        ),
{
    if same(response_format, "text") {
        Reply::new(200, transcript.to_owned()).header("Content-Type", "text/plain; charset=utf-8")
    } else if same(response_format, "srt") {
        Reply::new(200, to_srt(transcript)).header("Content-Type", "text/plain; charset=utf-8")
    } else if same(response_format, "vtt") {
        Reply::new(200, to_vtt(transcript)).header("Content-Type", "text/vtt; charset=utf-8")
    } else if same(response_format, "verbose_json") {
        let o = with(json_object(), "task", json_str("transcribe"));
        let o = with(o, "language", json_str(language));
        let o = with(o, "duration", Json::Null);
        let mut o = with(o, "text", json_str(transcript));
        if include_word_timestamps {
            let none: Vec<Json> = Vec::new();
            let words = Json::Array(none);
            assert(words@ == JsonView::Array(Seq::empty()));
            o = with(o, "words", words);
        }
        if include_segment_timestamps {
            let mut list: Vec<Json> = Vec::new();
            let one = segment(transcript, numbers);
            let ghost view = one@;
            list.push(one);
            assert(list@.drop_last() =~= Seq::<Json>::empty());
            assert(array_view(Seq::<Json>::empty()) =~= Seq::empty());
            assert(array_view(list@) =~= seq![view]);
            o = with(o, "segments", Json::Array(list));
        }
        json_ok_response(json_text(&o), request_id, Some("BYPASS"))
    } else {
        let o = with(json_object(), "text", json_str(transcript));
        json_ok_response(json_text(&o), request_id, Some("BYPASS"))
    }
}

/// Whether a list has a value, whatever the case of its ASCII letters.
pub open spec fn asks_for(values: Seq<Seq<char>>, what: Seq<char>) -> bool {
    exists|i: int| 0 <= i < values.len() && ascii_lower(#[trigger] values[i]) == ascii_lower(what)
}

/// The granularities that a form asks for, under either name.
pub open spec fn granularities(fields: Seq<(Seq<char>, Seq<char>)>) -> Seq<Seq<char>> {
    values_of(fields, "timestamp_granularities[]"@) + values_of(fields, "timestamp_granularities"@)
}

/// Whether a list has a value, whatever the case of its ASCII letters.
fn any_is(values: &Vec<String>, what: &str) -> (r: bool)
    ensures
        r == asks_for(views(values@), what@),
{
    let wanted = to_ascii_lower(what);
    let mut i: usize = 0;
    while i < values.len()
        invariant
            i <= values@.len(),
            wanted@ == ascii_lower(what@),
            forall|j: int|
                0 <= j < i ==> ascii_lower(#[trigger] views(values@)[j]) != ascii_lower(what@),
        decreases values@.len() - i,
    {
        let lower = to_ascii_lower(&values[i]);
        assert(views(values@)[i as int] == values@[i as int]@);
        if same(&lower, &wanted) {
            return true;
        }
        i = i + 1;
    }
    false
}

/// Which timestamps a form asks for: of words, of segments. Those of segments where it does
/// not say.
pub fn parse_timestamp_granularities(fields: &Vec<(String, String)>) -> (r: (bool, bool))
    ensures
        r == (if granularities(field_views(fields@)).len() == 0 {
            (false, true)
        } else {
            (
                asks_for(granularities(field_views(fields@)), "word"@),
                asks_for(granularities(field_views(fields@)), "segment"@),
            )
        }),
{
    let mut values = multipart_field_values(fields, "timestamp_granularities[]");
    let ghost first = views(values@);
    let mut more = multipart_field_values(fields, "timestamp_granularities");
    let ghost second = views(more@);
    values.append(&mut more);
    assert(views(values@) =~= first + second);
    if values.len() == 0 {
        (false, true)
    } else {
        (any_is(&values, "word"), any_is(&values, "segment"))
    }
}

/// What is asked of the model for one recording.
#[derive(Debug, Clone, PartialEq)]
pub struct TranscriptionPlan {
    pub response_format: String,
    pub include_word_timestamps: bool,
    pub include_segment_timestamps: bool,
    pub language: String,
    pub requested_model: String,
    pub instruction: String,
    pub media_type: String,
    pub audio: String,
}

/// The formats of a transcription.
pub open spec fn is_format(s: Seq<char>) -> bool {
    s == "json"@ || s == "text"@ || s == "verbose_json"@ || s == "srt"@ || s == "vtt"@
}

/// The format that a form asks for.
pub open spec fn asked_format(form: FormView) -> Seq<char> {
    or_else(first_value(form.fields, "response_format"@), "json"@)
}

/// A field of a form, where it is not blank.
pub open spec fn filled(form: FormView, key: Seq<char>) -> Option<Seq<char>> {
    match first_value(form.fields, key) {
        Some(t) => if trimmed(t).len() > 0 {
            Some(t)
        } else {
            None
        },
        None => None,
    }
}

/// The first thing that is wrong with a form that asks for a transcription.
pub open spec fn transcription_fault(form: FormView) -> Option<Seq<char>> {
    match form.file {
        None => Some("Missing required multipart field 'file'"@),
        Some(f) => if f.data.len() == 0 {
            Some("Uploaded audio file is empty"@)
        } else if !is_format(asked_format(form)) {
            Some("Unsupported response_format (supported: json, text, verbose_json, srt, vtt)"@)
        } else {
            None
        },
    }
}

/// What the model is told to do with a recording.
pub open spec fn transcription_instruction(form: FormView) -> Seq<char> {
    let told = "Transcribe the provided audio verbatim. Return only the transcription."@;
    let spoken = match filled(form, "language"@) {
        Some(l) => told + " The expected language is '"@ + l + "'."@,
        None => told,
    };
    match filled(form, "prompt"@) {
        Some(p) => spoken + " Additional context: "@ + p,
        None => spoken,
    }
}

/// Whether a plan is that of a form.
pub open spec fn is_transcription_plan(p: TranscriptionPlan, form: FormView) -> bool {
    &&& p.response_format@ == asked_format(form)
    &&& (p.include_word_timestamps, p.include_segment_timestamps) == (if granularities(
        form.fields,
    ).len() == 0 {
        (false, true)
    } else {
        (
            asks_for(granularities(form.fields), "word"@),
            asks_for(granularities(form.fields), "segment"@),
        )
    })
    &&& p.language@ == or_else(filled(form, "language"@), "unknown"@)
    &&& p.requested_model@ == or_else(first_value(form.fields, "model"@), "gemini-3-flash"@)
    &&& p.instruction@ == transcription_instruction(form)
    &&& form.file matches Some(f) && p.media_type@ == or_else(f.content_type, "audio/wav"@)
        && p.audio@ == base64_text(f.data)
}

/// A field of a form, where it is not blank.
fn filled_field(form: &MultipartFormData, key: &str) -> (r: Option<String>)
    ensures
        opt(r) == filled(form@, key@),
{
    match multipart_first_field(&form.fields, key) {
        Some(t) => {
            if trim(&t).as_str().is_empty() {
                None
            } else {
                Some(t)
            }
        },
        None => None,
    }
}

/// What is asked of the model for a form that asks for a transcription, or the reply where
/// the form is not in order.
pub fn plan_transcription(form: &MultipartFormData) -> (r: Result<TranscriptionPlan, Reply>)
    requires
        form@.file matches Some(f) ==> encodable(f.data),
    ensures
        match r {
            Ok(p) => transcription_fault(form@) is None && is_transcription_plan(p, form@),
            Err(reply) => transcription_fault(form@) matches Some(m) && reply@ == bad_request(m),
        },
{
    let file = match &form.file {
        Some(f) => f,
        None => {
            return Err(bad_request_reply("Missing required multipart field 'file'"));
        },
    };
    if file.data.len() == 0 {
        return Err(bad_request_reply("Uploaded audio file is empty"));
    }
    let response_format = match multipart_first_field(&form.fields, "response_format") {
        Some(t) => t,
        None => "json".to_owned(),
    };
    if !(same(&response_format, "json") || same(&response_format, "text") || same(
        &response_format,
        "verbose_json",
    ) || same(&response_format, "srt") || same(&response_format, "vtt")) {
        return Err(
            bad_request_reply(
                "Unsupported response_format (supported: json, text, verbose_json, srt, vtt)",
            ),
        );
    }
    let (include_word_timestamps, include_segment_timestamps) = parse_timestamp_granularities(
        &form.fields,
    );
    let hint = filled_field(form, "language");
    let mut instruction =
        "Transcribe the provided audio verbatim. Return only the transcription.".to_owned();
    let language = match hint {
        Some(l) => {
            instruction.push_str(" The expected language is '");
            instruction.push_str(&l);
            instruction.push_str("'.");
            l
        },
        None => "unknown".to_owned(),
    };
    match filled_field(form, "prompt") {
        Some(p) => {
            instruction.push_str(" Additional context: ");
            instruction.push_str(&p);
        },
        None => {},
    }
    let requested_model = match multipart_first_field(&form.fields, "model") {
        Some(t) => t,
        None => "gemini-3-flash".to_owned(),
    };
    let media_type = match &file.content_type {
        Some(t) => t.clone(),
        None => "audio/wav".to_owned(),
    };
    Ok(
        TranscriptionPlan {
            response_format,
            include_word_timestamps,
            include_segment_timestamps,
            language,
            requested_model,
            instruction,
            media_type,
            audio: base64_encode(&file.data),
        },
    )
}

impl TranscriptionPlan {
    /// The message that asks for the transcription: the recording, then what to do.
    pub fn message(&self) -> (r: Message)
        ensures
            r.role == Role::User,
            r.content matches MessageContent::Blocks(b) && b@.len() == 2 && (b@[0] matches
                ContentBlock::Document { source } && source.source_type@ == "base64"@
                && source.media_type@ == self.media_type@ && source.data@ == self.audio@) && (
            b@[1] matches ContentBlock::Text { text } && text@ == self.instruction@),
    {
        let mut blocks: Vec<ContentBlock> = Vec::new();
        blocks.push(
            ContentBlock::Document {
                source: Source {
                    source_type: "base64".to_owned(),
                    media_type: self.media_type.clone(),
                    data: self.audio.clone(),
                },
            },
        );
        blocks.push(ContentBlock::Text { text: self.instruction.clone() });
        Message { role: Role::User, content: MessageContent::Blocks(blocks) }
    }
}

/// The texts among blocks, joined.
pub open spec fn text_content(blocks: Seq<ContentBlock>) -> Seq<char>
    decreases blocks.len(),
{
    if blocks.len() == 0 {
        Seq::empty()
    } else {
        text_content(blocks.drop_last()) + match blocks.last() {
            ContentBlock::Text { text } => text@,
            _ => Seq::empty(),
        }
    }
}

/// The texts among blocks, joined.
pub fn extract_text_content(content: &Vec<ContentBlock>) -> (r: String)
    ensures
        r@ == text_content(content@),
{
    let mut r = String::new();
    let mut i: usize = 0;
    assert(content@.take(0) =~= Seq::empty());
    while i < content.len()
        invariant
            i <= content@.len(),
            r@ == text_content(content@.take(i as int)),
        decreases content@.len() - i,
    {
        assert(content@.take(i + 1).drop_last() =~= content@.take(i as int));
        match &content[i] {
            ContentBlock::Text { text } => {
                r.push_str(text);
            },
            _ => {
                assert(r@ + Seq::<char>::empty() =~= r@);
            },
        }
        i = i + 1;
    }
    assert(content@.take(content@.len() as int) =~= content@);
    r
}

/// The reply to a request for a transcription, from what the model said.
pub fn answer_transcription(
    plan: &TranscriptionPlan,
    content: &Vec<ContentBlock>,
    numbers: &SegmentNumbers,
    request_id: &str,
) -> (r: Reply)
    ensures
        r@ == (if trimmed(text_content(content@)).len() == 0 {
            bad_gateway("Transcription model returned no text"@)
        } else {
            transcription_reply(
                plan.response_format@,
                text_content(content@),
                plan.language@,
                plan.include_word_timestamps,
                plan.include_segment_timestamps,
                numbers.zero@,
                numbers.end@,
                request_id@,
            )
        }),
{
    let transcript = extract_text_content(content);
    if trim(&transcript).as_str().is_empty() {
        return openai_error_response(502, "Transcription model returned no text", "api_error");
    }
    build_transcription_response(
        &plan.response_format,
        &transcript,
        &plan.language,
        plan.include_word_timestamps,
        plan.include_segment_timestamps,
        numbers,
        request_id,
    )
}

/// A text of three parts holds its middle.
proof fn lemma_middle_held(a: Seq<char>, p: Seq<char>, b: Seq<char>)
    ensures
        holds(a + p + b, p),
{
    assert((a + p + b).subrange(a.len() as int, (a.len() + p.len()) as int) =~= p);
    assert(crate::text::occurs_at(a + p + b, p, a.len() as int));
}

/// The transcript is in the reply, whatever the format: as the whole body, as the text of the
/// subtitles without the white space round it, or as the text of the JSON.
pub proof fn the_transcript_is_answered(
    format: Seq<char>,
    transcript: Seq<char>,
    language: Seq<char>,
    words: bool,
    segments: bool,
    zero: JsonView,
    end: JsonView,
    request_id: Seq<char>,
)
    ensures
        ({
            let r = transcription_reply(
                format,
                transcript,
                language,
                words,
                segments,
                zero,
                end,
                request_id,
            );
            &&& r.status == 200
            &&& format == "text"@ ==> r.body == transcript
            &&& format == "srt"@ ==> holds(r.body, trimmed(transcript)) && starts(r.body, "1\n"@)
            &&& format == "vtt"@ ==> holds(r.body, trimmed(transcript)) && starts(
                r.body,
                "WEBVTT\n\n"@,
            )
            &&& format != "text"@ && format != "srt"@ && format != "vtt"@ ==> exists|v: JsonView|
                r.body == #[trigger] compact_json(v) && entry(v, "text"@) == Some(
                    JsonView::Text(transcript),
                ) && (format == "verbose_json"@ ==> entry(v, "language"@) == Some(
                    JsonView::Text(language),
                ) && (segments <==> entry(v, "segments"@) is Some) && (words <==> entry(v, "words"@)
                    is Some) && (segments ==> (entry(v, "segments"@) matches Some(
                    JsonView::Array(s),
                ) && s.len() == 1 && entry(s[0], "text"@) == Some(JsonView::Text(transcript)))))
        }),
{
    reveal_strlit("text");
    reveal_strlit("srt");
    reveal_strlit("vtt");
    reveal_strlit("verbose_json");
    assert("text"@.len() != "srt"@.len());
    assert("text"@.len() != "vtt"@.len());
    assert("text"@.len() != "verbose_json"@.len());
    assert("srt"@[0] != "vtt"@[0]);
    assert("srt"@.len() != "verbose_json"@.len());
    assert("vtt"@.len() != "verbose_json"@.len());
    reveal_strlit("json");
    reveal_strlit("task");
    reveal_strlit("language");
    reveal_strlit("duration");
    reveal_strlit("words");
    reveal_strlit("segments");
    reveal_strlit("start");
    reveal_strlit("end");
    reveal_strlit("tokens");
    reveal_strlit("temperature");
    reveal_strlit("avg_logprob");
    reveal_strlit("compression_ratio");
    reveal_strlit("no_speech_prob");
    reveal_strlit("id");
    reveal_strlit("seek");
    assert("task"@.len() != "language"@.len());
    assert("task"@.len() != "duration"@.len());
    assert("task"@.len() != "words"@.len());
    assert("task"@.len() != "segments"@.len());
    assert("task"@.len() != "start"@.len());
    assert("task"@.len() != "end"@.len());
    assert("task"@.len() != "tokens"@.len());
    assert("task"@.len() != "temperature"@.len());
    assert("task"@.len() != "avg_logprob"@.len());
    assert("task"@.len() != "compression_ratio"@.len());
    assert("task"@.len() != "no_speech_prob"@.len());
    assert("task"@.len() != "id"@.len());
    assert("task"@[0] != "seek"@[0]);
    assert("language"@[0] != "duration"@[0]);
    assert("language"@.len() != "words"@.len());
    assert("language"@[0] != "segments"@[0]);
    assert("language"@.len() != "start"@.len());
    assert("language"@.len() != "end"@.len());
    assert("language"@.len() != "tokens"@.len());
    assert("language"@.len() != "temperature"@.len());
    assert("language"@.len() != "avg_logprob"@.len());
    assert("language"@.len() != "compression_ratio"@.len());
    assert("language"@.len() != "no_speech_prob"@.len());
    assert("language"@.len() != "id"@.len());
    assert("language"@.len() != "seek"@.len());
    assert("duration"@.len() != "words"@.len());
    assert("duration"@[0] != "segments"@[0]);
    assert("duration"@.len() != "start"@.len());
    assert("duration"@.len() != "end"@.len());
    assert("duration"@.len() != "tokens"@.len());
    assert("duration"@.len() != "temperature"@.len());
    assert("duration"@.len() != "avg_logprob"@.len());
    assert("duration"@.len() != "compression_ratio"@.len());
    assert("duration"@.len() != "no_speech_prob"@.len());
    assert("duration"@.len() != "id"@.len());
    assert("duration"@.len() != "seek"@.len());
    assert("words"@.len() != "segments"@.len());
    assert("words"@[0] != "start"@[0]);
    assert("words"@.len() != "end"@.len());
    assert("words"@.len() != "tokens"@.len());
    assert("words"@.len() != "temperature"@.len());
    assert("words"@.len() != "avg_logprob"@.len());
    assert("words"@.len() != "compression_ratio"@.len());
    assert("words"@.len() != "no_speech_prob"@.len());
    assert("words"@.len() != "id"@.len());
    assert("words"@.len() != "seek"@.len());
    assert("segments"@.len() != "start"@.len());
    assert("segments"@.len() != "end"@.len());
    assert("segments"@.len() != "tokens"@.len());
    assert("segments"@.len() != "temperature"@.len());
    assert("segments"@.len() != "avg_logprob"@.len());
    assert("segments"@.len() != "compression_ratio"@.len());
    assert("segments"@.len() != "no_speech_prob"@.len());
    assert("segments"@.len() != "id"@.len());
    assert("segments"@.len() != "seek"@.len());
    assert("start"@.len() != "end"@.len());
    assert("start"@.len() != "tokens"@.len());
    assert("start"@.len() != "temperature"@.len());
    assert("start"@.len() != "avg_logprob"@.len());
    assert("start"@.len() != "compression_ratio"@.len());
    assert("start"@.len() != "no_speech_prob"@.len());
    assert("start"@.len() != "id"@.len());
    assert("start"@.len() != "seek"@.len());
    assert("end"@.len() != "tokens"@.len());
    assert("end"@.len() != "temperature"@.len());
    assert("end"@.len() != "avg_logprob"@.len());
    assert("end"@.len() != "compression_ratio"@.len());
    assert("end"@.len() != "no_speech_prob"@.len());
    assert("end"@.len() != "id"@.len());
    assert("end"@.len() != "seek"@.len());
    assert("tokens"@.len() != "temperature"@.len());
    assert("tokens"@.len() != "avg_logprob"@.len());
    assert("tokens"@.len() != "compression_ratio"@.len());
    assert("tokens"@.len() != "no_speech_prob"@.len());
    assert("tokens"@.len() != "id"@.len());
    assert("tokens"@.len() != "seek"@.len());
    assert("temperature"@[0] != "avg_logprob"@[0]);
    assert("temperature"@.len() != "compression_ratio"@.len());
    assert("temperature"@.len() != "no_speech_prob"@.len());
    assert("temperature"@.len() != "id"@.len());
    assert("temperature"@.len() != "seek"@.len());
    assert("avg_logprob"@.len() != "compression_ratio"@.len());
    assert("avg_logprob"@.len() != "no_speech_prob"@.len());
    assert("avg_logprob"@.len() != "id"@.len());
    assert("avg_logprob"@.len() != "seek"@.len());
    assert("compression_ratio"@.len() != "no_speech_prob"@.len());
    assert("compression_ratio"@.len() != "id"@.len());
    assert("compression_ratio"@.len() != "seek"@.len());
    assert("no_speech_prob"@.len() != "id"@.len());
    assert("no_speech_prob"@.len() != "seek"@.len());
    assert("id"@.len() != "seek"@.len());
    assert("text"@ != "task"@) by { assert("text"@[1] != "task"@[1]); }
    assert("text"@ != "language"@) by { assert("text"@.len() != "language"@.len()); }
    assert("text"@ != "duration"@) by { assert("text"@.len() != "duration"@.len()); }
    assert("text"@ != "words"@) by { assert("text"@.len() != "words"@.len()); }
    assert("text"@ != "segments"@) by { assert("text"@.len() != "segments"@.len()); }
    assert("text"@ != "start"@) by { assert("text"@.len() != "start"@.len()); }
    assert("text"@ != "end"@) by { assert("text"@.len() != "end"@.len()); }
    assert("text"@ != "tokens"@) by { assert("text"@.len() != "tokens"@.len()); }
    assert("text"@ != "temperature"@) by { assert("text"@.len() != "temperature"@.len()); }
    assert("text"@ != "avg_logprob"@) by { assert("text"@.len() != "avg_logprob"@.len()); }
    assert("text"@ != "compression_ratio"@) by { assert("text"@.len() != "compression_ratio"@.len()); }
    assert("text"@ != "no_speech_prob"@) by { assert("text"@.len() != "no_speech_prob"@.len()); }
    assert("text"@ != "id"@) by { assert("text"@.len() != "id"@.len()); }
    assert("text"@ != "seek"@) by { assert("text"@[0] != "seek"@[0]); }
    let t = trimmed(transcript);
    let head = "1\n"@ + subtitle_time(0, false) + " --> "@ + subtitle_time(30_000, false) + "\n"@;
    lemma_middle_held(head, t, "\n"@);
    assert(srt(transcript).subrange(0, "1\n"@.len() as int) =~= "1\n"@);
    let top = "WEBVTT\n\n"@ + subtitle_time(0, true) + " --> "@ + subtitle_time(30_000, true)
        + "\n"@;
    lemma_middle_held(top, t, "\n"@);
    assert(vtt(transcript).subrange(0, "WEBVTT\n\n"@.len() as int) =~= "WEBVTT\n\n"@);
    let v = if format == "verbose_json"@ {
        verbose_json(transcript, language, words, segments, zero, end)
    } else {
        JsonView::Object(Map::empty().insert("text"@, JsonView::Text(transcript)))
    };
    assert(entry(v, "text"@) == Some(JsonView::Text(transcript)));
    if format != "text"@ && format != "srt"@ && format != "vtt"@ {
        assert(transcription_reply(
            format,
            transcript,
            language,
            words,
            segments,
            zero,
            end,
            request_id,
        ).body == compact_json(v));
    }
}

/// What is asked for a recording: its bytes, of their own type where it has one; the language
/// and the context that are given, in the words of the form; and the model and the format that
/// are asked for.
pub proof fn a_transcription_says_what_is_asked(p: TranscriptionPlan, form: FormView)
    requires
        is_transcription_plan(p, form),
    ensures
        form.file matches Some(f) && p.audio@ == base64_text(f.data) && (f.content_type matches
            Some(t) ==> p.media_type@ == t),
        first_value(form.fields, "language"@) matches Some(l) ==> trimmed(l).len() > 0
            ==> p.language@ == l && holds(p.instruction@, l),
        first_value(form.fields, "prompt"@) matches Some(c) ==> trimmed(c).len() > 0 ==> ends(
            p.instruction@,
            c,
        ),
        first_value(form.fields, "model"@) matches Some(m) ==> p.requested_model@ == m,
        first_value(form.fields, "response_format"@) matches Some(m) ==> p.response_format@ == m,
        first_value(form.fields, "response_format"@) is None ==> p.response_format@ == "json"@,
        starts(p.instruction@, "Transcribe the provided audio verbatim."@),
{
    reveal_strlit("Transcribe the provided audio verbatim. Return only the transcription.");
    reveal_strlit("Transcribe the provided audio verbatim.");
    let told = "Transcribe the provided audio verbatim. Return only the transcription."@;
    let all = p.instruction@;
    let opening = "Transcribe the provided audio verbatim."@;
    assert(told.subrange(0, opening.len() as int) =~= opening);
    assert(all.subrange(0, told.len() as int) =~= told);
    assert(all.subrange(0, opening.len() as int) =~= told.subrange(0, opening.len() as int));
    match filled(form, "language"@) {
        Some(l) => {
            let head = told + " The expected language is '"@;
            match filled(form, "prompt"@) {
                Some(c) => {
                    let tail = "'."@ + " Additional context: "@ + c;
                    assert(all =~= head + l + tail);
                    lemma_middle_held(head, l, tail);
                },
                None => {
                    assert(all =~= head + l + "'."@);
                    lemma_middle_held(head, l, "'."@);
                },
            }
        },
        None => {},
    }
    match filled(form, "prompt"@) {
        Some(c) => {
            assert(all.subrange(all.len() - c.len(), all.len() as int) =~= c);
        },
        None => {},
    }
}

/// A form that says nothing of timestamps gets those of segments; one that does gets those it
/// names, in any case, under either name of the field.
pub proof fn timestamps_are_as_asked(p: TranscriptionPlan, form: FormView, i: int)
    requires
        is_transcription_plan(p, form),
    ensures
        values_of(form.fields, "timestamp_granularities[]"@).len() == 0 && values_of(
            form.fields,
            "timestamp_granularities"@,
        ).len() == 0 ==> !p.include_word_timestamps && p.include_segment_timestamps,
        ({
            let a = values_of(form.fields, "timestamp_granularities[]"@);
            0 <= i < a.len() ==> (ascii_lower(a[i]) == ascii_lower("word"@)
                ==> p.include_word_timestamps) && (ascii_lower(a[i]) == ascii_lower("segment"@)
                ==> p.include_segment_timestamps)
        }),
        ({
            let b = values_of(form.fields, "timestamp_granularities"@);
            0 <= i < b.len() ==> (ascii_lower(b[i]) == ascii_lower("word"@)
                ==> p.include_word_timestamps) && (ascii_lower(b[i]) == ascii_lower("segment"@)
                ==> p.include_segment_timestamps)
        }),
        p.include_word_timestamps ==> exists|k: int|
            0 <= k < granularities(form.fields).len() && ascii_lower(
                #[trigger] granularities(form.fields)[k],
            ) == ascii_lower("word"@),
{
    let a = values_of(form.fields, "timestamp_granularities[]"@);
    let b = values_of(form.fields, "timestamp_granularities"@);
    let g = granularities(form.fields);
    if 0 <= i < a.len() {
        assert(g[i] == a[i]);
    }
    if 0 <= i < b.len() {
        assert(g[a.len() + i] == b[i]);
    }
}

/// What the model says is all of its text and nothing else, in order.
pub proof fn all_text_is_taken(a: Seq<ContentBlock>, b: Seq<ContentBlock>, x: ContentBlock)
    ensures
        text_content(a + b) == text_content(a) + text_content(b),
        text_content(seq![x]) == (match x {
            ContentBlock::Text { text } => text@,
            _ => Seq::empty(),
        }),
    decreases b.len(),
{
    let none = seq![x].drop_last();
    assert(none.len() == 0);
    assert(text_content(none) =~= Seq::empty());
    assert(seq![x].last() == x);
    assert(text_content(seq![x]) =~= (match x {
        ContentBlock::Text { text } => text@,
        _ => Seq::empty(),
    }));
    if b.len() == 0 {
        assert(a + b =~= a);
    } else {
        assert((a + b).drop_last() =~= a + b.drop_last());
        all_text_is_taken(a, b.drop_last(), x);
    }
    assert(text_content(a + b) =~= text_content(a) + text_content(b));
}

/// A recording is transcribed exactly where there is one that is not empty and the format is
/// one of the five.
pub proof fn recordings_in_order_have_no_fault(form: FormView)
    ensures
        transcription_fault(form) is None <==> (form.file matches Some(f) && f.data.len() > 0) && ({
            let t = first_value(form.fields, "response_format"@);
            t is None || t == Some("json"@) || t == Some("text"@) || t == Some("verbose_json"@)
                || t == Some("srt"@) || t == Some("vtt"@)
        }),
{
}

/// The time of a subtitle is told in hours, minutes, seconds and milliseconds.
pub proof fn subtitle_times_are_told(
    hours: nat,
    minutes: nat,
    seconds: nat,
    ms: nat,
    webvtt: bool,
)
    requires
        minutes < 60,
        seconds < 60,
        ms < 1000,
    ensures
        subtitle_time(hours * 3_600_000 + minutes * 60_000 + seconds * 1000 + ms, webvtt)
            == two_digits(hours) + seq![':'] + two_digits(minutes) + seq![':'] + two_digits(seconds)
            + seq![
            if webvtt {
                '.'
            } else {
                ','
            },
        ] + three_digits(ms),
        three_digits(ms).len() >= 3,
{
    reveal_strlit(":");
    reveal_strlit(".");
    reveal_strlit(",");
    reveal_strlit("0");
    let t = hours * 3_600_000 + minutes * 60_000 + seconds * 1000 + ms;
    assert(t / 3_600_000 == hours);
    assert(t / 60_000 == hours * 60 + minutes);
    assert((hours * 60 + minutes) % 60 == minutes);
    assert(t / 1000 == (hours * 60 + minutes) * 60 + seconds);
    assert(((hours * 60 + minutes) * 60 + seconds) % 60 == seconds);
    assert(t % 1000 == ms);
    assert(":"@ =~= seq![':']);
    assert("."@ =~= seq!['.']);
    assert(","@ =~= seq![',']);
    if ms >= 100 {
        assert(decimal(ms / 10 / 10).len() >= 1);
        assert(decimal(ms / 10).len() == decimal(ms / 10 / 10).len() + 1);
        assert(decimal(ms).len() == decimal(ms / 10).len() + 1);
    } else if ms >= 10 {
        assert(decimal(ms / 10).len() >= 1);
        assert(decimal(ms).len() == decimal(ms / 10).len() + 1);
    } else {
        assert(decimal(ms).len() >= 1);
    }
}

} // verus!
