use agcp::audio::{
    answer_transcription, build_transcription_response, extract_text_content,
    parse_timestamp_granularities, plan_transcription, subtitle_timestamp, to_srt, to_vtt,
    SegmentNumbers,
};
use agcp::errors::{ApiError, ProxyError};
use agcp::images::{
    build_mock_image_response, check_json_content_type, collect_candidate_image_files,
    extract_image_items_from_google_response, image_file_to_google_part, images_reply,
    invalid_json_reply, multipart_boundary, multipart_first_file, plan_images_edit,
    plan_images_generation, select_primary_image, validate_openai_image_params, GoogleCandidate,
    GooglePart, ImagesGenerationsRequest,
};
use agcp::json::{json_text, parse_json};
use agcp::messages::{ContentBlock, MessageContent};
use agcp::multipart::{
    find_bytes, multipart_field_values, multipart_first_field, parse_disposition_param,
    parse_multipart_boundary, parse_multipart_form_data, MultipartFilePart, MultipartFormData,
};
use agcp::reply::Reply;
use agcp::routes::ImageEditMode;

fn field(boundary: &str, name: &str, value: &str) -> String {
    format!(
        "--{boundary}\r\nContent-Disposition: form-data; name=\"{name}\"\r\n\r\n{value}\r\n"
    )
}

fn file(boundary: &str, name: &str, filename: &str, kind: &str, data: &str) -> String {
    format!(
        "--{boundary}\r\nContent-Disposition: form-data; name=\"{name}\"; filename=\"{filename}\"\r\nContent-Type: {kind}\r\n\r\n{data}\r\n"
    )
}

fn form(parts: &[String], boundary: &str) -> MultipartFormData {
    let mut text = String::new();
    for p in parts {
        text.push_str(p);
    }
    text.push_str(&format!("--{boundary}--\r\n"));
    parse_multipart_form_data(text.as_bytes(), boundary).unwrap()
}

fn message(reply: &Reply) -> String {
    let v: serde_json::Value = serde_json::from_str(&reply.body).unwrap();
    v["error"]["message"].as_str().unwrap().to_string()
}

#[test]
fn forms_are_taken_apart() {
    let b = "xyz";
    let form = form(
        &[
            field(b, "model", " gemini-3-flash "),
            field(b, "tag", "one"),
            field(b, "tag", "two"),
            file(b, "file", "a.wav", "audio/wav", "RIFF\r\nDATA"),
            file(b, "image", "b.png", "image/png", "IMG"),
        ],
        b,
    );
    assert_eq!(multipart_first_field(&form.fields, "model").as_deref(), Some("gemini-3-flash"));
    assert_eq!(multipart_field_values(&form.fields, "tag"), vec!["one", "two"]);
    assert_eq!(multipart_first_field(&form.fields, "none"), None);
    let first = form.file.as_ref().unwrap();
    assert_eq!(first.data, b"RIFF\r\nDATA");
    assert_eq!(first.content_type.as_deref(), Some("audio/wav"));
    assert_eq!(form.files.len(), 2);
    assert_eq!(multipart_first_file(&form, "image"), Some(1));
    assert_eq!(multipart_first_file(&form, "mask"), None);
}

#[test]
fn broken_forms_are_refused() {
    let error = parse_multipart_form_data(b"--xyz\r\nContent-Disposition: x", "xyz").unwrap_err();
    assert_eq!(
        error,
        ProxyError::Api(ApiError::InvalidRequest {
            message: "Malformed multipart payload".to_string(),
        })
    );
    assert!(parse_multipart_form_data(b"--xyz\r\nA: b\r\n\r\nno end", "xyz").is_err());
    let empty = parse_multipart_form_data(b"", "xyz").unwrap();
    assert!(empty.fields.is_empty() && empty.files.is_empty() && empty.file.is_none());
}

#[test]
fn bytes_are_found() {
    assert_eq!(find_bytes(b"abcabc", b"ca", 0), Some(2));
    assert_eq!(find_bytes(b"abcabc", b"abc", 1), Some(3));
    assert_eq!(find_bytes(b"abc", b"abcd", 0), None);
}

#[test]
fn header_parameters_are_read() {
    assert_eq!(
        parse_multipart_boundary("multipart/form-data; boundary=\"a b\"").as_deref(),
        Some("a b")
    );
    assert_eq!(parse_multipart_boundary("multipart/form-data"), None);
    let d = "Content-Disposition: form-data; name=\"n\"; filename=\"f.png\"";
    assert_eq!(parse_disposition_param(d, "name").as_deref(), Some("n"));
    assert_eq!(parse_disposition_param(d, "filename").as_deref(), Some("f.png"));
    assert_eq!(parse_disposition_param(d, "other"), None);
    assert_eq!(multipart_boundary("multipart/form-data; boundary=q").unwrap(), "q");
    assert_eq!(multipart_boundary("application/json").unwrap_err().status, 400);
}

fn image_request(prompt: Option<&str>) -> ImagesGenerationsRequest {
    ImagesGenerationsRequest {
        prompt: prompt.map(|p| p.to_string()),
        model: None,
        n: Some(2),
        response_format: Some("b64_json".to_string()),
        size: None,
        quality: None,
        style: None,
        user: None,
    }
}

#[test]
fn images_need_a_prompt() {
    assert_eq!(plan_images_generation(&image_request(None)).unwrap_err().status, 400);
    assert_eq!(plan_images_generation(&image_request(Some("  "))).unwrap_err().status, 400);
    let plan = plan_images_generation(&image_request(Some("A watercolor fox in a city"))).unwrap();
    assert_eq!(plan.candidate_count, 2);
    assert_eq!(plan.response_format, "b64_json");
    assert!(matches!(&plan.parts[0], GooglePart::Text { text } if text.contains("watercolor fox")));
}

#[test]
fn image_parameters_are_checked() {
    let some = |s: &str| Some(s.to_string());
    assert!(validate_openai_image_params("url", 1, &None, &None, &None).is_none());
    let all = validate_openai_image_params(
        "b64_json",
        10,
        &some("1024x1536"),
        &some("hd"),
        &some("vivid"),
    );
    assert!(all.is_none());
    let cases = [
        (
            validate_openai_image_params("png", 1, &None, &None, &None),
            "Unsupported response_format (supported: b64_json, url)",
        ),
        (validate_openai_image_params("url", 0, &None, &None, &None), "n must be between 1 and 10"),
        (validate_openai_image_params("url", 11, &None, &None, &None), "n must be between 1 and 10"),
        (
            validate_openai_image_params("url", 1, &some("1x1"), &None, &None),
            "Unsupported size (supported: 256x256, 512x512, 1024x1024, 1024x1536, 1536x1024, auto)",
        ),
        (
            validate_openai_image_params("url", 1, &None, &some("best"), &None),
            "Unsupported quality (supported: low, medium, high, standard, hd, auto)",
        ),
        (
            validate_openai_image_params("url", 1, &None, &None, &some("odd")),
            "Unsupported style (supported: vivid, natural)",
        ),
    ];
    for (reply, want) in cases {
        let reply = reply.unwrap();
        assert_eq!(reply.status, 400);
        assert_eq!(message(&reply), want);
    }
}

#[test]
fn edits_need_an_image() {
    let b = "---------------------------agcp-test-boundary-edit-missing";
    let without = form(
        &[field(b, "prompt", "make it brighter"), file(b, "mask", "mask.png", "image/png", "MASKDATA")],
        b,
    );
    assert_eq!(plan_images_edit(&without, ImageEditMode::Edits).unwrap_err().status, 400);
    let with = form(
        &[
            field(b, "prompt", "make it brighter"),
            field(b, "response_format", "b64_json"),
            file(b, "image", "input.png", "image/png", "IMAGEBYTES"),
        ],
        b,
    );
    let plan = plan_images_edit(&with, ImageEditMode::Edits).unwrap();
    assert_eq!(plan.response_format, "b64_json");
    assert!(plan.parts.iter().any(|p| matches!(
        p,
        GooglePart::InlineData { mime_type, data } if mime_type == "image/png" && data == "SU1BR0VCWVRFUw=="
    )));
    let variation = form(
        &[field(b, "response_format", "url"), file(b, "image", "i.png", "image/png", "IMAGEBYTES")],
        b,
    );
    assert!(plan_images_edit(&variation, ImageEditMode::Variations).is_ok());
}

#[test]
fn the_image_is_the_first_that_is_one() {
    let b = "q";
    let named = form(
        &[file(b, "image_b", "b", "image/png", "B"), file(b, "image_a", "a", "image/png", "A")],
        b,
    );
    assert_eq!(select_primary_image(&named), Some(1));
    assert_eq!(collect_candidate_image_files(&named), vec![1, 0]);
    let mask = form(&[file(b, "mask", "m", "image/png", "M")], b);
    assert_eq!(select_primary_image(&mask), None);
    assert!(collect_candidate_image_files(&mask).is_empty());
}

#[test]
fn files_become_inline_data() {
    let part = |kind: Option<&str>| {
        image_file_to_google_part(
            &MultipartFilePart {
                content_type: kind.map(|k| k.to_string()),
                data: vec![255, 0, 1],
            },
            "image/png",
        )
    };
    let want = |mime: &str| GooglePart::InlineData {
        mime_type: mime.to_string(),
        data: "/wAB".to_string(),
    };
    assert_eq!(part(Some("image/webp")), want("image/webp"));
    assert_eq!(part(Some("text/plain")), want("image/png"));
    assert_eq!(part(None), want("image/png"));
}

fn candidate(parts: Vec<GooglePart>) -> Option<Vec<GoogleCandidate>> {
    Some(vec![GoogleCandidate { parts: Some(parts) }])
}

#[test]
fn images_are_taken_from_a_reply() {
    let image = GooglePart::InlineData { mime_type: "image/png".to_string(), data: "QQ==".to_string() };
    let note = GooglePart::Text { text: " nicer ".to_string() };
    let (items, revised) =
        extract_image_items_from_google_response(&candidate(vec![image.clone(), note.clone()]), "url")
            .unwrap();
    assert_eq!(revised.as_deref(), Some("nicer"));
    assert_eq!(items.len(), 1);
    assert_eq!(items[0].get("url").unwrap().as_str(), Some("data:image/png;base64,QQ=="));
    assert_eq!(items[0].get("revised_prompt").unwrap().as_str(), Some("nicer"));
    let (items, revised) =
        extract_image_items_from_google_response(&candidate(vec![image]), "b64_json").unwrap();
    assert_eq!(revised, None);
    assert_eq!(items[0].get("b64_json").unwrap().as_str(), Some("QQ=="));
    assert_eq!(
        extract_image_items_from_google_response(&candidate(vec![note]), "url").unwrap_err(),
        "Upstream model returned text instead of image data"
    );
    assert_eq!(
        extract_image_items_from_google_response(&None, "url").unwrap_err(),
        "Upstream model did not return any image data"
    );
    assert_ne!(images_reply(&None, "url", 5, "r").status, 200);
}

#[test]
fn made_up_images_are_numbered() {
    let reply = build_mock_image_response("b64_json", 2, " a fox ", 77);
    let v: serde_json::Value = serde_json::from_str(&json_text(&reply)).unwrap();
    assert_eq!(v["created"], 77);
    assert_eq!(v["data"][0]["b64_json"], "MOCK_IMAGE_DATA_1");
    assert_eq!(v["data"][1]["b64_json"], "MOCK_IMAGE_DATA_2");
    assert_eq!(v["data"][1]["revised_prompt"], "mock revised prompt for: a fox");
    let reply = build_mock_image_response("url", 1, "x", 77);
    let v: serde_json::Value = serde_json::from_str(&json_text(&reply)).unwrap();
    assert_eq!(v["data"][0]["url"], "data:image/png;base64,MOCK_IMAGE_DATA_1");
}

#[test]
fn image_requests_are_json() {
    assert!(check_json_content_type("application/json").is_none());
    assert_eq!(check_json_content_type("text/plain").unwrap().status, 400);
    assert!(invalid_json_reply("eof").body.contains("eof"));
}

#[test]
fn moments_of_subtitles() {
    assert_eq!(subtitle_timestamp(0, false), "00:00:00,000");
    assert_eq!(subtitle_timestamp(3_723_045, false), "01:02:03,045");
    assert_eq!(subtitle_timestamp(3_723_045, true), "01:02:03.045");
    assert!(to_srt("hello").contains("hello"));
    assert!(to_vtt("hello").starts_with("WEBVTT"));
}

fn numbers() -> SegmentNumbers {
    SegmentNumbers { zero: parse_json("0.0").unwrap(), end: parse_json("30.0").unwrap() }
}

#[test]
fn transcripts_in_each_format() {
    let reply = |format: &str, words: bool, segments: bool| {
        build_transcription_response(format, "hi there", "en", words, segments, &numbers(), "r")
    };
    assert_eq!(reply("text", false, true).body, "hi there");
    assert!(reply("srt", false, true).body.contains("00:00:00,000 --> "));
    assert!(reply("vtt", false, true).body.contains("00:00:00.000 --> "));
    assert_eq!(reply("json", false, true).body, "{\"text\":\"hi there\"}");
    let verbose: serde_json::Value =
        serde_json::from_str(&reply("verbose_json", true, true).body).unwrap();
    assert_eq!(verbose["task"], "transcribe");
    assert_eq!(verbose["language"], "en");
    assert!(verbose["duration"].is_null());
    assert_eq!(verbose["segments"][0]["end"], 30.0);
    assert!(verbose["words"].as_array().unwrap().is_empty());
    let bare: serde_json::Value =
        serde_json::from_str(&reply("verbose_json", false, false).body).unwrap();
    assert!(bare.get("words").is_none() && bare.get("segments").is_none());
}

#[test]
fn segments_are_timed_unless_words_are_asked_for() {
    let fields = |v: &[&str]| -> Vec<(String, String)> {
        v.iter().map(|x| ("timestamp_granularities[]".to_string(), x.to_string())).collect()
    };
    assert_eq!(parse_timestamp_granularities(&fields(&[])), (false, true));
    assert_eq!(parse_timestamp_granularities(&fields(&["Word"])), (true, false));
    assert_eq!(parse_timestamp_granularities(&fields(&["word", "SEGMENT"])), (true, true));
}

#[test]
fn a_recording_is_sent_and_its_text_answered() {
    let b = "agcp-test-boundary";
    let form = form(
        &[
            field(b, "model", "gemini-3-flash"),
            field(b, "response_format", "json"),
            field(b, "language", "en"),
            file(b, "file", "sample.wav", "audio/wav", "RIFFMOCKAUDIO"),
        ],
        b,
    );
    let plan = plan_transcription(&form).unwrap();
    assert_eq!(plan.requested_model, "gemini-3-flash");
    assert_eq!(plan.media_type, "audio/wav");
    assert_eq!(plan.audio, "UklGRk1PQ0tBVURJTw==");
    assert!(matches!(plan.message().content, MessageContent::Blocks(_)));
    let content = vec![
        ContentBlock::Text { text: "mock ".to_string() },
        ContentBlock::Thinking { thinking: "hm".to_string() },
        ContentBlock::Text { text: "transcription".to_string() },
    ];
    assert_eq!(extract_text_content(&content), "mock transcription");
    let reply = answer_transcription(&plan, &content, &numbers(), "r");
    assert_eq!(reply.status, 200);
    assert_eq!(reply.body, "{\"text\":\"mock transcription\"}");
}

#[test]
fn a_recording_is_needed() {
    let b = "z";
    let form = form(&[field(b, "model", "gemini-3-flash")], b);
    assert_eq!(plan_transcription(&form).unwrap_err().status, 400);
}

#[test]
fn files_are_sent_as_base64() {
    for (data, text) in [
        (&b""[..], ""),
        (&b"f"[..], "Zg=="),
        (&b"fo"[..], "Zm8="),
        (&b"foo"[..], "Zm9v"),
        (&[251u8, 255, 190, 0][..], "+/++AA=="),
    ] {
        let part = MultipartFilePart { content_type: None, data: data.to_vec() };
        match image_file_to_google_part(&part, "image/png") {
            GooglePart::InlineData { data, .. } => assert_eq!(data, text),
            other => panic!("{other:?}"),
        }
    }
}

#[test]
fn a_written_form_comes_back() {
    let parts = vec![
        field("b", "prompt", "a cat"),
        file("b", "image", "c.png", "image/png", "\r\n--x\r\n"),
        field("b", "n", "2"),
    ];
    let f = form(&parts, "b");
    assert_eq!(
        f.fields,
        vec![
            ("prompt".to_string(), "a cat".to_string()),
            ("n".to_string(), "2".to_string())
        ]
    );
    assert_eq!(f.files.len(), 1);
    assert_eq!(f.files[0].1.data, b"\r\n--x\r\n".to_vec());
}

#[test]
fn a_form_is_read_back_as_it_was_sent() {
    let b = "----part7";
    let sent = [
        field(b, "prompt", "a cat\r\nand a dog"),
        file(b, "image", "one.png", "image/png", "\r\n--x"),
        field(b, "prompt", ""),
        file(b, "mask", "two.png", "image/png", ""),
    ];
    for end in ["", "\r\n"] {
        let text = format!("{}--{b}--{end}", sent.concat());
        let got = parse_multipart_form_data(text.as_bytes(), b).unwrap();
        let fields: Vec<(&str, &str)> =
            got.fields.iter().map(|(n, v)| (n.as_str(), v.as_str())).collect();
        assert_eq!(fields, vec![("prompt", "a cat\r\nand a dog"), ("prompt", "")]);
        let image = MultipartFilePart {
            content_type: Some("image/png".to_string()),
            data: b"\r\n--x".to_vec(),
        };
        let mask = MultipartFilePart {
            content_type: Some("image/png".to_string()),
            data: Vec::new(),
        };
        assert_eq!(
            got.files,
            vec![("image".to_string(), image.clone()), ("mask".to_string(), mask)]
        );
        assert_eq!(got.file, Some(image));
    }
}
