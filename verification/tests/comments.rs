use agcp::comments::strip_jsonc_comments;

#[test]
fn test_strip_jsonc_comments() {
    let input = r#"{
  // This is a comment
  "key": "value"
}"#;
    let clean = strip_jsonc_comments(input);
    let parsed: serde_json::Value = serde_json::from_str(&clean).unwrap();
    assert_eq!(parsed["key"], "value");

    let input2 = r#"{ /* block */ "key": "value" }"#;
    let clean2 = strip_jsonc_comments(input2);
    let parsed2: serde_json::Value = serde_json::from_str(&clean2).unwrap();
    assert_eq!(parsed2["key"], "value");

    let input3 = r#"{ "key": "http://example.com" }"#;
    let clean3 = strip_jsonc_comments(input3);
    let parsed3: serde_json::Value = serde_json::from_str(&clean3).unwrap();
    assert_eq!(parsed3["key"], "http://example.com");

    let input4 = r#"// Zed settings
{
  "language_models": {
    "anthropic": {
      "api_url": "http://127.0.0.1:3092"
    }
  }
}"#;
    let clean4 = strip_jsonc_comments(input4);
    let parsed4: serde_json::Value = serde_json::from_str(&clean4).unwrap();
    assert_eq!(parsed4["language_models"]["anthropic"]["api_url"], "http://127.0.0.1:3092");
}

#[test]
fn lines_are_not_lost_with_their_comments() {
    let input = "{ // one\n/* two\nthree */ \"a\": 1 // four\n}\n";
    let clean = strip_jsonc_comments(input);
    assert_eq!(clean.matches('\n').count(), input.matches('\n').count());
    assert!(!clean.contains("one") && !clean.contains("three") && !clean.contains("four"));
}

#[test]
fn text_without_comments_is_left_alone() {
    let input = "{\"a\": \"b / c\", \"d\": 4}";
    assert_eq!(strip_jsonc_comments(input), input);
}

#[test]
fn quoted_quotes_do_not_end_a_string() {
    let input = r#"{"a": "say \"hi\" // not a comment"}"#;
    assert_eq!(strip_jsonc_comments(input), input);
}

fn is_subsequence(part: &str, whole: &str) -> bool {
    let mut rest = whole.chars();
    part.chars().all(|c| rest.any(|d| d == c))
}

#[test]
fn comments_are_only_taken_out_and_only_once() {
    let inputs = [
        "{ // one\n/* two\nthree */ \"a\": 1 // four\n}\n",
        "{ \"a\": \"// kept\", /* gone */ \"b\": 2 }",
        "a / b //",
        "/* never closed",
        "/ /* x */ / y",
        "\"open \\\" // inside",
    ];
    for input in inputs {
        let clean = strip_jsonc_comments(input);
        assert!(is_subsequence(&clean, input), "{input:?} gave {clean:?}");
        assert_eq!(strip_jsonc_comments(&clean), clean, "{input:?} gave {clean:?}");
    }
}
