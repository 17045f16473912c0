use screeny_core::llm::prompts::{
    outer_braces, parse_response, strip_fences, strip_think_blocks, DEFAULT_PROMPT,
};

#[test]
fn parses_clean_json() {
    let (ocr, desc) = parse_response(r#"{"ocr": "hello world", "description": "A terminal."}"#);
    assert_eq!(ocr, "hello world");
    assert_eq!(desc, "A terminal.");
}

#[test]
fn parses_fenced_json() {
    let raw = "```json\n{\"ocr\": \"text\", \"description\": \"An editor.\"}\n```";
    let (ocr, desc) = parse_response(raw);
    assert_eq!(ocr, "text");
    assert_eq!(desc, "An editor.");
}

#[test]
fn parses_json_embedded_in_prose() {
    let raw = "Sure! Here is the analysis:\n{\"ocr\": \"abc\", \"description\": \"A browser.\"} Hope that helps.";
    let (ocr, desc) = parse_response(raw);
    assert_eq!(ocr, "abc");
    assert_eq!(desc, "A browser.");
}

#[test]
fn think_blocks_are_stripped_before_parsing() {
    let raw = "<think>The user wants JSON. Let me look at the image…</think>\n{\"ocr\": \"ls -la\", \"description\": \"A terminal.\"}";
    let (ocr, desc) = parse_response(raw);
    assert_eq!(ocr, "ls -la");
    assert_eq!(desc, "A terminal.");

    // Unterminated think block (model ran out of tokens mid-reasoning)
    let (ocr2, desc2) = parse_response("<think>hmm this looks like");
    assert_eq!(ocr2, "");
    assert_eq!(desc2, "");
}

#[test]
fn garbage_falls_back_to_description() {
    let (ocr, desc) = parse_response("The screen shows a code editor with a Rust file open.");
    assert_eq!(ocr, "");
    assert!(desc.contains("code editor"));
}

#[test]
fn plain_fence_without_language_is_unwrapped() {
    let raw = "```\n{\"ocr\": \"x\", \"description\": \"\"}\n```";
    let (ocr, desc) = parse_response(raw);
    assert_eq!(ocr, "x");
    assert_eq!(desc, "");
}

#[test]
fn json_with_only_empty_fields_falls_back_to_text() {
    let raw = "  {\"ocr\": \"\", \"description\": \"\"}  ";
    let (ocr, desc) = parse_response(raw);
    assert_eq!(ocr, "");
    assert_eq!(desc, "{\"ocr\": \"\", \"description\": \"\"}");
}

#[test]
fn text_between_think_blocks_is_kept() {
    let (ocr, desc) = parse_response("a<think>x</think>b<think>y</think> c ");
    assert_eq!(ocr, "");
    assert_eq!(desc, "ab c");
}

#[test]
fn non_string_members_count_as_empty() {
    let (ocr, desc) = parse_response("{\"ocr\": 5, \"description\": \"D\"}");
    assert_eq!(ocr, "");
    assert_eq!(desc, "D");
}

#[test]
fn default_prompt_asks_for_json() {
    assert!(DEFAULT_PROMPT.contains("JSON"));
    assert!(DEFAULT_PROMPT.contains("\"ocr\""));
}

#[test]
fn think_blocks_are_removed_in_place() {
    assert_eq!(strip_think_blocks("a<think>x</think>b<think>y</think>c"), "abc");
    assert_eq!(strip_think_blocks("keep<think>dropped"), "keep");
    assert_eq!(strip_think_blocks("no blocks"), "no blocks");
}

#[test]
fn fences_are_stripped_only_when_closed() {
    assert_eq!(strip_fences("  ```json\n{}\n```  "), "{}");
    assert_eq!(strip_fences("```\n x \n```"), "x");
    assert_eq!(strip_fences(" ```json {} "), "```json {}");
    assert_eq!(strip_fences(" plain "), "plain");
}

#[test]
fn outer_braces_spans_first_open_to_last_close() {
    assert_eq!(outer_braces("say {\"a\": {}} ok").as_deref(), Some("{\"a\": {}}"));
    assert_eq!(outer_braces("} {"), None);
    assert_eq!(outer_braces("none"), None);
}

#[test]
fn unparsable_json_with_braces_falls_back() {
    let (ocr, desc) = parse_response("  {not json}  ");
    assert_eq!(ocr, "");
    assert_eq!(desc, "{not json}");
    let (ocr, desc) = parse_response("{\"ocr\": \"\", \"description\": \"\"}");
    assert_eq!(ocr, "");
    assert_eq!(desc, "{\"ocr\": \"\", \"description\": \"\"}");
    let (ocr, desc) = parse_response("{\"ocr\": 5, \"description\": \"d\"}");
    assert_eq!(ocr, "");
    assert_eq!(desc, "d");
}
