use screeny_core::llm::pull::{pull_line, LineBuffer, PullLine};
use screeny_core::llm::{ollama_request, openai_request, ANALYZE_MAX_TOKENS};
use screeny_core::llm::{
    completion_analysis, image_base64, image_data_uri, ollama_analysis, ollama_error,
    usable_api_key, ChoiceMessage, EMPTY_ANSWER,
};
use screeny_core::{backend_from_config, CoreError, LlmBackendChoice, LlmBackendKind, LlmConfig};

fn choice(content: Option<&str>, reasoning: Option<&str>) -> Option<ChoiceMessage> {
    Some(ChoiceMessage {
        content: content.map(|s| s.to_string()),
        reasoning_content: reasoning.map(|s| s.to_string()),
    })
}

#[test]
fn analyze_parses_json_content() {
    let analysis = ollama_analysis(
        "moondream",
        "{\"ocr\": \"fn main()\", \"description\": \"Rust code in an editor.\"}",
        12,
    );
    assert_eq!(analysis.ocr_text, "fn main()");
    assert_eq!(analysis.description, "Rust code in an editor.");
    assert_eq!(analysis.model, "moondream");
    assert_eq!(analysis.latency_ms, 12);
}

#[test]
fn analyze_surfaces_http_errors() {
    let err = ollama_error("HTTP status server error (500 Internal Server Error)").message();
    assert!(err.contains("ollama"), "got: {err}");
    assert_eq!(
        err,
        "llm error: ollama: HTTP status server error (500 Internal Server Error)"
    );
}

#[test]
fn analyze_sends_bearer_token_and_parses_choice() {
    let key = usable_api_key(Ok(Some("sk-test".into()))).unwrap();
    assert_eq!(key.as_deref(), Some("sk-test"));
    let analysis = completion_analysis(
        "gpt-test",
        choice(Some("{\"ocr\": \"TOTAL 42\", \"description\": \"A spreadsheet.\"}"), None),
        3,
    )
    .unwrap();
    assert_eq!(analysis.ocr_text, "TOTAL 42");
    assert_eq!(analysis.description, "A spreadsheet.");
}

#[test]
fn falls_back_to_reasoning_content_when_content_empty() {
    let analysis = completion_analysis(
        "gemma-vl",
        choice(
            Some(""),
            Some("Looking at the image... {\"ocr\": \"btn OK\", \"description\": \"A dialog.\"}"),
        ),
        1,
    )
    .unwrap();
    assert_eq!(analysis.ocr_text, "btn OK");
    assert_eq!(analysis.description, "A dialog.");
}

#[test]
fn empty_answer_is_an_error_not_blank_analysis() {
    let err = completion_analysis("m", choice(Some(""), None), 1).unwrap_err().message();
    assert!(err.contains("empty answer"), "got: {err}");
    assert_eq!(err, format!("llm error: openai-compatible: {EMPTY_ANSWER}"));
    assert!(completion_analysis("m", None, 1).is_err());
}

#[test]
fn blank_api_key_is_not_sent() {
    assert_eq!(usable_api_key(Ok(Some("  ".into()))).unwrap(), None);
    assert_eq!(usable_api_key(Ok(None)).unwrap(), None);
    assert!(usable_api_key(Err(CoreError::Secret("x".into()))).is_err());
}

#[test]
fn backend_choice_follows_configured_kind() {
    let mut config = LlmConfig::default();
    config.base_url = "http://h:1".into();
    match backend_from_config(&config) {
        LlmBackendChoice::Ollama { base_url } => assert_eq!(base_url, "http://h:1"),
        _ => panic!("expected ollama"),
    }
    config.backend = LlmBackendKind::Lmstudio;
    match backend_from_config(&config) {
        LlmBackendChoice::OpenAiCompat { uses_api_key, .. } => assert!(!uses_api_key),
        _ => panic!("expected openai-compatible"),
    }
    config.backend = LlmBackendKind::Custom;
    match backend_from_config(&config) {
        LlmBackendChoice::OpenAiCompat { uses_api_key, .. } => assert!(uses_api_key),
        _ => panic!("expected openai-compatible"),
    }
}

#[test]
fn images_are_base64_encoded() {
    assert_eq!(image_base64(&[1, 2, 3]), "AQID");
    assert_eq!(image_base64(b"ab"), "YWI=");
    assert_eq!(image_data_uri(b"a"), "data:image/jpeg;base64,YQ==");
    assert_eq!(image_base64(&[0xfb, 0xff, 0x00]), "+/8A");
    assert_eq!(image_base64(b""), "");
}

#[test]
fn line_buffer_keeps_partial_lines() {
    let mut buf = LineBuffer::new();
    let lines = buf.push_chunk(b"{\"status\":\"pull");
    assert!(lines.is_empty());
    let lines = buf.push_chunk(b"ing\"}\n\n{\"sta");
    assert_eq!(lines, vec![b"{\"status\":\"pulling\"}\n".to_vec(), b"\n".to_vec()]);
    let lines = buf.push_chunk(b"tus\":\"done\"}\n");
    assert_eq!(lines, vec![b"{\"status\":\"done\"}\n".to_vec()]);
}

#[test]
fn pull_lines_are_sorted() {
    assert!(matches!(pull_line(b"  \n"), PullLine::Blank));
    match pull_line(b"{\"error\":\"model not found\"}\n") {
        PullLine::Failed(e) => assert_eq!(e.message(), "llm error: ollama: model not found"),
        _ => panic!("expected an error"),
    }
    match pull_line(b" {\"status\":\"success\"} \n") {
        PullLine::Record(s) => assert_eq!(s, "{\"status\":\"success\"}"),
        _ => panic!("expected a record"),
    }
    match pull_line(b"{\"error\": 3}\n") {
        PullLine::Record(s) => assert_eq!(s, "{\"error\": 3}"),
        _ => panic!("expected a record"),
    }
}

#[test]
fn endpoints_join_base_and_path() {
    assert_eq!(
        screeny_core::llm::endpoint_url("http://localhost:11434", "/api/chat"),
        "http://localhost:11434/api/chat"
    );
}

#[test]
fn analysis_requests_carry_the_fixed_parameters() {
    let o = ollama_request("moondream", "p", b"ab");
    assert_eq!(o.model, "moondream");
    assert_eq!(o.prompt, "p");
    assert_eq!(o.image, "YWI=");
    assert_eq!(o.temperature, 0);
    assert_eq!(o.max_tokens, None);
    assert_eq!(o.stream, Some(false));
    let c = openai_request("gpt-test", "p", b"a");
    assert_eq!(c.image, "data:image/jpeg;base64,YQ==");
    assert_eq!(c.max_tokens, Some(ANALYZE_MAX_TOKENS));
    assert_eq!(ANALYZE_MAX_TOKENS, 2000);
    assert_eq!(c.stream, None);
}
