//! Vision-model backends: which backend a configuration picks, the request
//! payload pieces, how replies become an analysis, and the streamed model
//! download. Privacy-first: local backends (Ollama, LM Studio) are the
//! default; any OpenAI-compatible endpoint is supported for users who opt
//! in. The HTTP calls are the transport's job.

use vstd::prelude::*;

use crate::config::{LlmBackendKind, LlmConfig};
use crate::error::CoreError;
use crate::llm::prompts::{parse_response, parsed_response};
use crate::text::{all_ws, owned, push_str, trim, trim_range};

pub mod prompts;
pub mod pull;

verus! {

/// Result of analyzing one screenshot.
#[derive(Debug, Clone, PartialEq)]
pub struct Analysis {
    pub model: String,
    pub ocr_text: String,
    pub description: String,
    pub latency_ms: u64,
}

/// The backend a configuration asks for. LM Studio speaks the OpenAI API
/// without a key; a custom endpoint uses the key from the keychain.
pub enum LlmBackendChoice {
    Ollama { base_url: String },
    OpenAiCompat { base_url: String, uses_api_key: bool },
}

/// Build the configured backend's description.
pub fn backend_from_config(config: &LlmConfig) -> (r: LlmBackendChoice)
    ensures
        config.backend == LlmBackendKind::Ollama ==> (r matches LlmBackendChoice::Ollama {
            base_url,
        } && base_url@ == config.base_url@),
        config.backend == LlmBackendKind::Lmstudio ==> (r matches LlmBackendChoice::OpenAiCompat {
            base_url,
            uses_api_key,
        } && base_url@ == config.base_url@ && !uses_api_key),
        config.backend == LlmBackendKind::Custom ==> (r matches LlmBackendChoice::OpenAiCompat {
            base_url,
            uses_api_key,
        } && base_url@ == config.base_url@ && uses_api_key),
{
    match config.backend {
        LlmBackendKind::Ollama => LlmBackendChoice::Ollama { base_url: config.base_url.clone() },
        LlmBackendKind::Lmstudio => LlmBackendChoice::OpenAiCompat {
            base_url: config.base_url.clone(),
            uses_api_key: false,
        },
        LlmBackendKind::Custom => LlmBackendChoice::OpenAiCompat {
            base_url: config.base_url.clone(),
            uses_api_key: true,
        },
    }
}

/// The URL of an API path on a backend: the base URL (kept without a
/// trailing slash by the configuration rules) followed by the path.
pub fn endpoint_url(base_url: &str, path: &str) -> (r: String)
    ensures
        r@ == base_url@ + path@,
{
    let mut url = owned(base_url);
    push_str(&mut url, path);
    url
}

/// An error from the Ollama backend.
pub fn ollama_error(message: &str) -> (e: CoreError)
    ensures
        e matches CoreError::Llm(m) && m@ == "ollama: "@ + message@,
{
    let mut m = owned("ollama: ");
    push_str(&mut m, message);
    CoreError::Llm(m)
}

/// An error from an OpenAI-compatible backend.
pub fn openai_error(message: &str) -> (e: CoreError)
    ensures
        e matches CoreError::Llm(m) && m@ == "openai-compatible: "@ + message@,
{
    let mut m = owned("openai-compatible: ");
    push_str(&mut m, message);
    CoreError::Llm(m)
}

/// The analysis of an Ollama chat reply.
pub fn ollama_analysis(model: &str, content: &str, latency_ms: u64) -> (a: Analysis)
    ensures
        a.model@ == model@,
        (a.ocr_text@, a.description@) == parsed_response(content@),
        a.latency_ms == latency_ms,
{
    let (ocr_text, description) = parse_response(content);
    Analysis { model: owned(model), ocr_text, description, latency_ms }
}

/// The message of one chat-completion choice.
pub struct ChoiceMessage {
    pub content: Option<String>,
    /// Reasoning models put their chain of thought here; if they exhaust
    /// max_tokens, `content` stays empty.
    pub reasoning_content: Option<String>,
}

/// The answer text of a choice: its content unless blank, else its
/// reasoning, else nothing.
pub open spec fn best_text_of(m: ChoiceMessage) -> Seq<char> {
    match m.content {
        Some(c) if trim(c@).len() > 0 => c@,
        _ => match m.reasoning_content {
            Some(r) => r@,
            None => Seq::empty(),
        },
    }
}

/// Law: a choice's answer is its content whenever the content holds any
/// non-whitespace character, whatever the reasoning holds; only an absent
/// or blank content falls back to the reasoning (or to nothing).
pub proof fn lemma_answer_prefers_content(m: ChoiceMessage)
    ensures
        m.content is Some && !all_ws(m.content->0@) ==> best_text_of(m) == m.content->0@,
        m.content is None || all_ws(m.content->0@) ==> best_text_of(m) == match m.reasoning_content {
            Some(r) => r@,
            None => Seq::<char>::empty(),
        },
{
    if m.content is Some {
        crate::text::lemma_trim_span(m.content->0@);
    }
}

impl ChoiceMessage {
    pub fn best_text(&self) -> (r: String)
        ensures
            r@ == best_text_of(*self),
    {
        match &self.content {
            Some(content) => {
                if !crate::text::trimmed(content.as_str()).as_str().is_empty() {
                    return content.clone();
                }
            },
            None => {},
        }
        match &self.reasoning_content {
            Some(r) => r.clone(),
            None => String::new(),
        }
    }
}

pub const EMPTY_ANSWER: &'static str = "model returned an empty answer (it may have spent all tokens reasoning, or it is not a vision model)";

/// The analysis of a chat-completion reply, given its first choice: the
/// answer is parsed leniently; an answer with neither text nor description
/// is an error, not a blank analysis.
pub fn completion_analysis(model: &str, first: Option<ChoiceMessage>, latency_ms: u64) -> (r:
    Result<Analysis, CoreError>)
    ensures
        ({
            let text = match first {
                Some(m) => best_text_of(m),
                None => Seq::empty(),
            };
            let (ocr, desc) = parsed_response(text);
            &&& ocr.len() == 0 && desc.len() == 0 ==> (r matches Err(CoreError::Llm(m)) && m@
                == "openai-compatible: "@ + EMPTY_ANSWER@)
            &&& !(ocr.len() == 0 && desc.len() == 0) ==> (r matches Ok(a) && a.model@ == model@
                && a.ocr_text@ == ocr && a.description@ == desc && a.latency_ms == latency_ms)
        }),
{
    let text = match first {
        Some(m) => m.best_text(),
        None => String::new(),
    };
    let (ocr_text, description) = parse_response(text.as_str());
    if ocr_text.as_str().is_empty() && description.as_str().is_empty() {
        return Err(openai_error(EMPTY_ANSWER));
    }
    Ok(Analysis { model: owned(model), ocr_text, description, latency_ms })
}

/// The API key to send: the stored key, unless blank. A failed lookup is
/// passed on.
pub fn usable_api_key(found: Result<Option<String>, CoreError>) -> (r: Result<
    Option<String>,
    CoreError,
>)
    ensures
        found matches Err(e) ==> r == Err::<Option<String>, CoreError>(e),
        found matches Ok(v) ==> (r matches Ok(k) && match v {
            Some(key) if trim(key@).len() > 0 => k == Some(key),
            _ => k is None,
        }),
{
    match found {
        Err(e) => Err(e),
        Ok(None) => Ok(None),
        Ok(Some(key)) => {
            if crate::text::trimmed(key.as_str()).as_str().is_empty() {
                Ok(None)
            } else {
                Ok(Some(key))
            }
        },
    }
}

/// The standard base64 alphabet: `A`-`Z`, `a`-`z`, `0`-`9`, `+`, `/`.
pub open spec fn base64_digit(v: int) -> char {
    if v < 26 {
        (65 + v) as char
    } else if v < 52 {
        (97 + v - 26) as char
    } else if v < 62 {
        (48 + v - 52) as char
    } else if v == 62 {
        '+'
    } else {
        '/'
    }
}

/// Standard base64 with `=` padding (RFC 4648): every three bytes become
/// four digits of six bits each; a last group of one or two bytes becomes
/// two or three digits and is padded to four with `=`.
pub open spec fn base64_standard(bytes: Seq<u8>) -> Seq<char>
    decreases bytes.len(),
{
    if bytes.len() == 0 {
        Seq::empty()
    } else if bytes.len() == 1 {
        let a = bytes[0] as int;
        seq![base64_digit(a / 4), base64_digit((a % 4) * 16), '=', '=']
    } else if bytes.len() == 2 {
        let a = bytes[0] as int;
        let b = bytes[1] as int;
        seq![base64_digit(a / 4), base64_digit((a % 4) * 16 + b / 16), base64_digit((b % 16) * 4), '=']
    } else {
        let a = bytes[0] as int;
        let b = bytes[1] as int;
        let c = bytes[2] as int;
        seq![
            base64_digit(a / 4),
            base64_digit((a % 4) * 16 + b / 16),
            base64_digit((b % 16) * 4 + c / 64),
            base64_digit(c % 64),
        ] + base64_standard(bytes.skip(3))
    }
}

/// Calls `base64::engine::general_purpose::STANDARD.encode`. Claims the
/// result is the standard padded base64 of the input (the engine's
/// documented alphabet and padding) and, as the crate's `encoded_len` shows
/// for padded output, four characters per started group of three bytes.
#[verifier::external_body]
fn base64_encode(bytes: &[u8]) -> (r: String)
    requires
        4 * ((bytes@.len() + 2) / 3) <= usize::MAX,
    ensures
        r@ == base64_standard(bytes@),
        r@.len() == 4 * ((bytes@.len() + 2) / 3),
{
    base64::Engine::encode(&base64::engine::general_purpose::STANDARD, bytes)
}

/// An image as base64, the form Ollama takes it in.
pub fn image_base64(bytes: &[u8]) -> (r: String)
    requires
        4 * ((bytes@.len() + 2) / 3) <= usize::MAX,
    ensures
        r@ == base64_standard(bytes@),
{
    base64_encode(bytes)
}

/// An image as a JPEG data URI, the form OpenAI-compatible APIs take it in.
pub fn image_data_uri(bytes: &[u8]) -> (r: String)
    requires
        4 * ((bytes@.len() + 2) / 3) <= usize::MAX,
    ensures
        r@ == "data:image/jpeg;base64,"@ + base64_standard(bytes@),
{
    let mut uri = owned("data:image/jpeg;base64,");
    let encoded = base64_encode(bytes);
    push_str(&mut uri, encoded.as_str());
    uri
}

/// Tokens an OpenAI-compatible model may spend on an analysis: a generous
/// budget, since reasoning models think before they emit the JSON answer.
pub const ANALYZE_MAX_TOKENS: u32 = 2000;

/// What an analysis request asks of a vision model; the transport lays it
/// out as the API's JSON.
pub struct AnalyzeRequest {
    pub model: String,
    pub prompt: String,
    /// The screenshot as the API takes it.
    pub image: String,
    /// Sampling temperature: 0, for repeatable answers.
    pub temperature: u32,
    /// Token budget, for APIs that take one.
    pub max_tokens: Option<u32>,
    /// Whether the reply streams, for APIs that ask.
    pub stream: Option<bool>,
}

/// The Ollama chat request for a screenshot: the image in base64, no
/// streaming, temperature 0.
pub fn ollama_request(model: &str, prompt: &str, image: &[u8]) -> (r: AnalyzeRequest)
    requires
        4 * ((image@.len() + 2) / 3) <= usize::MAX,
    ensures
        r.model@ == model@,
        r.prompt@ == prompt@,
        r.image@ == base64_standard(image@),
        r.temperature == 0,
        r.max_tokens is None,
        r.stream == Some(false),
{
    AnalyzeRequest {
        model: owned(model),
        prompt: owned(prompt),
        image: image_base64(image),
        temperature: 0,
        max_tokens: None,
        stream: Some(false),
    }
}

/// The chat-completions request for a screenshot: the image as a JPEG data
/// URI, temperature 0, at most `ANALYZE_MAX_TOKENS` tokens.
pub fn openai_request(model: &str, prompt: &str, image: &[u8]) -> (r: AnalyzeRequest)
    requires
        4 * ((image@.len() + 2) / 3) <= usize::MAX,
    ensures
        r.model@ == model@,
        r.prompt@ == prompt@,
        r.image@ == "data:image/jpeg;base64,"@ + base64_standard(image@),
        r.temperature == 0,
        r.max_tokens == Some(ANALYZE_MAX_TOKENS),
        r.stream is None,
{
    AnalyzeRequest {
        model: owned(model),
        prompt: owned(prompt),
        image: image_data_uri(image),
        temperature: 0,
        max_tokens: Some(ANALYZE_MAX_TOKENS),
        stream: None,
    }
}

/// One line of Ollama's streaming /api/pull response.
#[derive(Debug, Clone)]
pub struct PullProgress {
    pub status: String,
    pub total: Option<u64>,
    pub completed: Option<u64>,
}

/// Local backend detection: the installed model names of each backend that
/// answered, else `None`.
#[derive(Debug, Clone)]
pub struct DetectResult {
    pub ollama: Option<Vec<String>>,
    pub lmstudio: Option<Vec<String>>,
}

} // verus!
