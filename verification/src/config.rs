//! User configuration, its defaults, and the rule that clamps it into range.

use vstd::prelude::*;

use crate::text::{
    chars_of, is_ws, lemma_trim_end_char, lemma_trim_fixed, lemma_trim_idempotent,
    lemma_trim_start, lemma_trim_end, owned, string_from, trim, trim_end_char, trim_range, trim_start,
    trimmed,
};

verus! {

pub const CONFIG_VERSION: u32 = 1;

#[derive(Debug, Clone, Copy, PartialEq, Eq, Structural)]
pub enum ImageFormat {
    Png,
    Jpeg,
}

pub open spec fn extension_of(f: ImageFormat) -> Seq<char> {
    match f {
        ImageFormat::Png => "png"@,
        ImageFormat::Jpeg => "jpg"@,
    }
}

impl ImageFormat {
    pub fn extension(self) -> (r: &'static str)
        ensures
            r@ == extension_of(self),
    {
        match self {
            ImageFormat::Png => "png",
            ImageFormat::Jpeg => "jpg",
        }
    }
}

#[derive(Debug, Clone, PartialEq)]
pub struct CaptureConfig {
    /// Seconds between captures. Clamped to at least 5.
    pub interval_seconds: u64,
    pub format: ImageFormat,
    /// JPEG quality 1-100 (ignored for PNG).
    pub jpeg_quality: u8,
    /// Delete captures older than this many days. None = keep forever.
    pub retention_days: Option<u32>,
    /// Start capturing as soon as the app launches.
    pub start_on_launch: bool,
}

impl Default for CaptureConfig {
    fn default() -> (r: Self)
        ensures
            r.interval_seconds == 20,
            r.format == ImageFormat::Jpeg,
            r.jpeg_quality == 80,
            r.retention_days == Some(30u32),
            r.start_on_launch,
    {
        CaptureConfig {
            interval_seconds: 20,
            format: ImageFormat::Jpeg,
            jpeg_quality: 80,
            retention_days: Some(30),
            start_on_launch: true,
        }
    }
}

#[derive(Debug, Clone, Copy, PartialEq, Eq, Structural)]
pub enum LlmBackendKind {
    Ollama,
    Lmstudio,
    /// Any OpenAI-compatible endpoint (OpenAI, OpenRouter, custom).
    Custom,
}

pub open spec fn base_url_of(kind: LlmBackendKind) -> Seq<char> {
    match kind {
        LlmBackendKind::Ollama => "http://localhost:11434"@,
        LlmBackendKind::Lmstudio => "http://localhost:1234"@,
        LlmBackendKind::Custom => "https://api.openai.com"@,
    }
}

impl LlmBackendKind {
    pub fn default_base_url(self) -> (r: &'static str)
        ensures
            r@ == base_url_of(self),
    {
        match self {
            LlmBackendKind::Ollama => "http://localhost:11434",
            LlmBackendKind::Lmstudio => "http://localhost:1234",
            LlmBackendKind::Custom => "https://api.openai.com",
        }
    }
}

#[derive(Debug, Clone, PartialEq)]
pub struct LlmConfig {
    /// Analyze each capture (OCR + description) with a vision model.
    pub enabled: bool,
    pub backend: LlmBackendKind,
    /// Base URL without the API path (e.g. http://localhost:11434).
    pub base_url: String,
    pub model: String,
    /// Replaces the built-in analysis prompt when set.
    pub prompt_override: Option<String>,
}

impl Default for LlmConfig {
    fn default() -> (r: Self)
        ensures
            !r.enabled,
            r.backend == LlmBackendKind::Ollama,
            r.base_url@ == base_url_of(LlmBackendKind::Ollama),
            r.model@ == Seq::<char>::empty(),
            r.prompt_override is None,
    {
        LlmConfig {
            enabled: false,
            backend: LlmBackendKind::Ollama,
            base_url: owned(LlmBackendKind::Ollama.default_base_url()),
            model: String::new(),
            prompt_override: None,
        }
    }
}

/// What an outgoing delivery contains.
#[derive(Debug, Clone, Copy, PartialEq, Eq, Structural)]
pub enum ContentMode {
    Image,
    Analysis,
    Both,
}

#[derive(Debug, Clone, Copy, PartialEq, Eq, Structural)]
pub enum SmtpSecurity {
    /// Implicit TLS (SMTPS), typically port 465.
    Ssl,
    /// STARTTLS upgrade, typically port 587.
    Starttls,
}

#[derive(Debug, Clone, PartialEq)]
pub struct EmailConfig {
    pub enabled: bool,
    pub smtp_host: String,
    pub smtp_port: u16,
    pub security: SmtpSecurity,
    /// SMTP login user. The password lives in the OS keychain, never here.
    pub username: String,
    pub from: String,
    pub to: String,
    /// Screenshots bundled per email. Raise to stay under provider send
    /// limits (e.g. Gmail's ~500 emails/day).
    pub batch_size: u32,
    /// Send the screenshot, the AI analysis text, or both.
    pub content: ContentMode,
}

impl Default for EmailConfig {
    fn default() -> (r: Self)
        ensures
            !r.enabled,
            r.smtp_host@ == "smtp.gmail.com"@,
            r.smtp_port == 465,
            r.security == SmtpSecurity::Ssl,
            r.username@ == Seq::<char>::empty(),
            r.from@ == Seq::<char>::empty(),
            r.to@ == Seq::<char>::empty(),
            r.batch_size == 1,
            r.content == ContentMode::Image,
    {
        EmailConfig {
            enabled: false,
            smtp_host: owned("smtp.gmail.com"),
            smtp_port: 465,
            security: SmtpSecurity::Ssl,
            username: String::new(),
            from: String::new(),
            to: String::new(),
            batch_size: 1,
            content: ContentMode::Image,
        }
    }
}

/// Telegram Bot API channel. The bot token lives in the OS keychain.
#[derive(Debug, Clone, PartialEq)]
pub struct TelegramConfig {
    pub enabled: bool,
    pub chat_id: String,
    pub content: ContentMode,
}

impl Default for TelegramConfig {
    fn default() -> (r: Self)
        ensures
            !r.enabled,
            r.chat_id@ == Seq::<char>::empty(),
            r.content == ContentMode::Image,
    {
        TelegramConfig { enabled: false, chat_id: String::new(), content: ContentMode::Image }
    }
}

#[derive(Debug, Clone, PartialEq)]
pub struct ChannelsConfig {
    pub email: EmailConfig,
    pub telegram: TelegramConfig,
}

impl Default for ChannelsConfig {
    fn default() -> (r: Self)
        ensures
            r.email.batch_size == 1,
            !r.email.enabled,
            !r.telegram.enabled,
    {
        ChannelsConfig { email: EmailConfig::default(), telegram: TelegramConfig::default() }
    }
}

#[derive(Debug, Clone, PartialEq)]
pub struct Config {
    pub version: u32,
    pub capture: CaptureConfig,
    pub channels: ChannelsConfig,
    pub llm: LlmConfig,
    /// First-run wizard finished (or explicitly skipped).
    pub onboarding_complete: bool,
}

impl Default for Config {
    fn default() -> (r: Self)
        ensures
            r.version == CONFIG_VERSION,
            r.capture.interval_seconds == 20,
            r.capture.jpeg_quality == 80,
            r.capture.start_on_launch,
            !r.channels.email.enabled,
            !r.channels.telegram.enabled,
            !r.llm.enabled,
            !r.onboarding_complete,
    {
        Config {
            version: CONFIG_VERSION,
            capture: CaptureConfig::default(),
            channels: ChannelsConfig::default(),
            llm: LlmConfig::default(),
            onboarding_complete: false,
        }
    }
}

/// `lo <= x <= hi`, with `x` moved to the nearest bound when outside.
pub open spec fn clamp(x: int, lo: int, hi: int) -> int {
    if x < lo {
        lo
    } else if x > hi {
        hi
    } else {
        x
    }
}

/// The base URL a sanitized config keeps: trimmed, trailing slashes dropped,
/// and the backend's default when nothing is left.
pub open spec fn clean_base_url(url: Seq<char>, kind: LlmBackendKind) -> Seq<char> {
    let t = trim_end_char(trim(url), '/');
    if t.len() == 0 {
        base_url_of(kind)
    } else {
        t
    }
}

/// `c` with invalid values clamped into range: the capture interval is at
/// least 5 s, JPEG quality within 1-100, the email batch within 1-200, text
/// fields trimmed and the LLM base URL normalized.
pub open spec fn is_sanitized_of(r: Config, c: Config) -> bool {
    &&& r.version == CONFIG_VERSION
    &&& r.capture.interval_seconds == if c.capture.interval_seconds < 5 {
        5
    } else {
        c.capture.interval_seconds
    }
    &&& r.capture.jpeg_quality == clamp(c.capture.jpeg_quality as int, 1, 100)
    &&& r.capture.format == c.capture.format
    &&& r.capture.retention_days == c.capture.retention_days
    &&& r.capture.start_on_launch == c.capture.start_on_launch
    &&& r.channels.email.enabled == c.channels.email.enabled
    &&& r.channels.email.smtp_host@ == trim(c.channels.email.smtp_host@)
    &&& r.channels.email.smtp_port == c.channels.email.smtp_port
    &&& r.channels.email.security == c.channels.email.security
    &&& r.channels.email.username@ == trim(c.channels.email.username@)
    &&& r.channels.email.from@ == trim(c.channels.email.from@)
    &&& r.channels.email.to@ == trim(c.channels.email.to@)
    &&& r.channels.email.batch_size == clamp(c.channels.email.batch_size as int, 1, 200)
    &&& r.channels.email.content == c.channels.email.content
    &&& r.channels.telegram.enabled == c.channels.telegram.enabled
    &&& r.channels.telegram.chat_id@ == c.channels.telegram.chat_id@
    &&& r.channels.telegram.content == c.channels.telegram.content
    &&& r.llm.enabled == c.llm.enabled
    &&& r.llm.backend == c.llm.backend
    &&& r.llm.base_url@ == clean_base_url(c.llm.base_url@, c.llm.backend)
    &&& r.llm.model@ == trim(c.llm.model@)
    &&& opt_string_view(r.llm.prompt_override) == opt_string_view(c.llm.prompt_override)
    &&& r.onboarding_complete == c.onboarding_complete
}

pub open spec fn opt_string_view(o: Option<String>) -> Option<Seq<char>> {
    match o {
        Some(s) => Some(s@),
        None => None,
    }
}

/// `s` with trailing whitespace-and-slash normalization of a base URL.
fn clean_url(url: &str, kind: LlmBackendKind) -> (r: String)
    ensures
        r@ == clean_base_url(url@, kind),
{
    let v = chars_of(url);
    let (a, b) = trim_range(&v, 0, v.len());
    proof {
        assert(v@.subrange(0, v.len() as int) == v@);
    }
    let mut end = b;
    while end > a && v[end - 1] == '/'
        invariant
            a <= end <= b <= v.len(),
            trim_end_char(v@.subrange(a as int, end as int), '/') == trim_end_char(
                v@.subrange(a as int, b as int),
                '/',
            ),
        decreases end - a,
    {
        assert(v@.subrange(a as int, end as int).drop_last() == v@.subrange(a as int, end - 1));
        end -= 1;
    }
    if end == a {
        owned(kind.default_base_url())
    } else {
        string_from(&v, a, end)
    }
}

fn clone_opt_string(o: &Option<String>) -> (r: Option<String>)
    ensures
        opt_string_view(r) == opt_string_view(*o),
{
    match o {
        Some(s) => Some(s.clone()),
        None => None,
    }
}

impl Config {
    /// Returns a copy with invalid values clamped into range.
    pub fn sanitized(&self) -> (r: Config)
        ensures
            is_sanitized_of(r, *self),
    {
        let q = self.capture.jpeg_quality;
        let capture = CaptureConfig {
            interval_seconds: if self.capture.interval_seconds < 5 {
                5
            } else {
                self.capture.interval_seconds
            },
            format: self.capture.format,
            jpeg_quality: if q < 1 {
                1
            } else if q > 100 {
                100
            } else {
                q
            },
            retention_days: self.capture.retention_days,
            start_on_launch: self.capture.start_on_launch,
        };
        let e = &self.channels.email;
        let email = EmailConfig {
            enabled: e.enabled,
            smtp_host: trimmed(e.smtp_host.as_str()),
            smtp_port: e.smtp_port,
            security: e.security,
            username: trimmed(e.username.as_str()),
            from: trimmed(e.from.as_str()),
            to: trimmed(e.to.as_str()),
            batch_size: if e.batch_size < 1 {
                1
            } else if e.batch_size > 200 {
                200
            } else {
                e.batch_size
            },
            content: e.content,
        };
        let t = &self.channels.telegram;
        let telegram = TelegramConfig {
            enabled: t.enabled,
            chat_id: t.chat_id.clone(),
            content: t.content,
        };
        let llm = LlmConfig {
            enabled: self.llm.enabled,
            backend: self.llm.backend,
            base_url: clean_url(self.llm.base_url.as_str(), self.llm.backend),
            model: trimmed(self.llm.model.as_str()),
            prompt_override: clone_opt_string(&self.llm.prompt_override),
        };
        Config {
            version: CONFIG_VERSION,
            capture,
            channels: ChannelsConfig { email, telegram },
            llm,
            onboarding_complete: self.onboarding_complete,
        }
    }
}

/// Two configurations hold the same settings.
pub open spec fn same_settings(a: Config, b: Config) -> bool {
    &&& a.version == b.version
    &&& a.capture == b.capture
    &&& a.channels.email.enabled == b.channels.email.enabled
    &&& a.channels.email.smtp_host@ == b.channels.email.smtp_host@
    &&& a.channels.email.smtp_port == b.channels.email.smtp_port
    &&& a.channels.email.security == b.channels.email.security
    &&& a.channels.email.username@ == b.channels.email.username@
    &&& a.channels.email.from@ == b.channels.email.from@
    &&& a.channels.email.to@ == b.channels.email.to@
    &&& a.channels.email.batch_size == b.channels.email.batch_size
    &&& a.channels.email.content == b.channels.email.content
    &&& a.channels.telegram.enabled == b.channels.telegram.enabled
    &&& a.channels.telegram.chat_id@ == b.channels.telegram.chat_id@
    &&& a.channels.telegram.content == b.channels.telegram.content
    &&& a.llm.enabled == b.llm.enabled
    &&& a.llm.backend == b.llm.backend
    &&& a.llm.base_url@ == b.llm.base_url@
    &&& a.llm.model@ == b.llm.model@
    &&& opt_string_view(a.llm.prompt_override) == opt_string_view(b.llm.prompt_override)
    &&& a.onboarding_complete == b.onboarding_complete
}

proof fn lemma_default_urls_clean(kind: LlmBackendKind)
    ensures
        base_url_of(kind).len() > 0,
        !is_ws(base_url_of(kind)[0]),
        !is_ws(base_url_of(kind).last()),
        base_url_of(kind).last() != '/',
{
    reveal_strlit("http://localhost:11434");
    reveal_strlit("http://localhost:1234");
    reveal_strlit("https://api.openai.com");
}

/// A cleaned base URL is cleaned again to itself, unless it ends in
/// whitespace (possible when whitespace stood before trailing slashes).
pub proof fn lemma_clean_base_url_stable(url: Seq<char>, kind: LlmBackendKind)
    requires
        ({
            let u = clean_base_url(url, kind);
            u.len() > 0 ==> !is_ws(u.last())
        }),
    ensures
        clean_base_url(clean_base_url(url, kind), kind) == clean_base_url(url, kind),
{
    let t = trim_end_char(trim(url), '/');
    let u = clean_base_url(url, kind);
    lemma_trim_end_char(trim(url), '/');
    lemma_trim_start(url);
    lemma_trim_end(trim_start(url));
    if t.len() == 0 {
        lemma_default_urls_clean(kind);
    } else {
        assert(t[0] == trim(url)[0]);
        assert(trim(url)[0] == trim_start(url)[0]);
    }
    lemma_trim_fixed(u);
    assert(trim_end_char(u, '/') == u);
}

/// Law: sanitizing a sanitized configuration changes nothing. The one
/// exception is a base URL that, once cleaned, ends in whitespace (such as
/// `"a /"`, cleaned to `"a "`), which a second pass trims further.
pub proof fn lemma_sanitized_idempotent(c: Config, once: Config, twice: Config)
    requires
        is_sanitized_of(once, c),
        is_sanitized_of(twice, once),
        once.llm.base_url@.len() > 0 ==> !is_ws(once.llm.base_url@.last()),
    ensures
        same_settings(twice, once),
{
    lemma_trim_idempotent(c.channels.email.smtp_host@);
    lemma_trim_idempotent(c.channels.email.username@);
    lemma_trim_idempotent(c.channels.email.from@);
    lemma_trim_idempotent(c.channels.email.to@);
    lemma_trim_idempotent(c.llm.model@);
    lemma_clean_base_url_stable(c.llm.base_url@, c.llm.backend);
}

} // verus!
