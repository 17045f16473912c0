use screeny_core::config::CONFIG_VERSION;
use screeny_core::{
    CaptureConfig, ChannelsConfig, Config, ContentMode, EmailConfig, ImageFormat, LlmBackendKind,
    LlmConfig, SmtpSecurity, TelegramConfig,
};

#[test]
fn sanitize_clamps_out_of_range_values() {
    let config = Config {
        version: CONFIG_VERSION,
        capture: CaptureConfig {
            interval_seconds: 0,
            jpeg_quality: 250,
            ..CaptureConfig::default()
        },
        channels: ChannelsConfig {
            email: EmailConfig {
                batch_size: 0,
                ..EmailConfig::default()
            },
            telegram: TelegramConfig::default(),
        },
        llm: LlmConfig {
            base_url: "  http://localhost:11434///".into(),
            ..LlmConfig::default()
        },
        onboarding_complete: false,
    };
    let clean = config.sanitized();
    assert_eq!(clean.capture.interval_seconds, 5);
    assert_eq!(clean.capture.jpeg_quality, 100);
    assert_eq!(clean.channels.email.batch_size, 1);
    assert_eq!(clean.llm.base_url, "http://localhost:11434");
}

#[test]
fn defaults_match_documented_values() {
    let c = Config::default();
    assert_eq!(c.version, 1);
    assert_eq!(c.capture.interval_seconds, 20);
    assert_eq!(c.capture.format, ImageFormat::Jpeg);
    assert_eq!(c.capture.jpeg_quality, 80);
    assert_eq!(c.capture.retention_days, Some(30));
    assert!(c.capture.start_on_launch);
    assert_eq!(c.channels.email.smtp_host, "smtp.gmail.com");
    assert_eq!(c.channels.email.smtp_port, 465);
    assert_eq!(c.channels.email.security, SmtpSecurity::Ssl);
    assert_eq!(c.channels.email.batch_size, 1);
    assert_eq!(c.channels.email.content, ContentMode::Image);
    assert_eq!(c.llm.backend, LlmBackendKind::Ollama);
    assert_eq!(c.llm.base_url, "http://localhost:11434");
    assert!(!c.onboarding_complete);
}

#[test]
fn extensions_and_default_urls() {
    assert_eq!(ImageFormat::Png.extension(), "png");
    assert_eq!(ImageFormat::Jpeg.extension(), "jpg");
    assert_eq!(LlmBackendKind::Ollama.default_base_url(), "http://localhost:11434");
    assert_eq!(LlmBackendKind::Lmstudio.default_base_url(), "http://localhost:1234");
    assert_eq!(LlmBackendKind::Custom.default_base_url(), "https://api.openai.com");
}

#[test]
fn sanitize_trims_text_fields_and_clamps_upper_bounds() {
    let mut config = Config::default();
    config.capture.interval_seconds = 7;
    config.capture.jpeg_quality = 0;
    config.channels.email.batch_size = 999;
    config.channels.email.smtp_host = " mail.example.com\t".into();
    config.channels.email.username = "\n user ".into();
    config.channels.email.from = " a@example.com".into();
    config.channels.email.to = "b@example.com ".into();
    config.llm.model = "  moondream ".into();
    config.llm.backend = LlmBackendKind::Lmstudio;
    config.llm.base_url = " / ".into();
    config.version = 0;
    let clean = config.sanitized();
    assert_eq!(clean.version, CONFIG_VERSION);
    assert_eq!(clean.capture.interval_seconds, 7);
    assert_eq!(clean.capture.jpeg_quality, 1);
    assert_eq!(clean.channels.email.batch_size, 200);
    assert_eq!(clean.channels.email.smtp_host, "mail.example.com");
    assert_eq!(clean.channels.email.username, "user");
    assert_eq!(clean.channels.email.from, "a@example.com");
    assert_eq!(clean.channels.email.to, "b@example.com");
    assert_eq!(clean.llm.model, "moondream");
    // nothing left after trimming: the backend's default
    assert_eq!(clean.llm.base_url, "http://localhost:1234");
}

#[test]
fn sanitize_twice_is_sanitize_once() {
    let mut config = Config::default();
    config.capture.interval_seconds = 1;
    config.channels.email.smtp_host = "  host  ".into();
    config.llm.base_url = " http://h:1// ".into();
    let once = config.sanitized();
    let twice = once.sanitized();
    assert_eq!(once, twice);
}

#[test]
fn sanitize_twice_differs_when_cleaned_url_ends_in_whitespace() {
    let mut config = Config::default();
    config.llm.base_url = "a /".into();
    let once = config.sanitized();
    assert_eq!(once.llm.base_url, "a ");
    assert_eq!(once.sanitized().llm.base_url, "a");
}
