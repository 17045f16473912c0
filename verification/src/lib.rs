//! Verified core of a privacy-first screen archiver: configuration rules,
//! the lenient model-output parser, capture checks, delivery batching and
//! retry policy, secret storage, and the text each channel sends.

pub mod capture;
pub mod config;
pub mod desktop;
pub mod error;
pub mod llm;
pub mod pipeline;
pub mod secrets;
pub mod sinks;
pub mod store;
pub mod text;

pub use config::{
    CaptureConfig, ChannelsConfig, Config, ContentMode, EmailConfig, ImageFormat, LlmBackendKind,
    LlmConfig, SmtpSecurity, TelegramConfig,
};
pub use error::CoreError;
pub use llm::{backend_from_config, Analysis, DetectResult, LlmBackendChoice, PullProgress};
pub use pipeline::{CoreEvent, RunState};
pub use secrets::{MemoryStore, SecretStore, LLM_API_KEY, SMTP_PASSWORD, TELEGRAM_BOT_TOKEN};
pub use sinks::{
    email::EmailSink, telegram::DiscoveredChat, telegram::TelegramSink, DeliveryItem, Sink,
    SinkKind,
};
pub use store::CaptureRow;
