use screeny_core::sinks::email::{attachment_for, EmailSink};
use screeny_core::{
    CaptureRow, CoreError, EmailConfig, MemoryStore, SecretStore, Sink, SinkKind, SMTP_PASSWORD,
};

fn sink(config: EmailConfig) -> EmailSink {
    EmailSink::new(config)
}

fn valid_config() -> EmailConfig {
    EmailConfig {
        enabled: true,
        username: "user@example.com".into(),
        from: "user@example.com".into(),
        to: "inbox@example.com".into(),
        ..EmailConfig::default()
    }
}

fn row(id: i64, taken_at: &str, path: &str) -> CaptureRow {
    CaptureRow {
        id,
        taken_at: taken_at.into(),
        path: path.into(),
        monitor: "M".into(),
        width: 10,
        height: 10,
        status: "captured".into(),
        description: None,
        delivery_summary: None,
    }
}

#[test]
fn validate_rejects_missing_fields() {
    assert!(sink(EmailConfig::default()).validate().is_err());
    assert!(sink(valid_config()).validate().is_ok());
}

#[test]
fn validate_names_the_first_missing_field() {
    let mut c = valid_config();
    c.smtp_host = String::new();
    let e = sink(c).validate().unwrap_err().message();
    assert_eq!(e, "delivery failed via email: SMTP host is empty");
    let mut c = valid_config();
    c.username = String::new();
    let e = sink(c).validate().unwrap_err().message();
    assert_eq!(e, "delivery failed via email: SMTP username is empty");
    let mut c = valid_config();
    c.to = String::new();
    let e = sink(c).validate().unwrap_err().message();
    assert_eq!(e, "delivery failed via email: from/to addresses must be set");
}

#[test]
fn builds_multipart_message_with_attachments() {
    let sink = sink(valid_config());
    let rows = vec![
        row(1, "2026-07-02T10:00:00Z", "shot_1.jpg"),
        row(2, "2026-07-02T10:00:20Z", "shot_2.png"),
    ];
    let parts = vec![
        (Some("shot_1.jpg".to_string()), vec![1u8, 2, 3]),
        (Some("shot_2.png".to_string()), vec![4u8, 5, 6]),
    ];
    let message = sink.build_message(&rows, parts, "2026-07-02 10:00:20").unwrap();
    assert_eq!(message.from.address(), "user@example.com");
    assert_eq!(message.to.address(), "inbox@example.com");
    assert!(message.subject.contains("(2 shots)"));
    assert_eq!(message.subject, "Screeny — 2026-07-02 10:00:20 (2 shots)");
    assert_eq!(
        message.body,
        "Automated screen archive from Screeny.\nCaptured: 2026-07-02 10:00:20\nScreenshots attached: 2\n"
    );
    assert_eq!(message.attachments.len(), 2);
    assert_eq!(message.attachments[0].filename, "shot_1.jpg");
    assert_eq!(message.attachments[0].mime, "image/jpeg");
    assert_eq!(message.attachments[0].bytes, vec![1, 2, 3]);
    assert_eq!(message.attachments[1].mime, "image/png");
}

#[test]
fn single_shot_subject_has_no_count() {
    let sink = sink(valid_config());
    let rows = vec![row(7, "t", "/x/y.jpg")];
    let message = sink.build_message(&rows, vec![(None, vec![9u8])], "STAMP").unwrap();
    assert_eq!(message.subject, "Screeny — STAMP");
    assert_eq!(message.attachments[0].filename, "capture_7.jpg");
}

#[test]
fn attachment_names_fall_back_to_capture_id() {
    let a = attachment_for(None, -3, vec![]);
    assert_eq!(a.filename, "capture_-3.jpg");
    assert_eq!(a.mime, "image/jpeg");
    let b = attachment_for(Some("a.png".into()), 1, vec![1]);
    assert_eq!(b.mime, "image/png");
}

#[test]
fn deliver_without_password_fails_clearly() {
    let store = MemoryStore::default();
    let err = EmailSink::password(store.get(SMTP_PASSWORD)).unwrap_err().message();
    assert!(err.contains("no SMTP password saved"), "got: {err}");
}

#[test]
fn password_spaces_are_removed_and_blank_is_missing() {
    let mut store = MemoryStore::default();
    store.set(SMTP_PASSWORD, "abcd efgh ijkl mnop").unwrap();
    assert_eq!(EmailSink::password(store.get(SMTP_PASSWORD)).unwrap(), "abcdefghijklmnop");
    store.set(SMTP_PASSWORD, "   ").unwrap();
    assert!(EmailSink::password(store.get(SMTP_PASSWORD)).is_err());
    let failed = EmailSink::password(Err(CoreError::Secret("locked".into())));
    assert_eq!(failed.unwrap_err().message(), "secret storage error: locked");
}

#[test]
fn batch_size_is_at_least_one() {
    let mut c = valid_config();
    c.batch_size = 0;
    assert_eq!(sink(c).batch_size(), 1);
    let mut c = valid_config();
    c.batch_size = 10;
    assert_eq!(sink(c).batch_size(), 10);
    assert_eq!(sink(valid_config()).kind(), SinkKind::Email);
    assert_eq!(SinkKind::Email.as_str(), "email");
    assert_eq!(SinkKind::Telegram.as_str(), "telegram");
}

#[test]
fn unparsable_addresses_are_refused_sender_first() {
    let mut c = valid_config();
    c.from = "not an address".into();
    c.to = "also bad".into();
    let e = sink(c).build_message(&vec![], vec![], "S").err().unwrap().message();
    assert!(e.starts_with("delivery failed via email: invalid from address: "), "got: {e}");
    let mut c = valid_config();
    c.to = "nobody".into();
    let e = screeny_core::sinks::email::addresses(&c).err().unwrap().message();
    assert!(e.starts_with("delivery failed via email: invalid to address: "), "got: {e}");
}

#[test]
fn finished_mail_carries_subject_and_attachments() {
    let sink = sink(valid_config());
    let rows = vec![
        row(1, "2026-07-02T10:00:00Z", "shot_1.jpg"),
        row(2, "2026-07-02T10:00:20Z", "shot_2.png"),
    ];
    let parts = vec![
        (Some("shot_1.jpg".to_string()), vec![1u8, 2, 3]),
        (Some("shot_2.png".to_string()), vec![4u8, 5, 6]),
    ];
    let mail = sink
        .build_message(&rows, parts, "2026-07-02 10:00:20")
        .unwrap()
        .into_mail()
        .unwrap();
    let raw = String::from_utf8_lossy(&mail.formatted()).into_owned();
    assert!(raw.contains("shot_1.jpg"));
    assert!(raw.contains("image/png"));
    assert!(raw.contains("inbox@example.com"));
}
