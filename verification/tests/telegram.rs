use screeny_core::llm::Analysis;
use screeny_core::sinks::telegram::{ApiReply, ChatInfo, TelegramSend, PHOTO_LIMIT_BYTES};
use screeny_core::{
    CaptureRow, ContentMode, CoreError, DeliveryItem, MemoryStore, SecretStore, Sink, SinkKind,
    TelegramConfig, TelegramSink, TELEGRAM_BOT_TOKEN,
};

fn config(chat_id: &str, content: ContentMode) -> TelegramConfig {
    TelegramConfig {
        enabled: true,
        chat_id: chat_id.into(),
        content,
    }
}

fn item(analysis: Option<Analysis>) -> DeliveryItem {
    DeliveryItem {
        capture: CaptureRow {
            id: 1,
            taken_at: "2026-07-02T10:00:01Z".into(),
            path: "missing.jpg".into(),
            monitor: "M".into(),
            width: 10,
            height: 10,
            status: "captured".into(),
            description: None,
            delivery_summary: None,
        },
        analysis,
    }
}

fn analysis() -> Analysis {
    Analysis {
        model: "m".into(),
        ocr_text: "hello".into(),
        description: "A test.".into(),
        latency_ms: 1,
    }
}

fn chat(id: i64, username: Option<&str>, title: Option<&str>) -> Option<ChatInfo> {
    Some(ChatInfo {
        id,
        username: username.map(|s| s.to_string()),
        title: title.map(|s| s.to_string()),
        first_name: None,
    })
}

#[test]
fn analysis_mode_sends_text_message() {
    let sink = TelegramSink::new(config("42", ContentMode::Analysis));
    match sink.item_send(&item(Some(analysis()))) {
        TelegramSend::Text(t) => {
            assert_eq!(t, "🖥 10:00:01 — A test.\n\nOn-screen text:\nhello");
        }
        TelegramSend::Image { .. } => panic!("expected a text message"),
    }
    assert_eq!(
        sink.method_url("123:abc", "sendMessage"),
        "https://api.telegram.org/bot123:abc/sendMessage"
    );
}

#[test]
fn analysis_text_without_analysis_says_so() {
    assert_eq!(
        TelegramSink::analysis_text(&item(None)),
        "🖥 10:00:01 — capture (no AI analysis available)"
    );
    let mut a = analysis();
    a.ocr_text = String::new();
    assert_eq!(TelegramSink::analysis_text(&item(Some(a))), "🖥 10:00:01 — A test.");
}

#[test]
fn image_and_both_modes_send_the_picture() {
    let image = TelegramSink::new(config("42", ContentMode::Image));
    match image.item_send(&item(Some(analysis()))) {
        TelegramSend::Image { caption } => assert_eq!(caption, ""),
        TelegramSend::Text(_) => panic!("expected an image"),
    }
    let both = TelegramSink::new(config("42", ContentMode::Both));
    match both.item_send(&item(Some(analysis()))) {
        TelegramSend::Image { caption } => assert_eq!(caption, "A test."),
        TelegramSend::Text(_) => panic!("expected an image"),
    }
}

#[test]
fn api_error_description_is_surfaced() {
    let reply: ApiReply<i64> = ApiReply {
        ok: false,
        description: Some("Bad Request: chat not found".into()),
        result: None,
    };
    let err = TelegramSink::check("400", Ok(reply)).unwrap_err().message();
    assert!(err.contains("chat not found"), "got: {err}");
}

#[test]
fn api_replies_without_description_or_result() {
    let reply: ApiReply<i64> = ApiReply { ok: false, description: None, result: None };
    let err = TelegramSink::check("502", Ok(reply)).unwrap_err().message();
    assert_eq!(err, "delivery failed via telegram: telegram API error (502)");
    let reply: ApiReply<i64> = ApiReply { ok: true, description: None, result: None };
    let err = TelegramSink::check("200", Ok(reply)).unwrap_err().message();
    assert_eq!(err, "delivery failed via telegram: telegram API returned no result");
    let reply: ApiReply<i64> = ApiReply { ok: true, description: None, result: Some(5) };
    assert_eq!(TelegramSink::check("200", Ok(reply)).unwrap(), 5);
    let err = TelegramSink::check::<i64>("500", Err("eof".into())).unwrap_err().message();
    assert_eq!(err, "delivery failed via telegram: bad response (500): eof");
}

#[test]
fn missing_chat_id_fails_before_network() {
    let sink = TelegramSink::new(config("", ContentMode::Image));
    let err = sink.validate().unwrap_err().message();
    assert!(err.contains("chat ID is empty"), "got: {err}");
    assert!(TelegramSink::new(config("42", ContentMode::Image)).validate().is_ok());
}

#[test]
fn discover_chats_dedupes_and_labels() {
    let updates = vec![
        chat(7, Some("saad"), None),
        chat(7, Some("saad"), None),
        chat(-100, None, Some("My Group")),
        None,
    ];
    let chats = TelegramSink::discover_chats(&updates);
    assert_eq!(chats.len(), 2);
    assert_eq!(chats[0].label, "@saad");
    assert_eq!(chats[1].label, "My Group");
    assert_eq!(chats[1].id, -100);
}

#[test]
fn chat_without_names_is_labelled_by_id() {
    let updates = vec![Some(ChatInfo { id: 99, username: None, title: None, first_name: None })];
    let chats = TelegramSink::discover_chats(&updates);
    assert_eq!(chats[0].label, "99");
    let updates = vec![Some(ChatInfo {
        id: 5,
        username: None,
        title: None,
        first_name: Some("Ann".into()),
    })];
    assert_eq!(TelegramSink::discover_chats(&updates)[0].label, "Ann");
}

#[test]
fn large_images_go_as_documents_and_captions_are_cut() {
    let small = TelegramSink::photo_request(10, "a.png", "");
    assert_eq!(small.method, "sendPhoto");
    assert_eq!(small.field, "photo");
    assert_eq!(small.mime, "image/png");
    assert!(small.caption.is_none());
    let long_caption = "x".repeat(2000);
    let big = TelegramSink::photo_request(PHOTO_LIMIT_BYTES + 1, "a.jpg", &long_caption);
    assert_eq!(big.method, "sendDocument");
    assert_eq!(big.field, "document");
    assert_eq!(big.mime, "image/jpeg");
    assert_eq!(big.caption.unwrap().chars().count(), 1024);
    assert_eq!(TelegramSink::message_text(&"é".repeat(5000)).chars().count(), 4096);
}

#[test]
fn bot_token_is_trimmed_and_required() {
    let mut store = MemoryStore::default();
    assert!(TelegramSink::token(store.get(TELEGRAM_BOT_TOKEN)).is_err());
    store.set(TELEGRAM_BOT_TOKEN, " 123:abc \n").unwrap();
    assert_eq!(TelegramSink::token(store.get(TELEGRAM_BOT_TOKEN)).unwrap(), "123:abc");
    let e = TelegramSink::token(Err(CoreError::Secret("x".into()))).unwrap_err();
    assert_eq!(e.message(), "secret storage error: x");
    let sink = TelegramSink::with_base_url(config("1", ContentMode::Image), "http://h".into());
    assert_eq!(sink.method_url("t", "getUpdates"), "http://h/bott/getUpdates");
    assert_eq!(sink.kind(), SinkKind::Telegram);
}

#[test]
fn telegram_sends_each_capture_on_its_own() {
    let sink = TelegramSink::new(config("1", ContentMode::Image));
    assert_eq!(sink.batch_size(), 1);
}
