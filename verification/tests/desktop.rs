use screeny_core::desktop::{
    list_limit, pull_base_url, run_state_for, search_limit, toggle_label, FailureTracker,
};
use screeny_core::{CoreEvent, LlmBackendKind, LlmConfig, RunState, SinkKind};

#[test]
fn tray_label_follows_state() {
    assert_eq!(toggle_label(RunState::Running), "Pause capturing");
    assert_eq!(toggle_label(RunState::Paused), "Resume capturing");
    assert_eq!(run_state_for(true), RunState::Running);
    assert_eq!(run_state_for(false), RunState::Paused);
}

#[test]
fn limits_default_and_cap() {
    assert_eq!(search_limit(None), 100);
    assert_eq!(search_limit(Some(10)), 10);
    assert_eq!(search_limit(Some(10_000)), 500);
    assert_eq!(list_limit(None), 60);
    assert_eq!(list_limit(Some(500)), 500);
    assert_eq!(list_limit(Some(501)), 500);
}

#[test]
fn model_pulls_go_to_ollama() {
    let mut llm = LlmConfig::default();
    llm.base_url = "http://gpu-box:11434".into();
    assert_eq!(pull_base_url(&llm), "http://gpu-box:11434");
    llm.backend = LlmBackendKind::Lmstudio;
    assert_eq!(pull_base_url(&llm), "http://localhost:11434");
}

#[test]
fn failures_notify_once_until_recovery() {
    let mut t = FailureTracker::new();
    let failed = CoreEvent::CaptureFailed { message: "no permission".into() };
    let n = t.on_event(&failed).unwrap();
    assert_eq!(n.title, "Screeny can't capture the screen");
    assert_eq!(n.body, "no permission");
    assert!(t.on_event(&failed).is_none());
    assert!(t.on_event(&failed).is_none());
    assert!(t.on_event(&CoreEvent::StateChanged { state: RunState::Paused }).is_none());
    assert!(t.capture);
}

#[test]
fn sink_failures_notify_per_sink_and_rearm() {
    let mut t = FailureTracker::new();
    let email_failed = CoreEvent::DeliveryFailed { sink: SinkKind::Email, message: "boom".into() };
    let n = t.on_event(&email_failed).unwrap();
    assert_eq!(n.title, "Screeny email delivery failed");
    assert_eq!(n.body, "boom — captures are kept locally.");
    assert!(t.on_event(&email_failed).is_none());
    let tg_failed = CoreEvent::DeliveryFailed { sink: SinkKind::Telegram, message: "x".into() };
    assert!(t.on_event(&tg_failed).is_some());
    assert!(t.on_event(&CoreEvent::DeliverySucceeded { sink: SinkKind::Email, count: 1 }).is_none());
    assert!(t.on_event(&email_failed).is_some());
}

#[test]
fn notices_follow_failure_history() {
    let mut t = FailureTracker::new();
    let failed = CoreEvent::CaptureFailed { message: "x".into() };
    let taken = CoreEvent::CaptureTaken(screeny_core::CaptureRow {
        id: 1,
        taken_at: "t".into(),
        path: "p".into(),
        monitor: "M".into(),
        width: 1,
        height: 1,
        status: "captured".into(),
        description: None,
        delivery_summary: None,
    });
    let shown = [failed.clone(), failed.clone(), taken, failed]
        .iter()
        .filter(|e| t.on_event(e).is_some())
        .count();
    assert_eq!(shown, 2);
}
