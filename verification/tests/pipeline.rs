use screeny_core::pipeline::{
    capture_event, default_sink_factory, delivery_event, initial_state, retention_cutoff,
    state_change, DeliveryDecision, DeliveryQueues, DeliveryRetry, LoopAction, LoopEvent,
    Scheduler, DELIVERY_ATTEMPTS, DELIVERY_RETRY_DELAY_SECS,
};
use screeny_core::{
    CaptureConfig, CaptureRow, ChannelsConfig, Config, CoreError, CoreEvent, EmailConfig,
    RunState, SinkKind,
};

fn test_config(interval_seconds: u64, start_on_launch: bool) -> Config {
    Config {
        capture: CaptureConfig {
            interval_seconds,
            start_on_launch,
            ..CaptureConfig::default()
        },
        channels: ChannelsConfig {
            email: EmailConfig {
                enabled: true,
                ..EmailConfig::default()
            },
            ..ChannelsConfig::default()
        },
        ..Config::default()
    }
}

fn row(id: i64) -> CaptureRow {
    CaptureRow {
        id,
        taken_at: "2026-07-02T10:00:00Z".into(),
        path: format!("shot_{id}.jpg"),
        monitor: "FakeDisplay".into(),
        width: 8,
        height: 6,
        status: "captured".into(),
        description: None,
        delivery_summary: None,
    }
}

#[test]
fn toggle_flips_state_and_emits_events() {
    let config = test_config(3600, true);
    let state = initial_state(&config);
    assert_eq!(state, RunState::Running);
    let next = state.toggled();
    assert_eq!(next, RunState::Paused);
    assert_eq!(next.toggled(), RunState::Running);
    let first = state_change(state, next);
    assert!(matches!(
        first,
        Some(CoreEvent::StateChanged {
            state: RunState::Paused
        })
    ));
    assert!(state_change(RunState::Paused, RunState::Paused).is_none());
}

#[test]
fn paused_engine_does_not_capture_on_schedule() {
    let config = test_config(5, false);
    let state = initial_state(&config);
    assert_eq!(state, RunState::Paused);
    let mut scheduler = Scheduler::new(&config);
    // The first scheduled capture is one full interval after start.
    assert_eq!(scheduler.next_due(), 5);
    assert_eq!(scheduler.on_event(LoopEvent::Tick(0), RunState::Running), LoopAction::Idle);
    assert_eq!(scheduler.on_event(LoopEvent::Tick(5), state), LoopAction::Idle);
    assert_eq!(scheduler.on_event(LoopEvent::Tick(10), RunState::Running), LoopAction::Capture);
    // An explicit request captures even while paused.
    assert_eq!(scheduler.on_event(LoopEvent::CaptureRequested, state), LoopAction::Capture);
}

#[test]
fn missed_ticks_are_skipped_without_drift() {
    let mut scheduler = Scheduler::new(&test_config(20, true));
    assert_eq!(scheduler.on_event(LoopEvent::Tick(20), RunState::Running), LoopAction::Capture);
    assert_eq!(scheduler.next_due(), 40);
    assert_eq!(scheduler.on_event(LoopEvent::Tick(65), RunState::Running), LoopAction::Capture);
    assert_eq!(scheduler.next_due(), 80);
    assert_eq!(scheduler.on_event(LoopEvent::Tick(79), RunState::Running), LoopAction::Idle);
}

#[test]
fn interval_change_restarts_the_timer_once() {
    let mut scheduler = Scheduler::new(&test_config(3600, true));
    assert_eq!(
        scheduler.on_event(LoopEvent::IntervalConfigured { secs: 60, now: 100 }, RunState::Running),
        LoopAction::ResetTimer(60)
    );
    assert_eq!(scheduler.interval_secs(), 60);
    assert_eq!(scheduler.next_due(), 160);
    assert_eq!(
        scheduler.on_event(LoopEvent::IntervalConfigured { secs: 60, now: 120 }, RunState::Running),
        LoopAction::Idle
    );
    assert_eq!(scheduler.next_due(), 160);
    // No scheduled capture before one new interval has passed.
    assert_eq!(scheduler.on_event(LoopEvent::Tick(159), RunState::Running), LoopAction::Idle);
    assert_eq!(scheduler.on_event(LoopEvent::Tick(160), RunState::Paused), LoopAction::Idle);
    assert_eq!(scheduler.on_event(LoopEvent::Tick(220), RunState::Running), LoopAction::Capture);
}

#[test]
fn delivery_batches_to_sink_batch_size() {
    let mut queues: DeliveryQueues<CaptureRow> = DeliveryQueues::new();
    assert!(queues.enqueue(SinkKind::Email, 3, row(1)).is_none());
    assert!(queues.enqueue(SinkKind::Email, 3, row(2)).is_none());
    assert_eq!(queues.pending_len(SinkKind::Email), 2);
    let batch = queues.enqueue(SinkKind::Email, 3, row(3)).unwrap();
    let ids: Vec<i64> = batch.iter().map(|r| r.id).collect();
    assert_eq!(ids, vec![1, 2, 3]);
    assert_eq!(queues.pending_len(SinkKind::Email), 0);
    let event = delivery_event(SinkKind::Email, batch.len(), DeliveryDecision::Delivered);
    assert!(matches!(event, Some(CoreEvent::DeliverySucceeded { count: 3, .. })));
}

#[test]
fn sinks_queue_independently() {
    let mut queues: DeliveryQueues<i64> = DeliveryQueues::new();
    assert!(queues.enqueue(SinkKind::Email, 2, 1).is_none());
    assert_eq!(queues.enqueue(SinkKind::Telegram, 1, 1), Some(vec![1]));
    assert_eq!(queues.pending_len(SinkKind::Email), 1);
    assert_eq!(queues.pending_len(SinkKind::Telegram), 0);
    // Lowering the batch size flushes everything already queued.
    assert!(queues.enqueue(SinkKind::Email, 5, 2).is_none());
    assert_eq!(queues.enqueue(SinkKind::Email, 1, 3), Some(vec![1, 2, 3]));
}

#[test]
fn delivery_retries_then_succeeds() {
    let mut retry = DeliveryRetry::new();
    assert_eq!(
        retry.after_attempt(Err("simulated outage".into())),
        DeliveryDecision::RetryAfter(DELIVERY_RETRY_DELAY_SECS)
    );
    assert_eq!(retry.after_attempt(Ok(())), DeliveryDecision::Delivered);
    assert_eq!(retry.attempts, 2);
}

#[test]
fn delivery_gives_up_after_retries_and_records_failure() {
    let mut retry = DeliveryRetry::new();
    let mut decision = DeliveryDecision::Delivered;
    for _ in 0..DELIVERY_ATTEMPTS {
        decision = retry.after_attempt(Err(
            "delivery failed via email: simulated outage".into()
        ));
    }
    let event = delivery_event(SinkKind::Email, 1, decision);
    match event {
        Some(CoreEvent::DeliveryFailed { message, sink }) => {
            assert!(message.contains("simulated outage"));
            assert_eq!(sink, SinkKind::Email);
        }
        _ => unreachable!(),
    }
    assert!(delivery_event(SinkKind::Email, 1, DeliveryDecision::RetryAfter(2)).is_none());
}

#[test]
fn capture_failure_emits_failed_event() {
    let event = capture_event(Err(CoreError::Capture("no permission".into())));
    match event {
        CoreEvent::CaptureFailed { message } => {
            assert_eq!(message, "screen capture failed: no permission")
        }
        other => panic!("expected CaptureFailed, got {other:?}"),
    }
    assert!(matches!(capture_event(Ok(row(1))), CoreEvent::CaptureTaken(r) if r.id == 1));
}

#[test]
fn retention_cutoff_is_days_before_now() {
    assert_eq!(retention_cutoff(1_000_000, Some(1)), Some(1_000_000 - 86_400));
    assert_eq!(retention_cutoff(1_000_000, Some(30)), Some(1_000_000 - 30 * 86_400));
    assert_eq!(retention_cutoff(1_000_000, None), None);
}

#[test]
fn one_sink_per_enabled_channel() {
    let mut config = test_config(20, true);
    assert_eq!(default_sink_factory(&config), vec![SinkKind::Email]);
    config.channels.telegram.enabled = true;
    assert_eq!(default_sink_factory(&config), vec![SinkKind::Email, SinkKind::Telegram]);
    config.channels.email.enabled = false;
    config.channels.telegram.enabled = false;
    assert!(default_sink_factory(&config).is_empty());
}
