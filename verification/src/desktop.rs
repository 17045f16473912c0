//! Decisions of the desktop shell: tray labels, request limits, which
//! Ollama server a model download goes to, and when a failure raises a
//! desktop notification.

use vstd::prelude::*;

use crate::config::{base_url_of, LlmBackendKind, LlmConfig};
use crate::pipeline::{CoreEvent, RunState};
use crate::sinks::{sink_name, SinkKind};
use crate::text::{owned, push_str};

verus! {

pub open spec fn toggle_label_of(state: RunState) -> Seq<char> {
    match state {
        RunState::Running => "Pause capturing"@,
        RunState::Paused => "Resume capturing"@,
    }
}

/// The tray menu entry that flips the run state.
pub fn toggle_label(state: RunState) -> (r: &'static str)
    ensures
        r@ == toggle_label_of(state),
{
    match state {
        RunState::Running => "Pause capturing",
        RunState::Paused => "Resume capturing",
    }
}

/// The run state a "running" switch asks for.
pub fn run_state_for(running: bool) -> (r: RunState)
    ensures
        r == (if running {
            RunState::Running
        } else {
            RunState::Paused
        }),
{
    if running {
        RunState::Running
    } else {
        RunState::Paused
    }
}

/// Most rows one list or search request returns.
pub const MAX_ROWS: u32 = 500;

/// Rows a search returns: 100 unless asked otherwise, never over 500.
pub fn search_limit(limit: Option<u32>) -> (r: u32)
    ensures
        r == match limit {
            Some(l) => if l < 500 {
                l
            } else {
                500
            },
            None => 100,
        },
{
    let l = match limit {
        Some(l) => l,
        None => 100,
    };
    if l < MAX_ROWS {
        l
    } else {
        MAX_ROWS
    }
}

/// Rows a listing page returns: 60 unless asked otherwise, never over 500.
pub fn list_limit(limit: Option<u32>) -> (r: u32)
    ensures
        r == match limit {
            Some(l) => if l < 500 {
                l
            } else {
                500
            },
            None => 60,
        },
{
    let l = match limit {
        Some(l) => l,
        None => 60,
    };
    if l < MAX_ROWS {
        l
    } else {
        MAX_ROWS
    }
}

/// The Ollama server a model download goes to: the configured one when the
/// backend is Ollama, Ollama's default otherwise.
pub fn pull_base_url(llm: &LlmConfig) -> (r: String)
    ensures
        r@ == (if llm.backend == LlmBackendKind::Ollama {
            llm.base_url@
        } else {
            base_url_of(LlmBackendKind::Ollama)
        }),
{
    if llm.backend == LlmBackendKind::Ollama {
        llm.base_url.clone()
    } else {
        owned(LlmBackendKind::Ollama.default_base_url())
    }
}

/// A desktop notification.
pub struct Notice {
    pub title: String,
    pub body: String,
}

/// Sources currently known to be failing.
pub struct FailureTracker {
    pub capture: bool,
    pub email: bool,
    pub telegram: bool,
}

/// Which sources are failing.
pub struct Failing {
    pub capture: bool,
    pub email: bool,
    pub telegram: bool,
}

pub open spec fn sink_failing(f: Failing, kind: SinkKind) -> bool {
    match kind {
        SinkKind::Email => f.email,
        SinkKind::Telegram => f.telegram,
    }
}

pub open spec fn with_sink(f: Failing, kind: SinkKind, v: bool) -> Failing {
    match kind {
        SinkKind::Email => Failing { email: v, ..f },
        SinkKind::Telegram => Failing { telegram: v, ..f },
    }
}

/// One event's effect: the failing set afterwards, and whether a notice is
/// raised. A failure notifies only when its source was not already
/// failing; a success re-arms its source.
pub open spec fn notice_step(f: Failing, e: CoreEvent) -> (Failing, bool) {
    match e {
        CoreEvent::CaptureFailed { .. } => (Failing { capture: true, ..f }, !f.capture),
        CoreEvent::CaptureTaken(_) => (Failing { capture: false, ..f }, false),
        CoreEvent::DeliveryFailed { sink, .. } => (with_sink(f, sink, true), !sink_failing(f, sink)),
        CoreEvent::DeliverySucceeded { sink, .. } => (with_sink(f, sink, false), false),
        _ => (f, false),
    }
}

/// Notices raised along a run of events.
pub open spec fn notices(f: Failing, events: Seq<CoreEvent>) -> nat
    decreases events.len(),
{
    if events.len() == 0 {
        0
    } else {
        let (g, n) = notice_step(f, events[0]);
        (if n {
            1nat
        } else {
            0nat
        }) + notices(g, events.drop_first())
    }
}

/// The event reports a failed capture.
pub open spec fn is_capture_failure(e: CoreEvent) -> bool {
    e is CaptureFailed
}

/// Law: a failing source notifies once, not on every interval. Once capture
/// has failed, a run of further capture failures raises no notice at all;
/// after a successful capture, the next failure notifies again.
pub proof fn lemma_capture_failures_notify_once(f: Failing, events: Seq<CoreEvent>)
    requires
        forall|i: int| 0 <= i < events.len() ==> is_capture_failure(#[trigger] events[i]),
    ensures
        notices(Failing { capture: true, ..f }, events) == 0,
        events.len() > 0 ==> notices(Failing { capture: false, ..f }, events) == 1,
    decreases events.len(),
{
    if events.len() > 0 {
        assert(is_capture_failure(events[0]));
        assert forall|i: int| 0 <= i < events.drop_first().len() implies is_capture_failure(
            #[trigger] events.drop_first()[i],
        ) by {
            assert(events.drop_first()[i] == events[i + 1]);
        }
        lemma_capture_failures_notify_once(f, events.drop_first());
    }
}

/// Law: the same holds per delivery channel: once a sink has failed,
/// further failures of that sink raise no notice until it delivers again.
pub proof fn lemma_sink_failures_notify_once(f: Failing, kind: SinkKind, events: Seq<CoreEvent>)
    requires
        forall|i: int|
            0 <= i < events.len() ==> (#[trigger] events[i] matches CoreEvent::DeliveryFailed {
                sink,
                ..
            } && sink == kind),
    ensures
        notices(with_sink(f, kind, true), events) == 0,
        events.len() > 0 ==> notices(with_sink(f, kind, false), events) == 1,
    decreases events.len(),
{
    if events.len() > 0 {
        assert(events[0] matches CoreEvent::DeliveryFailed { sink, .. } && sink == kind);
        assert forall|i: int| 0 <= i < events.drop_first().len() implies (
        #[trigger] events.drop_first()[i] matches CoreEvent::DeliveryFailed { sink, .. } && sink
            == kind) by {
            assert(events.drop_first()[i] == events[i + 1]);
        }
        lemma_sink_failures_notify_once(f, kind, events.drop_first());
        assert(with_sink(with_sink(f, kind, true), kind, true) == with_sink(f, kind, true));
        assert(with_sink(with_sink(f, kind, false), kind, true) == with_sink(f, kind, true));
    }
}

/// Nothing failing, as at start-up.
pub open spec fn none_failing() -> Failing {
    Failing { capture: false, email: false, telegram: false }
}

/// The failing set after a run of events.
pub open spec fn failing_after(f: Failing, events: Seq<CoreEvent>) -> Failing
    decreases events.len(),
{
    if events.len() == 0 {
        f
    } else {
        notice_step(failing_after(f, events.drop_last()), events.last()).0
    }
}

/// Whether the event at `i` raises a notice, nothing failing at the start.
pub open spec fn notified_at(events: Seq<CoreEvent>, i: int) -> bool {
    notice_step(failing_after(none_failing(), events.take(i)), events[i]).1
}

pub open spec fn is_capture_taken(e: CoreEvent) -> bool {
    e is CaptureTaken
}

pub open spec fn is_sink_failure(e: CoreEvent, kind: SinkKind) -> bool {
    e matches CoreEvent::DeliveryFailed { sink, .. } && sink == kind
}

pub open spec fn is_sink_success(e: CoreEvent, kind: SinkKind) -> bool {
    e matches CoreEvent::DeliverySucceeded { sink, .. } && sink == kind
}

/// A capture failed after the last successful capture (or the start).
pub open spec fn capture_failed_since_recovery(events: Seq<CoreEvent>) -> bool {
    exists|j: int|
        0 <= j < events.len() && is_capture_failure(#[trigger] events[j]) && forall|k: int|
            j < k < events.len() ==> !is_capture_taken(#[trigger] events[k])
}

/// A delivery to `kind` failed after its last successful delivery (or the
/// start).
pub open spec fn sink_failed_since_recovery(events: Seq<CoreEvent>, kind: SinkKind) -> bool {
    exists|j: int|
        0 <= j < events.len() && is_sink_failure(#[trigger] events[j], kind) && forall|k: int|
            j < k < events.len() ==> !is_sink_success(#[trigger] events[k], kind)
}

proof fn lemma_failing_after_history(events: Seq<CoreEvent>)
    ensures
        failing_after(none_failing(), events).capture == capture_failed_since_recovery(events),
        forall|kind: SinkKind|
            #[trigger] sink_failing(failing_after(none_failing(), events), kind)
                == sink_failed_since_recovery(events, kind),
    decreases events.len(),
{
    if events.len() > 0 {
        let p = events.drop_last();
        let n = events.len() - 1;
        let e = events.last();
        lemma_failing_after_history(p);
        assert forall|k: int| 0 <= k < p.len() implies #[trigger] p[k] == events[k] by {}
        // capture
        if is_capture_failure(e) {
            assert(is_capture_failure(events[n]));
        } else if is_capture_taken(e) {
            if capture_failed_since_recovery(events) {
                let j = choose|j: int|
                    0 <= j < events.len() && is_capture_failure(#[trigger] events[j]) && forall|
                        k: int,
                    | j < k < events.len() ==> !is_capture_taken(#[trigger] events[k]);
                assert(j != n);
                assert(!is_capture_taken(events[n]));
            }
        } else {
            if capture_failed_since_recovery(p) {
                let j = choose|j: int|
                    0 <= j < p.len() && is_capture_failure(#[trigger] p[j]) && forall|k: int|
                        j < k < p.len() ==> !is_capture_taken(#[trigger] p[k]);
                assert(is_capture_failure(events[j]));
                assert forall|k: int| j < k < events.len() implies !is_capture_taken(
                    #[trigger] events[k],
                ) by {
                    if k < n {
                        assert(p[k] == events[k]);
                    }
                }
            }
            if capture_failed_since_recovery(events) {
                let j = choose|j: int|
                    0 <= j < events.len() && is_capture_failure(#[trigger] events[j]) && forall|
                        k: int,
                    | j < k < events.len() ==> !is_capture_taken(#[trigger] events[k]);
                assert(j != n);
                assert(is_capture_failure(p[j]));
                assert forall|k: int| j < k < p.len() implies !is_capture_taken(#[trigger] p[k]) by {
                    assert(p[k] == events[k]);
                }
            }
        }
        // sinks
        assert forall|kind: SinkKind|
            #[trigger] sink_failing(failing_after(none_failing(), events), kind)
                == sink_failed_since_recovery(events, kind) by {
            assert(sink_failing(failing_after(none_failing(), p), kind)
                == sink_failed_since_recovery(p, kind));
            if is_sink_failure(e, kind) {
                assert(is_sink_failure(events[n], kind));
            } else if is_sink_success(e, kind) {
                if sink_failed_since_recovery(events, kind) {
                    let j = choose|j: int|
                        0 <= j < events.len() && is_sink_failure(#[trigger] events[j], kind)
                            && forall|k: int|
                            j < k < events.len() ==> !is_sink_success(#[trigger] events[k], kind);
                    assert(j != n);
                    assert(!is_sink_success(events[n], kind));
                }
            } else {
                if sink_failed_since_recovery(p, kind) {
                    let j = choose|j: int|
                        0 <= j < p.len() && is_sink_failure(#[trigger] p[j], kind) && forall|
                            k: int,
                        | j < k < p.len() ==> !is_sink_success(#[trigger] p[k], kind);
                    assert(is_sink_failure(events[j], kind));
                    assert forall|k: int| j < k < events.len() implies !is_sink_success(
                        #[trigger] events[k],
                        kind,
                    ) by {
                        if k < n {
                            assert(p[k] == events[k]);
                        }
                    }
                }
                if sink_failed_since_recovery(events, kind) {
                    let j = choose|j: int|
                        0 <= j < events.len() && is_sink_failure(#[trigger] events[j], kind)
                            && forall|k: int|
                            j < k < events.len() ==> !is_sink_success(#[trigger] events[k], kind);
                    assert(j != n);
                    assert(is_sink_failure(p[j], kind));
                    assert forall|k: int| j < k < p.len() implies !is_sink_success(
                        #[trigger] p[k],
                        kind,
                    ) by {
                        assert(p[k] == events[k]);
                    }
                }
            }
        }
    }
}

/// Law: starting with nothing failing, a capture failure raises a notice
/// exactly when no capture failure came since the last successful capture
/// (or the start); a delivery failure raises one exactly when that sink has
/// not failed since its last successful delivery; no other event raises a
/// notice.
pub proof fn lemma_notices_follow_history(events: Seq<CoreEvent>, i: int)
    requires
        0 <= i < events.len(),
    ensures
        is_capture_failure(events[i]) ==> (notified_at(events, i)
            <==> !capture_failed_since_recovery(events.take(i))),
        events[i] matches CoreEvent::DeliveryFailed { sink, .. } ==> (notified_at(events, i)
            <==> !sink_failed_since_recovery(events.take(i), sink)),
        !(events[i] is CaptureFailed) && !(events[i] is DeliveryFailed) ==> !notified_at(events, i),
{
    lemma_failing_after_history(events.take(i));
    match events[i] {
        CoreEvent::DeliveryFailed { sink, .. } => {
            assert(sink_failing(failing_after(none_failing(), events.take(i)), sink)
                == sink_failed_since_recovery(events.take(i), sink));
        },
        _ => {},
    }
}

impl FailureTracker {
    pub open spec fn view(&self) -> Failing {
        Failing { capture: self.capture, email: self.email, telegram: self.telegram }
    }

    pub fn new() -> (r: FailureTracker)
        ensures
            !r.capture && !r.email && !r.telegram,
    {
        FailureTracker { capture: false, email: false, telegram: false }
    }

    /// Notifications fire only when a source enters a failing state and
    /// re-arm once it recovers.
    pub fn on_event(&mut self, event: &CoreEvent) -> (r: Option<Notice>)
        ensures
            final(self).view() == notice_step(old(self).view(), *event).0,
            r is Some == notice_step(old(self).view(), *event).1,
            r matches Some(n) ==> match *event {
                CoreEvent::CaptureFailed { message } => n.title@
                    == "Screeny can't capture the screen"@ && n.body@ == message@,
                CoreEvent::DeliveryFailed { sink, message } => n.title@ == "Screeny "@ + sink_name(
                    sink,
                ) + " delivery failed"@ && n.body@ == message@ + " — captures are kept locally."@,
                _ => false,
            },
    {
        match event {
            CoreEvent::CaptureFailed { message } => {
                if !self.capture {
                    self.capture = true;
                    Some(Notice { title: owned("Screeny can't capture the screen"), body: message.clone() })
                } else {
                    None
                }
            },
            CoreEvent::CaptureTaken(_) => {
                self.capture = false;
                None
            },
            CoreEvent::DeliveryFailed { sink, message } => {
                let was = match sink {
                    SinkKind::Email => self.email,
                    SinkKind::Telegram => self.telegram,
                };
                match sink {
                    SinkKind::Email => self.email = true,
                    SinkKind::Telegram => self.telegram = true,
                }
                if was {
                    None
                } else {
                    let mut title = owned("Screeny ");
                    push_str(&mut title, sink.as_str());
                    push_str(&mut title, " delivery failed");
                    let mut body = message.clone();
                    push_str(&mut body, " — captures are kept locally.");
                    Some(Notice { title, body })
                }
            },
            CoreEvent::DeliverySucceeded { sink, .. } => {
                match sink {
                    SinkKind::Email => self.email = false,
                    SinkKind::Telegram => self.telegram = false,
                }
                None
            },
            _ => None,
        }
    }
}

} // verus!
