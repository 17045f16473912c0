//! The capture engine's decisions: run state, the capture schedule, per-sink
//! delivery batching, the retry policy, and retention. The engine that owns
//! the channels and timers performs what these decide.

use vstd::prelude::*;

use crate::config::Config;
use crate::error::{error_text, CoreError};
use crate::sinks::SinkKind;
use crate::store::CaptureRow;

verus! {

#[derive(Debug, Clone, Copy, PartialEq, Eq, Structural)]
pub enum RunState {
    Running,
    Paused,
}

#[derive(Debug, Clone)]
pub enum CoreEvent {
    CaptureTaken(CaptureRow),
    CaptureFailed { message: String },
    StateChanged { state: RunState },
    ConfigChanged(Config),
    DeliverySucceeded { sink: SinkKind, count: usize },
    DeliveryFailed { sink: SinkKind, message: String },
}

/// The state the engine starts in: running when the config says to start
/// capturing on launch, paused otherwise.
pub fn initial_state(config: &Config) -> (r: RunState)
    ensures
        r == (if config.capture.start_on_launch {
            RunState::Running
        } else {
            RunState::Paused
        }),
{
    if config.capture.start_on_launch {
        RunState::Running
    } else {
        RunState::Paused
    }
}

pub open spec fn flipped(s: RunState) -> RunState {
    match s {
        RunState::Running => RunState::Paused,
        RunState::Paused => RunState::Running,
    }
}

impl RunState {
    /// The state a toggle moves to.
    pub fn toggled(self) -> (r: RunState)
        ensures
            r == flipped(self),
    {
        match self {
            RunState::Running => RunState::Paused,
            RunState::Paused => RunState::Running,
        }
    }
}

/// Law: toggling twice returns to the state one started from, and a toggle
/// always changes the state.
pub proof fn lemma_toggle_twice(s: RunState)
    ensures
        flipped(flipped(s)) == s,
        flipped(s) != s,
{
}

/// The event a state request causes: `StateChanged` when the requested
/// state differs from the current one, nothing otherwise.
pub fn state_change(current: RunState, requested: RunState) -> (r: Option<CoreEvent>)
    ensures
        current == requested ==> r is None,
        current != requested ==> (r matches Some(CoreEvent::StateChanged { state }) && state
            == requested),
{
    if current != requested {
        Some(CoreEvent::StateChanged { state: requested })
    } else {
        None
    }
}

/// The event a finished capture attempt causes.
pub fn capture_event(result: Result<CaptureRow, CoreError>) -> (r: CoreEvent)
    ensures
        result matches Ok(row) ==> r == CoreEvent::CaptureTaken(row),
        result matches Err(e) ==> (r matches CoreEvent::CaptureFailed { message } && message@
            == error_text(e)),
{
    match result {
        Ok(row) => CoreEvent::CaptureTaken(row),
        Err(e) => CoreEvent::CaptureFailed { message: e.message() },
    }
}

/// What wakes the capture loop. Times are whole seconds since the engine
/// started.
#[derive(Debug, Clone, Copy, PartialEq, Eq, Structural)]
pub enum LoopEvent {
    /// The timer fired at this time.
    Tick(u64),
    /// The configuration changed at time `now`; it now asks for this
    /// interval.
    IntervalConfigured { secs: u64, now: u64 },
    /// Someone asked for a capture right now.
    CaptureRequested,
}

/// What the capture loop does about it.
#[derive(Debug, Clone, Copy, PartialEq, Eq, Structural)]
pub enum LoopAction {
    Capture,
    /// The timer restarted with this many seconds.
    ResetTimer(u64),
    Idle,
}

/// `a + b`, or `u64::MAX` when that does not fit.
pub open spec fn saturating_sum(a: int, b: int) -> u64 {
    if a + b > u64::MAX {
        u64::MAX
    } else {
        (a + b) as u64
    }
}

/// The first time after `now` on the grid that starts at `due` and steps by
/// `interval`: ticks missed while busy are skipped, and the schedule does not
/// drift.
pub open spec fn next_on_grid(due: u64, now: u64, interval: u64) -> u64 {
    saturating_sum(due as int, interval * ((now - due) / (interval as int) + 1))
}

/// One decision of the capture timer, over (interval, next due time):
/// - a tick before the due time does nothing;
/// - a due tick captures only while running, and the next due time is the
///   next grid point after it;
/// - an explicit request captures whatever the state;
/// - a new interval restarts the timer, the next capture one interval later.
pub open spec fn schedule_step(s: (u64, u64), event: LoopEvent, state: RunState) -> (
    (u64, u64),
    LoopAction,
) {
    match event {
        LoopEvent::Tick(now) => if now < s.1 {
            (s, LoopAction::Idle)
        } else {
            (
                (s.0, next_on_grid(s.1, now, s.0)),
                if state == RunState::Running {
                    LoopAction::Capture
                } else {
                    LoopAction::Idle
                },
            )
        },
        LoopEvent::CaptureRequested => (s, LoopAction::Capture),
        LoopEvent::IntervalConfigured { secs, now } => if secs != s.0 {
            ((secs, saturating_sum(now as int, secs as int)), LoopAction::ResetTimer(secs))
        } else {
            (s, LoopAction::Idle)
        },
    }
}

/// A run of timer decisions: the final (interval, next due time) and the
/// action taken for each event.
pub open spec fn schedule_run(s: (u64, u64), events: Seq<(LoopEvent, RunState)>) -> (
    (u64, u64),
    Seq<LoopAction>,
)
    decreases events.len(),
{
    if events.len() == 0 {
        (s, Seq::empty())
    } else {
        let (t, actions) = schedule_run(s, events.drop_last());
        let (u, a) = schedule_step(t, events.last().0, events.last().1);
        (u, actions.push(a))
    }
}

/// The capture loop's timer: its interval, and when the next scheduled
/// capture is due.
pub struct Scheduler {
    interval_secs: u64,
    next_due: u64,
}

impl Scheduler {
    #[verifier::type_invariant]
    spec fn wf(self) -> bool {
        self.interval_secs > 0
    }

    /// (interval, next due time).
    pub closed spec fn view(&self) -> (u64, u64) {
        (self.interval_secs, self.next_due)
    }

    /// The timer at engine start: the first scheduled capture comes one full
    /// interval later.
    pub fn new(config: &Config) -> (r: Scheduler)
        requires
            config.capture.interval_seconds > 0,
        ensures
            r@ == (config.capture.interval_seconds, config.capture.interval_seconds),
    {
        Scheduler {
            interval_secs: config.capture.interval_seconds,
            next_due: config.capture.interval_seconds,
        }
    }

    pub fn interval_secs(&self) -> (n: u64)
        ensures
            n == self@.0,
            n > 0,
    {
        proof {
            use_type_invariant(self);
        }
        self.interval_secs
    }

    /// When the next scheduled capture is due.
    pub fn next_due(&self) -> (t: u64)
        ensures
            t == self@.1,
    {
        self.next_due
    }

    /// Decides what an event makes the loop do, as `schedule_step` says.
    pub fn on_event(&mut self, event: LoopEvent, state: RunState) -> (a: LoopAction)
        requires
            event matches LoopEvent::IntervalConfigured { secs, .. } ==> secs > 0,
        ensures
            (final(self)@, a) == schedule_step(old(self)@, event, state),
    {
        proof {
            use_type_invariant(&*self);
        }
        match event {
            LoopEvent::Tick(now) => {
                if now < self.next_due {
                    return LoopAction::Idle;
                }
                let i = self.interval_secs;
                let due = self.next_due;
                let q = (now - due) / i;
                proof {
                    assert(i * (q + 1) == i * q + i) by (nonlinear_arith);
                    assert(i * q >= 0) by (nonlinear_arith)
                        requires
                            i > 0,
                            q >= 0,
                    ;
                }
                let next = match i.checked_mul(q) {
                    Some(iq) => match iq.checked_add(i) {
                        Some(step) => match due.checked_add(step) {
                            Some(v) => v,
                            None => u64::MAX,
                        },
                        None => u64::MAX,
                    },
                    None => u64::MAX,
                };
                self.next_due = next;
                if state == RunState::Running {
                    LoopAction::Capture
                } else {
                    LoopAction::Idle
                }
            },
            LoopEvent::CaptureRequested => LoopAction::Capture,
            LoopEvent::IntervalConfigured { secs, now } => {
                if secs != self.interval_secs {
                    self.interval_secs = secs;
                    self.next_due = match now.checked_add(secs) {
                        Some(v) => v,
                        None => u64::MAX,
                    };
                    LoopAction::ResetTimer(secs)
                } else {
                    LoopAction::Idle
                }
            },
        }
    }
}

/// Every interval a run asks for is positive.
pub open spec fn positive_intervals(events: Seq<(LoopEvent, RunState)>) -> bool {
    forall|j: int|
        0 <= j < events.len() ==> ((#[trigger] events[j]).0 matches LoopEvent::IntervalConfigured {
            secs,
            ..
        } ==> secs > 0)
}

/// When the timer last (re)started and with which interval, over a run from
/// a timer started at time 0 with interval `interval`: the start itself, or
/// the last event that changed the interval.
pub open spec fn last_restart(interval: u64, events: Seq<(LoopEvent, RunState)>) -> (u64, u64)
    decreases events.len(),
{
    if events.len() == 0 {
        (0, interval)
    } else {
        let before = schedule_run((interval, interval), events.drop_last()).0;
        match events.last().0 {
            LoopEvent::IntervalConfigured { secs, now } => if secs != before.0 {
                (now, secs)
            } else {
                last_restart(interval, events.drop_last())
            },
            _ => last_restart(interval, events.drop_last()),
        }
    }
}

proof fn lemma_schedule_run_state(interval: u64, events: Seq<(LoopEvent, RunState)>)
    requires
        interval > 0,
        positive_intervals(events),
    ensures
        schedule_run((interval, interval), events).0.0 == last_restart(interval, events).1,
        schedule_run((interval, interval), events).0.0 > 0,
        schedule_run((interval, interval), events).0.1 >= saturating_sum(
            last_restart(interval, events).0 as int,
            last_restart(interval, events).1 as int,
        ),
        schedule_run((interval, interval), events).1.len() == events.len(),
    decreases events.len(),
{
    if events.len() > 0 {
        let p = events.drop_last();
        assert forall|j: int| 0 <= j < p.len() implies ((#[trigger] p[j]).0 matches LoopEvent::IntervalConfigured {
            secs,
            ..
        } ==> secs > 0) by {
            assert(p[j] == events[j]);
        }
        lemma_schedule_run_state(interval, p);
        let t = schedule_run((interval, interval), p).0;
        assert(events[events.len() - 1] == events.last());
        match events.last().0 {
            LoopEvent::Tick(now) => {
                if now >= t.1 {
                    let q = (now - t.1) / (t.0 as int);
                    assert(q >= 0);
                    assert(t.0 * (q + 1) >= 0) by (nonlinear_arith)
                        requires
                            t.0 > 0,
                            q >= 0,
                    ;
                }
            },
            _ => {},
        }
    }
}

proof fn lemma_schedule_run_len(s: (u64, u64), events: Seq<(LoopEvent, RunState)>)
    ensures
        schedule_run(s, events).1.len() == events.len(),
    decreases events.len(),
{
    if events.len() > 0 {
        lemma_schedule_run_len(s, events.drop_last());
    }
}

proof fn lemma_schedule_run_at(
    s: (u64, u64),
    events: Seq<(LoopEvent, RunState)>,
    k: int,
)
    requires
        0 <= k < events.len(),
    ensures
        schedule_run(s, events).1.len() == events.len(),
        schedule_run(s, events).1[k] == schedule_step(
            schedule_run(s, events.take(k)).0,
            events[k].0,
            events[k].1,
        ).1,
    decreases events.len(),
{
    lemma_schedule_run_len(s, events);
    let p = events.drop_last();
    lemma_schedule_run_len(s, p);
    if k < events.len() - 1 {
        lemma_schedule_run_at(s, p, k);
        assert(p.take(k) == events.take(k));
        assert(p[k] == events[k]);
    } else {
        assert(p == events.take(k));
    }
}

/// Law: on a timer started at time 0 with interval `interval`, over any run
/// of events (the intervals asked for being positive), an explicit request
/// always captures; a tick while paused never captures; and a tick captures
/// only while running and no earlier than one full interval after the timer
/// last (re)started, which, until the interval is first changed, is one
/// interval after the engine started.
pub proof fn lemma_scheduled_captures_wait(
    interval: u64,
    events: Seq<(LoopEvent, RunState)>,
    k: int,
)
    requires
        interval > 0,
        0 <= k < events.len(),
        positive_intervals(events),
    ensures
        events[k].0 is CaptureRequested ==> schedule_run((interval, interval), events).1[k]
            == LoopAction::Capture,
        events[k].0 is Tick && events[k].1 == RunState::Paused ==> schedule_run(
            (interval, interval),
            events,
        ).1[k] != LoopAction::Capture,
        events[k].0 is Tick && schedule_run((interval, interval), events).1[k]
            == LoopAction::Capture ==> events[k].1 == RunState::Running && events[k].0->0
            >= saturating_sum(
            last_restart(interval, events.take(k)).0 as int,
            last_restart(interval, events.take(k)).1 as int,
        ),
        (forall|j: int| 0 <= j < k ==> !((#[trigger] events[j]).0 is IntervalConfigured))
            ==> last_restart(interval, events.take(k)) == (0u64, interval),
{
    lemma_schedule_run_at((interval, interval), events, k);
    let p = events.take(k);
    assert forall|j: int| 0 <= j < p.len() implies ((#[trigger] p[j]).0 matches LoopEvent::IntervalConfigured {
        secs,
        ..
    } ==> secs > 0) by {
        assert(p[j] == events[j]);
    }
    lemma_schedule_run_state(interval, p);
    if forall|j: int| 0 <= j < k ==> !((#[trigger] events[j]).0 is IntervalConfigured) {
        lemma_no_restart(interval, events, k);
    }
}

proof fn lemma_no_restart(interval: u64, events: Seq<(LoopEvent, RunState)>, k: int)
    requires
        0 <= k <= events.len(),
        forall|j: int| 0 <= j < k ==> !((#[trigger] events[j]).0 is IntervalConfigured),
    ensures
        last_restart(interval, events.take(k)) == (0u64, interval),
    decreases k,
{
    if k > 0 {
        lemma_no_restart(interval, events, k - 1);
        let p = events.take(k);
        assert(p.drop_last() == events.take(k - 1));
        assert(p.last() == events[k - 1]);
    }
}

/// One enqueue on a sink's queue: the item joins the queue; once the queue
/// holds at least a batch, all of it leaves as one batch.
pub open spec fn enqueue_step<T>(queue: Seq<T>, batch_size: nat, item: T) -> (
    Option<Seq<T>>,
    Seq<T>,
) {
    let q = queue.push(item);
    if q.len() >= batch_size {
        (Some(q), Seq::empty())
    } else {
        (None, q)
    }
}

/// Per-sink queues of captures waiting to be delivered.
pub struct DeliveryQueues<T> {
    email: Vec<T>,
    telegram: Vec<T>,
}

impl<T> DeliveryQueues<T> {
    /// Items waiting for the given sink, oldest first.
    pub closed spec fn pending(&self, kind: SinkKind) -> Seq<T> {
        match kind {
            SinkKind::Email => self.email@,
            SinkKind::Telegram => self.telegram@,
        }
    }

    pub fn new() -> (r: Self)
        ensures
            forall|k: SinkKind| #[trigger] r.pending(k) == Seq::<T>::empty(),
    {
        DeliveryQueues { email: Vec::new(), telegram: Vec::new() }
    }

    /// Number of items waiting for a sink.
    pub fn pending_len(&self, kind: SinkKind) -> (n: usize)
        ensures
            n == self.pending(kind).len(),
    {
        match kind {
            SinkKind::Email => self.email.len(),
            SinkKind::Telegram => self.telegram.len(),
        }
    }

    /// Adds an item to a sink's queue and hands back a batch once the queue
    /// holds `batch_size` items (or more, when the size was lowered since).
    /// Other sinks' queues are untouched.
    pub fn enqueue(&mut self, kind: SinkKind, batch_size: usize, item: T) -> (batch: Option<
        Vec<T>,
    >)
        ensures
            ({
                let (b, q) = enqueue_step(old(self).pending(kind), batch_size as nat, item);
                &&& final(self).pending(kind) == q
                &&& match batch {
                    Some(v) => b == Some(v@),
                    None => b is None,
                }
            }),
            forall|k: SinkKind| k != kind ==> #[trigger] final(self).pending(k) == old(self).pending(k),
    {
        let queue = match kind {
            SinkKind::Email => &mut self.email,
            SinkKind::Telegram => &mut self.telegram,
        };
        queue.push(item);
        if queue.len() >= batch_size {
            let mut batch = Vec::new();
            std::mem::swap(&mut batch, queue);
            Some(batch)
        } else {
            None
        }
    }
}

/// Everything that left a queue over a run of enqueues, concatenated.
pub open spec fn flatten<T>(batches: Seq<Seq<T>>) -> Seq<T>
    decreases batches.len(),
{
    if batches.len() == 0 {
        Seq::empty()
    } else {
        flatten(batches.drop_last()) + batches.last()
    }
}

/// A run of enqueues on one sink's queue: the batches that leave, and what
/// stays queued at the end.
pub open spec fn enqueue_run<T>(queue: Seq<T>, sizes: Seq<nat>, items: Seq<T>) -> (
    Seq<Seq<T>>,
    Seq<T>,
)
    recommends
        sizes.len() == items.len(),
    decreases items.len(),
{
    if items.len() == 0 || sizes.len() == 0 {
        (Seq::empty(), queue)
    } else {
        let (batches, q) = enqueue_run(queue, sizes.drop_last(), items.drop_last());
        let (b, q2) = enqueue_step(q, sizes.last(), items.last());
        match b {
            Some(batch) => (batches.push(batch), q2),
            None => (batches, q2),
        }
    }
}

/// Law: batching loses, duplicates and reorders nothing. Over any run of
/// enqueues on a sink, the batches delivered followed by what is still
/// queued are exactly what was queued at the start followed by the items
/// enqueued, in order; and what stays queued is empty or shorter than the
/// last batch size asked for (a sink with batch size 1 keeps nothing queued).
pub proof fn lemma_batching_preserves_order<T>(queue: Seq<T>, sizes: Seq<nat>, items: Seq<T>)
    requires
        sizes.len() == items.len(),
    ensures
        flatten(enqueue_run(queue, sizes, items).0) + enqueue_run(queue, sizes, items).1 == queue
            + items,
        items.len() > 0 ==> enqueue_run(queue, sizes, items).1.len() < sizes.last() || enqueue_run(
            queue,
            sizes,
            items,
        ).1.len() == 0,
    decreases items.len(),
{
    if items.len() > 0 {
        lemma_batching_preserves_order(queue, sizes.drop_last(), items.drop_last());
        let (batches, q) = enqueue_run(queue, sizes.drop_last(), items.drop_last());
        assert(flatten(batches) + q == queue + items.drop_last());
        let (b, q2) = enqueue_step(q, sizes.last(), items.last());
        assert(queue + items == (queue + items.drop_last()).push(items.last()));
        match b {
            Some(batch) => {
                assert(flatten(batches.push(batch)) == flatten(batches) + batch) by {
                    assert(batches.push(batch).drop_last() == batches);
                }
                assert(flatten(batches.push(batch)) + q2 == flatten(batches.push(batch)));
            },
            None => {},
        }
    }
}

/// Attempts made on a batch before giving up on it.
pub const DELIVERY_ATTEMPTS: u32 = 2;

/// Seconds to wait between two attempts on a batch.
pub const DELIVERY_RETRY_DELAY_SECS: u64 = 2;

/// What to do after one delivery attempt.
#[derive(Debug, Clone, PartialEq)]
pub enum DeliveryDecision {
    /// The batch went out: record it as sent.
    Delivered,
    /// Wait, then try the same batch again.
    RetryAfter(u64),
    /// Give up on the batch, keep capturing: record it as failed with the
    /// last error.
    GiveUp(String),
}

/// Attempts made on the batch being delivered.
pub struct DeliveryRetry {
    pub attempts: u32,
}

impl DeliveryRetry {
    pub fn new() -> (r: DeliveryRetry)
        ensures
            r.attempts == 0,
    {
        DeliveryRetry { attempts: 0 }
    }

    /// Decides after an attempt: a success is recorded as delivered; a
    /// failure is retried after a delay until the attempts run out, and the
    /// last failure is what the batch is recorded with.
    pub fn after_attempt(&mut self, outcome: Result<(), String>) -> (d: DeliveryDecision)
        requires
            old(self).attempts < DELIVERY_ATTEMPTS,
        ensures
            final(self).attempts == old(self).attempts + 1,
            outcome is Ok ==> d == DeliveryDecision::Delivered,
            outcome matches Err(e) ==> if final(self).attempts < DELIVERY_ATTEMPTS {
                d == DeliveryDecision::RetryAfter(DELIVERY_RETRY_DELAY_SECS)
            } else {
                (d matches DeliveryDecision::GiveUp(m) && m@ == e@)
            },
    {
        self.attempts = self.attempts + 1;
        match outcome {
            Ok(()) => DeliveryDecision::Delivered,
            Err(e) => {
                if self.attempts < DELIVERY_ATTEMPTS {
                    DeliveryDecision::RetryAfter(DELIVERY_RETRY_DELAY_SECS)
                } else {
                    DeliveryDecision::GiveUp(e)
                }
            },
        }
    }
}

/// The event a finished batch causes.
pub fn delivery_event(sink: SinkKind, count: usize, decision: DeliveryDecision) -> (r: Option<
    CoreEvent,
>)
    ensures
        decision == DeliveryDecision::Delivered ==> r == Some(
            CoreEvent::DeliverySucceeded { sink, count },
        ),
        decision matches DeliveryDecision::GiveUp(m) ==> r == Some(
            CoreEvent::DeliveryFailed { sink, message: m },
        ),
        decision is RetryAfter ==> r is None,
{
    match decision {
        DeliveryDecision::Delivered => Some(CoreEvent::DeliverySucceeded { sink, count }),
        DeliveryDecision::GiveUp(m) => Some(CoreEvent::DeliveryFailed { sink, message: m }),
        DeliveryDecision::RetryAfter(_) => None,
    }
}

/// Seconds in a day.
pub const SECS_PER_DAY: i64 = 86400;

/// The retention cutoff, in Unix seconds: captures taken before it are
/// pruned. No cutoff when captures are kept forever.
pub fn retention_cutoff(now_secs: i64, retention_days: Option<u32>) -> (r: Option<i64>)
    requires
        retention_days matches Some(d) ==> now_secs - SECS_PER_DAY * d >= i64::MIN,
    ensures
        retention_days is None ==> r is None,
        retention_days matches Some(d) ==> r == Some((now_secs - SECS_PER_DAY * d) as i64),
{
    match retention_days {
        None => None,
        Some(days) => Some(now_secs - SECS_PER_DAY * (days as i64)),
    }
}

/// The sinks to deliver to: one per enabled channel.
pub fn default_sink_factory(config: &Config) -> (r: Vec<SinkKind>)
    ensures
        r@ == (if config.channels.email.enabled {
            seq![SinkKind::Email]
        } else {
            Seq::empty()
        }) + (if config.channels.telegram.enabled {
            seq![SinkKind::Telegram]
        } else {
            Seq::empty()
        }),
{
    let mut sinks: Vec<SinkKind> = Vec::new();
    if config.channels.email.enabled {
        sinks.push(SinkKind::Email);
    }
    if config.channels.telegram.enabled {
        sinks.push(SinkKind::Telegram);
    }
    sinks
}

} // verus!
