use vstd::prelude::*;

use crate::cursor::{
    cursor_view_wf,    spec_advance, spec_next_range, spec_update_tip, Cursor, CursorStrategy, CursorView, RangeStep,
};
use crate::settings::IndexSettings;

verus! {

/// Failed attempts at one step after which a task gives up.
pub const MAX_ATTEMPTS: u32 = 5;

/// Delay before the first retry.
pub const BASE_BACKOFF_MS: u64 = 500;

/// Longest delay between two retries.
pub const MAX_BACKOFF_MS: u64 = 30000;

/// Delay before asking again once a cursor has reached its tip.
pub const IDLE_POLL_MS: u64 = 5000;

/// The three event streams indexed on every chain.
#[derive(Clone, Copy, Debug, PartialEq, Eq, Structural)]
pub enum EventKind {
    Dispatch,
    Delivery,
    GasPayment,
}

pub open spec fn spec_strategy_for(kind: EventKind) -> CursorStrategy {
    match kind {
        EventKind::Dispatch => CursorStrategy::Forward,
        _ => CursorStrategy::RateLimited,
    }
}

pub open spec fn spec_label(kind: EventKind) -> Seq<char> {
    match kind {
        EventKind::Dispatch => "message_dispatch"@,
        EventKind::Delivery => "message_delivery"@,
        EventKind::GasPayment => "gas_payment"@,
    }
}

impl EventKind {
    /// Dispatch drives downstream progress and goes strictly forward; the other
    /// two streams may lag and are paced.
    pub fn strategy(&self) -> (r: CursorStrategy)
        ensures
            r == spec_strategy_for(*self),
    {
        match self {
            EventKind::Dispatch => CursorStrategy::Forward,
            _ => CursorStrategy::RateLimited,
        }
    }

    /// The name under which the stream is traced.
    pub fn label(&self) -> (r: &'static str)
        ensures
            r@ == spec_label(*self),
    {
        match self {
            EventKind::Dispatch => "message_dispatch",
            EventKind::Delivery => "message_delivery",
            EventKind::GasPayment => "gas_payment",
        }
    }
}

/// Why a task stopped.
#[derive(Clone, Copy, Debug, PartialEq, Eq, Structural)]
pub enum SyncError {
    /// The chain provider kept failing past the attempt budget.
    Provider,
    /// An event could not be decoded.
    Decode,
    /// The store kept failing, or failed permanently.
    Store,
}

/// What the runtime reports back to a task.
#[derive(Clone, Copy, Debug, PartialEq, Eq, Structural)]
pub enum SyncEvent {
    /// The task may work: current time and chain tip.
    Tick { now: u64, tip: u64 },
    /// The requested range was fetched and decoded into `count` records.
    Fetched { count: u64 },
    FetchFailed,
    DecodeFailed,
    /// The batch was written to the store at time `now`.
    Stored { now: u64 },
    StoreFailed { transient: bool },
}

/// What the runtime must do next for a task.
#[derive(Clone, Copy, Debug, PartialEq, Eq, Structural)]
pub enum SyncAction {
    /// After `delay_ms`, fetch and decode the events of `[from, to)`.
    Fetch { from: u64, to: u64, delay_ms: u64 },
    /// After `delay_ms`, upsert the decoded batch of `[from, to)`.
    Upsert { from: u64, to: u64, count: u64, delay_ms: u64 },
    /// Persist the cursor at `to`, then record `count` and `lag`.
    Commit { to: u64, count: u64, lag: u64 },
    /// Tick again no earlier than `until`.
    Sleep { until: u64 },
    /// The task is over.
    Terminate(SyncError),
    /// The event did not fit the task's phase; nothing changed.
    Ignore,
}

#[derive(Clone, Copy, Debug, PartialEq, Eq, Structural)]
pub enum Phase {
    Ready,
    Fetching { from: u64, to: u64 },
    Storing { from: u64, to: u64, count: u64 },
    Failed(SyncError),
}

/// The decisions of one `(chain, event kind)` stream.
pub struct SyncTask {
    chain_id: u32,
    kind: EventKind,
    cursor: Cursor,
    phase: Phase,
    failures: u32,
}

pub struct SyncTaskView {
    pub chain_id: u32,
    pub kind: EventKind,
    pub cursor: CursorView,
    pub phase: Phase,
    pub failures: nat,
}

impl View for SyncTask {
    type V = SyncTaskView;

    closed spec fn view(&self) -> SyncTaskView {
        SyncTaskView {
            chain_id: self.chain_id,
            kind: self.kind,
            cursor: self.cursor@,
            phase: self.phase,
            failures: self.failures as nat,
        }
    }
}

/// Bounded exponential backoff: the delay before retry number `failures`.
pub open spec fn backoff_delay(failures: nat) -> nat
    decreases failures,
{
    if failures <= 1 {
        BASE_BACKOFF_MS as nat
    } else {
        let d = 2 * backoff_delay((failures - 1) as nat);
        if d <= MAX_BACKOFF_MS {
            d
        } else {
            MAX_BACKOFF_MS as nat
        }
    }
}

pub open spec fn saturating_sum(a: nat, b: nat) -> nat {
    if a + b <= u64::MAX {
        a + b
    } else {
        u64::MAX as nat
    }
}

pub open spec fn task_wf(t: SyncTaskView) -> bool {
    &&& cursor_view_wf(t.cursor)
    &&& match t.phase {
        Phase::Fetching { from, to } => from == t.cursor.position && from < to <= t.cursor.tip
            && t.failures < MAX_ATTEMPTS,
        Phase::Storing { from, to, count } => from == t.cursor.position && from < to
            <= t.cursor.tip && t.failures < MAX_ATTEMPTS,
        Phase::Ready => t.failures == 0,
        Phase::Failed(_) => true,
    }
}

/// One transition: the state after `e`, and what the runtime must do.
pub open spec fn spec_step(t: SyncTaskView, e: SyncEvent) -> (SyncTaskView, SyncAction) {
    match t.phase {
        Phase::Failed(err) => (t, SyncAction::Terminate(err)),
        Phase::Ready => match e {
            SyncEvent::Tick { now, tip } => {
                let c = spec_update_tip(t.cursor, tip as nat);
                match spec_next_range(c, now as nat) {
                    RangeStep::Range(from, to) => (
                        SyncTaskView { cursor: c, phase: Phase::Fetching { from, to }, ..t },
                        SyncAction::Fetch { from, to, delay_ms: 0 },
                    ),
                    RangeStep::Wait(until) => (
                        SyncTaskView { cursor: c, ..t },
                        SyncAction::Sleep { until },
                    ),
                    RangeStep::Idle => (
                        SyncTaskView { cursor: c, ..t },
                        SyncAction::Sleep {
                            until: saturating_sum(now as nat, IDLE_POLL_MS as nat) as u64,
                        },
                    ),
                }
            },
            _ => (t, SyncAction::Ignore),
        },
        Phase::Fetching { from, to } => match e {
            SyncEvent::Fetched { count } => (
                SyncTaskView { phase: Phase::Storing { from, to, count }, failures: 0, ..t },
                SyncAction::Upsert { from, to, count, delay_ms: 0 },
            ),
            SyncEvent::FetchFailed => if t.failures + 1 >= MAX_ATTEMPTS {
                (
                    SyncTaskView {
                        phase: Phase::Failed(SyncError::Provider),
                        failures: t.failures + 1,
                        ..t
                    },
                    SyncAction::Terminate(SyncError::Provider),
                )
            } else {
                (
                    SyncTaskView { failures: t.failures + 1, ..t },
                    SyncAction::Fetch {
                        from,
                        to,
                        delay_ms: backoff_delay(t.failures + 1) as u64,
                    },
                )
            },
            SyncEvent::DecodeFailed => (
                SyncTaskView { phase: Phase::Failed(SyncError::Decode), ..t },
                SyncAction::Terminate(SyncError::Decode),
            ),
            _ => (t, SyncAction::Ignore),
        },
        Phase::Storing { from, to, count } => match e {
            SyncEvent::Stored { now } => (
                SyncTaskView {
                    cursor: spec_advance(t.cursor, to as nat, now as nat),
                    phase: Phase::Ready,
                    failures: 0,
                    ..t
                },
                SyncAction::Commit { to, count, lag: (t.cursor.tip - to) as u64 },
            ),
            SyncEvent::StoreFailed { transient } => if !transient || t.failures + 1
                >= MAX_ATTEMPTS {
                (
                    SyncTaskView {
                        phase: Phase::Failed(SyncError::Store),
                        failures: t.failures + 1,
                        ..t
                    },
                    SyncAction::Terminate(SyncError::Store),
                )
            } else {
                (
                    SyncTaskView { failures: t.failures + 1, ..t },
                    SyncAction::Upsert {
                        from,
                        to,
                        count,
                        delay_ms: backoff_delay(t.failures + 1) as u64,
                    },
                )
            },
            _ => (t, SyncAction::Ignore),
        },
    }
}

/// The delay before retry number `failures`.
pub fn backoff_ms(failures: u32) -> (r: u64)
    ensures
        r == backoff_delay(failures as nat),
        r <= MAX_BACKOFF_MS,
{
    let mut d: u64 = BASE_BACKOFF_MS;
    let mut i: u32 = 1;
    while i < failures
        invariant
            1 <= i,
            i <= failures || i == 1,
            d == backoff_delay(i as nat),
            d <= MAX_BACKOFF_MS,
        decreases failures - i,
    {
        if d <= MAX_BACKOFF_MS / 2 {
            d = 2 * d;
        } else {
            d = MAX_BACKOFF_MS;
        }
        i = i + 1;
    }
    proof {
        if failures <= 1 {
            assert(backoff_delay(failures as nat) == BASE_BACKOFF_MS);
        }
    }
    d
}

impl SyncTask {
    pub open spec fn wf(&self) -> bool {
        task_wf(self@)
    }

    /// A task for one stream, its cursor chosen by the event kind and resumed from
    /// the persisted position if there is one.
    pub fn new(chain_id: u32, kind: EventKind, settings: &IndexSettings, persisted: Option<u64>, tip: u64) -> (r: SyncTask)
        requires
            settings.wf(),
        ensures
            r.wf(),
            r@.chain_id == chain_id,
            r@.kind == kind,
            r@.phase == Phase::Ready,
            r@.cursor.strategy == spec_strategy_for(kind),
            r@.cursor.start == settings.from,
            r@.cursor.chunk == settings.chunk_size,
            r@.cursor.tip == tip,
            r@.cursor.position == match persisted {
                Some(p) => crate::cursor::resume_position(
                    spec_strategy_for(kind),
                    settings.from as nat,
                    p as nat,
                ),
                None => settings.from as nat,
            },
    {
        let cursor = Cursor::resume(kind.strategy(), settings, persisted, tip);
        SyncTask { chain_id, kind, cursor, phase: Phase::Ready, failures: 0 }
    }

    pub fn chain_id(&self) -> (r: u32)
        ensures
            r == self@.chain_id,
    {
        self.chain_id
    }

    pub fn kind(&self) -> (r: EventKind)
        ensures
            r == self@.kind,
    {
        self.kind
    }

    pub fn phase(&self) -> (r: Phase)
        ensures
            r == self@.phase,
    {
        self.phase
    }

    pub fn cursor(&self) -> (r: &Cursor)
        ensures
            r@ == self@.cursor,
    {
        &self.cursor
    }

    /// Whether the task has stopped for good.
    pub fn is_terminated(&self) -> (r: bool)
        ensures
            r == (self@.phase is Failed),
    {
        matches!(self.phase, Phase::Failed(_))
    }

    /// Takes one event and decides the next action.
    pub fn step(&mut self, e: SyncEvent) -> (a: SyncAction)
        requires
            old(self).wf(),
        ensures
            final(self).wf(),
            (final(self)@, a) == spec_step(old(self)@, e),
    {
        match self.phase {
            Phase::Failed(err) => SyncAction::Terminate(err),
            Phase::Ready => match e {
                SyncEvent::Tick { now, tip } => {
                    self.cursor.update_tip(tip);
                    match self.cursor.next_range(now) {
                        RangeStep::Range(from, to) => {
                            self.phase = Phase::Fetching { from, to };
                            SyncAction::Fetch { from, to, delay_ms: 0 }
                        },
                        RangeStep::Wait(until) => SyncAction::Sleep { until },
                        RangeStep::Idle => SyncAction::Sleep { until: now.saturating_add(IDLE_POLL_MS) },
                    }
                },
                _ => SyncAction::Ignore,
            },
            Phase::Fetching { from, to } => match e {
                SyncEvent::Fetched { count } => {
                    self.phase = Phase::Storing { from, to, count };
                    self.failures = 0;
                    SyncAction::Upsert { from, to, count, delay_ms: 0 }
                },
                SyncEvent::FetchFailed => {
                    self.failures = self.failures + 1;
                    if self.failures >= MAX_ATTEMPTS {
                        self.phase = Phase::Failed(SyncError::Provider);
                        SyncAction::Terminate(SyncError::Provider)
                    } else {
                        SyncAction::Fetch { from, to, delay_ms: backoff_ms(self.failures) }
                    }
                },
                SyncEvent::DecodeFailed => {
                    self.phase = Phase::Failed(SyncError::Decode);
                    SyncAction::Terminate(SyncError::Decode)
                },
                _ => SyncAction::Ignore,
            },
            Phase::Storing { from, to, count } => match e {
                SyncEvent::Stored { now } => {
                    let lag = self.cursor.tip() - to;
                    self.cursor.advance(to, now);
                    self.phase = Phase::Ready;
                    self.failures = 0;
                    SyncAction::Commit { to, count, lag }
                },
                SyncEvent::StoreFailed { transient } => {
                    self.failures = self.failures + 1;
                    if !transient || self.failures >= MAX_ATTEMPTS {
                        self.phase = Phase::Failed(SyncError::Store);
                        SyncAction::Terminate(SyncError::Store)
                    } else {
                        SyncAction::Upsert { from, to, count, delay_ms: backoff_ms(self.failures) }
                    }
                },
                _ => SyncAction::Ignore,
            },
        }
    }
}

/// The state after a sequence of events, each applied by `spec_step`.
pub open spec fn run_events(t: SyncTaskView, es: Seq<SyncEvent>) -> SyncTaskView
    decreases es.len(),
{
    if es.len() == 0 {
        t
    } else {
        run_events(spec_step(t, es[0]).0, es.drop_first())
    }
}

pub open spec fn fetch_failures(k: nat) -> Seq<SyncEvent> {
    Seq::new(k, |i: int| SyncEvent::FetchFailed)
}

/// A fetch that keeps failing is retried in place until the attempt budget is
/// spent, and then, not before, the task ends with a provider error.
pub proof fn lemma_fetch_retry_budget(t: SyncTaskView, k: nat)
    requires
        t.phase is Fetching,
        t.failures < MAX_ATTEMPTS,
        t.failures + k <= MAX_ATTEMPTS,
    ensures
        ({
            let r = run_events(t, fetch_failures(k));
            if t.failures + k < MAX_ATTEMPTS {
                r.phase == t.phase && r.failures == t.failures + k && r.cursor == t.cursor
            } else {
                r.phase == Phase::Failed(SyncError::Provider) && r.cursor == t.cursor
            }
        }),
    decreases k,
{
    let es = fetch_failures(k);
    if k > 0 {
        assert(es[0] == SyncEvent::FetchFailed);
        let t1 = spec_step(t, es[0]).0;
        assert(es.drop_first() == fetch_failures((k - 1) as nat));
        if t.failures + 1 < MAX_ATTEMPTS {
            lemma_fetch_retry_budget(t1, (k - 1) as nat);
        } else {
            assert(es.drop_first().len() == 0);
        }
    }
}

} // verus!
