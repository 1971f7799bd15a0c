use vstd::prelude::*;

use crate::settings::IndexSettings;

verus! {

/// Blocks re-read below a persisted position when a rate-limited cursor resumes,
/// to tolerate shallow reorganisations.
pub const REORG_OVERLAP: u64 = 10;

/// Distance to the tip within which a cursor counts as caught up.
pub const CAUGHT_UP_MARGIN: u64 = 5;

#[derive(Clone, Copy, Debug, PartialEq, Eq, Structural)]
pub enum CursorStrategy {
    /// Strictly forward, fixed-size batches, no pacing.
    Forward,
    /// Same ranges, with a minimum delay between batches.
    RateLimited,
}

#[derive(Clone, Copy, Debug, PartialEq, Eq, Structural)]
pub enum CursorMode {
    Backfilling,
    CaughtUp,
    Paused,
}

/// What a cursor asks for next.
#[derive(Clone, Copy, Debug, PartialEq, Eq, Structural)]
pub enum RangeStep {
    /// Index the half-open block range `[from, to)`.
    Range(u64, u64),
    /// Pacing: nothing may be requested before this time.
    Wait(u64),
    /// The cursor has reached its tip estimate.
    Idle,
}

/// Position tracker for one event stream.
pub struct Cursor {
    strategy: CursorStrategy,
    start: u64,
    position: u64,
    tip: u64,
    chunk: u64,
    interval_ms: u64,
    not_before_ms: u64,
}

pub struct CursorView {
    pub strategy: CursorStrategy,
    pub start: nat,
    pub position: nat,
    pub tip: nat,
    pub chunk: nat,
    pub interval: nat,
    pub not_before: nat,
}

impl View for Cursor {
    type V = CursorView;

    closed spec fn view(&self) -> CursorView {
        CursorView {
            strategy: self.strategy,
            start: self.start as nat,
            position: self.position as nat,
            tip: self.tip as nat,
            chunk: self.chunk as nat,
            interval: self.interval_ms as nat,
            not_before: self.not_before_ms as nat,
        }
    }
}

/// End of the batch that starts at `position`: one chunk, cut at the tip.
pub open spec fn range_end(position: nat, tip: nat, chunk: nat) -> nat {
    if position + chunk <= tip {
        position + chunk
    } else {
        tip
    }
}

/// The first `n` ranges a cursor at `position` yields when each batch is committed.
pub open spec fn range_seq(position: nat, tip: nat, chunk: nat, n: nat) -> Seq<(nat, nat)>
    decreases n,
{
    if n == 0 || position >= tip || chunk == 0 {
        seq![]
    } else {
        let end = range_end(position, tip, chunk);
        seq![(position, end)] + range_seq(end, tip, chunk, (n - 1) as nat)
    }
}

/// Where a cursor restarts from a persisted position.
pub open spec fn resume_position(strategy: CursorStrategy, start: nat, persisted: nat) -> nat {
    let back = match strategy {
        CursorStrategy::Forward => persisted,
        CursorStrategy::RateLimited => if persisted >= REORG_OVERLAP {
            (persisted - REORG_OVERLAP) as nat
        } else {
            0
        },
    };
    if back >= start {
        back
    } else {
        start
    }
}

pub open spec fn cursor_view_wf(v: CursorView) -> bool {
    &&& v.chunk > 0
    &&& v.start <= v.position
    &&& v.position <= u64::MAX
    &&& v.tip <= u64::MAX
    &&& v.not_before <= u64::MAX
}

pub open spec fn spec_next_range(v: CursorView, now: nat) -> RangeStep {
    if v.strategy == CursorStrategy::RateLimited && now < v.not_before {
        RangeStep::Wait(v.not_before as u64)
    } else if v.position < v.tip {
        RangeStep::Range(v.position as u64, range_end(v.position, v.tip, v.chunk) as u64)
    } else {
        RangeStep::Idle
    }
}

pub open spec fn spec_advance(v: CursorView, to: nat, now: nat) -> CursorView {
    CursorView {
        position: to,
        not_before: match v.strategy {
            CursorStrategy::Forward => v.not_before,
            CursorStrategy::RateLimited => if now + v.interval <= u64::MAX {
                now + v.interval
            } else {
                u64::MAX as nat
            },
        },
        ..v
    }
}

pub open spec fn spec_update_tip(v: CursorView, tip: nat) -> CursorView {
    CursorView {
        tip: if tip > v.tip {
            tip
        } else {
            v.tip
        },
        ..v
    }
}

pub open spec fn spec_mode(v: CursorView, now: nat) -> CursorMode {
    if v.strategy == CursorStrategy::RateLimited && now < v.not_before {
        CursorMode::Paused
    } else if v.position + CAUGHT_UP_MARGIN >= v.tip {
        CursorMode::CaughtUp
    } else {
        CursorMode::Backfilling
    }
}

impl Cursor {
    pub open spec fn wf(&self) -> bool {
        cursor_view_wf(self@)
    }

    /// A cursor of the given strategy, at the persisted position if there is one,
    /// else at the configured start.
    pub fn resume(strategy: CursorStrategy, settings: &IndexSettings, persisted: Option<u64>, tip: u64) -> (r: Cursor)
        requires
            settings.wf(),
        ensures
            r.wf(),
            r@.strategy == strategy,
            r@.start == settings.from,
            r@.chunk == settings.chunk_size,
            r@.interval == settings.min_interval_ms,
            r@.tip == tip,
            r@.not_before == 0,
            r@.position == match persisted {
                Some(p) => resume_position(strategy, settings.from as nat, p as nat),
                None => settings.from as nat,
            },
    {
        let position = match persisted {
            None => settings.from,
            Some(p) => {
                let back = match strategy {
                    CursorStrategy::Forward => p,
                    CursorStrategy::RateLimited => p.saturating_sub(REORG_OVERLAP),
                };
                if back >= settings.from {
                    back
                } else {
                    settings.from
                }
            },
        };
        Cursor {
            strategy,
            start: settings.from,
            position,
            tip,
            chunk: settings.chunk_size,
            interval_ms: settings.min_interval_ms,
            not_before_ms: 0,
        }
    }

    pub fn position(&self) -> (r: u64)
        ensures
            r == self@.position,
    {
        self.position
    }

    pub fn tip(&self) -> (r: u64)
        ensures
            r == self@.tip,
    {
        self.tip
    }

    pub fn strategy(&self) -> (r: CursorStrategy)
        ensures
            r == self@.strategy,
    {
        self.strategy
    }

    /// The next thing to do at time `now`.
    pub fn next_range(&self, now: u64) -> (r: RangeStep)
        requires
            self.wf(),
        ensures
            r == spec_next_range(self@, now as nat),
    {
        if self.strategy == CursorStrategy::RateLimited && now < self.not_before_ms {
            RangeStep::Wait(self.not_before_ms)
        } else if self.position < self.tip {
            let end = if self.chunk <= self.tip - self.position {
                self.position + self.chunk
            } else {
                self.tip
            };
            RangeStep::Range(self.position, end)
        } else {
            RangeStep::Idle
        }
    }

    /// Records that everything below `to` is durably written, at time `now`.
    pub fn advance(&mut self, to: u64, now: u64)
        requires
            old(self).wf(),
            old(self)@.position <= to,
        ensures
            final(self).wf(),
            final(self)@ == spec_advance(old(self)@, to as nat, now as nat),
    {
        self.position = to;
        if self.strategy == CursorStrategy::RateLimited {
            self.not_before_ms = now.saturating_add(self.interval_ms);
        }
    }

    /// Raises the tip estimate; a lower report is ignored.
    pub fn update_tip(&mut self, tip: u64)
        requires
            old(self).wf(),
        ensures
            final(self).wf(),
            final(self)@ == spec_update_tip(old(self)@, tip as nat),
    {
        if tip > self.tip {
            self.tip = tip;
        }
    }

    /// Backfilling, caught up, or paused by pacing.
    pub fn mode(&self, now: u64) -> (r: CursorMode)
        ensures
            r == spec_mode(self@, now as nat),
    {
        if self.strategy == CursorStrategy::RateLimited && now < self.not_before_ms {
            CursorMode::Paused
        } else if self.tip <= self.position || self.tip - self.position <= CAUGHT_UP_MARGIN {
            CursorMode::CaughtUp
        } else {
            CursorMode::Backfilling
        }
    }
}

/// Committed ranges follow one another without gap or overlap, each non-empty and
/// ending at most at the tip.
pub proof fn lemma_ranges_contiguous(position: nat, tip: nat, chunk: nat, n: nat)
    ensures
        forall|i: int|
            0 <= i < range_seq(position, tip, chunk, n).len() ==> {
                let r = #[trigger] range_seq(position, tip, chunk, n)[i];
                &&& r.0 < r.1 <= tip
                &&& i == 0 ==> r.0 == position
            },
        forall|i: int|
            0 <= i < range_seq(position, tip, chunk, n).len() - 1 ==> (#[trigger] range_seq(
                position,
                tip,
                chunk,
                n,
            )[i]).1 == range_seq(position, tip, chunk, n)[i + 1].0,
    decreases n,
{
    if !(n == 0 || position >= tip || chunk == 0) {
        let end = range_end(position, tip, chunk);
        let s = range_seq(position, tip, chunk, n);
        let rest = range_seq(end, tip, chunk, (n - 1) as nat);
        lemma_ranges_contiguous(end, tip, chunk, (n - 1) as nat);
        assert forall|i: int| 0 < i < s.len() implies #[trigger] s[i] == rest[i - 1] by {}
        assert forall|i: int| 0 <= i < s.len() - 1 implies (#[trigger] s[i]).1 == s[i + 1].0 by {
            if i > 0 {
                assert(s[i] == rest[i - 1]);
                assert(s[i + 1] == rest[i]);
            } else {
                assert(s[1] == rest[0]);
            }
        }
    }
}

/// The position after `k` committed batches from `position`.
pub open spec fn pos_after(position: nat, tip: nat, chunk: nat, k: nat) -> nat
    decreases k,
{
    if k == 0 || position >= tip || chunk == 0 {
        position
    } else {
        pos_after(range_end(position, tip, chunk), tip, chunk, (k - 1) as nat)
    }
}

proof fn lemma_range_seq_split(position: nat, tip: nat, chunk: nat, k: nat, n: nat)
    ensures
        range_seq(position, tip, chunk, k + n) == range_seq(position, tip, chunk, k) + range_seq(
            pos_after(position, tip, chunk, k),
            tip,
            chunk,
            n,
        ),
        position <= pos_after(position, tip, chunk, k),
    decreases k,
{
    if k == 0 || position >= tip || chunk == 0 {
        assert(range_seq(position, tip, chunk, k) == Seq::<(nat, nat)>::empty());
        if k > 0 {
            assert(range_seq(position, tip, chunk, k + n) == Seq::<(nat, nat)>::empty());
            assert(range_seq(position, tip, chunk, n) == Seq::<(nat, nat)>::empty());
        }
        assert(Seq::<(nat, nat)>::empty() + range_seq(position, tip, chunk, n) == range_seq(
            position,
            tip,
            chunk,
            n,
        ));
    } else {
        let end = range_end(position, tip, chunk);
        lemma_range_seq_split(end, tip, chunk, (k - 1) as nat, n);
        assert(((k + n) - 1) as nat == (k - 1) as nat + n);
        let head = seq![(position, end)];
        let mid = range_seq(end, tip, chunk, (k - 1) as nat);
        let rest = range_seq(pos_after(end, tip, chunk, (k - 1) as nat), tip, chunk, n);
        assert(head + (mid + rest) == (head + mid) + rest);
    }
}

/// Resumption is deterministic: a forward stream restarted from the position
/// persisted after `k` committed batches yields exactly the ranges that the
/// uninterrupted run yields after those batches. A rate-limited stream restarts
/// at most the reorganisation overlap below that position, and never above it.
pub proof fn lemma_resume_determinism(strategy: CursorStrategy, start: nat, tip: nat, chunk: nat, k: nat, n: nat)
    ensures
        ({
            let p = pos_after(start, tip, chunk, k);
            &&& strategy == CursorStrategy::Forward ==> range_seq(start, tip, chunk, k + n)
                == range_seq(start, tip, chunk, k) + range_seq(
                resume_position(strategy, start, p),
                tip,
                chunk,
                n,
            )
            &&& resume_position(strategy, start, p) <= p
            &&& p <= resume_position(strategy, start, p) + REORG_OVERLAP
        }),
{
    lemma_range_seq_split(start, tip, chunk, k, n);
}

} // verus!
