//! The warm-up schedule of Wilder's Relative Strength Index.
//!
//! A streaming RSI reads one price per tick. The first tick only anchors
//! the previous price. The next `period - 1` ticks record one gain and one
//! loss each while the warm-up windows fill; the tick that fills them
//! seeds the averages with the simple means and yields the first reading.
//! Every later tick applies Wilder's smoothing and yields a reading.
//!
//! `RsiSchedule` makes that decision on every tick; the arithmetic on
//! prices is left to the caller.

use vstd::prelude::*;

use crate::error::CryptoTuiError;

verus! {

/// Default RSI period used by Welles Wilder.
pub const DEFAULT_PERIOD: usize = 14;

/// What an RSI update does with the tick it receives.
#[derive(Debug, Clone, Copy, PartialEq, Eq, Structural)]
pub enum RsiStep {
    /// The first tick: it only anchors the previous price; no reading.
    Anchor,
    /// A warm-up tick: its gain and loss are recorded; no reading yet.
    Accumulate,
    /// The tick that completes the warm-up: the averages are seeded with
    /// the simple means of the recorded gains and losses, and the first
    /// reading is emitted.
    Seed,
    /// Wilder's smoothing of the running averages; a reading is emitted.
    Smooth,
}

/// The step that the `k`-th tick (counting from 1) after construction or
/// a reset takes, for the given period.
pub open spec fn step_for(k: nat, period: nat) -> RsiStep {
    if k <= 1 {
        RsiStep::Anchor
    } else if k <= period {
        RsiStep::Accumulate
    } else if k == period + 1 {
        RsiStep::Seed
    } else {
        RsiStep::Smooth
    }
}

/// The progress after one more tick: the count of ticks seen, which
/// stops at `period + 1`.
pub open spec fn next_progress(progress: nat, period: nat) -> nat {
    if progress < period + 1 {
        progress + 1
    } else {
        progress
    }
}

/// The progress after `n` ticks from construction or a reset.
pub open spec fn progress_after(n: nat, period: nat) -> nat {
    if n <= period + 1 {
        n
    } else {
        period + 1
    }
}

/// Whether a step emits a reading.
pub open spec fn emits(step: RsiStep) -> bool {
    step is Seed || step is Smooth
}

/// Where the schedule stands.
#[derive(Debug, Clone, Copy)]
enum Phase {
    /// No tick seen since construction or the last reset.
    Fresh,
    /// The anchor tick and `n` warm-up ticks have been seen.
    Warming(usize),
    /// The averages have been seeded.
    Smoothing,
}

/// The warm-up schedule of a streaming Wilder RSI with a fixed period.
#[derive(Debug)]
pub struct RsiSchedule {
    period: usize,
    phase: Phase,
}

impl RsiSchedule {
    #[verifier::type_invariant]
    spec fn well_formed(self) -> bool {
        &&& 0 < self.period
        &&& self.phase matches Phase::Warming(n) ==> n < self.period
    }

    /// The configured period.
    pub closed spec fn spec_period(&self) -> nat {
        self.period as nat
    }

    /// The number of ticks seen since construction or the last reset,
    /// counted up to `period + 1`: beyond that every tick is alike.
    pub closed spec fn progress(&self) -> nat {
        match self.phase {
            Phase::Fresh => 0,
            Phase::Warming(n) => (n + 1) as nat,
            Phase::Smoothing => (self.period + 1) as nat,
        }
    }

    /// Create a schedule for the given Wilder period.
    ///
    /// Returns [`CryptoTuiError::InvalidConfig`] if and only if
    /// `period == 0`.
    pub fn new(period: usize) -> (res: Result<Self, CryptoTuiError>)
        ensures
            period == 0 <==> res is Err,
            res matches Err(CryptoTuiError::InvalidConfig(msg)) ==> msg@ == "RSI period must be > 0"@,
            res matches Ok(s) ==> s.spec_period() == period && s.progress() == 0,
    {
        if period == 0 {
            return Err(CryptoTuiError::InvalidConfig("RSI period must be > 0".to_owned()));
        }
        Ok(RsiSchedule { period, phase: Phase::Fresh })
    }

    /// The configured period.
    pub fn period(&self) -> (p: usize)
        ensures
            p == self.spec_period(),
            0 < p,
    {
        proof {
            use_type_invariant(self);
        }
        self.period
    }

    /// Forget every tick seen, preserving the period.
    pub fn reset(&mut self)
        ensures
            final(self).spec_period() == old(self).spec_period(),
            final(self).progress() == 0,
    {
        proof {
            use_type_invariant(&*self);
        }
        self.phase = Phase::Fresh;
    }

    /// Take the next tick: returns what the update for it does.
    pub fn tick(&mut self) -> (step: RsiStep)
        ensures
            final(self).spec_period() == old(self).spec_period(),
            step == step_for(old(self).progress() + 1, old(self).spec_period()),
            final(self).progress() == next_progress(old(self).progress(), old(self).spec_period()),
            final(self).progress() <= final(self).spec_period() + 1,
    {
        proof {
            use_type_invariant(&*self);
        }
        match self.phase {
            Phase::Fresh => {
                self.phase = Phase::Warming(0);
                RsiStep::Anchor
            },
            Phase::Warming(n) => {
                if n + 1 < self.period {
                    self.phase = Phase::Warming(n + 1);
                    RsiStep::Accumulate
                } else {
                    self.phase = Phase::Smoothing;
                    RsiStep::Seed
                }
            },
            Phase::Smoothing => RsiStep::Smooth,
        }
    }
}

impl Clone for RsiSchedule {
    /// A copy with the same period, standing at the same point.
    fn clone(&self) -> (c: Self)
        ensures
            c.spec_period() == self.spec_period(),
            c.progress() == self.progress(),
    {
        proof {
            use_type_invariant(self);
        }
        RsiSchedule { period: self.period, phase: self.phase }
    }
}

/// The counting law: a schedule that has taken `n` ticks since
/// construction or a reset stands at `progress_after(n, period)`; its next
/// tick takes it to `progress_after(n + 1, period)` and takes the step of
/// the `(n + 1)`-th tick. So, tick after tick, the schedule follows
/// `step_for` exactly.
pub proof fn lemma_tick_follows_count(n: nat, period: nat)
    requires
        0 < period,
    ensures
        progress_after(0, period) == 0,
        next_progress(progress_after(n, period), period) == progress_after(n + 1, period),
        step_for(progress_after(n, period) + 1, period) == step_for(n + 1, period),
{
}

/// The warm-up law: the `k`-th tick after construction or a reset emits a
/// reading if and only if more than `period` ticks have been seen; the
/// first tick only anchors, and exactly the `(period + 1)`-th tick seeds
/// the averages.
pub proof fn lemma_warmup_length(k: nat, period: nat)
    requires
        0 < period,
        1 <= k,
    ensures
        emits(step_for(k, period)) <==> k > period,
        step_for(k, period) is Anchor <==> k == 1,
        step_for(k, period) is Seed <==> k == period + 1,
{
}

} // verus!
