//! Countdown timers, counted in whole milliseconds.
//!
//! A one-shot timer fires once, when the cumulative elapsed time first
//! reaches its duration, and then stays finished until it is reset. A
//! repeating timer fires on every tick in which the accumulated time reaches
//! the duration, and carries the overshoot into the next period.

use vstd::prelude::*;

verus! {

/// Whether a timer fires once and stays finished, or rearms itself.
#[derive(Clone, Copy, PartialEq, Eq, Structural, Debug)]
pub enum TimerMode {
    Once,
    Repeating,
}

/// A countdown timer. `elapsed_ms` accumulates the ticked time, clamped to
/// the duration for a one-shot timer and wrapped into the current period for
/// a repeating one.
#[derive(Clone, Copy, PartialEq, Eq, Structural, Debug)]
pub struct Timer {
    pub duration_ms: i64,
    pub elapsed_ms: i64,
    pub mode: TimerMode,
    pub just_finished: bool,
}

impl Timer {
    /// Well-formedness: a positive duration, and an elapsed time inside the
    /// range that ticking preserves.
    pub open spec fn wf(self) -> bool {
        &&& 1 <= self.duration_ms
        &&& 0 <= self.elapsed_ms
        &&& self.mode == TimerMode::Once ==> self.elapsed_ms <= self.duration_ms
        &&& self.mode == TimerMode::Repeating ==> self.elapsed_ms < self.duration_ms
    }

    /// A one-shot timer is finished once its elapsed time has reached its
    /// duration; a repeating timer reports finished only on a tick in which
    /// it completed a period.
    pub open spec fn spec_finished(self) -> bool {
        match self.mode {
            TimerMode::Once => self.elapsed_ms >= self.duration_ms,
            TimerMode::Repeating => self.just_finished,
        }
    }

    /// The timer after advancing it by `dt` milliseconds.
    pub open spec fn ticked(self, dt: int) -> Timer
        recommends
            self.wf(),
            dt >= 0,
    {
        let total = self.elapsed_ms + dt;
        match self.mode {
            TimerMode::Once => {
                if total >= self.duration_ms {
                    Timer {
                        elapsed_ms: self.duration_ms,
                        just_finished: self.elapsed_ms < self.duration_ms,
                        ..self
                    }
                } else {
                    Timer { elapsed_ms: total as i64, just_finished: false, ..self }
                }
            },
            TimerMode::Repeating => {
                if total >= self.duration_ms {
                    Timer {
                        elapsed_ms: (total % (self.duration_ms as int)) as i64,
                        just_finished: true,
                        ..self
                    }
                } else {
                    Timer { elapsed_ms: total as i64, just_finished: false, ..self }
                }
            },
        }
    }

    /// Makes a timer that has not yet counted anything.
    pub fn from_millis(duration_ms: i64, mode: TimerMode) -> (t: Timer)
        requires
            duration_ms >= 1,
        ensures
            t == (Timer { duration_ms, elapsed_ms: 0, mode, just_finished: false }),
            t.wf(),
    {
        Timer { duration_ms, elapsed_ms: 0, mode, just_finished: false }
    }

    /// Advances the timer by `dt` milliseconds.
    pub fn tick(&mut self, dt: i64)
        requires
            old(self).wf(),
            0 <= dt,
            old(self).elapsed_ms + dt <= i64::MAX,
        ensures
            *final(self) == old(self).ticked(dt as int),
            final(self).wf(),
    {
        let total = self.elapsed_ms + dt;
        match self.mode {
            TimerMode::Once => {
                if total >= self.duration_ms {
                    self.just_finished = self.elapsed_ms < self.duration_ms;
                    self.elapsed_ms = self.duration_ms;
                } else {
                    self.elapsed_ms = total;
                    self.just_finished = false;
                }
            },
            TimerMode::Repeating => {
                if total >= self.duration_ms {
                    self.elapsed_ms = total % self.duration_ms;
                    self.just_finished = true;
                } else {
                    self.elapsed_ms = total;
                    self.just_finished = false;
                }
            },
        }
    }

    /// Whether the timer has completed; see [`Timer::spec_finished`].
    pub fn finished(&self) -> (r: bool)
        ensures
            r == self.spec_finished(),
    {
        match self.mode {
            TimerMode::Once => self.elapsed_ms >= self.duration_ms,
            TimerMode::Repeating => self.just_finished,
        }
    }

    /// Puts the timer back to an un-elapsed, unfinished state.
    pub fn reset(&mut self)
        ensures
            *final(self) == (Timer {
                elapsed_ms: 0,
                just_finished: false,
                ..*old(self)
            }),
    {
        self.elapsed_ms = 0;
        self.just_finished = false;
    }
}

/// Total of a sequence of tick durations.
pub open spec fn sum_ms(dts: Seq<int>) -> int
    decreases dts.len(),
{
    if dts.len() == 0 {
        0
    } else {
        sum_ms(dts.drop_last()) + dts.last()
    }
}

/// The timer after being ticked with each duration of `dts` in turn.
pub open spec fn ticked_all(t: Timer, dts: Seq<int>) -> Timer
    decreases dts.len(),
{
    if dts.len() == 0 {
        t
    } else {
        ticked_all(t, dts.drop_last()).ticked(dts.last())
    }
}

/// A one-shot timer of duration `T`, ticked with any run of delays, holds
/// exactly `min(cumulative elapsed, T)`: it is finished on the tick where the
/// cumulative total first reaches `T`, and not before.
pub proof fn lemma_once_timer_cumulative(t: Timer, dts: Seq<int>)
    requires
        t.wf(),
        t.mode == TimerMode::Once,
        forall|i: int| 0 <= i < dts.len() ==> dts[i] >= 0,
    ensures
        ticked_all(t, dts).wf(),
        ticked_all(t, dts).mode == TimerMode::Once,
        ticked_all(t, dts).duration_ms == t.duration_ms,
        ticked_all(t, dts).elapsed_ms == if t.elapsed_ms + sum_ms(dts) <= t.duration_ms {
            t.elapsed_ms + sum_ms(dts)
        } else {
            t.duration_ms as int
        },
        ticked_all(t, dts).spec_finished() <==> t.elapsed_ms + sum_ms(dts) >= t.duration_ms,
    decreases dts.len(),
{
    if dts.len() == 0 {
    } else {
        lemma_once_timer_cumulative(t, dts.drop_last());
        assert(sum_ms(dts.drop_last()) >= 0) by {
            lemma_sum_nonneg(dts.drop_last());
        }
    }
}

/// The total of a run of non-negative delays is non-negative.
pub proof fn lemma_sum_nonneg(dts: Seq<int>)
    requires
        forall|i: int| 0 <= i < dts.len() ==> dts[i] >= 0,
    ensures
        sum_ms(dts) >= 0,
    decreases dts.len(),
{
    if dts.len() > 0 {
        lemma_sum_nonneg(dts.drop_last());
    }
}

} // verus!
