//! Countdown timers measured in whole milliseconds.
use vstd::arithmetic::div_mod::{lemma_add_mod_noop, lemma_fundamental_div_mod_converse, lemma_small_mod};
use vstd::prelude::*;

verus! {

/// Whether a timer stops when it runs out or starts over.
#[derive(Clone, Copy, Debug, PartialEq, Eq, Structural)]
pub enum TimerMode {
    Once,
    Repeating,
}

/// A timer of `duration` milliseconds of which `elapsed` have passed.
#[derive(Clone, Copy, Debug, PartialEq, Eq, Structural)]
pub struct Timer {
    pub duration: u64,
    pub elapsed: u64,
    pub mode: TimerMode,
}

impl Timer {
    /// A positive duration, and an elapsed time that a one-shot timer holds at
    /// its duration and a repeating one keeps below it.
    pub open spec fn wf(self) -> bool {
        &&& self.duration > 0
        &&& match self.mode {
            TimerMode::Once => self.elapsed <= self.duration,
            TimerMode::Repeating => self.elapsed < self.duration,
        }
    }

    /// Whether advancing by `dt` reaches the end of the current period.
    pub open spec fn fires(self, dt: int) -> bool {
        self.elapsed + dt >= self.duration
    }

    /// The timer after `dt` milliseconds.
    pub open spec fn advanced(self, dt: int) -> Timer {
        let total = self.elapsed + dt;
        Timer {
            elapsed: match self.mode {
                TimerMode::Once => if total >= self.duration { self.duration } else { total as u64 },
                TimerMode::Repeating => (total % (self.duration as int)) as u64,
            },
            ..self
        }
    }

    /// A one-shot timer that has run out.
    pub open spec fn is_finished(self) -> bool {
        self.elapsed >= self.duration
    }

    /// A fresh timer of `duration` milliseconds.
    pub fn new(duration: u64, mode: TimerMode) -> (r: Timer)
        requires
            duration > 0,
        ensures
            r == (Timer { duration, elapsed: 0, mode }),
            r.wf(),
    {
        Timer { duration, elapsed: 0, mode }
    }

    /// Advances the timer by `dt` milliseconds; returns whether it ran out
    /// (for a repeating timer: whether a period ended during this step).
    pub fn tick(&mut self, dt: u64) -> (fired: bool)
        requires
            old(self).wf(),
        ensures
            *final(self) == old(self).advanced(dt as int),
            fired == old(self).fires(dt as int),
            final(self).wf(),
    {
        let left: u64 = self.duration - self.elapsed;
        match self.mode {
            TimerMode::Once => {
                if dt >= left {
                    self.elapsed = self.duration;
                    true
                } else {
                    self.elapsed = self.elapsed + dt;
                    false
                }
            },
            TimerMode::Repeating => {
                let ghost d = self.duration as int;
                let ghost e = self.elapsed as int;
                let r: u64 = dt % self.duration;
                proof {
                    lemma_small_mod(self.elapsed as nat, self.duration as nat);
                    lemma_add_mod_noop(e, dt as int, d);
                    lemma_small_mod(r as nat, self.duration as nat);
                }
                if r >= left {
                    proof {
                        lemma_fundamental_div_mod_converse(e + r, d, 1, e + r - d);
                    }
                    self.elapsed = self.elapsed - (self.duration - r);
                } else {
                    proof {
                        lemma_fundamental_div_mod_converse(e + r, d, 0, e + r);
                    }
                    self.elapsed = self.elapsed + r;
                }
                dt >= left
            },
        }
    }

    /// Whether a one-shot timer has run out.
    pub fn finished(&self) -> (r: bool)
        ensures
            r == self.is_finished(),
    {
        self.elapsed >= self.duration
    }

    /// Milliseconds left in the current period.
    pub fn remaining(&self) -> (r: u64)
        requires
            self.wf(),
        ensures
            r == self.duration - self.elapsed,
    {
        self.duration - self.elapsed
    }
}

} // verus!
