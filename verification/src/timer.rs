//! Countdown timers: fire cooldown, flip lock, animation rate, shot expiry.
//!
//! A timer accumulates elapsed time in fixed-point time units. A one-shot
//! timer stays finished once its duration is reached; a repeating timer
//! reports finished only on a tick that reaches the duration, and wraps its
//! elapsed time for the next round.

use vstd::prelude::*;
use crate::fixed::TIME_CAP;

verus! {

#[derive(Clone, Copy, PartialEq, Eq, Structural, Debug)]
pub struct Timer {
    pub elapsed: i64,
    pub duration: i64,
    pub repeating: bool,
    pub finished: bool,
}

impl Timer {
    /// Field bounds every timer keeps.
    pub open spec fn wf(self) -> bool {
        &&& 0 <= self.elapsed <= TIME_CAP
        &&& 0 <= self.duration <= TIME_CAP
    }

    /// The timer after one tick of `dt` time units.
    pub open spec fn spec_tick(self, dt: int) -> Timer {
        let total = self.elapsed + dt;
        if total >= self.duration {
            Timer {
                elapsed: if self.repeating {
                    if self.duration > 0 {
                        (total % (self.duration as int)) as i64
                    } else {
                        0
                    }
                } else {
                    self.duration
                },
                finished: true,
                ..self
            }
        } else {
            Timer { elapsed: total as i64, finished: false, ..self }
        }
    }

    pub fn new(duration: i64, repeating: bool) -> (r: Timer)
        requires
            0 <= duration <= TIME_CAP,
        ensures
            r == (Timer { elapsed: 0, duration, repeating, finished: false }),
            r.wf(),
    {
        Timer { elapsed: 0, duration, repeating, finished: false }
    }

    /// Advance by `dt`; sets `finished` exactly when the duration is reached
    /// on this tick (and from then on, for a one-shot timer).
    pub fn tick(&mut self, dt: i64)
        requires
            old(self).wf(),
            0 <= dt <= TIME_CAP,
        ensures
            *final(self) == old(self).spec_tick(dt as int),
            final(self).wf(),
    {
        let total: i64 = self.elapsed + dt;
        if total >= self.duration {
            if self.repeating {
                if self.duration > 0 {
                    self.elapsed = ((total as u64) % (self.duration as u64)) as i64;
                } else {
                    self.elapsed = 0;
                }
            } else {
                self.elapsed = self.duration;
            }
            self.finished = true;
        } else {
            self.elapsed = total;
            self.finished = false;
        }
    }

    /// Whether the duration was reached (see `spec_tick` for when this holds).
    pub fn finished(&self) -> (r: bool)
        ensures
            r == self.finished,
    {
        self.finished
    }

    /// Start the countdown over.
    pub fn reset(&mut self)
        ensures
            *final(self) == (Timer { elapsed: 0, finished: false, ..*old(self) }),
    {
        self.elapsed = 0;
        self.finished = false;
    }

    /// Change the duration without touching the elapsed count.
    pub fn set_duration(&mut self, d: i64)
        requires
            0 <= d <= TIME_CAP,
        ensures
            *final(self) == (Timer { duration: d, ..*old(self) }),
    {
        self.duration = d;
    }
}

} // verus!
