//! Symbol-timing recovery: the countdown of the Gardner-style decimator.
//!
//! The loop emits one sample per `sps` plus-or-minus a correction: a
//! countdown runs from the symbol period towards zero; near the bottom
//! it captures a 3-sample window around the emission point, emits the
//! middle sample, and restarts from `sps` plus a clamped correction
//! computed from the window.  The countdown, the capture and emit
//! schedule, and the clamp bound on every correction are verified here;
//! the window samples and the error arithmetic are float work that the
//! caller performs between `tick` and `apply_error`.

use vstd::prelude::*;

verus! {

/// What the timing loop does with the sample that brought the countdown
/// to its current value.
#[derive(Clone, Copy, PartialEq, Eq, Structural, Debug)]
pub enum ClockAction {
    /// Discard the sample.
    Pass,
    /// Capture the sample into window slot 0.
    Capture,
    /// Capture into window slot 1 and emit this sample downstream.
    CaptureEmit,
    /// Capture into window slot 2; the caller must now compute the
    /// timing error from the window and apply the correction.
    Correct,
}

/// The action taken when the countdown has just reached `n`.
pub open spec fn action_at(n: int) -> ClockAction {
    if n == 2 {
        ClockAction::Capture
    } else if n == 1 {
        ClockAction::CaptureEmit
    } else if n == 0 {
        ClockAction::Correct
    } else {
        ClockAction::Pass
    }
}

/// The timing loop state: the nominal samples per symbol and the
/// running countdown.
pub struct ClockSync {
    /// The nominal symbol period in samples.
    pub skip: i32,
    /// The countdown to the next correction point; 0 means a correction
    /// is due before the next sample.
    pub n: i32,
}

impl ClockSync {
    /// The period is sane and the countdown never exceeds the longest
    /// corrected cycle.
    pub open spec fn wf(&self) -> bool {
        &&& 4 <= self.skip <= 0x3fffffff
        &&& 0 <= self.n <= self.skip + self.skip / 2
    }

    /// A fresh loop for `sps` samples per symbol; the first cycle is
    /// uncorrected.
    pub fn new(sps: u32) -> (c: ClockSync)
        requires
            4 <= sps <= 0x3fffffff,
        ensures
            c.wf(),
            c.skip == sps,
            c.n == sps,
    {
        ClockSync { skip: sps as i32, n: sps as i32 }
    }

    /// Advance the countdown by one incoming sample and report what to
    /// do with that sample.  After a `Correct` action the caller must
    /// call `apply_error` before the next tick.
    pub fn tick(&mut self) -> (a: ClockAction)
        requires
            old(self).wf(),
            old(self).n >= 1,
        ensures
            final(self).wf(),
            final(self).skip == old(self).skip,
            final(self).n == old(self).n - 1,
            a == action_at(final(self).n as int),
    {
        self.n -= 1;

        match self.n {
            2 => ClockAction::Capture,
            1 => ClockAction::CaptureEmit,
            0 => ClockAction::Correct,
            _ => ClockAction::Pass,
        }
    }

    /// Restart the countdown at the corrected symbol period.  The
    /// correction is already rounded and clamped to half a period
    /// either way, so the loop never moves the emission point by more
    /// than `skip / 2`.
    pub fn apply_error(&mut self, delta: i32)
        requires
            old(self).wf(),
            old(self).n == 0,
            -(old(self).skip / 2) <= delta <= old(self).skip / 2,
        ensures
            final(self).wf(),
            final(self).skip == old(self).skip,
            final(self).n == old(self).skip + delta,
    {
        self.n = self.skip + delta;
    }
}

/// One output per cycle: a cycle that restarts at countdown `k` ticks
/// `k` times before the next correction; of those ticks exactly the
/// next-to-last emits a sample and exactly the last demands a
/// correction.  With `k` between `sps - sps/2` and `sps + sps/2` this
/// is the decimator's rate guarantee of one output per `sps` plus or
/// minus half a period of input samples.
pub proof fn lemma_one_emit_per_cycle(k: int, i: int)
    requires
        3 <= k,
        1 <= i <= k,
    ensures
        action_at(k - i) == ClockAction::CaptureEmit <==> i == k - 1,
        action_at(k - i) == ClockAction::Correct <==> i == k,
{
}

} // verus!
