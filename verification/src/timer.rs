//! The elapsed/duration/repeat state machine used pervasively by gameplay
//! components: invulnerability windows, hit-flash effects, spawn cadences.

use vstd::prelude::*;

verus! {

/// A frame-stepped timer. `update` accumulates elapsed ticks; once the
/// elapsed time reaches the duration the timer is completed. A repeating
/// timer wraps (elapsed reduced modulo the duration) and keeps running,
/// a one-shot timer stays completed until `reset`.
#[derive(Clone, Copy, PartialEq, Eq, Structural, Debug)]
pub struct Timer {
    /// Number of ticks after which the timer counts as completed.
    pub duration: u64,
    /// Ticks accumulated so far.
    pub elapsed: u64,
    /// Whether a completed timer wraps and keeps running.
    pub repeat: bool,
    /// Whether the most recent update crossed the completion threshold.
    pub just_completed: bool,
}

/// A timer is completed once its elapsed time has reached its duration.
pub open spec fn timer_completed(t: Timer) -> bool {
    t.elapsed >= t.duration
}

/// Elapsed ticks after an update by `dt`: plain accumulation below the
/// duration, wrap-around for a repeating timer, saturation at the numeric
/// limit otherwise.
pub open spec fn elapsed_after_update(t: Timer, dt: u64) -> int {
    let total = t.elapsed + dt;
    if total < t.duration {
        total
    } else if t.repeat && t.duration > 0 {
        total % (t.duration as int)
    } else if total > u64::MAX {
        u64::MAX as int
    } else {
        total
    }
}

/// Whether an update by `dt` crosses the completion threshold on this very
/// call: the timer was not completed before and the accumulated time
/// reaches the duration.
pub open spec fn update_crosses_completion(t: Timer, dt: u64) -> bool {
    t.elapsed < t.duration && t.elapsed + dt >= t.duration
}

/// Progress towards completion in thousandths, clamped to [0, 1000]. A
/// zero-duration timer counts as fully progressed.
pub open spec fn progress_permille_of(t: Timer) -> int {
    if t.duration == 0 {
        1000
    } else {
        let p = (t.elapsed * 1000) / (t.duration as int);
        if p > 1000 {
            1000
        } else {
            p
        }
    }
}

/// A timer's value after `reset`: nothing elapsed, the completion flag
/// cleared, duration and repeat mode kept.
pub open spec fn reset_timer(t: Timer) -> Timer {
    Timer { duration: t.duration, elapsed: 0, repeat: t.repeat, just_completed: false }
}

impl Timer {
    /// A fresh timer: nothing elapsed, nothing completed yet.
    pub fn new(duration: u64, repeat: bool) -> (r: Timer)
        ensures
            r == (Timer { duration, elapsed: 0, repeat, just_completed: false }),
    {
        Timer { duration, elapsed: 0, repeat, just_completed: false }
    }

    /// Whether the timer has reached its duration.
    pub fn completed(&self) -> (r: bool)
        ensures
            r == timer_completed(*self),
    {
        self.elapsed >= self.duration
    }

    /// Whether the most recent `update` call was the one that crossed the
    /// completion threshold; used to trigger one-shot effects.
    pub fn just_completed(&self) -> (r: bool)
        ensures
            r == self.just_completed,
    {
        self.just_completed
    }

    /// Accumulate `dt` ticks. A repeating timer that reaches its duration
    /// wraps and keeps running; a one-shot timer stays completed, its
    /// elapsed time saturating at the numeric limit.
    pub fn update(&mut self, dt: u64)
        ensures
            final(self).duration == old(self).duration,
            final(self).repeat == old(self).repeat,
            final(self).elapsed == elapsed_after_update(*old(self), dt),
            final(self).just_completed == update_crosses_completion(*old(self), dt),
    {
        let was_completed = self.elapsed >= self.duration;
        let total: u128 = self.elapsed as u128 + dt as u128;
        self.just_completed = !was_completed && total >= self.duration as u128;
        if total < self.duration as u128 {
            self.elapsed = total as u64;
        } else if self.repeat && self.duration > 0 {
            self.elapsed = (total % (self.duration as u128)) as u64;
        } else if total > u64::MAX as u128 {
            self.elapsed = u64::MAX;
        } else {
            self.elapsed = total as u64;
        }
    }

    /// Start the timer over: nothing elapsed, the completion flag cleared.
    pub fn reset(&mut self)
        ensures
            final(self).duration == old(self).duration,
            final(self).repeat == old(self).repeat,
            final(self).elapsed == 0,
            !final(self).just_completed,
    {
        self.elapsed = 0;
        self.just_completed = false;
    }

    /// Progress towards completion in thousandths, clamped to [0, 1000].
    pub fn progress_permille(&self) -> (r: u64)
        ensures
            r == progress_permille_of(*self),
    {
        if self.duration == 0 {
            1000
        } else {
            let p: u128 = (self.elapsed as u128 * 1000) / (self.duration as u128);
            if p > 1000 {
                1000
            } else {
                p as u64
            }
        }
    }
}

/// A freshly reset timer is again short of completion whenever its duration
/// is positive at all.
pub proof fn lemma_reset_timer_not_completed(t: Timer)
    requires
        t.elapsed == 0,
        t.duration > 0,
    ensures
        !timer_completed(t),
{
}

} // verus!
