use vstd::prelude::*;

verus! {

/// A frame-delta timer in integer milliseconds, owned by the state machine
/// that consults it. It is advanced explicitly once per simulation frame and
/// clamps at its duration; a state transition resets it.
#[derive(Debug, Clone, Copy, PartialEq, Eq, Structural)]
pub struct Timer {
    /// Milliseconds accumulated so far, at most `duration`.
    pub elapsed: u32,
    /// The full duration in milliseconds.
    pub duration: u32,
}

/// A timer advanced by `dt` milliseconds, clamped at its duration.
pub open spec fn ticked(t: Timer, dt: u32) -> Timer {
    Timer {
        elapsed: if t.elapsed + dt >= t.duration {
            t.duration
        } else {
            (t.elapsed + dt) as u32
        },
        duration: t.duration,
    }
}

/// The timer has run its full duration.
pub open spec fn timer_done(t: Timer) -> bool {
    t.elapsed == t.duration
}

/// The timer started over.
pub open spec fn reset_timer(t: Timer) -> Timer {
    Timer { elapsed: 0, duration: t.duration }
}

impl Timer {
    /// Well-formed: the accumulator never runs past the duration.
    pub open spec fn wf(self) -> bool {
        self.elapsed <= self.duration
    }

    /// A fresh timer of `duration` milliseconds.
    pub fn new(duration: u32) -> (t: Timer)
        ensures
            t.wf(),
            t.elapsed == 0,
            t.duration == duration,
    {
        Timer { elapsed: 0, duration }
    }

    /// Advance by a frame delta of `dt` milliseconds, clamping at the duration.
    pub fn tick(&mut self, dt: u32)
        requires
            old(self).wf(),
        ensures
            *final(self) == ticked(*old(self), dt),
            final(self).wf(),
    {
        if dt >= self.duration - self.elapsed {
            self.elapsed = self.duration;
        } else {
            self.elapsed = self.elapsed + dt;
        }
    }

    /// Whether the full duration has elapsed.
    pub fn finished(&self) -> (r: bool)
        requires
            self.wf(),
        ensures
            r == timer_done(*self),
    {
        self.elapsed == self.duration
    }

    /// Start the timer over.
    pub fn reset(&mut self)
        ensures
            *final(self) == reset_timer(*old(self)),
            final(self).wf(),
    {
        self.elapsed = 0;
    }
}

} // verus!
