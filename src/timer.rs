//! Millisecond countdown timers that are ticked once per frame.
use vstd::prelude::*;

verus! {

/// Whether a timer stops once it finishes or starts over.
#[derive(Clone, Copy, Debug, PartialEq, Eq, Structural)]
pub enum TimerMode {
    Once,
    Repeating,
}

/// A timer counting elapsed milliseconds toward a duration.
#[derive(Clone, Copy, Debug, PartialEq, Eq, Structural)]
pub struct Timer {
    pub elapsed: u32,
    pub duration: u32,
    pub mode: TimerMode,
    /// Whether the most recent tick reached the duration.
    pub just: bool,
}

impl Timer {
    pub open spec fn wf(self) -> bool {
        &&& self.elapsed <= self.duration
        &&& (self.mode == TimerMode::Repeating && self.duration > 0) ==> self.elapsed
            < self.duration
    }

    /// A once-timer stays finished from the tick that reaches its duration;
    /// a repeating timer is finished only on the tick that wraps it.
    pub open spec fn is_finished(self) -> bool {
        match self.mode {
            TimerMode::Once => self.elapsed >= self.duration,
            TimerMode::Repeating => self.just,
        }
    }

    /// The timer after `dt` more milliseconds.
    pub open spec fn ticked(self, dt: nat) -> Timer {
        let total = self.elapsed + dt;
        match self.mode {
            TimerMode::Once => {
                let e = if total >= self.duration { self.duration as int } else { total };
                Timer {
                    elapsed: e as u32,
                    just: e >= self.duration && self.elapsed < self.duration,
                    ..self
                }
            },
            TimerMode::Repeating => {
                if self.duration == 0 {
                    Timer { elapsed: 0, just: true, ..self }
                } else if total >= self.duration {
                    Timer { elapsed: (total % (self.duration as int)) as u32, just: true, ..self }
                } else {
                    Timer { elapsed: total as u32, just: false, ..self }
                }
            },
        }
    }

    /// The timer with its elapsed time cleared.
    pub open spec fn cleared(self) -> Timer {
        Timer { elapsed: 0, just: false, ..self }
    }

    /// A timer at zero elapsed.
    pub fn new(duration: u32, mode: TimerMode) -> (r: Timer)
        ensures
            r.wf(),
            r.elapsed == 0,
            r.duration == duration,
            r.mode == mode,
            !r.just,
    {
        Timer { elapsed: 0, duration, mode, just: false }
    }

    /// A once-timer that has already run out.
    pub fn expired(duration: u32) -> (r: Timer)
        ensures
            r.wf(),
            r.elapsed == duration,
            r.duration == duration,
            r.mode == TimerMode::Once,
            !r.just,
            r.is_finished(),
    {
        Timer { elapsed: duration, duration, mode: TimerMode::Once, just: false }
    }

    pub fn finished(&self) -> (r: bool)
        ensures
            r == self.is_finished(),
    {
        match self.mode {
            TimerMode::Once => self.elapsed >= self.duration,
            TimerMode::Repeating => self.just,
        }
    }

    pub fn just_finished(&self) -> (r: bool)
        ensures
            r == self.just,
    {
        self.just
    }

    /// Advances the timer by `dt` milliseconds.
    pub fn tick(&mut self, dt: u32)
        requires
            old(self).wf(),
        ensures
            *final(self) == old(self).ticked(dt as nat),
            final(self).wf(),
    {
        let total: u64 = self.elapsed as u64 + dt as u64;
        match self.mode {
            TimerMode::Once => {
                let was: bool = self.elapsed < self.duration;
                if total >= self.duration as u64 {
                    self.elapsed = self.duration;
                } else {
                    self.elapsed = total as u32;
                }
                self.just = self.elapsed >= self.duration && was;
            },
            TimerMode::Repeating => {
                if self.duration == 0 {
                    self.elapsed = 0;
                    self.just = true;
                } else if total >= self.duration as u64 {
                    self.elapsed = (total % self.duration as u64) as u32;
                    self.just = true;
                } else {
                    self.elapsed = total as u32;
                    self.just = false;
                }
            },
        }
    }

    /// Sets the elapsed time back to zero.
    pub fn reset(&mut self)
        requires
            old(self).wf(),
        ensures
            *final(self) == old(self).cleared(),
            final(self).wf(),
    {
        self.elapsed = 0;
        self.just = false;
    }
}

} // verus!
