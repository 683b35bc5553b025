//! The fallback clock: the timing reference of a pass that has no audio track.
//!
//! The clock counts frame intervals on its own, whatever the render loop is
//! doing, so that a loop held up by a slow terminal finds at its next resync
//! where it ought to be. Whoever drives the clock waits one interval, then
//! calls [`FallbackClock::tick`], and publishes the count.

use vstd::prelude::*;

verus! {

/// What a clock holds, as plain numbers.
pub struct ClockState {
    /// Microseconds from one tick to the next.
    pub interval: nat,
    /// The count at which the clock stops: the number of frames.
    pub length: nat,
    /// Intervals counted so far.
    pub ticks: nat,
}

impl ClockState {
    /// A clock that has not counted anything yet.
    pub open spec fn fresh(interval: nat, length: nat) -> ClockState {
        ClockState { interval, length, ticks: 0 }
    }

    /// The count never passes the number of frames.
    pub open spec fn wf(self) -> bool {
        self.ticks <= self.length
    }

    /// Whether the clock has counted every frame.
    pub open spec fn finished(self) -> bool {
        self.ticks >= self.length
    }

    /// The clock one interval later: one more, unless it has finished.
    pub open spec fn ticked(self) -> ClockState {
        if self.ticks < self.length {
            ClockState { ticks: self.ticks + 1, ..self }
        } else {
            self
        }
    }

    /// The clock `intervals` intervals later.
    pub open spec fn after(self, intervals: nat) -> ClockState
        decreases intervals,
    {
        if intervals == 0 {
            self
        } else {
            self.after((intervals - 1) as nat).ticked()
        }
    }
}

/// A free-running counter of frame intervals that stops at the number of frames.
#[derive(Clone, Copy, Debug)]
pub struct FallbackClock {
    frametime: u64,
    length: usize,
    ticks: usize,
}

impl View for FallbackClock {
    type V = ClockState;

    closed spec fn view(&self) -> ClockState {
        ClockState {
            interval: self.frametime as nat,
            length: self.length as nat,
            ticks: self.ticks as nat,
        }
    }
}

impl FallbackClock {
    #[verifier::type_invariant]
    spec fn within_length(self) -> bool {
        self.ticks <= self.length
    }

    /// A clock for `length` frames of `frametime` microseconds each, at zero.
    pub fn new(frametime: u64, length: usize) -> (clock: FallbackClock)
        ensures
            clock@ == ClockState::fresh(frametime as nat, length as nat),
    {
        FallbackClock { frametime, length, ticks: 0 }
    }

    /// Microseconds to wait before each tick.
    pub fn interval(&self) -> (micros: u64)
        ensures
            micros == self@.interval,
    {
        self.frametime
    }

    /// The count at which the clock stops.
    pub fn length(&self) -> (length: usize)
        ensures
            length == self@.length,
    {
        self.length
    }

    /// Intervals counted so far: the value to publish to the render loop.
    pub fn ticks(&self) -> (ticks: usize)
        ensures
            ticks == self@.ticks,
            self@.wf(),
    {
        proof {
            use_type_invariant(self);
        }
        self.ticks
    }

    /// Whether the clock has counted every frame and has nothing left to do.
    pub fn is_finished(&self) -> (finished: bool)
        ensures
            finished == self@.finished(),
    {
        self.ticks >= self.length
    }

    /// Counts one interval. Returns whether the count went up: it does until
    /// it has reached the number of frames, and stays there.
    pub fn tick(&mut self) -> (advanced: bool)
        ensures
            final(self)@ == old(self)@.ticked(),
            advanced == !old(self)@.finished(),
    {
        if self.ticks < self.length {
            self.ticks = self.ticks + 1;
            true
        } else {
            false
        }
    }
}

/// After any number of intervals the clock shows that number, capped at the
/// number of frames: it starts where it was, never runs backwards and never
/// passes the end.
pub proof fn law_clock_counts_intervals(clock: ClockState, intervals: nat)
    requires
        clock.wf(),
    ensures
        clock.after(intervals).wf(),
        clock.after(intervals).interval == clock.interval,
        clock.after(intervals).length == clock.length,
        clock.after(intervals).ticks == if clock.ticks + intervals <= clock.length {
            clock.ticks + intervals
        } else {
            clock.length
        },
    decreases intervals,
{
    if intervals > 0 {
        law_clock_counts_intervals(clock, (intervals - 1) as nat);
    }
}

} // verus!
