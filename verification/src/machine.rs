//! The render loop as a state machine.
//!
//! The machine decides; a driver acts. The driver hands the machine an
//! [`Event`], gets back an [`Action`] (or the reason why the pass is over),
//! performs it, and reports with the next event:
//!
//! | action            | the driver                                             | then reports     |
//! |-------------------|--------------------------------------------------------|------------------|
//! | `Open(source)`    | starts the sound, or a fresh clock                     | `Opened`         |
//! | `Clear`           | clears the screen and hides the cursor                 | `Cleared`        |
//! | `Display(index)`  | notes the time, expands frame `index`, writes it from the top-left corner | `Displayed` |
//! | `Resync(source)`  | reads the timing reference and the cancellation flag   | `Position` or `Ticks` |
//! | `Pace`            | sleeps for what is left of the frame's time            | `Paced`          |
//! | `Finish`          | shows the cursor again, puts the shared counter back to zero | nothing: the pass is done |
//!
//! On every error the driver shows the cursor again before it reports.

use crate::container::{stored_audio, stored_frames, stored_frametime, Entry};
use crate::resync::{nearest_index, resync_due};
use vstd::prelude::*;

verus! {

/// Where the render loop stands.
#[derive(Clone, Copy, Debug, PartialEq, Eq, Structural)]
pub enum Phase {
    /// No pass has begun.
    Idle,
    /// A pass has begun; the timing reference is being set up.
    Opening,
    /// The timing reference stands; the screen is being made ready.
    Clearing,
    /// A frame is being shown.
    Rendering,
    /// A frame was shown at a resync index; a reading is awaited.
    Resyncing,
    /// The position is settled; the rest of the frame's time is being slept.
    Pacing,
    /// The pass ran to its end.
    Done,
    /// The pass was cancelled.
    Aborted,
}

/// The timing reference of a pass.
#[derive(Clone, Copy, Debug, PartialEq, Eq, Structural)]
pub enum Source {
    /// The position of the sound that is playing.
    Audio,
    /// The fallback clock.
    Clock,
}

/// What the driver reports.
#[derive(Clone, Copy, Debug, PartialEq, Eq)]
pub enum Event {
    /// A pass is to begin.
    Start,
    /// The timing reference is set up. `total` is the length of the sound
    /// track, where it could be determined; it is not read without a track.
    Opened { total: Option<u64> },
    /// The screen is clear and the cursor hidden.
    Cleared,
    /// The frame was written.
    Displayed,
    /// A reading of the sound's position, in the unit of the track's length,
    /// and of the cancellation flag.
    Position { position: u64, stop: bool },
    /// A reading of the fallback clock's count and of the cancellation flag.
    Ticks { ticks: usize, stop: bool },
    /// The frame's time is up.
    Paced,
}

/// What the driver is to do next.
#[derive(Clone, Copy, Debug, PartialEq, Eq, Structural)]
pub enum Action {
    /// Set up the timing reference.
    Open(Source),
    /// Clear the screen and hide the cursor.
    Clear,
    /// Show the frame at this index.
    Display(usize),
    /// Read the timing reference.
    Resync(Source),
    /// Sleep for the rest of the frame's time.
    Pace,
    /// The pass is complete: restore the cursor, reset the shared counter.
    Finish,
}

/// Why a pass does not go on.
#[derive(Clone, Copy, Debug, PartialEq, Eq, Structural)]
pub enum PlayError {
    /// No frame time is known: neither declared nor given.
    FrametimeZero,
    /// The length of the sound track could not be determined.
    DurationUnknown,
    /// The cancellation flag was found set at a resync.
    Stopped,
    /// The event does not answer what the machine last asked for.
    OutOfTurn,
}

/// The state of a player, as plain values.
pub struct Playback {
    /// The compressed frame payloads, in load order.
    pub frames: Seq<Seq<u8>>,
    /// The bytes of the sound track; empty without one.
    pub audio: Seq<u8>,
    /// Whether there is a sound track.
    pub has_audio: bool,
    /// Microseconds per frame; zero while unknown.
    pub frametime: u64,
    /// The index of the frame that is current.
    pub counter: usize,
    /// Where the render loop stands.
    pub phase: Phase,
    /// The length of the sound track, as reported when the pass was opened.
    pub total: u64,
}

impl Playback {
    /// The player that a container's entries make: not yet playing, at frame 0.
    pub open spec fn loaded(entries: Seq<Entry>) -> Playback {
        Playback {
            frames: stored_frames(entries),
            audio: match stored_audio(entries) {
                Some(track) => track,
                None => Seq::empty(),
            },
            has_audio: stored_audio(entries) is Some,
            frametime: stored_frametime(entries),
            counter: 0,
            phase: Phase::Idle,
            total: 0,
        }
    }

    /// The same player with another frame time.
    pub open spec fn with_frametime(self, frametime: u64) -> Playback {
        Playback { frametime, ..self }
    }

    /// The same player at another frame.
    pub open spec fn at(self, counter: usize) -> Playback {
        Playback { counter, ..self }
    }

    /// The number of frames.
    pub open spec fn length(self) -> nat {
        self.frames.len()
    }

    /// The frames can be counted by the machine: true of every player.
    pub open spec fn wf(self) -> bool {
        self.frames.len() <= usize::MAX
    }

    /// The current frame lies within the store, or right at its end; while a
    /// frame is on screen, it is that frame.
    pub open spec fn within_store(self) -> bool {
        &&& self.counter <= self.length()
        &&& (self.phase is Rendering || self.phase is Resyncing) ==> self.counter < self.length()
    }

    /// Whether a reading stays within what its timing reference can give: a
    /// clock count is at most the number of frames, a position at most the
    /// length of the track. Other events read nothing.
    pub open spec fn in_range(self, event: Event) -> bool {
        match event {
            Event::Ticks { ticks, .. } => ticks <= self.length(),
            Event::Position { position, .. } => position <= self.total,
            _ => true,
        }
    }

    /// The timing reference that a pass of this player goes by.
    pub open spec fn source(self) -> Source {
        if self.has_audio {
            Source::Audio
        } else {
            Source::Clock
        }
    }

    /// Whether a pass is under way.
    pub open spec fn running(self) -> bool {
        self.phase is Opening || self.phase is Clearing || self.phase is Rendering
            || self.phase is Resyncing || self.phase is Pacing
    }

    /// The frame that a reading of the sound's position puts the player at.
    pub open spec fn position_frame(self, position: u64) -> usize {
        nearest_index(position as nat, self.total as nat, self.length()) as usize
    }

    /// A pass begins: refused while the frame time is unknown, with nothing
    /// changed; else from frame 0, by setting up the timing reference.
    pub open spec fn begin(self) -> (Playback, Result<Action, PlayError>) {
        if self.frametime == 0 {
            (self, Err(PlayError::FrametimeZero))
        } else {
            (Playback { phase: Phase::Opening, counter: 0, ..self }, Ok(Action::Open(self.source())))
        }
    }

    /// The position is settled: the current frame is shown if there is one,
    /// else the pass is complete and the player back at frame 0.
    pub open spec fn proceed(self) -> (Playback, Result<Action, PlayError>) {
        if self.counter < self.length() {
            (Playback { phase: Phase::Rendering, ..self }, Ok(Action::Display(self.counter)))
        } else {
            (Playback { phase: Phase::Done, counter: 0, ..self }, Ok(Action::Finish))
        }
    }

    /// The timing reference is set up. A sound track of unknown length ends
    /// the pass before the screen is touched; one of known length fixes that
    /// length for the pass.
    pub open spec fn opened(self, total: Option<u64>) -> (Playback, Result<Action, PlayError>) {
        if !self.has_audio {
            (Playback { phase: Phase::Clearing, ..self }, Ok(Action::Clear))
        } else {
            match total {
                Some(total) => (
                    Playback { phase: Phase::Clearing, total, ..self },
                    Ok(Action::Clear),
                ),
                None => (Playback { phase: Phase::Idle, ..self }, Err(PlayError::DurationUnknown)),
            }
        }
    }

    /// A frame was shown: at a resync index a reading is asked for, at any
    /// other the player moves on by one frame. (The largest index that the
    /// machine can hold is a resync index, so the step by one is always exact.)
    pub open spec fn displayed(self) -> (Playback, Result<Action, PlayError>) {
        if resync_due(self.counter as nat) {
            (Playback { phase: Phase::Resyncing, ..self }, Ok(Action::Resync(self.source())))
        } else {
            (
                Playback { phase: Phase::Pacing, counter: (self.counter + 1) as usize, ..self },
                Ok(Action::Pace),
            )
        }
    }

    /// A reading came in: the player is put at the frame it names, and only
    /// then the cancellation flag counts.
    pub open spec fn resynced(self, frame: usize, stop: bool) -> (
        Playback,
        Result<Action, PlayError>,
    ) {
        if stop {
            (Playback { phase: Phase::Aborted, counter: frame, ..self }, Err(PlayError::Stopped))
        } else {
            (Playback { phase: Phase::Pacing, counter: frame, ..self }, Ok(Action::Pace))
        }
    }

    /// The machine's one rule: the state and the answer that follow from a
    /// state and an event. An event that does not fit the phase changes nothing.
    pub open spec fn step(self, event: Event) -> (Playback, Result<Action, PlayError>) {
        match (self.phase, event) {
            (Phase::Idle, Event::Start) => self.begin(),
            (Phase::Done, Event::Start) => self.begin(),
            (Phase::Aborted, Event::Start) => self.begin(),
            (Phase::Opening, Event::Opened { total }) => self.opened(total),
            (Phase::Clearing, Event::Cleared) => self.proceed(),
            (Phase::Rendering, Event::Displayed) => self.displayed(),
            (Phase::Resyncing, Event::Position { position, stop }) => if self.has_audio {
                self.resynced(self.position_frame(position), stop)
            } else {
                (self, Err(PlayError::OutOfTurn))
            },
            (Phase::Resyncing, Event::Ticks { ticks, stop }) => if !self.has_audio {
                self.resynced(ticks, stop)
            } else {
                (self, Err(PlayError::OutOfTurn))
            },
            (Phase::Pacing, Event::Paced) => self.proceed(),
            _ => (self, Err(PlayError::OutOfTurn)),
        }
    }

    /// The state after a run of events.
    pub open spec fn run(self, events: Seq<Event>) -> Playback
        decreases events.len(),
    {
        if events.len() == 0 {
            self
        } else {
            self.run(events.drop_last()).step(events.last()).0
        }
    }

    /// The answer to the last of a run of events.
    pub open spec fn answer(self, events: Seq<Event>) -> Result<Action, PlayError>
        recommends
            events.len() > 0,
    {
        self.run(events.drop_last()).step(events.last()).1
    }

    /// The frames that a run of events had shown, in order.
    pub open spec fn shown(self, events: Seq<Event>) -> Seq<usize>
        decreases events.len(),
    {
        if events.len() == 0 {
            Seq::empty()
        } else {
            match self.answer(events) {
                Ok(Action::Display(index)) => self.shown(events.drop_last()).push(index),
                _ => self.shown(events.drop_last()),
            }
        }
    }
}

/// What is left of a frame's time after `elapsed` nanoseconds of it: the
/// difference in nanoseconds, nothing once the time is overrun.
pub open spec fn budget_left(frametime: u64, elapsed: u64) -> Option<u128> {
    if elapsed <= frametime * 1000 {
        Some((frametime * 1000 - elapsed) as u128)
    } else {
        None
    }
}

} // verus!
