//! The player: a frame store, what is known of its timing, and the render
//! loop's position in it.

use crate::clock::{ClockState, FallbackClock};
use crate::codec::{decode_frame, frame_content, zstd_decoded, FrameError};
use crate::container::{stored_audio, stored_frames, stored_frametime, Entry};
use crate::machine::{budget_left, Action, Event, Phase, PlayError, Playback, Source};
use crate::resync::{
    is_resync_index, lemma_last_index_is_resync, nearest_index, position_index,
};
use vstd::prelude::*;

verus! {

/// A loaded container and the state of its playback.
#[derive(Debug)]
pub struct Bapple {
    compressed_frames: Vec<Vec<u8>>,
    audio: Vec<u8>,
    has_audio: bool,
    frametime: u64,
    counter: usize,
    length: usize,
    phase: Phase,
    total: u64,
}

impl View for Bapple {
    type V = Playback;

    closed spec fn view(&self) -> Playback {
        Playback {
            frames: self.compressed_frames.deep_view(),
            audio: self.audio@,
            has_audio: self.has_audio,
            frametime: self.frametime,
            counter: self.counter,
            phase: self.phase,
            total: self.total,
        }
    }
}

impl Bapple {
    #[verifier::type_invariant]
    spec fn length_is_kept(self) -> bool {
        self.length == self.compressed_frames.len()
    }

    /// Takes one entry in: a frame payload is handed back for the store, a
    /// sound track replaces the one before it, a metadata record replaces the
    /// frame time if it declares one.
    pub fn process_frames(
        entry: Entry,
        has_audio: &mut bool,
        audio: &mut Vec<u8>,
        outer_frametime: &mut u64,
    ) -> (frame: Option<Vec<u8>>)
        ensures
            match entry {
                Entry::Audio(track) => {
                    &&& frame is None
                    &&& *final(has_audio)
                    &&& *final(audio) == track
                    &&& *final(outer_frametime) == *old(outer_frametime)
                },
                Entry::Metadata(metadata) => {
                    &&& frame is None
                    &&& *final(has_audio) == *old(has_audio)
                    &&& *final(audio) == *old(audio)
                    &&& *final(outer_frametime) == metadata.applied_to(*old(outer_frametime))
                },
                Entry::Frame(payload) => {
                    &&& frame == Some(payload)
                    &&& *final(has_audio) == *old(has_audio)
                    &&& *final(audio) == *old(audio)
                    &&& *final(outer_frametime) == *old(outer_frametime)
                },
            },
    {
        match entry {
            Entry::Audio(track) => {
                *has_audio = true;
                *audio = track;
                None
            },
            Entry::Metadata(metadata) => {
                if let Some(frametime) = metadata.declared_frametime() {
                    *outer_frametime = frametime;
                }
                None
            },
            Entry::Frame(payload) => Some(payload),
        }
    }

    /// Loads a container from its entries, taken in archive order.
    pub fn new(entries: Vec<Entry>) -> (bapple: Bapple)
        ensures
            bapple@ == Playback::loaded(entries@),
            bapple@.wf(),
    {
        let mut audio: Vec<u8> = Vec::new();
        let mut has_audio = false;
        let mut frametime: u64 = 0;
        let mut compressed_frames: Vec<Vec<u8>> = Vec::new();
        let ghost all = entries@;
        for entry in it: entries
            invariant
                it.seq() == all,
                compressed_frames.deep_view() == stored_frames(all.take(it.index() as int)),
                has_audio == (stored_audio(all.take(it.index() as int)) is Some),
                audio@ == match stored_audio(all.take(it.index() as int)) {
                    Some(track) => track,
                    None => Seq::empty(),
                },
                frametime == stored_frametime(all.take(it.index() as int)),
        {
            let ghost before = compressed_frames.deep_view();
            proof {
                let upto = all.take(it.index() + 1);
                assert(upto.drop_last() == all.take(it.index() as int));
                assert(upto.last() == entry);
            }
            if let Some(frame) = Self::process_frames(
                entry,
                &mut has_audio,
                &mut audio,
                &mut frametime,
            ) {
                compressed_frames.push(frame);
                assert(compressed_frames.deep_view() =~~= before.push(frame@));
            }
        }
        assert(all.take(all.len() as int) == all);
        let length = compressed_frames.len();
        Bapple {
            compressed_frames,
            audio,
            has_audio,
            frametime,
            counter: 0,
            length,
            phase: Phase::Idle,
            total: 0,
        }
    }

    /// Puts the frame time, in microseconds, in place of whatever the
    /// container declared. Zero takes the frame time away.
    pub fn set_frametime(&mut self, frametime: u64)
        ensures
            final(self)@ == old(self)@.with_frametime(frametime),
    {
        proof {
            use_type_invariant(&*self);
        }
        self.frametime = frametime;
    }

    /// Puts the player at the frame that the fallback clock counts.
    pub fn backup_resync(&mut self, ticks: usize)
        ensures
            final(self)@ == old(self)@.at(ticks),
    {
        proof {
            use_type_invariant(&*self);
        }
        self.counter = ticks;
    }

    /// The frame at which a sound at `position` of `total` stands.
    pub fn get_pos(&self, position: u64, total: u64) -> (frame: usize)
        ensures
            frame == nearest_index(position as nat, total as nat, self@.length()),
    {
        proof {
            use_type_invariant(self);
        }
        position_index(position, total, self.length)
    }

    /// Moves the render loop by one event and says what the driver is to do
    /// next, or why the pass is over.
    pub fn play(&mut self, event: Event) -> (answer: Result<Action, PlayError>)
        ensures
            final(self)@ == old(self)@.step(event).0,
            answer == old(self)@.step(event).1,
    {
        proof {
            use_type_invariant(&*self);
        }
        match (self.phase, event) {
            (Phase::Idle, Event::Start) => self.begin(),
            (Phase::Done, Event::Start) => self.begin(),
            (Phase::Aborted, Event::Start) => self.begin(),
            (Phase::Opening, Event::Opened { total }) => self.opened(total),
            (Phase::Clearing, Event::Cleared) => self.proceed(),
            (Phase::Rendering, Event::Displayed) => {
                if is_resync_index(self.counter) {
                    self.phase = Phase::Resyncing;
                    Ok(Action::Resync(self.source()))
                } else {
                    proof {
                        lemma_last_index_is_resync();
                    }
                    self.counter += 1;
                    self.phase = Phase::Pacing;
                    Ok(Action::Pace)
                }
            },
            (Phase::Resyncing, Event::Position { position, stop }) => {
                if self.has_audio {
                    self.counter = self.get_pos(position, self.total);
                    self.resynced(stop)
                } else {
                    Err(PlayError::OutOfTurn)
                }
            },
            (Phase::Resyncing, Event::Ticks { ticks, stop }) => {
                if !self.has_audio {
                    self.backup_resync(ticks);
                    self.resynced(stop)
                } else {
                    Err(PlayError::OutOfTurn)
                }
            },
            (Phase::Pacing, Event::Paced) => self.proceed(),
            _ => Err(PlayError::OutOfTurn),
        }
    }

    /// Begins a pass, if the frame time is known.
    fn begin(&mut self) -> (answer: Result<Action, PlayError>)
        ensures
            final(self)@ == old(self)@.begin().0,
            answer == old(self)@.begin().1,
    {
        proof {
            use_type_invariant(&*self);
        }
        if self.frametime == 0 {
            Err(PlayError::FrametimeZero)
        } else {
            self.counter = 0;
            self.phase = Phase::Opening;
            Ok(Action::Open(self.source()))
        }
    }

    /// Takes note of the timing reference and goes on to the screen.
    fn opened(&mut self, total: Option<u64>) -> (answer: Result<Action, PlayError>)
        ensures
            final(self)@ == old(self)@.opened(total).0,
            answer == old(self)@.opened(total).1,
    {
        proof {
            use_type_invariant(&*self);
        }
        if !self.has_audio {
            self.phase = Phase::Clearing;
            Ok(Action::Clear)
        } else {
            match total {
                Some(total) => {
                    self.total = total;
                    self.phase = Phase::Clearing;
                    Ok(Action::Clear)
                },
                None => {
                    self.phase = Phase::Idle;
                    Err(PlayError::DurationUnknown)
                },
            }
        }
    }

    /// Shows the current frame, or ends the pass if there is none left.
    fn proceed(&mut self) -> (answer: Result<Action, PlayError>)
        ensures
            final(self)@ == old(self)@.proceed().0,
            answer == old(self)@.proceed().1,
    {
        proof {
            use_type_invariant(&*self);
        }
        if self.counter < self.length {
            self.phase = Phase::Rendering;
            Ok(Action::Display(self.counter))
        } else {
            self.counter = 0;
            self.phase = Phase::Done;
            Ok(Action::Finish)
        }
    }

    /// Goes on from a resync, unless the cancellation flag is set.
    fn resynced(&mut self, stop: bool) -> (answer: Result<Action, PlayError>)
        ensures
            final(self)@ == old(self)@.resynced(old(self)@.counter, stop).0,
            answer == old(self)@.resynced(old(self)@.counter, stop).1,
    {
        proof {
            use_type_invariant(&*self);
        }
        if stop {
            self.phase = Phase::Aborted;
            Err(PlayError::Stopped)
        } else {
            self.phase = Phase::Pacing;
            Ok(Action::Pace)
        }
    }

    /// The timing reference that a pass goes by.
    pub fn source(&self) -> (source: Source)
        ensures
            source == self@.source(),
    {
        if self.has_audio {
            Source::Audio
        } else {
            Source::Clock
        }
    }

    /// The index of the current frame.
    pub fn counter(&self) -> (counter: usize)
        ensures
            counter == self@.counter,
    {
        self.counter
    }

    /// The number of frames.
    pub fn length(&self) -> (length: usize)
        ensures
            length == self@.length(),
            self@.wf(),
    {
        proof {
            use_type_invariant(self);
        }
        self.length
    }

    /// Microseconds per frame; zero while unknown.
    pub fn frametime(&self) -> (frametime: u64)
        ensures
            frametime == self@.frametime,
    {
        self.frametime
    }

    /// Whether there is a sound track.
    pub fn has_audio(&self) -> (has_audio: bool)
        ensures
            has_audio == self@.has_audio,
    {
        self.has_audio
    }

    /// The bytes of the sound track; empty without one.
    pub fn audio(&self) -> (audio: &Vec<u8>)
        ensures
            audio@ == self@.audio,
    {
        &self.audio
    }

    /// Where the render loop stands.
    pub fn phase(&self) -> (phase: Phase)
        ensures
            phase == self@.phase,
    {
        self.phase
    }

    /// The compressed payload at `index`: there for every index below the
    /// number of frames, and for no other.
    pub fn frame(&self, index: usize) -> (payload: Option<&Vec<u8>>)
        ensures
            match payload {
                Some(bytes) => index < self@.length() && bytes@ == self@.frames[index as int],
                None => index >= self@.length(),
            },
    {
        if index < self.compressed_frames.len() {
            assert(self.compressed_frames.deep_view()[index as int]
                == self.compressed_frames[index as int]@);
            Some(&self.compressed_frames[index])
        } else {
            None
        }
    }

    /// Expands the frame at `index` for display.
    pub fn decode(&self, index: usize) -> (content: Result<Vec<u8>, FrameError>)
        ensures
            match content {
                Ok(bytes) => frame_content(self@.frames, index as nat) == Some(bytes@),
                Err(FrameError::Missing(at)) => at == index && index >= self@.length(),
                Err(FrameError::Corrupt(at, _)) => at == index && index < self@.length()
                    && zstd_decoded(self@.frames[index as int]) is None,
            },
    {
        proof {
            if index < self.compressed_frames.len() {
                assert(self.compressed_frames.deep_view()[index as int]
                    == self.compressed_frames[index as int]@);
            }
        }
        decode_frame(&self.compressed_frames, index)
    }

    /// How long to sleep before the next frame, in nanoseconds, when
    /// `elapsed` nanoseconds of the frame's time are gone. Nothing when the
    /// time is overrun: a late frame is not made up for.
    pub fn remaining(&self, elapsed: u64) -> (left: Option<u128>)
        ensures
            left == budget_left(self@.frametime, elapsed),
    {
        let budget: u128 = (self.frametime as u128) * 1000;
        if elapsed as u128 <= budget {
            Some(budget - elapsed as u128)
        } else {
            None
        }
    }

    /// A fallback clock for one pass: at zero, one tick per frame time, as
    /// many ticks as there are frames.
    pub fn clock(&self) -> (clock: FallbackClock)
        ensures
            clock@ == ClockState::fresh(self@.frametime as nat, self@.length()),
    {
        proof {
            use_type_invariant(self);
        }
        FallbackClock::new(self.frametime, self.length)
    }
}

} // verus!
