//! What holds of the render loop over whole runs of events.

use crate::clock::ClockState;
use crate::container::{lemma_nothing_declared, nothing_declared, Entry};
use crate::machine::{Action, Event, Phase, PlayError, Playback};
use crate::resync::{
    lemma_last_index_is_resync, lemma_position_within_store, nearest_index, resync_due,
};
use vstd::prelude::*;

verus! {

/// The indices `0, 1, ..` below `count`, in order.
pub open spec fn frame_range(count: nat) -> Seq<usize> {
    Seq::new(count, |i: int| i as usize)
}

/// Whether the driver kept to the protocol: no event of the run was refused.
pub open spec fn in_turn(start: Playback, events: Seq<Event>) -> bool {
    forall|i: int| 0 <= i < events.len() ==> (#[trigger] start.answer(events.take(i + 1))) is Ok
}

/// Whether the run is one pass and no more: it opens with `Start` and holds
/// no other.
pub open spec fn single_pass(events: Seq<Event>) -> bool {
    &&& events.len() > 0
    &&& events[0] == Event::Start
    &&& forall|i: int| 1 <= i < events.len() ==> #[trigger] events[i] != Event::Start
}

/// Whether a clock count read after the frame at `counter` moves the loop on
/// by exactly one frame: it is one more than that index, or, after the last
/// frame, any count that ends the pass.
pub open spec fn keeps_step(ticks: usize, counter: usize, length: nat) -> bool {
    ticks == counter + 1 || (counter + 1 == length && ticks >= length)
}

/// Whether the fallback clock kept step with the render loop: at every resync
/// of the run it had counted one frame more than the index of the frame just
/// shown.
pub open spec fn clock_in_step(start: Playback, events: Seq<Event>) -> bool {
    forall|i: int|
        0 <= i < events.len() ==> match #[trigger] events[i] {
            Event::Ticks { ticks, .. } => keeps_step(
                ticks,
                start.run(events.take(i)).counter,
                start.length(),
            ),
            _ => true,
        }
}

/// A frame is only ever asked for if it exists, and it is the current one.
pub proof fn law_display_within_store(state: Playback, event: Event)
    ensures
        state.step(event).1 matches Ok(Action::Display(index)) ==> index < state.length() && index
            == state.step(event).0.counter && state.step(event).0.phase is Rendering,
{
}

/// Playing changes neither the frames nor the sound nor the frame time: the
/// store is as it was loaded, whatever the events.
pub proof fn law_store_is_kept(state: Playback, event: Event)
    ensures
        state.step(event).0.frames == state.frames,
        state.step(event).0.audio == state.audio,
        state.step(event).0.has_audio == state.has_audio,
        state.step(event).0.frametime == state.frametime,
{
}

/// The current frame never leaves the store as long as the readings stay in
/// range: a player within its store is within it after every such event.
pub proof fn law_counter_stays_within_store(state: Playback, event: Event)
    requires
        state.wf(),
        state.within_store(),
        state.in_range(event),
    ensures
        state.step(event).0.within_store(),
{
    if state.phase is Resyncing && state.has_audio {
        if let Event::Position { position, .. } = event {
            lemma_position_within_store(position as nat, state.total as nat, state.length());
        }
    }
}

/// A resync is asked for at the multiples of the resync interval and nowhere
/// else: after a frame is shown, the answer is `Resync` exactly when its index
/// is such a multiple.
pub proof fn law_resync_at_interval(state: Playback)
    requires
        state.phase is Rendering,
    ensures
        state.step(Event::Displayed).1 == Ok::<Action, PlayError>(Action::Resync(state.source()))
            <==> resync_due(state.counter as nat),
        !resync_due(state.counter as nat) ==> state.step(Event::Displayed).1 == Ok::<
            Action,
            PlayError,
        >(Action::Pace) && state.step(Event::Displayed).0.counter == state.counter + 1,
{
    lemma_last_index_is_resync();
}

/// A resync on the sound's position puts the player at
/// `round(position / total * length)`, which lies within the store for every
/// position within the track.
pub proof fn law_audio_resync_within_store(state: Playback, position: u64, stop: bool)
    requires
        state.wf(),
        state.phase is Resyncing,
        state.has_audio,
        position <= state.total,
    ensures
        state.step(Event::Position { position, stop }).0.counter <= state.length(),
{
    lemma_position_within_store(position as nat, state.total as nat, state.length());
}

/// A resync puts the player exactly where the timing reference says: at the
/// clock's count, or at the frame nearest to the sound's share of the track.
pub proof fn law_resync_takes_reading(state: Playback, reading: u64, ticks: usize, stop: bool)
    requires
        state.wf(),
        state.phase is Resyncing,
    ensures
        !state.has_audio ==> state.step(Event::Ticks { ticks, stop }).0.counter == ticks,
        state.has_audio ==> state.step(Event::Position { position: reading, stop }).0.counter
            == nearest_index(reading as nat, state.total as nat, state.length()),
{
}

/// The cancellation flag is honoured at the resync that finds it set,
/// whatever the reading: the pass stops there.
pub proof fn law_stop_ends_pass(state: Playback, event: Event)
    requires
        state.phase is Resyncing,
        match event {
            Event::Position { stop, .. } => stop && state.has_audio,
            Event::Ticks { stop, .. } => stop && !state.has_audio,
            _ => false,
        },
    ensures
        state.step(event).1 == Err::<Action, PlayError>(PlayError::Stopped),
        state.step(event).0.phase is Aborted,
{
}

/// Without a frame time nothing is ever shown: a player that is not playing
/// and knows no frame time refuses every start, and no run of events moves it.
pub proof fn law_unknown_frametime_shows_nothing(state: Playback, events: Seq<Event>)
    requires
        state.frametime == 0,
        !state.running(),
    ensures
        state.step(Event::Start) == (state, Err::<Action, PlayError>(PlayError::FrametimeZero)),
        state.run(events) == state,
        state.shown(events) == Seq::<usize>::empty(),
    decreases events.len(),
{
    if events.len() > 0 {
        law_unknown_frametime_shows_nothing(state, events.drop_last());
    }
}

/// A container whose metadata declares neither a frame time nor a rate, and
/// that is given none from outside, cannot be started.
pub proof fn law_undeclared_frametime_refuses_start(entries: Seq<Entry>)
    requires
        nothing_declared(entries),
    ensures
        Playback::loaded(entries).frametime == 0,
        Playback::loaded(entries).step(Event::Start) == (
            Playback::loaded(entries),
            Err::<Action, PlayError>(PlayError::FrametimeZero),
        ),
{
    lemma_nothing_declared(entries);
}

/// A frame time given from outside stands, whatever the container declared,
/// and touches nothing else; if it is not zero, the pass can begin.
pub proof fn law_given_frametime_overrides(entries: Seq<Entry>, frametime: u64)
    ensures
        Playback::loaded(entries).with_frametime(frametime).frametime == frametime,
        Playback::loaded(entries).with_frametime(frametime) == (Playback {
            frametime,
            ..Playback::loaded(entries)
        }),
        frametime != 0 ==> Playback::loaded(entries).with_frametime(frametime).step(
            Event::Start,
        ).1 is Ok,
{
}

/// A pass that completes leaves the player at frame 0, and the next pass
/// begins at frame 0 with a clock that has counted nothing.
pub proof fn law_next_pass_starts_afresh(state: Playback, event: Event)
    requires
        state.step(event).1 == Ok::<Action, PlayError>(Action::Finish),
    ensures
        state.step(event).0.phase is Done,
        state.step(event).0.counter == 0,
        state.frametime != 0 ==> {
            let again = state.step(event).0.step(Event::Start);
            &&& again.1 == Ok::<Action, PlayError>(Action::Open(state.source()))
            &&& again.0.phase is Opening
            &&& again.0.counter == 0
            &&& ClockState::fresh(again.0.frametime as nat, again.0.length()).ticks == 0
        },
{
}

/// One event more: the state, the answer and the frames shown after `upto + 1`
/// events follow from those after `upto` by one step.
proof fn lemma_one_more(start: Playback, events: Seq<Event>, upto: int)
    requires
        0 <= upto < events.len(),
    ensures
        start.run(events.take(upto + 1)) == start.run(events.take(upto)).step(events[upto]).0,
        start.answer(events.take(upto + 1)) == start.run(events.take(upto)).step(events[upto]).1,
        start.shown(events.take(upto + 1)) == match start.run(events.take(upto)).step(
            events[upto],
        ).1 {
            Ok(Action::Display(index)) => start.shown(events.take(upto)).push(index),
            _ => start.shown(events.take(upto)),
        },
{
    assert(events.take(upto + 1).drop_last() == events.take(upto));
    assert(events.take(upto + 1).last() == events[upto]);
}

/// What has been shown is never taken back: the frames shown by the first
/// `upto` events open the list of those shown by all.
proof fn lemma_shown_grows(start: Playback, events: Seq<Event>, upto: int)
    requires
        0 <= upto <= events.len(),
    ensures
        start.shown(events.take(upto)).len() <= start.shown(events).len(),
        start.shown(events.take(upto)) == start.shown(events).take(
            start.shown(events.take(upto)).len() as int,
        ),
    decreases events.len() - upto,
{
    let all = start.shown(events);
    let here = start.shown(events.take(upto));
    if upto == events.len() {
        assert(events.take(upto) == events);
        assert(all.take(all.len() as int) == all);
    } else {
        lemma_shown_grows(start, events, upto + 1);
        lemma_one_more(start, events, upto);
        let next = start.shown(events.take(upto + 1));
        assert(here == next.take(here.len() as int));
        assert(here == all.take(here.len() as int));
    }
}

/// What holds after each event of a pass whose clock keeps step: every frame
/// up to the current one has been shown once, in order.
spec fn pass_so_far(start: Playback, now: Playback, shown: Seq<usize>) -> bool {
    &&& now.frames == start.frames
    &&& !now.has_audio
    &&& now.frametime == start.frametime
    &&& match now.phase {
        Phase::Opening => now.counter == 0 && shown == frame_range(0),
        Phase::Clearing => now.counter == 0 && shown == frame_range(0),
        Phase::Rendering => now.counter < start.length() && shown == frame_range(
            (now.counter + 1) as nat,
        ),
        Phase::Resyncing => now.counter < start.length() && shown == frame_range(
            (now.counter + 1) as nat,
        ),
        Phase::Pacing => if now.counter < start.length() {
            shown == frame_range(now.counter as nat)
        } else {
            shown == frame_range(start.length())
        },
        Phase::Done => now.counter == 0 && shown == frame_range(start.length()),
        _ => false,
    }
}

proof fn lemma_in_step_so_far(start: Playback, events: Seq<Event>, upto: int)
    requires
        start.wf(),
        !start.running(),
        !start.has_audio,
        start.frametime > 0,
        start.length() > 0,
        single_pass(events),
        in_turn(start, events),
        clock_in_step(start, events),
        1 <= upto <= events.len(),
    ensures
        pass_so_far(start, start.run(events.take(upto)), start.shown(events.take(upto))),
    decreases upto,
{
    let earlier = events.take(upto - 1);
    lemma_one_more(start, events, upto - 1);
    assert(start.answer(events.take((upto - 1) + 1)) is Ok);
    if upto == 1 {
        assert(earlier.len() == 0);
        assert(start.run(earlier) == start);
        assert(start.shown(earlier) == Seq::<usize>::empty());
        assert(start.shown(events.take(upto)) =~= frame_range(0));
    } else {
        lemma_in_step_so_far(start, events, upto - 1);
        let before = start.run(earlier);
        let shown = start.shown(earlier);
        assert(events[upto - 1] != Event::Start);
        match before.phase {
            Phase::Clearing => {
                assert(shown.push(0) =~= frame_range(1));
            },
            Phase::Pacing => {
                if before.counter < start.length() {
                    assert(shown.push(before.counter) =~= frame_range((before.counter + 1) as nat));
                }
            },
            _ => {},
        }
    }
}

/// What holds after each event of a pass that shows every frame once, in
/// order: the frames shown so far are the first so many, and the frame on
/// screen is the last of them.
spec fn shown_in_order(start: Playback, now: Playback, shown: Seq<usize>, at_end: bool) -> bool {
    &&& now.frames == start.frames
    &&& !now.has_audio
    &&& now.frametime == start.frametime
    &&& shown.len() <= start.length()
    &&& shown == frame_range(shown.len())
    &&& match now.phase {
        Phase::Opening => now.counter == 0 && shown.len() == 0,
        Phase::Clearing => now.counter == 0 && shown.len() == 0,
        Phase::Rendering => now.counter + 1 == shown.len(),
        Phase::Resyncing => now.counter + 1 == shown.len(),
        Phase::Pacing => true,
        Phase::Done => at_end && shown.len() == start.length(),
        _ => false,
    }
}

proof fn lemma_in_order_so_far(start: Playback, events: Seq<Event>, upto: int)
    requires
        start.wf(),
        !start.running(),
        !start.has_audio,
        start.frametime > 0,
        start.length() > 0,
        single_pass(events),
        in_turn(start, events),
        start.shown(events) == frame_range(start.length()),
        1 <= upto <= events.len(),
    ensures
        shown_in_order(
            start,
            start.run(events.take(upto)),
            start.shown(events.take(upto)),
            upto == events.len(),
        ),
    decreases upto,
{
    let earlier = events.take(upto - 1);
    let now = start.run(events.take(upto));
    let shown = start.shown(events.take(upto));
    lemma_one_more(start, events, upto - 1);
    lemma_shown_grows(start, events, upto);
    assert(shown =~= frame_range(shown.len()));
    assert(start.answer(events.take((upto - 1) + 1)) is Ok);
    if upto == 1 {
        assert(earlier.len() == 0);
        assert(start.run(earlier) == start);
        assert(start.shown(earlier) == Seq::<usize>::empty());
    } else {
        lemma_in_order_so_far(start, events, upto - 1);
        let before = start.run(earlier);
        assert(events[upto - 1] != Event::Start);
        if before.phase is Pacing && before.counter < start.length() {
            assert(shown[shown.len() - 1] == before.counter);
        }
    }
    if now.phase is Done {
        if upto < events.len() {
            lemma_one_more(start, events, upto);
            assert(start.answer(events.take(upto + 1)) is Ok);
            assert(events[upto] != Event::Start);
        }
        assert(events.take(upto) == events);
    }
}

/// A pass is no sooner complete than the player is back at frame 0.
proof fn lemma_done_at_zero(start: Playback, events: Seq<Event>)
    requires
        single_pass(events),
        in_turn(start, events),
        start.run(events).phase is Done,
    ensures
        start.run(events).counter == 0,
{
    let last = events.len() - 1;
    lemma_one_more(start, events, last);
    assert(events.take(last + 1) == events);
    assert(start.answer(events.take(last + 1)) is Ok);
    if last == 0 {
        assert(events.take(0).len() == 0);
        assert(start.run(events.take(0)) == start);
    } else {
        assert(events[last] != Event::Start);
    }
}

/// In a pass that shows every frame once, in order, each reading of the
/// clock is one that keeps step: the frame shown next is the one it names.
proof fn lemma_reading_in_step(start: Playback, events: Seq<Event>, at: int)
    requires
        start.wf(),
        !start.running(),
        !start.has_audio,
        start.frametime > 0,
        start.length() > 0,
        single_pass(events),
        in_turn(start, events),
        start.run(events).phase is Done,
        start.shown(events) == frame_range(start.length()),
        0 <= at < events.len(),
        events[at] is Ticks,
    ensures
        keeps_step(events[at]->ticks, start.run(events.take(at)).counter, start.length()),
{
    // The reading is taken in at a resync.
    lemma_in_order_so_far(start, events, at);
    lemma_one_more(start, events, at);
    assert(start.answer(events.take(at + 1)) is Ok);
    assert(events.take(events.len() as int) == events);
    // The pass goes on from it, to the next frame or to its end.
    lemma_one_more(start, events, at + 1);
    assert(start.answer(events.take((at + 1) + 1)) is Ok);
    lemma_in_order_so_far(start, events, at + 2);
    let shown = start.shown(events.take(at + 2));
    if start.run(events.take(at + 2)).phase is Rendering {
        assert(shown[shown.len() - 1] == start.run(events.take(at + 1)).counter);
    }
}

/// A pass without sound shows every frame exactly once, in order, if and only
/// if the clock keeps step with it; then it has shown as many frames as there
/// are. However the clock runs, the pass ends at frame 0.
///
/// The run is one whole pass of a player that has frames and a frame time:
/// from `Start` to the state `Done`, with every event in turn.
pub proof fn law_every_frame_once_iff_clock_in_step(start: Playback, events: Seq<Event>)
    requires
        start.wf(),
        !start.running(),
        !start.has_audio,
        start.frametime > 0,
        start.length() > 0,
        single_pass(events),
        in_turn(start, events),
        start.run(events).phase is Done,
    ensures
        start.run(events).counter == 0,
        start.shown(events) == frame_range(start.length()) <==> clock_in_step(start, events),
        clock_in_step(start, events) ==> start.shown(events).len() == start.length(),
{
    lemma_done_at_zero(start, events);
    assert(events.take(events.len() as int) == events);
    if clock_in_step(start, events) {
        lemma_in_step_so_far(start, events, events.len() as int);
    }
    if start.shown(events) == frame_range(start.length()) {
        assert forall|i: int| 0 <= i < events.len() implies match #[trigger] events[i] {
            Event::Ticks { ticks, .. } => keeps_step(
                ticks,
                start.run(events.take(i)).counter,
                start.length(),
            ),
            _ => true,
        } by {
            if events[i] is Ticks {
                lemma_reading_in_step(start, events, i);
            }
        }
    }
}

} // verus!
