use bapple::container::{entry_kind, Entry, EntryKind, Metadata, MICROS_PER_SECOND};
use bapple::machine::Phase;
use bapple::primitives::Bapple;

#[test]
fn reserved_stems_are_told_apart() {
    assert_eq!(entry_kind("audio"), EntryKind::Audio);
    assert_eq!(entry_kind("metadata"), EntryKind::Metadata);
    assert_eq!(entry_kind("0001"), EntryKind::Frame);
    assert_eq!(entry_kind("frame"), EntryKind::Frame);
}

#[test]
fn stems_are_matched_exactly() {
    assert_eq!(entry_kind(""), EntryKind::Frame);
    assert_eq!(entry_kind("Audio"), EntryKind::Frame);
    assert_eq!(entry_kind("audio "), EntryKind::Frame);
    assert_eq!(entry_kind("audio.mp3"), EntryKind::Frame);
    assert_eq!(entry_kind("METADATA"), EntryKind::Frame);
    assert_eq!(entry_kind("metadat"), EntryKind::Frame);
}

#[test]
fn metadata_frametime_takes_priority() {
    assert_eq!(Metadata::new(33333, 10).declared_frametime(), Some(33333));
    assert_eq!(Metadata::new(1, 0).declared_frametime(), Some(1));
}

#[test]
fn metadata_rate_is_used_when_frametime_is_zero() {
    assert_eq!(MICROS_PER_SECOND, 1_000_000);
    assert_eq!(Metadata::new(0, 30).declared_frametime(), Some(33333));
    assert_eq!(Metadata::new(0, 10).declared_frametime(), Some(100_000));
    assert_eq!(Metadata::new(0, 1).declared_frametime(), Some(1_000_000));
    assert_eq!(Metadata::new(0, 3).declared_frametime(), Some(333_333));
}

#[test]
fn metadata_rate_above_a_million_declares_zero() {
    assert_eq!(Metadata::new(0, 1_000_000).declared_frametime(), Some(1));
    assert_eq!(Metadata::new(0, 1_000_001).declared_frametime(), Some(0));
    assert_eq!(Metadata::new(0, u64::MAX).declared_frametime(), Some(0));
}

#[test]
fn empty_metadata_declares_nothing() {
    assert_eq!(Metadata::new(0, 0).declared_frametime(), None);
    assert_eq!(Metadata::default(), Metadata::new(0, 0));
    assert_eq!(Metadata::default().declared_frametime(), None);
}

#[test]
fn process_frames_hands_back_a_frame_payload() {
    let mut has_audio = false;
    let mut audio = vec![9u8];
    let mut frametime = 7u64;
    let frame = Bapple::process_frames(
        Entry::Frame(vec![1, 2, 3]),
        &mut has_audio,
        &mut audio,
        &mut frametime,
    );
    assert_eq!(frame, Some(vec![1, 2, 3]));
    assert!(!has_audio);
    assert_eq!(audio, vec![9u8]);
    assert_eq!(frametime, 7);
}

#[test]
fn process_frames_keeps_the_sound_track() {
    let mut has_audio = false;
    let mut audio = Vec::new();
    let mut frametime = 7u64;
    let frame = Bapple::process_frames(
        Entry::Audio(vec![4, 5]),
        &mut has_audio,
        &mut audio,
        &mut frametime,
    );
    assert_eq!(frame, None);
    assert!(has_audio);
    assert_eq!(audio, vec![4u8, 5]);
    assert_eq!(frametime, 7);
}

#[test]
fn process_frames_applies_metadata() {
    let mut has_audio = true;
    let mut audio = vec![1u8];
    let mut frametime = 7u64;
    let frame = Bapple::process_frames(
        Entry::Metadata(Metadata::new(0, 25)),
        &mut has_audio,
        &mut audio,
        &mut frametime,
    );
    assert_eq!(frame, None);
    assert!(has_audio);
    assert_eq!(audio, vec![1u8]);
    assert_eq!(frametime, 40_000);
}

#[test]
fn process_frames_leaves_frametime_when_nothing_is_declared() {
    let mut has_audio = false;
    let mut audio = Vec::new();
    let mut frametime = 7u64;
    let frame = Bapple::process_frames(
        Entry::Metadata(Metadata::default()),
        &mut has_audio,
        &mut audio,
        &mut frametime,
    );
    assert_eq!(frame, None);
    assert_eq!(frametime, 7);
}

#[test]
fn new_keeps_frames_in_load_order() {
    let bapple = Bapple::new(vec![
        Entry::Frame(vec![3]),
        Entry::Metadata(Metadata::new(33333, 0)),
        Entry::Frame(vec![1]),
        Entry::Audio(vec![7, 7]),
        Entry::Frame(vec![2]),
    ]);
    assert_eq!(bapple.length(), 3);
    assert_eq!(bapple.frame(0), Some(&vec![3u8]));
    assert_eq!(bapple.frame(1), Some(&vec![1u8]));
    assert_eq!(bapple.frame(2), Some(&vec![2u8]));
    assert_eq!(bapple.frame(3), None);
    assert_eq!(bapple.frame(usize::MAX), None);
    assert!(bapple.has_audio());
    assert_eq!(bapple.audio(), &vec![7u8, 7]);
    assert_eq!(bapple.frametime(), 33333);
    assert_eq!(bapple.counter(), 0);
    assert_eq!(bapple.phase(), Phase::Idle);
}

#[test]
fn new_of_nothing_is_an_empty_silent_store() {
    let bapple = Bapple::new(Vec::new());
    assert_eq!(bapple.length(), 0);
    assert_eq!(bapple.frame(0), None);
    assert!(!bapple.has_audio());
    assert!(bapple.audio().is_empty());
    assert_eq!(bapple.frametime(), 0);
    assert_eq!(bapple.counter(), 0);
}

#[test]
fn the_last_sound_track_counts() {
    let bapple = Bapple::new(vec![
        Entry::Audio(vec![1]),
        Entry::Frame(vec![0]),
        Entry::Audio(vec![2, 3]),
    ]);
    assert!(bapple.has_audio());
    assert_eq!(bapple.audio(), &vec![2u8, 3]);
    assert_eq!(bapple.length(), 1);
}

#[test]
fn an_empty_sound_track_still_counts_as_one() {
    let bapple = Bapple::new(vec![Entry::Audio(Vec::new())]);
    assert!(bapple.has_audio());
    assert!(bapple.audio().is_empty());
}

#[test]
fn the_last_metadata_that_declares_counts() {
    let bapple = Bapple::new(vec![
        Entry::Metadata(Metadata::new(20_000, 0)),
        Entry::Metadata(Metadata::new(0, 0)),
    ]);
    assert_eq!(bapple.frametime(), 20_000);
    let bapple = Bapple::new(vec![
        Entry::Metadata(Metadata::new(20_000, 0)),
        Entry::Metadata(Metadata::new(0, 40)),
    ]);
    assert_eq!(bapple.frametime(), 25_000);
    let bapple = Bapple::new(vec![
        Entry::Metadata(Metadata::new(0, 50)),
        Entry::Metadata(Metadata::new(40_000, 10)),
    ]);
    assert_eq!(bapple.frametime(), 40_000);
}

#[test]
fn a_rate_too_high_takes_the_frametime_away() {
    let bapple = Bapple::new(vec![
        Entry::Metadata(Metadata::new(20_000, 0)),
        Entry::Metadata(Metadata::new(0, 2_000_000)),
    ]);
    assert_eq!(bapple.frametime(), 0);
}

#[test]
fn set_frametime_overrides_whatever_was_declared() {
    for declared in [Metadata::new(0, 0), Metadata::new(33333, 0), Metadata::new(0, 24)] {
        let mut bapple = Bapple::new(vec![Entry::Metadata(declared), Entry::Frame(vec![1])]);
        bapple.set_frametime(100_000);
        assert_eq!(bapple.frametime(), 100_000);
        assert_eq!(bapple.length(), 1);
        assert_eq!(bapple.counter(), 0);
        assert!(!bapple.has_audio());
    }
}

#[test]
fn a_rate_of_ten_gives_a_tenth_of_a_second() {
    let mut frames: Vec<Entry> = (0..30u8).map(|i| Entry::Frame(vec![i])).collect();
    frames.push(Entry::Metadata(Metadata::new(33333, 0)));
    let mut bapple = Bapple::new(frames);
    assert_eq!(bapple.frametime(), 33333);
    let frames_per_second: f64 = 10.0;
    bapple.set_frametime((1_000_000.0 / frames_per_second) as u64);
    assert_eq!(bapple.frametime(), 100_000);
    assert_eq!(bapple.length(), 30);
}
