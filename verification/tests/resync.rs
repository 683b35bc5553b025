use bapple::container::Entry;
use bapple::primitives::Bapple;
use bapple::resync::{is_resync_index, position_index, RESYNC_INTERVAL};

fn store(frames: usize) -> Bapple {
    Bapple::new((0..frames).map(|_| Entry::Frame(Vec::new())).collect())
}

#[test]
fn resync_falls_on_multiples_of_fifteen() {
    assert_eq!(RESYNC_INTERVAL, 15);
    assert!(is_resync_index(0));
    assert!(is_resync_index(15));
    assert!(is_resync_index(30));
    assert!(is_resync_index(1500));
    for index in 1..15 {
        assert!(!is_resync_index(index));
        assert!(!is_resync_index(15 + index));
    }
    assert!(is_resync_index(usize::MAX));
    assert!(!is_resync_index(usize::MAX - 1));
}

#[test]
fn position_maps_to_its_share_of_the_frames() {
    assert_eq!(position_index(0, 100, 30), 0);
    assert_eq!(position_index(50, 100, 30), 15);
    assert_eq!(position_index(100, 100, 30), 30);
    assert_eq!(position_index(1, 3, 30), 10);
    assert_eq!(position_index(2, 3, 30), 20);
    assert_eq!(position_index(1_000_000, 3_000_000, 9), 3);
}

#[test]
fn position_rounds_to_the_nearest_frame() {
    // 1/4 of 10 frames is 2.5: up.
    assert_eq!(position_index(1, 4, 10), 3);
    // 1/2 of 3 frames is 1.5: up.
    assert_eq!(position_index(1, 2, 3), 2);
    // 49/100 of 1 frame is 0.49: down; 50/100 is 0.5: up.
    assert_eq!(position_index(49, 100, 1), 0);
    assert_eq!(position_index(50, 100, 1), 1);
    // 1/3 of 4 frames is 1.33: down; 2/3 of 4 is 2.67: up.
    assert_eq!(position_index(1, 3, 4), 1);
    assert_eq!(position_index(2, 3, 4), 3);
    // 7/15 of 15 frames is 7 exactly.
    assert_eq!(position_index(7, 15, 15), 7);
}

#[test]
fn position_within_the_track_stays_within_the_store() {
    for total in 1..40u64 {
        for length in 0..20usize {
            let mut last = 0;
            for position in 0..=total {
                let frame = position_index(position, total, length);
                assert!(frame <= length);
                assert!(frame >= last);
                last = frame;
            }
            assert_eq!(position_index(0, total, length), 0);
            assert_eq!(position_index(total, total, length), length);
        }
    }
}

#[test]
fn position_past_the_track_lies_past_the_store() {
    assert_eq!(position_index(150, 100, 30), 45);
    assert_eq!(position_index(101, 100, 30), 30);
    assert_eq!(position_index(102, 100, 30), 31);
}

#[test]
fn position_in_a_track_of_no_length() {
    assert_eq!(position_index(0, 0, 30), 0);
    assert_eq!(position_index(0, 0, 0), 0);
    assert_eq!(position_index(5, 0, 0), 0);
    assert_eq!(position_index(5, 0, 30), usize::MAX);
    assert_eq!(position_index(u64::MAX, 0, 1), usize::MAX);
}

#[test]
fn position_is_capped_at_the_largest_index() {
    assert_eq!(position_index(u64::MAX, 1, usize::MAX), usize::MAX);
    assert_eq!(position_index(u64::MAX, 1, 2), usize::MAX);
    assert_eq!(position_index(u64::MAX, u64::MAX, usize::MAX), usize::MAX);
    assert_eq!(position_index(u64::MAX, u64::MAX, 7), 7);
    assert_eq!(position_index(u64::MAX - 1, u64::MAX, 1), 1);
    assert_eq!(position_index(u64::MAX / 2, u64::MAX, 1), 0);
    assert_eq!(position_index(u64::MAX / 2 + 1, u64::MAX, 1), 1);
}

#[test]
fn empty_store_maps_every_position_to_zero() {
    assert_eq!(position_index(0, 10, 0), 0);
    assert_eq!(position_index(10, 10, 0), 0);
    assert_eq!(position_index(1000, 10, 0), 0);
}

#[test]
fn get_pos_goes_by_the_number_of_frames() {
    let bapple = store(30);
    assert_eq!(bapple.get_pos(0, 60_000), 0);
    assert_eq!(bapple.get_pos(30_000, 60_000), 15);
    assert_eq!(bapple.get_pos(31_000, 60_000), 16);
    assert_eq!(bapple.get_pos(60_000, 60_000), 30);
    assert_eq!(bapple.get_pos(1, 0), usize::MAX);
    assert_eq!(store(0).get_pos(1, 0), 0);
}

#[test]
fn backup_resync_takes_the_clock_count() {
    let mut bapple = store(30);
    bapple.backup_resync(16);
    assert_eq!(bapple.counter(), 16);
    bapple.backup_resync(0);
    assert_eq!(bapple.counter(), 0);
    bapple.backup_resync(30);
    assert_eq!(bapple.counter(), 30);
    assert_eq!(bapple.length(), 30);
}

#[test]
fn remaining_is_what_is_left_of_the_frame_time() {
    let mut bapple = store(1);
    bapple.set_frametime(33333);
    assert_eq!(bapple.remaining(0), Some(33_333_000));
    assert_eq!(bapple.remaining(1), Some(33_332_999));
    assert_eq!(bapple.remaining(33_332_999), Some(1));
    assert_eq!(bapple.remaining(33_333_000), Some(0));
    assert_eq!(bapple.remaining(33_333_001), None);
    assert_eq!(bapple.remaining(u64::MAX), None);
}

#[test]
fn remaining_with_extreme_frame_times() {
    let mut bapple = store(1);
    bapple.set_frametime(0);
    assert_eq!(bapple.remaining(0), Some(0));
    assert_eq!(bapple.remaining(1), None);
    bapple.set_frametime(u64::MAX);
    assert_eq!(bapple.remaining(0), Some(u64::MAX as u128 * 1000));
    assert_eq!(bapple.remaining(u64::MAX), Some(u64::MAX as u128 * 999));
}
