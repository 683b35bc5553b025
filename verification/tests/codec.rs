use bapple::codec::{decode_frame, FrameError};
use bapple::container::Entry;
use bapple::primitives::Bapple;

fn packed(content: &[u8]) -> Vec<u8> {
    zstd::encode_all(content, 3).unwrap()
}

#[test]
fn a_frame_decodes_to_what_was_packed() {
    let text = b"\x1b[38;5;15m##########\n##########\n".to_vec();
    let payload = packed(&text);
    assert_ne!(payload, text);
    let frames = vec![payload];
    assert_eq!(decode_frame(&frames, 0).unwrap(), text);
}

#[test]
fn an_empty_frame_decodes_to_nothing() {
    let payload = packed(b"");
    assert!(!payload.is_empty());
    let frames = vec![payload];
    assert_eq!(decode_frame(&frames, 0).unwrap(), Vec::<u8>::new());
}

#[test]
fn each_frame_decodes_on_its_own() {
    let frames = vec![packed(b"first"), packed(b"second"), packed(b"third")];
    assert_eq!(decode_frame(&frames, 2).unwrap(), b"third".to_vec());
    assert_eq!(decode_frame(&frames, 0).unwrap(), b"first".to_vec());
    assert_eq!(decode_frame(&frames, 1).unwrap(), b"second".to_vec());
    assert_eq!(decode_frame(&frames, 1).unwrap(), b"second".to_vec());
}

#[test]
fn a_payload_that_is_no_zstd_stream_is_corrupt() {
    let frames = vec![b"plain text, never packed".to_vec()];
    assert!(matches!(decode_frame(&frames, 0), Err(FrameError::Corrupt(0, _))));
}

#[test]
fn a_truncated_payload_is_corrupt() {
    let mut payload = packed(&[7u8; 4096]);
    payload.truncate(payload.len() - 3);
    let frames = vec![packed(b"fine"), payload];
    assert!(matches!(decode_frame(&frames, 1), Err(FrameError::Corrupt(1, _))));
    assert_eq!(decode_frame(&frames, 0).unwrap(), b"fine".to_vec());
}

#[test]
fn an_index_past_the_end_is_missing() {
    let frames = vec![packed(b"only")];
    assert!(matches!(decode_frame(&frames, 1), Err(FrameError::Missing(1))));
    assert!(matches!(decode_frame(&frames, usize::MAX), Err(FrameError::Missing(usize::MAX))));
    assert!(matches!(decode_frame(&Vec::new(), 0), Err(FrameError::Missing(0))));
}

#[test]
fn a_player_decodes_its_own_frames() {
    let bapple = Bapple::new(vec![
        Entry::Frame(packed(b"one")),
        Entry::Audio(vec![1, 2, 3]),
        Entry::Frame(b"broken".to_vec()),
        Entry::Frame(packed(b"three")),
    ]);
    assert_eq!(bapple.decode(0).unwrap(), b"one".to_vec());
    assert!(matches!(bapple.decode(1), Err(FrameError::Corrupt(1, _))));
    assert_eq!(bapple.decode(2).unwrap(), b"three".to_vec());
    assert!(matches!(bapple.decode(3), Err(FrameError::Missing(3))));
    assert_eq!(bapple.frame(0), Some(&packed(b"one")));
}
