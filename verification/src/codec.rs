//! Frame payloads are stored compressed and expanded one at a time, right
//! before they are shown. The expansion itself is zstd's.

use vstd::prelude::*;

verus! {

/// The error that std's I/O layer reports. Nothing inside it is visible here;
/// it is carried through to whoever reports it.
#[verifier::external_type_specification]
#[verifier::external_body]
pub struct ExIoError(std::io::Error);

/// What `zstd::decode_all` makes of a byte string: the bytes that it decodes
/// to, or nothing where it reports an error.
pub uninterp spec fn zstd_decoded(compressed: Seq<u8>) -> Option<Seq<u8>>;

/// Calls `zstd::decode_all` on a payload held in memory. Trusted: whether the
/// call succeeds, and with which bytes, depends on the payload alone.
#[verifier::external_body]
pub(crate) fn zstd_decode_all(compressed: &[u8]) -> (decoded: Result<Vec<u8>, std::io::Error>)
    ensures
        match decoded {
            Ok(bytes) => zstd_decoded(compressed@) == Some(bytes@),
            Err(_) => zstd_decoded(compressed@) is None,
        },
{
    zstd::decode_all(compressed)
}

/// Why a frame could not be produced for display.
#[derive(Debug)]
pub enum FrameError {
    /// There is no frame at this index.
    Missing(usize),
    /// The payload at this index is not a zstd stream that decodes.
    Corrupt(usize, std::io::Error),
}

/// What asking for frame `index` of `frames` yields: the expansion of the
/// payload stored there.
pub open spec fn frame_content(frames: Seq<Seq<u8>>, index: nat) -> Option<Seq<u8>> {
    if index < frames.len() {
        zstd_decoded(frames[index as int])
    } else {
        None
    }
}

/// Expands the payload at `index`. Fails with `Missing` exactly when the index
/// is past the end, and with `Corrupt` exactly when the payload does not decode.
pub fn decode_frame(frames: &Vec<Vec<u8>>, index: usize) -> (content: Result<Vec<u8>, FrameError>)
    ensures
        match content {
            Ok(bytes) => frame_content(frames.deep_view(), index as nat) == Some(bytes@),
            Err(FrameError::Missing(at)) => at == index && index >= frames.len(),
            Err(FrameError::Corrupt(at, _)) => at == index && index < frames.len()
                && zstd_decoded(frames[index as int]@) is None,
        },
{
    if index >= frames.len() {
        return Err(FrameError::Missing(index));
    }
    assert(frames.deep_view()[index as int] == frames[index as int]@);
    match zstd_decode_all(frames[index].as_slice()) {
        Ok(bytes) => Ok(bytes),
        Err(error) => Err(FrameError::Corrupt(index, error)),
    }
}

} // verus!
