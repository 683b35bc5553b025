//! Playback synchronisation for text-art video: a frame store loaded from
//! archive entries, a render-loop state machine that realigns itself every few
//! frames to an audio position or to a free-running clock, and the clock itself.

pub mod clock;
pub mod codec;
pub mod container;
pub mod laws;
pub mod machine;
pub mod primitives;
pub mod rate;
pub mod resync;
