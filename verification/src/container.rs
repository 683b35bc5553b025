//! What a container holds: frame payloads in load order, at most one audio
//! track that counts, and metadata records that may declare the frame time.

use vstd::prelude::*;
use vstd::string::StringExecFns;

verus! {

/// Microseconds in a second: what a frames-per-second figure divides.
pub const MICROS_PER_SECOND: u64 = 1_000_000;

/// The small record that a container carries beside its frames.
#[derive(Clone, Copy, Debug, PartialEq, Eq, Structural)]
pub struct Metadata {
    /// Microseconds per frame. Zero: not given.
    pub frametime: u64,
    /// Frames per second, the older way to say the same. Zero: not given.
    /// Read only where `frametime` is zero.
    pub fps: u64,
}

impl Metadata {
    /// The frame time that this record declares, if it declares one:
    /// `frametime` where it is given, else a second divided by `fps`.
    pub open spec fn declared(self) -> Option<u64> {
        if self.frametime != 0 {
            Some(self.frametime)
        } else if self.fps != 0 {
            Some((MICROS_PER_SECOND / self.fps) as u64)
        } else {
            None
        }
    }

    /// The frame time in force after this record, given the one before it.
    pub open spec fn applied_to(self, earlier: u64) -> u64 {
        match self.declared() {
            Some(frametime) => frametime,
            None => earlier,
        }
    }

    /// A record with the two fields as given.
    pub fn new(frametime: u64, fps: u64) -> (metadata: Metadata)
        ensures
            metadata == (Metadata { frametime, fps }),
    {
        Metadata { frametime, fps }
    }

    /// Computes the frame time that this record declares.
    pub fn declared_frametime(&self) -> (declared: Option<u64>)
        ensures
            declared == self.declared(),
    {
        if self.frametime != 0 {
            Some(self.frametime)
        } else if self.fps != 0 {
            Some(MICROS_PER_SECOND / self.fps)
        } else {
            None
        }
    }
}

impl Default for Metadata {
    /// The record that declares nothing: what an unreadable record counts as.
    fn default() -> (metadata: Metadata)
        ensures
            metadata == (Metadata { frametime: 0, fps: 0 }),
    {
        Metadata { frametime: 0, fps: 0 }
    }
}

/// What an archive entry is taken for, by the stem of its file name.
#[derive(Clone, Copy, Debug, PartialEq, Eq, Structural)]
pub enum EntryKind {
    /// The stem `audio`: the sound track.
    Audio,
    /// The stem `metadata`: a metadata record.
    Metadata,
    /// Any other stem: a frame payload.
    Frame,
}

/// The kind that goes with a file stem.
pub open spec fn kind_of(stem: Seq<char>) -> EntryKind {
    if stem == "audio"@ {
        EntryKind::Audio
    } else if stem == "metadata"@ {
        EntryKind::Metadata
    } else {
        EntryKind::Frame
    }
}

/// Tells what an entry is from the stem of its file name. The two reserved
/// stems are matched exactly, letter case included.
pub fn entry_kind(stem: &str) -> (kind: EntryKind)
    ensures
        kind == kind_of(stem@),
{
    let stem: String = stem.to_owned();
    if stem == String::from_str("audio") {
        EntryKind::Audio
    } else if stem == String::from_str("metadata") {
        EntryKind::Metadata
    } else {
        EntryKind::Frame
    }
}

/// One archive entry, read and told apart.
#[derive(Debug, PartialEq, Eq)]
pub enum Entry {
    /// The bytes of the sound track.
    Audio(Vec<u8>),
    /// A metadata record, already decoded.
    Metadata(Metadata),
    /// A compressed frame payload.
    Frame(Vec<u8>),
}

/// The frame payloads among `entries`, in the order in which they come.
pub open spec fn stored_frames(entries: Seq<Entry>) -> Seq<Seq<u8>>
    decreases entries.len(),
{
    if entries.len() == 0 {
        Seq::empty()
    } else {
        match entries.last() {
            Entry::Frame(payload) => stored_frames(entries.drop_last()).push(payload@),
            _ => stored_frames(entries.drop_last()),
        }
    }
}

/// The sound track among `entries`: that of the last audio entry, if there is one.
pub open spec fn stored_audio(entries: Seq<Entry>) -> Option<Seq<u8>>
    decreases entries.len(),
{
    if entries.len() == 0 {
        None
    } else {
        match entries.last() {
            Entry::Audio(track) => Some(track@),
            _ => stored_audio(entries.drop_last()),
        }
    }
}

/// The frame time that `entries` declare: that of the last metadata record
/// that declares one, zero if none does.
pub open spec fn stored_frametime(entries: Seq<Entry>) -> u64
    decreases entries.len(),
{
    if entries.len() == 0 {
        0
    } else {
        match entries.last() {
            Entry::Metadata(metadata) => metadata.applied_to(
                stored_frametime(entries.drop_last()),
            ),
            _ => stored_frametime(entries.drop_last()),
        }
    }
}

/// Whether no metadata record among `entries` declares a frame time.
pub open spec fn nothing_declared(entries: Seq<Entry>) -> bool {
    forall|i: int|
        0 <= i < entries.len() ==> match #[trigger] entries[i] {
            Entry::Metadata(metadata) => metadata.frametime == 0 && metadata.fps == 0,
            _ => true,
        }
}

/// The payload that an entry adds to the frame store, if it adds one.
pub open spec fn payload_of(entry: Entry) -> Option<Seq<u8>> {
    match entry {
        Entry::Frame(payload) => Some(payload@),
        _ => None,
    }
}

/// Every frame of the store is the payload of some frame entry.
pub proof fn lemma_frames_are_payloads(entries: Seq<Entry>)
    ensures
        stored_frames(entries).len() <= entries.len(),
        forall|i: int|
            0 <= i < stored_frames(entries).len() ==> exists|a: int|
                0 <= a < entries.len() && payload_of(entries[a]) == Some(
                    #[trigger] stored_frames(entries)[i],
                ),
    decreases entries.len(),
{
    if entries.len() > 0 {
        let earlier = entries.drop_last();
        lemma_frames_are_payloads(earlier);
        let frames = stored_frames(entries);
        assert forall|i: int| 0 <= i < frames.len() implies exists|a: int|
            0 <= a < entries.len() && payload_of(entries[a]) == Some(#[trigger] frames[i]) by {
            if i < stored_frames(earlier).len() {
                let a = choose|a: int|
                    0 <= a < earlier.len() && payload_of(earlier[a]) == Some(
                        stored_frames(earlier)[i],
                    );
                assert(entries[a] == earlier[a]);
            } else {
                let a = entries.len() - 1;
                assert(entries[a] == entries.last());
            }
        }
    }
}

/// The store keeps the load order: of two frames in it, the earlier one is
/// the payload of an earlier entry.
pub proof fn law_frames_in_load_order(entries: Seq<Entry>)
    ensures
        forall|i: int, j: int|
            0 <= i < j < stored_frames(entries).len() ==> exists|a: int, b: int|
                0 <= a < b < entries.len() && payload_of(entries[a]) == Some(
                    #[trigger] stored_frames(entries)[i],
                ) && payload_of(entries[b]) == Some(#[trigger] stored_frames(entries)[j]),
    decreases entries.len(),
{
    if entries.len() > 0 {
        let earlier = entries.drop_last();
        law_frames_in_load_order(earlier);
        lemma_frames_are_payloads(earlier);
        let frames = stored_frames(entries);
        assert forall|i: int, j: int| 0 <= i < j < frames.len() implies exists|a: int, b: int|
            0 <= a < b < entries.len() && payload_of(entries[a]) == Some(#[trigger] frames[i])
                && payload_of(entries[b]) == Some(#[trigger] frames[j]) by {
            if j < stored_frames(earlier).len() {
                let (a, b) = choose|a: int, b: int|
                    0 <= a < b < earlier.len() && payload_of(earlier[a]) == Some(
                        stored_frames(earlier)[i],
                    ) && payload_of(earlier[b]) == Some(stored_frames(earlier)[j]);
                assert(entries[a] == earlier[a] && entries[b] == earlier[b]);
            } else {
                let a = choose|a: int|
                    0 <= a < earlier.len() && payload_of(earlier[a]) == Some(
                        stored_frames(earlier)[i],
                    );
                assert(entries[a] == earlier[a]);
                let b = entries.len() - 1;
                assert(entries[b] == entries.last());
            }
        }
    }
}

/// Where no record declares a frame time, none is in force.
pub proof fn lemma_nothing_declared(entries: Seq<Entry>)
    requires
        nothing_declared(entries),
    ensures
        stored_frametime(entries) == 0,
    decreases entries.len(),
{
    if entries.len() > 0 {
        let earlier = entries.drop_last();
        assert forall|i: int| 0 <= i < earlier.len() implies match #[trigger] earlier[i] {
            Entry::Metadata(metadata) => metadata.frametime == 0 && metadata.fps == 0,
            _ => true,
        } by {
            assert(earlier[i] == entries[i]);
        }
        lemma_nothing_declared(earlier);
        assert(entries.last() == entries[entries.len() - 1]);
    }
}

} // verus!
