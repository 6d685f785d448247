//! The store of recordings, addressed by id.
use vstd::prelude::*;
use super::Recording;

verus! {

/// A recording slot in a `RecordingDb`.
#[derive(PartialEq, Eq, Debug, Copy, Clone, Structural)]
pub struct RecordingId {
    pub idx: usize,
}

/// Recordings, in the order they were registered. Slot 0 holds a blank
/// recording.
pub struct RecordingDb {
    recordings: Vec<Recording>,
}

impl RecordingDb {
    /// The stored recordings, by slot.
    pub closed spec fn recordings(self) -> Seq<Recording> {
        self.recordings@
    }

    /// `id` names a stored recording.
    pub open spec fn valid_id(self, id: RecordingId) -> bool {
        id.idx < self.recordings().len()
    }

    /// Stores a recording in the next slot and returns its id.
    pub fn register_recording(&mut self, recording: Recording) -> (r: RecordingId)
        requires
            old(self).recordings().len() < usize::MAX,
        ensures
            final(self).recordings() == old(self).recordings().push(recording),
            r.idx == old(self).recordings().len(),
    {
        self.recordings.push(recording);
        RecordingId { idx: self.recordings.len() - 1 }
    }

    /// A store holding only the blank recording.
    pub fn new() -> (r: RecordingDb)
        ensures
            r.recordings().len() == 1,
            r.recordings()[0].command_list@.len() == 0,
            !r.recordings()[0].should_loop,
            r.recordings()[0].inventory.slots() == crate::inventory::BasicInventory::new_slots(),
    {
        let mut db = RecordingDb { recordings: Vec::new() };
        db.recordings.push(Recording::blank());
        db
    }

    pub fn get(&self, id: RecordingId) -> (r: &Recording)
        requires
            self.valid_id(id),
        ensures
            *r == self.recordings()[id.idx as int],
    {
        &self.recordings[id.idx]
    }

    pub fn len(&self) -> (r: usize)
        ensures
            r == self.recordings().len(),
    {
        self.recordings.len()
    }
}

/// A recording read back by the id it was registered under is the recording
/// that was registered, and earlier ids still give what they gave.
pub proof fn lemma_register_get(before: Seq<Recording>, rec: Recording, i: int)
    ensures
        before.push(rec)[before.len() as int] == rec,
        0 <= i < before.len() ==> before.push(rec)[i] == before[i],
{
}

} // verus!
