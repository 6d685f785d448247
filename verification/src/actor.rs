//! A player or a clone.
use vstd::prelude::*;
use crate::direction::AbsoluteDirection;
use crate::engine::tracking_worldlayer::{Trackable, TrackableId};
use crate::inventory::BasicInventory;
use crate::recording::Recording;
use crate::static_data::ObjectDescriptor;

verus! {

/// An actor on the grid.
#[derive(PartialEq, Debug, Copy, Clone)]
pub struct Actor {
    pub facing: AbsoluteDirection,
    pub descriptor: &'static ObjectDescriptor,
    pub actor_id: TrackableId,
    pub inventory: BasicInventory,
}

impl Actor {
    /// A new actor facing North with an empty inventory.
    pub fn new(descriptor: &'static ObjectDescriptor, actor_id: TrackableId) -> (r: Actor)
        ensures
            r.facing == AbsoluteDirection::N,
            r.descriptor == descriptor,
            r.actor_id == actor_id,
            r.inventory.slots() == BasicInventory::new_slots(),
    {
        Actor { facing: AbsoluteDirection::N, descriptor, actor_id, inventory: BasicInventory::new() }
    }

    /// A new actor facing North that starts with the recording's inventory.
    pub fn from_recording(
        descriptor: &'static ObjectDescriptor,
        actor_id: TrackableId,
        recording: &Recording,
    ) -> (r: Actor)
        ensures
            r == (Actor {
                facing: AbsoluteDirection::N,
                descriptor,
                actor_id,
                inventory: recording.inventory,
            }),
    {
        Actor { facing: AbsoluteDirection::N, descriptor, actor_id, inventory: recording.inventory }
    }
}

impl Trackable for Actor {
    open spec fn spec_id(&self) -> Option<TrackableId> {
        Some(self.actor_id)
    }

    fn get_id(&self) -> (r: Option<TrackableId>) {
        Some(self.actor_id)
    }
}

} // verus!
