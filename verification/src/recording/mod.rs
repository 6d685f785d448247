//! A recording is a sequence of replayable actions, with the inventory its
//! clones start with.
use vstd::prelude::*;
use crate::action::Action;
use crate::actor::Actor;
use crate::inventory::BasicInventory;

pub mod db;
pub mod interface;

verus! {

/// Actions to replay, the inventory a clone starts with, and whether the
/// replay loops.
#[derive(Clone, Debug)]
pub struct Recording {
    pub command_list: Vec<Action>,
    pub inventory: BasicInventory,
    pub should_loop: bool,
}

impl Recording {
    /// No actions and an empty inventory.
    pub fn blank() -> (r: Recording)
        ensures
            r.command_list@.len() == 0,
            r.inventory.slots() == BasicInventory::new_slots(),
            !r.should_loop,
    {
        Recording { command_list: Vec::new(), inventory: BasicInventory::new(), should_loop: false }
    }

    /// No actions yet, and the creator's current inventory.
    pub fn from_creator(actor: &Actor) -> (r: Recording)
        ensures
            r.command_list@.len() == 0,
            r.inventory == actor.inventory,
            !r.should_loop,
    {
        Recording { command_list: Vec::new(), inventory: actor.inventory, should_loop: false }
    }

    /// The action at step `idx`, counting round the list.
    pub fn at(&self, idx: usize) -> (r: Action)
        requires
            self.command_list@.len() > 0,
        ensures
            r == self.command_list@[(idx as int) % (self.command_list@.len() as int)],
    {
        self.command_list[idx % self.command_list.len()]
    }

    pub fn append(&mut self, action: Action)
        ensures
            final(self).command_list@ == old(self).command_list@.push(action),
            final(self).inventory == old(self).inventory,
            final(self).should_loop == old(self).should_loop,
    {
        self.command_list.push(action);
    }

    pub fn len(&self) -> (r: usize)
        ensures
            r == self.command_list@.len(),
    {
        self.command_list.len()
    }
}

} // verus!
