//! The queue of clone turns: this turn's events, then the next turn's.
use vstd::prelude::*;
use std::collections::VecDeque;
use crate::engine::tracking_worldlayer::TrackableId;
use crate::engine::update::{Delta, Updatable};
use crate::error::{Result, Status};
use crate::recording::db::RecordingId;

verus! {

/// A clone's next step: which actor, which recording, and where in it.
#[derive(Debug, Clone, Copy, PartialEq, Eq, Structural)]
pub struct ActorEvent {
    pub actor: TrackableId,
    pub recording: RecordingId,
    pub recording_idx: usize,
}

#[derive(Debug)]
pub struct EventQueue {
    pub this_turn: VecDeque<ActorEvent>,
    pub next_turn: VecDeque<ActorEvent>,
}

/// Events to append to each queue.
#[derive(Debug)]
pub struct EventQueueUpdate {
    pub this_turn: VecDeque<ActorEvent>,
    pub next_turn: VecDeque<ActorEvent>,
}

impl Updatable for EventQueue {}

/// Appends the events of `src` to `dst`, in order.
fn extend_queue(dst: &mut VecDeque<ActorEvent>, src: &VecDeque<ActorEvent>)
    ensures
        final(dst)@ == old(dst)@ + src@,
{
    let mut i: usize = 0;
    while i < src.len()
        invariant
            i <= src@.len(),
            dst@ == old(dst)@ + src@.take(i as int),
        decreases src@.len() - i,
    {
        dst.push_back(src[i]);
        i = i + 1;
        assert(dst@ =~= old(dst)@ + src@.take(i as int));
    }
    assert(src@.take(i as int) =~= src@);
}

impl Delta for EventQueueUpdate {
    type Target = EventQueue;

    fn new() -> (r: Self)
        ensures
            r.this_turn@ == Seq::<ActorEvent>::empty(),
            r.next_turn@ == Seq::<ActorEvent>::empty(),
    {
        EventQueueUpdate { this_turn: VecDeque::new(), next_turn: VecDeque::new() }
    }

    fn apply(&self, target: &mut EventQueue) -> (r: Result<()>)
        ensures
            r is Ok,
            final(target).this_turn@ == old(target).this_turn@ + self.this_turn@,
            final(target).next_turn@ == old(target).next_turn@ + self.next_turn@,
    {
        extend_queue(&mut target.this_turn, &self.this_turn);
        extend_queue(&mut target.next_turn, &self.next_turn);
        Ok(())
    }
}

impl EventQueue {
    pub fn new() -> (r: Self)
        ensures
            r.this_turn@ == Seq::<ActorEvent>::empty(),
            r.next_turn@ == Seq::<ActorEvent>::empty(),
    {
        EventQueue { this_turn: VecDeque::new(), next_turn: VecDeque::new() }
    }

    /// Takes the next event of this turn.
    pub fn get_next_event(&mut self) -> (r: Option<ActorEvent>)
        ensures
            final(self).next_turn@ == old(self).next_turn@,
            old(self).this_turn@.len() == 0 ==> r is None && final(self).this_turn@ == old(self).this_turn@,
            old(self).this_turn@.len() > 0 ==> r == Some(old(self).this_turn@[0])
                && final(self).this_turn@ == old(self).this_turn@.drop_first(),
    {
        self.this_turn.pop_front()
    }

    /// Starts the next turn; refused while events of this turn remain.
    pub fn advance_turn(&mut self) -> (r: Result<()>)
        ensures
            match r {
                Ok(_) => old(self).this_turn@.len() == 0 && final(self).this_turn@ == old(self).next_turn@ && final(self).next_turn@.len() == 0,
                Err(e) => old(self).this_turn@.len() > 0 && e == Status::StateUpdateError && final(self).this_turn@ == old(self).this_turn@ && final(self).next_turn@ == old(self).next_turn@,
            },
    {
        if self.this_turn.len() != 0 {
            return Err(Status::StateUpdateError);
        }
        std::mem::swap(&mut self.this_turn, &mut self.next_turn);
        Ok(())
    }
}

} // verus!
