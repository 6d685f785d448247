//! The game: the world, the player, recordings, the clone queue and score.
use vstd::prelude::*;
use crate::action::{Action, SubAction, action_result, action_safe, execute_action};
use crate::actor::Actor;
use crate::recording::interface::appended;
use crate::datatypes::Coordinate;
use crate::engine::tracking_worldlayer::TrackableId;
use crate::engine::update::{Delta, Updatable, UpdatableContainer};
use crate::error::{Result, Status};
use crate::eventqueue::{EventQueue, EventQueueUpdate, ActorEvent};
use crate::inventory::BasicInventory;
use crate::recording::interface::RecordingModule;
use crate::score::{Score, ScoreDelta};
use crate::static_data::Data;
use super::world::{World, WorldUpdate};
use super::turn::{world_ready, tame, lemma_tame_applied, lemma_write_actor_ready};
use crate::engine::worldlayer::{in_bounds_of, index_of, lemma_index_in_range};

verus! {

/// Who the player is.
pub struct WorldActors {
    pub player: Option<PlayerRef>,
}

pub struct PlayerRef {
    pub actor_id: TrackableId,
}

impl WorldActors {
    pub fn new() -> (r: WorldActors)
        ensures
            r.player is None,
    {
        WorldActors { player: None }
    }

    /// The player's id; an error before the player spawns.
    pub fn get_player(&self) -> (r: Result<TrackableId>)
        ensures
            match self.player {
                None => r == Err::<TrackableId, Status>(Status::Error("Player uninitialized")),
                Some(p) => r == Ok::<TrackableId, Status>(p.actor_id),
            },
    {
        match &self.player {
            None => Err(Status::Error("Player uninitialized")),
            Some(r) => Ok(r.actor_id),
        }
    }
}

/// A change the game asks of the paradox field, which is kept beside the
/// game: an update drained `amount` of paradox at a cell, or a clone's
/// action failed at a cell, which raises the paradox there.
#[derive(Clone, Copy, PartialEq, Eq, Debug, Structural)]
pub enum ParadoxChange {
    Drain { at: Coordinate, amount: i64 },
    Failure { at: Coordinate, actor: TrackableId },
}

/// The changes that the paradox drains of an update ask for, in order.
pub open spec fn drain_changes(drains: Seq<(Coordinate, i64)>) -> Seq<ParadoxChange> {
    drains.map_values(|d: (Coordinate, i64)| ParadoxChange::Drain { at: d.0, amount: d.1 })
}

/// The whole state of a game. `paradox_log` holds the paradox changes asked
/// for since it was last taken.
pub struct Game {
    pub world: World,
    pub actors: WorldActors,
    pub recordings: RecordingModule,
    pub event_queue: EventQueue,
    pub data: &'static Data,
    pub score: Score,
    pub paradox_log: Vec<ParadoxChange>,
}

impl Updatable for Game {}

/// A staged change to a game. Most game operations read an unchanged game
/// and fill an update; the update is then applied in one step.
#[derive(Debug)]
pub struct GameUpdate {
    pub world: WorldUpdate,
    pub eventqueue: EventQueueUpdate,
    pub score: ScoreDelta,
}

impl GameUpdate {
    /// The update consists exactly of these staged changes.
    pub open spec fn consists_of(
        self,
        actors: Seq<(Coordinate, Option<Actor>)>,
        ids: Seq<(usize, Coordinate)>,
        removals: Seq<usize>,
        buildings: Seq<(Coordinate, Option<crate::buildings::Building>)>,
        items: Seq<(Coordinate, super::world::FloorInventory)>,
        drains: Seq<(Coordinate, i64)>,
        this_turn: Seq<ActorEvent>,
        score: i64,
    ) -> bool {
        &&& self.world.actor_updates.layer.writes() == actors
        &&& self.world.actor_updates.index.writes() == ids
        &&& self.world.actor_updates.index.removals() == removals
        &&& self.world.building_updates.writes() == buildings
        &&& self.world.item_updates.writes() == items
        &&& self.world.floor_updates.writes().len() == 0
        &&& self.world.paradox_drains@ == drains
        &&& self.eventqueue.this_turn@ == this_turn
        &&& self.eventqueue.next_turn@.len() == 0
        &&& self.score.score == score
    }

    /// Applying this update to `g` would succeed.
    pub open spec fn applies_to(self, g: Game) -> bool {
        &&& self.world.applies_to(g.world)
        &&& i64::MIN <= g.score.score + self.score.score <= i64::MAX
    }

    /// The world, queues and score of `after` are those of `before` with
    /// this update applied.
    pub open spec fn applied_effects(self, before: Game, after: Game) -> bool {
        &&& self.world.applied(before.world, after.world)
        &&& after.event_queue.this_turn@ == before.event_queue.this_turn@ + self.eventqueue.this_turn@
        &&& after.event_queue.next_turn@ == before.event_queue.next_turn@ + self.eventqueue.next_turn@
        &&& after.score.score == before.score.score + self.score.score
        &&& after.score.turn == before.score.turn
        &&& after.paradox_log@ == before.paradox_log@ + drain_changes(self.world.paradox_drains@)
    }

    /// `after` is `before` with this update applied.
    pub open spec fn applied(self, before: Game, after: Game) -> bool {
        &&& self.applied_effects(before, after)
        &&& after.actors == before.actors
        &&& after.recordings == before.recordings
        &&& after.data == before.data
    }
}

impl Delta for GameUpdate {
    type Target = Game;

    fn new() -> (r: GameUpdate)
        ensures
            r.consists_of(
                Seq::empty(),
                Seq::empty(),
                Seq::empty(),
                Seq::empty(),
                Seq::empty(),
                Seq::empty(),
                Seq::empty(),
                0,
            ),
    {
        let r = GameUpdate { world: WorldUpdate::new(), eventqueue: EventQueueUpdate::new(), score: ScoreDelta::new() };
        proof {
            assert(r.world.actor_updates.layer.writes() =~= Seq::empty());
            assert(r.world.actor_updates.index.writes() =~= Seq::empty());
            assert(r.world.actor_updates.index.removals() =~= Seq::empty());
            assert(r.world.building_updates.writes() =~= Seq::empty());
            assert(r.world.item_updates.writes() =~= Seq::empty());
            assert(r.world.paradox_drains@ =~= Seq::empty());
        }
        r
    }

    /// Applies the world changes, then the queued events, then the score,
    /// and stops at the first that fails; then notes the update's paradox
    /// drains. An update that keeps the actor ids tame keeps a ready world
    /// ready.
    fn apply(&self, target: &mut Game) -> (r: Result<()>)
        ensures
            old(target).world.wf() ==> final(target).world.wf(),
            final(target).world.dims() == old(target).world.dims(),
            final(target).actors == old(target).actors,
            final(target).recordings == old(target).recordings,
            final(target).data == old(target).data,
            r is Ok <==> self.applies_to(*old(target)),
            r is Ok ==> self.applied(*old(target), *final(target)),
            r is Err ==> final(target).paradox_log == old(target).paradox_log,
            !self.world.applies_to(old(target).world) ==> r == Err::<(), Status>(Status::OutOfBounds)
                && final(target).event_queue == old(target).event_queue && final(target).score == old(target).score,
            self.world.applied_in_order(old(target).world, final(target).world),
            self.world.applies_to(old(target).world) && !self.applies_to(*old(target)) ==> r == Err::<
                (),
                Status,
            >(Status::StateUpdateError) && self.world.applied(old(target).world, final(target).world)
                && final(target).event_queue.this_turn@ == old(target).event_queue.this_turn@
                + self.eventqueue.this_turn@ && final(target).event_queue.next_turn@
                == old(target).event_queue.next_turn@ + self.eventqueue.next_turn@
                && final(target).score == old(target).score,
            world_ready(old(target).world) && tame(*self, *old(target)) ==> world_ready(final(target).world),
    {
        let ghost g0 = *target;
        let applied_world = self.world.apply(&mut target.world);
        proof {
            if world_ready(g0.world) && tame(*self, g0) {
                lemma_tame_applied(g0, *self, target.world);
            }
        }
        match applied_world {
            Ok(_) => {},
            Err(e) => {
                return Err(e);
            },
        }
        self.eventqueue.apply(&mut target.event_queue)?;
        self.score.apply(&mut target.score)?;
        let ghost mid = *target;
        let mut i: usize = 0;
        while i < self.world.paradox_drains.len()
            invariant
                0 <= i <= self.world.paradox_drains@.len(),
                target.world == mid.world,
                target.actors == mid.actors,
                target.recordings == mid.recordings,
                target.event_queue == mid.event_queue,
                target.data == mid.data,
                target.score == mid.score,
                target.paradox_log@ == mid.paradox_log@ + drain_changes(self.world.paradox_drains@.take(i as int)),
            decreases self.world.paradox_drains@.len() - i,
        {
            let d = self.world.paradox_drains[i];
            target.paradox_log.push(ParadoxChange::Drain { at: d.0, amount: d.1 });
            proof {
                let ds = self.world.paradox_drains@;
                assert(ds.take(i + 1) =~= ds.take(i as int).push(d));
                assert(drain_changes(ds.take(i + 1)) =~= drain_changes(ds.take(i as int)).push(
                    ParadoxChange::Drain { at: d.0, amount: d.1 },
                ));
            }
            i = i + 1;
        }
        proof {
            assert(self.world.paradox_drains@.take(i as int) =~= self.world.paradox_drains@);
        }
        Ok(())
    }
}

impl Game {
    /// A game with an empty world of the given size and no player.
    pub fn new(dimensions: Coordinate, data: &'static Data) -> (r: Game)
        requires
            dimensions.x >= 0,
            dimensions.y >= 0,
            dimensions.x * dimensions.y <= i32::MAX,
        ensures
            r.world.wf(),
            r.world.dims() == dimensions,
            forall|i: int| 0 <= i < r.world.actors.layer.cells().len() ==> r.world.actors.layer.cells()[i] is None,
            forall|i: int| 0 <= i < r.world.buildings.cells().len() ==> r.world.buildings.cells()[i] is None,
            forall|i: int|
                0 <= i < r.world.items.cells().len() ==> r.world.items.cells()[i]@ == seq![None::<crate::inventory::Item>],
            forall|i: int|
                0 <= i < r.world.floor.cells().len() ==> r.world.floor.cells()[i] == super::world::FloorTile::Dirt,
            r.world.actors.index.locations() == Map::<usize, Coordinate>::empty(),
            r.world.actors.index.recycled() == Set::<usize>::empty(),
            r.actors.player is None,
            r.recordings.recordings.recordings().len() == 1,
            r.recordings.recordings.recordings()[0].command_list@.len() == 0,
            r.recordings.facing() == crate::direction::AbsoluteDirection::N,
            r.recordings.current_recording is None,
            r.recordings.temp_item is None,
            r.event_queue.this_turn@.len() == 0,
            r.event_queue.next_turn@.len() == 0,
            r.data == data,
            r.score == (Score { score: 0, turn: 0 }),
            r.paradox_log@.len() == 0,
            world_ready(r.world),
    {
        let g = Game {
            world: World::new(dimensions),
            actors: WorldActors::new(),
            recordings: RecordingModule::new(),
            event_queue: EventQueue::new(),
            data: data,
            score: Score { score: 0, turn: 0 },
            paradox_log: Vec::new(),
        };
        proof {
            let dims = g.world.actors.layer.dims();
            crate::engine::tracking_worldlayer::lemma_empty_index_dense(g.world.actors.index);
            assert forall|c: Coordinate| in_bounds_of(dims, c) implies (#[trigger] g.world.actors.layer.cells()[index_of(
                dims,
                c,
            )] matches Some(a) ==> a.actor_id.0 < g.world.actors.index.spec_next_id()) by {
                lemma_index_in_range(dims, c);
            }
        }
        g
    }

    /// Hands out the paradox changes asked for so far and starts a new log.
    pub fn take_paradox_log(&mut self) -> (r: Vec<ParadoxChange>)
        ensures
            r@ == old(self).paradox_log@,
            final(self).paradox_log@.len() == 0,
            final(self).world == old(self).world,
            final(self).actors == old(self).actors,
            final(self).recordings == old(self).recordings,
            final(self).event_queue == old(self).event_queue,
            final(self).data == old(self).data,
            final(self).score == old(self).score,
    {
        let mut log: Vec<ParadoxChange> = Vec::new();
        std::mem::swap(&mut log, &mut self.paradox_log);
        log
    }

    /// Where the player is, by the actor index.
    pub open spec fn spec_player_coords(self) -> Result<Coordinate> {
        match self.actors.player {
            None => Err(Status::Error("Player uninitialized")),
            Some(p) => if self.world.actors.index.locations().contains_key(p.actor_id.0) {
                Ok(self.world.actors.index.locations()[p.actor_id.0])
            } else {
                Err(Status::OutOfBounds)
            },
        }
    }

    /// The player actor.
    pub open spec fn spec_player_actor(self) -> Result<Actor> {
        match self.spec_player_coords() {
            Err(e) => Err(e),
            Ok(c) => match self.world.actors.layer.spec_get(c) {
                Err(Status::OutOfBounds) => Err(Status::Error("Player coordinates out of bounds")),
                Err(e) => Err(e),
                Ok(None) => Err(Status::Error("No actor at player coordinates")),
                Ok(Some(a)) => Ok(a),
            },
        }
    }

    pub fn get_player_coords(&self) -> (r: Result<&Coordinate>)
        ensures
            match r {
                Ok(c) => self.spec_player_coords() == Ok::<Coordinate, Status>(*c),
                Err(e) => self.spec_player_coords() == Err::<Coordinate, Status>(e),
            },
    {
        let id = self.actors.get_player()?;
        self.world.actors.get_location(&id)
    }

    pub fn get_player_actor(&self) -> (r: Result<&Actor>)
        ensures
            match r {
                Ok(a) => self.spec_player_actor() == Ok::<Actor, Status>(*a),
                Err(e) => self.spec_player_actor() == Err::<Actor, Status>(e),
            },
    {
        let location = self.get_player_coords()?;
        match self.world.actors.get(location) {
            Err(Status::OutOfBounds) => Err(Status::Error("Player coordinates out of bounds")),
            Err(foo) => Err(foo),
            Ok(None) => Err(Status::Error("No actor at player coordinates")),
            Ok(Some(actor)) => Ok(actor),
        }
    }

    /// What spawning the player at `location` results in.
    pub open spec fn spawn_error(self, location: Coordinate) -> Option<Status> {
        if self.actors.player is Some {
            Some(Status::Error("Player exists"))
        } else if !self.world.actors.layer.spec_in_bounds(location) {
            Some(Status::OutOfBounds)
        } else if self.world.actors.layer.spec_get(location) != Ok::<Option<Actor>, Status>(None) {
            Some(Status::Error("Destination Occupied"))
        } else if !self.data.actors.spec_contains("player"@) {
            Some(Status::Error("Player definition missing"))
        } else {
            None
        }
    }

    /// Places a new player actor, defined by the `player` actor definition,
    /// at an empty cell and records who the player is.
    pub fn spawn(&mut self, location: &Coordinate) -> (r: Result<()>)
        requires
            old(self).world.wf(),
            old(self).world.actors.index.spec_next_id() <= usize::MAX,
        ensures
            final(self).world.wf(),
            final(self).world.dims() == old(self).world.dims(),
            world_ready(old(self).world) ==> world_ready(final(self).world),
            final(self).recordings == old(self).recordings,
            final(self).data == old(self).data,
            final(self).score == old(self).score,
            final(self).event_queue == old(self).event_queue,
            final(self).paradox_log == old(self).paradox_log,
            match r {
                Ok(_) => {
                    let id = TrackableId(old(self).world.actors.index.spec_next_id() as usize);
                    let idx = crate::engine::worldlayer::index_of(old(self).world.dims(), *location);
                    &&& old(self).spawn_error(*location) is None
                    &&& final(self).actors.player matches Some(p) && p.actor_id == id
                    &&& final(self).world.actors.layer.spec_get(*location) matches Ok(Some(a)) && a.facing
                        == crate::direction::AbsoluteDirection::N && a.actor_id == id
                        && a.inventory.slots() == BasicInventory::new_slots() && old(self).data.actors.spec_get(
                        "player"@,
                    ) == Some(*a.descriptor)
                    &&& final(self).world.actors.layer.cells() == old(self).world.actors.layer.cells().update(
                        idx,
                        final(self).world.actors.layer.cells()[idx],
                    )
                    &&& final(self).world.actors.index.locations() == old(self).world.actors.index.locations().insert(
                        id.0,
                        *location,
                    )
                    &&& final(self).world.actors.index.recycled() == old(self).world.actors.index.recycled().remove(
                        id.0,
                    )
                    &&& final(self).world.buildings == old(self).world.buildings
                    &&& final(self).world.items == old(self).world.items
                    &&& final(self).world.floor == old(self).world.floor
                },
                Err(e) => old(self).spawn_error(*location) == Some(e) && final(self).actors.player
                    == old(self).actors.player && final(self).world == old(self).world,
            },
    {
        if self.actors.player.is_some() {
            return Err(Status::Error("Player exists"));
        }
        let dest = self.world.actors.get(location)?;
        if dest.is_some() {
            return Err(Status::Error("Destination Occupied"));
        }
        let descriptor = match self.data.actors.get("player") {
            Some(d) => d,
            None => {
                proof {
                    reveal_strlit("player");
                }
                return Err(Status::Error("Player definition missing"));
            },
        };
        let player_id = self.world.actors.next_id();
        let new_actor = Actor::new(descriptor, player_id);
        self.actors.player = Some(PlayerRef { actor_id: player_id });
        proof {
            crate::engine::worldlayer::lemma_index_in_range(self.world.actors.layer.dims(), *location);
        }
        let ghost w0 = self.world;
        let res = self.world.actors.mut_set(location, &Some(new_actor));
        proof {
            if world_ready(w0) && res is Ok {
                lemma_write_actor_ready(w0, self.world, *location, new_actor);
            }
        }
        res
    }
}

impl Game {
    /// What the player's `action` does to the game: on success the
    /// recording module notes the action and the update is applied.
    pub open spec fn player_action_outcome(self, action: Action, after: Game, r: Result<()>) -> bool {
        match self.actors.player {
            None => {
                &&& r == Err::<(), Status>(Status::Error("Player uninitialized"))
                &&& after.world == self.world
                &&& after.recordings == self.recordings
                &&& after.event_queue == self.event_queue
                &&& after.score == self.score
                &&& after.paradox_log == self.paradox_log
            },
            Some(p) => exists|res: Result<GameUpdate>| #[trigger] self.player_action_step(p.actor_id, action, after, r, res),
        }
    }

    /// The player `id`'s `action` gave `res`, and the game went on from it
    /// to `after` with the result `r`: a refused action changes nothing; an
    /// accepted one is noted for the recording in progress and its update
    /// applied.
    pub open spec fn player_action_step(
        self,
        id: TrackableId,
        action: Action,
        after: Game,
        r: Result<()>,
        res: Result<GameUpdate>,
    ) -> bool {
        &&& action_result(self, id, action, res)
        &&& match res {
            Err(e) => {
                &&& r == Err::<(), Status>(e)
                &&& after.world == self.world
                &&& after.recordings == self.recordings
                &&& after.event_queue == self.event_queue
                &&& after.score == self.score
                &&& after.paradox_log == self.paradox_log
            },
            Ok(u) => {
                &&& appended(self.recordings, after.recordings, action)
                &&& (r is Ok <==> u.applies_to(self))
                &&& (r is Ok ==> u.applied_effects(self, after))
                &&& (r is Err ==> after.paradox_log == self.paradox_log)
                &&& u.world.applied_in_order(self.world, after.world)
                &&& (!u.world.applies_to(self.world) ==> r == Err::<(), Status>(Status::OutOfBounds)
                    && after.event_queue == self.event_queue && after.score == self.score)
                &&& (u.world.applies_to(self.world) && !u.applies_to(self) ==> r == Err::<(), Status>(
                    Status::StateUpdateError,
                ) && after.event_queue.this_turn@ == self.event_queue.this_turn@ + u.eventqueue.this_turn@
                    && after.event_queue.next_turn@ == self.event_queue.next_turn@ + u.eventqueue.next_turn@
                    && after.score == self.score)
            },
        }
    }

    /// The action that clone event `e` replays.
    pub open spec fn npc_action(self, e: ActorEvent) -> Action {
        let rec = self.recordings.recordings.recordings()[e.recording.idx as int];
        rec.command_list@[(e.recording_idx as int) % (rec.command_list@.len() as int)]
    }

    /// The next clone turn cannot fail midway: its recording exists and is
    /// not empty, its step counter can advance, and its action is safe.
    pub open spec fn npc_turn_safe(self) -> bool {
        self.event_queue.this_turn@.len() > 0 ==> {
            let e = self.event_queue.this_turn@[0];
            &&& self.recordings.recordings.valid_id(e.recording)
            &&& self.recordings.recordings.recordings()[e.recording.idx as int].command_list@.len() > 0
            &&& e.recording_idx < usize::MAX
            &&& action_safe(self, e.actor, self.npc_action(e))
        }
    }

    /// Whether the next clone turn cannot fail midway.
    pub fn npc_turn_is_safe(&self) -> (r: bool)
        ensures
            r == self.npc_turn_safe(),
    {
        if self.event_queue.this_turn.len() == 0 {
            return true;
        }
        let e = self.event_queue.this_turn[0];
        if e.recording.idx >= self.recordings.recordings.len() {
            return false;
        }
        let rec = self.recordings.get(e.recording);
        if rec.len() == 0 || e.recording_idx == usize::MAX {
            return false;
        }
        let action = rec.at(e.recording_idx);
        crate::action::action_is_safe(self, e.actor, &action)
    }

    /// After clone event `e` acted, with `this_mid` and `next_mid` the
    /// queues as the action left them: the event goes to the next turn one
    /// step on (wrapping round a looping recording), or, at the end of a
    /// recording that does not loop, it is dropped (and the clone removed).
    pub open spec fn npc_continue(
        self,
        e: ActorEvent,
        after: Game,
        r: Result<bool>,
        this_mid: Seq<ActorEvent>,
        next_mid: Seq<ActorEvent>,
    ) -> bool {
        let rec = self.recordings.recordings.recordings()[e.recording.idx as int];
        let len = rec.command_list@.len();
        let next = e.recording_idx + 1;
        &&& after.event_queue.this_turn@ == this_mid
        &&& if next < len {
            after.event_queue.next_turn@ == next_mid.push(ActorEvent { recording_idx: next as usize, ..e })
                && r == Ok::<bool, Status>(true)
        } else if rec.should_loop {
            after.event_queue.next_turn@ == next_mid.push(
                ActorEvent { recording_idx: (next % (len as int)) as usize, ..e },
            ) && r == Ok::<bool, Status>(true)
        } else {
            after.event_queue.next_turn@ == next_mid
        }
    }

    /// What removing clone `id` from the world `mid` its action left does:
    /// on success the clone is gone; on failure the world stays `mid`.
    pub open spec fn despawn_outcome(mid: World, id: TrackableId, after: Game, r: Result<bool>) -> bool {
        match r {
            Ok(b) => b && crate::devtools::removed_from(mid, id, after.world),
            Err(err) => crate::devtools::despawn_error(mid, id) == Some(err) && after.world == mid,
        }
    }

    /// The world after clone event `e` applied `u` and its clone was then
    /// removed.
    pub open spec fn applied_then_despawned(self, u: GameUpdate, e: ActorEvent, after: Game, r: Result<bool>) -> bool {
        exists|mid: World|
            #[trigger] u.world.applied(self.world, mid) && Game::despawn_outcome(mid, e.actor, after, r)
    }

    /// `e`'s clone is removed after acting.
    pub open spec fn npc_despawns(self, e: ActorEvent) -> bool {
        let rec = self.recordings.recordings.recordings()[e.recording.idx as int];
        e.recording_idx + 1 >= rec.command_list@.len() && !rec.should_loop
    }

    /// What one clone turn does: the first event of this turn is taken, its
    /// clone performs the recorded action (a failed action changes nothing
    /// but the paradox at the clone's cell), and the event moves on.
    pub open spec fn npc_turn_outcome(self, after: Game, r: Result<bool>) -> bool {
        let q = self.event_queue.this_turn@;
        if q.len() == 0 {
            &&& r == Ok::<bool, Status>(false)
            &&& after.world == self.world
            &&& after.event_queue.this_turn@ == self.event_queue.this_turn@
            &&& after.event_queue.next_turn@ == self.event_queue.next_turn@
            &&& after.score == self.score
            &&& after.paradox_log == self.paradox_log
        } else {
            exists|res: Result<GameUpdate>| #[trigger] self.npc_step(after, r, res)
        }
    }

    /// The first event of this turn, `e`, gave the action result `res`, and
    /// the game went on from it to `after` with the result `r`: a failed
    /// action asks for paradox at the clone's cell, another error stops the
    /// turn, and an update is applied; then the event moves on (or its clone
    /// is removed).
    pub open spec fn npc_step(self, after: Game, r: Result<bool>, res: Result<GameUpdate>) -> bool {
        let q = self.event_queue.this_turn@;
        let e = q[0];
        let rest = q.drop_first();
        let next = self.event_queue.next_turn@;
        &&& action_result(self, e.actor, self.npc_action(e), res)
        &&& match res {
            Err(Status::ActionFail(_)) => {
                &&& self.npc_continue(e, after, r, rest, next)
                &&& if self.npc_despawns(e) {
                    Game::despawn_outcome(self.world, e.actor, after, r)
                } else {
                    after.world == self.world
                }
                &&& after.score == self.score
                &&& after.paradox_log@ == self.paradox_log@.push(
                    ParadoxChange::Failure { at: self.world.actors.index.locations()[e.actor.0], actor: e.actor },
                )
            },
            Err(other) => {
                &&& r == Err::<bool, Status>(other)
                &&& after.world == self.world
                &&& after.event_queue.this_turn@ == rest
                &&& after.event_queue.next_turn@ == next
                &&& after.score == self.score
                &&& after.paradox_log == self.paradox_log
            },
            Ok(u) => if u.applies_to(self) {
                &&& self.npc_continue(e, after, r, rest + u.eventqueue.this_turn@, next + u.eventqueue.next_turn@)
                &&& if self.npc_despawns(e) {
                    self.applied_then_despawned(u, e, after, r)
                } else {
                    u.world.applied(self.world, after.world)
                }
                &&& after.score.score == self.score.score + u.score.score
                &&& after.paradox_log@ == self.paradox_log@ + drain_changes(u.world.paradox_drains@)
            } else {
                &&& u.world.applied_in_order(self.world, after.world)
                &&& after.paradox_log == self.paradox_log
                &&& (!u.world.applies_to(self.world) ==> r == Err::<bool, Status>(Status::OutOfBounds)
                    && after.event_queue.this_turn@ == rest && after.event_queue.next_turn@ == next
                    && after.score == self.score)
                &&& (u.world.applies_to(self.world) ==> r == Err::<bool, Status>(Status::StateUpdateError)
                    && after.event_queue.this_turn@ == rest + u.eventqueue.this_turn@
                    && after.event_queue.next_turn@ == next + u.eventqueue.next_turn@
                    && after.score == self.score)
            },
        }
    }

    /// Plays the next clone event of this turn, if any; `Ok(false)` when
    /// none is left.
    pub fn do_npc_turn(&mut self) -> (r: Result<bool>)
        requires
            old(self).world.wf(),
            old(self).npc_turn_safe(),
        ensures
            final(self).world.wf(),
            final(self).world.dims() == old(self).world.dims(),
            final(self).actors == old(self).actors,
            final(self).data == old(self).data,
            final(self).recordings == old(self).recordings,
            old(self).npc_turn_outcome(*final(self), r),
    {
        let ghost g0 = *self;
        let evt = match self.event_queue.get_next_event() {
            None => {
                return Ok(false);
            },
            Some(e) => e,
        };
        let recording = self.recordings.get(evt.recording);
        let action = recording.at(evt.recording_idx);
        let action_result = execute_action(evt.actor, action, self);
        proof {
            assert(crate::action::action_result(g0, evt.actor, action, action_result));
        }
        let ghost mut acted_update: Option<GameUpdate> = None;
        let ghost res0 = action_result;
        match action_result {
            Ok(update) => {
                match update.apply(self) {
                    Ok(_) => {},
                    Err(e) => {
                        proof {
                            assert(g0.npc_step(*self, Err::<bool, Status>(e), res0));
                        }
                        return Err(e);
                    },
                }
                proof {
                    acted_update = Some(update);
                }
            },
            Err(Status::ActionFail(_)) => {
                match self.world.actors.get_location(&evt.actor) {
                    Ok(at) => {
                        let at = *at;
                        self.paradox_log.push(ParadoxChange::Failure { at, actor: evt.actor });
                    },
                    Err(_) => {},
                }
            },
            Err(res) => {
                proof {
                    assert(g0.npc_step(*self, Err::<bool, Status>(res), res0));
                }
                return Err(res);
            },
        }
        let ghost acted = *self;
        let recording = self.recordings.get(evt.recording);
        let len = recording.len();
        let should_loop = recording.should_loop;
        let mut evt = evt;
        evt.recording_idx = evt.recording_idx + 1;
        if evt.recording_idx >= len {
            if should_loop {
                evt.recording_idx = evt.recording_idx % len;
                self.event_queue.next_turn.push_back(evt);
            } else {
                let update = match crate::devtools::despawn_actor(evt.actor, self) {
                    Ok(u) => u,
                    Err(err) => {
                        proof {
                            assert(Game::despawn_outcome(acted.world, evt.actor, *self, Err::<bool, Status>(err)));
                            if let Some(u) = acted_update {
                                assert(u.world.applied(g0.world, acted.world));
                                assert(g0.applied_then_despawned(u, evt, *self, Err::<bool, Status>(err)));
                            }
                            assert(g0.npc_step(*self, Err::<bool, Status>(err), res0));
                        }
                        return Err(err);
                    },
                };
                let applied = update.apply(self);
                proof {
                    assert(drain_changes(update.world.paradox_drains@) =~= Seq::<ParadoxChange>::empty());
                    assert(self.paradox_log@ =~= acted.paradox_log@);
                    crate::devtools::lemma_despawn_ready(acted, evt.actor, update, self.world);
                    assert(crate::devtools::removed_from(acted.world, evt.actor, self.world));
                    assert(Game::despawn_outcome(acted.world, evt.actor, *self, Ok::<bool, Status>(true)));
                    if let Some(u) = acted_update {
                        assert(u.world.applied(g0.world, acted.world));
                        assert(g0.applied_then_despawned(u, evt, *self, Ok::<bool, Status>(true)));
                    }
                }
                applied.unwrap();
            }
        } else {
            self.event_queue.next_turn.push_back(evt);
        }
        proof {
            assert(g0.npc_step(*self, Ok::<bool, Status>(true), res0));
        }
        Ok(true)
    }

    /// Performs the player's action: works out its update, notes the action
    /// for the recording in progress, and applies the update.
    pub fn player_action(&mut self, action: Action) -> (r: Result<()>)
        requires
            old(self).world.wf(),
            old(self).actors.player matches Some(p) ==> action_safe(*old(self), p.actor_id, action),
        ensures
            final(self).world.wf(),
            final(self).world.dims() == old(self).world.dims(),
            final(self).actors == old(self).actors,
            final(self).data == old(self).data,
            old(self).player_action_outcome(action, *final(self), r),
    {
        let actor_ref = self.actors.get_player()?;
        match execute_action(actor_ref, action, self) {
            Ok(update) => {
                let ghost before = *self;
                self.recordings.append(action);
                let ghost mid = *self;
                let r = update.apply(self);
                proof {
                    assert(action_result(before, actor_ref, action, Ok::<GameUpdate, Status>(update)));
                    assert(update.world.applies_to(mid.world) == update.world.applies_to(before.world));
                    assert(before.player_action_step(actor_ref, action, *self, r, Ok::<GameUpdate, Status>(update)));
                }
                r
            },
            Err(res) => {
                proof {
                    assert(old(self).player_action_step(actor_ref, action, *self, Err::<(), Status>(res), Err::<GameUpdate, Status>(res)));
                }
                Err(res)
            },
        }
    }
}

/// Only successful actions are recorded: an action that succeeds is noted
/// by the recording module, and an action the rules refuse (no update can
/// come of it) fails, leaving the recordings, the world, the event queues
/// and the score as they were.
pub proof fn lemma_only_successful_actions_recorded(before: Game, action: Action, after: Game, r: Result<()>)
    requires
        before.player_action_outcome(action, after, r),
    ensures
        r is Ok ==> appended(before.recordings, after.recordings, action),
        before.actors.player matches Some(p) && (forall|u: GameUpdate|
            !#[trigger] action_result(before, p.actor_id, action, Ok::<GameUpdate, Status>(u)))
            ==> r is Err && after.recordings == before.recordings && after.world == before.world
            && after.event_queue == before.event_queue && after.score == before.score,
{
    if let Some(p) = before.actors.player {
        let res = choose|res: Result<GameUpdate>| before.player_action_step(p.actor_id, action, after, r, res);
        match res {
            Ok(u) => {
                assert(action_result(before, p.actor_id, action, Ok::<GameUpdate, Status>(u)));
            },
            Err(_) => {},
        }
    }
}

/// A clone's action that fails generates paradox at the clone's cell: the
/// step asks for exactly that failure, and nothing else of the paradox.
pub proof fn lemma_failed_action_makes_paradox(before: Game, after: Game, r: Result<bool>, why: &'static str)
    requires
        before.npc_turn_outcome(after, r),
        before.event_queue.this_turn@.len() > 0,
        action_result(
            before,
            before.event_queue.this_turn@[0].actor,
            before.npc_action(before.event_queue.this_turn@[0]),
            Err(Status::ActionFail(why)),
        ),
    ensures
        ({
            let e = before.event_queue.this_turn@[0];
            let locs = before.world.actors.index.locations();
            &&& locs.contains_key(e.actor.0)
            &&& after.paradox_log@ == before.paradox_log@.push(
                ParadoxChange::Failure { at: locs[e.actor.0], actor: e.actor },
            )
        }),
{
    let res = choose|res: Result<GameUpdate>| #[trigger] before.npc_step(after, r, res);
    assert(before.npc_step(after, r, res));
}

/// Writing ids into an index keeps every id already placed.
proof fn lemma_writes_keep_placed(
    m: Map<usize, Coordinate>,
    s: Set<usize>,
    w: Seq<(usize, Coordinate)>,
    k: usize,
)
    requires
        m.contains_key(k),
    ensures
        crate::engine::tracking_worldlayer::index_after_writes(m, s, w).0.contains_key(k),
    decreases w.len(),
{
    if w.len() > 0 {
        lemma_writes_keep_placed(m.insert(w[0].0, w[0].1), s.remove(w[0].0), w.drop_first(), k);
    }
}

/// A clone performs every step of its recording: after a step that is not
/// the last of the recording, the clone is still in the world and its event
/// comes back in the next turn at the following step.
pub proof fn lemma_clone_goes_on_before_last_step(before: Game, after: Game, r: Result<bool>)
    requires
        world_ready(before.world),
        before.npc_turn_outcome(after, r),
        r is Ok,
        before.event_queue.this_turn@.len() > 0,
        before.event_queue.this_turn@[0].recording_idx + 1 < before.recordings.recordings.recordings()[before.event_queue.this_turn@[0].recording.idx as int].command_list@.len(),
    ensures
        ({
            let e = before.event_queue.this_turn@[0];
            &&& r == Ok::<bool, Status>(true)
            &&& after.world.actors.index.locations().contains_key(e.actor.0)
            &&& after.event_queue.next_turn@.len() > 0
            &&& after.event_queue.next_turn@.last() == ActorEvent { recording_idx: (e.recording_idx + 1) as usize, ..e }
        }),
{
    let e = before.event_queue.this_turn@[0];
    let res = choose|res: Result<GameUpdate>| #[trigger] before.npc_step(after, r, res);
    assert(before.npc_step(after, r, res));
    if let Ok(u) = res {
        crate::game_state::turn::lemma_action_tame(before, e.actor, before.npc_action(e), u);
        let m = before.world.actors.index.locations();
        let s = before.world.actors.index.recycled();
        let written = crate::engine::tracking_worldlayer::index_after_writes(m, s, u.world.actor_updates.index.writes());
        assert(crate::engine::tracking_worldlayer::index_after_removals(
            written.0,
            written.1,
            u.world.actor_updates.index.removals(),
        ) == (written.0, written.1, true));
        lemma_writes_keep_placed(m, s, u.world.actor_updates.index.writes(), e.actor.0);
    }
}

/// At the last step of its recording a clone's event starts the recording
/// again in the next turn when it loops; when it does not, the clone is
/// removed from the world.
pub proof fn lemma_clone_at_last_step(before: Game, after: Game, r: Result<bool>)
    requires
        before.npc_turn_outcome(after, r),
        r is Ok,
        before.event_queue.this_turn@.len() > 0,
        before.event_queue.this_turn@[0].recording_idx + 1 == before.recordings.recordings.recordings()[before.event_queue.this_turn@[0].recording.idx as int].command_list@.len(),
    ensures
        ({
            let e = before.event_queue.this_turn@[0];
            if before.recordings.recordings.recordings()[e.recording.idx as int].should_loop {
                &&& after.event_queue.next_turn@.len() > 0
                &&& after.event_queue.next_turn@.last() == ActorEvent { recording_idx: 0, ..e }
            } else {
                !after.world.actors.index.locations().contains_key(e.actor.0)
            }
        }),
{
    let e = before.event_queue.this_turn@[0];
    let len = before.recordings.recordings.recordings()[e.recording.idx as int].command_list@.len();
    vstd::arithmetic::div_mod::lemma_mod_self_0(len as int);
    let res = choose|res: Result<GameUpdate>| #[trigger] before.npc_step(after, r, res);
    assert(before.npc_step(after, r, res));
    if let Ok(u) = res {
        if before.npc_despawns(e) && u.applies_to(before) {
            let mid = choose|mid: World|
                #[trigger] u.world.applied(before.world, mid) && Game::despawn_outcome(mid, e.actor, after, r);
            assert(crate::devtools::removed_from(mid, e.actor, after.world));
        }
    }
}

} // verus!
