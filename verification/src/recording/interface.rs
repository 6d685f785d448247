//! Recording the player's actions, and turning a finished recording into a
//! cloner item.
use vstd::prelude::*;
use super::db::{RecordingDb, RecordingId};
use super::Recording;
use crate::action::Action;
use crate::direction::AbsoluteDirection;
use crate::inventory::Item;
use crate::datatypes::Coordinate;
use crate::action::actor_at;
use crate::engine::update::{Delta, UpdatableContainer};
use crate::engine::worldlayer::index_of;
use crate::error::{Result, Status};
use crate::game_state::game::{Game, GameUpdate};

verus! {

/// The recordings of a game, the one being made (if any), and the cloner
/// waiting to be taken.
pub struct RecordingModule {
    pub recordings: RecordingDb,
    pub current_recording: Option<Recording>,
    pub temp_item: Option<Item>,
    pub last_player_facing: AbsoluteDirection,
}

impl RecordingModule {
    /// The way the player faced after their last recorded action.
    pub open spec fn facing(self) -> AbsoluteDirection {
        self.last_player_facing
    }

    pub fn new() -> (r: RecordingModule)
        ensures
            r.recordings.recordings().len() == 1,
            r.recordings.recordings()[0].command_list@.len() == 0,
            !r.recordings.recordings()[0].should_loop,
            r.recordings.recordings()[0].inventory.slots() == crate::inventory::BasicInventory::new_slots(),
            r.current_recording is None,
            r.temp_item is None,
            r.facing() == AbsoluteDirection::N,
    {
        RecordingModule {
            recordings: RecordingDb::new(),
            current_recording: None,
            temp_item: None,
            last_player_facing: AbsoluteDirection::N,
        }
    }

    pub fn get(&self, id: RecordingId) -> (r: &Recording)
        requires
            self.recordings.valid_id(id),
        ensures
            *r == self.recordings.recordings()[id.idx as int],
    {
        self.recordings.get(id)
    }

    /// Notes a player action: the action is added, as it was given, to the
    /// recording in progress, if any, and the player's facing is turned by
    /// its direction.
    pub fn append(&mut self, action: Action)
        ensures
            appended(*old(self), *final(self), action),
    {
        self.last_player_facing = self.last_player_facing.rotate(&action.direction);
        match self.current_recording.as_mut() {
            Some(rec) => {
                rec.append(action);
            },
            None => {},
        }
    }

    /// Stores a recording and returns its id.
    pub fn load_recording(&mut self, recording: Recording) -> (r: RecordingId)
        requires
            old(self).recordings.recordings().len() < usize::MAX,
        ensures
            final(self).recordings.recordings() == old(self).recordings.recordings().push(recording),
            r.idx == old(self).recordings.recordings().len(),
            final(self).current_recording == old(self).current_recording,
            final(self).temp_item == old(self).temp_item,
            final(self).facing() == old(self).facing(),
    {
        self.recordings.register_recording(recording)
    }
}

/// Why starting a recording with the item of slot `idx` fails, if it does.
pub open spec fn init_record_error(g: Game, idx: usize) -> Option<Status> {
    if g.recordings.current_recording is Some {
        Some(Status::Error("Attempted to initialize recording twice"))
    } else {
        match g.spec_player_actor() {
            Err(e) => Some(e),
            Ok(a) => if idx > 5 || a.inventory.slots()[idx as int] is None {
                Some(Status::ActionFail("No item in slot"))
            } else if a.inventory.slots()[idx as int]->Some_0.definition.name@ != "recorder"@ {
                Some(Status::ActionFail("Item is not an empty recorder"))
            } else {
                None
            },
        }
    }
}

/// Ending the recording in progress fails without one, or without a
/// `basic_cloner` definition.
pub open spec fn end_record_error(g: Game) -> Option<Status> {
    if g.recordings.current_recording is None {
        Some(Status::Error("Called end_record without a recording"))
    } else if !g.data.items.spec_contains("basic_cloner"@) {
        Some(Status::Error("unable to get basic cloner definition"))
    } else {
        None
    }
}

/// What taking the waiting cloner does: the player is granted it.
pub open spec fn take_item_outcome(before: Game, after: Game, r: Result<()>) -> bool {
    match before.recordings.temp_item {
        None => r == Err::<(), Status>(Status::ActionFail("no cloner to take")) && after.world == before.world,
        Some(item) => match before.spec_player_coords() {
            Err(e) => r == Err::<(), Status>(e) && after.world == before.world,
            Ok(c) => match r {
                Err(e) => crate::devtools::grant_result(before, item, c, Err(e)) && after.world == before.world,
                Ok(_) => granted(before, item, c, after),
            },
        },
    }
}

/// `after` is `before` with `item` granted to the actor at `location`.
pub open spec fn granted(before: Game, item: Item, location: Coordinate, after: Game) -> bool {
    exists|u: GameUpdate|
        #[trigger] crate::devtools::grant_result(before, item, location, Ok(u)) && u.applied(before, after)
}

impl RecordingModule {
    /// Starts a recording: spends the empty recorder in the player's slot
    /// `idx`; the recording's clones will start with what the player holds
    /// then. (Slot index 5, one past the last slot, is not accepted once
    /// the player is found.)
    pub fn init_record(game: &mut Game, idx: usize) -> (r: Result<()>)
        requires
            old(game).world.wf(),
            old(game).recordings.current_recording is None && old(game).spec_player_actor() is Ok ==> idx != 5,
        ensures
            final(game).world.wf(),
            crate::game_state::turn::world_ready(old(game).world) ==> crate::game_state::turn::world_ready(
                final(game).world,
            ),
            final(game).actors == old(game).actors,
            final(game).data == old(game).data,
            final(game).score == old(game).score,
            final(game).event_queue == old(game).event_queue,
            final(game).paradox_log == old(game).paradox_log,
            final(game).recordings.recordings == old(game).recordings.recordings,
            final(game).recordings.temp_item == old(game).recordings.temp_item,
            final(game).recordings.facing() == old(game).recordings.facing(),
            match r {
                Ok(_) => {
                    let a = old(game).spec_player_actor()->Ok_0;
                    let c = old(game).spec_player_coords()->Ok_0;
                    let slots = a.inventory.slots().update(idx as int, None);
                    &&& init_record_error(*old(game), idx) is None
                    &&& final(game).recordings.current_recording matches Some(rec) && rec.command_list@.len() == 0
                        && rec.inventory.slots() == slots && !rec.should_loop
                    &&& final(game).world.actors.layer.spec_get(c) matches Ok(Some(b)) && b.facing == a.facing
                        && b.descriptor == a.descriptor && b.actor_id == a.actor_id && b.inventory.slots() == slots
                    &&& final(game).world.actors.layer.cells() == old(game).world.actors.layer.cells().update(
                        index_of(old(game).world.dims(), c),
                        final(game).world.actors.layer.cells()[index_of(old(game).world.dims(), c)],
                    )
                    &&& final(game).world.actors.index.locations() == old(game).world.actors.index.locations().insert(a.actor_id.0, c)
                    &&& final(game).world.actors.index.recycled() == old(game).world.actors.index.recycled().remove(a.actor_id.0)
                    &&& final(game).world.buildings == old(game).world.buildings
                    &&& final(game).world.items == old(game).world.items
                    &&& final(game).world.floor == old(game).world.floor
                },
                Err(e) => init_record_error(*old(game), idx) == Some(e) && final(game).world == old(game).world
                    && final(game).recordings.current_recording == old(game).recordings.current_recording,
            },
    {
        if game.recordings.current_recording.is_some() {
            return Err(Status::Error("Attempted to initialize recording twice"));
        }
        let mut player = *game.get_player_actor()?;
        let coords = *game.get_player_coords()?;
        let item = match player.inventory.remove_idx(idx) {
            Some(i) => i,
            None => {
                return Err(Status::ActionFail("No item in slot"));
            },
        };
        let recorder_name = "recorder".to_owned();
        if !(item.definition.name == recorder_name) {
            return Err(Status::ActionFail("Item is not an empty recorder"));
        }
        proof {
            crate::engine::worldlayer::lemma_index_in_range(game.world.actors.layer.dims(), coords);
        }
        let ghost w0 = game.world;
        game.world.actors.mut_set(&coords, &Some(player))?;
        proof {
            if crate::game_state::turn::world_ready(w0) {
                let a = w0.actors.layer.cells()[index_of(w0.actors.layer.dims(), coords)]->Some_0;
                assert(a.actor_id == player.actor_id);
                crate::game_state::turn::lemma_write_actor_ready(w0, game.world, coords, player);
            }
        }
        game.recordings.current_recording = Some(Recording::from_creator(&player));
        Ok(())
    }

    /// Ends the recording in progress: stores it, looping or not, and makes
    /// a cloner for it waiting to be taken.
    pub fn end_record(game: &mut Game, should_loop: bool) -> (r: Result<()>)
        requires
            old(game).recordings.recordings.recordings().len() < usize::MAX,
        ensures
            final(game).world == old(game).world,
            final(game).actors == old(game).actors,
            final(game).data == old(game).data,
            final(game).score == old(game).score,
            final(game).event_queue == old(game).event_queue,
            final(game).paradox_log == old(game).paradox_log,
            final(game).recordings.facing() == old(game).recordings.facing(),
            match r {
                Ok(_) => {
                    let rec = old(game).recordings.current_recording->Some_0;
                    let n = old(game).recordings.recordings.recordings().len();
                    &&& end_record_error(*old(game)) is None
                    &&& final(game).recordings.current_recording is None
                    &&& final(game).recordings.recordings.recordings().len() == n + 1
                    &&& final(game).recordings.recordings.recordings().drop_last() == old(game).recordings.recordings.recordings()
                    &&& final(game).recordings.recordings.recordings()[n as int].command_list == rec.command_list
                    &&& final(game).recordings.recordings.recordings()[n as int].inventory == rec.inventory
                    &&& final(game).recordings.recordings.recordings()[n as int].should_loop == should_loop
                    &&& final(game).recordings.temp_item matches Some(it) && it.quantity == 1 && it.recording
                        == Some(RecordingId { idx: n as usize }) && old(game).data.items.spec_get("basic_cloner"@)
                        == Some(*it.definition)
                },
                Err(e) => end_record_error(*old(game)) == Some(e) && final(game).recordings == old(game).recordings,
            },
    {
        if game.recordings.current_recording.is_none() {
            return Err(Status::Error("Called end_record without a recording"));
        }
        let cloner_def = match game.data.items.get("basic_cloner") {
            Some(d) => d,
            None => {
                return Err(Status::Error("unable to get basic cloner definition"));
            },
        };
        let mut recording = game.recordings.current_recording.take().unwrap();
        recording.should_loop = should_loop;
        let id = game.recordings.recordings.register_recording(recording);
        proof {
            assert(game.recordings.recordings.recordings().drop_last() =~= old(game).recordings.recordings.recordings());
        }
        let new_cloner = Item::new_cloner(cloner_def, id);
        game.recordings.temp_item = Some(new_cloner);
        Ok(())
    }

    /// Gives the player the cloner waiting to be taken (it stays waiting, so
    /// it can be taken again).
    pub fn take_item(game: &mut Game) -> (r: Result<()>)
        requires
            old(game).world.wf(),
        ensures
            final(game).world.wf(),
            final(game).actors == old(game).actors,
            final(game).data == old(game).data,
            final(game).recordings == old(game).recordings,
            crate::game_state::turn::world_ready(old(game).world) ==> crate::game_state::turn::world_ready(
                final(game).world,
            ),
            take_item_outcome(*old(game), *final(game), r),
            r is Err ==> final(game).paradox_log == old(game).paradox_log,
    {
        let item = match game.recordings.temp_item {
            Some(i) => i,
            None => {
                return Err(Status::ActionFail("no cloner to take"));
            },
        };
        let location = *game.get_player_coords()?;
        let res = crate::devtools::grant_item(item, location, game);
        proof {
            assert(crate::devtools::grant_result(*old(game), item, location, res));
        }
        let update = match res {
            Ok(u) => u,
            Err(e) => {
                proof {
                    assert(take_item_outcome(*old(game), *game, Err::<(), Status>(e)));
                }
                return Err(e);
            },
        };
        proof {
            assert(crate::engine::worldlayer::all_in_bounds(
                game.world.actors.layer.dims(),
                update.world.actor_updates.layer.writes(),
            ));
            let m = game.world.actors.index.locations();
            let s = game.world.actors.index.recycled();
            let w = update.world.actor_updates.index.writes();
            assert(w.drop_first() =~= Seq::<(usize, crate::datatypes::Coordinate)>::empty());
            assert(crate::engine::tracking_worldlayer::index_after_writes(m.insert(w[0].0, w[0].1), s.remove(w[0].0), w.drop_first())
                == (m.insert(w[0].0, w[0].1), s.remove(w[0].0)));
        }
        let ghost g1 = *game;
        let rr = update.apply(game);
        proof {
            assert(crate::devtools::grant_result(g1, item, location, Ok::<GameUpdate, Status>(update)));
            assert(rr is Ok);
            assert(update.applied(g1, *game));
            assert(granted(*old(game), item, location, *game));
            assert(take_item_outcome(*old(game), *game, rr));
            if crate::game_state::turn::world_ready(g1.world) {
                crate::game_state::turn::lemma_turned_tame(g1, update, location);
                assert(crate::game_state::turn::tame(update, g1));
                crate::game_state::turn::lemma_tame_applied(g1, update, game.world);
            }
        }
        rr
    }
}

/// `after` is `before` having noted the player action `action`.
pub open spec fn appended(before: RecordingModule, after: RecordingModule, action: Action) -> bool {
    &&& after.facing() == before.facing().spec_rotate(action.direction)
    &&& after.recordings == before.recordings
    &&& after.temp_item == before.temp_item
    &&& match before.current_recording {
        None => after.current_recording is None,
        Some(rec) => after.current_recording matches Some(new_rec) && new_rec.command_list@
            == rec.command_list@.push(action) && new_rec.inventory == rec.inventory && new_rec.should_loop
            == rec.should_loop,
    }
}

/// A recording begun empty holds, after a run of noted player actions, those
/// actions in the order they were noted.
pub proof fn lemma_recording_holds_actions(modules: Seq<RecordingModule>, actions: Seq<Action>)
    requires
        modules.len() == actions.len() + 1,
        modules[0].current_recording matches Some(rec) && rec.command_list@.len() == 0,
        forall|i: int| 0 <= i < actions.len() ==> appended(modules[i], #[trigger] modules[i + 1], actions[i]),
    ensures
        modules.last().current_recording matches Some(rec) && rec.command_list@ == actions,
    decreases actions.len(),
{
    if actions.len() > 0 {
        let n = actions.len() - 1;
        lemma_recording_holds_actions(modules.take(n + 1), actions.take(n));
        assert(modules.take(n + 1).last() == modules[n]);
        assert(appended(modules[n], modules[n + 1], actions[n]));
        assert(actions.take(n).push(actions[n]) =~= actions);
    }
}

} // verus!
