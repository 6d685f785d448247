//! Actions performed by the player or by clones.
use vstd::prelude::*;
use crate::actor::Actor;
use crate::buildings::Building;
use crate::datatypes::Coordinate;
use crate::direction::{AbsoluteDirection, Direction};
use crate::engine::update::{Delta, UpdatableContainer, UpdatableContainerDelta};
use crate::error::{Result, Status};
use crate::game_state::game::{Game, GameUpdate};
use crate::game_state::world::{FloorInventory, FloorTile};
use crate::inventory::{BasicInventory, Item, spec_insert, spec_remove_named, remove_n, is_first_empty};
use crate::eventqueue::ActorEvent;
use crate::engine::worldlayer::{in_bounds_of, index_of};
use crate::engine::tracking_worldlayer::TrackableId;
use crate::static_data::{Data, RecipeDefiniton};

verus! {

broadcast use vstd::array::group_array_axioms;

/// An action: what to do, and which way.
#[derive(Clone, Copy, Debug, PartialEq)]
pub struct Action {
    pub direction: Direction,
    pub action: SubAction,
}

/// The kinds of action.
#[derive(Clone, Copy, Debug, PartialEq)]
pub enum SubAction {
    Move,
    Take,
    Drop(usize),
    Use(usize),
    ActivateBuilding,
    Craft(&'static RecipeDefiniton),
    Wait,
}

/// What happens when an item is used.
#[derive(Clone, Copy, Debug, PartialEq, Eq, Structural)]
pub enum ItemUseFn {
    /// Spawn a clone that replays the item's recording.
    UseCloner,
    /// Place the building the item stands for.
    Construct,
}

/// The item use bound to a name in the data files.
pub open spec fn spec_item_use_fn(name: Seq<char>) -> Option<ItemUseFn> {
    if name == "action_use_cloner"@ {
        Some(ItemUseFn::UseCloner)
    } else if name == "action_construct"@ {
        Some(ItemUseFn::Construct)
    } else {
        None
    }
}

/// The names under which item uses are bound.
pub fn get_use_fn_table() -> (r: Vec<(String, ItemUseFn)>)
    ensures
        r@.len() == 2,
        forall|name: Seq<char>|
            crate::static_data::map::entry_lookup(r@, name) == spec_item_use_fn(name),
{
    let mut map: Vec<(String, ItemUseFn)> = Vec::new();
    let a = "action_use_cloner".to_owned();
    let b = "action_construct".to_owned();
    proof {
        reveal_strlit("action_use_cloner");
        reveal_strlit("action_construct");
    }
    map.push((a, ItemUseFn::UseCloner));
    map.push((b, ItemUseFn::Construct));
    proof {
        assert(map@.drop_last().drop_last() =~= Seq::<(String, ItemUseFn)>::empty());
        assert(map@.drop_last()[0] == map@[0]);
        assert(a@ != b@) by {
            assert(a@[7] != b@[7]);
        }
        assert forall|name: Seq<char>|
            crate::static_data::map::entry_lookup(map@, name) == spec_item_use_fn(name) by {
            reveal_with_fuel(crate::static_data::map::entry_lookup, 3);
        }
    }
    map
}

/// The actor layer of `g` at `c`.
pub open spec fn actor_at(g: Game, c: Coordinate) -> Result<Option<Actor>> {
    g.world.actors.layer.spec_get(c)
}

/// The floor items of `g` at `c`.
pub open spec fn items_at(g: Game, c: Coordinate) -> Result<FloorInventory> {
    g.world.items.spec_get(c)
}

/// The building layer of `g` at `c`.
pub open spec fn building_at(g: Game, c: Coordinate) -> Result<Option<Building>> {
    g.world.buildings.spec_get(c)
}

/// The floor of `g` at `c`.
pub open spec fn floor_at(g: Game, c: Coordinate) -> Result<FloorTile> {
    g.world.floor.spec_get(c)
}

/// The offset of the cell in front of an actor facing North.
pub open spec fn forward() -> Coordinate {
    Coordinate { x: 0, y: 1 }
}

/// The cell in front of `location` for an actor facing `orientation`.
pub open spec fn ahead(location: Coordinate, orientation: AbsoluteDirection) -> Coordinate {
    Coordinate::spec_as_offset(forward(), location, orientation)
}

/// `b` is `a` turned to `facing` and holding `slots`.
pub open spec fn turned_with(b: Actor, a: Actor, facing: AbsoluteDirection, slots: Seq<Option<Item>>) -> bool {
    &&& b.facing == facing
    &&& b.descriptor == a.descriptor
    &&& b.actor_id == a.actor_id
    &&& b.inventory.slots() == slots
}

/// The one write of `u` to the actor layer is `a` turned to `facing` with
/// `slots`, at `c`; the index follows it there.
pub open spec fn writes_turned_actor(
    u: GameUpdate,
    c: Coordinate,
    a: Actor,
    facing: AbsoluteDirection,
    slots: Seq<Option<Item>>,
) -> bool {
    &&& u.world.actor_updates.layer.writes().len() == 1
    &&& u.world.actor_updates.layer.writes()[0].0 == c
    &&& u.world.actor_updates.layer.writes()[0].1 matches Some(b) && turned_with(b, a, facing, slots)
    &&& u.world.actor_updates.index.writes() == seq![(a.actor_id.0, c)]
    &&& u.world.actor_updates.index.removals().len() == 0
}

/// `u` changes nothing but what its clauses around it say: no building,
/// floor or queue changes, no paradox drain, no score.
pub open spec fn quiet_except_actors_items(u: GameUpdate) -> bool {
    &&& u.world.building_updates.writes().len() == 0
    &&& u.world.floor_updates.writes().len() == 0
    &&& u.world.paradox_drains@.len() == 0
    &&& u.eventqueue.this_turn@.len() == 0
    &&& u.eventqueue.next_turn@.len() == 0
    &&& u.score.score == 0
}

/// Why a move from `src` to `dst` fails, if it does.
pub open spec fn move_error(g: Game, src: Coordinate, dst: Coordinate) -> Option<Status> {
    match actor_at(g, src) {
        Err(e) => Some(e),
        Ok(None) => Some(Status::Error("Actor missing")),
        Ok(Some(_)) => match actor_at(g, dst) {
            Err(Status::OutOfBounds) => Some(Status::ActionFail("destination out of bounds")),
            Err(e) => Some(e),
            Ok(Some(_)) => Some(Status::ActionFail("destination occupied")),
            Ok(None) => if floor_at(g, dst) == Ok::<FloorTile, Status>(FloorTile::Water) {
                Some(Status::ActionFail("Destination impassable"))
            } else {
                None
            },
        },
    }
}

/// A move takes the actor at `location` one cell ahead, facing the way it
/// moved, onto an empty cell that is not water.
pub open spec fn move_result(g: Game, location: Coordinate, orientation: AbsoluteDirection, r: Result<GameUpdate>) -> bool {
    let dst = ahead(location, orientation);
    match r {
        Ok(u) => {
            let a = actor_at(g, location)->Ok_0->Some_0;
            &&& move_error(g, location, dst) is None
            &&& u.world.actor_updates.layer.writes().len() == 2
            &&& u.world.actor_updates.layer.writes()[0] == (location, None::<Actor>)
            &&& u.world.actor_updates.layer.writes()[1].0 == dst
            &&& u.world.actor_updates.layer.writes()[1].1 matches Some(b) && turned_with(b, a, orientation, a.inventory.slots())
            &&& u.world.actor_updates.index.writes() == seq![(a.actor_id.0, dst)]
            &&& u.world.actor_updates.index.removals().len() == 0
            &&& u.world.item_updates.writes().len() == 0
            &&& quiet_except_actors_items(u)
        },
        Err(e) => move_error(g, location, dst) == Some(e),
    }
}

/// Moves the actor at `location` to the cell ahead of it.
pub fn execute_move(location: Coordinate, orientation: AbsoluteDirection, game: &Game) -> (r: Result<GameUpdate>)
    requires
        game.world.wf(),
        Coordinate::offset_fits(forward(), location, orientation),
    ensures
        move_result(*game, location, orientation, r),
{
    let mut update: GameUpdate = GameUpdate::new();
    let src_coord = Coordinate::as_offset(Coordinate { x: 0, y: 0 }, location, orientation);
    let dst_coord = Coordinate::as_offset(Coordinate { x: 0, y: 1 }, location, orientation);
    assert(src_coord == location);
    let src = match update.world.actor_updates.get(&game.world.actors, &src_coord)? {
        Some(a) => *a,
        None => {
            return Err(Status::Error("Actor missing"));
        },
    };
    let dst = match update.world.actor_updates.get(&game.world.actors, &dst_coord) {
        Err(Status::OutOfBounds) => Err(Status::ActionFail("destination out of bounds")),
        Err(e) => Err(e),
        Ok(o) => Ok(*o),
    }?;
    let dstfloor = *update.world.floor_updates.get(&game.world.floor, &dst_coord)?;
    if dst.is_some() {
        return Err(Status::ActionFail("destination occupied"));
    }
    match dstfloor {
        FloorTile::Water => {
            return Err(Status::ActionFail("Destination impassable"));
        },
        _ => {},
    }
    let mut actor = src;
    update.world.actor_updates.set(&src_coord, &None)?;
    actor.facing = orientation;
    update.world.actor_updates.set(&dst_coord, &Some(actor))?;
    Ok(update)
}

/// Why taking the item at `location` fails, if it does.
pub open spec fn take_error(g: Game, location: Coordinate) -> Option<Status> {
    match (actor_at(g, location), items_at(g, location)) {
        (Err(e), _) => Some(e),
        (_, Err(e)) => Some(e),
        (Ok(None), _) => Some(Status::Error("actor Missing")),
        (Ok(Some(a)), Ok(floor)) => match floor[0] {
            None => Some(Status::ActionFail("no item to take")),
            Some(item) => if spec_insert(a.inventory.slots(), item) is None {
                Some(Status::ActionFail("no space in inventory"))
            } else {
                None
            },
        },
    }
}

/// Taking moves the item on the actor's cell into its inventory.
pub open spec fn take_result(g: Game, location: Coordinate, orientation: AbsoluteDirection, r: Result<GameUpdate>) -> bool {
    match r {
        Ok(u) => {
            let a = actor_at(g, location)->Ok_0->Some_0;
            let item = items_at(g, location)->Ok_0[0]->Some_0;
            &&& take_error(g, location) is None
            &&& writes_turned_actor(u, location, a, orientation, spec_insert(a.inventory.slots(), item)->Some_0)
            &&& u.world.item_updates.writes().len() == 1
            &&& u.world.item_updates.writes()[0].0 == location
            &&& u.world.item_updates.writes()[0].1@ == seq![None::<Item>]
            &&& quiet_except_actors_items(u)
        },
        Err(e) => take_error(g, location) == Some(e),
    }
}

/// Picks up the item lying on the actor's cell.
pub fn execute_take(location: Coordinate, orientation: AbsoluteDirection, game: &Game) -> (r: Result<GameUpdate>)
    requires
        game.world.wf(),
    ensures
        take_result(*game, location, orientation, r),
{
    let mut update: GameUpdate = GameUpdate::new();
    let actor_cell = *update.world.actor_updates.get(&game.world.actors, &location)?;
    let floor_cell = *update.world.item_updates.get(&game.world.items, &location)?;
    match (actor_cell, floor_cell[0]) {
        (None, _) => Err(Status::Error("actor Missing")),
        (Some(_), None) => Err(Status::ActionFail("no item to take")),
        (Some(actor), Some(item)) => {
            let mut actor = actor;
            actor.facing = orientation;
            actor.inventory.insert(item)?;
            update.world.actor_updates.set(&location, &Some(actor))?;
            let emptied: FloorInventory = [None];
            assert(emptied@ =~= seq![None::<Item>]);
            update.world.item_updates.set(&location, &emptied)?;
            Ok(update)
        },
    }
}

/// Why dropping from slot `idx` fails, if it does.
pub open spec fn drop_error(g: Game, idx: usize, location: Coordinate) -> Option<Status> {
    match (actor_at(g, location), items_at(g, location)) {
        (Err(e), _) => Some(e),
        (_, Err(e)) => Some(e),
        (Ok(None), _) => Some(Status::Error("actor Missing")),
        (Ok(Some(a)), Ok(floor)) => if floor[0] is Some {
            Some(Status::ActionFail("destination full"))
        } else if idx > 5 || a.inventory.slots()[idx as int] is None {
            Some(Status::ActionFail("No item in slot"))
        } else {
            None
        },
    }
}

/// Dropping puts the item of slot `idx` on the actor's (empty) cell.
pub open spec fn drop_result(g: Game, idx: usize, location: Coordinate, orientation: AbsoluteDirection, r: Result<GameUpdate>) -> bool {
    match r {
        Ok(u) => {
            let a = actor_at(g, location)->Ok_0->Some_0;
            &&& drop_error(g, idx, location) is None
            &&& writes_turned_actor(u, location, a, orientation, a.inventory.slots().update(idx as int, None))
            &&& u.world.item_updates.writes().len() == 1
            &&& u.world.item_updates.writes()[0].0 == location
            &&& u.world.item_updates.writes()[0].1@ == seq![a.inventory.slots()[idx as int]]
            &&& quiet_except_actors_items(u)
        },
        Err(e) => drop_error(g, idx, location) == Some(e),
    }
}

/// Dropping from slot `idx` cannot fail midway: when the actor is there and
/// its cell is empty, the slot index is not 5, one past the last slot.
pub open spec fn drop_safe(g: Game, idx: usize, location: Coordinate) -> bool {
    actor_at(g, location) matches Ok(Some(_)) && items_at(g, location) matches Ok(f) && f[0] is None ==> idx != 5
}

/// Puts the item of inventory slot `idx` on the actor's cell.
pub fn execute_drop(idx: usize, location: Coordinate, orientation: AbsoluteDirection, game: &Game) -> (r: Result<GameUpdate>)
    requires
        game.world.wf(),
        drop_safe(*game, idx, location),
    ensures
        drop_result(*game, idx, location, orientation, r),
{
    let mut update: GameUpdate = GameUpdate::new();
    let actor_cell = *update.world.actor_updates.get(&game.world.actors, &location)?;
    let floor_cell = *update.world.item_updates.get(&game.world.items, &location)?;
    match (actor_cell, floor_cell[0]) {
        (None, _) => Err(Status::Error("actor Missing")),
        (Some(_), Some(_)) => Err(Status::ActionFail("destination full")),
        (Some(actor), None) => {
            let mut actor = actor;
            actor.facing = orientation;
            let item = match actor.inventory.remove_idx(idx) {
                Some(i) => i,
                None => {
                    return Err(Status::ActionFail("No item in slot"));
                },
            };
            update.world.actor_updates.set(&location, &Some(actor))?;
            let dropped: FloorInventory = [Some(item)];
            assert(dropped@ =~= seq![Some(item)]);
            update.world.item_updates.set(&location, &dropped)?;
            Ok(update)
        },
    }
}

/// Why using the cloner in slot `idx` at `src` fails, if it does.
pub open spec fn use_cloner_error(g: Game, idx: usize, src: Coordinate, dst: Coordinate) -> Option<Status> {
    match actor_at(g, src) {
        Err(e) => Some(e),
        Ok(sa) => match actor_at(g, dst) {
            Err(Status::OutOfBounds) => Some(Status::ActionFail("destination out of bounds")),
            Err(e) => Some(e),
            Ok(da) => match sa {
                None => Some(Status::Error("actor Missing")),
                Some(a) => if da is Some {
                    Some(Status::ActionFail("destination occupied"))
                } else {
                    match a.inventory.slots()[idx as int] {
                        None => Some(Status::ActionFail("no item")),
                        Some(it) => if it.recording is None {
                            Some(Status::Error("called use cloner on a non-recorder item"))
                        } else {
                            None
                        },
                    }
                },
            },
        },
    }
}

/// Using a cloner cannot fail midway: the cell ahead is addressable, and
/// once the actor is found with an empty cell ahead, the slot index is one
/// of the five; and once its item names a recording, an id is free, a
/// `clone` actor is defined and the recording exists.
pub open spec fn cloner_safe(g: Game, idx: usize, location: Coordinate, orientation: AbsoluteDirection) -> bool {
    &&& Coordinate::offset_fits(forward(), location, orientation)
    &&& match actor_at(g, location) {
        Ok(Some(a)) => actor_at(g, ahead(location, orientation)) == Ok::<Option<Actor>, Status>(None) ==> {
            &&& idx < 5
            &&& (a.inventory.slots()[idx as int] matches Some(it) && it.recording matches Some(id) ==> {
                &&& g.world.actors.index.spec_next_id() <= usize::MAX
                &&& g.data.actors.spec_contains("clone"@)
                &&& g.recordings.recordings.valid_id(id)
            })
        },
        _ => true,
    }
}

/// Using a cloner puts, on the empty cell ahead, a new clone that faces the
/// same way, starts with its recording's inventory and replays it this turn.
pub open spec fn use_cloner_result(g: Game, idx: usize, location: Coordinate, orientation: AbsoluteDirection, r: Result<GameUpdate>) -> bool {
    let dst = ahead(location, orientation);
    match r {
        Ok(u) => {
            let a = actor_at(g, location)->Ok_0->Some_0;
            let rec_id = a.inventory.slots()[idx as int]->Some_0.recording->Some_0;
            let new_id = g.world.actors.index.spec_next_id();
            &&& use_cloner_error(g, idx, location, dst) is None
            &&& u.world.actor_updates.layer.writes().len() == 2
            &&& u.world.actor_updates.layer.writes()[0].0 == location
            &&& u.world.actor_updates.layer.writes()[0].1 matches Some(b) && turned_with(b, a, orientation, a.inventory.slots())
            &&& u.world.actor_updates.layer.writes()[1].0 == dst
            &&& u.world.actor_updates.layer.writes()[1].1 matches Some(c) && c.facing == orientation && c.actor_id.0
                == new_id && g.data.actors.spec_get("clone"@) == Some(*c.descriptor) && c.inventory
                == g.recordings.recordings.recordings()[rec_id.idx as int].inventory
            &&& u.world.actor_updates.index.writes() == seq![(a.actor_id.0, location), (new_id as usize, dst)]
            &&& u.world.actor_updates.index.removals().len() == 0
            &&& u.world.item_updates.writes().len() == 0
            &&& u.world.building_updates.writes().len() == 0
            &&& u.world.floor_updates.writes().len() == 0
            &&& u.world.paradox_drains@.len() == 0
            &&& u.eventqueue.this_turn@ == seq![ActorEvent { actor: TrackableId(new_id as usize), recording: rec_id, recording_idx: 0 }]
            &&& u.eventqueue.next_turn@.len() == 0
            &&& u.score.score == 0
        },
        Err(e) => use_cloner_error(g, idx, location, dst) == Some(e),
    }
}

/// Spawns a clone that replays the recording of the cloner in slot `idx`.
pub fn execute_use_cloner(idx: usize, location: Coordinate, orientation: AbsoluteDirection, game: &Game) -> (r: Result<GameUpdate>)
    requires
        game.world.wf(),
        cloner_safe(*game, idx, location, orientation),
    ensures
        use_cloner_result(*game, idx, location, orientation, r),
{
    let mut update: GameUpdate = GameUpdate::new();
    let src_coord = Coordinate::as_offset(Coordinate { x: 0, y: 0 }, location, orientation);
    let dst_coord = Coordinate::as_offset(Coordinate { x: 0, y: 1 }, location, orientation);
    assert(src_coord == location);
    let src = update.world.actor_updates.get(&game.world.actors, &src_coord);
    let dst = update.world.actor_updates.get(&game.world.actors, &dst_coord);
    match (src, dst) {
        (Err(err), _) => Err(err),
        (Ok(_), Err(Status::OutOfBounds)) => Err(Status::ActionFail("destination out of bounds")),
        (_, Err(err)) => Err(err),
        (Ok(None), _) => Err(Status::Error("actor Missing")),
        (Ok(Some(_)), Ok(Some(_))) => Err(Status::ActionFail("destination occupied")),
        (Ok(Some(source_actor)), Ok(None)) => {
            let mut source_actor = *source_actor;
            source_actor.facing = orientation;
            let recorder = match source_actor.inventory.get_items()[idx] {
                Some(it) => it,
                None => {
                    return Err(Status::ActionFail("no item"));
                },
            };
            let recordingid = match recorder.recording {
                Some(id) => id,
                None => {
                    return Err(Status::Error("called use cloner on a non-recorder item"));
                },
            };
            let actor_id = update.world.actor_updates.get_next_id(&game.world.actors);
            let descriptor = game.data.actors.get("clone").unwrap();
            let mut new_actor = Actor::from_recording(descriptor, actor_id, game.recordings.get(recordingid));
            new_actor.facing = orientation;
            update.world.actor_updates.set(&src_coord, &Some(source_actor))?;
            update.world.actor_updates.set(&dst_coord, &Some(new_actor))?;
            update.eventqueue.this_turn.push_front(
                ActorEvent { actor: actor_id, recording: recordingid, recording_idx: 0 },
            );
            proof {
                assert(update.eventqueue.this_turn@ =~= seq![ActorEvent { actor: actor_id, recording: recordingid, recording_idx: 0 }]);
                assert(update.world.actor_updates.index.writes() =~= seq![
                    (source_actor.actor_id.0, location),
                    (actor_id.0, dst_coord),
                ]);
            }
            Ok(update)
        },
    }
}

/// Why constructing from slot `idx` fails, if it does.
pub open spec fn construct_error(g: Game, idx: usize, location: Coordinate) -> Option<Status> {
    match (actor_at(g, location), building_at(g, location)) {
        (Err(e), _) => Some(e),
        (_, Err(e)) => Some(e),
        (Ok(None), _) => Some(Status::Error("actor Missing")),
        (Ok(Some(a)), Ok(b)) => if b is Some {
            Some(Status::ActionFail("destination full"))
        } else if idx > 5 || a.inventory.slots()[idx as int] is None {
            Some(Status::ActionFail("No item in slot"))
        } else if !g.data.buildings.spec_contains(a.inventory.slots()[idx as int]->Some_0.definition.name@) {
            Some(Status::Error("called execute_construct on a non-building item"))
        } else {
            None
        },
    }
}

/// Constructing spends the item of slot `idx` and puts the building of the
/// same name on the actor's (empty) cell.
pub open spec fn construct_result(g: Game, idx: usize, location: Coordinate, orientation: AbsoluteDirection, r: Result<GameUpdate>) -> bool {
    match r {
        Ok(u) => {
            let a = actor_at(g, location)->Ok_0->Some_0;
            let name = a.inventory.slots()[idx as int]->Some_0.definition.name@;
            &&& construct_error(g, idx, location) is None
            &&& writes_turned_actor(u, location, a, orientation, a.inventory.slots().update(idx as int, None))
            &&& u.world.building_updates.writes().len() == 1
            &&& u.world.building_updates.writes()[0].0 == location
            &&& u.world.building_updates.writes()[0].1 matches Some(b) && g.data.buildings.spec_get(name) == Some(*b.definition)
            &&& u.world.item_updates.writes().len() == 0
            &&& u.world.floor_updates.writes().len() == 0
            &&& u.world.paradox_drains@.len() == 0
            &&& u.eventqueue.this_turn@.len() == 0
            &&& u.eventqueue.next_turn@.len() == 0
            &&& u.score.score == 0
        },
        Err(e) => construct_error(g, idx, location) == Some(e),
    }
}

/// Turns the item of slot `idx` into the building of the same name on the
/// actor's cell.
pub fn execute_construct(idx: usize, location: Coordinate, orientation: AbsoluteDirection, game: &Game) -> (r: Result<GameUpdate>)
    requires
        game.world.wf(),
        actor_at(*game, location) matches Ok(Some(_)) && building_at(*game, location) == Ok::<Option<Building>, Status>(None)
            ==> idx != 5,
    ensures
        construct_result(*game, idx, location, orientation, r),
{
    let mut update: GameUpdate = GameUpdate::new();
    let actor_cell = *update.world.actor_updates.get(&game.world.actors, &location)?;
    let floor_cell = *update.world.building_updates.get(&game.world.buildings, &location)?;
    match (actor_cell, floor_cell) {
        (None, _) => Err(Status::Error("actor Missing")),
        (Some(_), Some(_)) => Err(Status::ActionFail("destination full")),
        (Some(actor), None) => {
            let mut actor = actor;
            actor.facing = orientation;
            let item = match actor.inventory.remove_idx(idx) {
                Some(i) => i,
                None => {
                    return Err(Status::ActionFail("No item in slot"));
                },
            };
            let building_def = match game.data.buildings.get(item.definition.name.as_str()) {
                Some(d) => d,
                None => {
                    return Err(Status::Error("called execute_construct on a non-building item"));
                },
            };
            update.world.actor_updates.set(&location, &Some(actor))?;
            update.world.building_updates.set(&location, &Some(Building { definition: building_def }))?;
            Ok(update)
        },
    }
}

/// Using the item of slot `idx` cannot fail midway.
pub open spec fn use_item_safe(g: Game, idx: usize, location: Coordinate, orientation: AbsoluteDirection) -> bool {
    actor_at(g, location) matches Ok(Some(a)) ==> {
        &&& idx < 5
        &&& (a.inventory.slots()[idx as int] matches Some(it) && it.definition.on_use_fn == Some(
            ItemUseFn::UseCloner,
        ) ==> cloner_safe(g, idx, location, orientation))
    }
}

/// Using an item runs the function its definition binds.
pub open spec fn use_item_result(g: Game, idx: usize, location: Coordinate, orientation: AbsoluteDirection, r: Result<GameUpdate>) -> bool {
    match actor_at(g, location) {
        Err(e) => r == Err::<GameUpdate, Status>(e),
        Ok(None) => r == Err::<GameUpdate, Status>(Status::Error("Actor missing")),
        Ok(Some(a)) => match a.inventory.slots()[idx as int] {
            None => r == Err::<GameUpdate, Status>(Status::ActionFail("no item")),
            Some(it) => match it.definition.on_use_fn {
                None => r == Err::<GameUpdate, Status>(Status::ActionFail("Not a usable item")),
                Some(ItemUseFn::UseCloner) => use_cloner_result(g, idx, location, orientation, r),
                Some(ItemUseFn::Construct) => construct_result(g, idx, location, orientation, r),
            },
        },
    }
}

/// Uses the item of slot `idx` of the actor at `location`.
pub fn execute_use_item(idx: usize, location: Coordinate, orientation: AbsoluteDirection, game: &Game) -> (r: Result<GameUpdate>)
    requires
        game.world.wf(),
        use_item_safe(*game, idx, location, orientation),
    ensures
        use_item_result(*game, idx, location, orientation, r),
{
    let cell = game.world.actors.get(&location)?;
    let actor = match cell {
        Some(a) => a,
        None => {
            return Err(Status::Error("Actor missing"));
        },
    };
    let item = match actor.inventory.get_items()[idx] {
        Some(it) => it,
        None => {
            return Err(Status::ActionFail("no item"));
        },
    };
    let definition = item.definition;
    let function = match definition.on_use_fn {
        Some(f) => f,
        None => {
            return Err(Status::ActionFail("Not a usable item"));
        },
    };
    match function {
        ItemUseFn::UseCloner => execute_use_cloner(idx, location, orientation, game),
        ItemUseFn::Construct => execute_construct(idx, location, orientation, game),
    }
}

/// The slots after taking, for each ingredient from the `i`th on, its count
/// of single units of the ingredient's kind; or the first error.
pub open spec fn craft_ingredients(
    data: Data,
    s: Seq<Option<Item>>,
    ingredients: Seq<String>,
    counts: Seq<i64>,
    i: int,
) -> Result<Seq<Option<Item>>>
    decreases ingredients.len() - i,
{
    if i < 0 || i >= ingredients.len() {
        Ok(s)
    } else {
        match data.items.spec_get(ingredients[i]@) {
            None => Err(Status::Error("ingredient undefined")),
            Some(d) => match remove_n(s, d.name@, (counts[i] as u16) as nat) {
                Err(e) => Err(e),
                Ok(s2) => craft_ingredients(data, s2, ingredients, counts, i + 1),
            },
        }
    }
}

/// Crafting takes the ingredients from the actor's inventory and puts the
/// product in its first empty slot.
pub open spec fn craft_result(g: Game, recipe: RecipeDefiniton, location: Coordinate, orientation: AbsoluteDirection, r: Result<GameUpdate>) -> bool {
    match actor_at(g, location) {
        Err(e) => r == Err::<GameUpdate, Status>(e),
        Ok(cell) => match g.data.items.spec_get(recipe.product@) {
            None => r == Err::<GameUpdate, Status>(Status::Error("product undefined")),
            Some(pd) => match cell {
                None => r == Err::<GameUpdate, Status>(Status::Error("Actor Missing")),
                Some(a) => match craft_ingredients(*g.data, a.inventory.slots(), recipe.ingredients@, recipe.ingredient_counts@, 0) {
                    Err(e) => r == Err::<GameUpdate, Status>(e),
                    Ok(s2) => if !(exists|i: int| is_first_empty(s2, i)) {
                        r == Err::<GameUpdate, Status>(Status::ActionFail("no space in inventory"))
                    } else {
                        r matches Ok(u) && exists|p: Item| {
                            &&& *p.definition == pd
                            &&& p.quantity == recipe.product_count as u16
                            &&& p.recording is None
                            &&& spec_insert(s2, p) is Some
                            &&& writes_turned_actor(u, location, a, orientation, spec_insert(s2, p)->Some_0)
                            &&& u.world.item_updates.writes().len() == 0
                            &&& quiet_except_actors_items(u)
                        }
                    },
                },
            },
        },
    }
}

/// Crafts `recipe` from the inventory of the actor at `location`.
#[verifier::loop_isolation(false)]
pub fn execute_craft(recipe: &RecipeDefiniton, location: Coordinate, orientation: AbsoluteDirection, game: &Game) -> (r: Result<GameUpdate>)
    requires
        game.world.wf(),
        recipe.ingredient_counts@.len() >= recipe.ingredients@.len(),
    ensures
        craft_result(*game, *recipe, location, orientation, r),
{
    let mut update: GameUpdate = GameUpdate::new();
    let actor_cell = *update.world.actor_updates.get(&game.world.actors, &location)?;
    let product_definiton = match game.data.items.get(recipe.product.as_str()) {
        Some(d) => d,
        None => {
            return Err(Status::Error("product undefined"));
        },
    };
    let product: Item = Item::new(product_definiton, recipe.product_count as u16);
    match actor_cell {
        Some(actor) => {
            let ghost a0 = actor;
            let mut actor = actor;
            actor.facing = orientation;
            let ghost data = *game.data;
            let ghost ings = recipe.ingredients@;
            let ghost cnts = recipe.ingredient_counts@;
            let ghost target = craft_ingredients(data, a0.inventory.slots(), ings, cnts, 0);
            let mut idx: usize = 0;
            while idx < recipe.ingredients.len()
                invariant
                    idx <= ings.len(),
                    turned_with(actor, a0, orientation, actor.inventory.slots()),
                    target == craft_ingredients(data, actor.inventory.slots(), ings, cnts, idx as int),
                decreases ings.len() - idx,
            {
                let ingredient_definiton = match game.data.items.get(recipe.ingredients[idx].as_str()) {
                    Some(d) => d,
                    None => {
                        return Err(Status::Error("ingredient undefined"));
                    },
                };
                let ingedient: Item = Item::new(ingredient_definiton, 1);
                let n: u16 = recipe.ingredient_counts[idx] as u16;
                let ghost name = ingredient_definiton.name@;
                let ghost before = actor.inventory.slots();
                let mut k: u16 = 0;
                while k < n
                    invariant
                        k <= n,
                        turned_with(actor, a0, orientation, actor.inventory.slots()),
                        remove_n(before, name, n as nat) == remove_n(actor.inventory.slots(), name, (n - k) as nat),
                    decreases n - k,
                {
                    actor.inventory.remove(ingedient)?;
                    k = k + 1;
                }
                idx = idx + 1;
            }
            actor.inventory.insert(product)?;
            update.world.actor_updates.set(&location, &Some(actor))?;
            proof {
                assert(update.world.actor_updates.index.writes() =~= seq![(a0.actor_id.0, location)]);
            }
            Ok(update)
        },
        None => Err(Status::Error("Actor Missing")),
    }
}

/// A cell of a grid that fits in `i32` has neighbours that fit too.
pub proof fn lemma_in_bounds_offset_fits(dims: Coordinate, location: Coordinate, orientation: AbsoluteDirection)
    requires
        crate::engine::worldlayer::in_bounds_of(dims, location),
        dims.x * dims.y <= i32::MAX,
    ensures
        Coordinate::offset_fits(forward(), location, orientation),
{
    assert(dims.x <= dims.x * dims.y && dims.y <= dims.x * dims.y) by (nonlinear_arith)
        requires
            dims.x >= 1,
            dims.y >= 1,
    ;
}

/// Performing `action` as `actor` cannot fail midway (an inventory slot
/// past the last, a missing `clone` definition, a cloner whose recording is
/// unknown, a recipe with fewer counts than ingredients).
pub open spec fn action_safe(g: Game, actor: TrackableId, action: Action) -> bool {
    let locs = g.world.actors.index.locations();
    locs.contains_key(actor.0) ==> (actor_at(g, locs[actor.0]) matches Ok(Some(a)) ==> {
        let location = locs[actor.0];
        let orientation = a.facing.spec_rotate(action.direction);
        match action.action {
            SubAction::Use(i) => use_item_safe(g, i, location, orientation),
            SubAction::Drop(i) => drop_safe(g, i, location),
            SubAction::Craft(recipe) => recipe.ingredient_counts@.len() >= recipe.ingredients@.len(),
            _ => true,
        }
    })
}

/// What performing `action` as `actor` gives: the actor acts from the cell
/// the index has for it, turned by the action's direction.
pub open spec fn action_result(g: Game, actor: TrackableId, action: Action, r: Result<GameUpdate>) -> bool {
    let locs = g.world.actors.index.locations();
    if !locs.contains_key(actor.0) {
        r == Err::<GameUpdate, Status>(Status::OutOfBounds)
    } else {
        let location = locs[actor.0];
        match actor_at(g, location) {
            Err(e) => r == Err::<GameUpdate, Status>(e),
            Ok(None) => r == Err::<GameUpdate, Status>(Status::Error("No actor at expected coordinates")),
            Ok(Some(a)) => {
                let orientation = a.facing.spec_rotate(action.direction);
                match action.action {
                    SubAction::Move => move_result(g, location, orientation, r),
                    SubAction::Take => take_result(g, location, orientation, r),
                    SubAction::Use(idx) => use_item_result(g, idx, location, orientation, r),
                    SubAction::Drop(idx) => drop_result(g, idx, location, orientation, r),
                    SubAction::Craft(recipe) => craft_result(g, *recipe, location, orientation, r),
                    SubAction::ActivateBuilding => crate::buildings::use_building_result(g, location, r),
                    SubAction::Wait => r matches Ok(u) && u.consists_of(
                        Seq::empty(),
                        Seq::empty(),
                        Seq::empty(),
                        Seq::empty(),
                        Seq::empty(),
                        Seq::empty(),
                        Seq::empty(),
                        0,
                    ),
                }
            },
        }
    }
}

/// Works out the update that `action`, performed by `actor`, makes to the
/// game; the game itself is not changed.
pub fn execute_action(actor: TrackableId, action: Action, game: &Game) -> (r: Result<GameUpdate>)
    requires
        game.world.wf(),
        action_safe(*game, actor, action),
    ensures
        action_result(*game, actor, action, r),
{
    let location = *game.world.actors.get_location(&actor)?;
    let maybe_actor = game.world.actors.get(&location)?;
    let actor = match maybe_actor {
        Some(a) => a,
        None => {
            return Err(Status::Error("No actor at expected coordinates"));
        },
    };
    let orientation = actor.facing.rotate(&action.direction);
    proof {
        lemma_in_bounds_offset_fits(game.world.dims(), location, orientation);
    }
    match action.action {
        SubAction::Move => execute_move(location, orientation, game),
        SubAction::Take => execute_take(location, orientation, game),
        SubAction::Use(idx) => execute_use_item(idx, location, orientation, game),
        SubAction::Drop(idx) => execute_drop(idx, location, orientation, game),
        SubAction::Craft(recipe) => execute_craft(recipe, location, orientation, game),
        SubAction::ActivateBuilding => crate::buildings::execute_use_building(location, game),
        SubAction::Wait => Ok(GameUpdate::new()),
    }
}

/// Whether the cell ahead of `location` can be computed without overflow.
pub fn offset_fits_check(location: Coordinate, orientation: AbsoluteDirection) -> (r: bool)
    ensures
        r == Coordinate::offset_fits(forward(), location, orientation),
{
    let (dx, dy): (i64, i64) = match orientation {
        AbsoluteDirection::N => (0, 1),
        AbsoluteDirection::E => (1, 0),
        AbsoluteDirection::S => (0, -1),
        AbsoluteDirection::W => (-1, 0),
    };
    let x: i64 = location.x as i64 + dx;
    let y: i64 = location.y as i64 + dy;
    i32::MIN as i64 <= x && x <= i32::MAX as i64 && i32::MIN as i64 <= y && y <= i32::MAX as i64
}

/// Whether using the item of slot `idx` cannot fail midway.
pub fn use_item_is_safe(game: &Game, idx: usize, location: Coordinate, orientation: AbsoluteDirection) -> (r: bool)
    ensures
        r == use_item_safe(*game, idx, location, orientation),
{
    let actor = match game.world.actors.get(&location) {
        Ok(Some(a)) => a,
        _ => {
            return true;
        },
    };
    if idx >= 5 {
        return false;
    }
    let it = match actor.inventory.get_items()[idx] {
        Some(it) => it,
        None => {
            return true;
        },
    };
    match it.definition.on_use_fn {
        Some(ItemUseFn::UseCloner) => {},
        _ => {
            return true;
        },
    }
    if !offset_fits_check(location, orientation) {
        return false;
    }
    let dst = Coordinate::as_offset(Coordinate { x: 0, y: 1 }, location, orientation);
    match game.world.actors.get(&dst) {
        Ok(None) => {},
        _ => {
            return true;
        },
    }
    let id = match it.recording {
        Some(id) => id,
        None => {
            return true;
        },
    };
    proof {
        reveal_strlit("clone");
    }
    game.world.actors.index.next_id_fits() && game.data.actors.contains_key("clone")
        && id.idx < game.recordings.recordings.len()
}

/// Whether dropping from slot `idx` at `location` cannot fail midway.
pub fn drop_is_safe(game: &Game, idx: usize, location: Coordinate) -> (r: bool)
    ensures
        r == drop_safe(*game, idx, location),
{
    match game.world.actors.get(&location) {
        Ok(Some(_)) => {},
        _ => {
            return true;
        },
    }
    match game.world.items.get(&location) {
        Ok(f) => f[0].is_some() || idx != 5,
        Err(_) => true,
    }
}

/// Whether performing `action` as `actor` cannot fail midway.
pub fn action_is_safe(game: &Game, actor: TrackableId, action: &Action) -> (r: bool)
    ensures
        r == action_safe(*game, actor, *action),
{
    let location = match game.world.actors.get_location(&actor) {
        Ok(l) => *l,
        Err(_) => {
            return true;
        },
    };
    let a = match game.world.actors.get(&location) {
        Ok(Some(a)) => a,
        _ => {
            return true;
        },
    };
    let orientation = a.facing.rotate(&action.direction);
    match action.action {
        SubAction::Use(i) => use_item_is_safe(game, i, location, orientation),
        SubAction::Drop(i) => drop_is_safe(game, i, location),
        SubAction::Craft(recipe) => recipe.ingredient_counts.len() >= recipe.ingredients.len(),
        _ => true,
    }
}

/// A seq of slots with an empty slot has a first empty slot.
proof fn lemma_first_empty_exists(s: Seq<Option<Item>>, k: int)
    requires
        0 <= k < s.len(),
        s[k] is None,
    ensures
        exists|i: int| is_first_empty(s, i),
    decreases k,
{
    if forall|j: int| 0 <= j < k ==> #[trigger] s[j] is Some {
        assert(is_first_empty(s, k));
    } else {
        let j = choose|j: int| 0 <= j < k && !(#[trigger] s[j] is Some);
        lemma_first_empty_exists(s, j);
    }
}

/// An item dropped from slot `idx` can be taken back from the cell: the
/// take succeeds, the cell's floor is empty again, and when every slot
/// before `idx` is full the item goes back to slot `idx`, so the actor's
/// slots are as they were before the drop.
pub proof fn lemma_drop_then_take(
    g: Game,
    idx: usize,
    loc: Coordinate,
    o1: AbsoluteDirection,
    u1: GameUpdate,
    g1: Game,
    o2: AbsoluteDirection,
    u2: GameUpdate,
    g2: Game,
)
    requires
        g.world.wf(),
        idx < 5,
        drop_result(g, idx, loc, o1, Ok::<GameUpdate, Status>(u1)),
        u1.applied(g, g1),
    ensures
        take_error(g1, loc) is None,
        take_result(g1, loc, o2, Ok::<GameUpdate, Status>(u2)) && u2.applied(g1, g2) ==> {
            &&& items_at(g2, loc) matches Ok(f) && f@ == seq![None::<Item>]
            &&& items_at(g, loc) matches Ok(f) && f@ == seq![None::<Item>]
            &&& (forall|j: int| 0 <= j < idx ==> #[trigger] actor_at(g, loc)->Ok_0->Some_0.inventory.slots()[j] is Some)
                ==> (actor_at(g2, loc) matches Ok(Some(b)) && b.inventory.slots() == actor_at(
                g,
                loc,
            )->Ok_0->Some_0.inventory.slots())
        },
{
    broadcast use crate::inventory::lemma_slots_len;
    let a = actor_at(g, loc)->Ok_0->Some_0;
    let dims = g.world.dims();
    let s = a.inventory.slots();
    let it = s[idx as int]->Some_0;
    let s1 = s.update(idx as int, None);
    assert(in_bounds_of(dims, loc));
    let lw1 = u1.world.actor_updates.layer.writes();
    let iw1 = u1.world.item_updates.writes();
    crate::engine::worldlayer::lemma_apply_writes_cell(g.world.actors.layer.cells(), dims, lw1, loc);
    crate::engine::worldlayer::lemma_apply_writes_cell(g.world.items.cells(), dims, iw1, loc);
    assert(lw1.drop_last().len() == 0 && iw1.drop_last().len() == 0);
    let b = g1.world.actors.layer.cells()[index_of(dims, loc)]->Some_0;
    assert(actor_at(g1, loc) == Ok::<Option<Actor>, Status>(Some(b)));
    assert(b.inventory.slots() == s1);
    assert(items_at(g1, loc)->Ok_0@ == seq![Some(it)]);
    assert(s1[idx as int] is None);
    lemma_first_empty_exists(s1, idx as int);
    if take_result(g1, loc, o2, Ok::<GameUpdate, Status>(u2)) && u2.applied(g1, g2) {
        let lw2 = u2.world.actor_updates.layer.writes();
        let iw2 = u2.world.item_updates.writes();
        crate::engine::worldlayer::lemma_apply_writes_cell(g1.world.actors.layer.cells(), dims, lw2, loc);
        crate::engine::worldlayer::lemma_apply_writes_cell(g1.world.items.cells(), dims, iw2, loc);
        assert(lw2.drop_last().len() == 0 && iw2.drop_last().len() == 0);
        if forall|j: int| 0 <= j < idx ==> #[trigger] s[j] is Some {
            assert forall|j: int| 0 <= j < idx implies #[trigger] s1[j] is Some by {
                assert(s[j] is Some);
            }
            assert(is_first_empty(s1, idx as int));
            let i = choose|i: int| is_first_empty(s1, i);
            crate::inventory::lemma_first_empty_unique(s1, i, idx as int);
            assert(s1.update(idx as int, Some(it)) =~= s);
        }
    }
}

/// The cell `c` of the world after an update is the last value the update
/// wrote to it.
proof fn lemma_actor_written(g: Game, u: GameUpdate, after: Game, c: Coordinate, v: Option<Actor>)
    requires
        g.world.wf(),
        u.world.applied(g.world, after.world),
        crate::engine::worldlayer::all_in_bounds(g.world.actors.layer.dims(), u.world.actor_updates.layer.writes()),
        in_bounds_of(g.world.actors.layer.dims(), c),
        crate::engine::worldlayer::last_write(u.world.actor_updates.layer.writes(), c) == Some(v),
    ensures
        actor_at(after, c) == Ok::<Option<Actor>, Status>(v),
{
    crate::engine::worldlayer::lemma_apply_writes_cell(
        g.world.actors.layer.cells(),
        g.world.actors.layer.dims(),
        u.world.actor_updates.layer.writes(),
        c,
    );
}

/// A move onto a cell of the world that no actor holds fails exactly when
/// that cell is water, and then as impassable; any other floor lets the
/// actor through.
pub proof fn lemma_move_blocked_only_by_water(
    g: Game,
    location: Coordinate,
    orientation: AbsoluteDirection,
    r: Result<GameUpdate>,
)
    requires
        move_result(g, location, orientation, r),
        actor_at(g, location) is Ok,
        actor_at(g, location)->Ok_0 is Some,
        actor_at(g, ahead(location, orientation)) == Ok::<Option<Actor>, Status>(None),
    ensures
        r is Ok <==> floor_at(g, ahead(location, orientation)) != Ok::<FloorTile, Status>(FloorTile::Water),
        r is Err ==> r == Err::<GameUpdate, Status>(Status::ActionFail("Destination impassable")),
{
}

/// After a successful move is applied, the actor stands on the cell ahead,
/// facing the way it moved, with what it held, and its old cell is empty.
pub proof fn lemma_move_applied(g: Game, location: Coordinate, orientation: AbsoluteDirection, u: GameUpdate, after: Game)
    requires
        g.world.wf(),
        move_result(g, location, orientation, Ok(u)),
        u.world.applied(g.world, after.world),
    ensures
        ({
            let a = actor_at(g, location)->Ok_0->Some_0;
            &&& actor_at(after, ahead(location, orientation)) matches Ok(Some(b)) && b.actor_id == a.actor_id
                && b.facing == orientation && b.inventory.slots() == a.inventory.slots()
            &&& actor_at(after, location) == Ok::<Option<Actor>, Status>(None)
        }),
{
    let dst = ahead(location, orientation);
    let w = u.world.actor_updates.layer.writes();
    let dims = g.world.actors.layer.dims();
    assert(in_bounds_of(dims, location));
    assert(in_bounds_of(dims, dst));
    assert(crate::engine::worldlayer::all_in_bounds(dims, w));
    assert(w.drop_last() =~= seq![w[0]]);
    assert(seq![w[0]].drop_last() =~= Seq::<(Coordinate, Option<Actor>)>::empty());
    lemma_actor_written(g, u, after, dst, w[1].1);
    assert(location != dst) by {
        match orientation {
            AbsoluteDirection::N => assert(dst.y == location.y + 1),
            AbsoluteDirection::E => assert(dst.x == location.x + 1),
            AbsoluteDirection::S => assert(dst.y == location.y - 1),
            AbsoluteDirection::W => assert(dst.x == location.x - 1),
        }
    }
    assert(crate::engine::worldlayer::last_write(w.drop_last(), location) == Some(None::<Actor>));
    lemma_actor_written(g, u, after, location, None);
}

/// A clone made by using a cloner stands on the cell ahead, carrying
/// exactly the inventory stored in the cloner's recording, with a new id.
pub proof fn lemma_clone_carries_recording_inventory(
    g: Game,
    idx: usize,
    location: Coordinate,
    orientation: AbsoluteDirection,
    u: GameUpdate,
    after: Game,
)
    requires
        g.world.wf(),
        use_cloner_result(g, idx, location, orientation, Ok(u)),
        u.world.applied(g.world, after.world),
    ensures
        ({
            let a = actor_at(g, location)->Ok_0->Some_0;
            let rec_id = a.inventory.slots()[idx as int]->Some_0.recording->Some_0;
            actor_at(after, ahead(location, orientation)) matches Ok(Some(c)) && c.inventory
                == g.recordings.recordings.recordings()[rec_id.idx as int].inventory && c.actor_id.0
                == g.world.actors.index.spec_next_id()
        }),
{
    let dst = ahead(location, orientation);
    let w = u.world.actor_updates.layer.writes();
    let dims = g.world.actors.layer.dims();
    assert(in_bounds_of(dims, location));
    assert(in_bounds_of(dims, dst));
    assert(crate::engine::worldlayer::all_in_bounds(dims, w));
    lemma_actor_written(g, u, after, dst, w[1].1);
}

/// A successful craft leaves the actor holding the recipe's product, as
/// many units of it as the recipe makes.
pub proof fn lemma_craft_makes_product_count(
    g: Game,
    recipe: RecipeDefiniton,
    location: Coordinate,
    orientation: AbsoluteDirection,
    u: GameUpdate,
    after: Game,
)
    requires
        g.world.wf(),
        craft_result(g, recipe, location, orientation, Ok(u)),
        u.world.applied(g.world, after.world),
    ensures
        actor_at(after, location) matches Ok(Some(b)) && exists|j: int|
            0 <= j < b.inventory.slots().len() && (#[trigger] b.inventory.slots()[j] matches Some(p) && p.quantity
                == recipe.product_count as u16 && g.data.items.spec_get(recipe.product@) == Some(*p.definition)),
{
    let w = u.world.actor_updates.layer.writes();
    let dims = g.world.actors.layer.dims();
    assert(in_bounds_of(dims, location));
    assert(crate::engine::worldlayer::all_in_bounds(dims, w));
    lemma_actor_written(g, u, after, location, w[0].1);
    let b = w[0].1->Some_0;
    let a = actor_at(g, location)->Ok_0->Some_0;
    let pd = g.data.items.spec_get(recipe.product@)->Some_0;
    let s2 = craft_ingredients(*g.data, a.inventory.slots(), recipe.ingredients@, recipe.ingredient_counts@, 0)->Ok_0;
    let p = choose|p: Item| {
        &&& *p.definition == pd
        &&& p.quantity == recipe.product_count as u16
        &&& p.recording is None
        &&& spec_insert(s2, p) is Some
        &&& writes_turned_actor(u, location, a, orientation, spec_insert(s2, p)->Some_0)
        &&& u.world.item_updates.writes().len() == 0
        &&& quiet_except_actors_items(u)
    };
    let j = choose|i: int| is_first_empty(s2, i);
    assert(b.inventory.slots()[j] == Some(p));
}

/// Taking an item when every slot of the actor is full fails for want of
/// space: the item is not taken from the floor.
pub proof fn lemma_take_into_full_inventory_fails(
    g: Game,
    location: Coordinate,
    orientation: AbsoluteDirection,
    r: Result<GameUpdate>,
)
    requires
        take_result(g, location, orientation, r),
        actor_at(g, location) is Ok,
        actor_at(g, location)->Ok_0 matches Some(a) && forall|j: int|
            0 <= j < a.inventory.slots().len() ==> #[trigger] a.inventory.slots()[j] is Some,
        items_at(g, location) matches Ok(f) && f[0] is Some,
    ensures
        r == Err::<GameUpdate, Status>(Status::ActionFail("no space in inventory")),
{
    let a = actor_at(g, location)->Ok_0->Some_0;
    assert(forall|i: int| !is_first_empty(a.inventory.slots(), i));
}

/// A successful take puts the floor item into a slot of the actor that was
/// empty, leaving its other slots as they were, and clears the floor: the
/// item moves, it is neither lost nor copied.
pub proof fn lemma_take_moves_item(
    g: Game,
    location: Coordinate,
    orientation: AbsoluteDirection,
    u: GameUpdate,
    after: Game,
)
    requires
        g.world.wf(),
        take_result(g, location, orientation, Ok(u)),
        u.world.applied(g.world, after.world),
    ensures
        ({
            let a = actor_at(g, location)->Ok_0->Some_0;
            let item = items_at(g, location)->Ok_0[0]->Some_0;
            &&& actor_at(after, location) matches Ok(Some(b)) && exists|j: int|
                0 <= j < a.inventory.slots().len() && #[trigger] a.inventory.slots()[j] is None
                    && b.inventory.slots() == a.inventory.slots().update(j, Some(item))
            &&& items_at(after, location) matches Ok(f) && f[0] is None
        }),
{
    let w = u.world.actor_updates.layer.writes();
    let iw = u.world.item_updates.writes();
    let dims = g.world.actors.layer.dims();
    let a = actor_at(g, location)->Ok_0->Some_0;
    let item = items_at(g, location)->Ok_0[0]->Some_0;
    assert(in_bounds_of(dims, location));
    assert(crate::engine::worldlayer::all_in_bounds(dims, w));
    lemma_actor_written(g, u, after, location, w[0].1);
    let j = choose|i: int| is_first_empty(a.inventory.slots(), i);
    assert(a.inventory.slots()[j] is None);
    assert(crate::engine::worldlayer::all_in_bounds(g.world.items.dims(), iw));
    crate::engine::worldlayer::lemma_apply_writes_cell(g.world.items.cells(), g.world.items.dims(), iw, location);
    assert(iw[0].1@ == seq![None::<Item>]);
    assert(iw[0].1[0] == iw[0].1@[0]);
}

} // verus!
