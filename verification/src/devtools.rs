//! Direct edits of the game for setting up scenes: granting and removing
//! items, removing actors, and a sample recording.
use vstd::prelude::*;
use crate::action::{Action, SubAction, actor_at, writes_turned_actor, quiet_except_actors_items};
use crate::datatypes::Coordinate;
use crate::direction::{Direction, RelativeDirection};
use crate::engine::tracking_worldlayer::TrackableId;
use crate::engine::update::{Delta, UpdatableContainer, UpdatableContainerDelta};
use crate::error::{Result, Status};
use crate::game_state::game::{Game, GameUpdate};
use crate::game_state::world::World;
use crate::game_state::turn::{actors_known, tame, world_ready, lemma_turned_tame, lemma_removed_ready};
use crate::engine::tracking_worldlayer::ids_dense;
use crate::inventory::{BasicInventory, Item, spec_insert, spec_remove};
use crate::recording::Recording;

verus! {

/// The moves of the sample recording: forward, then right four times.
pub open spec fn sample_commands() -> Seq<Action> {
    seq![
        Action { direction: Direction::Relative(RelativeDirection::F), action: SubAction::Move },
        Action { direction: Direction::Relative(RelativeDirection::R), action: SubAction::Move },
        Action { direction: Direction::Relative(RelativeDirection::R), action: SubAction::Move },
        Action { direction: Direction::Relative(RelativeDirection::R), action: SubAction::Move },
        Action { direction: Direction::Relative(RelativeDirection::R), action: SubAction::Move },
    ]
}

/// A looping recording of `sample_commands`, with an empty inventory.
pub fn make_sample_recording() -> (r: Recording)
    ensures
        r.command_list@ == sample_commands(),
        r.inventory.slots() == BasicInventory::new_slots(),
        r.should_loop,
{
    let mut command_list: Vec<Action> = Vec::new();
    command_list.push(Action { direction: Direction::Relative(RelativeDirection::F), action: SubAction::Move });
    command_list.push(Action { direction: Direction::Relative(RelativeDirection::R), action: SubAction::Move });
    command_list.push(Action { direction: Direction::Relative(RelativeDirection::R), action: SubAction::Move });
    command_list.push(Action { direction: Direction::Relative(RelativeDirection::R), action: SubAction::Move });
    command_list.push(Action { direction: Direction::Relative(RelativeDirection::R), action: SubAction::Move });
    let r = Recording { command_list, inventory: BasicInventory::new(), should_loop: true };
    assert(r.command_list@ =~= sample_commands());
    r
}

/// Granting puts the item in the first empty slot of the actor at
/// `location`, whose facing stays.
pub open spec fn grant_result(g: Game, item: Item, location: Coordinate, r: Result<GameUpdate>) -> bool {
    match actor_at(g, location) {
        Err(e) => r == Err::<GameUpdate, Status>(e),
        Ok(None) => r == Err::<GameUpdate, Status>(Status::Error("actor Missing")),
        Ok(Some(a)) => match spec_insert(a.inventory.slots(), item) {
            None => r == Err::<GameUpdate, Status>(Status::ActionFail("no space in inventory")),
            Some(s) => match r {
                Ok(u) => writes_turned_actor(u, location, a, a.facing, s) && u.world.item_updates.writes().len()
                    == 0 && quiet_except_actors_items(u),
                Err(_) => false,
            },
        },
    }
}

/// Gives `item` to the actor at `location`.
pub fn grant_item(item: Item, location: Coordinate, game: &Game) -> (r: Result<GameUpdate>)
    requires
        game.world.wf(),
    ensures
        grant_result(*game, item, location, r),
        actors_known(game.world) ==> (r matches Ok(u) ==> tame(u, *game)),
{
    let mut update: GameUpdate = GameUpdate::new();
    let actor = *update.world.actor_updates.get(&game.world.actors, &location)?;
    match actor {
        None => Err(Status::Error("actor Missing")),
        Some(actor) => {
            let ghost a0 = actor;
            let mut actor = actor;
            actor.inventory.insert(item)?;
            update.world.actor_updates.set(&location, &Some(actor))?;
            proof {
                assert(update.world.actor_updates.index.writes() =~= seq![(a0.actor_id.0, location)]);
                if actors_known(game.world) {
                    assert(writes_turned_actor(update, location, a0, a0.facing, actor.inventory.slots()));
                    lemma_turned_tame(*game, update, location);
                }
            }
            Ok(update)
        },
    }
}

/// Removing takes `item.quantity` units of its kind from the actor at
/// `location`.
pub open spec fn remove_item_result(g: Game, item: Item, location: Coordinate, r: Result<GameUpdate>) -> bool {
    match actor_at(g, location) {
        Err(e) => r == Err::<GameUpdate, Status>(e),
        Ok(None) => r == Err::<GameUpdate, Status>(Status::Error("actor Missing")),
        Ok(Some(a)) => match spec_remove(a.inventory.slots(), item) {
            Err(e) => r == Err::<GameUpdate, Status>(e),
            Ok(s) => match r {
                Ok(u) => writes_turned_actor(u, location, a, a.facing, s) && u.world.item_updates.writes().len()
                    == 0 && quiet_except_actors_items(u),
                Err(_) => false,
            },
        },
    }
}

/// Takes items of `item`'s kind from the actor at `location`.
pub fn remove_item(item: Item, location: Coordinate, game: &Game) -> (r: Result<GameUpdate>)
    requires
        game.world.wf(),
    ensures
        remove_item_result(*game, item, location, r),
        actors_known(game.world) ==> (r matches Ok(u) ==> tame(u, *game)),
{
    let mut update: GameUpdate = GameUpdate::new();
    let actor = *update.world.actor_updates.get(&game.world.actors, &location)?;
    match actor {
        None => Err(Status::Error("actor Missing")),
        Some(actor) => {
            let ghost a0 = actor;
            let mut actor = actor;
            actor.inventory.remove(item)?;
            update.world.actor_updates.set(&location, &Some(actor))?;
            proof {
                assert(update.world.actor_updates.index.writes() =~= seq![(a0.actor_id.0, location)]);
                if actors_known(game.world) {
                    assert(writes_turned_actor(update, location, a0, a0.facing, actor.inventory.slots()));
                    lemma_turned_tame(*game, update, location);
                }
            }
            Ok(update)
        },
    }
}

/// Why removing the actor `actorid` from `w` fails, if it does.
pub open spec fn despawn_error(w: World, actorid: TrackableId) -> Option<Status> {
    let locs = w.actors.index.locations();
    if !locs.contains_key(actorid.0) {
        Some(Status::OutOfBounds)
    } else {
        match w.actors.layer.spec_get(locs[actorid.0]) {
            Err(e) => Some(e),
            Ok(None) => Some(Status::Error("actor missing")),
            Ok(Some(_)) => None,
        }
    }
}

/// `after` is `mid` with the actor `actorid` removed: the cell the index
/// has for it is emptied, its id leaves the index and is recycled, and the
/// other layers stay.
pub open spec fn removed_from(mid: World, actorid: TrackableId, after: World) -> bool {
    let locs = mid.actors.index.locations();
    let location = locs[actorid.0];
    &&& locs.contains_key(actorid.0)
    &&& crate::engine::worldlayer::in_bounds_of(mid.actors.layer.dims(), location)
    &&& after.dims() == mid.dims()
    &&& after.actors.layer.dims() == mid.actors.layer.dims()
    &&& after.actors.layer.cells() == mid.actors.layer.cells().update(
        crate::engine::worldlayer::index_of(mid.actors.layer.dims(), location),
        None,
    )
    &&& after.actors.index.locations() == locs.remove(actorid.0)
    &&& after.actors.index.recycled() == mid.actors.index.recycled().insert(actorid.0)
    &&& after.buildings.dims() == mid.buildings.dims()
    &&& after.buildings.cells() == mid.buildings.cells()
    &&& after.items.dims() == mid.items.dims()
    &&& after.items.cells() == mid.items.cells()
    &&& after.floor.dims() == mid.floor.dims()
    &&& after.floor.cells() == mid.floor.cells()
}

/// Despawning empties the cell the index has for the actor and removes the
/// actor from the index; the update then applies to the game.
pub open spec fn despawn_result(g: Game, actorid: TrackableId, r: Result<GameUpdate>) -> bool {
    match r {
        Ok(u) => {
            &&& despawn_error(g.world, actorid) is None
            &&& u.consists_of(
                seq![(g.world.actors.index.locations()[actorid.0], None::<crate::actor::Actor>)],
                Seq::empty(),
                Seq::empty().push(actorid.0),
                Seq::empty(),
                Seq::empty(),
                Seq::empty(),
                Seq::empty(),
                0,
            )
            &&& u.applies_to(g)
        },
        Err(e) => despawn_error(g.world, actorid) == Some(e),
    }
}

/// Applying a despawn update removes the actor from the world, and a ready
/// world stays ready.
pub proof fn lemma_despawn_ready(g: Game, actorid: TrackableId, u: GameUpdate, w2: World)
    requires
        g.world.wf(),
        despawn_result(g, actorid, Ok(u)),
        u.world.applied(g.world, w2),
    ensures
        removed_from(g.world, actorid, w2),
        world_ready(g.world) ==> ids_dense(w2.actors.index) && actors_known(w2),
{
    let m = g.world.actors.index.locations();
    let s = g.world.actors.index.recycled();
    let rm = u.world.actor_updates.index.removals();
    assert(rm.drop_first() =~= Seq::<usize>::empty());
    assert(crate::engine::tracking_worldlayer::index_after_writes(m, s, Seq::empty()) == (m, s));
    assert(crate::engine::tracking_worldlayer::index_after_removals(
        m.remove(actorid.0),
        s.insert(actorid.0),
        Seq::<usize>::empty(),
    ) == (m.remove(actorid.0), s.insert(actorid.0), true));
    let w = u.world.actor_updates.layer.writes();
    assert(w.drop_first() =~= Seq::<(Coordinate, Option<crate::actor::Actor>)>::empty());
    let c = g.world.actors.layer.cells();
    let dims = g.world.actors.layer.dims();
    let at = crate::engine::worldlayer::index_of(dims, m[actorid.0]);
    assert(w[0] == (m[actorid.0], None::<crate::actor::Actor>));
    assert(crate::engine::worldlayer::in_bounds_of(dims, m[actorid.0]));
    assert(crate::engine::worldlayer::apply_writes(c.update(at, None), dims, w.drop_first()) == c.update(at, None));
    assert(crate::engine::worldlayer::apply_writes(c, dims, w) == c.update(at, None));
    if world_ready(g.world) {
        lemma_removed_ready(g.world, actorid, w2);
    }
}

/// Removes an actor from the world.
pub fn despawn_actor(actorid: TrackableId, game: &Game) -> (r: Result<GameUpdate>)
    requires
        game.world.wf(),
    ensures
        despawn_result(*game, actorid, r),
{
    let mut update: GameUpdate = GameUpdate::new();
    let location = *game.world.actors.get_location(&actorid)?;
    let actor = update.world.actor_updates.get(&game.world.actors, &location)?;
    if actor.is_none() {
        return Err(Status::Error("actor missing"));
    }
    update.world.actor_updates.set(&location, &None)?;
    update.world.actor_updates.remove(actorid);
    proof {
        assert(update.world.actor_updates.layer.writes() =~= seq![(location, None)]);
        assert(update.world.actor_updates.index.removals() =~= Seq::empty().push(actorid.0));
        let m = game.world.actors.index.locations();
        let s = game.world.actors.index.recycled();
        assert(crate::engine::tracking_worldlayer::index_after_writes(m, s, Seq::empty()) == (m, s));
        let rm = Seq::<usize>::empty().push(actorid.0);
        assert(rm.drop_first() =~= Seq::<usize>::empty());
        assert(rm[0] == actorid.0);
        assert(crate::engine::tracking_worldlayer::index_after_removals(m.remove(actorid.0), s.insert(actorid.0), Seq::<usize>::empty()).2);
        assert(crate::engine::tracking_worldlayer::index_after_removals(m, s, rm).2);
        assert(crate::engine::worldlayer::all_in_bounds(
            game.world.actors.layer.dims(),
            update.world.actor_updates.layer.writes(),
        ));
    }
    Ok(update)
}

} // verus!
