//! Buildings and what using them does.
use vstd::prelude::*;
use crate::action::{building_at, items_at};
use crate::datatypes::Coordinate;
use crate::engine::update::{Delta, UpdatableContainer, UpdatableContainerDelta};
use crate::error::{Result, Status};
use crate::game_state::game::{Game, GameUpdate};
use crate::game_state::world::FloorInventory;
use crate::inventory::Item;
use crate::static_data::ObjectDescriptor;

verus! {

broadcast use vstd::array::group_array_axioms;

/// A building standing on a cell.
#[derive(PartialEq, Debug, Clone, Copy)]
pub struct Building {
    pub definition: &'static ObjectDescriptor,
}

/// What happens when a building is used.
#[derive(Clone, Copy, Debug, PartialEq, Eq, Structural)]
pub enum BuildingUseFn {
    /// An ore deposit puts out a raw crystal.
    Mine,
    /// A digitizer turns the item on it into score.
    Digitize,
}

/// The building use bound to a name in the data files.
pub open spec fn spec_building_use_fn(name: Seq<char>) -> Option<BuildingUseFn> {
    if name == "building_mine"@ {
        Some(BuildingUseFn::Mine)
    } else if name == "building_digitize"@ {
        Some(BuildingUseFn::Digitize)
    } else {
        None
    }
}

/// The names under which building uses are bound.
pub fn get_building_fn_table() -> (r: Vec<(String, BuildingUseFn)>)
    ensures
        r@.len() == 2,
        forall|name: Seq<char>|
            crate::static_data::map::entry_lookup(r@, name) == spec_building_use_fn(name),
{
    let mut map: Vec<(String, BuildingUseFn)> = Vec::new();
    let a = "building_mine".to_owned();
    let b = "building_digitize".to_owned();
    proof {
        reveal_strlit("building_mine");
        reveal_strlit("building_digitize");
    }
    map.push((a, BuildingUseFn::Mine));
    map.push((b, BuildingUseFn::Digitize));
    proof {
        assert(map@.drop_last().drop_last() =~= Seq::<(String, BuildingUseFn)>::empty());
        assert(map@.drop_last()[0] == map@[0]);
        assert(a@ != b@) by {
            assert(a@[9] != b@[9]);
        }
        assert forall|name: Seq<char>|
            crate::static_data::map::entry_lookup(map@, name) == spec_building_use_fn(name) by {
            reveal_with_fuel(crate::static_data::map::entry_lookup, 3);
        }
    }
    map
}


/// `u` changes nothing but the floor items, with the given writes.
pub open spec fn only_items(u: GameUpdate) -> bool {
    &&& u.world.actor_updates.layer.writes().len() == 0
    &&& u.world.actor_updates.index.writes().len() == 0
    &&& u.world.actor_updates.index.removals().len() == 0
    &&& u.world.building_updates.writes().len() == 0
    &&& u.world.floor_updates.writes().len() == 0
    &&& u.eventqueue.this_turn@.len() == 0
    &&& u.eventqueue.next_turn@.len() == 0
}

/// Why mining at `location` fails, if it does.
pub open spec fn ore_error(g: Game, location: Coordinate) -> Option<Status> {
    match (building_at(g, location), items_at(g, location)) {
        (Err(e), _) => Some(e),
        (_, Err(e)) => Some(e),
        (_, Ok(f)) => if f[0] is Some {
            Some(Status::ActionFail("destination occupied"))
        } else if !g.data.items.spec_contains("raw_crystal"@) {
            Some(Status::Error("item definition not found"))
        } else {
            None
        },
    }
}

/// An ore deposit puts one raw crystal on its (empty) cell.
pub open spec fn ore_result(g: Game, location: Coordinate, r: Result<GameUpdate>) -> bool {
    match r {
        Ok(u) => {
            &&& ore_error(g, location) is None
            &&& only_items(u)
            &&& u.world.item_updates.writes().len() == 1
            &&& u.world.item_updates.writes()[0].0 == location
            &&& u.world.item_updates.writes()[0].1[0] matches Some(ore) && ore.quantity == 1 && ore.recording is None
                && g.data.items.spec_get("raw_crystal"@) == Some(*ore.definition)
            &&& u.world.paradox_drains@.len() == 0
            &&& u.score.score == 0
        },
        Err(e) => ore_error(g, location) == Some(e),
    }
}

/// Mines one raw crystal onto the deposit's cell.
pub fn use_ore_deposit(location: Coordinate, game: &Game) -> (r: Result<GameUpdate>)
    requires
        game.world.wf(),
    ensures
        ore_result(*game, location, r),
{
    let mut update = GameUpdate::new();
    let _building = update.world.building_updates.get(&game.world.buildings, &location)?;
    let floor = *update.world.item_updates.get(&game.world.items, &location)?;
    match floor[0] {
        Some(_) => Err(Status::ActionFail("destination occupied")),
        None => {
            let oredef = match game.data.items.get("raw_crystal") {
                Some(d) => d,
                None => {
                    return Err(Status::Error("item definition not found"));
                },
            };
            let ore = Item::new(oredef, 1);
            let placed: FloorInventory = [Some(ore)];
            update.world.item_updates.set(&location, &placed)?;
            Ok(update)
        },
    }
}

/// Why digitizing at `location` fails, if it does.
pub open spec fn digitize_error(g: Game, location: Coordinate) -> Option<Status> {
    match items_at(g, location) {
        Err(e) => Some(e),
        Ok(f) => if f[0] is None {
            Some(Status::ActionFail("no item to digitize"))
        } else {
            None
        },
    }
}

/// The score an item is worth: its definition's value, or 0.
pub open spec fn item_value(item: Item) -> i64 {
    match item.definition.score_value {
        Some(v) => v,
        None => 0,
    }
}

/// A digitizer removes the item on its cell, adds the item's value to the
/// score and drains that much paradox from the cell.
pub open spec fn digitize_result(g: Game, location: Coordinate, r: Result<GameUpdate>) -> bool {
    match r {
        Ok(u) => {
            let item = items_at(g, location)->Ok_0[0]->Some_0;
            &&& digitize_error(g, location) is None
            &&& only_items(u)
            &&& u.world.item_updates.writes().len() == 1
            &&& u.world.item_updates.writes()[0].0 == location
            &&& u.world.item_updates.writes()[0].1@ == seq![None::<Item>]
            &&& u.world.paradox_drains@ == seq![(location, item_value(item))]
            &&& u.score.score == item_value(item)
        },
        Err(e) => digitize_error(g, location) == Some(e),
    }
}

/// Turns the item on the digitizer's cell into score.
pub fn use_matter_digitizer(location: Coordinate, game: &Game) -> (r: Result<GameUpdate>)
    requires
        game.world.wf(),
    ensures
        digitize_result(*game, location, r),
{
    let mut update = GameUpdate::new();
    let floor = *update.world.item_updates.get(&game.world.items, &location)?;
    let item = match floor[0] {
        Some(i) => i,
        None => {
            return Err(Status::ActionFail("no item to digitize"));
        },
    };
    let value: i64 = match item.definition.score_value {
        Some(v) => v,
        None => 0,
    };
    update.score.score = update.score.score + value;
    let emptied: FloorInventory = [None];
    assert(emptied@ =~= seq![None::<Item>]);
    update.world.item_updates.set(&location, &emptied)?;
    update.world.paradox_drains.push((location, value));
    proof {
        assert(update.world.paradox_drains@ =~= seq![(location, value)]);
    }
    Ok(update)
}

/// Using a building runs the function its definition binds.
pub open spec fn use_building_result(g: Game, location: Coordinate, r: Result<GameUpdate>) -> bool {
    match building_at(g, location) {
        Err(e) => r == Err::<GameUpdate, Status>(e),
        Ok(None) => r == Err::<GameUpdate, Status>(Status::ActionFail("No building")),
        Ok(Some(b)) => match b.definition.on_interact_fn {
            None => r == Err::<GameUpdate, Status>(Status::ActionFail("Not a usable item")),
            Some(BuildingUseFn::Mine) => ore_result(g, location, r),
            Some(BuildingUseFn::Digitize) => digitize_result(g, location, r),
        },
    }
}

/// Uses the building at `location`.
pub fn execute_use_building(location: Coordinate, game: &Game) -> (r: Result<GameUpdate>)
    requires
        game.world.wf(),
    ensures
        use_building_result(*game, location, r),
{
    let cell = game.world.buildings.get(&location)?;
    let building = match cell {
        Some(b) => b,
        None => {
            return Err(Status::ActionFail("No building"));
        },
    };
    let definition = building.definition;
    let function = match definition.on_interact_fn {
        Some(f) => f,
        None => {
            return Err(Status::ActionFail("Not a usable item"));
        },
    };
    match function {
        BuildingUseFn::Mine => use_ore_deposit(location, game),
        BuildingUseFn::Digitize => use_matter_digitizer(location, game),
    }
}

} // verus!
