//! The world: the grid layers of actors, buildings, items and floor.
use vstd::prelude::*;
use crate::actor::Actor;
use crate::buildings::Building;
use crate::datatypes::Coordinate;
use crate::engine::tracking_worldlayer::{TrackableWorldLayer, TrackableWorldLayerDelta};
use crate::engine::update::{Delta, Updatable, UpdatableContainer};
use crate::engine::worldlayer::{WorldLayer, WorldLayerDelta, apply_writes};
use crate::error::{Result, Status};
use crate::inventory::Item;

verus! {

/// The items lying on a cell.
pub type FloorInventory = [Option<Item>; 1];

#[derive(Clone, Copy, PartialEq, Eq, Debug, Structural)]
pub enum FloorTile {
    Dirt,
    Water,
    Stone,
}

/// Everything at one cell.
#[derive(PartialEq, Debug, Clone)]
pub struct WorldCell<'a> {
    pub actor: Option<&'a Actor>,
    pub building: Option<&'a Building>,
    pub items: &'a FloorInventory,
    pub floor: &'a FloorTile,
}

pub struct World {
    pub dimensions: Coordinate,
    pub actors: TrackableWorldLayer<Option<Actor>>,
    pub buildings: WorldLayer<Option<Building>>,
    pub items: WorldLayer<FloorInventory>,
    pub floor: WorldLayer<FloorTile>,
}

impl World {
    pub open spec fn dims(self) -> Coordinate {
        self.dimensions
    }

    /// Every layer covers the world's rectangle.
    pub open spec fn wf(self) -> bool {
        &&& self.actors.layer.sized()
        &&& self.buildings.sized()
        &&& self.items.sized()
        &&& self.floor.sized()
        &&& self.actors.layer.dims() == self.dims()
        &&& self.buildings.dims() == self.dims()
        &&& self.items.dims() == self.dims()
        &&& self.floor.dims() == self.dims()
    }

    /// An empty world of dirt.
    pub fn new(dimensions: Coordinate) -> (r: World)
        requires
            dimensions.x >= 0,
            dimensions.y >= 0,
            dimensions.x * dimensions.y <= i32::MAX,
        ensures
            r.wf(),
            r.dims() == dimensions,
            forall|i: int| 0 <= i < r.actors.layer.cells().len() ==> r.actors.layer.cells()[i] is None,
            forall|i: int| 0 <= i < r.buildings.cells().len() ==> r.buildings.cells()[i] is None,
            forall|i: int| 0 <= i < r.items.cells().len() ==> r.items.cells()[i]@ == seq![None::<Item>],
            forall|i: int| 0 <= i < r.floor.cells().len() ==> r.floor.cells()[i] == FloorTile::Dirt,
            r.actors.index.locations() == Map::<usize, Coordinate>::empty(),
            r.actors.index.recycled() == Set::<usize>::empty(),
    {
        World {
            dimensions: dimensions,
            actors: TrackableWorldLayer::new(dimensions, None),
            buildings: WorldLayer::new(dimensions, None),
            items: WorldLayer::new(dimensions, [None]),
            floor: WorldLayer::new(dimensions, FloorTile::Dirt),
        }
    }

    /// Everything at `location`; `OutOfBounds` outside the world.
    pub fn get_cell(&self, location: &Coordinate) -> (r: Result<WorldCell>)
        requires
            self.wf(),
        ensures
            match r {
                Ok(cell) => {
                    &&& self.floor.spec_in_bounds(*location)
                    &&& self.actors.layer.spec_get(*location) == Ok::<Option<Actor>, Status>(
                        match cell.actor {
                            Some(a) => Some(*a),
                            None => None,
                        },
                    )
                    &&& self.buildings.spec_get(*location) == Ok::<Option<Building>, Status>(
                        match cell.building {
                            Some(b) => Some(*b),
                            None => None,
                        },
                    )
                    &&& self.items.spec_get(*location) == Ok::<FloorInventory, Status>(*cell.items)
                    &&& self.floor.spec_get(*location) == Ok::<FloorTile, Status>(*cell.floor)
                },
                Err(e) => !self.floor.spec_in_bounds(*location) && e == Status::OutOfBounds,
            },
    {
        let actor = self.actors.get(location)?;
        let building = self.buildings.get(location)?;
        let items = self.items.get(location)?;
        let floor = self.floor.get(location)?;
        let actor_ref = match actor {
            Some(a) => Some(a),
            None => None,
        };
        let building_ref = match building {
            Some(b) => Some(b),
            None => None,
        };
        Ok(WorldCell { actor: actor_ref, building: building_ref, items, floor })
    }

    pub fn dimensions(&self) -> (r: Coordinate)
        ensures
            r == self.dims(),
    {
        self.dimensions
    }
}

impl Updatable for World {}

/// Writes staged against each layer of a world, and the paradox drained at
/// cells (paradox itself is a real number kept beside the world).
#[derive(Debug)]
pub struct WorldUpdate {
    pub actor_updates: TrackableWorldLayerDelta<Option<Actor>>,
    pub building_updates: WorldLayerDelta<Option<Building>>,
    pub item_updates: WorldLayerDelta<FloorInventory>,
    pub floor_updates: WorldLayerDelta<FloorTile>,
    pub paradox_drains: Vec<(Coordinate, i64)>,
}

impl WorldUpdate {
    /// Applying this update to `w` would succeed.
    pub open spec fn applies_to(self, w: World) -> bool {
        &&& self.actor_updates.applies_to(w.actors)
        &&& self.building_updates.applies_to(w.buildings)
        &&& self.item_updates.applies_to(w.items)
        &&& self.floor_updates.applies_to(w.floor)
    }

    /// `after` is `before` with every layer of this update applied.
    pub open spec fn applied(self, before: World, after: World) -> bool {
        &&& after.dims() == before.dims()
        &&& after.actors.layer.dims() == before.actors.layer.dims()
        &&& after.actors.layer.cells() == apply_writes(
            before.actors.layer.cells(),
            before.actors.layer.dims(),
            self.actor_updates.layer.writes(),
        )
        &&& ({
            let idx = self.actor_updates.index.spec_applied(
                before.actors.index.locations(),
                before.actors.index.recycled(),
            );
            after.actors.index.locations() == idx.0 && after.actors.index.recycled() == idx.1
        })
        &&& after.buildings.dims() == before.buildings.dims()
        &&& after.buildings.cells() == apply_writes(
            before.buildings.cells(),
            before.buildings.dims(),
            self.building_updates.writes(),
        )
        &&& after.items.dims() == before.items.dims()
        &&& after.items.cells() == apply_writes(
            before.items.cells(),
            before.items.dims(),
            self.item_updates.writes(),
        )
        &&& after.floor.dims() == before.floor.dims()
        &&& after.floor.cells() == apply_writes(
            before.floor.cells(),
            before.floor.dims(),
            self.floor_updates.writes(),
        )
    }
}

impl WorldUpdate {
    /// `after` is `before` with the layers of this update applied in order
    /// (actors, buildings, items, floor) as far as the first that does not
    /// fit: that layer is written up to its first key outside the grid, and
    /// the layers after it are left as they were.
    pub open spec fn applied_in_order(self, before: World, after: World) -> bool {
        let actors_fit = self.actor_updates.layer.applies_to(before.actors.layer);
        let actors_ok = self.actor_updates.applies_to(before.actors);
        let buildings_ok = self.building_updates.applies_to(before.buildings);
        let items_ok = self.item_updates.applies_to(before.items);
        let idx = self.actor_updates.index.spec_applied(
            before.actors.index.locations(),
            before.actors.index.recycled(),
        );
        &&& after.dims() == before.dims()
        &&& after.actors.layer.dims() == before.actors.layer.dims()
        &&& after.buildings.dims() == before.buildings.dims()
        &&& after.items.dims() == before.items.dims()
        &&& after.floor.dims() == before.floor.dims()
        &&& after.actors.layer.cells() == apply_writes(
            before.actors.layer.cells(),
            before.actors.layer.dims(),
            self.actor_updates.layer.writes(),
        )
        &&& if actors_fit {
            after.actors.index.locations() == idx.0 && after.actors.index.recycled() == idx.1
        } else {
            after.actors.index.locations() == before.actors.index.locations()
                && after.actors.index.recycled() == before.actors.index.recycled()
        }
        &&& after.buildings.cells() == if actors_ok {
            apply_writes(before.buildings.cells(), before.buildings.dims(), self.building_updates.writes())
        } else {
            before.buildings.cells()
        }
        &&& after.items.cells() == if actors_ok && buildings_ok {
            apply_writes(before.items.cells(), before.items.dims(), self.item_updates.writes())
        } else {
            before.items.cells()
        }
        &&& after.floor.cells() == if actors_ok && buildings_ok && items_ok {
            apply_writes(before.floor.cells(), before.floor.dims(), self.floor_updates.writes())
        } else {
            before.floor.cells()
        }
    }
}

impl Delta for WorldUpdate {
    type Target = World;

    fn new() -> (r: WorldUpdate)
        ensures
            r.actor_updates.layer.writes().len() == 0,
            r.actor_updates.index.writes().len() == 0,
            r.actor_updates.index.removals().len() == 0,
            r.building_updates.writes().len() == 0,
            r.item_updates.writes().len() == 0,
            r.floor_updates.writes().len() == 0,
            r.paradox_drains@.len() == 0,
    {
        WorldUpdate {
            actor_updates: TrackableWorldLayerDelta::new(),
            building_updates: WorldLayerDelta::new(),
            item_updates: WorldLayerDelta::new(),
            floor_updates: WorldLayerDelta::new(),
            paradox_drains: Vec::new(),
        }
    }

    /// Applies the layers in order (actors, buildings, items, floor) and
    /// stops with `OutOfBounds` at the first that does not fit the world.
    fn apply(&self, target: &mut World) -> (r: Result<()>)
        ensures
            old(target).wf() ==> final(target).wf(),
            final(target).dims() == old(target).dims(),
            r is Ok <==> self.applies_to(*old(target)),
            r is Ok ==> self.applied(*old(target), *final(target)),
            self.applied_in_order(*old(target), *final(target)),
            r matches Err(e) ==> e == Status::OutOfBounds,
    {
        self.actor_updates.apply(&mut target.actors)?;
        self.building_updates.apply(&mut target.buildings)?;
        self.item_updates.apply(&mut target.items)?;
        self.floor_updates.apply(&mut target.floor)?;
        Ok(())
    }
}

} // verus!
