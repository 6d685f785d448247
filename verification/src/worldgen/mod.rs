//! The starting scene of a new game.
use vstd::prelude::*;
use crate::actor::Actor;
use crate::buildings::Building;
use crate::datatypes::Coordinate;
use crate::devtools::{make_sample_recording, sample_commands};
use crate::direction::AbsoluteDirection;
use crate::engine::tracking_worldlayer::TrackableId;
use crate::engine::update::UpdatableContainer;
use crate::engine::worldlayer::{in_bounds_of, index_of, lemma_index_in_range, lemma_index_injective};
use crate::eventqueue::ActorEvent;
use crate::game_state::game::{Game, PlayerRef};
use crate::game_state::world::FloorTile;
use crate::inventory::BasicInventory;
use crate::recording::db::RecordingId;
use crate::score::Score;
use crate::static_data::Data;

verus! {

/// The size of the starting world.
pub open spec fn start_dims() -> Coordinate {
    Coordinate { x: 60, y: 60 }
}

/// The floor laid by the first `n - 16` steps of the starting scene: for
/// each `i` from 16, stone at `(i, i)` and water at `(15, i)`, `(45, i)`
/// and `(i, 15)`. The rest is dirt.
pub open spec fn floor_upto(n: int, c: Coordinate) -> FloorTile {
    if (c.x == 15 || c.x == 45) && 16 <= c.y < n || c.y == 15 && 16 <= c.x < n {
        FloorTile::Water
    } else if c.x == c.y && 16 <= c.x < n {
        FloorTile::Stone
    } else {
        FloorTile::Dirt
    }
}

/// The floor of the starting scene: water on three sides of the square from
/// `(16, 16)` to `(44, 44)`, stone on its diagonal, dirt elsewhere.
pub open spec fn start_floor(c: Coordinate) -> FloorTile {
    floor_upto(45, c)
}

/// The sample recording's id: the one after the player's empty recording.
pub open spec fn foe_event(id: usize) -> ActorEvent {
    ActorEvent { actor: TrackableId(id), recording: RecordingId { idx: 1 }, recording_idx: 0 }
}

/// `cell` is what the starting scene has at `c`: the player (id 0) at
/// `(1, 1)`, foes (ids 1 and 2) at `(15, 15)` and `(45, 15)`, each facing
/// North with an empty inventory, and no one elsewhere.
pub open spec fn start_actor(data: Data, c: Coordinate, cell: Option<Actor>) -> bool {
    let placed = |name: Seq<char>, id: usize|
        cell matches Some(a) && a.facing == AbsoluteDirection::N && a.actor_id == TrackableId(id)
            && a.inventory.slots() == BasicInventory::new_slots() && data.actors.spec_get(name) == Some(
            *a.descriptor,
        );
    if c == (Coordinate { x: 1, y: 1 }) {
        placed("player"@, 0)
    } else if c == (Coordinate { x: 15, y: 15 }) {
        placed("foe"@, 1)
    } else if c == (Coordinate { x: 45, y: 15 }) {
        placed("foe"@, 2)
    } else {
        cell is None
    }
}

/// Writing `v` at `at` changes, among the cells of a grid, the cell of `at`
/// alone.
proof fn lemma_write_tracks<T>(
    before: Seq<T>,
    after: Seq<T>,
    dims: Coordinate,
    at: Coordinate,
    v: T,
    f: spec_fn(Coordinate) -> T,
)
    requires
        in_bounds_of(dims, at),
        before.len() == dims.x * dims.y,
        after == before.update(index_of(dims, at), v),
        forall|c: Coordinate| in_bounds_of(dims, c) ==> before[index_of(dims, c)] == #[trigger] f(c),
    ensures
        forall|c: Coordinate|
            in_bounds_of(dims, c) ==> #[trigger] after[index_of(dims, c)] == (if c == at {
                v
            } else {
                f(c)
            }),
{
    assert forall|c: Coordinate| in_bounds_of(dims, c) implies #[trigger] after[index_of(dims, c)] == (if c
        == at {
        v
    } else {
        f(c)
    }) by {
        lemma_index_in_range(dims, c);
        lemma_index_in_range(dims, at);
        if c != at && index_of(dims, c) == index_of(dims, at) {
            lemma_index_injective(dims, c, at);
        }
    }
}

/// Sets up a new game: a 60 by 60 world with the player at `(1, 1)`, a
/// crystal deposit at `(5, 5)`, the floor of `start_floor`, and two foes
/// replaying the sample recording, each with an event queued for the next
/// turn.
pub fn start_game(data: &'static Data) -> (r: Game)
    requires
        data.actors.spec_contains("player"@),
        data.actors.spec_contains("foe"@),
        data.buildings.spec_contains("crystal_deposit"@),
    ensures
        r.world.wf(),
        crate::game_state::turn::world_ready(r.world),
        r.world.dims() == start_dims(),
        r.data == data,
        r.score == (Score { score: 0, turn: 0 }),
        r.actors.player == Some(PlayerRef { actor_id: TrackableId(0) }),
        forall|c: Coordinate|
            in_bounds_of(start_dims(), c) ==> start_actor(
                *data,
                c,
                #[trigger] r.world.actors.layer.cells()[index_of(start_dims(), c)],
            ),
        r.world.actors.index.locations() == map![
            0usize => Coordinate { x: 1, y: 1 },
            1usize => Coordinate { x: 15, y: 15 },
            2usize => Coordinate { x: 45, y: 15 },
        ],
        r.world.actors.index.recycled() == Set::<usize>::empty(),
        r.world.buildings.cells()[index_of(start_dims(), Coordinate { x: 5, y: 5 })] matches Some(b)
            && data.buildings.spec_get("crystal_deposit"@) == Some(*b.definition),
        forall|c: Coordinate|
            in_bounds_of(start_dims(), c) && c != (Coordinate { x: 5, y: 5 })
                ==> #[trigger] r.world.buildings.cells()[index_of(start_dims(), c)] is None,
        forall|c: Coordinate|
            in_bounds_of(start_dims(), c) ==> (#[trigger] r.world.items.cells()[index_of(start_dims(), c)])@
                == seq![None::<crate::inventory::Item>],
        forall|c: Coordinate|
            in_bounds_of(start_dims(), c) ==> #[trigger] r.world.floor.cells()[index_of(start_dims(), c)]
                == start_floor(c),
        r.recordings.recordings.recordings().len() == 2,
        r.recordings.recordings.recordings()[0].command_list@.len() == 0,
        r.recordings.recordings.recordings()[1].command_list@ == sample_commands(),
        r.recordings.recordings.recordings()[1].should_loop,
        r.recordings.recordings.recordings()[1].inventory.slots() == BasicInventory::new_slots(),
        r.recordings.current_recording is None,
        r.recordings.temp_item is None,
        r.recordings.facing() == AbsoluteDirection::N,
        r.event_queue.this_turn@.len() == 0,
        r.event_queue.next_turn@ == seq![foe_event(1), foe_event(2)],
        r.paradox_log@.len() == 0,
{
    let dims = Coordinate { x: 60, y: 60 };
    let mut game = Game::new(dims, data);
    let ghost g0 = game;
    proof {
        assert forall|c: Coordinate| in_bounds_of(dims, c) implies #[trigger] g0.world.items.cells()[index_of(
            dims,
            c,
        )]@ == seq![None::<crate::inventory::Item>] && g0.world.actors.layer.cells()[index_of(dims, c)] is None
            && g0.world.buildings.cells()[index_of(dims, c)] is None && g0.world.floor.cells()[index_of(dims, c)]
            == FloorTile::Dirt by {
            lemma_index_in_range(dims, c);
        }
    }

    // The player.
    let start = Coordinate { x: 1, y: 1 };
    proof {
        lemma_index_in_range(dims, start);
    }
    let spawned = game.spawn(&start);
    assert(spawned is Ok);
    proof {
        lemma_write_tracks(
            g0.world.actors.layer.cells(),
            game.world.actors.layer.cells(),
            dims,
            start,
            game.world.actors.layer.cells()[index_of(dims, start)],
            |c: Coordinate| None::<Actor>,
        );
    }

    // The crystal deposit.
    let ore = data.buildings.get("crystal_deposit").unwrap();
    let ore_at = Coordinate { x: 5, y: 5 };
    let placed = game.world.buildings.mut_set(&ore_at, &Some(Building { definition: ore }));
    assert(placed is Ok);
    proof {
        lemma_write_tracks(
            g0.world.buildings.cells(),
            game.world.buildings.cells(),
            dims,
            ore_at,
            Some(Building { definition: ore }),
            |c: Coordinate| None::<Building>,
        );
    }

    // The floor.
    let ghost g1 = game;
    let mut i: i32 = 16;
    while i < 45
        invariant
            16 <= i <= 45,
            dims == start_dims(),
            game.world.floor.sized(),
            game.world.floor.dims() == dims,
            game.world.dimensions == g1.world.dimensions,
            game.world.actors == g1.world.actors,
            game.world.buildings == g1.world.buildings,
            game.world.items == g1.world.items,
            game.actors == g1.actors,
            game.recordings == g1.recordings,
            game.event_queue == g1.event_queue,
            game.data == g1.data,
            game.score == g1.score,
            game.paradox_log == g1.paradox_log,
            forall|c: Coordinate|
                in_bounds_of(dims, c) ==> #[trigger] game.world.floor.cells()[index_of(dims, c)] == floor_upto(
                    i as int,
                    c,
                ),
        decreases 45 - i,
    {
        let ghost n = i as int;
        let diagonal = Coordinate { x: i, y: i };
        let west = Coordinate { x: 15, y: i };
        let east = Coordinate { x: 45, y: i };
        let north = Coordinate { x: i, y: 15 };
        let ghost f0 = game.world.floor.cells();
        let r0 = game.world.floor.mut_set(&diagonal, &FloorTile::Stone);
        assert(r0 is Ok);
        proof {
            lemma_write_tracks(f0, game.world.floor.cells(), dims, diagonal, FloorTile::Stone, |c: Coordinate| floor_upto(n, c));
        }
        let ghost f1 = game.world.floor.cells();
        let r1 = game.world.floor.mut_set(&west, &FloorTile::Water);
        assert(r1 is Ok);
        proof {
            lemma_write_tracks(
                f1,
                game.world.floor.cells(),
                dims,
                west,
                FloorTile::Water,
                |c: Coordinate| if c == diagonal { FloorTile::Stone } else { floor_upto(n, c) },
            );
        }
        let ghost f2 = game.world.floor.cells();
        let r2 = game.world.floor.mut_set(&east, &FloorTile::Water);
        assert(r2 is Ok);
        proof {
            lemma_write_tracks(
                f2,
                game.world.floor.cells(),
                dims,
                east,
                FloorTile::Water,
                |c: Coordinate| if c == west { FloorTile::Water } else if c == diagonal { FloorTile::Stone } else { floor_upto(n, c) },
            );
        }
        let ghost f3 = game.world.floor.cells();
        let r3 = game.world.floor.mut_set(&north, &FloorTile::Water);
        assert(r3 is Ok);
        proof {
            lemma_write_tracks(
                f3,
                game.world.floor.cells(),
                dims,
                north,
                FloorTile::Water,
                |c: Coordinate| if c == east { FloorTile::Water } else if c == west { FloorTile::Water } else if c == diagonal { FloorTile::Stone } else { floor_upto(n, c) },
            );
        }
        i = i + 1;
        assert forall|c: Coordinate| in_bounds_of(dims, c) implies #[trigger] game.world.floor.cells()[index_of(
            dims,
            c,
        )] == floor_upto(i as int, c) by {}
    }

    // The foes, replaying the sample recording.
    let recording_id = game.recordings.load_recording(make_sample_recording());
    let foe = data.actors.get("foe").unwrap();
    let ghost a1 = game.world.actors;
    proof {
        assert(a1.index.locations() =~= map![0usize => start]);
        assert(a1.index.recycled() =~= Set::<usize>::empty());
    }
    let id1 = game.world.actors.next_id();
    let foe1 = Actor::from_recording(foe, id1, &make_sample_recording());
    let first = Coordinate { x: 15, y: 15 };
    let set1 = game.world.actors.mut_set(&first, &Some(foe1));
    assert(set1 is Ok);
    proof {
        lemma_write_tracks(
            a1.layer.cells(),
            game.world.actors.layer.cells(),
            dims,
            first,
            Some(foe1),
            |c: Coordinate| if c == start { a1.layer.cells()[index_of(dims, start)] } else { None::<Actor> },
        );
    }
    game.event_queue.next_turn.push_back(ActorEvent { actor: id1, recording: recording_id, recording_idx: 0 });
    let ghost a2 = game.world.actors;
    proof {
        assert(a2.index.locations() =~= map![0usize => start, 1usize => first]);
        assert(a2.index.recycled() =~= Set::<usize>::empty());
    }
    let id2 = game.world.actors.next_id();
    let foe2 = Actor::from_recording(foe, id2, &make_sample_recording());
    let second = Coordinate { x: 45, y: 15 };
    let set2 = game.world.actors.mut_set(&second, &Some(foe2));
    assert(set2 is Ok);
    proof {
        lemma_write_tracks(
            a2.layer.cells(),
            game.world.actors.layer.cells(),
            dims,
            second,
            Some(foe2),
            |c: Coordinate| if c == first { Some(foe1) } else if c == start { a1.layer.cells()[index_of(dims, start)] } else { None::<Actor> },
        );
        assert(game.world.actors.index.locations() =~= map![0usize => start, 1usize => first, 2usize => second]);
        assert(game.world.actors.index.recycled() =~= Set::<usize>::empty());
    }
    game.event_queue.next_turn.push_back(ActorEvent { actor: id2, recording: recording_id, recording_idx: 0 });
    proof {
        assert(game.event_queue.next_turn@ =~= seq![foe_event(1), foe_event(2)]);
        let m = game.world.actors.index.locations();
        assert(m.dom() =~= Set::<usize>::empty().insert(0).insert(1).insert(2));
        assert(m.len() == 3);
        assert(crate::engine::tracking_worldlayer::ids_dense(game.world.actors.index));
        assert(crate::game_state::turn::actors_known(game.world));
    }
    game
}

} // verus!
