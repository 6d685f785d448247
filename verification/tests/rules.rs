use clone_factory::action::{execute_action, execute_construct, execute_drop, execute_move, execute_take, Action, SubAction};
use clone_factory::buildings::{execute_use_building, Building};
use clone_factory::crafting::{format_decimal, get_all_recipes, CraftingMenuEntry};
use clone_factory::datatypes::Coordinate;
use clone_factory::devtools;
use clone_factory::direction::{AbsoluteDirection, Direction, RelativeDirection};
use clone_factory::engine::tracking_worldlayer::{Index, TrackableId};
use clone_factory::engine::update::{Delta, UpdatableContainer, UpdatableContainerDelta};
use clone_factory::engine::worldlayer::{WorldLayer, WorldLayerDelta};
use clone_factory::error::Status;
use clone_factory::eventqueue::{ActorEvent, EventQueue};
use clone_factory::game_state::game::{Game, ParadoxChange};
use clone_factory::game_state::world::FloorTile;
use clone_factory::inventory::{BasicInventory, Item};
use clone_factory::recording::db::{RecordingDb, RecordingId};
use clone_factory::recording::interface::RecordingModule;
use clone_factory::recording::Recording;
use clone_factory::score::{Score, ScoreDelta};
use clone_factory::static_data::{AppearanceDefiniton, Data, ObjectDescriptor, ObjectText, RecipeDefiniton};
use clone_factory::worldgen::start_game;

fn object(name: &str, shown: &str, on_use: Option<&str>, on_interact: Option<&str>, score: Option<i64>) -> ObjectDescriptor {
    ObjectDescriptor {
        name: name.to_string(),
        score_value: score,
        hp: None,
        on_use: on_use.map(|s| s.to_string()),
        on_use_fn: None,
        on_interact: on_interact.map(|s| s.to_string()),
        on_interact_fn: None,
        text: ObjectText { name: shown.to_string(), description: format!("{} for testing.", shown) },
        appearance: AppearanceDefiniton {
            glyph: "?".to_string(),
            glyph_n: None,
            glyph_s: None,
            glyph_e: None,
            glyph_w: None,
            texture: None,
            color: "white".to_string(),
        },
    }
}

/// The definitions the tests play with, bound as a loaded data file is.
fn test_data() -> &'static Data {
    let mut data = Data::new();
    for (name, shown) in [("player", "Player"), ("foe", "Foe"), ("clone", "Clone")] {
        data.actors.insert(&name.to_string(), object(name, shown, None, None, None));
    }
    data.buildings.insert(
        &"crystal_deposit".to_string(),
        object("crystal_deposit", "Crystal Deposit", None, Some("building_mine"), None),
    );
    data.buildings.insert(
        &"matter_digitizer".to_string(),
        object("matter_digitizer", "Matter Digitizer", Some("action_construct"), Some("building_digitize"), None),
    );
    data.items.insert(&"raw_crystal".to_string(), object("raw_crystal", "Raw Crystal", None, None, Some(1)));
    data.items.insert(&"echo_crystal".to_string(), object("echo_crystal", "Echo Crystal", None, None, Some(5)));
    data.items.insert(
        &"basic_cloner".to_string(),
        object("basic_cloner", "Basic Cloner", Some("action_use_cloner"), None, None),
    );
    data.items.insert(&"recorder".to_string(), object("recorder", "Recorder", None, None, None));
    data.items.insert(
        &"matter_digitizer".to_string(),
        object("matter_digitizer", "Matter Digitizer", Some("action_construct"), None, None),
    );
    data.recipes.insert(
        &"echo_crystal".to_string(),
        RecipeDefiniton {
            ingredients: vec!["raw_crystal".to_string()],
            ingredient_counts: vec![1],
            product: "echo_crystal".to_string(),
            product_count: 1,
            name: "Echo Crystal".to_string(),
        },
    );
    data.bind_functions();
    Box::leak(Box::new(data))
}


const DIRECTIONS: [AbsoluteDirection; 4] =
    [AbsoluteDirection::N, AbsoluteDirection::E, AbsoluteDirection::S, AbsoluteDirection::W];
const TURNS: [RelativeDirection; 4] = [RelativeDirection::F, RelativeDirection::R, RelativeDirection::B, RelativeDirection::L];

fn act(direction: AbsoluteDirection, action: SubAction) -> Action {
    Action { direction: Direction::Absolute(direction), action }
}

fn item(data: &'static Data, name: &str, quantity: u16) -> Item {
    Item::new(data.items.get(name).unwrap(), quantity)
}

#[test]
fn direction_numbers_round_trip() {
    for (i, d) in DIRECTIONS.iter().enumerate() {
        assert_eq!(d.to_int(), i as i8);
        assert_eq!(AbsoluteDirection::from_int(d.to_int()), *d);
    }
    assert_eq!(AbsoluteDirection::from_int(7), AbsoluteDirection::W);
    assert_eq!(AbsoluteDirection::from_int(-4), AbsoluteDirection::N);
    assert_eq!(RelativeDirection::L.to_int(), 3);
    assert_eq!(Direction::Relative(RelativeDirection::B).to_int(), 2);
}

#[test]
fn relative_turns() {
    for d in DIRECTIONS {
        assert_eq!(d.rotate(&Direction::Relative(RelativeDirection::F)), d);
        let back = d.rotate(&Direction::Relative(RelativeDirection::B));
        assert_eq!(back.rotate(&Direction::Relative(RelativeDirection::B)), d);
        let right = d.rotate(&Direction::Relative(RelativeDirection::R));
        assert_eq!(right.rotate(&Direction::Relative(RelativeDirection::L)), d);
        assert_eq!(d.rotate(&Direction::Absolute(AbsoluteDirection::S)), AbsoluteDirection::S);
    }
    let twice = AbsoluteDirection::N
        .rotate(&Direction::Relative(RelativeDirection::R))
        .rotate(&Direction::Relative(RelativeDirection::R));
    assert_eq!(twice, AbsoluteDirection::S);
}

#[test]
fn difference_round_trip() {
    for from in DIRECTIONS {
        for target in DIRECTIONS {
            let turn = target.difference(&from);
            assert_eq!(from.rotate(&Direction::Relative(turn)), target);
        }
        for turn in TURNS {
            assert_eq!(from.rotate(&Direction::Relative(turn)).difference(&from), turn);
        }
    }
    assert_eq!(AbsoluteDirection::W.difference(&AbsoluteDirection::N), RelativeDirection::L);
}

#[test]
fn offsets_turn_with_facing() {
    let location = Coordinate { x: 10, y: 10 };
    let ahead = Coordinate { x: 0, y: 1 };
    assert_eq!(Coordinate::as_offset(ahead, location, AbsoluteDirection::N), Coordinate { x: 10, y: 11 });
    assert_eq!(Coordinate::as_offset(ahead, location, AbsoluteDirection::E), Coordinate { x: 11, y: 10 });
    assert_eq!(Coordinate::as_offset(ahead, location, AbsoluteDirection::S), Coordinate { x: 10, y: 9 });
    assert_eq!(Coordinate::as_offset(ahead, location, AbsoluteDirection::W), Coordinate { x: 9, y: 10 });
    let c = Coordinate { x: 1, y: 2 };
    assert_eq!(c * AbsoluteDirection::E * AbsoluteDirection::S, c * AbsoluteDirection::W);
    assert_eq!(c * AbsoluteDirection::N, c);
    assert_eq!(c + Coordinate { x: -3, y: 4 }, Coordinate { x: -2, y: 6 });
}

#[test]
fn clamp_into_box() {
    let a = Coordinate { x: 5, y: -1 };
    let b = Coordinate { x: 0, y: 3 };
    assert_eq!(Coordinate { x: 9, y: -7 }.clamp(a, b), Coordinate { x: 5, y: -1 });
    assert_eq!(Coordinate { x: -2, y: 8 }.clamp(a, b), Coordinate { x: 0, y: 3 });
    assert_eq!(Coordinate { x: 2, y: 1 }.clamp(a, b), Coordinate { x: 2, y: 1 });
}

#[test]
fn layer_write_then_read() {
    let mut layer = WorldLayer::new(Coordinate { x: 3, y: 2 }, 0u8);
    assert_eq!(layer.coord_to_idx(&Coordinate { x: 2, y: 1 }), Ok(5));
    assert_eq!(layer.coord_to_idx(&Coordinate { x: 3, y: 0 }), Err(Status::OutOfBounds));
    layer.mut_set(&Coordinate { x: 1, y: 1 }, &7).unwrap();
    assert_eq!(*layer.get(&Coordinate { x: 1, y: 1 }).unwrap(), 7);
    assert_eq!(*layer.get(&Coordinate { x: 1, y: 0 }).unwrap(), 0);
    assert_eq!(layer.get(&Coordinate { x: -1, y: 0 }), Err(Status::OutOfBounds));
    assert_eq!(layer.mut_set(&Coordinate { x: 0, y: 2 }, &1), Err(Status::OutOfBounds));
    assert_eq!(layer.get_dimensions(), Coordinate { x: 3, y: 2 });
}

#[test]
fn delta_reads_its_writes_and_applies_them() {
    let mut layer = WorldLayer::new(Coordinate { x: 2, y: 2 }, 0u8);
    let mut delta: WorldLayerDelta<u8> = WorldLayerDelta::new();
    let key = Coordinate { x: 1, y: 0 };
    assert_eq!(delta.get_cached(&key), Ok(None));
    delta.set(&key, &4).unwrap();
    delta.set(&key, &9).unwrap();
    assert_eq!(*delta.get(&layer, &key).unwrap(), 9);
    assert_eq!(*delta.get(&layer, &Coordinate { x: 0, y: 0 }).unwrap(), 0);
    assert_eq!(delta.get_cached(&key), Ok(Some(&9)));
    delta.apply(&mut layer).unwrap();
    assert_eq!(*layer.get(&key).unwrap(), 9);
    let mut bad: WorldLayerDelta<u8> = WorldLayerDelta::new();
    bad.set(&Coordinate { x: 5, y: 5 }, &1).unwrap();
    assert_eq!(bad.apply(&mut layer), Err(Status::OutOfBounds));
}

#[test]
fn data_map_insert_then_get() {
    let data = test_data();
    assert_eq!(data.items.get("raw_crystal").unwrap().text.name, "Raw Crystal");
    assert!(data.items.get("unobtainium").is_none());
    assert!(data.items.contains_key("recorder"));
    assert!(!data.actors.contains_key("recorder"));
    assert_eq!(data.items.len(), 5);
}

#[test]
fn binding_follows_use_names() {
    let data = test_data();
    assert!(data.items.get("basic_cloner").unwrap().on_use_fn.is_some());
    assert!(data.items.get("raw_crystal").unwrap().on_use_fn.is_none());
    assert!(data.buildings.get("crystal_deposit").unwrap().on_interact_fn.is_some());
}

#[test]
fn inventory_insert_then_remove_idx() {
    let data = test_data();
    let mut inv = BasicInventory::new();
    let crystal = item(data, "raw_crystal", 3);
    inv.insert(crystal).unwrap();
    inv.insert(item(data, "recorder", 1)).unwrap();
    assert_eq!(inv.remove_idx(0), Some(crystal));
    assert!(inv.get_items()[0].is_none());
    assert_eq!(inv.remove_idx(0), None);
    assert_eq!(inv.remove_idx(6), None);
    inv.insert(crystal).unwrap();
    assert_eq!(inv.get_items()[0], Some(crystal));
}

#[test]
fn inventory_full_and_removal_errors() {
    let data = test_data();
    let mut inv = BasicInventory::new();
    for _ in 0..5 {
        inv.insert(item(data, "recorder", 1)).unwrap();
    }
    assert_eq!(inv.insert(item(data, "recorder", 1)), Err(Status::ActionFail("no space in inventory")));

    let mut inv = BasicInventory::new();
    inv.insert(item(data, "raw_crystal", 3)).unwrap();
    inv.remove(item(data, "raw_crystal", 1)).unwrap();
    assert_eq!(inv.get_items()[0].unwrap().quantity, 2);
    assert_eq!(
        inv.remove(item(data, "raw_crystal", 5)),
        Err(Status::ActionFail("attempting to remove too many items"))
    );
    assert_eq!(inv.remove(item(data, "recorder", 1)), Err(Status::ActionFail("no such item in inventory")));
    inv.remove(item(data, "raw_crystal", 2)).unwrap();
    assert!(inv.get_items()[0].is_none());
}

#[test]
fn registered_recording_reads_back() {
    let mut db = RecordingDb::new();
    assert_eq!(db.len(), 1);
    assert_eq!(db.get(RecordingId { idx: 0 }).len(), 0);
    let mut rec = Recording::blank();
    rec.append(act(AbsoluteDirection::E, SubAction::Wait));
    let id = db.register_recording(rec);
    assert_eq!(id, RecordingId { idx: 1 });
    assert_eq!(db.get(id).command_list, vec![act(AbsoluteDirection::E, SubAction::Wait)]);
    assert_eq!(db.get(id).at(3), act(AbsoluteDirection::E, SubAction::Wait));
}

#[test]
fn turns_advance_in_order() {
    let mut q = EventQueue::new();
    assert!(q.get_next_event().is_none());
    let e = ActorEvent { actor: TrackableId(3), recording: RecordingId { idx: 1 }, recording_idx: 0 };
    q.next_turn.push_back(e);
    q.advance_turn().unwrap();
    assert!(q.next_turn.is_empty());
    assert_eq!(q.get_next_event(), Some(e));
    assert!(q.get_next_event().is_none());
    q.this_turn.push_back(e);
    assert_eq!(q.advance_turn(), Err(Status::StateUpdateError));
    assert_eq!(q.this_turn.len(), 1);
}

#[test]
fn score_adds_and_refuses_overflow() {
    let mut score = Score { score: 5, turn: 2 };
    ScoreDelta { score: -7 }.apply(&mut score).unwrap();
    assert_eq!(score, Score { score: -2, turn: 2 });
    let mut top = Score { score: i64::MAX, turn: 0 };
    assert_eq!(ScoreDelta { score: 1 }.apply(&mut top), Err(Status::StateUpdateError));
    assert_eq!(top.score, i64::MAX);
    assert_eq!(ScoreDelta::new().score, 0);
}

#[test]
fn spawn_errors() {
    let data = test_data();
    let mut game = Game::new(Coordinate { x: 2, y: 2 }, data);
    assert_eq!(game.get_player_coords(), Err(Status::Error("Player uninitialized")));
    assert_eq!(game.spawn(&Coordinate { x: 2, y: 0 }), Err(Status::OutOfBounds));
    game.spawn(&Coordinate { x: 1, y: 1 }).unwrap();
    assert_eq!(game.spawn(&Coordinate { x: 0, y: 0 }), Err(Status::Error("Player exists")));
    assert_eq!(*game.get_player_coords().unwrap(), Coordinate { x: 1, y: 1 });
    assert_eq!(game.actors.get_player(), Ok(TrackableId(0)));

    let empty: &'static Data = Box::leak(Box::new(Data::new()));
    let mut bare = Game::new(Coordinate { x: 1, y: 1 }, empty);
    assert_eq!(bare.spawn(&Coordinate { x: 0, y: 0 }), Err(Status::Error("Player definition missing")));
}

#[test]
fn move_errors() {
    let data = test_data();
    let mut game = Game::new(Coordinate { x: 2, y: 2 }, data);
    let at = Coordinate { x: 0, y: 0 };
    game.spawn(&at).unwrap();
    assert_eq!(
        execute_move(at, AbsoluteDirection::S, &game).err(),
        Some(Status::ActionFail("destination out of bounds"))
    );
    game.world.floor.mut_set(&Coordinate { x: 1, y: 0 }, &FloorTile::Water).unwrap();
    assert_eq!(
        execute_move(at, AbsoluteDirection::E, &game).err(),
        Some(Status::ActionFail("Destination impassable"))
    );
    assert_eq!(
        execute_move(Coordinate { x: 1, y: 1 }, AbsoluteDirection::S, &game).err(),
        Some(Status::Error("Actor missing"))
    );
    let update = execute_move(at, AbsoluteDirection::N, &game).unwrap();
    update.apply(&mut game).unwrap();
    let moved = game.get_player_actor().unwrap();
    assert_eq!(moved.facing, AbsoluteDirection::N);
    assert_eq!(*game.get_player_coords().unwrap(), Coordinate { x: 0, y: 1 });
}

#[test]
fn take_and_drop() {
    let data = test_data();
    let mut game = Game::new(Coordinate { x: 1, y: 1 }, data);
    let at = Coordinate { x: 0, y: 0 };
    game.spawn(&at).unwrap();
    assert_eq!(execute_take(at, AbsoluteDirection::N, &game).err(), Some(Status::ActionFail("no item to take")));
    assert_eq!(execute_drop(0, at, AbsoluteDirection::N, &game).err(), Some(Status::ActionFail("No item in slot")));
    let crystal = item(data, "raw_crystal", 2);
    devtools::grant_item(crystal, at, &game).unwrap().apply(&mut game).unwrap();
    execute_drop(0, at, AbsoluteDirection::W, &game).unwrap().apply(&mut game).unwrap();
    assert_eq!(game.world.items.get(&at).unwrap()[0], Some(crystal));
    assert_eq!(game.get_player_actor().unwrap().facing, AbsoluteDirection::W);
    devtools::grant_item(crystal, at, &game).unwrap().apply(&mut game).unwrap();
    assert_eq!(execute_drop(0, at, AbsoluteDirection::N, &game).err(), Some(Status::ActionFail("destination full")));
}

#[test]
fn mining_and_digitizing() {
    let data = test_data();
    let mut game = Game::new(Coordinate { x: 2, y: 1 }, data);
    let at = Coordinate { x: 0, y: 0 };
    game.spawn(&at).unwrap();
    assert_eq!(execute_use_building(at, &game).err(), Some(Status::ActionFail("No building")));
    let deposit = data.buildings.get("crystal_deposit").unwrap();
    game.world.buildings.mut_set(&at, &Some(Building { definition: deposit })).unwrap();
    let mine = act(AbsoluteDirection::N, SubAction::ActivateBuilding);
    game.player_action(mine).unwrap();
    let mined = game.world.items.get(&at).unwrap()[0].unwrap();
    assert_eq!(mined.definition.name, "raw_crystal");
    assert_eq!(mined.quantity, 1);
    assert_eq!(game.player_action(mine), Err(Status::ActionFail("destination occupied")));
    game.player_action(act(AbsoluteDirection::N, SubAction::Take)).unwrap();
    assert_eq!(game.get_player_actor().unwrap().inventory.get_items()[0], Some(mined));

    let digitizer = data.buildings.get("matter_digitizer").unwrap();
    let there = Coordinate { x: 1, y: 0 };
    game.world.buildings.mut_set(&there, &Some(Building { definition: digitizer })).unwrap();
    game.world.items.mut_set(&there, &[Some(item(data, "echo_crystal", 1))]).unwrap();
    let update = execute_use_building(there, &game).unwrap();
    assert_eq!(update.score.score, 5);
    assert_eq!(update.world.paradox_drains, vec![(there, 5)]);
    update.apply(&mut game).unwrap();
    assert_eq!(game.score.score, 5);
    assert!(game.world.items.get(&there).unwrap()[0].is_none());
    assert_eq!(
        execute_use_building(there, &game).err(),
        Some(Status::ActionFail("no item to digitize"))
    );
}

#[test]
fn construct_places_building() {
    let data = test_data();
    let mut game = Game::new(Coordinate { x: 1, y: 1 }, data);
    let at = Coordinate { x: 0, y: 0 };
    game.spawn(&at).unwrap();
    devtools::grant_item(item(data, "matter_digitizer", 1), at, &game).unwrap().apply(&mut game).unwrap();
    execute_construct(0, at, AbsoluteDirection::N, &game).unwrap().apply(&mut game).unwrap();
    let built = game.world.buildings.get(&at).unwrap().unwrap();
    assert_eq!(built.definition.name, "matter_digitizer");
    assert!(game.get_player_actor().unwrap().inventory.get_items()[0].is_none());
    devtools::grant_item(item(data, "matter_digitizer", 1), at, &game).unwrap().apply(&mut game).unwrap();
    assert_eq!(
        execute_construct(0, at, AbsoluteDirection::N, &game).err(),
        Some(Status::ActionFail("destination full"))
    );
}

#[test]
fn craft_errors() {
    let data = test_data();
    let mut game = Game::new(Coordinate { x: 1, y: 1 }, data);
    let at = Coordinate { x: 0, y: 0 };
    game.spawn(&at).unwrap();
    let recipe = data.recipes.get("echo_crystal").unwrap();
    let craft = act(AbsoluteDirection::N, SubAction::Craft(recipe));
    assert_eq!(game.player_action(craft), Err(Status::ActionFail("no such item in inventory")));
    let player = game.actors.get_player().unwrap();
    let odd: &'static RecipeDefiniton = Box::leak(Box::new(RecipeDefiniton {
        ingredients: vec![],
        ingredient_counts: vec![],
        product: "philosopher_stone".to_string(),
        product_count: 1,
        name: "Stone".to_string(),
    }));
    assert_eq!(
        execute_action(player, act(AbsoluteDirection::N, SubAction::Craft(odd)), &game).err(),
        Some(Status::Error("product undefined"))
    );
}

#[test]
fn refused_action_is_not_recorded() {
    let data = test_data();
    let mut game = Game::new(Coordinate { x: 1, y: 2 }, data);
    let at = Coordinate { x: 0, y: 0 };
    game.spawn(&at).unwrap();
    devtools::grant_item(item(data, "recorder", 1), at, &game).unwrap().apply(&mut game).unwrap();
    RecordingModule::init_record(&mut game, 0).unwrap();
    assert_eq!(
        RecordingModule::init_record(&mut game, 0),
        Err(Status::Error("Attempted to initialize recording twice"))
    );
    let wall = act(AbsoluteDirection::S, SubAction::Move);
    assert_eq!(game.player_action(wall), Err(Status::ActionFail("destination out of bounds")));
    assert_eq!(game.recordings.current_recording.as_ref().unwrap().len(), 0);
    assert_eq!(*game.get_player_coords().unwrap(), at);
    let step = act(AbsoluteDirection::N, SubAction::Move);
    game.player_action(step).unwrap();
    let wait = Action { direction: Direction::Relative(RelativeDirection::R), action: SubAction::Wait };
    game.player_action(wait).unwrap();
    assert_eq!(game.recordings.current_recording.as_ref().unwrap().command_list, vec![step, wait]);
    assert_eq!(game.recordings.last_player_facing, AbsoluteDirection::E);
    assert_eq!(game.get_player_actor().unwrap().facing, AbsoluteDirection::N);
}

#[test]
fn recording_errors() {
    let data = test_data();
    let mut game = Game::new(Coordinate { x: 1, y: 1 }, data);
    assert_eq!(RecordingModule::init_record(&mut game, 0), Err(Status::Error("Player uninitialized")));
    let at = Coordinate { x: 0, y: 0 };
    game.spawn(&at).unwrap();
    assert_eq!(RecordingModule::init_record(&mut game, 0), Err(Status::ActionFail("No item in slot")));
    devtools::grant_item(item(data, "raw_crystal", 1), at, &game).unwrap().apply(&mut game).unwrap();
    assert_eq!(
        RecordingModule::init_record(&mut game, 0),
        Err(Status::ActionFail("Item is not an empty recorder"))
    );
    assert_eq!(
        RecordingModule::end_record(&mut game, true),
        Err(Status::Error("Called end_record without a recording"))
    );
    assert_eq!(RecordingModule::take_item(&mut game), Err(Status::ActionFail("no cloner to take")));
}

#[test]
fn finished_recording_becomes_cloner() {
    let data = test_data();
    let mut game = Game::new(Coordinate { x: 2, y: 2 }, data);
    let at = Coordinate { x: 0, y: 0 };
    game.spawn(&at).unwrap();
    devtools::grant_item(item(data, "recorder", 1), at, &game).unwrap().apply(&mut game).unwrap();
    devtools::grant_item(item(data, "raw_crystal", 4), at, &game).unwrap().apply(&mut game).unwrap();
    RecordingModule::init_record(&mut game, 0).unwrap();
    game.player_action(act(AbsoluteDirection::E, SubAction::Move)).unwrap();
    RecordingModule::end_record(&mut game, true).unwrap();
    assert!(game.recordings.current_recording.is_none());
    let cloner = game.recordings.temp_item.unwrap();
    assert_eq!(cloner.definition.name, "basic_cloner");
    assert_eq!(cloner.quantity, 1);
    let rec = game.recordings.get(cloner.recording.unwrap());
    assert!(rec.should_loop);
    assert_eq!(rec.command_list, vec![act(AbsoluteDirection::E, SubAction::Move)]);
    assert_eq!(rec.inventory.get_items()[1], Some(item(data, "raw_crystal", 4)));
    assert!(rec.inventory.get_items()[0].is_none());
    RecordingModule::take_item(&mut game).unwrap();
    assert_eq!(game.get_player_actor().unwrap().inventory.get_items()[0], Some(cloner));
}

#[test]
fn clone_despawns_at_end_of_recording() {
    let data = test_data();
    let mut game = Game::new(Coordinate { x: 1, y: 3 }, data);
    let at = Coordinate { x: 0, y: 0 };
    game.spawn(&at).unwrap();
    let rec = Recording {
        command_list: vec![act(AbsoluteDirection::N, SubAction::Move)],
        inventory: BasicInventory::new(),
        should_loop: false,
    };
    let id = game.recordings.load_recording(rec);
    devtools::grant_item(Item::new_cloner(data.items.get("basic_cloner").unwrap(), id), at, &game)
        .unwrap()
        .apply(&mut game)
        .unwrap();
    game.player_action(act(AbsoluteDirection::N, SubAction::Use(0))).unwrap();
    assert!(game.world.actors.get(&Coordinate { x: 0, y: 1 }).unwrap().is_some());
    assert!(game.npc_turn_is_safe());
    assert_eq!(game.do_npc_turn(), Ok(true));
    assert!(game.world.actors.get(&Coordinate { x: 0, y: 1 }).unwrap().is_none());
    assert!(game.world.actors.get(&Coordinate { x: 0, y: 2 }).unwrap().is_none());
    assert!(game.event_queue.next_turn.is_empty());
    assert_eq!(game.do_npc_turn(), Ok(false));
}

#[test]
fn looping_clone_requeues_with_wrapped_step() {
    let data = test_data();
    let mut game = Game::new(Coordinate { x: 1, y: 3 }, data);
    let at = Coordinate { x: 0, y: 0 };
    game.spawn(&at).unwrap();
    let rec = Recording {
        command_list: vec![act(AbsoluteDirection::N, SubAction::Wait)],
        inventory: BasicInventory::new(),
        should_loop: true,
    };
    let id = game.recordings.load_recording(rec);
    devtools::grant_item(Item::new_cloner(data.items.get("basic_cloner").unwrap(), id), at, &game)
        .unwrap()
        .apply(&mut game)
        .unwrap();
    game.player_action(act(AbsoluteDirection::N, SubAction::Use(0))).unwrap();
    assert_eq!(game.do_npc_turn(), Ok(true));
    let queued = game.event_queue.next_turn[0];
    assert_eq!(queued.recording, id);
    assert_eq!(queued.recording_idx, 0);
    assert_eq!(queued.actor, TrackableId(1));
}

#[test]
fn despawn_and_remove() {
    let data = test_data();
    let mut game = Game::new(Coordinate { x: 1, y: 1 }, data);
    let at = Coordinate { x: 0, y: 0 };
    game.spawn(&at).unwrap();
    let crystal = item(data, "raw_crystal", 2);
    devtools::grant_item(crystal, at, &game).unwrap().apply(&mut game).unwrap();
    devtools::remove_item(item(data, "raw_crystal", 2), at, &game).unwrap().apply(&mut game).unwrap();
    assert!(game.get_player_actor().unwrap().inventory.get_items()[0].is_none());
    assert_eq!(devtools::despawn_actor(TrackableId(4), &game).err(), Some(Status::OutOfBounds));
    devtools::despawn_actor(TrackableId(0), &game).unwrap().apply(&mut game).unwrap();
    assert!(game.world.actors.get(&at).unwrap().is_none());
    assert_eq!(game.get_player_coords(), Err(Status::OutOfBounds));
}

#[test]
fn start_game_scene() {
    let data = test_data();
    let game = start_game(data);
    assert_eq!(game.world.dimensions(), Coordinate { x: 60, y: 60 });
    assert_eq!(*game.get_player_coords().unwrap(), Coordinate { x: 1, y: 1 });
    let foe = game.world.actors.get(&Coordinate { x: 15, y: 15 }).unwrap().unwrap();
    assert_eq!(foe.descriptor.name, "foe");
    assert_eq!(foe.actor_id, TrackableId(1));
    assert_eq!(game.world.actors.get(&Coordinate { x: 45, y: 15 }).unwrap().unwrap().actor_id, TrackableId(2));
    let ore = game.world.buildings.get(&Coordinate { x: 5, y: 5 }).unwrap().unwrap();
    assert_eq!(ore.definition.name, "crystal_deposit");
    assert_eq!(*game.world.floor.get(&Coordinate { x: 20, y: 20 }).unwrap(), FloorTile::Stone);
    assert_eq!(*game.world.floor.get(&Coordinate { x: 15, y: 30 }).unwrap(), FloorTile::Water);
    assert_eq!(*game.world.floor.get(&Coordinate { x: 30, y: 15 }).unwrap(), FloorTile::Water);
    assert_eq!(*game.world.floor.get(&Coordinate { x: 45, y: 16 }).unwrap(), FloorTile::Water);
    assert_eq!(*game.world.floor.get(&Coordinate { x: 45, y: 45 }).unwrap(), FloorTile::Dirt);
    assert_eq!(*game.world.floor.get(&Coordinate { x: 15, y: 15 }).unwrap(), FloorTile::Dirt);
    assert_eq!(game.event_queue.next_turn.len(), 2);
    assert_eq!(game.event_queue.next_turn[1].actor, TrackableId(2));
    assert_eq!(game.recordings.get(RecordingId { idx: 1 }).len(), 5);
}

#[test]
fn decimal_text() {
    assert_eq!(format_decimal(0), "0");
    assert_eq!(format_decimal(42), "42");
    assert_eq!(format_decimal(-907), "-907");
    assert_eq!(format_decimal(i64::MIN), i64::MIN.to_string());
    assert_eq!(format_decimal(i64::MAX), i64::MAX.to_string());
}

#[test]
fn crafting_menu_text() {
    let data = test_data();
    let recipe = data.recipes.get("echo_crystal").unwrap();
    let entry = CraftingMenuEntry::new(recipe, data);
    assert_eq!(entry.text, "Echo Crystal: Echo Crystal for testing.\n Raw Crystal x 1");
    assert!(std::ptr::eq(entry.definition, recipe));
    let all = get_all_recipes(data);
    assert_eq!(all.len(), 1);
    assert_eq!(all[0].text, entry.text);
}

#[test]
fn index_hands_out_and_recycles_ids() {
    let mut index = Index::new();
    assert_eq!(index.get_next_id(), TrackableId(0));
    index.mut_set(&TrackableId(0), &Coordinate { x: 2, y: 3 }).unwrap();
    index.mut_set(&TrackableId(1), &Coordinate { x: 4, y: 4 }).unwrap();
    assert_eq!(*index.get(&TrackableId(0)).unwrap(), Coordinate { x: 2, y: 3 });
    assert_eq!(index.get_next_id(), TrackableId(2));
    index.remove(TrackableId(0)).unwrap();
    assert_eq!(index.get(&TrackableId(0)), Err(Status::OutOfBounds));
    assert_eq!(index.remove(TrackableId(0)), Err(Status::OutOfBounds));
    assert_eq!(index.get_next_id(), TrackableId(2));
    assert!(index.next_id_fits());
}

#[test]
fn refused_action_does_not_advance_turn() {
    let data = test_data();
    let mut game = Game::new(Coordinate { x: 1, y: 3 }, data);
    let at = Coordinate { x: 0, y: 0 };
    game.spawn(&at).unwrap();
    let rec = Recording {
        command_list: vec![act(AbsoluteDirection::N, SubAction::Move)],
        inventory: BasicInventory::new(),
        should_loop: true,
    };
    let id = game.recordings.load_recording(rec);
    devtools::grant_item(Item::new_cloner(data.items.get("basic_cloner").unwrap(), id), at, &game)
        .unwrap()
        .apply(&mut game)
        .unwrap();
    game.event_queue.next_turn.push_back(ActorEvent { actor: TrackableId(0), recording: id, recording_idx: 0 });
    assert_eq!(
        game.player_action_and_turn(act(AbsoluteDirection::S, SubAction::Move)),
        Err(Status::ActionFail("destination out of bounds"))
    );
    assert_eq!(game.event_queue.next_turn.len(), 1);
    assert!(game.event_queue.this_turn.is_empty());

    game.player_action_and_turn(act(AbsoluteDirection::N, SubAction::Use(0))).unwrap();
    // The clone acted this turn and is queued, with the event pushed before, for the next.
    assert!(game.world.actors.get(&Coordinate { x: 0, y: 2 }).unwrap().is_some());
    assert!(game.world.actors.get(&Coordinate { x: 0, y: 1 }).unwrap().is_none());
    assert!(game.event_queue.next_turn.is_empty());
    assert_eq!(game.event_queue.this_turn.len(), 2);
    assert_eq!(game.event_queue.this_turn[1].actor, TrackableId(1));
}

#[test]
fn drop_then_take_restores() {
    let data = test_data();
    let mut game = Game::new(Coordinate { x: 1, y: 1 }, data);
    let at = Coordinate { x: 0, y: 0 };
    game.spawn(&at).unwrap();
    let crystal = item(data, "raw_crystal", 2);
    let recorder = item(data, "recorder", 1);
    devtools::grant_item(recorder, at, &game).unwrap().apply(&mut game).unwrap();
    devtools::grant_item(crystal, at, &game).unwrap().apply(&mut game).unwrap();
    let before = *game.get_player_actor().unwrap().inventory.get_items();
    execute_drop(1, at, AbsoluteDirection::E, &game).unwrap().apply(&mut game).unwrap();
    assert_eq!(game.world.items.get(&at).unwrap()[0], Some(crystal));
    execute_take(at, AbsoluteDirection::E, &game).unwrap().apply(&mut game).unwrap();
    assert!(game.world.items.get(&at).unwrap()[0].is_none());
    assert_eq!(*game.get_player_actor().unwrap().inventory.get_items(), before);
}

#[test]
fn slot_index_checked_only_where_used() {
    let data = test_data();
    let game = Game::new(Coordinate { x: 1, y: 1 }, data);
    let at = Coordinate { x: 0, y: 0 };
    assert_eq!(execute_drop(5, at, AbsoluteDirection::N, &game).err(), Some(Status::Error("actor Missing")));
    assert_eq!(
        execute_construct(5, at, AbsoluteDirection::N, &game).err(),
        Some(Status::Error("actor Missing"))
    );
    let corner = Coordinate::as_offset(Coordinate { x: i32::MIN, y: 0 }, Coordinate { x: 0, y: 3 }, AbsoluteDirection::N);
    assert_eq!(corner, Coordinate { x: i32::MIN, y: 3 });
}

#[test]
fn new_game_asks_for_no_paradox() {
    let data = test_data();
    let mut game = Game::new(Coordinate { x: 2, y: 2 }, data);
    game.spawn(&Coordinate { x: 0, y: 0 }).unwrap();
    assert!(game.take_paradox_log().is_empty());
}

#[test]
fn digitizing_logs_a_paradox_drain() {
    let data = test_data();
    let mut game = Game::new(Coordinate { x: 2, y: 1 }, data);
    let at = Coordinate { x: 0, y: 0 };
    game.spawn(&at).unwrap();
    let digitizer = data.buildings.get("matter_digitizer").unwrap();
    let there = Coordinate { x: 1, y: 0 };
    game.world.buildings.mut_set(&there, &Some(Building { definition: digitizer })).unwrap();
    game.world.items.mut_set(&there, &[Some(item(data, "echo_crystal", 1))]).unwrap();
    execute_use_building(there, &game).unwrap().apply(&mut game).unwrap();
    assert_eq!(game.take_paradox_log(), vec![ParadoxChange::Drain { at: there, amount: 5 }]);
    assert!(game.take_paradox_log().is_empty());
    assert_eq!(game.score.score, 5);
}

#[test]
fn failed_clone_action_raises_paradox_at_its_cell() {
    let data = test_data();
    let mut game = Game::new(Coordinate { x: 1, y: 2 }, data);
    let at = Coordinate { x: 0, y: 0 };
    game.spawn(&at).unwrap();
    let rec = Recording {
        command_list: vec![act(AbsoluteDirection::N, SubAction::Move)],
        inventory: BasicInventory::new(),
        should_loop: true,
    };
    let id = game.recordings.load_recording(rec);
    devtools::grant_item(Item::new_cloner(data.items.get("basic_cloner").unwrap(), id), at, &game)
        .unwrap()
        .apply(&mut game)
        .unwrap();
    game.player_action(act(AbsoluteDirection::N, SubAction::Use(0))).unwrap();
    assert!(game.take_paradox_log().is_empty());
    let clone_at = Coordinate { x: 0, y: 1 };
    assert_eq!(game.do_npc_turn(), Ok(true));
    assert_eq!(
        game.take_paradox_log(),
        vec![ParadoxChange::Failure { at: clone_at, actor: TrackableId(1) }]
    );
    assert!(game.world.actors.get(&clone_at).unwrap().is_some());
    assert_eq!(game.event_queue.next_turn[0].recording_idx, 0);
}

#[test]
fn crafting_takes_units_across_stacks() {
    let data = test_data();
    let mut game = Game::new(Coordinate { x: 1, y: 1 }, data);
    let at = Coordinate { x: 0, y: 0 };
    game.spawn(&at).unwrap();
    devtools::grant_item(item(data, "raw_crystal", 2), at, &game).unwrap().apply(&mut game).unwrap();
    devtools::grant_item(item(data, "raw_crystal", 1), at, &game).unwrap().apply(&mut game).unwrap();
    let player = game.actors.get_player().unwrap();
    let needs = |count: i64| -> &'static RecipeDefiniton {
        Box::leak(Box::new(RecipeDefiniton {
            ingredients: vec!["raw_crystal".to_string()],
            ingredient_counts: vec![count],
            product: "echo_crystal".to_string(),
            product_count: 1,
            name: "Echo Crystal".to_string(),
        }))
    };
    assert_eq!(
        execute_action(player, act(AbsoluteDirection::N, SubAction::Craft(needs(4))), &game).err(),
        Some(Status::ActionFail("no such item in inventory"))
    );
    execute_action(player, act(AbsoluteDirection::N, SubAction::Craft(needs(3))), &game)
        .unwrap()
        .apply(&mut game)
        .unwrap();
    let slots = game.get_player_actor().unwrap().inventory.get_items();
    assert!(slots[1].is_none());
    assert_eq!(slots[0].unwrap().definition.name, "echo_crystal");
}
