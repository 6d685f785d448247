use clone_factory::action::{execute_action, execute_craft, execute_move, execute_take, execute_use_cloner, Action, SubAction};
use clone_factory::actor::Actor;
use clone_factory::datatypes::Coordinate;
use clone_factory::devtools;
use clone_factory::direction::AbsoluteDirection;
use clone_factory::direction::Direction::Absolute;
use clone_factory::engine::tracking_worldlayer::TrackableId;
use clone_factory::engine::update::{Delta, UpdatableContainer, UpdatableContainerDelta};
use clone_factory::game_state::game::Game;
use clone_factory::game_state::world::{World, WorldUpdate};
use clone_factory::inventory::Item;
use clone_factory::recording::interface::RecordingModule;
use clone_factory::recording::Recording;
use clone_factory::static_data::{AppearanceDefiniton, Data, ObjectDescriptor, ObjectText, RecipeDefiniton};

fn object(name: &str, shown: &str, on_use: Option<&str>, on_interact: Option<&str>, score: Option<i64>) -> ObjectDescriptor {
    ObjectDescriptor {
        name: name.to_string(),
        score_value: score,
        hp: None,
        on_use: on_use.map(|s| s.to_string()),
        on_use_fn: None,
        on_interact: on_interact.map(|s| s.to_string()),
        on_interact_fn: None,
        text: ObjectText { name: shown.to_string(), description: format!("{} for testing.", shown) },
        appearance: AppearanceDefiniton {
            glyph: "?".to_string(),
            glyph_n: None,
            glyph_s: None,
            glyph_e: None,
            glyph_w: None,
            texture: None,
            color: "white".to_string(),
        },
    }
}

/// The definitions the tests play with, bound as a loaded data file is.
fn test_data() -> &'static Data {
    let mut data = Data::new();
    for (name, shown) in [("player", "Player"), ("foe", "Foe"), ("clone", "Clone")] {
        data.actors.insert(&name.to_string(), object(name, shown, None, None, None));
    }
    data.buildings.insert(
        &"crystal_deposit".to_string(),
        object("crystal_deposit", "Crystal Deposit", None, Some("building_mine"), None),
    );
    data.buildings.insert(
        &"matter_digitizer".to_string(),
        object("matter_digitizer", "Matter Digitizer", Some("action_construct"), Some("building_digitize"), None),
    );
    data.items.insert(&"raw_crystal".to_string(), object("raw_crystal", "Raw Crystal", None, None, Some(1)));
    data.items.insert(&"echo_crystal".to_string(), object("echo_crystal", "Echo Crystal", None, None, Some(5)));
    data.items.insert(
        &"basic_cloner".to_string(),
        object("basic_cloner", "Basic Cloner", Some("action_use_cloner"), None, None),
    );
    data.items.insert(&"recorder".to_string(), object("recorder", "Recorder", None, None, None));
    data.items.insert(
        &"matter_digitizer".to_string(),
        object("matter_digitizer", "Matter Digitizer", Some("action_construct"), None, None),
    );
    data.recipes.insert(
        &"echo_crystal".to_string(),
        RecipeDefiniton {
            ingredients: vec!["raw_crystal".to_string()],
            ingredient_counts: vec![1],
            product: "echo_crystal".to_string(),
            product_count: 1,
            name: "Echo Crystal".to_string(),
        },
    );
    data.bind_functions();
    Box::leak(Box::new(data))
}

struct StaticDataSample {
    foo: i8,
    bar: i8,
}

struct Container1<'pseudostatic> {
    foo: &'pseudostatic StaticDataSample,
}

struct Container2<'pseudostatic> {
    c1: Container1<'pseudostatic>,
}

#[test]
fn testme() {
    let staticky = StaticDataSample { foo: 1, bar: 1 };
    let mut c2 = Some(Container2 { c1: { Container1 { foo: &staticky } } });

    let c_new = Container1 { foo: c2.unwrap().c1.foo };

    c2 = None;
    assert!(c2.is_none());
    assert_eq!(staticky.foo, 1);

    assert_eq!(c_new.foo.bar, staticky.bar);
}

#[test]
fn move_action() {
    let data = test_data();
    let mut game = Game::new(Coordinate { x: 1, y: 2 }, data);

    let location = Coordinate { x: 0, y: 1 };
    assert!(game.spawn(&location).is_ok());
    let update = execute_move(location, AbsoluteDirection::S, &game);
    assert!(update.is_ok());
    update.unwrap().apply(&mut game).unwrap();

    let start = game.world.actors.get(&location).unwrap();
    let end = game.world.actors.get(&Coordinate { x: 0, y: 0 }).unwrap();

    assert!(start.is_none());
    assert!(end.is_some());
}

#[test]
fn take_action() {
    let data = test_data();
    let mut game = Game::new(Coordinate { x: 1, y: 1 }, data);

    let location = Coordinate { x: 0, y: 0 };
    let item_def = data.items.get(&"raw_crystal".to_string()).unwrap();

    let foo = Item::new(item_def, 1);
    game.world.items.mut_set(&location, &[Some(foo)]).unwrap();

    assert!(game.spawn(&location).is_ok());

    let update = execute_take(location, AbsoluteDirection::S, &game);
    update.unwrap().apply(&mut game).unwrap();

    let actor = game.world.actors.get(&location).unwrap();
    assert_eq!(actor.unwrap().inventory.get_items()[0].unwrap(), foo);
    let floor = game.world.items.get(&location).unwrap();
    assert!(floor[0].is_none());
}

#[test]
fn use_cloner() {
    let data = test_data();
    let mut game = Game::new(Coordinate { x: 1, y: 2 }, data);

    let location = Coordinate { x: 0, y: 0 };
    assert!(game.spawn(&location).is_ok());

    let actions = vec![
        Action { direction: Absolute(AbsoluteDirection::N), action: SubAction::Move },
        Action { direction: Absolute(AbsoluteDirection::N), action: SubAction::Move },
    ];

    let sample_recording_id = game.recordings.recordings.register_recording(Recording {
        command_list: actions,
        inventory: Default::default(),
        should_loop: true,
    });
    let cloner_def = data.items.get(&"basic_cloner".to_string()).unwrap();
    let new_cloner = Item::new_cloner(cloner_def, sample_recording_id);
    let update = devtools::grant_item(new_cloner, location, &game).unwrap();
    update.apply(&mut game).unwrap();

    let update = execute_use_cloner(0, location, AbsoluteDirection::N, &game);
    update.unwrap().apply(&mut game).unwrap();

    let start = game.world.actors.get(&location).unwrap();
    let end = game.world.actors.get(&Coordinate { x: 0, y: 1 }).unwrap();
    assert!(start.is_some());
    assert!(end.is_some());
}

#[test]
fn craft() {
    let data = test_data();
    let mut game = Game::new(Coordinate { x: 1, y: 2 }, data);

    let location = Coordinate { x: 0, y: 0 };
    assert!(game.spawn(&location).is_ok());
    let item_def = data.items.get(&"raw_crystal".to_string()).unwrap();
    let update = devtools::grant_item(Item::new(item_def, 2), location, &game).unwrap();

    update.apply(&mut game).unwrap();

    let recipe = game.data.recipes.get(&"echo_crystal".to_string()).unwrap();
    let update = execute_craft(recipe, location, AbsoluteDirection::N, &game);
    update.unwrap().apply(&mut game).unwrap();

    let actor = game.world.actors.get(&location).unwrap();
    let crafted_item = actor.unwrap().inventory.get_items()[1].unwrap();

    assert_eq!(crafted_item.definition.text.name, "Echo Crystal");
}

#[test]
fn record() {
    let data = test_data();
    let mut game = Game::new(Coordinate { x: 1, y: 2 }, data);

    assert!(game.spawn(&Coordinate { x: 0, y: 0 }).is_ok());

    let recorder_def = data.items.get(&"recorder".to_string()).unwrap();
    let item = Item::new(recorder_def, 1);
    let update = devtools::grant_item(item, *game.get_player_coords().unwrap(), &game).unwrap();

    update.apply(&mut game).unwrap();

    RecordingModule::init_record(&mut game, 0).unwrap();

    let actions = [
        Action { direction: Absolute(AbsoluteDirection::N), action: SubAction::Move },
        Action { direction: Absolute(AbsoluteDirection::S), action: SubAction::Move },
    ];

    game.player_action(actions[0]).unwrap();
    game.player_action(actions[1]).unwrap();

    RecordingModule::end_record(&mut game, false).unwrap();
    RecordingModule::take_item(&mut game).unwrap();

    let actor = game.world.actors.get(&game.get_player_coords().unwrap()).unwrap();
    let recorder = actor.unwrap().inventory.get_items()[0].unwrap();
    let recoding = game.recordings.get(recorder.recording.unwrap());
    assert_eq!(recoding.command_list, actions);
}

#[test]
fn clone() {
    let data = test_data();
    let mut game = Game::new(Coordinate { x: 1, y: 3 }, data);

    assert!(game.spawn(&Coordinate { x: 0, y: 0 }).is_ok());

    let actions = vec![
        Action { direction: Absolute(AbsoluteDirection::N), action: SubAction::Move },
        Action { direction: Absolute(AbsoluteDirection::N), action: SubAction::Move },
    ];

    let sample_recording_id = game.recordings.recordings.register_recording(Recording {
        command_list: actions,
        inventory: Default::default(),
        should_loop: true,
    });
    let cloner_def = data.items.get(&"basic_cloner".to_string()).unwrap();
    let new_cloner = Item::new_cloner(cloner_def, sample_recording_id);
    let update = devtools::grant_item(new_cloner, *game.get_player_coords().unwrap(), &game).unwrap();
    update.apply(&mut game).unwrap();

    let update = execute_action(
        game.actors.get_player().unwrap(),
        Action { direction: Absolute(AbsoluteDirection::N), action: SubAction::Use(0) },
        &game,
    )
    .unwrap();
    update.apply(&mut game).unwrap();

    let dest = game.world.actors.get(&Coordinate { x: 0, y: 2 }).unwrap();
    assert!(dest.is_none());

    game.do_npc_turns().unwrap();

    let dest = game.world.actors.get(&Coordinate { x: 0, y: 2 }).unwrap();
    assert!(dest.is_some());
}

#[test]
fn world_create() {
    let w = World::new(Coordinate { x: 1, y: 1 });
    assert!(w.actors.in_bounds(&Coordinate { x: 0, y: 0 }));
    assert!(w.actors.get(&Coordinate { x: 0, y: 0 }).is_ok());
}

#[test]
fn world_mutate() {
    let data = test_data();
    let mut w = World::new(Coordinate { x: 1, y: 1 });
    let location = Coordinate { x: 0, y: 0 };
    let oldcell = *w.actors.get(&location).unwrap();
    let newcell = Some(Actor::new(data.actors.get("player").unwrap(), TrackableId(0)));

    assert_ne!(oldcell, newcell); // Sanity check to ensure we actually mutate.
    w.actors.mut_set(&location, &newcell).unwrap();
    assert_eq!(*w.actors.get(&Coordinate { x: 0, y: 0 }).unwrap(), newcell);
}

#[test]
fn world_update() {
    let data = test_data();

    let mut w = World::new(Coordinate { x: 1, y: 1 });
    let location = Coordinate { x: 0, y: 0 };
    let mut update = WorldUpdate::new();

    let actor = *update.actor_updates.get(&w.actors, &location).unwrap();

    assert!(actor.is_none());
    let newcell = Some(Actor::new(data.actors.get("player").unwrap(), TrackableId(0)));
    update.actor_updates.set(&location, &newcell).unwrap();

    update.apply(&mut w).unwrap();
    assert!(w.actors.get(&Coordinate { x: 0, y: 0 }).unwrap().is_some());
}
