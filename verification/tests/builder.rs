use prototurtle_rs::scripts::model_builder::generation::{Block, CoordXZ};
use prototurtle_rs::scripts::model_builder::runtime::{FStoreModelBuilder, ModelBuilder, ModelBuilderConfig};
use prototurtle_rs::turtle_core::control::{Action, StateFile, TurtControl};
use prototurtle_rs::turtle_core::data::{Json, TurtResponse};
use prototurtle_rs::turtle_core::file_system_storage::{
    fstore_load_or_init, fstore_save, state_path, FStore, Loaded,
};
use prototurtle_rs::turtle_core::heading::Head;
use prototurtle_rs::turtle_core::navigation::{read_nav, FStoreNav, TurtNavigation};
use prototurtle_rs::turtle_core::position::{Pos, PosH};

fn yes() -> TurtResponse {
    TurtResponse::Value(Json::List(vec![Json::Bool(true)]))
}

fn no() -> TurtResponse {
    TurtResponse::Value(Json::List(vec![Json::Bool(false), Json::Text("No items to take".to_string())]))
}

fn free() -> TurtResponse {
    TurtResponse::Value(Json::List(vec![Json::Bool(false), Json::Null]))
}

fn nothing() -> TurtResponse {
    TurtResponse::Value(Json::List(vec![]))
}

fn stack(name: &str, count: i64) -> TurtResponse {
    TurtResponse::Value(Json::List(vec![Json::Object(vec![
        ("name".to_string(), Json::Text(name.to_string())),
        ("count".to_string(), Json::Int(count)),
    ])]))
}

/// A turtle as the builder sees it: slots with stacks, and chests that give or do not give.
struct World {
    slots: Vec<Option<(String, i64)>>,
    chest_gives: bool,
    selected: usize,
    commands: Vec<String>,
    stops: Vec<PosH>,
    progress: Vec<Vec<u8>>,
    sleeps: Vec<u64>,
}

impl World {
    fn new() -> World {
        World {
            slots: vec![None; 16],
            chest_gives: true,
            selected: 0,
            commands: vec![],
            stops: vec![],
            progress: vec![],
            sleeps: vec![],
        }
    }

    fn answer(&mut self, c: &str) -> TurtResponse {
        self.commands.push(c.to_string());
        if let Some(n) = c.strip_prefix("turtle.getItemDetail(") {
            let slot: usize = n.trim_end_matches(')').parse().unwrap();
            return match &self.slots[slot - 1] {
                Some((name, count)) => stack(name, *count),
                None => nothing(),
            };
        }
        if let Some(n) = c.strip_prefix("turtle.select(") {
            self.selected = n.trim_end_matches(')').parse::<usize>().unwrap() - 1;
            return yes();
        }
        match c {
            "turtle.inspect()" | "turtle.inspectUp()" | "turtle.inspectDown()" => free(),
            "turtle.suckDown()" => {
                if !self.chest_gives {
                    return no();
                }
                match self.slots.iter().position(|s| s.is_none()) {
                    Some(i) => {
                        self.slots[i] = Some(("minecraft:terracotta".to_string(), 64));
                        yes()
                    }
                    None => no(),
                }
            }
            "turtle.drop()" => {
                self.slots[self.selected] = None;
                yes()
            }
            "turtle.placeUp()" => {
                if let Some((_, count)) = &mut self.slots[self.selected] {
                    *count -= 1;
                }
                yes()
            }
            _ => yes(),
        }
    }
}

fn corner(stops: &[PosH], from: usize, place: (i64, i64, i64)) -> usize {
    for (i, p) in stops.iter().enumerate().skip(from) {
        if (p.x, p.y, p.z) == place {
            return i;
        }
    }
    panic!("the turtle never came to {:?}", place);
}

/// Drives the builder until it is finished, or until it has slept `naps` times.
fn drive(builder: &mut ModelBuilder, world: &mut World, naps: usize) -> bool {
    let mut reply = None;
    for _ in 0..200_000 {
        assert_eq!(reply.is_some(), builder.awaits_reply());
        match builder.step_with(reply.take(), false) {
            Action::Send(c) => reply = Some(world.answer(&c)),
            Action::Save(StateFile::Nav, text) => {
                let p = read_nav(&text).unwrap();
                assert_eq!(p, *builder.pos());
                world.stops.push(p);
            }
            Action::Save(file, text) => {
                assert_eq!(file, StateFile::ModelBuilder);
                world.progress.push(text);
            }
            Action::Sleep(ms) => {
                world.sleeps.push(ms);
                if world.sleeps.len() >= naps {
                    return false;
                }
            }
            Action::Continue => {}
            Action::Finished => return true,
            Action::Failed(_) => panic!(),
        }
    }
    panic!("the build does not end");
}

fn builder_at(p: PosH, start: Pos, index: usize, max_chests: usize, start_layer: usize) -> ModelBuilder {
    let turt = TurtControl::new();
    let nav = TurtNavigation::new(turt, false, FStoreNav { p });
    let conf = ModelBuilderConfig {
        start_pos: start,
        max_chests,
        allowed_blocks: vec!["minecraft:terracotta".to_string(), "minecraft:red_terracotta".to_string()],
    };
    ModelBuilder::new(7, index, turt, nav, conf, FStoreModelBuilder { start_layer })
}

#[test]
fn empty_layers_are_skipped_without_a_command() {
    let mut builder = builder_at(PosH { x: 0, y: 0, z: 0, h: Head::N }, Pos::new(0, 0, 0), 0, 1, 0);
    let mut world = World::new();
    let layers: Vec<Vec<(CoordXZ, Block)>> = vec![vec![], vec![], vec![]];
    builder.run(layers, 0);
    assert!(drive(&mut builder, &mut world, 1));
    assert!(world.commands.is_empty());
    assert!(world.progress.is_empty());
    assert!(world.stops.is_empty());
}

#[test]
fn a_layer_is_built_from_the_top_down() {
    let mut builder = builder_at(PosH { x: 100, y: 50, z: 100, h: Head::N }, Pos::new(100, 50, 100), 0, 1, 0);
    let mut world = World::new();
    world.slots[2] = Some(("minecraft:terracotta".to_string(), 64));
    let layers = vec![vec![((0, 0), 1), ((0, 1), 1)], vec![], vec![((1, 0), 1)]];
    builder.run(layers, 3);
    assert!(drive(&mut builder, &mut world, 1));
    // The top layer is the last one: it is layer 0 of the progress, the bottom one is layer 2.
    assert_eq!(world.progress, vec![b"0\n".to_vec(), b"2\n".to_vec()]);
    assert_eq!(fstore_save(&FStoreModelBuilder { start_layer: 2 }), b"2\n".to_vec());
    let places: Vec<usize> =
        world.commands.iter().enumerate().filter(|(_, c)| *c == "turtle.placeUp()").map(|(i, _)| i).collect();
    assert_eq!(places.len(), 3);
    let a = corner(&world.stops, 0, (101, 52, 100));
    let b = corner(&world.stops, a, (100, 50, 100));
    corner(&world.stops, b, (100, 50, 101));
    assert_eq!(*builder.pos(), PosH { x: 100, y: 50, z: 101, h: Head::S });
    assert_eq!(builder.curr_slot(), 2);
    assert_eq!(world.slots[2], Some(("minecraft:terracotta".to_string(), 61)));
    // The slot was found by asking for slots 1, 2 and 3, and is selected before every block.
    assert_eq!(
        world.commands[..4],
        ["turtle.getItemDetail(1)", "turtle.getItemDetail(2)", "turtle.getItemDetail(3)", "turtle.select(3)"]
    );
    assert_eq!(world.commands.iter().filter(|c| *c == "turtle.select(3)").count(), 3);
}

#[test]
fn a_build_goes_on_from_the_kept_layer() {
    let mut builder = builder_at(PosH { x: 0, y: 0, z: 0, h: Head::N }, Pos::new(0, 0, 0), 0, 1, 1);
    let mut world = World::new();
    world.slots[0] = Some(("minecraft:terracotta".to_string(), 64));
    let layers = vec![vec![((2, 2), 1)], vec![((1, 1), 1)]];
    builder.run(layers, 2);
    assert!(drive(&mut builder, &mut world, 1));
    assert_eq!(world.progress, vec![b"1\n".to_vec()]);
    assert_eq!(world.commands.iter().filter(|c| *c == "turtle.placeUp()").count(), 1);
    assert_eq!(builder.pos().pos(), Pos::new(2, 0, 2));
}

#[test]
fn refill_ritual() {
    let start = Pos::new(-20, 60, -7);
    let index = 2;
    let from = PosH { x: 10, y: 70, z: 3, h: Head::E };
    let mut builder = builder_at(from, start, index, 4, 0);
    let mut world = World::new();
    // A stack that is used up gives nothing to build with, and it is not of an allowed block.
    world.slots[4] = Some(("minecraft:cobblestone".to_string(), 0));
    builder.inv_update();
    assert!(drive(&mut builder, &mut world, 1));

    // The stone is not among the allowed blocks: it is dropped first.
    let select = world.commands.iter().position(|c| c == "turtle.select(5)").unwrap();
    assert_eq!(world.commands[select + 1], "turtle.drop()");
    assert!(world.commands[..select].iter().all(|c| c.starts_with("turtle.getItemDetail(")));
    assert_eq!(select, 16 + 5);

    let a = corner(&world.stops, 0, (10, 60, 3));
    let b = corner(&world.stops, a, (-18, 60, 3));
    let c = corner(&world.stops, b, (-18, 60, -7));
    let d = corner(&world.stops, c + 1, (-18, 60, 3));
    let e = corner(&world.stops, d, (10, 60, 3));
    let f = corner(&world.stops, e, (10, 70, 3));
    assert!(world.stops[f..].iter().all(|p| (p.x, p.y, p.z) == (10, 70, 3)));
    assert_eq!(*builder.pos(), from);
    assert_eq!(world.commands.iter().filter(|c| *c == "turtle.suckDown()").count(), 16);
    assert!(world.sleeps.is_empty());
    // Back at the build the search is taken up again, and the first slot gives a block.
    assert_eq!(world.commands.last().unwrap(), "turtle.select(1)");
    assert_eq!(builder.curr_slot(), 0);
    assert!(world.progress.is_empty());
}

#[test]
fn empty_chests_are_tried_in_turn_and_waited_for() {
    let start = Pos::new(0, 60, 0);
    let mut builder = builder_at(PosH { x: 0, y: 60, z: 0, h: Head::N }, start, 0, 3, 0);
    let mut world = World::new();
    world.chest_gives = false;
    builder.inv_update();
    assert!(!drive(&mut builder, &mut world, 1));
    assert_eq!(world.sleeps, vec![10_000]);
    assert_eq!(world.commands.iter().filter(|c| *c == "turtle.suckDown()").count(), 16);
    // After every refusal the turtle goes on to the next chest, and from the last to the first.
    let chests: Vec<i64> = world.stops.iter().filter(|p| p.h == Head::N).map(|p| p.z).collect();
    let mut turns = vec![];
    for z in chests {
        if turns.last() != Some(&z) {
            turns.push(z);
        }
    }
    assert_eq!(turns, vec![0, -1, -2, 0, -1, -2, 0, -1, -2, 0, -1, -2, 0, -1, -2, 0, -1]);
    assert!(!drive(&mut builder, &mut world, 2));
    assert_eq!(world.sleeps, vec![10_000, 10_000]);
    assert_eq!(world.commands.iter().filter(|c| *c == "turtle.suckDown()").count(), 32);
    world.chest_gives = true;
    assert!(drive(&mut builder, &mut world, 3));
    assert_eq!(*builder.pos(), PosH { x: 0, y: 60, z: 0, h: Head::N });
}

#[test]
fn progress_round_trip() {
    for start_layer in [0, 1, 9, 10, 199, usize::MAX] {
        let state = FStoreModelBuilder { start_layer };
        assert_eq!(FStoreModelBuilder::load(&state.save()), Some(state));
    }
    assert_eq!(FStoreModelBuilder { start_layer: 42 }.save(), b"42\n".to_vec());
    assert_eq!(FStoreModelBuilder::load(b"17"), Some(FStoreModelBuilder { start_layer: 17 }));
    assert_eq!(FStoreModelBuilder::load(b"-1\n"), None);
    assert_eq!(FStoreModelBuilder::load(b"\n"), None);
    assert_eq!(FStoreModelBuilder::load(b"99999999999999999999999\n"), None);
}

#[test]
fn state_is_loaded_or_begun() {
    match fstore_load_or_init::<FStoreNav>(None) {
        Loaded::Created(state, text) => {
            assert_eq!(state.p, PosH { x: 0, y: 0, z: 0, h: Head::N });
            assert_eq!(text, b"0\n0\n0\nn\n".to_vec());
        }
        _ => panic!(),
    }
    match fstore_load_or_init::<FStoreNav>(Some(b"4\n5\n-6\nw\n")) {
        Loaded::Read(state) => assert_eq!(state.p, PosH { x: 4, y: 5, z: -6, h: Head::W }),
        _ => panic!(),
    }
    assert!(matches!(fstore_load_or_init::<FStoreNav>(Some(b"4\n5\n")), Loaded::Unreadable));
    match fstore_load_or_init::<FStoreModelBuilder>(None) {
        Loaded::Created(state, text) => {
            assert_eq!(state.start_layer, 0);
            assert_eq!(text, b"0\n".to_vec());
        }
        _ => panic!(),
    }
}

#[test]
fn state_files_are_named_by_the_turtle() {
    assert_eq!(state_path(StateFile::Nav, 12), "positions/12.nav");
    assert_eq!(state_path(StateFile::ModelBuilder, 4), "progress/4.modelbuilder");
    assert_eq!(state_path(StateFile::ChunkDigger, 0), "progress/0.chunkdigger");
    assert_eq!(state_path(StateFile::SillyBuilder, 1000), "progress/1000.turtle");
}
