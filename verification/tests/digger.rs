use prototurtle_rs::scripts::chunk_digger::{column_heading, ChunkDigger, ChunkDiggerConfig, FStoreChunkDigger};
use prototurtle_rs::turtle_core::control::{Action, Failure, StateFile, TurtControl};
use prototurtle_rs::turtle_core::data::{Json, TurtResponse};
use prototurtle_rs::turtle_core::file_system_storage::FStore;
use prototurtle_rs::turtle_core::heading::Head;
use prototurtle_rs::turtle_core::inventory::TurtBlock;
use prototurtle_rs::turtle_core::navigation::{read_nav, FStoreNav, TurtNavigation};
use prototurtle_rs::turtle_core::position::{Pos, PosH};

fn yes() -> TurtResponse {
    TurtResponse::Value(Json::List(vec![Json::Bool(true)]))
}

fn free() -> TurtResponse {
    TurtResponse::Value(Json::List(vec![Json::Bool(false), Json::Null]))
}

fn nothing() -> TurtResponse {
    TurtResponse::Value(Json::List(vec![]))
}

fn stack(count: i64) -> TurtResponse {
    TurtResponse::Value(Json::List(vec![Json::Object(vec![
        ("name".to_string(), Json::Text("minecraft:cobblestone".to_string())),
        ("count".to_string(), Json::Int(count)),
    ])]))
}

struct Trace {
    commands: Vec<String>,
    stops: Vec<PosH>,
    progress: Vec<Vec<u8>>,
    sleeps: Vec<u64>,
    failed: Option<Failure>,
}

fn drive(digger: &mut ChunkDigger, mut answer: impl FnMut(&str, &PosH) -> TurtResponse, naps: usize) -> Trace {
    let mut trace = Trace { commands: vec![], stops: vec![], progress: vec![], sleeps: vec![], failed: None };
    let mut reply = None;
    for _ in 0..500_000 {
        assert_eq!(reply.is_some(), digger.awaits_reply());
        match digger.step_with(reply.take(), false) {
            Action::Send(c) => {
                reply = Some(answer(&c, digger.pos()));
                trace.commands.push(c);
            }
            Action::Save(StateFile::Nav, text) => trace.stops.push(read_nav(&text).unwrap()),
            Action::Save(file, text) => {
                assert_eq!(file, StateFile::ChunkDigger);
                trace.progress.push(text);
            }
            Action::Sleep(ms) => {
                trace.sleeps.push(ms);
                if trace.sleeps.len() >= naps {
                    return trace;
                }
            }
            Action::Continue => {}
            Action::Finished => return trace,
            Action::Failed(f) => {
                trace.failed = Some(f);
                return trace;
            }
        }
    }
    panic!("the mining does not end");
}

fn empty_handed(c: &str, _p: &PosH) -> TurtResponse {
    if c.starts_with("turtle.getItemDetail(") {
        nothing()
    } else if c.starts_with("turtle.inspect") {
        free()
    } else {
        yes()
    }
}

fn digger(p1: Pos, p2: Pos, floor: TurtBlock, progress: FStoreChunkDigger) -> ChunkDigger {
    let turt = TurtControl::new();
    let nav = TurtNavigation::new(turt, false, FStoreNav { p: PosH { x: 0, y: 0, z: 0, h: Head::N } });
    let conf = ChunkDiggerConfig { p1, p2, place_floor: floor, chest_size: 27, check_inv_every_n_blocks: 64 };
    ChunkDigger::init(3, 0, turt, nav, conf, progress)
}

#[test]
fn column_headings() {
    assert_eq!(column_heading(false, true, true), Head::N);
    assert_eq!(column_heading(false, true, false), Head::S);
    assert_eq!(column_heading(false, false, true), Head::S);
    assert_eq!(column_heading(false, false, false), Head::N);
    assert_eq!(column_heading(true, true, true), Head::S);
    assert_eq!(column_heading(true, true, false), Head::N);
    assert_eq!(column_heading(true, false, true), Head::S);
    assert_eq!(column_heading(true, false, false), Head::N);
}

#[test]
fn a_box_is_mined_in_a_snake_line() {
    let mut d = digger(Pos::new(1, 6, 1), Pos::new(0, 0, 0), TurtBlock::Nothing, FStoreChunkDigger { layer: 0, stack_count: 0 });
    d.run();
    let mut visited: Vec<PosH> = vec![];
    let trace = drive(
        &mut d,
        |c, p| {
            if c == "turtle.digUp()" {
                visited.push(*p);
            }
            empty_handed(c, p)
        },
        1,
    );
    assert_eq!(
        visited,
        vec![
            PosH { x: 0, y: 1, z: 0, h: Head::S },
            PosH { x: 0, y: 1, z: 1, h: Head::S },
            PosH { x: 1, y: 1, z: 1, h: Head::N },
            PosH { x: 1, y: 1, z: 0, h: Head::N },
            PosH { x: 1, y: 4, z: 0, h: Head::S },
            PosH { x: 1, y: 4, z: 1, h: Head::S },
            PosH { x: 0, y: 4, z: 1, h: Head::N },
            PosH { x: 0, y: 4, z: 0, h: Head::N },
        ]
    );
    assert_eq!(trace.commands.iter().filter(|c| *c == "turtle.digUp()").count(), 8);
    assert_eq!(trace.commands.iter().filter(|c| *c == "turtle.digDown()").count(), 8);
    assert!(trace.commands.iter().all(|c| c != "turtle.placeDown()"));
    assert_eq!(trace.progress, vec![b"1\n0\n".to_vec(), b"2\n0\n".to_vec()]);
    assert_eq!(*d.pos(), PosH { x: 0, y: 0, z: 1, h: Head::N });
    assert!(trace.failed.is_none());
}

#[test]
fn an_odd_number_of_columns_starts_at_the_far_side() {
    let mut d = digger(Pos::new(0, 0, 0), Pos::new(0, 3, 2), TurtBlock::Nothing, FStoreChunkDigger { layer: 0, stack_count: 0 });
    d.run();
    let mut visited: Vec<PosH> = vec![];
    drive(
        &mut d,
        |c, p| {
            if c == "turtle.digUp()" {
                visited.push(*p);
            }
            empty_handed(c, p)
        },
        1,
    );
    assert_eq!(
        visited,
        vec![
            PosH { x: 0, y: 1, z: 2, h: Head::N },
            PosH { x: 0, y: 1, z: 1, h: Head::N },
            PosH { x: 0, y: 1, z: 0, h: Head::N },
        ]
    );
}

#[test]
fn mining_goes_on_from_the_kept_slab() {
    let mut d = digger(Pos::new(0, 0, 0), Pos::new(0, 7, 0), TurtBlock::Nothing, FStoreChunkDigger { layer: 1, stack_count: 32 });
    d.run();
    let trace = drive(&mut d, empty_handed, 1);
    assert_eq!(trace.commands.iter().filter(|c| *c == "turtle.digUp()").count(), 1);
    assert_eq!(trace.progress, vec![b"2\n32\n".to_vec()]);
}

#[test]
fn a_full_inventory_is_deposited() {
    let mut d = digger(Pos::new(0, 0, 0), Pos::new(0, 3, 0), TurtBlock::Nothing, FStoreChunkDigger { layer: 0, stack_count: 16 });
    d.run();
    let mut full = true;
    let mut drops: Vec<(usize, PosH)> = vec![];
    let mut selected = 0;
    let trace = drive(
        &mut d,
        |c, p| {
            if let Some(n) = c.strip_prefix("turtle.select(") {
                selected = n.trim_end_matches(')').parse::<usize>().unwrap() - 1;
            }
            if c == "turtle.dropDown()" {
                drops.push((selected, *p));
                full = false;
            }
            if c.starts_with("turtle.getItemDetail(") {
                if full { stack(64) } else { nothing() }
            } else {
                empty_handed(c, p)
            }
        },
        1,
    );
    // Sixteen stacks are in the first chest already: eleven more fit, five go to the second.
    assert_eq!(drops.len(), 16);
    for (i, (slot, at)) in drops.iter().enumerate() {
        assert_eq!(*slot, i);
        let z = if i < 11 { 0 } else { -1 };
        assert_eq!(*at, PosH { x: 0, y: 0, z, h: Head::N });
    }
    assert_eq!(trace.progress, vec![b"0\n32\n".to_vec(), b"1\n32\n".to_vec()]);
    assert_eq!(*d.pos(), PosH { x: 0, y: 0, z: 0, h: Head::N });
}

#[test]
fn a_floor_is_laid_from_whatever_is_there() {
    let mut d = digger(Pos::new(0, 0, 0), Pos::new(0, 3, 1), TurtBlock::Any, FStoreChunkDigger { layer: 0, stack_count: 0 });
    d.run();
    let mut asked = 0;
    let trace = drive(
        &mut d,
        |c, p| {
            if c == "turtle.getItemDetail(3)" {
                asked += 1;
                if asked >= 2 { stack(5) } else { nothing() }
            } else if c.starts_with("turtle.getItemDetail(") {
                nothing()
            } else {
                empty_handed(c, p)
            }
        },
        1,
    );
    // The first search finds nothing: the turtle asks for blocks and waits.
    assert_eq!(trace.sleeps, vec![1_000]);
    assert_eq!(trace.commands.last().unwrap(), "print(\"Out of blocks! Please add more.\")");
    let trace = drive(&mut d, |c, p| if c.starts_with("turtle.getItemDetail(") { nothing() } else { empty_handed(c, p) }, 1);
    assert!(trace.sleeps.len() == 1);
    let trace = drive(
        &mut d,
        |c, p| if c == "turtle.getItemDetail(3)" { stack(5) } else if c.starts_with("turtle.getItemDetail(") { nothing() } else { empty_handed(c, p) },
        1,
    );
    let select = trace.commands.iter().position(|c| c == "turtle.select(3)").unwrap();
    assert_eq!(trace.commands[select + 1], "turtle.placeDown()");
    assert_eq!(trace.commands.iter().filter(|c| *c == "turtle.placeDown()").count(), 2);
    assert_eq!(trace.commands.iter().filter(|c| *c == "turtle.select(3)").count(), 1);
}

#[test]
fn the_stack_counter_has_an_end() {
    let mut d = digger(
        Pos::new(0, 0, 0),
        Pos::new(0, 3, 0),
        TurtBlock::Nothing,
        FStoreChunkDigger { layer: 0, stack_count: 0xffff_ffff },
    );
    d.run();
    let trace = drive(&mut d, |c, p| if c.starts_with("turtle.getItemDetail(") { stack(64) } else { empty_handed(c, p) }, 1);
    assert_eq!(trace.failed, Some(Failure::TooManyStacks));
}

#[test]
fn corners_are_put_in_order() {
    let mut d = digger(Pos::new(5, 9, -3), Pos::new(-5, 0, 3), TurtBlock::Nothing, FStoreChunkDigger { layer: 9, stack_count: 0 });
    d.set_corners(Pos::new(2, 5, 2), Pos::new(1, 2, 3));
    d.run();
    let trace = drive(&mut d, empty_handed, 1);
    // One slab, which is done already: the turtle goes to the first chest.
    assert!(trace.progress.is_empty());
    assert_eq!(*d.pos(), PosH { x: 1, y: 2, z: 3, h: Head::N });
}

#[test]
fn digger_progress_round_trip() {
    for (layer, stack_count) in [(0, 0), (3, 48), (usize::MAX, 1), (10, usize::MAX)] {
        let state = FStoreChunkDigger { layer, stack_count };
        assert_eq!(FStoreChunkDigger::load(&state.save()), Some(state));
    }
    assert_eq!(FStoreChunkDigger { layer: 3, stack_count: 48 }.save(), b"3\n48\n".to_vec());
    assert_eq!(FStoreChunkDigger::load(b"3\n"), None);
    assert_eq!(FStoreChunkDigger::load(b"3\nx\n"), None);
    assert_eq!(FStoreChunkDigger::load(b"3\r\n48\r\n"), Some(FStoreChunkDigger { layer: 3, stack_count: 48 }));
}
