use prototurtle_rs::multi_builder::{chests_needed, nodes_to_mst_to_path, MultiBuilder};
use prototurtle_rs::scripts::chunk_digger::FStoreChunkDigger;
use prototurtle_rs::scripts::model_builder::clustering::ArrayModel;
use prototurtle_rs::scripts::silly_builder::{silly_heading, SillyBuilder};
use prototurtle_rs::single_builder::control::{BuildController, START_HEIGHT};
use prototurtle_rs::single_builder::simple_searcher::SimpleSearcher;
use prototurtle_rs::turtle_core::control::{Action, StateFile, TurtControl};
use prototurtle_rs::turtle_core::data::{Json, TurtResponse};
use prototurtle_rs::turtle_core::heading::Head;
use prototurtle_rs::turtle_core::navigation::{FStoreNav, TurtNavigation};
use prototurtle_rs::turtle_core::position::{Pos, PosH};

fn yes() -> TurtResponse {
    TurtResponse::Value(Json::List(vec![Json::Bool(true)]))
}

fn free() -> TurtResponse {
    TurtResponse::Value(Json::List(vec![Json::Bool(false), Json::Null]))
}

fn stack(count: i64) -> TurtResponse {
    TurtResponse::Value(Json::List(vec![Json::Object(vec![
        ("name".to_string(), Json::Text("minecraft:stone".to_string())),
        ("count".to_string(), Json::Int(count)),
    ])]))
}

fn answer(c: &str) -> TurtResponse {
    if c.starts_with("turtle.inspect") {
        free()
    } else if c.starts_with("turtle.getItemDetail(") {
        stack(64)
    } else {
        yes()
    }
}

fn nav_at(x: i64, y: i64, z: i64) -> TurtNavigation {
    TurtNavigation::new(TurtControl::new(), false, FStoreNav { p: PosH { x, y, z, h: Head::N } })
}

struct Trace {
    commands: Vec<String>,
    placed_at: Vec<PosH>,
    kept: Vec<(StateFile, Vec<u8>)>,
    sleeps: usize,
}

trait Machine {
    fn awaits(&self) -> bool;
    fn one_step(&mut self, reply: Option<TurtResponse>) -> Action;
    fn place(&self) -> PosH;
}

impl Machine for SillyBuilder {
    fn awaits(&self) -> bool {
        self.awaits_reply()
    }
    fn one_step(&mut self, reply: Option<TurtResponse>) -> Action {
        self.step_with(reply, false)
    }
    fn place(&self) -> PosH {
        *self.pos()
    }
}

impl Machine for BuildController {
    fn awaits(&self) -> bool {
        self.awaits_reply()
    }
    fn one_step(&mut self, reply: Option<TurtResponse>) -> Action {
        self.step_with(reply, false)
    }
    fn place(&self) -> PosH {
        *self.pos()
    }
}

impl Machine for MultiBuilder {
    fn awaits(&self) -> bool {
        self.awaits_reply()
    }
    fn one_step(&mut self, reply: Option<TurtResponse>) -> Action {
        self.step_with(reply, false)
    }
    fn place(&self) -> PosH {
        *self.pos()
    }
}

fn drive<M: Machine>(m: &mut M, mut answer: impl FnMut(&str) -> TurtResponse) -> Trace {
    let mut trace = Trace { commands: vec![], placed_at: vec![], kept: vec![], sleeps: 0 };
    let mut reply = None;
    for _ in 0..200_000 {
        assert_eq!(reply.is_some(), m.awaits());
        match m.one_step(reply.take()) {
            Action::Send(c) => {
                if c.starts_with("turtle.place") {
                    trace.placed_at.push(m.place());
                }
                reply = Some(answer(&c));
                trace.commands.push(c);
            }
            Action::Save(StateFile::Nav, _) => {}
            Action::Save(file, text) => trace.kept.push((file, text)),
            Action::Sleep(_) => trace.sleeps += 1,
            Action::Continue => {}
            Action::Finished => return trace,
            Action::Failed(f) => panic!("{:?}", f),
        }
    }
    panic!("the build does not end");
}

#[test]
fn solid_shape_is_built_along_the_snake_line() {
    let blocks = vec![vec![vec![true, false]], vec![vec![false, true]]];
    let mut b = SillyBuilder::init(blocks, TurtControl::new(), nav_at(0, 0, 0), FStoreChunkDigger { layer: 0, stack_count: 0 });
    b.set_corners(Pos::new(1, 0, 1), Pos::new(0, 0, 0));
    assert!(b.covers());
    b.run();
    let trace = drive(&mut b, answer);
    assert_eq!(
        trace.placed_at,
        vec![PosH { x: 0, y: 1, z: 1, h: Head::N }, PosH { x: 1, y: 1, z: 1, h: Head::S }]
    );
    let handled: Vec<&String> =
        trace.commands.iter().filter(|c| c.starts_with("turtle.select") || c.starts_with("turtle.place")).collect();
    assert_eq!(handled, vec!["turtle.select(1)", "turtle.placeDown()", "turtle.placeDown()"]);
    assert_eq!(trace.kept, vec![(StateFile::SillyBuilder, b"1\n0\n".to_vec())]);
    assert_eq!(*b.pos(), PosH { x: 0, y: 0, z: 1, h: Head::N });
}

#[test]
fn solid_shape_needs_a_cell_for_every_spot() {
    let blocks = vec![vec![vec![true, false]]];
    let mut b = SillyBuilder::init(blocks, TurtControl::new(), nav_at(0, 0, 0), FStoreChunkDigger { layer: 0, stack_count: 0 });
    assert!(b.covers());
    b.set_corners(Pos::new(0, 0, 0), Pos::new(0, 0, 1));
    assert!(b.covers());
    b.set_corners(Pos::new(0, 0, 0), Pos::new(0, 1, 1));
    assert!(!b.covers());
    b.set_corners(Pos::new(0, 0, 0), Pos::new(1, 0, 1));
    assert!(!b.covers());
    b.set_corners(Pos::new(0, 0, 0), Pos::new(0, 0, 2));
    assert!(!b.covers());
}

#[test]
fn snake_line_of_the_solid_shape() {
    assert_eq!(silly_heading(false, false, false), Head::N);
    assert_eq!(silly_heading(false, false, true), Head::S);
    assert_eq!(silly_heading(false, true, false), Head::S);
    assert_eq!(silly_heading(false, true, true), Head::N);
    assert_eq!(silly_heading(true, false, false), Head::S);
    assert_eq!(silly_heading(true, false, true), Head::N);
    assert_eq!(silly_heading(true, true, false), Head::S);
    assert_eq!(silly_heading(true, true, true), Head::N);
}

#[test]
fn a_slot_is_selected_every_sixty_four_blocks() {
    let blocks = vec![vec![vec![true; 130]]];
    let mut b = SillyBuilder::init(blocks, TurtControl::new(), nav_at(0, 0, 0), FStoreChunkDigger { layer: 0, stack_count: 0 });
    b.set_corners(Pos::new(0, 0, 0), Pos::new(0, 0, 129));
    b.run();
    let trace = drive(&mut b, answer);
    let handled: Vec<(usize, &String)> = trace
        .commands
        .iter()
        .filter(|c| c.starts_with("turtle.select") || c.starts_with("turtle.place"))
        .enumerate()
        .filter(|(_, c)| c.starts_with("turtle.select"))
        .collect();
    let selects: Vec<(usize, &str)> = handled.iter().map(|(i, c)| (*i, c.as_str())).collect();
    assert_eq!(selects, vec![(0, "turtle.select(1)"), (65, "turtle.select(2)"), (130, "turtle.select(3)")]);
    assert_eq!(trace.placed_at.len(), 130);
}

fn tower() -> Vec<Vec<Vec<bool>>> {
    let mut model = vec![vec![vec![false; 2]; START_HEIGHT + 2]; 2];
    model[0][START_HEIGHT][0] = true;
    model[1][START_HEIGHT][1] = true;
    model[1][START_HEIGHT + 1][0] = true;
    model[0][3][1] = true;
    model
}

#[test]
fn lone_builder_visits_nearest_first() {
    let mut b = BuildController::new(tower(), TurtControl::new(), nav_at(5, 0, 5));
    assert_eq!(b.count_blocks(), Some(4));
    b.run();
    let trace = drive(&mut b, answer);
    let h = START_HEIGHT as i64;
    let at: Vec<(i64, i64, i64)> = trace.placed_at.iter().map(|p| (p.x, p.y, p.z)).collect();
    assert_eq!(at, vec![(5, h + 1, 5), (6, h + 1, 6), (6, h + 2, 5)]);
    assert!(trace.commands.iter().all(|c| c != "turtle.placeUp()"));
    // Before the first block the turtle takes sixteen stacks from the first chest.
    let first_place = trace.commands.iter().position(|c| c == "turtle.placeDown()").unwrap();
    let before: Vec<&String> = trace.commands[..first_place]
        .iter()
        .filter(|c| c.starts_with("turtle.select") || c.starts_with("turtle.suck"))
        .collect();
    assert_eq!(before.len(), 33);
    for s in 0..16 {
        assert_eq!(*before[2 * s], format!("turtle.select({})", s + 1));
        assert_eq!(before[2 * s + 1], "turtle.suckDown()");
    }
    assert_eq!(before[32], "turtle.select(1)");
    assert_eq!(trace.commands.iter().filter(|c| *c == "turtle.suckDown()").count(), 16);
    assert_eq!(trace.sleeps, 0);
}

#[test]
fn lone_builder_refill_on_its_own() {
    let mut b = BuildController::new(tower(), TurtControl::new(), nav_at(1, 2, 3));
    b.refill_inv();
    let trace = drive(&mut b, answer);
    assert_eq!(trace.commands.iter().filter(|c| *c == "turtle.suckDown()").count(), 16);
    assert_eq!(trace.commands.last().unwrap(), "turtle.select(1)");
    // The chests stand where the build began: at the origin, as no build was begun.
    assert_eq!(*b.pos(), PosH { x: 0, y: 0, z: 0, h: Head::N });
}

#[test]
fn nearest_first_search() {
    let mut s = SimpleSearcher::new(vec![(0, 0), (0, 2), (1, 1)]);
    assert_eq!(s.heuristic, vec![vec![0, 2, 1], vec![1, 2, 0], vec![2, 0, 1]]);
    assert_eq!(SimpleSearcher::heuristic(&(0, 0), &(0, 3)), 4);
    assert_eq!(SimpleSearcher::heuristic(&(0, 0), &(1, 1)), 2);
    assert_eq!(SimpleSearcher::heuristic(&(1, 1), &(1, 1)), 1);
    assert_eq!(SimpleSearcher::heuristic(&(0, 0), &(usize::MAX, usize::MAX)), usize::MAX);
    assert_eq!(s.find_closest(&(0, 1)), Some(0));
    assert_eq!(s.find_closest(&(2, 2)), Some(2));
    assert_eq!(s.get_node(&(0, 2)), Some(&(false, (0, 2))));
    assert_eq!(s.get_node(&(5, 5)), None);
    assert_eq!(s.next_node(0), Some(0));
    assert_eq!(s.next_node(0), Some(2));
    assert_eq!(s.get_node(&(1, 1)), Some(&(true, (1, 1))));
    assert_eq!(s.next_node(2), Some(1));
    assert_eq!(s.next_node(1), None);
    let empty = SimpleSearcher::new(vec![]);
    assert_eq!(empty.find_closest(&(0, 0)), None);
}

#[test]
fn chests_for_a_number_of_blocks() {
    assert_eq!(chests_needed(0), 0);
    assert_eq!(chests_needed(1), 1);
    assert_eq!(chests_needed(1728), 1);
    assert_eq!(chests_needed(1729), 2);
    assert_eq!(chests_needed(usize::MAX), usize::MAX / 1728 + 1);
}

#[test]
fn children_of_the_spanning_tree() {
    assert_eq!(nodes_to_mst_to_path(&vec![((0, 0), 1), ((1, 0), 1), ((2, 0), 1)]), vec![1, 2]);
    assert_eq!(nodes_to_mst_to_path(&vec![((3, 3), 1)]), Vec::<usize>::new());
    assert_eq!(nodes_to_mst_to_path(&vec![]), Vec::<usize>::new());
    let mut grid = vec![];
    for x in 0..3 {
        for z in 0..3 {
            grid.push(((x, z), 1));
        }
    }
    assert_eq!(nodes_to_mst_to_path(&grid), vec![1, 3, 6, 2, 4, 7, 5, 8]);
}

#[test]
fn shared_builder_in_its_first_form() {
    let mut b = MultiBuilder::new(2, PosH { x: 10, y: 20, z: 30, h: Head::N }, TurtControl::new(), nav_at(0, 0, 0));
    b.get_or_init_progress(FStoreChunkDigger { layer: 1, stack_count: 5 });
    assert_eq!(b.save_progress(), b"1\n5\n".to_vec());
    let layers = vec![
        vec![((9, 9), 1), ((8, 8), 1)],
        vec![((0, 0), 1), ((1, 0), 1), ((2, 0), 1)],
        vec![],
        vec![((4, 4), 1)],
    ];
    b.run(layers, 3000);
    let trace = drive(&mut b, answer);
    // Two chests are put down first, one behind the other, beside the anchor.
    let chests: Vec<(i64, i64, i64)> = trace.placed_at.iter().take(2).map(|p| (p.x, p.y, p.z)).collect();
    assert_eq!(chests, vec![(12, 20, 30), (12, 20, 29)]);
    assert_eq!(trace.commands.iter().filter(|c| *c == "turtle.digDown()").count(), 2);
    // The layers above the kept one are built from the top: the single node of the top layer
    // is the root of its tree and is passed over, and so is the first node of layer 1.
    assert_eq!(trace.commands.iter().filter(|c| *c == "turtle.placeUp()").count(), 4);
    let built: Vec<(i64, i64, i64)> = trace.placed_at[2..].iter().map(|p| (p.x, p.y, p.z)).collect();
    assert_eq!(built, vec![(11, 21, 30), (11, 21, 30), (12, 21, 30), (12, 21, 30)]);
    assert_eq!(
        trace.kept,
        vec![(StateFile::ModelBuilder, b"3\n5\n".to_vec()), (StateFile::ModelBuilder, b"1\n5\n".to_vec())]
    );
    assert_eq!(trace.commands.iter().filter(|c| *c == "turtle.suckDown()").count(), 16);
    assert_eq!(trace.sleeps, 0);
}

#[test]
fn shared_builder_waits_until_it_is_full() {
    let mut b = MultiBuilder::new(0, PosH { x: 0, y: 0, z: 0, h: Head::N }, TurtControl::new(), nav_at(0, 0, 0));
    b.update_inv();
    let mut asked = 0;
    let trace = drive(&mut b, |c| {
        if c.starts_with("turtle.getItemDetail(") {
            asked += 1;
            if asked <= 16 {
                TurtResponse::Value(Json::List(vec![]))
            } else {
                stack(64)
            }
        } else {
            answer(c)
        }
    });
    assert_eq!(trace.sleeps, 1);
    assert_eq!(asked, 32);
    assert_eq!(trace.commands.last().unwrap(), "turtle.select(1)");
}

#[test]
fn nodes_of_a_grid() {
    let mut model = ArrayModel::new((1, 2, 2));
    model.set((0, 1, 1), 9);
    assert_eq!(MultiBuilder::get_nodes(model), vec![vec![], vec![((0, 1), 9)]]);
}

#[test]
fn solid_shape_goes_on_from_the_kept_level() {
    let blocks = vec![vec![vec![true], vec![true], vec![true]]];
    let mut b = SillyBuilder::init(blocks, TurtControl::new(), nav_at(0, 0, 0), FStoreChunkDigger { layer: 0, stack_count: 0 });
    b.set_corners(Pos::new(0, 0, 0), Pos::new(0, 2, 0));
    b.get_or_init_progress(FStoreChunkDigger { layer: 2, stack_count: 7 });
    assert_eq!(b.save_progress(), b"2\n7\n".to_vec());
    b.run();
    let trace = drive(&mut b, answer);
    assert_eq!(trace.placed_at, vec![PosH { x: 0, y: 3, z: 0, h: Head::N }]);
    assert_eq!(trace.kept, vec![(StateFile::SillyBuilder, b"3\n7\n".to_vec())]);
}
