//! The controller of a builder that works on its own.

use vstd::prelude::*;
use crate::coords::Order;
use crate::scripts::model_builder::runtime::{LIMIT, REACH};
use crate::single_builder::simple_searcher::{
    coords,
    distances,
    first_free,
    spec_heuristic,
    CoordXZ,
    Placed,
    SimpleSearcher,
};
use crate::sorting::sorted_indices;
use crate::turtle_core::control::{spec_select, Action, ActionView, Failure, TurtControl};
use crate::turtle_core::data::TurtResponse;
use crate::turtle_core::heading::Head;
use crate::turtle_core::navigation::{
    idle,
    journey,
    journey_head,
    journey_head_in,
    spec_step,
    NavState,
    TurtNavigation,
};
use crate::turtle_core::position::{Pos, PosH};

verus! {

/// Number of blocks among the cells below `m` of a line.
pub open spec fn line_blocks(line: Seq<bool>, m: int) -> nat
    decreases m,
{
    if m <= 0 {
        0
    } else {
        line_blocks(line, m - 1) + if line[m - 1] {
            1nat
        } else {
            0nat
        }
    }
}

/// Number of blocks in the lines below `m` of a plane.
pub open spec fn plane_blocks(plane: Seq<Seq<bool>>, m: int) -> nat
    decreases m,
{
    if m <= 0 {
        0
    } else {
        plane_blocks(plane, m - 1) + line_blocks(plane[m - 1], plane[m - 1].len() as int)
    }
}

/// Number of blocks in the planes below `m` of a model.
pub open spec fn model_blocks(model: Seq<Seq<Seq<bool>>>, m: int) -> nat
    decreases m,
{
    if m <= 0 {
        0
    } else {
        model_blocks(model, m - 1) + plane_blocks(model[m - 1], model[m - 1].len() as int)
    }
}

/// The level at which the build begins.
pub const START_HEIGHT: usize = 42;

/// Number of slots of a chest.
pub const CHEST_SIZE: usize = 27;

/// Number of slots of a turtle.
pub const TURT_INV: usize = 16;

/// Largest extent of a model along each axis.
pub const SPAN: usize = 0x3fff_ffff;

/// The cells of level `y` in column `x` that hold a block, as far as their
/// `z` is below `m`.
pub open spec fn column_cells(model: Seq<Seq<Seq<bool>>>, x: int, y: int, m: int) -> Seq<CoordXZ>
    decreases m,
{
    if m <= 0 {
        Seq::empty()
    } else {
        let prev = column_cells(model, x, y, m - 1);
        if model[x][y][m - 1] {
            prev.push((x as usize, (m - 1) as usize))
        } else {
            prev
        }
    }
}

/// The cells of level `y` in the columns below `m` that hold a block,
/// ordered by `x`, then by `z`.
pub open spec fn level_cells(model: Seq<Seq<Seq<bool>>>, y: int, m: int) -> Seq<CoordXZ>
    decreases m,
{
    if m <= 0 {
        Seq::empty()
    } else {
        level_cells(model, y, m - 1) + column_cells(model, m - 1, y, spec_depth(model))
    }
}

/// Number of levels of a model.
pub open spec fn spec_height(model: Seq<Seq<Seq<bool>>>) -> int {
    if model.len() == 0 {
        0
    } else {
        model[0].len() as int
    }
}

/// Extent of a model along z.
pub open spec fn spec_depth(model: Seq<Seq<Seq<bool>>>) -> int {
    if model.len() == 0 || model[0].len() == 0 {
        0
    } else {
        model[0][0].len() as int
    }
}

/// The model is a box: all of its planes and lines have the same extent, and
/// none is larger than a model may be.
pub open spec fn cuboid(model: Seq<Seq<Seq<bool>>>) -> bool {
    &&& model.len() <= SPAN
    &&& spec_height(model) <= SPAN
    &&& spec_depth(model) <= SPAN
    &&& forall|x: int| 0 <= x < model.len() ==> (#[trigger] model[x]).len() == spec_height(model)
    &&& forall|x: int, y: int|
        0 <= x < model.len() && 0 <= y < spec_height(model) ==> (#[trigger] model[x][y]).len()
            == spec_depth(model)
}

/// The cells of a model, indexed by x, then y, then z.
pub open spec fn solid(model: Seq<Vec<Vec<bool>>>) -> Seq<Seq<Seq<bool>>> {
    Seq::new(model.len(), |x: int| Seq::new(model[x]@.len(), |y: int| model[x]@[y]@))
}

/// One thing that the controller has to do.
#[derive(Debug, Clone, Copy)]
pub enum Work {
    /// Build the levels from the given one on.
    Level(usize),
    /// Visit the nearest node of the level that has no block yet.
    Visit,
    /// Take blocks from the chests when a round of the slots begins, and
    /// select the slot in turn when a slot begins.
    Refill,
    /// Go to the chest with the given number.
    Chest(usize),
    /// Take from the chest into the slots from the first to before the
    /// second.
    Take(usize, usize),
    SuckDown,
    Select(usize),
    /// Go to a place.
    Travel(Pos),
    PlaceDown,
}

/// Model of the controller.
pub struct ControllerState {
    pub nav: NavState,
    pub model: Seq<Seq<Seq<bool>>>,
    pub start_pos: PosH,
    pub stack_count: usize,
    /// Number of blocks that were put down, counted round the sixteen slots.
    pub blocks_placed: usize,
    /// The nodes of the level in work, each with the note whether it was
    /// visited.
    pub nodes: Seq<(Placed, CoordXZ)>,
    pub level: usize,
    /// The node that was visited last.
    pub curr: usize,
    pub agenda: Seq<Work>,
    pub waiting: bool,
    pub running: bool,
}

/// Two levels above `y`, or as high as the world goes.
pub open spec fn spec_plus_two(y: i64) -> i64 {
    if y > i64::MAX - 2 {
        i64::MAX
    } else {
        (y + 2) as i64
    }
}

/// The place of a node of the level in work: one block above its cell.
pub open spec fn spec_node_pos(s: ControllerState, j: int) -> Pos {
    Pos {
        x: (s.start_pos.x + s.nodes[j].1.0) as i64,
        y: (s.start_pos.y + s.level + 1) as i64,
        z: (s.start_pos.z + s.nodes[j].1.1) as i64,
    }
}

/// The place of the chest with the given number: the chests stand in a row
/// from where the build began towards less `z`.
pub open spec fn spec_store(s: ControllerState, number: usize) -> PosH {
    PosH { z: (s.start_pos.z - number) as i64, ..s.start_pos }
}

/// A response is awaited.
pub open spec fn controller_awaits(s: ControllerState) -> bool {
    if s.running {
        !(s.nav.waiting is Nothing)
    } else {
        s.waiting
    }
}

/// The state after the next thing to do was taken up, and what is asked of
/// the driver.
pub open spec fn spec_controller_advance(s: ControllerState) -> (ControllerState, ActionView) {
    if s.agenda.len() == 0 {
        (s, ActionView::Finished)
    } else {
        let rest = s.agenda.drop_last();
        let next = ControllerState { agenda: rest, ..s };
        match s.agenda.last() {
            Work::Level(y) => if y >= spec_height(s.model) {
                (next, ActionView::Continue)
            } else {
                let cells = level_cells(s.model, y as int, s.model.len() as int);
                if cells.len() == 0 {
                    (
                        ControllerState { agenda: rest.push(Work::Level((y + 1) as usize)), ..s },
                        ActionView::Continue,
                    )
                } else {
                    (
                        ControllerState {
                            nodes: Seq::new(cells.len(), |i: int| (false, cells[i])),
                            level: y,
                            curr: 0,
                            agenda: rest.push(Work::Level((y + 1) as usize)).push(Work::Visit),
                            ..s
                        },
                        ActionView::Continue,
                    )
                }
            },
            Work::Visit => match first_free(
                sorted_indices(distances(coords(s.nodes), s.curr as int)),
                s.nodes,
                s.nodes.len() as int,
            ) {
                None => (next, ActionView::Continue),
                Some(j) => (
                    ControllerState {
                        nodes: s.nodes.update(j as int, (true, s.nodes[j as int].1)),
                        curr: j,
                        agenda: rest.push(Work::Visit).push(Work::PlaceDown).push(
                            Work::Travel(spec_node_pos(s, j as int)),
                        ).push(Work::Refill),
                        ..s
                    },
                    ActionView::Continue,
                ),
            },
            Work::Refill => if s.blocks_placed as int % 64 != 0 {
                (next, ActionView::Continue)
            } else if (s.blocks_placed as int / 64) % 16 != 0 {
                (
                    ControllerState { waiting: true, ..next },
                    ActionView::Send(spec_select(((s.blocks_placed as int / 64) % 16) as u8)),
                )
            } else if s.stack_count + 16 > LIMIT {
                (next, ActionView::Failed(Failure::TooManyStacks))
            } else {
                let number = (s.stack_count as int / 27) as usize;
                let space = (27 - s.stack_count as int % 27) as usize;
                let first = if space < 16 {
                    space
                } else {
                    16usize
                };
                let tail = rest.push(Work::Select(0));
                let spill = if space < 16 {
                    tail.push(Work::Take(space, 16)).push(Work::Chest((number + 1) as usize))
                } else {
                    tail
                };
                (
                    ControllerState {
                        nav: journey_head_in(
                            s.nav,
                            PosH { y: spec_plus_two(s.nav.p.y), ..s.start_pos },
                            Order::YXZ,
                        ),
                        running: true,
                        stack_count: (s.stack_count + 16) as usize,
                        agenda: spill.push(Work::Take(0, first)).push(Work::Chest(number)),
                        ..s
                    },
                    ActionView::Continue,
                )
            },
            Work::Chest(number) => (
                ControllerState {
                    nav: journey_head(s.nav, spec_store(s, number)),
                    running: true,
                    ..next
                },
                ActionView::Continue,
            ),
            Work::Take(from, to) => if from >= to || from >= 16 {
                (next, ActionView::Continue)
            } else {
                (
                    ControllerState {
                        waiting: true,
                        agenda: rest.push(Work::Take((from + 1) as usize, to)).push(Work::SuckDown),
                        ..s
                    },
                    ActionView::Send(spec_select(from as u8)),
                )
            },
            Work::SuckDown => (
                ControllerState { waiting: true, ..next },
                ActionView::Send("turtle.suckDown()"@),
            ),
            Work::Select(slot) => (
                ControllerState { waiting: true, ..next },
                ActionView::Send(spec_select(slot as u8)),
            ),
            Work::Travel(dst) => (
                ControllerState { nav: journey(s.nav, dst), running: true, ..next },
                ActionView::Continue,
            ),
            Work::PlaceDown => (
                ControllerState {
                    waiting: true,
                    blocks_placed: ((s.blocks_placed + 1) % 1024) as usize,
                    ..next
                },
                ActionView::Send("turtle.placeDown()"@),
            ),
        }
    }
}

/// One step of the controller.  While a command is in flight, `reply` holds
/// the response to it; `dodge` says whether the turtle steps aside where
/// another turtle is in its way.
pub open spec fn spec_controller_step(
    s: ControllerState,
    reply: Option<TurtResponse>,
    dodge: bool,
) -> (ControllerState, ActionView) {
    if s.running {
        let (nav, a) = spec_step(s.nav, reply, dodge);
        if a is Finished {
            (ControllerState { nav, running: false, ..s }, ActionView::Continue)
        } else {
            (ControllerState { nav, ..s }, a)
        }
    } else if s.waiting {
        (ControllerState { waiting: false, ..s }, ActionView::Continue)
    } else {
        spec_controller_advance(s)
    }
}

/// The numbers that a thing to do bears are within their limits.
pub open spec fn work_ok(t: Work) -> bool {
    match t {
        Work::Chest(number) => number <= LIMIT,
        Work::Take(from, to) => to <= 16,
        Work::Select(slot) => slot < 16,
        _ => true,
    }
}

/// The state is well formed: the model is a box, the build began within
/// reach, the nodes belong to the level in work, and the navigation is at
/// rest unless it is at work.
pub open spec fn controller_wf(s: ControllerState) -> bool {
    &&& cuboid(s.model)
    &&& -REACH <= s.start_pos.x <= REACH
    &&& -REACH <= s.start_pos.y <= REACH
    &&& -REACH <= s.start_pos.z <= REACH
    &&& s.stack_count <= LIMIT
    &&& s.blocks_placed < 1024
    &&& s.level <= SPAN
    &&& (s.nodes.len() > 0 ==> s.curr < s.nodes.len())
    &&& forall|i: int|
        0 <= i < s.nodes.len() ==> (#[trigger] s.nodes[i]).1.0 <= SPAN && s.nodes[i].1.1 <= SPAN
    &&& forall|i: int| 0 <= i < s.agenda.len() ==> work_ok(#[trigger] s.agenda[i])
    &&& if s.running {
        !s.waiting
    } else {
        idle(s.nav)
    }
}

/// The controller of a builder that works on its own.  The model is indexed
/// by x, then y, then z.
pub struct BuildController {
    model: Vec<Vec<Vec<bool>>>,
    turt: TurtControl,
    nav: TurtNavigation,
    searcher: SimpleSearcher,
    start_pos: PosH,
    stack_count: usize,
    blocks_placed: usize,
    level: usize,
    curr: usize,
    agenda: Vec<Work>,
    waiting: bool,
    running: bool,
}

proof fn lemma_near(a: CoordXZ, b: CoordXZ)
    requires
        a.0 <= SPAN,
        a.1 <= SPAN,
        b.0 <= SPAN,
        b.1 <= SPAN,
    ensures
        spec_heuristic(a, b) < usize::MAX,
{
}

fn plus_two(y: i64) -> (r: i64)
    ensures
        r == spec_plus_two(y),
{
    if y > i64::MAX - 2 {
        i64::MAX
    } else {
        y + 2
    }
}

impl BuildController {
    /// Model of the controller.
    pub closed spec fn view(&self) -> ControllerState {
        ControllerState {
            nav: self.nav@,
            model: solid(self.model@),
            start_pos: self.start_pos,
            stack_count: self.stack_count,
            blocks_placed: self.blocks_placed,
            nodes: self.searcher.nodes@,
            level: self.level,
            curr: self.curr,
            agenda: self.agenda@,
            waiting: self.waiting,
            running: self.running,
        }
    }

    /// The searcher of the level in work orders the nodes of that level.
    pub closed spec fn searching(&self) -> bool {
        self.searcher.wf()
    }

    /// The controller of the given model.  The model has to be a box.
    pub fn new(model: Vec<Vec<Vec<bool>>>, turt: TurtControl, nav: TurtNavigation) -> (r: Self)
        requires
            idle(nav@),
            cuboid(solid(model@)),
        ensures
            controller_wf(r@),
            r.searching(),
            r@ == (ControllerState {
                nav: nav@,
                model: solid(model@),
                start_pos: PosH { x: 0, y: 0, z: 0, h: Head::N },
                stack_count: 0,
                blocks_placed: 0,
                nodes: Seq::empty(),
                level: 0,
                curr: 0,
                agenda: Seq::empty(),
                waiting: false,
                running: false,
            }),
    {
        let searcher = SimpleSearcher::new(Vec::new());
        let r = BuildController {
            model,
            turt,
            nav,
            searcher,
            stack_count: 0,
            blocks_placed: 0,
            start_pos: PosH::default(),
            level: 0,
            curr: 0,
            agenda: Vec::new(),
            waiting: false,
            running: false,
        };
        assert(r@.nodes =~= Seq::<(Placed, CoordXZ)>::empty());
        assert(r@.agenda =~= Seq::<Work>::empty());
        r
    }

    /// Number of blocks of the model; nothing where the number does not fit.
    pub fn count_blocks(&self) -> (r: Option<usize>)
        ensures
            r == if model_blocks(self@.model, self@.model.len() as int) <= usize::MAX {
                Some(model_blocks(self@.model, self@.model.len() as int) as usize)
            } else {
                None
            },
    {
        let ghost m = solid(self.model@);
        let mut c: usize = 0;
        let mut x: usize = 0;
        while x < self.model.len()
            invariant
                0 <= x <= self.model.len(),
                m == solid(self.model@),
                m == self@.model,
                c == model_blocks(m, x as int),
            decreases self.model.len() - x,
        {
            let plane = &self.model[x];
            let ghost c0 = c;
            assert(m[x as int].len() == plane@.len());
            let mut y: usize = 0;
            while y < plane.len()
                invariant
                    0 <= y <= plane.len(),
                    0 <= x < self.model.len(),
                    plane == self.model@[x as int],
                    m == solid(self.model@),
                    m == self@.model,
                    m[x as int].len() == plane@.len(),
                    c0 == model_blocks(m, x as int),
                    c == c0 + plane_blocks(m[x as int], y as int),
                decreases plane.len() - y,
            {
                let line = &plane[y];
                let ghost c1 = c;
                assert(m[x as int][y as int] == line@);
                let mut z: usize = 0;
                while z < line.len()
                    invariant
                        0 <= z <= line.len(),
                        0 <= y < plane.len(),
                        0 <= x < self.model.len(),
                        m == self@.model,
                        m[x as int].len() == plane@.len(),
                        m[x as int][y as int] == line@,
                        c0 == model_blocks(m, x as int),
                        c1 == c0 + plane_blocks(m[x as int], y as int),
                        c == c1 + line_blocks(line@, z as int),
                    decreases line.len() - z,
                {
                    if line[z] {
                        if c == usize::MAX {
                            proof {
                                lemma_line_mono(line@, z + 1, line@.len() as int);
                                lemma_plane_mono(m[x as int], y + 1, m[x as int].len() as int);
                                lemma_model_mono(m, x + 1, m.len() as int);
                            }
                            return None;
                        }
                        c = c + 1;
                    }
                    z = z + 1;
                }
                y = y + 1;
            }
            x = x + 1;
        }
        Some(c)
    }

    /// Where the turtle is.
    pub fn pos(&self) -> (r: &PosH)
        ensures
            *r == self@.nav.p,
    {
        self.nav.pos()
    }

    /// Says whether a command is in flight, so that the next step takes the
    /// response to it.
    pub fn awaits_reply(&self) -> (r: bool)
        ensures
            r == controller_awaits(self@),
    {
        if self.running {
            self.nav.awaits_reply()
        } else {
            self.waiting
        }
    }

    /// Begins what is due before a block is put down: at the beginning of a
    /// round of the sixteen slots the turtle takes blocks from the chests,
    /// and at the beginning of a slot it selects the slot.
    pub fn refill_inv(&mut self)
        requires
            controller_wf(old(self)@),
            old(self).searching(),
            old(self)@.agenda.len() == 0,
            !old(self)@.running,
            !old(self)@.waiting,
        ensures
            final(self)@ == (ControllerState { agenda: seq![Work::Refill], ..old(self)@ }),
            controller_wf(final(self)@),
            final(self).searching(),
    {
        self.agenda.push(Work::Refill);
        assert(self.agenda@ =~= seq![Work::Refill]);
    }

    /// Begins the build where the turtle stands, at the level at which a
    /// build begins.  The turtle has to stand within reach.
    pub fn run(&mut self)
        requires
            controller_wf(old(self)@),
            old(self).searching(),
            old(self)@.agenda.len() == 0,
            !old(self)@.running,
            !old(self)@.waiting,
            -REACH <= old(self)@.nav.p.x <= REACH,
            -REACH <= old(self)@.nav.p.y <= REACH,
            -REACH <= old(self)@.nav.p.z <= REACH,
        ensures
            final(self)@ == (ControllerState {
                start_pos: old(self)@.nav.p,
                agenda: seq![Work::Level(START_HEIGHT)],
                ..old(self)@
            }),
            controller_wf(final(self)@),
            final(self).searching(),
    {
        self.start_pos = *self.nav.pos();
        self.agenda.push(Work::Level(START_HEIGHT));
        assert(self.agenda@ =~= seq![Work::Level(START_HEIGHT)]);
    }

    fn height(&self) -> (r: usize)
        ensures
            r == spec_height(self@.model),
    {
        if self.model.len() == 0 {
            0
        } else {
            self.model[0].len()
        }
    }

    fn depth(&self) -> (r: usize)
        ensures
            r == spec_depth(self@.model),
    {
        if self.model.len() == 0 || self.model[0].len() == 0 {
            0
        } else {
            self.model[0][0].len()
        }
    }

    fn cells(&self, y: usize) -> (r: Vec<CoordXZ>)
        requires
            cuboid(self@.model),
            y < spec_height(self@.model),
        ensures
            r@ == level_cells(self@.model, y as int, self@.model.len() as int),
            forall|i: int| 0 <= i < r@.len() ==> (#[trigger] r@[i]).0 <= SPAN && r@[i].1 <= SPAN,
    {
        let ghost m = solid(self.model@);
        let nx = self.model.len();
        let nz = self.depth();
        let mut nodes: Vec<CoordXZ> = Vec::new();
        let mut x: usize = 0;
        while x < nx
            invariant
                0 <= x <= nx,
                nx == self.model.len(),
                nz == spec_depth(m),
                m == solid(self.model@),
                cuboid(m),
                y < spec_height(m),
                nodes@ == level_cells(m, y as int, x as int),
                forall|i: int|
                    0 <= i < nodes@.len() ==> (#[trigger] nodes@[i]).0 <= SPAN && nodes@[i].1
                        <= SPAN,
            decreases nx - x,
        {
            let ghost before = nodes@;
            assert(m[x as int].len() == self.model@[x as int]@.len());
            assert(m[x as int][y as int].len() == self.model@[x as int]@[y as int]@.len());
            let line = &self.model[x][y];
            let mut z: usize = 0;
            while z < nz
                invariant
                    0 <= z <= nz,
                    0 <= x < nx,
                    nx <= SPAN,
                    nz <= SPAN,
                    nz == line@.len(),
                    line@ == m[x as int][y as int],
                    nodes@ == before + column_cells(m, x as int, y as int, z as int),
                    forall|i: int|
                        0 <= i < nodes@.len() ==> (#[trigger] nodes@[i]).0 <= SPAN && nodes@[i].1
                            <= SPAN,
                decreases nz - z,
            {
                if line[z] {
                    nodes.push((x, z));
                    assert(nodes@ =~= before + column_cells(m, x as int, y as int, z + 1));
                }
                z = z + 1;
            }
            x = x + 1;
        }
        nodes
    }

    fn start_head(&mut self, dst: PosH, order: Order)
        requires
            idle(old(self)@.nav),
        ensures
            final(self)@ == (ControllerState {
                nav: journey_head_in(old(self)@.nav, dst, order),
                running: true,
                ..old(self)@
            }),
            final(self).searching() == old(self).searching(),
    {
        self.nav.goto_head(&dst, order);
        self.running = true;
    }

    fn advance(&mut self) -> (r: Action)
        requires
            controller_wf(old(self)@),
            old(self).searching(),
            !old(self)@.running,
            !old(self)@.waiting,
        ensures
            (final(self)@, r@) == spec_controller_advance(old(self)@),
            controller_wf(final(self)@),
            final(self).searching(),
    {
        if self.agenda.len() == 0 {
            return Action::Finished;
        }
        let ghost before = self@;
        let ghost rest = self.agenda@.drop_last();
        let top = self.agenda.pop().unwrap();
        assert(self.agenda@ =~= rest);
        assert(forall|i: int| 0 <= i < rest.len() ==> work_ok(#[trigger] rest[i])) by {
            assert forall|i: int| 0 <= i < rest.len() implies work_ok(#[trigger] rest[i]) by {
                assert(rest[i] == before.agenda[i]);
            }
        }
        assert(work_ok(before.agenda[before.agenda.len() - 1]));
        match top {
            Work::Level(y) => {
                if y >= self.height() {
                    return Action::Continue;
                }
                self.agenda.push(Work::Level(y + 1));
                let cells = self.cells(y);
                if cells.len() == 0 {
                    return Action::Continue;
                }
                proof {
                    assert forall|i: int, j: int|
                        0 <= i < cells@.len() && 0 <= j < cells@.len() implies spec_heuristic(
                        #[trigger] cells@[i],
                        #[trigger] cells@[j],
                    ) < usize::MAX by {
                        lemma_near(cells@[i], cells@[j]);
                    }
                }
                self.searcher = SimpleSearcher::new(cells);
                self.level = y;
                self.curr = 0;
                self.agenda.push(Work::Visit);
                Action::Continue
            },
            Work::Visit => {
                if self.searcher.nodes.len() == 0 {
                    return Action::Continue;
                }
                match self.searcher.next_node(self.curr) {
                    None => Action::Continue,
                    Some(next) => {
                        self.curr = next;
                        let node = self.searcher.nodes[next].1;
                        assert(before.nodes[next as int].1 == node);
                        let dst = Pos {
                            x: self.start_pos.x + node.0 as i64,
                            y: self.start_pos.y + self.level as i64 + 1,
                            z: self.start_pos.z + node.1 as i64,
                        };
                        self.agenda.push(Work::Visit);
                        self.agenda.push(Work::PlaceDown);
                        self.agenda.push(Work::Travel(dst));
                        self.agenda.push(Work::Refill);
                        Action::Continue
                    },
                }
            },
            Work::Refill => {
                if self.blocks_placed % 64 != 0 {
                    return Action::Continue;
                }
                let slot = (self.blocks_placed / 64) % 16;
                if slot != 0 {
                    self.waiting = true;
                    return Action::Send(self.turt.inv_select(slot as u8));
                }
                let count = self.stack_count;
                if count > LIMIT - 16 {
                    return Action::Failed(Failure::TooManyStacks);
                }
                let number = count / CHEST_SIZE;
                let space = CHEST_SIZE - (count % CHEST_SIZE);
                self.stack_count = count + 16;
                self.agenda.push(Work::Select(0));
                if space < TURT_INV {
                    self.agenda.push(Work::Take(space, 16));
                    self.agenda.push(Work::Chest(number + 1));
                    self.agenda.push(Work::Take(0, space));
                } else {
                    self.agenda.push(Work::Take(0, 16));
                }
                self.agenda.push(Work::Chest(number));
                let s = self.start_pos;
                let above = PosH { x: s.x, y: plus_two(self.nav.pos().y), z: s.z, h: s.h };
                self.start_head(above, Order::YXZ);
                Action::Continue
            },
            Work::Chest(number) => {
                let s = self.start_pos;
                self.start_head(
                    PosH { x: s.x, y: s.y, z: s.z - number as i64, h: s.h },
                    Order::XYZ,
                );
                Action::Continue
            },
            Work::Take(from, to) => {
                if from >= to || from >= 16 {
                    Action::Continue
                } else {
                    self.waiting = true;
                    self.agenda.push(Work::Take(from + 1, to));
                    self.agenda.push(Work::SuckDown);
                    Action::Send(self.turt.inv_select(from as u8))
                }
            },
            Work::SuckDown => {
                self.waiting = true;
                Action::Send(self.turt.suck_down())
            },
            Work::Select(slot) => {
                self.waiting = true;
                Action::Send(self.turt.inv_select(slot as u8))
            },
            Work::Travel(dst) => {
                self.nav.goto_nohead(&dst, Order::XYZ);
                self.running = true;
                Action::Continue
            },
            Work::PlaceDown => {
                self.waiting = true;
                self.blocks_placed = (self.blocks_placed + 1) % 1024;
                Action::Send(self.turt.place_down())
            },
        }
    }

    /// Takes one step of the build.  While a command is in flight, `reply`
    /// holds the response to it; `dodge` says whether the turtle steps aside
    /// where another turtle is in its way.
    pub fn step_with(&mut self, reply: Option<TurtResponse>, dodge: bool) -> (r: Action)
        requires
            controller_wf(old(self)@),
            old(self).searching(),
            reply is Some <==> controller_awaits(old(self)@),
        ensures
            (final(self)@, r@) == spec_controller_step(old(self)@, reply, dodge),
            controller_wf(final(self)@),
            final(self).searching(),
            r@ is Send <==> controller_awaits(final(self)@),
    {
        if self.running {
            let a = self.nav.step_with(reply, dodge);
            match a {
                Action::Finished => {
                    self.running = false;
                    Action::Continue
                },
                _ => a,
            }
        } else if self.waiting {
            self.waiting = false;
            Action::Continue
        } else {
            self.advance()
        }
    }

    /// Takes one step of the build.  Where another turtle is in the way, a
    /// coin decides whether the turtle steps aside.
    pub fn step(&mut self, reply: Option<TurtResponse>) -> (r: Action)
        requires
            controller_wf(old(self)@),
            old(self).searching(),
            reply is Some <==> controller_awaits(old(self)@),
        ensures
            (final(self)@, r@) == spec_controller_step(old(self)@, reply, true) || (
            final(self)@,
            r@,
        ) == spec_controller_step(old(self)@, reply, false),
            controller_wf(final(self)@),
            final(self).searching(),
            r@ is Send <==> controller_awaits(final(self)@),
    {
        let dodge = self.nav.dodges();
        self.step_with(reply, dodge)
    }
}

proof fn lemma_line_mono(line: Seq<bool>, a: int, b: int)
    requires
        0 <= a <= b,
    ensures
        line_blocks(line, a) <= line_blocks(line, b),
    decreases b - a,
{
    if a < b {
        lemma_line_mono(line, a, b - 1);
    }
}

proof fn lemma_plane_mono(plane: Seq<Seq<bool>>, a: int, b: int)
    requires
        0 <= a <= b,
    ensures
        plane_blocks(plane, a) <= plane_blocks(plane, b),
    decreases b - a,
{
    if a < b {
        lemma_plane_mono(plane, a, b - 1);
    }
}

proof fn lemma_model_mono(model: Seq<Seq<Seq<bool>>>, a: int, b: int)
    requires
        0 <= a <= b,
    ensures
        model_blocks(model, a) <= model_blocks(model, b),
    decreases b - a,
{
    if a < b {
        lemma_model_mono(model, a, b - 1);
    }
}

} // verus!
