//! The builder of solid shapes: it goes through a box level by level in a
//! snake line and puts a block below itself wherever the shape has one.

use vstd::prelude::*;
use crate::coords::Order;
use crate::scripts::chunk_digger::{corners, progress_text, spec_corners, FStoreChunkDigger};
use crate::scripts::model_builder::runtime::{LIMIT, REACH};
use crate::turtle_core::control::{spec_select, Action, ActionView, StateFile, TurtControl, Failure};
use crate::turtle_core::data::TurtResponse;
use crate::turtle_core::file_system_storage::fstore_save;
use crate::turtle_core::heading::Head;
use crate::turtle_core::inventory::{TurtInventory, TURT_SLOTS};
use crate::turtle_core::navigation::{idle, journey_head, spec_step, NavState, TurtNavigation};
use crate::turtle_core::position::{Pos, PosH};

verus! {

/// Number of blocks in a slot.
pub const SLOT_SIZE: usize = 64;

/// The heading of the turtle in a column of the snake line of this builder.
pub open spec fn spec_silly_heading(x_count_even: bool, y_even: bool, x_even: bool) -> Head {
    if x_count_even {
        if x_even {
            Head::N
        } else {
            Head::S
        }
    } else if y_even == x_even {
        Head::N
    } else {
        Head::S
    }
}

/// The heading of the turtle in a column of the snake line of this builder.
pub fn silly_heading(x_count_even: bool, y_even: bool, x_even: bool) -> (r: Head)
    ensures
        r == spec_silly_heading(x_count_even, y_even, x_even),
        r == Head::N || r == Head::S,
{
    match (x_count_even, y_even, x_even) {
        (false, false, false) => Head::N,
        (false, false, true) => Head::S,
        (false, true, false) => Head::S,
        (false, true, true) => Head::N,
        (true, false, false) => Head::S,
        (true, false, true) => Head::N,
        (true, true, false) => Head::S,
        (true, true, true) => Head::N,
    }
}

/// Number of levels of a box.
pub open spec fn spec_levels(p1: Pos, p2: Pos) -> int {
    p2.y - p1.y + 1
}

/// Number of columns of a box.
pub open spec fn spec_rows(p1: Pos, p2: Pos) -> int {
    p2.x - p1.x + 1
}

/// Number of spots in a column of a box.
pub open spec fn spec_spots(p1: Pos, p2: Pos) -> int {
    p2.z - p1.z + 1
}

/// Where the turtle stands, and where it looks, to put a block at spot `z` of
/// column `x` of level `y`: one block above the spot.
pub open spec fn spec_spot(p1: Pos, p2: Pos, y: int, x: int, z: int) -> PosH {
    let h = spec_silly_heading(spec_rows(p1, p2) % 2 == 0, y % 2 == 0, x % 2 == 0);
    PosH {
        x: (if y % 2 == 0 {
            p1.x + x
        } else {
            p2.x - x
        }) as i64,
        y: (p1.y + y + 1) as i64,
        z: (if h == Head::N {
            p2.z - z
        } else {
            p1.z + z
        }) as i64,
        h,
    }
}

/// One thing that the builder has to do.
#[derive(Debug, Clone, Copy)]
pub enum Lay {
    /// Build the levels from the given one on.
    Level(u64),
    /// Count the level as done.
    LevelDone,
    /// Build the columns of a level from the given one on.
    Row(u64, u64),
    /// Build the spots of a column from the given one on.
    Spot(u64, u64, u64),
    /// Put a block down, from the slot in turn.
    Put,
    PlaceDown,
    /// Go to the corner where the build ends.
    Park,
}

/// Model of the builder.
pub struct SillyState {
    pub nav: NavState,
    pub blocks: Seq<Seq<Seq<bool>>>,
    pub p1: Pos,
    pub p2: Pos,
    pub step: usize,
    pub stack_count: usize,
    /// Number of blocks that were put down, counted round the sixteen slots.
    pub blocks_placed: usize,
    pub agenda: Seq<Lay>,
    pub waiting: bool,
    pub running: bool,
}

/// The cells of a shape, indexed by x, then y, then z.
pub open spec fn shape(blocks: Seq<Vec<Vec<bool>>>) -> Seq<Seq<Seq<bool>>> {
    Seq::new(
        blocks.len(),
        |x: int| Seq::new(blocks[x]@.len(), |y: int| blocks[x]@[y]@),
    )
}

/// A response is awaited.
pub open spec fn silly_awaits(s: SillyState) -> bool {
    if s.running {
        !(s.nav.waiting is Nothing)
    } else {
        s.waiting
    }
}

/// The state after the next thing to do was taken up, and what is asked of
/// the driver.
pub open spec fn spec_silly_advance(s: SillyState) -> (SillyState, ActionView) {
    if s.agenda.len() == 0 {
        (s, ActionView::Finished)
    } else {
        let rest = s.agenda.drop_last();
        let next = SillyState { agenda: rest, ..s };
        match s.agenda.last() {
            Lay::Level(y) => if y >= spec_levels(s.p1, s.p2) {
                (next, ActionView::Continue)
            } else {
                (
                    SillyState {
                        agenda: rest.push(Lay::Level((y + 1) as u64)).push(Lay::LevelDone).push(
                            Lay::Row(y, 0),
                        ),
                        ..s
                    },
                    ActionView::Continue,
                )
            },
            Lay::LevelDone => if s.step >= LIMIT {
                (next, ActionView::Failed(Failure::TooManyStacks))
            } else {
                (
                    SillyState { step: (s.step + 1) as usize, ..next },
                    ActionView::Save(
                        StateFile::SillyBuilder,
                        progress_text((s.step + 1) as usize, s.stack_count),
                    ),
                )
            },
            Lay::Row(y, x) => if x >= spec_rows(s.p1, s.p2) {
                (next, ActionView::Continue)
            } else {
                (
                    SillyState {
                        agenda: rest.push(Lay::Row(y, (x + 1) as u64)).push(Lay::Spot(y, x, 0)),
                        ..s
                    },
                    ActionView::Continue,
                )
            },
            Lay::Spot(y, x, z) => if z >= spec_spots(s.p1, s.p2) {
                (next, ActionView::Continue)
            } else if s.blocks[x as int][y as int][z as int] {
                (
                    SillyState {
                        nav: journey_head(s.nav, spec_spot(s.p1, s.p2, y as int, x as int, z as int)),
                        running: true,
                        agenda: rest.push(Lay::Spot(y, x, (z + 1) as u64)).push(Lay::Put),
                        ..s
                    },
                    ActionView::Continue,
                )
            } else {
                (
                    SillyState { agenda: rest.push(Lay::Spot(y, x, (z + 1) as u64)), ..s },
                    ActionView::Continue,
                )
            },
            Lay::Put => if s.blocks_placed as int % 64 == 0 {
                (
                    SillyState { waiting: true, agenda: rest.push(Lay::PlaceDown), ..s },
                    ActionView::Send(spec_select(((s.blocks_placed as int / 64) % 16) as u8)),
                )
            } else {
                (
                    SillyState {
                        waiting: true,
                        blocks_placed: ((s.blocks_placed + 1) % 1024) as usize,
                        ..next
                    },
                    ActionView::Send("turtle.placeDown()"@),
                )
            },
            Lay::PlaceDown => (
                SillyState {
                    waiting: true,
                    blocks_placed: ((s.blocks_placed + 1) % 1024) as usize,
                    ..next
                },
                ActionView::Send("turtle.placeDown()"@),
            ),
            Lay::Park => (
                SillyState {
                    nav: journey_head(
                        s.nav,
                        PosH { x: s.p1.x, y: s.p1.y, z: s.p2.z, h: Head::N },
                    ),
                    running: true,
                    ..next
                },
                ActionView::Continue,
            ),
        }
    }
}

/// One step of the builder.  While a command is in flight, `reply` holds the
/// response to it; `dodge` says whether the turtle steps aside where another
/// turtle is in its way.
pub open spec fn spec_silly_step(s: SillyState, reply: Option<TurtResponse>, dodge: bool) -> (
    SillyState,
    ActionView,
) {
    if s.running {
        let (nav, a) = spec_step(s.nav, reply, dodge);
        if a is Finished {
            (SillyState { nav, running: false, ..s }, ActionView::Continue)
        } else {
            (SillyState { nav, ..s }, a)
        }
    } else if s.waiting {
        (SillyState { waiting: false, ..s }, ActionView::Continue)
    } else {
        spec_silly_advance(s)
    }
}

/// What a thing to do names lies within the box.
pub open spec fn lay_ok(t: Lay, p1: Pos, p2: Pos) -> bool {
    match t {
        Lay::Row(y, x) => y < spec_levels(p1, p2),
        Lay::Spot(y, x, z) => y < spec_levels(p1, p2) && x < spec_rows(p1, p2),
        _ => true,
    }
}

/// The shape has a cell for every spot of the box.
pub open spec fn shape_covers(blocks: Seq<Seq<Seq<bool>>>, p1: Pos, p2: Pos) -> bool {
    &&& blocks.len() >= spec_rows(p1, p2)
    &&& forall|x: int| 0 <= x < spec_rows(p1, p2) ==> (#[trigger] blocks[x]).len() >= spec_levels(p1, p2)
    &&& forall|x: int, y: int|
        0 <= x < spec_rows(p1, p2) && 0 <= y < spec_levels(p1, p2) ==> (#[trigger] blocks[x][y]).len()
            >= spec_spots(p1, p2)
}

/// The state is well formed: the corners are in order and within reach, the
/// shape covers the box, and the navigation is at rest unless it is at work.
pub open spec fn silly_wf(s: SillyState) -> bool {
    &&& -REACH <= s.p1.x <= s.p2.x <= REACH
    &&& -REACH <= s.p1.y <= s.p2.y <= REACH
    &&& -REACH <= s.p1.z <= s.p2.z <= REACH
    &&& s.step <= LIMIT
    &&& s.blocks_placed < 1024
    &&& (s.agenda.len() > 0 ==> shape_covers(s.blocks, s.p1, s.p2))
    &&& forall|i: int| 0 <= i < s.agenda.len() ==> lay_ok(#[trigger] s.agenda[i], s.p1, s.p2)
    &&& if s.running {
        !s.waiting
    } else {
        idle(s.nav)
    }
}

/// The builder of solid shapes of one turtle.
#[derive(Debug)]
pub struct SillyBuilder {
    blocks: Vec<Vec<Vec<bool>>>,
    p1: Pos,
    p2: Pos,
    turt: TurtControl,
    nav: TurtNavigation,
    inv: TurtInventory,
    progress: FStoreChunkDigger,
    blocks_placed: usize,
    agenda: Vec<Lay>,
    waiting: bool,
    running: bool,
}

impl SillyBuilder {
    /// Model of the builder.
    pub closed spec fn view(&self) -> SillyState {
        SillyState {
            nav: self.nav@,
            blocks: shape(self.blocks@),
            p1: self.p1,
            p2: self.p2,
            step: self.progress.layer,
            stack_count: self.progress.stack_count,
            blocks_placed: self.blocks_placed,
            agenda: self.agenda@,
            waiting: self.waiting,
            running: self.running,
        }
    }

    /// The builder of the shape `blocks`, which is indexed by x, then y, then
    /// z.  Both corners of its box are at the origin, and it goes on from the
    /// progress that was kept.
    pub fn init(
        blocks: Vec<Vec<Vec<bool>>>,
        turt: TurtControl,
        nav: TurtNavigation,
        progress: FStoreChunkDigger,
    ) -> (r: Self)
        requires
            idle(nav@),
            progress.layer <= LIMIT,
        ensures
            silly_wf(r@),
            r@ == (SillyState {
                nav: nav@,
                blocks: shape(blocks@),
                p1: Pos { x: 0, y: 0, z: 0 },
                p2: Pos { x: 0, y: 0, z: 0 },
                step: progress.layer,
                stack_count: progress.stack_count,
                blocks_placed: 0,
                agenda: Seq::empty(),
                waiting: false,
                running: false,
            }),
    {
        let r = SillyBuilder {
            blocks,
            p1: Pos::orig(),
            p2: Pos::orig(),
            turt,
            nav,
            inv: TurtInventory::init(turt),
            progress,
            blocks_placed: 0,
            agenda: Vec::new(),
            waiting: false,
            running: false,
        };
        assert(r@.agenda =~= Seq::<Lay>::empty());
        r
    }

    /// Sets the box to the one that the two places span.
    pub fn set_corners(&mut self, p1: Pos, p2: Pos)
        requires
            silly_wf(old(self)@),
            old(self)@.agenda.len() == 0,
            -REACH <= p1.x <= REACH,
            -REACH <= p1.y <= REACH,
            -REACH <= p1.z <= REACH,
            -REACH <= p2.x <= REACH,
            -REACH <= p2.y <= REACH,
            -REACH <= p2.z <= REACH,
        ensures
            final(self)@ == (SillyState {
                p1: spec_corners(p1, p2).0,
                p2: spec_corners(p1, p2).1,
                ..old(self)@
            }),
            silly_wf(final(self)@),
    {
        let (low, high) = corners(p1, p2);
        self.p1 = low;
        self.p2 = high;
    }

    /// Takes up the progress that was kept.
    pub fn get_or_init_progress(&mut self, kept: FStoreChunkDigger)
        requires
            silly_wf(old(self)@),
            old(self)@.agenda.len() == 0,
            kept.layer <= LIMIT,
        ensures
            final(self)@ == (SillyState {
                step: kept.layer,
                stack_count: kept.stack_count,
                ..old(self)@
            }),
            silly_wf(final(self)@),
    {
        self.progress = kept;
    }

    /// The text that keeps the progress.
    pub fn save_progress(&self) -> (r: Vec<u8>)
        ensures
            r@ == progress_text(self@.step, self@.stack_count),
    {
        fstore_save(&self.progress)
    }

    /// Where the turtle is.
    pub fn pos(&self) -> (r: &PosH)
        ensures
            *r == self@.nav.p,
    {
        self.nav.pos()
    }

    /// Says whether the shape has a cell for every spot of the box.
    pub fn covers(&self) -> (r: bool)
        requires
            silly_wf(self@),
        ensures
            r == shape_covers(self@.blocks, self@.p1, self@.p2),
    {
        let rows = self.rows();
        let levels = self.levels();
        let spots = self.spots();
        let ghost b = shape(self.blocks@);
        if (self.blocks.len() as u64) < rows {
            return false;
        }
        let mut x: usize = 0;
        while (x as u64) < rows
            invariant
                0 <= x <= rows,
                rows <= self.blocks.len(),
                b == shape(self.blocks@),
                rows == spec_rows(self@.p1, self@.p2),
                levels == spec_levels(self@.p1, self@.p2),
                spots == spec_spots(self@.p1, self@.p2),
                self@.blocks == b,
                forall|i: int| 0 <= i < x ==> (#[trigger] b[i]).len() >= levels,
                forall|i: int, j: int|
                    0 <= i < x && 0 <= j < levels ==> (#[trigger] b[i][j]).len() >= spots,
            decreases rows - x,
        {
            let plane = &self.blocks[x];
            assert(b[x as int].len() == plane@.len());
            if (plane.len() as u64) < levels {
                assert(!shape_covers(b, self@.p1, self@.p2)) by {
                    assert(b[x as int].len() < levels);
                }
                return false;
            }
            let mut y: usize = 0;
            while (y as u64) < levels
                invariant
                    0 <= y <= levels,
                    0 <= x < rows,
                    rows <= self.blocks.len(),
                    levels <= plane.len(),
                    plane == self.blocks@[x as int],
                    b == shape(self.blocks@),
                    rows == spec_rows(self@.p1, self@.p2),
                    levels == spec_levels(self@.p1, self@.p2),
                    spots == spec_spots(self@.p1, self@.p2),
                    self@.blocks == b,
                    forall|j: int| 0 <= j < y ==> (#[trigger] b[x as int][j]).len() >= spots,
                decreases levels - y,
            {
                assert(b[x as int][y as int].len() == plane@[y as int]@.len());
                if (plane[y].len() as u64) < spots {
                    assert(!shape_covers(b, self@.p1, self@.p2)) by {
                        assert(b[x as int][y as int].len() < spots);
                    }
                    return false;
                }
                y = y + 1;
            }
            x = x + 1;
        }
        true
    }

    /// Says whether a command is in flight, so that the next step takes the
    /// response to it.
    pub fn awaits_reply(&self) -> (r: bool)
        ensures
            r == silly_awaits(self@),
    {
        if self.running {
            self.nav.awaits_reply()
        } else {
            self.waiting
        }
    }

    /// Begins to build the shape, from the level on that the kept progress
    /// names.  When the shape is built the turtle goes to the corner where
    /// the build ends.
    pub fn run(&mut self)
        requires
            silly_wf(old(self)@),
            shape_covers(old(self)@.blocks, old(self)@.p1, old(self)@.p2),
            old(self)@.agenda.len() == 0,
            !old(self)@.running,
            !old(self)@.waiting,
        ensures
            final(self)@ == (SillyState {
                agenda: seq![Lay::Park, Lay::Level(old(self)@.step as u64)],
                ..old(self)@
            }),
            silly_wf(final(self)@),
    {
        self.agenda.push(Lay::Park);
        self.agenda.push(Lay::Level(self.progress.layer as u64));
        assert(self.agenda@ =~= seq![Lay::Park, Lay::Level(old(self)@.step as u64)]);
    }

    fn levels(&self) -> (r: u64)
        requires
            silly_wf(self@),
        ensures
            r == spec_levels(self@.p1, self@.p2),
    {
        (self.p2.y as i128 - self.p1.y as i128 + 1) as u64
    }

    fn rows(&self) -> (r: u64)
        requires
            silly_wf(self@),
        ensures
            r == spec_rows(self@.p1, self@.p2),
    {
        (self.p2.x as i128 - self.p1.x as i128 + 1) as u64
    }

    fn spots(&self) -> (r: u64)
        requires
            silly_wf(self@),
        ensures
            r == spec_spots(self@.p1, self@.p2),
    {
        (self.p2.z as i128 - self.p1.z as i128 + 1) as u64
    }

    fn spot(&self, y: u64, x: u64, z: u64) -> (r: PosH)
        requires
            silly_wf(self@),
            y < spec_levels(self@.p1, self@.p2),
            x < spec_rows(self@.p1, self@.p2),
            z < spec_spots(self@.p1, self@.p2),
        ensures
            r == spec_spot(self@.p1, self@.p2, y as int, x as int, z as int),
    {
        let p1 = self.p1;
        let p2 = self.p2;
        let h = silly_heading(self.rows() % 2 == 0, y % 2 == 0, x % 2 == 0);
        let px = if y % 2 == 0 {
            p1.x as i128 + x as i128
        } else {
            p2.x as i128 - x as i128
        };
        let py = p1.y as i128 + y as i128 + 1;
        let pz = match h {
            Head::N => p2.z as i128 - z as i128,
            _ => p1.z as i128 + z as i128,
        };
        PosH { x: px as i64, y: py as i64, z: pz as i64, h }
    }

    fn start_head(&mut self, dst: PosH)
        requires
            idle(old(self)@.nav),
        ensures
            final(self)@ == (SillyState {
                nav: journey_head(old(self)@.nav, dst),
                running: true,
                ..old(self)@
            }),
    {
        self.nav.goto_head(&dst, Order::XYZ);
        self.running = true;
    }

    fn advance(&mut self) -> (r: Action)
        requires
            silly_wf(old(self)@),
            !old(self)@.running,
            !old(self)@.waiting,
        ensures
            (final(self)@, r@) == spec_silly_advance(old(self)@),
            silly_wf(final(self)@),
    {
        if self.agenda.len() == 0 {
            return Action::Finished;
        }
        let ghost before = self@;
        let ghost rest = self.agenda@.drop_last();
        let top = self.agenda.pop().unwrap();
        assert(self.agenda@ =~= rest);
        assert(forall|i: int| 0 <= i < rest.len() ==> lay_ok(#[trigger] rest[i], before.p1, before.p2))
            by {
            assert forall|i: int| 0 <= i < rest.len() implies lay_ok(
                #[trigger] rest[i],
                before.p1,
                before.p2,
            ) by {
                assert(rest[i] == before.agenda[i]);
            }
        }
        assert(lay_ok(before.agenda[before.agenda.len() - 1], before.p1, before.p2));
        match top {
            Lay::Level(y) => {
                if y < self.levels() {
                    self.agenda.push(Lay::Level(y + 1));
                    self.agenda.push(Lay::LevelDone);
                    self.agenda.push(Lay::Row(y, 0));
                }
                Action::Continue
            },
            Lay::LevelDone => {
                if self.progress.layer >= LIMIT {
                    Action::Failed(Failure::TooManyStacks)
                } else {
                    self.progress.layer = self.progress.layer + 1;
                    Action::Save(StateFile::SillyBuilder, self.save_progress())
                }
            },
            Lay::Row(y, x) => {
                if x < self.rows() {
                    self.agenda.push(Lay::Row(y, x + 1));
                    self.agenda.push(Lay::Spot(y, x, 0));
                }
                Action::Continue
            },
            Lay::Spot(y, x, z) => {
                if z < self.spots() {
                    self.agenda.push(Lay::Spot(y, x, z + 1));
                    proof {
                        assert(shape_covers(before.blocks, before.p1, before.p2));
                        assert(before.blocks == shape(self.blocks@));
                        assert(before.blocks.len() == self.blocks@.len());
                        assert(x < self.blocks@.len());
                        assert(before.blocks[x as int].len() == self.blocks@[x as int]@.len());
                        assert(before.blocks[x as int].len() >= spec_levels(before.p1, before.p2));
                        assert(y < self.blocks@[x as int]@.len());
                        assert(before.blocks[x as int][y as int].len()
                            == self.blocks@[x as int]@[y as int]@.len());
                        assert(before.blocks[x as int][y as int].len() >= spec_spots(
                            before.p1,
                            before.p2,
                        ));
                        assert(z < self.blocks@[x as int]@[y as int]@.len());
                        assert(before.blocks[x as int][y as int][z as int]
                            == self.blocks@[x as int]@[y as int]@[z as int]);
                    }
                    let nx = self.blocks.len();
                    assert(x < nx);
                    let plane = &self.blocks[x as usize];
                    let ny = plane.len();
                    assert(y < ny);
                    let line = &plane[y as usize];
                    let nz = line.len();
                    assert(z < nz);
                    let block = line[z as usize];
                    if block {
                        let dst = self.spot(y, x, z);
                        self.agenda.push(Lay::Put);
                        self.start_head(dst);
                    }
                }
                Action::Continue
            },
            Lay::Put => {
                self.waiting = true;
                if self.blocks_placed % SLOT_SIZE == 0 {
                    self.agenda.push(Lay::PlaceDown);
                    Action::Send(self.turt.inv_select(((self.blocks_placed / SLOT_SIZE) % TURT_SLOTS) as u8))
                } else {
                    self.blocks_placed = (self.blocks_placed + 1) % 1024;
                    Action::Send(self.turt.place_down())
                }
            },
            Lay::PlaceDown => {
                self.waiting = true;
                self.blocks_placed = (self.blocks_placed + 1) % 1024;
                Action::Send(self.turt.place_down())
            },
            Lay::Park => {
                let dst = PosH { x: self.p1.x, y: self.p1.y, z: self.p2.z, h: Head::N };
                self.start_head(dst);
                Action::Continue
            },
        }
    }

    /// Takes one step of the build.  While a command is in flight, `reply`
    /// holds the response to it; `dodge` says whether the turtle steps aside
    /// where another turtle is in its way.
    pub fn step_with(&mut self, reply: Option<TurtResponse>, dodge: bool) -> (r: Action)
        requires
            silly_wf(old(self)@),
            reply is Some <==> silly_awaits(old(self)@),
        ensures
            (final(self)@, r@) == spec_silly_step(old(self)@, reply, dodge),
            silly_wf(final(self)@),
            r@ is Send <==> silly_awaits(final(self)@),
    {
        if self.running {
            let a = self.nav.step_with(reply, dodge);
            match a {
                Action::Finished => {
                    self.running = false;
                    Action::Continue
                },
                _ => a,
            }
        } else if self.waiting {
            self.waiting = false;
            Action::Continue
        } else {
            self.advance()
        }
    }

    /// Takes one step of the build.  Where another turtle is in the way, a
    /// coin decides whether the turtle steps aside.
    pub fn step(&mut self, reply: Option<TurtResponse>) -> (r: Action)
        requires
            silly_wf(old(self)@),
            reply is Some <==> silly_awaits(old(self)@),
        ensures
            (final(self)@, r@) == spec_silly_step(old(self)@, reply, true) || (final(self)@, r@)
                == spec_silly_step(old(self)@, reply, false),
            silly_wf(final(self)@),
            r@ is Send <==> silly_awaits(final(self)@),
    {
        let dodge = self.nav.dodges();
        self.step_with(reply, dodge)
    }
}

} // verus!
