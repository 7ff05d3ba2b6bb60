//! The chunk digger: it mines a box in slabs of three blocks height.  The
//! turtle goes through the middle row of a slab in a snake line and digs
//! above and below itself at every cell; what it mined goes into a column of
//! chests.

use vstd::prelude::*;
use crate::coords::Order;
use crate::scripts::model_builder::runtime::{
    count_of_line,
    lemma_count_round_trip,
    read_count,
    Running,
    LIMIT,
    REACH,
};
use crate::text::{after_line, first_line, nat_digits, push_digits, split_line, LINE_FEED};
use crate::turtle_core::control::{
    spec_print,
    spec_select,
    Action,
    ActionView,
    Failure,
    StateFile,
    TurtControl,
};
use crate::turtle_core::data::TurtResponse;
use crate::turtle_core::file_system_storage::{fstore_save, FStore};
use crate::turtle_core::heading::Head;
use crate::turtle_core::inventory::{
    inv_awaits,
    inv_wf,
    spec_inv_step,
    spec_is_full,
    spec_request,
    InvState,
    Mode,
    TurtBlock,
    TurtInventory,
};
use crate::turtle_core::navigation::{idle, journey_head, spec_step, NavState, TurtNavigation};
use crate::turtle_core::position::{Pos, PosH};
use crate::{TurtleIdentifier, TurtleIndex};

verus! {

/// How long a turtle waits for blocks to be added, in milliseconds.
pub const BLOCK_WAIT: u64 = 1_000;

/// What a digger is told: two corners of the box, what to lay as a floor, how
/// many stacks a chest takes, and after how many cells of a row the inventory
/// is looked at.
#[derive(Debug, Clone)]
pub struct ChunkDiggerConfig {
    pub p1: Pos,
    pub p2: Pos,
    pub place_floor: TurtBlock,
    pub chest_size: usize,
    pub check_inv_every_n_blocks: usize,
}

/// The progress of a digger as it is kept in its file: the number of slabs
/// that are done, and the number of stacks that were deposited.
#[derive(Debug, Clone, Copy, PartialEq, Eq, Structural)]
pub struct FStoreChunkDigger {
    pub layer: usize,
    pub stack_count: usize,
}

/// The text of a progress file: the two counts, each on a line of its own.
pub open spec fn progress_text(layer: usize, stack_count: usize) -> Seq<u8> {
    nat_digits(layer as nat) + seq![10u8] + (nat_digits(stack_count as nat) + seq![10u8] + Seq::<
        u8,
    >::empty())
}

impl FStore for FStoreChunkDigger {
    open spec fn text(&self) -> Seq<u8> {
        progress_text(self.layer, self.stack_count)
    }

    open spec fn parse(d: Seq<u8>) -> Option<Self> {
        match (count_of_line(first_line(d)), count_of_line(first_line(after_line(d)))) {
            (Some(layer), Some(stack_count)) => Some(FStoreChunkDigger { layer, stack_count }),
            _ => None,
        }
    }

    open spec fn initial() -> Self {
        FStoreChunkDigger { layer: 0, stack_count: 0 }
    }

    fn default() -> (r: Self) {
        FStoreChunkDigger { layer: 0, stack_count: 0 }
    }

    fn save(&self) -> (r: Vec<u8>) {
        let mut out: Vec<u8> = Vec::new();
        push_digits(self.layer as u64, &mut out);
        out.push(LINE_FEED);
        push_digits(self.stack_count as u64, &mut out);
        out.push(LINE_FEED);
        assert(out@ =~= progress_text(self.layer, self.stack_count));
        out
    }

    fn load(d: &[u8]) -> (r: Option<Self>) {
        let (l0, r0) = split_line(d);
        let (l1, _r1) = split_line(r0);
        match (read_count(l0), read_count(l1)) {
            (Some(layer), Some(stack_count)) => Some(FStoreChunkDigger { layer, stack_count }),
            _ => None,
        }
    }

    proof fn lemma_reload(&self) {
        let rest = nat_digits(self.stack_count as nat) + seq![10u8] + Seq::<u8>::empty();
        lemma_count_round_trip(self.layer, rest);
        lemma_count_round_trip(self.stack_count, Seq::<u8>::empty());
        crate::text::lemma_split_line(nat_digits(self.layer as nat), rest);
    }
}

/// The heading of the turtle in a column of the snake line.  It depends on
/// whether the number of columns is even, and on whether the slab and the
/// column have an even number.
pub open spec fn spec_column_heading(x_count_even: bool, y_even: bool, x_even: bool) -> Head {
    if x_count_even {
        if x_even {
            Head::S
        } else {
            Head::N
        }
    } else if y_even == x_even {
        Head::N
    } else {
        Head::S
    }
}

/// The heading of the turtle in a column of the snake line.
pub fn column_heading(x_count_even: bool, y_even: bool, x_even: bool) -> (r: Head)
    ensures
        r == spec_column_heading(x_count_even, y_even, x_even),
        r == Head::N || r == Head::S,
{
    match (x_count_even, y_even, x_even) {
        (false, true, true) => Head::N,
        (false, true, false) => Head::S,
        (false, false, true) => Head::S,
        (false, false, false) => Head::N,
        (true, true, true) => Head::S,
        (true, true, false) => Head::N,
        (true, false, true) => Head::S,
        (true, false, false) => Head::N,
    }
}

/// Number of slabs of a box.
pub open spec fn spec_slabs(p1: Pos, p2: Pos) -> int {
    (p2.y - p1.y) / 3
}

/// Number of columns of a box.
pub open spec fn spec_columns(p1: Pos, p2: Pos) -> int {
    p2.x - p1.x + 1
}

/// Number of cells in a column of a box.
pub open spec fn spec_cells(p1: Pos, p2: Pos) -> int {
    p2.z - p1.z + 1
}

/// Where the turtle stands, and where it looks, at cell `z` of column `x` of
/// slab `y`.  The columns of a slab are taken from `p1` to `p2` in a slab of
/// even number and back in a slab of odd number; the cells of a column are
/// taken in the direction of its heading.
pub open spec fn spec_cell(p1: Pos, p2: Pos, y: int, x: int, z: int) -> PosH {
    let h = spec_column_heading(spec_columns(p1, p2) % 2 == 0, y % 2 == 0, x % 2 == 0);
    PosH {
        x: (if y % 2 == 0 {
            p1.x + x
        } else {
            p2.x - x
        }) as i64,
        y: (p1.y + 3 * y + 1) as i64,
        z: (if h == Head::N {
            p2.z - z
        } else {
            p1.z + z
        }) as i64,
        h,
    }
}

/// The snake line does not jump: from a cell to the next one of its column,
/// from the last cell of a column to the first of the next, and from the last
/// cell of a slab to the first of the next, the turtle moves along one axis
/// only, by one block within a slab and by three from slab to slab.
pub proof fn lemma_snake_line(p1: Pos, p2: Pos, y: int, x: int, z: int)
    requires
        p1.x <= p2.x,
        p1.y <= p2.y,
        p1.z <= p2.z,
        -REACH <= p1.x && p2.x <= REACH,
        -REACH <= p1.y && p2.y <= REACH,
        -REACH <= p1.z && p2.z <= REACH,
        0 <= y < spec_slabs(p1, p2),
        0 <= x < spec_columns(p1, p2),
        0 <= z < spec_cells(p1, p2),
    ensures
        p1.x <= spec_cell(p1, p2, y, x, z).x <= p2.x,
        p1.z <= spec_cell(p1, p2, y, x, z).z <= p2.z,
        p1.y < spec_cell(p1, p2, y, x, z).y < p2.y,
        z + 1 < spec_cells(p1, p2) ==> {
            let a = spec_cell(p1, p2, y, x, z);
            let b = spec_cell(p1, p2, y, x, z + 1);
            a.x == b.x && a.y == b.y && a.h == b.h && (b.z == a.z + 1 || b.z == a.z - 1)
        },
        x + 1 < spec_columns(p1, p2) ==> {
            let a = spec_cell(p1, p2, y, x, spec_cells(p1, p2) - 1);
            let b = spec_cell(p1, p2, y, x + 1, 0);
            a.z == b.z && a.y == b.y && (b.x == a.x + 1 || b.x == a.x - 1)
        },
        y + 1 < spec_slabs(p1, p2) ==> {
            let a = spec_cell(p1, p2, y, spec_columns(p1, p2) - 1, spec_cells(p1, p2) - 1);
            let b = spec_cell(p1, p2, y + 1, 0, 0);
            a.x == b.x && a.z == b.z && b.y == a.y + 3
        },
{
}

/// One thing that a digger has to do.
#[derive(Debug, Clone, Copy)]
pub enum Dig {
    /// Mine the slabs from the given one on.
    Slab(u64),
    /// Count the slab as done.
    SlabDone,
    /// Mine the columns of a slab from the given one on.
    Column(u64, u64),
    /// Mine the cells of a column from the given one on.
    Cell(u64, u64, u64),
    DigUp,
    DigDown,
    /// Lay the floor.
    Floor,
    /// Look at what the search for a block came to.
    FloorFound,
    PlaceDown,
    /// Wait for the given number of milliseconds.
    Wait(u64),
    /// Look whether the inventory is full, and deposit it if so.
    Deposit,
    /// The inventory was looked at.
    Deposited,
    /// Go to the chest with the given number.
    Chest(usize),
    /// Drop the slots from the first to before the second into the chest.
    DropSlots(usize, usize),
    DropDown,
    /// Keep the progress.
    Persist,
    /// Ask the turtle for every slot.
    Update,
    /// Go back to the remembered place.
    Resume,
    /// Go to the first chest.
    Park,
}

/// The command of the digger whose response is awaited.
#[derive(Debug, Clone, Copy)]
pub enum Pending {
    Nothing,
    /// The response does not matter.
    Ignored,
}

/// The floor that a digger lays.
#[derive(Debug, Clone, Copy, PartialEq, Eq, Structural)]
pub enum FloorKind {
    Nothing,
    Any,
    Named,
}

/// The floor that a block to put down stands for.
pub open spec fn floor_kind(b: TurtBlock) -> FloorKind {
    match b {
        TurtBlock::Nothing => FloorKind::Nothing,
        TurtBlock::Any => FloorKind::Any,
        TurtBlock::Named(_) => FloorKind::Named,
    }
}

/// Model of a digger.
pub struct DiggerState {
    pub nav: NavState,
    pub inv: InvState,
    pub p1: Pos,
    pub p2: Pos,
    pub floor: FloorKind,
    pub chest_size: usize,
    pub every: usize,
    pub layer: usize,
    pub stack_count: usize,
    pub curr_slot: usize,
    pub saved_pos: PosH,
    pub agenda: Seq<Dig>,
    pub waiting: Pending,
    pub running: Running,
}

/// The place of the chest with the given number: the chests stand in a row
/// from the far corner of the first column towards less `z`.
pub open spec fn spec_chest(s: DiggerState, number: usize) -> PosH {
    PosH { x: s.p1.x, y: s.p1.y, z: (s.p2.z - number) as i64, h: Head::N }
}

/// A response is awaited.
pub open spec fn digger_awaits(s: DiggerState) -> bool {
    match s.running {
        Running::Nav => !(s.nav.waiting is Nothing),
        Running::Inv => inv_awaits(s.inv),
        Running::Neither => !(s.waiting is Nothing),
    }
}

/// The state of the inventory at the beginning of a search for a block.
pub open spec fn searching(inv: InvState, start: usize) -> InvState {
    InvState {
        mode: Mode::Finding { start, slot: start, visited: 0, queried: false, asked: false },
        ..inv
    }
}

/// The state of the inventory at the beginning of a look at every slot.
pub open spec fn updating(inv: InvState) -> InvState {
    InvState { mode: Mode::Updating { cursor: 0, asked: false }, ..inv }
}

/// The message that asks for blocks.
pub open spec fn spec_out_of_blocks() -> Seq<char> {
    spec_print("Out of blocks! Please add more."@)
}

/// The state after the next thing to do was taken up, and what is asked of
/// the driver.
pub open spec fn spec_digger_advance(s: DiggerState) -> (DiggerState, ActionView) {
    if s.agenda.len() == 0 {
        (s, ActionView::Finished)
    } else {
        let rest = s.agenda.drop_last();
        let next = DiggerState { agenda: rest, ..s };
        match s.agenda.last() {
            Dig::Slab(y) => if y >= spec_slabs(s.p1, s.p2) {
                (next, ActionView::Continue)
            } else {
                (
                    DiggerState {
                        agenda: rest.push(Dig::Slab((y + 1) as u64)).push(Dig::SlabDone).push(
                            Dig::Column(y, 0),
                        ),
                        ..s
                    },
                    ActionView::Continue,
                )
            },
            Dig::SlabDone => if s.layer >= LIMIT {
                (next, ActionView::Failed(Failure::TooManyStacks))
            } else {
                (
                    DiggerState { layer: (s.layer + 1) as usize, ..next },
                    ActionView::Save(
                        StateFile::ChunkDigger,
                        progress_text((s.layer + 1) as usize, s.stack_count),
                    ),
                )
            },
            Dig::Column(y, x) => if x >= spec_columns(s.p1, s.p2) {
                (next, ActionView::Continue)
            } else {
                (
                    DiggerState {
                        agenda: rest.push(Dig::Column(y, (x + 1) as u64)).push(Dig::Deposit).push(
                            Dig::Cell(y, x, 0),
                        ),
                        ..s
                    },
                    ActionView::Continue,
                )
            },
            Dig::Cell(y, x, z) => if z >= spec_cells(s.p1, s.p2) {
                (next, ActionView::Continue)
            } else {
                let after = rest.push(Dig::Cell(y, x, (z + 1) as u64));
                let checked = if z as int % s.every as int == 0 {
                    after.push(Dig::Deposit)
                } else {
                    after
                };
                (
                    DiggerState {
                        nav: journey_head(s.nav, spec_cell(s.p1, s.p2, y as int, x as int, z as int)),
                        running: Running::Nav,
                        agenda: checked.push(Dig::Floor).push(Dig::DigDown).push(Dig::DigUp),
                        ..s
                    },
                    ActionView::Continue,
                )
            },
            Dig::DigUp => (
                DiggerState { waiting: Pending::Ignored, ..next },
                ActionView::Send("turtle.digUp()"@),
            ),
            Dig::DigDown => (
                DiggerState { waiting: Pending::Ignored, ..next },
                ActionView::Send("turtle.digDown()"@),
            ),
            Dig::Floor => match s.floor {
                FloorKind::Any => (
                    DiggerState {
                        inv: searching(s.inv, s.curr_slot),
                        running: Running::Inv,
                        agenda: rest.push(Dig::FloorFound),
                        ..s
                    },
                    ActionView::Continue,
                ),
                _ => (next, ActionView::Continue),
            },
            Dig::FloorFound => match s.inv.found {
                Some(_) => if s.curr_slot != s.inv.found_at {
                    (
                        DiggerState {
                            curr_slot: s.inv.found_at,
                            waiting: Pending::Ignored,
                            agenda: rest.push(Dig::PlaceDown),
                            ..s
                        },
                        ActionView::Send(spec_select(s.inv.found_at as u8)),
                    )
                } else {
                    (
                        DiggerState { waiting: Pending::Ignored, ..next },
                        ActionView::Send("turtle.placeDown()"@),
                    )
                },
                None => (
                    DiggerState {
                        waiting: Pending::Ignored,
                        agenda: rest.push(Dig::Floor).push(Dig::Wait(BLOCK_WAIT)),
                        ..s
                    },
                    ActionView::Send(spec_out_of_blocks()),
                ),
            },
            Dig::PlaceDown => (
                DiggerState { waiting: Pending::Ignored, ..next },
                ActionView::Send("turtle.placeDown()"@),
            ),
            Dig::Wait(ms) => (next, ActionView::Sleep(ms)),
            Dig::Deposit => (
                DiggerState {
                    inv: updating(s.inv),
                    running: Running::Inv,
                    agenda: rest.push(Dig::Deposited),
                    ..s
                },
                ActionView::Continue,
            ),
            Dig::Deposited => if !spec_is_full(s.inv.slots) {
                (next, ActionView::Continue)
            } else if s.stack_count + 16 > LIMIT {
                (next, ActionView::Failed(Failure::TooManyStacks))
            } else {
                let number = (s.stack_count as int / s.chest_size as int) as usize;
                let space = (s.chest_size - (s.stack_count as int % s.chest_size as int)) as usize;
                let first = if space < 16 {
                    space
                } else {
                    16usize
                };
                let tail = rest.push(Dig::Resume).push(Dig::Update).push(Dig::Persist);
                let spill = if space < 16 {
                    tail.push(Dig::DropSlots(space, 16)).push(Dig::Chest((number + 1) as usize))
                } else {
                    tail
                };
                (
                    DiggerState {
                        stack_count: (s.stack_count + 16) as usize,
                        saved_pos: s.nav.p,
                        agenda: spill.push(Dig::DropSlots(0, first)).push(Dig::Chest(number)),
                        ..s
                    },
                    ActionView::Continue,
                )
            },
            Dig::Chest(number) => (
                DiggerState {
                    nav: journey_head(s.nav, spec_chest(s, number)),
                    running: Running::Nav,
                    ..next
                },
                ActionView::Continue,
            ),
            Dig::DropSlots(from, to) => if from >= to || from >= 16 {
                (next, ActionView::Continue)
            } else {
                (
                    DiggerState {
                        waiting: Pending::Ignored,
                        agenda: rest.push(Dig::DropSlots((from + 1) as usize, to)).push(Dig::DropDown),
                        ..s
                    },
                    ActionView::Send(spec_select(from as u8)),
                )
            },
            Dig::DropDown => (
                DiggerState { waiting: Pending::Ignored, ..next },
                ActionView::Send("turtle.dropDown()"@),
            ),
            Dig::Persist => (
                next,
                ActionView::Save(StateFile::ChunkDigger, progress_text(s.layer, s.stack_count)),
            ),
            Dig::Update => (
                DiggerState { inv: updating(s.inv), running: Running::Inv, ..next },
                ActionView::Continue,
            ),
            Dig::Resume => (
                DiggerState {
                    nav: journey_head(s.nav, s.saved_pos),
                    running: Running::Nav,
                    ..next
                },
                ActionView::Continue,
            ),
            Dig::Park => (
                DiggerState {
                    nav: journey_head(s.nav, spec_chest(s, 0)),
                    running: Running::Nav,
                    ..next
                },
                ActionView::Continue,
            ),
        }
    }
}

/// One step of the digger.  While a command is in flight, `reply` holds the
/// response to it; `dodge` says whether the turtle steps aside where another
/// turtle is in its way.
pub open spec fn spec_digger_step(s: DiggerState, reply: Option<TurtResponse>, dodge: bool) -> (
    DiggerState,
    ActionView,
) {
    match s.running {
        Running::Nav => {
            let (nav, a) = spec_step(s.nav, reply, dodge);
            if a is Finished {
                (DiggerState { nav, running: Running::Neither, ..s }, ActionView::Continue)
            } else {
                (DiggerState { nav, ..s }, a)
            }
        },
        Running::Inv => {
            let inv = spec_inv_step(s.inv, reply);
            if inv.mode is Idle {
                (DiggerState { inv, running: Running::Neither, ..s }, ActionView::Continue)
            } else {
                (DiggerState { inv, ..s }, spec_request(inv))
            }
        },
        Running::Neither => if s.waiting is Nothing {
            spec_digger_advance(s)
        } else {
            (DiggerState { waiting: Pending::Nothing, ..s }, ActionView::Continue)
        },
    }
}

/// What a thing to do names lies within the box and the numbers.
pub open spec fn dig_ok(t: Dig, p1: Pos, p2: Pos) -> bool {
    match t {
        Dig::Slab(y) => y <= spec_slabs(p1, p2),
        Dig::Column(y, x) => y < spec_slabs(p1, p2) && x <= spec_columns(p1, p2),
        Dig::Cell(y, x, z) => y < spec_slabs(p1, p2) && x < spec_columns(p1, p2) && z <= spec_cells(
            p1,
            p2,
        ),
        Dig::Chest(number) => number <= LIMIT,
        Dig::DropSlots(from, to) => to <= 16,
        _ => true,
    }
}

/// The state is well formed: the corners are in order and within reach, the
/// numbers are within their limits, and the parts that are not at work are at
/// rest.
pub open spec fn digger_wf(s: DiggerState) -> bool {
    &&& -REACH <= s.p1.x <= s.p2.x <= REACH
    &&& -REACH <= s.p1.y <= s.p2.y <= REACH
    &&& -REACH <= s.p1.z <= s.p2.z <= REACH
    &&& 1 <= s.chest_size
    &&& 1 <= s.every
    &&& s.stack_count <= LIMIT
    &&& s.layer <= LIMIT
    &&& s.curr_slot < 16
    &&& !(s.floor is Named)
    &&& inv_wf(s.inv)
    &&& forall|i: int| 0 <= i < s.agenda.len() ==> dig_ok(#[trigger] s.agenda[i], s.p1, s.p2)
    &&& match s.running {
        Running::Nav => s.inv.mode is Idle && s.waiting is Nothing,
        Running::Inv => idle(s.nav) && s.waiting is Nothing,
        Running::Neither => idle(s.nav) && s.inv.mode is Idle,
    }
}

/// The digger of one turtle.
#[derive(Debug)]
pub struct ChunkDigger {
    _identifier: TurtleIdentifier,
    _index: TurtleIndex,
    turt: TurtControl,
    nav: TurtNavigation,
    inv: TurtInventory,
    conf: ChunkDiggerConfig,
    fstore_chunk_digger: FStoreChunkDigger,
    curr_slot: usize,
    saved_pos: PosH,
    agenda: Vec<Dig>,
    waiting: Pending,
    running: Running,
}

/// The two corners of the box that two places span: the one with the least
/// and the one with the greatest coordinates.
pub open spec fn spec_corners(p1: Pos, p2: Pos) -> (Pos, Pos) {
    (
        Pos {
            x: if p1.x < p2.x {
                p1.x
            } else {
                p2.x
            },
            y: if p1.y < p2.y {
                p1.y
            } else {
                p2.y
            },
            z: if p1.z < p2.z {
                p1.z
            } else {
                p2.z
            },
        },
        Pos {
            x: if p1.x < p2.x {
                p2.x
            } else {
                p1.x
            },
            y: if p1.y < p2.y {
                p2.y
            } else {
                p1.y
            },
            z: if p1.z < p2.z {
                p2.z
            } else {
                p1.z
            },
        },
    )
}

/// Puts two corners in order.
pub fn corners(p1: Pos, p2: Pos) -> (r: (Pos, Pos))
    ensures
        r == spec_corners(p1, p2),
{
    (
        Pos {
            x: if p1.x < p2.x {
                p1.x
            } else {
                p2.x
            },
            y: if p1.y < p2.y {
                p1.y
            } else {
                p2.y
            },
            z: if p1.z < p2.z {
                p1.z
            } else {
                p2.z
            },
        },
        Pos {
            x: if p1.x < p2.x {
                p2.x
            } else {
                p1.x
            },
            y: if p1.y < p2.y {
                p2.y
            } else {
                p1.y
            },
            z: if p1.z < p2.z {
                p2.z
            } else {
                p1.z
            },
        },
    )
}

impl ChunkDigger {
    /// Model of the digger.
    pub closed spec fn view(&self) -> DiggerState {
        DiggerState {
            nav: self.nav@,
            inv: self.inv@,
            p1: self.conf.p1,
            p2: self.conf.p2,
            floor: floor_kind(self.conf.place_floor),
            chest_size: self.conf.chest_size,
            every: self.conf.check_inv_every_n_blocks,
            layer: self.fstore_chunk_digger.layer,
            stack_count: self.fstore_chunk_digger.stack_count,
            curr_slot: self.curr_slot,
            saved_pos: self.saved_pos,
            agenda: self.agenda@,
            waiting: self.waiting,
            running: self.running,
        }
    }

    /// The digger of the turtle with the given identifier.  It goes on from
    /// the progress that was kept.  The corners are put in order.
    pub fn init(
        identifier: TurtleIdentifier,
        index: TurtleIndex,
        turt: TurtControl,
        nav: TurtNavigation,
        conf: ChunkDiggerConfig,
        fstore_chunk_digger: FStoreChunkDigger,
    ) -> (r: Self)
        requires
            idle(nav@),
            -REACH <= conf.p1.x <= REACH,
            -REACH <= conf.p1.y <= REACH,
            -REACH <= conf.p1.z <= REACH,
            -REACH <= conf.p2.x <= REACH,
            -REACH <= conf.p2.y <= REACH,
            -REACH <= conf.p2.z <= REACH,
            1 <= conf.chest_size,
            1 <= conf.check_inv_every_n_blocks,
            !(conf.place_floor is Named),
            fstore_chunk_digger.layer <= LIMIT,
            fstore_chunk_digger.stack_count <= LIMIT,
        ensures
            digger_wf(r@),
            r@.nav == nav@,
            (r@.p1, r@.p2) == spec_corners(conf.p1, conf.p2),
            r@.floor == floor_kind(conf.place_floor),
            r@.chest_size == conf.chest_size,
            r@.every == conf.check_inv_every_n_blocks,
            r@.layer == fstore_chunk_digger.layer,
            r@.stack_count == fstore_chunk_digger.stack_count,
            r@.agenda.len() == 0,
            r@.waiting is Nothing,
            r@.running is Neither,
            r@.curr_slot == 0,
    {
        let saved_pos = *nav.pos();
        let p1 = conf.p1;
        let p2 = conf.p2;
        let mut r = ChunkDigger {
            _identifier: identifier,
            _index: index,
            turt,
            nav,
            inv: TurtInventory::init(turt),
            conf,
            fstore_chunk_digger,
            curr_slot: 0,
            saved_pos,
            agenda: Vec::new(),
            waiting: Pending::Nothing,
            running: Running::Neither,
        };
        let (low, high) = corners(p1, p2);
        r.conf.p1 = low;
        r.conf.p2 = high;
        r
    }

    /// Sets the box to the one that the two places span.
    pub fn set_corners(&mut self, p1: Pos, p2: Pos)
        requires
            digger_wf(old(self)@),
            old(self)@.agenda.len() == 0,
            -REACH <= p1.x <= REACH,
            -REACH <= p1.y <= REACH,
            -REACH <= p1.z <= REACH,
            -REACH <= p2.x <= REACH,
            -REACH <= p2.y <= REACH,
            -REACH <= p2.z <= REACH,
        ensures
            final(self)@ == (DiggerState {
                p1: spec_corners(p1, p2).0,
                p2: spec_corners(p1, p2).1,
                ..old(self)@
            }),
            digger_wf(final(self)@),
    {
        let (low, high) = corners(p1, p2);
        self.conf.p1 = low;
        self.conf.p2 = high;
    }

    /// The text that keeps the progress.
    pub fn save_progress(&self) -> (r: Vec<u8>)
        ensures
            r@ == progress_text(self@.layer, self@.stack_count),
    {
        fstore_save(&self.fstore_chunk_digger)
    }

    /// Where the turtle is.
    pub fn pos(&self) -> (r: &PosH)
        ensures
            *r == self@.nav.p,
    {
        self.nav.pos()
    }

    /// Says whether a command is in flight, so that the next step takes the
    /// response to it.
    pub fn awaits_reply(&self) -> (r: bool)
        ensures
            r == digger_awaits(self@),
    {
        match self.running {
            Running::Nav => self.nav.awaits_reply(),
            Running::Inv => self.inv.awaits_reply(),
            Running::Neither => !matches!(self.waiting, Pending::Nothing),
        }
    }

    /// Begins to mine the box, from the slab on that the kept progress names.
    /// When the box is mined the turtle goes to the first chest.
    pub fn run(&mut self)
        requires
            digger_wf(old(self)@),
            old(self)@.agenda.len() == 0,
            old(self)@.running is Neither,
            old(self)@.waiting is Nothing,
        ensures
            final(self)@ == (DiggerState {
                agenda: seq![
                    Dig::Park,
                    Dig::Slab(
                        if old(self)@.layer <= spec_slabs(old(self)@.p1, old(self)@.p2) {
                            old(self)@.layer as u64
                        } else {
                            spec_slabs(old(self)@.p1, old(self)@.p2) as u64
                        },
                    ),
                ],
                ..old(self)@
            }),
            digger_wf(final(self)@),
    {
        let slabs = self.slabs();
        let from = if self.fstore_chunk_digger.layer as u64 <= slabs {
            self.fstore_chunk_digger.layer as u64
        } else {
            slabs
        };
        self.agenda.push(Dig::Park);
        self.agenda.push(Dig::Slab(from));
        assert(self.agenda@ =~= seq![Dig::Park, Dig::Slab(from)]);
    }

    fn slabs(&self) -> (r: u64)
        requires
            digger_wf(self@),
        ensures
            r == spec_slabs(self@.p1, self@.p2),
    {
        ((self.conf.p2.y as i128 - self.conf.p1.y as i128) / 3) as u64
    }

    fn columns(&self) -> (r: u64)
        requires
            digger_wf(self@),
        ensures
            r == spec_columns(self@.p1, self@.p2),
    {
        (self.conf.p2.x as i128 - self.conf.p1.x as i128 + 1) as u64
    }

    fn cells(&self) -> (r: u64)
        requires
            digger_wf(self@),
        ensures
            r == spec_cells(self@.p1, self@.p2),
    {
        (self.conf.p2.z as i128 - self.conf.p1.z as i128 + 1) as u64
    }

    fn cell(&self, y: u64, x: u64, z: u64) -> (r: PosH)
        requires
            digger_wf(self@),
            y < spec_slabs(self@.p1, self@.p2),
            x < spec_columns(self@.p1, self@.p2),
            z < spec_cells(self@.p1, self@.p2),
        ensures
            r == spec_cell(self@.p1, self@.p2, y as int, x as int, z as int),
    {
        let p1 = self.conf.p1;
        let p2 = self.conf.p2;
        let h = column_heading(self.columns() % 2 == 0, y % 2 == 0, x % 2 == 0);
        let px = if y % 2 == 0 {
            p1.x as i128 + x as i128
        } else {
            p2.x as i128 - x as i128
        };
        let py = p1.y as i128 + 3 * (y as i128) + 1;
        let pz = match h {
            Head::N => p2.z as i128 - z as i128,
            _ => p1.z as i128 + z as i128,
        };
        PosH { x: px as i64, y: py as i64, z: pz as i64, h }
    }

    fn chest(&self, number: usize) -> (r: PosH)
        requires
            digger_wf(self@),
            number <= LIMIT,
        ensures
            r == spec_chest(self@, number),
    {
        PosH {
            x: self.conf.p1.x,
            y: self.conf.p1.y,
            z: (self.conf.p2.z as i128 - number as i128) as i64,
            h: Head::N,
        }
    }

    fn start_head(&mut self, dst: PosH)
        requires
            idle(old(self)@.nav),
        ensures
            final(self)@ == (DiggerState {
                nav: journey_head(old(self)@.nav, dst),
                running: Running::Nav,
                ..old(self)@
            }),
    {
        self.nav.goto_head(&dst, Order::XYZ);
        self.running = Running::Nav;
    }

    fn advance(&mut self) -> (r: Action)
        requires
            digger_wf(old(self)@),
            old(self)@.running is Neither,
            old(self)@.waiting is Nothing,
        ensures
            (final(self)@, r@) == spec_digger_advance(old(self)@),
            digger_wf(final(self)@),
    {
        if self.agenda.len() == 0 {
            return Action::Finished;
        }
        let ghost before = self@;
        let ghost rest = self.agenda@.drop_last();
        let top = self.agenda.pop().unwrap();
        assert(self.agenda@ =~= rest);
        assert(forall|i: int| 0 <= i < rest.len() ==> dig_ok(#[trigger] rest[i], before.p1, before.p2))
            by {
            assert forall|i: int| 0 <= i < rest.len() implies dig_ok(
                #[trigger] rest[i],
                before.p1,
                before.p2,
            ) by {
                assert(rest[i] == before.agenda[i]);
            }
        }
        assert(dig_ok(before.agenda[before.agenda.len() - 1], before.p1, before.p2));
        match top {
            Dig::Slab(y) => {
                if y < self.slabs() {
                    self.agenda.push(Dig::Slab(y + 1));
                    self.agenda.push(Dig::SlabDone);
                    self.agenda.push(Dig::Column(y, 0));
                }
                Action::Continue
            },
            Dig::SlabDone => {
                if self.fstore_chunk_digger.layer >= LIMIT {
                    Action::Failed(Failure::TooManyStacks)
                } else {
                    self.fstore_chunk_digger.layer = self.fstore_chunk_digger.layer + 1;
                    Action::Save(StateFile::ChunkDigger, self.save_progress())
                }
            },
            Dig::Column(y, x) => {
                if x < self.columns() {
                    self.agenda.push(Dig::Column(y, x + 1));
                    self.agenda.push(Dig::Deposit);
                    self.agenda.push(Dig::Cell(y, x, 0));
                }
                Action::Continue
            },
            Dig::Cell(y, x, z) => {
                if z < self.cells() {
                    let dst = self.cell(y, x, z);
                    self.agenda.push(Dig::Cell(y, x, z + 1));
                    if z % (self.conf.check_inv_every_n_blocks as u64) == 0 {
                        self.agenda.push(Dig::Deposit);
                    }
                    self.agenda.push(Dig::Floor);
                    self.agenda.push(Dig::DigDown);
                    self.agenda.push(Dig::DigUp);
                    self.start_head(dst);
                }
                Action::Continue
            },
            Dig::DigUp => {
                self.waiting = Pending::Ignored;
                Action::Send(self.turt.dig_up())
            },
            Dig::DigDown => {
                self.waiting = Pending::Ignored;
                Action::Send(self.turt.dig_down())
            },
            Dig::Floor => {
                match self.conf.place_floor {
                    TurtBlock::Any => {
                        self.inv.reduce_count_andor_find_next(self.curr_slot);
                        self.running = Running::Inv;
                        self.agenda.push(Dig::FloorFound);
                    },
                    _ => {},
                }
                Action::Continue
            },
            Dig::FloorFound => {
                match self.inv.found() {
                    Some(_) => {
                        self.waiting = Pending::Ignored;
                        let slot = self.inv.found_at();
                        if self.curr_slot != slot {
                            self.curr_slot = slot;
                            self.agenda.push(Dig::PlaceDown);
                            Action::Send(self.turt.inv_select(slot as u8))
                        } else {
                            Action::Send(self.turt.place_down())
                        }
                    },
                    None => {
                        self.waiting = Pending::Ignored;
                        self.agenda.push(Dig::Floor);
                        self.agenda.push(Dig::Wait(BLOCK_WAIT));
                        Action::Send(self.turt.print("Out of blocks! Please add more."))
                    },
                }
            },
            Dig::PlaceDown => {
                self.waiting = Pending::Ignored;
                Action::Send(self.turt.place_down())
            },
            Dig::Wait(ms) => Action::Sleep(ms),
            Dig::Deposit => {
                self.inv.full_update();
                self.running = Running::Inv;
                self.agenda.push(Dig::Deposited);
                Action::Continue
            },
            Dig::Deposited => {
                if !self.inv.is_full() {
                    return Action::Continue;
                }
                let count = self.fstore_chunk_digger.stack_count;
                if count > LIMIT - 16 {
                    return Action::Failed(Failure::TooManyStacks);
                }
                let chest_size = self.conf.chest_size;
                let number = count / chest_size;
                let space = chest_size - (count % chest_size);
                self.fstore_chunk_digger.stack_count = count + 16;
                self.saved_pos = *self.nav.pos();
                self.agenda.push(Dig::Resume);
                self.agenda.push(Dig::Update);
                self.agenda.push(Dig::Persist);
                if space < 16 {
                    self.agenda.push(Dig::DropSlots(space, 16));
                    self.agenda.push(Dig::Chest(number + 1));
                    self.agenda.push(Dig::DropSlots(0, space));
                } else {
                    self.agenda.push(Dig::DropSlots(0, 16));
                }
                self.agenda.push(Dig::Chest(number));
                Action::Continue
            },
            Dig::Chest(number) => {
                let dst = self.chest(number);
                self.start_head(dst);
                Action::Continue
            },
            Dig::DropSlots(from, to) => {
                if from >= to || from >= 16 {
                    Action::Continue
                } else {
                    self.waiting = Pending::Ignored;
                    self.agenda.push(Dig::DropSlots(from + 1, to));
                    self.agenda.push(Dig::DropDown);
                    Action::Send(self.turt.inv_select(from as u8))
                }
            },
            Dig::DropDown => {
                self.waiting = Pending::Ignored;
                Action::Send(self.turt.inv_drop_down())
            },
            Dig::Persist => Action::Save(StateFile::ChunkDigger, self.save_progress()),
            Dig::Update => {
                self.inv.full_update();
                self.running = Running::Inv;
                Action::Continue
            },
            Dig::Resume => {
                let dst = self.saved_pos;
                self.start_head(dst);
                Action::Continue
            },
            Dig::Park => {
                let dst = self.chest(0);
                self.start_head(dst);
                Action::Continue
            },
        }
    }

    /// Takes one step of the mining.  While a command is in flight, `reply`
    /// holds the response to it; `dodge` says whether the turtle steps aside
    /// where another turtle is in its way.
    pub fn step_with(&mut self, reply: Option<TurtResponse>, dodge: bool) -> (r: Action)
        requires
            digger_wf(old(self)@),
            reply is Some <==> digger_awaits(old(self)@),
        ensures
            (final(self)@, r@) == spec_digger_step(old(self)@, reply, dodge),
            digger_wf(final(self)@),
            r@ is Send <==> digger_awaits(final(self)@),
            final(self)@.layer >= old(self)@.layer,
            final(self)@.stack_count >= old(self)@.stack_count,
    {
        match self.running {
            Running::Nav => {
                let a = self.nav.step_with(reply, dodge);
                match a {
                    Action::Finished => {
                        self.running = Running::Neither;
                        Action::Continue
                    },
                    _ => a,
                }
            },
            Running::Inv => {
                let a = self.inv.step(reply);
                match a {
                    Action::Finished => {
                        self.running = Running::Neither;
                        Action::Continue
                    },
                    _ => a,
                }
            },
            Running::Neither => match reply {
                Some(_) => {
                    self.waiting = Pending::Nothing;
                    Action::Continue
                },
                None => self.advance(),
            },
        }
    }

    /// Takes one step of the mining.  Where another turtle is in the way, a
    /// coin decides whether the turtle steps aside.
    pub fn step(&mut self, reply: Option<TurtResponse>) -> (r: Action)
        requires
            digger_wf(old(self)@),
            reply is Some <==> digger_awaits(old(self)@),
        ensures
            (final(self)@, r@) == spec_digger_step(old(self)@, reply, true) || (final(self)@, r@)
                == spec_digger_step(old(self)@, reply, false),
            digger_wf(final(self)@),
            r@ is Send <==> digger_awaits(final(self)@),
    {
        let dodge = self.nav.dodges();
        self.step_with(reply, dodge)
    }

    /// The navigation of the turtle, when the mining is over.
    pub fn into_nav(self) -> (r: TurtNavigation)
        ensures
            r@ == self@.nav,
    {
        self.nav
    }
}

} // verus!
