//! Where a turtle is, and how it gets elsewhere.
//!
//! The position is the truth about where the turtle is, not where it was sent:
//! it changes only when the turtle confirms a move.  A journey is a list of
//! things to do; each step of the engine takes the next thing from the list,
//! or reacts to the response that the turtle gave to the last command.

use vstd::prelude::*;
use rand::Rng;
use crate::coords::{Axis, Order};
use crate::text::{
    after_line,
    first_line,
    int_text,
    is_line,
    lemma_int_text_round_trip,
    lemma_split_line,
    parse_int,
    push_int,
    split_line,
    text_int,
    LINE_FEED,
};
use crate::turtle_core::control::{
    spec_dig,
    spec_insp,
    spec_mv,
    Action,
    ActionView,
    Face,
    Failure,
    StateFile,
    TurtControl,
};
use crate::turtle_core::data::{
    located_from_json,
    spec_inspect,
    spec_located,
    spec_movement,
    TurtInspect,
    TurtMovement,
    TurtResponse,
};
use crate::turtle_core::file_system_storage::FStore;
use crate::turtle_core::heading::Head;
use crate::turtle_core::position::{Pos, PosH};

verus! {

/// Directory that holds the position files.
pub const NAV_DIR: &'static str = "positions";

/// The position of a turtle as it is kept in its file.
#[derive(Debug, Clone, Copy, PartialEq, Eq, Structural)]
pub struct FStoreNav {
    pub p: PosH,
}

/// The heading that a line of a position file stands for.
pub open spec fn head_of_line(l: Seq<u8>) -> Option<Head> {
    if l == seq![110u8] {
        Some(Head::N)
    } else if l == seq![101u8] {
        Some(Head::E)
    } else if l == seq![115u8] {
        Some(Head::S)
    } else if l == seq![119u8] {
        Some(Head::W)
    } else {
        None
    }
}

/// A coordinate that a line of a position file stands for.
pub open spec fn coord_of_line(l: Seq<u8>) -> Option<i64> {
    match text_int(l) {
        Some(v) => if i64::MIN <= v <= i64::MAX {
            Some(v as i64)
        } else {
            None
        },
        None => None,
    }
}

/// The text of a position file: `x`, `y`, `z` and the letter of the heading,
/// each on a line of its own.
pub open spec fn nav_text(p: PosH) -> Seq<u8> {
    int_text(p.x as int) + seq![10u8] + (int_text(p.y as int) + seq![10u8] + (int_text(p.z as int)
        + seq![10u8] + (seq![p.h.letter()] + seq![10u8] + Seq::<u8>::empty())))
}

/// The position that the text of a position file stands for.
pub open spec fn nav_parse(d: Seq<u8>) -> Option<PosH> {
    let r0 = after_line(d);
    let r1 = after_line(r0);
    let r2 = after_line(r1);
    match (
        coord_of_line(first_line(d)),
        coord_of_line(first_line(r0)),
        coord_of_line(first_line(r1)),
        head_of_line(first_line(r2)),
    ) {
        (Some(x), Some(y), Some(z), Some(h)) => Some(PosH { x, y, z, h }),
        _ => None,
    }
}

/// A position that was written is read back as it was.
pub proof fn lemma_nav_round_trip(p: PosH)
    ensures
        nav_parse(nav_text(p)) == Some(p),
{
    let l0 = int_text(p.x as int);
    let l1 = int_text(p.y as int);
    let l2 = int_text(p.z as int);
    let l3 = seq![p.h.letter()];
    let r3 = Seq::<u8>::empty();
    let r2 = l3 + seq![10u8] + r3;
    let r1 = l2 + seq![10u8] + r2;
    let r0 = l1 + seq![10u8] + r1;
    lemma_int_text_round_trip(p.x as int);
    lemma_int_text_round_trip(p.y as int);
    lemma_int_text_round_trip(p.z as int);
    assert(is_line(l3));
    lemma_split_line(l0, r0);
    lemma_split_line(l1, r1);
    lemma_split_line(l2, r2);
    lemma_split_line(l3, r3);
    assert(nav_text(p) == l0 + seq![10u8] + r0);
}

fn parse_head(l: &[u8]) -> (r: Option<Head>)
    ensures
        r == head_of_line(l@),
{
    if l.len() != 1 {
        return None;
    }
    let c = l[0];
    assert(l@ =~= seq![c]);
    if c == 110 {
        Some(Head::N)
    } else if c == 101 {
        Some(Head::E)
    } else if c == 115 {
        Some(Head::S)
    } else if c == 119 {
        Some(Head::W)
    } else {
        None
    }
}

fn head_letter(h: Head) -> (r: u8)
    ensures
        r == h.letter(),
{
    match h {
        Head::N => 110,
        Head::E => 101,
        Head::S => 115,
        Head::W => 119,
    }
}

/// Writes a position as the text of a position file.
pub fn write_nav(p: &PosH) -> (r: Vec<u8>)
    ensures
        r@ == nav_text(*p),
{
    let mut out: Vec<u8> = Vec::new();
    push_int(p.x, &mut out);
    out.push(LINE_FEED);
    push_int(p.y, &mut out);
    out.push(LINE_FEED);
    push_int(p.z, &mut out);
    out.push(LINE_FEED);
    out.push(head_letter(p.h));
    out.push(LINE_FEED);
    assert(out@ =~= nav_text(*p));
    out
}

/// Reads a position from the text of a position file.
pub fn read_nav(d: &[u8]) -> (r: Option<PosH>)
    ensures
        r == nav_parse(d@),
{
    let (l0, r0) = split_line(d);
    let (l1, r1) = split_line(r0);
    let (l2, r2) = split_line(r1);
    let (l3, _r3) = split_line(r2);
    let x = match parse_int(l0) {
        Some(v) => v,
        None => {
            return None;
        },
    };
    let y = match parse_int(l1) {
        Some(v) => v,
        None => {
            return None;
        },
    };
    let z = match parse_int(l2) {
        Some(v) => v,
        None => {
            return None;
        },
    };
    match parse_head(l3) {
        Some(h) => Some(PosH { x, y, z, h }),
        None => None,
    }
}

impl FStore for FStoreNav {
    open spec fn text(&self) -> Seq<u8> {
        nav_text(self.p)
    }

    open spec fn parse(d: Seq<u8>) -> Option<Self> {
        match nav_parse(d) {
            Some(p) => Some(FStoreNav { p }),
            None => None,
        }
    }

    open spec fn initial() -> Self {
        FStoreNav { p: PosH { x: 0, y: 0, z: 0, h: Head::N } }
    }

    fn default() -> (r: Self) {
        FStoreNav { p: PosH { x: 0, y: 0, z: 0, h: Head::N } }
    }

    fn save(&self) -> (r: Vec<u8>) {
        write_nav(&self.p)
    }

    fn load(d: &[u8]) -> (r: Option<Self>) {
        match read_nav(d) {
            Some(p) => Some(FStoreNav { p }),
            None => None,
        }
    }

    proof fn lemma_reload(&self) {
        lemma_nav_round_trip(self.p);
    }
}


/// Name of the block that a turtle is seen as.
pub open spec fn spec_turtle_block() -> Seq<char> {
    "computercraft:turtle_normal"@
}

/// One thing that a turtle has to do on its journey.
#[derive(Debug, Clone, Copy)]
pub enum Errand {
    /// Turn a quarter to the left.
    TurnLeft,
    /// Turn a quarter to the right.
    TurnRight,
    /// Turn until the heading is the given one.
    TurnHead(Head),
    /// Take the given heading for reached, and keep it.
    SetHead(Head),
    /// Move one block: look first, and clear the way.
    Move(Face),
    /// Move one block, now that the way was looked at.
    Attempt(Face),
    /// Move one block backwards, if that succeeds.
    Back,
    /// Move a number of blocks.
    Steps(Face, u64),
    /// Go to a place, axis by axis, from the axis at the given place of the
    /// order on.
    Sweep(Pos, Order, u8),
    /// Ask where the turtle is, to learn its heading from a move.
    Locate,
    /// Ask again where the turtle is, after it moved on from the given place.
    Relocate(i64, i64, i64),
}

/// The command whose response is awaited.
#[derive(Debug, Clone, Copy)]
pub enum Waiting {
    Nothing,
    Turned,
    Inspected(Face),
    Dug(Face),
    Moved(Face),
    Backed,
    Located,
    Relocated(i64, i64, i64),
}

/// What the journey as a whole is for.
#[derive(Debug, Clone, Copy)]
pub enum Job {
    /// Single moves and turns.
    Free,
    /// Turning to a heading.
    Face(Head),
    /// Going to a place, and taking a heading there if `has_head` is set.
    /// `turning` is set once the place was reached.
    Goto { dst: Pos, order: Order, head: Head, has_head: bool, turning: bool },
}

/// Model of the navigation of a turtle.
pub struct NavState {
    pub p: PosH,
    pub avoid: bool,
    /// What is left to do; the last entry comes first.
    pub agenda: Seq<Errand>,
    pub waiting: Waiting,
    pub job: Job,
}

/// One more: the coordinate after `v`, where the world closes on itself.
pub open spec fn wrap_inc(v: i64) -> i64 {
    if v == i64::MAX {
        i64::MIN
    } else {
        (v + 1) as i64
    }
}

/// One less: the coordinate before `v`, where the world closes on itself.
pub open spec fn wrap_dec(v: i64) -> i64 {
    if v == i64::MIN {
        i64::MAX
    } else {
        (v - 1) as i64
    }
}

/// The position after one block forwards: north is less `z`, east is more
/// `x`, south is more `z`, west is less `x`.  The world closes on itself at
/// the ends of the coordinates.
pub open spec fn forward(p: PosH) -> PosH {
    match p.h {
        Head::N => PosH { z: wrap_dec(p.z), ..p },
        Head::E => PosH { x: wrap_inc(p.x), ..p },
        Head::S => PosH { z: wrap_inc(p.z), ..p },
        Head::W => PosH { x: wrap_dec(p.x), ..p },
    }
}

/// The position after one block backwards.
pub open spec fn backward(p: PosH) -> PosH {
    match p.h {
        Head::N => PosH { z: wrap_inc(p.z), ..p },
        Head::E => PosH { x: wrap_dec(p.x), ..p },
        Head::S => PosH { z: wrap_dec(p.z), ..p },
        Head::W => PosH { x: wrap_inc(p.x), ..p },
    }
}

/// The position after one block in the given direction.
pub open spec fn moved(p: PosH, face: Face) -> PosH {
    match face {
        Face::Forw => forward(p),
        Face::Up => PosH { y: wrap_inc(p.y), ..p },
        Face::Down => PosH { y: wrap_dec(p.y), ..p },
    }
}

/// The position after `n` blocks in the given direction.
pub open spec fn moved_n(p: PosH, face: Face, n: nat) -> PosH
    decreases n,
{
    if n == 0 {
        p
    } else {
        moved_n(moved(p, face), face, (n - 1) as nat)
    }
}

/// Distance between two coordinates along one axis.
pub open spec fn spec_distance(a: i64, b: i64) -> nat {
    if a < b {
        (b - a) as nat
    } else {
        (a - b) as nat
    }
}

/// The turns that realise a rotation: one to the left for -1, as many to the
/// right as a positive rotation counts.
pub open spec fn turn_items(r: int) -> Seq<Errand> {
    if r < 0 {
        seq![Errand::TurnLeft]
    } else if r == 1 {
        seq![Errand::TurnRight]
    } else if r == 2 {
        seq![Errand::TurnRight, Errand::TurnRight]
    } else {
        Seq::empty()
    }
}

/// What there is to do along one axis on the way from `p` to `dst`: turn
/// towards the place, and move as many blocks as it is away.
pub open spec fn axis_items(p: PosH, dst: Pos, axis: Axis) -> Seq<Errand> {
    match axis {
        Axis::X => if p.x < dst.x {
            seq![Errand::Steps(Face::Forw, spec_distance(p.x, dst.x) as u64), Errand::TurnHead(Head::E)]
        } else if p.x > dst.x {
            seq![Errand::Steps(Face::Forw, spec_distance(p.x, dst.x) as u64), Errand::TurnHead(Head::W)]
        } else {
            Seq::empty()
        },
        Axis::Y => if p.y < dst.y {
            seq![Errand::Steps(Face::Up, spec_distance(p.y, dst.y) as u64)]
        } else if p.y > dst.y {
            seq![Errand::Steps(Face::Down, spec_distance(p.y, dst.y) as u64)]
        } else {
            Seq::empty()
        },
        Axis::Z => if p.z < dst.z {
            seq![Errand::Steps(Face::Forw, spec_distance(p.z, dst.z) as u64), Errand::TurnHead(Head::S)]
        } else if p.z > dst.z {
            seq![Errand::Steps(Face::Forw, spec_distance(p.z, dst.z) as u64), Errand::TurnHead(Head::N)]
        } else {
            Seq::empty()
        },
    }
}

/// The turtle confirmed a move.
pub open spec fn spec_success(resp: TurtResponse) -> bool {
    match resp {
        TurtResponse::Value(j) => match spec_movement(j) {
            Ok(m) => m.success,
            Err(_) => false,
        },
        _ => false,
    }
}

/// What the turtle saw: a block by its name, or empty space.  Nothing where
/// the response cannot be read.
pub open spec fn spec_seen(resp: TurtResponse) -> Option<Option<Seq<char>>> {
    match resp {
        TurtResponse::Value(j) => match spec_inspect(j) {
            Ok(b) => Some(b),
            Err(_) => None,
        },
        _ => None,
    }
}

/// Where the turtle was located.  Nothing where the response cannot be read.
pub open spec fn spec_fix(resp: TurtResponse) -> Option<(i64, i64, i64)> {
    match resp {
        TurtResponse::Value(j) => match spec_located(j) {
            Ok(c) => Some(c),
            Err(_) => None,
        },
        _ => None,
    }
}

/// The heading of a turtle that moved from `(x1, z1)` to `(x2, z2)`.
pub open spec fn heading_of_move(x1: i64, z1: i64, x2: i64, z2: i64) -> Head {
    if z2 < z1 {
        Head::N
    } else if z2 > z1 {
        Head::S
    } else if x2 < x1 {
        Head::W
    } else {
        Head::E
    }
}

/// The state after the response to the awaited command was taken in, and what
/// is asked of the driver.
pub open spec fn spec_react(s: NavState, resp: TurtResponse, dodge: bool) -> (NavState, ActionView) {
    let quiet = NavState { waiting: Waiting::Nothing, ..s };
    match s.waiting {
        Waiting::Nothing => (s, ActionView::Continue),
        Waiting::Turned => (quiet, ActionView::Save(StateFile::Nav, nav_text(s.p))),
        Waiting::Inspected(f) => match spec_seen(resp) {
            None => (NavState { agenda: s.agenda.push(Errand::Move(f)), ..quiet }, ActionView::Continue),
            Some(None) => (
                NavState { agenda: s.agenda.push(Errand::Attempt(f)), ..quiet },
                ActionView::Continue,
            ),
            Some(Some(name)) => if !s.avoid || name != spec_turtle_block() {
                (
                    NavState {
                        agenda: s.agenda.push(Errand::Attempt(f)),
                        waiting: Waiting::Dug(f),
                        ..s
                    },
                    ActionView::Send(spec_dig(f)),
                )
            } else if dodge {
                (
                    NavState {
                        agenda: s.agenda.push(Errand::Attempt(f)).push(Errand::Move(Face::Down)).push(
                            Errand::Move(Face::Forw),
                        ).push(Errand::Move(Face::Up)),
                        ..quiet
                    },
                    ActionView::Continue,
                )
            } else {
                (NavState { agenda: s.agenda.push(Errand::Attempt(f)), ..quiet }, ActionView::Continue)
            },
        },
        Waiting::Dug(f) => (quiet, ActionView::Continue),
        Waiting::Moved(f) => if spec_success(resp) {
            (
                NavState { p: moved(s.p, f), ..quiet },
                ActionView::Save(StateFile::Nav, nav_text(moved(s.p, f))),
            )
        } else {
            (NavState { agenda: s.agenda.push(Errand::Move(f)), ..quiet }, ActionView::Continue)
        },
        Waiting::Backed => if spec_success(resp) {
            (
                NavState { p: backward(s.p), ..quiet },
                ActionView::Save(StateFile::Nav, nav_text(backward(s.p))),
            )
        } else {
            (quiet, ActionView::Continue)
        },
        Waiting::Located => match spec_fix(resp) {
            Some((x, y, z)) => (
                NavState {
                    agenda: s.agenda.push(Errand::Relocate(x, y, z)).push(Errand::Move(Face::Forw)),
                    ..quiet
                },
                ActionView::Continue,
            ),
            None => (
                NavState { agenda: Seq::empty(), job: Job::Free, ..quiet },
                ActionView::Failed(Failure::NoGps),
            ),
        },
        Waiting::Relocated(x1, y1, z1) => match spec_fix(resp) {
            Some((x, y, z)) => {
                let p = PosH { x, y, z, h: heading_of_move(x1, z1, x, z) };
                (NavState { p, ..quiet }, ActionView::Save(StateFile::Nav, nav_text(p)))
            },
            None => (
                NavState { agenda: Seq::empty(), job: Job::Free, ..quiet },
                ActionView::Failed(Failure::NoGps),
            ),
        },
    }
}

/// The state after the next thing to do was taken up, and what is asked of
/// the driver.
pub open spec fn spec_advance(s: NavState) -> (NavState, ActionView) {
    if s.agenda.len() == 0 {
        match s.job {
            Job::Goto { dst, order, head, has_head, turning } => if !turning && s.avoid
                && s.p.spec_pos() != dst {
                (NavState { agenda: seq![Errand::Sweep(dst, order, 0)], ..s }, ActionView::Continue)
            } else if !turning && has_head {
                (
                    NavState {
                        agenda: seq![Errand::TurnHead(head)],
                        job: Job::Goto { dst, order, head, has_head, turning: true },
                        ..s
                    },
                    ActionView::Continue,
                )
            } else {
                (s, ActionView::Finished)
            },
            _ => (s, ActionView::Finished),
        }
    } else {
        let rest = s.agenda.drop_last();
        let next = NavState { agenda: rest, ..s };
        match s.agenda.last() {
            Errand::TurnLeft => (
                NavState {
                    p: PosH { h: s.p.h.spec_left(), ..s.p },
                    waiting: Waiting::Turned,
                    ..next
                },
                ActionView::Send("turtle.turnLeft()"@),
            ),
            Errand::TurnRight => (
                NavState {
                    p: PosH { h: s.p.h.spec_right(), ..s.p },
                    waiting: Waiting::Turned,
                    ..next
                },
                ActionView::Send("turtle.turnRight()"@),
            ),
            Errand::TurnHead(h) => (
                NavState {
                    agenda: rest.push(Errand::SetHead(h)) + turn_items(s.p.h.spec_diff(h)),
                    ..s
                },
                ActionView::Continue,
            ),
            Errand::SetHead(h) => (
                NavState { p: PosH { h, ..s.p }, ..next },
                ActionView::Save(StateFile::Nav, nav_text(PosH { h, ..s.p })),
            ),
            Errand::Move(f) => (
                NavState { waiting: Waiting::Inspected(f), ..next },
                ActionView::Send(spec_insp(f)),
            ),
            Errand::Attempt(f) => (
                NavState { waiting: Waiting::Moved(f), ..next },
                ActionView::Send(spec_mv(f)),
            ),
            Errand::Back => (
                NavState { waiting: Waiting::Backed, ..next },
                ActionView::Send("turtle.back()"@),
            ),
            Errand::Steps(f, n) => if n == 0 {
                (next, ActionView::Continue)
            } else {
                (
                    NavState {
                        agenda: rest.push(Errand::Steps(f, (n - 1) as u64)).push(Errand::Move(f)),
                        ..s
                    },
                    ActionView::Continue,
                )
            },
            Errand::Sweep(dst, order, i) => if i >= 3 {
                (next, ActionView::Continue)
            } else {
                (
                    NavState {
                        agenda: rest.push(Errand::Sweep(dst, order, (i + 1) as u8)) + axis_items(
                            s.p,
                            dst,
                            order.spec_axis(i as int),
                        ),
                        ..s
                    },
                    ActionView::Continue,
                )
            },
            Errand::Locate => (
                NavState { waiting: Waiting::Located, ..next },
                ActionView::Send("gps.locate()"@),
            ),
            Errand::Relocate(x, y, z) => (
                NavState { waiting: Waiting::Relocated(x, y, z), ..next },
                ActionView::Send("gps.locate()"@),
            ),
        }
    }
}

/// One step of the navigation.  While a command is in flight, `reply` holds
/// the response to it; `dodge` says whether the turtle steps aside where
/// another turtle is in its way.
pub open spec fn spec_step(s: NavState, reply: Option<TurtResponse>, dodge: bool) -> (
    NavState,
    ActionView,
) {
    if s.waiting is Nothing {
        spec_advance(s)
    } else {
        spec_react(s, reply->Some_0, dodge)
    }
}


/// The state of the navigation at the beginning of a journey to a place.
pub open spec fn journey_in(nav: NavState, dst: Pos, order: Order) -> NavState {
    NavState {
        agenda: seq![Errand::Sweep(dst, order, 0)],
        job: Job::Goto { dst, order, head: Head::N, has_head: false, turning: false },
        ..nav
    }
}

/// The state of the navigation at the beginning of a journey to a place, at
/// the end of which the turtle takes a heading.
pub open spec fn journey_head_in(nav: NavState, dst: PosH, order: Order) -> NavState {
    NavState {
        agenda: seq![Errand::Sweep(dst.spec_pos(), order, 0)],
        job: Job::Goto {
            dst: dst.spec_pos(),
            order: order,
            head: dst.h,
            has_head: true,
            turning: false,
        },
        ..nav
    }
}


/// The state of the navigation at the beginning of a journey to a place,
/// along x, then y, then z.
pub open spec fn journey(nav: NavState, dst: Pos) -> NavState {
    journey_in(nav, dst, Order::XYZ)
}

/// The state of the navigation at the beginning of a journey to a place,
/// along x, then y, then z, at the end of which the turtle takes a heading.
pub open spec fn journey_head(nav: NavState, dst: PosH) -> NavState {
    journey_head_in(nav, dst, Order::XYZ)
}

/// The state of the navigation at the beginning of a turn to a heading.
pub open spec fn facing(nav: NavState, h: Head) -> NavState {
    NavState { agenda: seq![Errand::TurnHead(h)], job: Job::Face(h), ..nav }
}

/// Nothing is left to do, and no command is in flight.
pub open spec fn idle(s: NavState) -> bool {
    s.agenda.len() == 0 && s.waiting is Nothing
}

/// Flips a coin with rand's thread-local generator (`rand::thread_rng`):
/// `Rng::gen_range(0..2)` gives 0 or 1, and nothing more is known of it.
#[verifier::external_body]
fn coin() -> (r: u32)
    ensures
        r < 2,
{
    rand::thread_rng().gen_range(0..2)
}

/// Says whether a turtle steps aside for another one, from the side on which
/// the coin fell: a turtle that avoids others steps aside on 0, and only then.
pub fn steps_aside(avoid_other_turtles: bool, coin: u32) -> (r: bool)
    ensures
        r == (avoid_other_turtles && coin == 0),
{
    avoid_other_turtles && coin == 0
}

fn distance(a: i64, b: i64) -> (r: u64)
    ensures
        r == spec_distance(a, b),
{
    if a < b {
        ((b as i128) - (a as i128)) as u64
    } else {
        ((a as i128) - (b as i128)) as u64
    }
}

fn inc(v: i64) -> (r: i64)
    ensures
        r == wrap_inc(v),
{
    if v == i64::MAX {
        i64::MIN
    } else {
        v + 1
    }
}

fn dec(v: i64) -> (r: i64)
    ensures
        r == wrap_dec(v),
{
    if v == i64::MIN {
        i64::MAX
    } else {
        v - 1
    }
}

fn step_to(p: PosH, face: Face) -> (r: PosH)
    ensures
        r == moved(p, face),
{
    match face {
        Face::Forw => match p.h {
            Head::N => PosH { x: p.x, y: p.y, z: dec(p.z), h: p.h },
            Head::E => PosH { x: inc(p.x), y: p.y, z: p.z, h: p.h },
            Head::S => PosH { x: p.x, y: p.y, z: inc(p.z), h: p.h },
            Head::W => PosH { x: dec(p.x), y: p.y, z: p.z, h: p.h },
        },
        Face::Up => PosH { x: p.x, y: inc(p.y), z: p.z, h: p.h },
        Face::Down => PosH { x: p.x, y: dec(p.y), z: p.z, h: p.h },
    }
}

fn step_back(p: PosH) -> (r: PosH)
    ensures
        r == backward(p),
{
    match p.h {
        Head::N => PosH { x: p.x, y: p.y, z: inc(p.z), h: p.h },
        Head::E => PosH { x: dec(p.x), y: p.y, z: p.z, h: p.h },
        Head::S => PosH { x: p.x, y: p.y, z: dec(p.z), h: p.h },
        Head::W => PosH { x: inc(p.x), y: p.y, z: p.z, h: p.h },
    }
}

/// Says whether a response confirms a move.
pub fn reply_success(resp: &TurtResponse) -> (r: bool)
    ensures
        r == spec_success(*resp),
{
    match resp {
        TurtResponse::Value(j) => match TurtMovement::from_json(j) {
            Ok(m) => m.success(),
            Err(_) => false,
        },
        _ => false,
    }
}

/// Reads what the turtle saw from a response.
pub fn reply_seen(resp: &TurtResponse) -> (r: Option<TurtInspect>)
    ensures
        match spec_seen(*resp) {
            Some(b) => r is Some && r->Some_0@ == b,
            None => r is None,
        },
{
    match resp {
        TurtResponse::Value(j) => match TurtInspect::from_json(j) {
            Ok(i) => Some(i),
            Err(_) => None,
        },
        _ => None,
    }
}

/// Reads where the turtle was located from a response.
pub fn reply_fix(resp: &TurtResponse) -> (r: Option<(i64, i64, i64)>)
    ensures
        r == spec_fix(*resp),
{
    match resp {
        TurtResponse::Value(j) => match located_from_json(j) {
            Ok(c) => Some(c),
            Err(_) => None,
        },
        _ => None,
    }
}

fn is_turtle(name: &String) -> (r: bool)
    ensures
        r == (name@ == spec_turtle_block()),
{
    let t = "computercraft:turtle_normal".to_string();
    *name == t
}

fn move_heading(x1: i64, z1: i64, x2: i64, z2: i64) -> (r: Head)
    ensures
        r == heading_of_move(x1, z1, x2, z2),
{
    if z2 < z1 {
        Head::N
    } else if z2 > z1 {
        Head::S
    } else if x2 < x1 {
        Head::W
    } else {
        Head::E
    }
}

/// The navigation of one turtle: where it is, and what is left of its
/// journey.
#[derive(Debug)]
pub struct TurtNavigation {
    turt: TurtControl,
    avoid_other_turtles: bool,
    fstore_nav: FStoreNav,
    agenda: Vec<Errand>,
    waiting: Waiting,
    job: Job,
}

impl View for TurtNavigation {
    type V = NavState;

    closed spec fn view(&self) -> NavState {
        NavState {
            p: self.fstore_nav.p,
            avoid: self.avoid_other_turtles,
            agenda: self.agenda@,
            waiting: self.waiting,
            job: self.job,
        }
    }
}

impl TurtNavigation {
    /// The navigation of a turtle that stands where its state file says.
    pub fn new(turt: TurtControl, avoid_other_turtles: bool, fstore_nav: FStoreNav) -> (r: Self)
        ensures
            r@ == (NavState {
                p: fstore_nav.p,
                avoid: avoid_other_turtles,
                agenda: Seq::empty(),
                waiting: Waiting::Nothing,
                job: Job::Free,
            }),
    {
        TurtNavigation {
            turt,
            avoid_other_turtles,
            fstore_nav,
            agenda: Vec::new(),
            waiting: Waiting::Nothing,
            job: Job::Free,
        }
    }

    /// Where the turtle is.
    pub fn pos(&self) -> (r: &PosH)
        ensures
            *r == self@.p,
    {
        &self.fstore_nav.p
    }

    /// Puts the turtle at a position that is known from elsewhere.
    pub fn set_pos(&mut self, p: PosH)
        requires
            idle(old(self)@),
        ensures
            final(self)@ == (NavState { p, ..old(self)@ }),
    {
        self.fstore_nav.p = p;
    }

    /// The text that keeps the position.
    pub fn pos_save(&self) -> (r: Vec<u8>)
        ensures
            r@ == nav_text(self@.p),
    {
        write_nav(&self.fstore_nav.p)
    }

    /// Says whether nothing is left to do.
    pub fn is_idle(&self) -> (r: bool)
        ensures
            r == idle(self@),
    {
        self.agenda.len() == 0 && matches!(self.waiting, Waiting::Nothing)
    }

    /// Says whether a command is in flight, so that the next step takes the
    /// response to it.
    pub fn awaits_reply(&self) -> (r: bool)
        ensures
            r == !(self@.waiting is Nothing),
    {
        !matches!(self.waiting, Waiting::Nothing)
    }

    fn begin(&mut self, first: Errand, job: Job)
        requires
            idle(old(self)@),
        ensures
            final(self)@ == (NavState { agenda: seq![first], job, ..old(self)@ }),
    {
        self.job = job;
        self.agenda.push(first);
        assert(self.agenda@ =~= seq![first]);
    }

    /// Begins to find out where the turtle is and where it looks: it is
    /// located, moves one block forwards, and is located again.
    pub fn gps_init(&mut self)
        requires
            idle(old(self)@),
        ensures
            final(self)@ == (NavState { agenda: seq![Errand::Locate], job: Job::Free, ..old(self)@ }),
    {
        self.begin(Errand::Locate, Job::Free);
    }

    /// Begins to turn the turtle to the heading `h`.
    pub fn turn_head(&mut self, h: Head)
        requires
            idle(old(self)@),
        ensures
            final(self)@ == facing(old(self)@, h),
    {
        self.begin(Errand::TurnHead(h), Job::Face(h));
    }

    /// Begins a quarter turn to the left.
    pub fn turn_left(&mut self)
        requires
            idle(old(self)@),
        ensures
            final(self)@ == (NavState { agenda: seq![Errand::TurnLeft], job: Job::Free, ..old(self)@ }),
    {
        self.begin(Errand::TurnLeft, Job::Free);
    }

    /// Begins a quarter turn to the right.
    pub fn turn_right(&mut self)
        requires
            idle(old(self)@),
        ensures
            final(self)@ == (NavState {
                agenda: seq![Errand::TurnRight],
                job: Job::Free,
                ..old(self)@
            }),
    {
        self.begin(Errand::TurnRight, Job::Free);
    }

    /// Begins a move of one block forwards.  The turtle does not give up: it
    /// clears or waits out whatever is in its way.
    pub fn mv_forw(&mut self)
        requires
            idle(old(self)@),
        ensures
            final(self)@ == (NavState {
                agenda: seq![Errand::Move(Face::Forw)],
                job: Job::Free,
                ..old(self)@
            }),
    {
        self.begin(Errand::Move(Face::Forw), Job::Free);
    }

    /// Begins a move of one block backwards.  It is tried once.
    pub fn mv_back(&mut self)
        requires
            idle(old(self)@),
        ensures
            final(self)@ == (NavState { agenda: seq![Errand::Back], job: Job::Free, ..old(self)@ }),
    {
        self.begin(Errand::Back, Job::Free);
    }

    /// Begins a move of one block upwards.
    pub fn mv_up(&mut self)
        requires
            idle(old(self)@),
        ensures
            final(self)@ == (NavState {
                agenda: seq![Errand::Move(Face::Up)],
                job: Job::Free,
                ..old(self)@
            }),
    {
        self.begin(Errand::Move(Face::Up), Job::Free);
    }

    /// Begins a move of one block downwards.
    pub fn mv_down(&mut self)
        requires
            idle(old(self)@),
        ensures
            final(self)@ == (NavState {
                agenda: seq![Errand::Move(Face::Down)],
                job: Job::Free,
                ..old(self)@
            }),
    {
        self.begin(Errand::Move(Face::Down), Job::Free);
    }

    /// Begins a journey to the place `dst`, at the end of which the turtle
    /// takes the heading of `dst`.
    pub fn goto_head(&mut self, dst: &PosH, order: Order)
        requires
            idle(old(self)@),
        ensures
            final(self)@ == journey_head_in(old(self)@, *dst, order),
    {
        let to = dst.pos();
        self.begin(
            Errand::Sweep(to, order, 0),
            Job::Goto { dst: to, order, head: dst.h, has_head: true, turning: false },
        );
    }

    /// Begins a journey to the place `dst`, one axis after the other in the
    /// given order.
    pub fn goto_nohead(&mut self, dst: &Pos, order: Order)
        requires
            idle(old(self)@),
        ensures
            final(self)@ == journey_in(old(self)@, *dst, order),
    {
        self.begin(
            Errand::Sweep(*dst, order, 0),
            Job::Goto { dst: *dst, order, head: Head::N, has_head: false, turning: false },
        );
    }

    fn save_action(&self) -> (r: Action)
        ensures
            r@ == ActionView::Save(StateFile::Nav, nav_text(self@.p)),
    {
        Action::Save(StateFile::Nav, write_nav(&self.fstore_nav.p))
    }

    fn push_axis(&mut self, dst: Pos, axis: Axis)
        ensures
            final(self)@ == (NavState {
                agenda: old(self)@.agenda + axis_items(old(self)@.p, dst, axis),
                ..old(self)@
            }),
    {
        let p = self.fstore_nav.p;
        match axis {
            Axis::X => {
                if p.x < dst.x {
                    self.agenda.push(Errand::Steps(Face::Forw, distance(p.x, dst.x)));
                    self.agenda.push(Errand::TurnHead(Head::E));
                } else if p.x > dst.x {
                    self.agenda.push(Errand::Steps(Face::Forw, distance(p.x, dst.x)));
                    self.agenda.push(Errand::TurnHead(Head::W));
                }
            },
            Axis::Y => {
                if p.y < dst.y {
                    self.agenda.push(Errand::Steps(Face::Up, distance(p.y, dst.y)));
                } else if p.y > dst.y {
                    self.agenda.push(Errand::Steps(Face::Down, distance(p.y, dst.y)));
                }
            },
            Axis::Z => {
                if p.z < dst.z {
                    self.agenda.push(Errand::Steps(Face::Forw, distance(p.z, dst.z)));
                    self.agenda.push(Errand::TurnHead(Head::S));
                } else if p.z > dst.z {
                    self.agenda.push(Errand::Steps(Face::Forw, distance(p.z, dst.z)));
                    self.agenda.push(Errand::TurnHead(Head::N));
                }
            },
        }
        assert(self.agenda@ =~= old(self)@.agenda + axis_items(old(self)@.p, dst, axis));
    }

    fn advance(&mut self) -> (r: Action)
        requires
            old(self)@.waiting is Nothing,
        ensures
            (final(self)@, r@) == spec_advance(old(self)@),
    {
        if self.agenda.len() == 0 {
            match self.job {
                Job::Goto { dst, order, head, has_head, turning } => {
                    let p = self.fstore_nav.p;
                    let there = p.x == dst.x && p.y == dst.y && p.z == dst.z;
                    if !turning && self.avoid_other_turtles && !there {
                        self.agenda.push(Errand::Sweep(dst, order, 0));
                        assert(self.agenda@ =~= seq![Errand::Sweep(dst, order, 0)]);
                        Action::Continue
                    } else if !turning && has_head {
                        self.agenda.push(Errand::TurnHead(head));
                        self.job = Job::Goto { dst, order, head, has_head, turning: true };
                        assert(self.agenda@ =~= seq![Errand::TurnHead(head)]);
                        Action::Continue
                    } else {
                        Action::Finished
                    }
                },
                _ => Action::Finished,
            }
        } else {
            let ghost rest = self.agenda@.drop_last();
            let top = self.agenda.pop().unwrap();
            assert(self.agenda@ =~= rest);
            match top {
                Errand::TurnLeft => {
                    self.fstore_nav.p.h = self.fstore_nav.p.h.left();
                    self.waiting = Waiting::Turned;
                    Action::Send(self.turt.turn_left())
                },
                Errand::TurnRight => {
                    self.fstore_nav.p.h = self.fstore_nav.p.h.right();
                    self.waiting = Waiting::Turned;
                    Action::Send(self.turt.turn_right())
                },
                Errand::TurnHead(h) => {
                    let r = self.fstore_nav.p.h.diff(&h);
                    self.agenda.push(Errand::SetHead(h));
                    if r < 0 {
                        self.agenda.push(Errand::TurnLeft);
                    } else if r == 1 {
                        self.agenda.push(Errand::TurnRight);
                    } else if r == 2 {
                        self.agenda.push(Errand::TurnRight);
                        self.agenda.push(Errand::TurnRight);
                    }
                    assert(self.agenda@ =~= rest.push(Errand::SetHead(h)) + turn_items(r as int));
                    Action::Continue
                },
                Errand::SetHead(h) => {
                    self.fstore_nav.p.h = h;
                    self.save_action()
                },
                Errand::Move(f) => {
                    self.waiting = Waiting::Inspected(f);
                    Action::Send(self.turt.insp(f))
                },
                Errand::Attempt(f) => {
                    self.waiting = Waiting::Moved(f);
                    Action::Send(self.turt.mv(f))
                },
                Errand::Back => {
                    self.waiting = Waiting::Backed;
                    Action::Send(self.turt.mv_back())
                },
                Errand::Steps(f, n) => {
                    if n > 0 {
                        self.agenda.push(Errand::Steps(f, n - 1));
                        self.agenda.push(Errand::Move(f));
                    }
                    Action::Continue
                },
                Errand::Sweep(dst, order, i) => {
                    if i < 3 {
                        self.agenda.push(Errand::Sweep(dst, order, i + 1));
                        self.push_axis(dst, order.axis(i));
                    }
                    Action::Continue
                },
                Errand::Locate => {
                    self.waiting = Waiting::Located;
                    Action::Send(self.turt.gps())
                },
                Errand::Relocate(x, y, z) => {
                    self.waiting = Waiting::Relocated(x, y, z);
                    Action::Send(self.turt.gps())
                },
            }
        }
    }

    fn fail(&mut self) -> (r: Action)
        ensures
            final(self)@ == (NavState {
                agenda: Seq::empty(),
                job: Job::Free,
                waiting: Waiting::Nothing,
                ..old(self)@
            }),
            r@ == ActionView::Failed(Failure::NoGps),
    {
        self.agenda = Vec::new();
        self.job = Job::Free;
        self.waiting = Waiting::Nothing;
        Action::Failed(Failure::NoGps)
    }

    fn react(&mut self, resp: TurtResponse, dodge: bool) -> (r: Action)
        ensures
            (final(self)@, r@) == spec_react(old(self)@, resp, dodge),
    {
        let waiting = self.waiting;
        match waiting {
            Waiting::Nothing => Action::Continue,
            Waiting::Turned => {
                self.waiting = Waiting::Nothing;
                self.save_action()
            },
            Waiting::Inspected(f) => {
                match reply_seen(&resp) {
                    None => {
                        self.waiting = Waiting::Nothing;
                        self.agenda.push(Errand::Move(f));
                        Action::Continue
                    },
                    Some(inspect) => {
                        self.agenda.push(Errand::Attempt(f));
                        match inspect.block() {
                            None => {
                                self.waiting = Waiting::Nothing;
                                Action::Continue
                            },
                            Some(name) => {
                                if !self.avoid_other_turtles || !is_turtle(name) {
                                    self.waiting = Waiting::Dug(f);
                                    Action::Send(self.turt.dig(f))
                                } else {
                                    self.waiting = Waiting::Nothing;
                                    if dodge {
                                        self.agenda.push(Errand::Move(Face::Down));
                                        self.agenda.push(Errand::Move(Face::Forw));
                                        self.agenda.push(Errand::Move(Face::Up));
                                    }
                                    Action::Continue
                                }
                            },
                        }
                    },
                }
            },
            Waiting::Dug(_f) => {
                self.waiting = Waiting::Nothing;
                Action::Continue
            },
            Waiting::Moved(f) => {
                self.waiting = Waiting::Nothing;
                if reply_success(&resp) {
                    self.fstore_nav.p = step_to(self.fstore_nav.p, f);
                    self.save_action()
                } else {
                    self.agenda.push(Errand::Move(f));
                    Action::Continue
                }
            },
            Waiting::Backed => {
                self.waiting = Waiting::Nothing;
                if reply_success(&resp) {
                    self.fstore_nav.p = step_back(self.fstore_nav.p);
                    self.save_action()
                } else {
                    Action::Continue
                }
            },
            Waiting::Located => {
                match reply_fix(&resp) {
                    Some((x, y, z)) => {
                        self.waiting = Waiting::Nothing;
                        self.agenda.push(Errand::Relocate(x, y, z));
                        self.agenda.push(Errand::Move(Face::Forw));
                        Action::Continue
                    },
                    None => self.fail(),
                }
            },
            Waiting::Relocated(x1, _y1, z1) => {
                match reply_fix(&resp) {
                    Some((x, y, z)) => {
                        self.waiting = Waiting::Nothing;
                        self.fstore_nav.p = PosH { x, y, z, h: move_heading(x1, z1, x, z) };
                        self.save_action()
                    },
                    None => self.fail(),
                }
            },
        }
    }

    /// Takes one step of the journey.  While a command is in flight, `reply`
    /// holds the response to it; `dodge` says whether the turtle steps aside
    /// where another turtle is in its way.
    pub fn step_with(&mut self, reply: Option<TurtResponse>, dodge: bool) -> (r: Action)
        requires
            reply is Some <==> !(old(self)@.waiting is Nothing),
        ensures
            (final(self)@, r@) == spec_step(old(self)@, reply, dodge),
            r@ is Send <==> !(final(self)@.waiting is Nothing),
    {
        match reply {
            Some(resp) => self.react(resp, dodge),
            None => self.advance(),
        }
    }

    /// Flips the coin that decides whether the turtle steps aside where
    /// another turtle is in its way.  A turtle that does not avoid others never
    /// steps aside, and no coin is flipped for it.
    pub fn dodges(&self) -> (r: bool)
        ensures
            r ==> self@.avoid,
    {
        if !self.avoid_other_turtles {
            return false;
        }
        steps_aside(self.avoid_other_turtles, coin())
    }

    /// Takes one step of the journey.  Where another turtle is in the way, a
    /// coin decides whether the turtle steps aside.
    pub fn step(&mut self, reply: Option<TurtResponse>) -> (r: Action)
        requires
            reply is Some <==> !(old(self)@.waiting is Nothing),
        ensures
            (final(self)@, r@) == spec_step(old(self)@, reply, true) || (final(self)@, r@)
                == spec_step(old(self)@, reply, false),
            r@ is Send <==> !(final(self)@.waiting is Nothing),
    {
        let dodge = self.dodges();
        self.step_with(reply, dodge)
    }
}


} // verus!
