//! Where a journey leads: what is left to do says where the turtle will
//! stand when all of it is done, and every step of the navigation keeps to
//! that.

use vstd::prelude::*;
use crate::coords::{Axis, Order};
use crate::turtle_core::control::{ActionView, Face, StateFile};
use crate::turtle_core::data::TurtResponse;
use crate::turtle_core::heading::Head;
use crate::turtle_core::navigation::{
    axis_items,
    facing,
    idle,
    journey_head_in,
    journey_in,
    moved,
    moved_n,
    nav_text,
    spec_advance,
    spec_distance,
    spec_react,
    spec_step,
    spec_success,
    turn_items,
    Errand,
    Job,
    NavState,
    Waiting,
};
use crate::turtle_core::position::{Pos, PosH};

verus! {

/// Where a thing to do leaves the turtle, if nothing gets in its way.  A move
/// backwards and a location count for nothing here: what they come to is not
/// known before the turtle answers.
pub open spec fn settle_item(p: PosH, t: Errand) -> PosH {
    match t {
        Errand::TurnLeft => PosH { h: p.h.spec_left(), ..p },
        Errand::TurnRight => PosH { h: p.h.spec_right(), ..p },
        Errand::TurnHead(h) => PosH { h, ..p },
        Errand::SetHead(h) => PosH { h, ..p },
        Errand::Move(f) => moved(p, f),
        Errand::Attempt(f) => moved(p, f),
        Errand::Back => p,
        Errand::Steps(f, n) => moved_n(p, f, n as nat),
        Errand::Sweep(dst, order, i) => sweep_from(p, dst, order, i as int),
        Errand::Locate => p,
        Errand::Relocate(_, _, _) => p,
    }
}

/// Where the moves along one axis leave the turtle.
pub open spec fn sweep_axis(p: PosH, dst: Pos, axis: Axis) -> PosH {
    match axis {
        Axis::X => if p.x < dst.x {
            moved_n(PosH { h: Head::E, ..p }, Face::Forw, spec_distance(p.x, dst.x))
        } else if p.x > dst.x {
            moved_n(PosH { h: Head::W, ..p }, Face::Forw, spec_distance(p.x, dst.x))
        } else {
            p
        },
        Axis::Y => if p.y < dst.y {
            moved_n(p, Face::Up, spec_distance(p.y, dst.y))
        } else if p.y > dst.y {
            moved_n(p, Face::Down, spec_distance(p.y, dst.y))
        } else {
            p
        },
        Axis::Z => if p.z < dst.z {
            moved_n(PosH { h: Head::S, ..p }, Face::Forw, spec_distance(p.z, dst.z))
        } else if p.z > dst.z {
            moved_n(PosH { h: Head::N, ..p }, Face::Forw, spec_distance(p.z, dst.z))
        } else {
            p
        },
    }
}

/// Where the moves along the axes from place `i` of the order on leave the
/// turtle.
pub open spec fn sweep_from(p: PosH, dst: Pos, order: Order, i: int) -> PosH
    decreases 3 - i,
{
    if i >= 3 || i < 0 {
        p
    } else {
        sweep_from(sweep_axis(p, dst, order.spec_axis(i)), dst, order, i + 1)
    }
}

/// Where a list of things to do leaves the turtle, if nothing gets in its
/// way.
pub open spec fn settle(p: PosH, agenda: Seq<Errand>) -> PosH
    decreases agenda.len(),
{
    if agenda.len() == 0 {
        p
    } else {
        settle(settle_item(p, agenda.last()), agenda.drop_last())
    }
}

/// Where the turtle is once the command in flight has done its work.
pub open spec fn after_wait(p: PosH, w: Waiting) -> PosH {
    match w {
        Waiting::Inspected(f) => moved(p, f),
        Waiting::Moved(f) => moved(p, f),
        _ => p,
    }
}

/// A thing to do that turns the turtle and does not move it.
pub open spec fn turn_only(t: Errand) -> bool {
    t is TurnLeft || t is TurnRight || t is TurnHead || t is SetHead
}

/// A thing to do whose outcome does not hang on what the turtle answers.
pub open spec fn calm_item(t: Errand) -> bool {
    !(t is Back || t is Locate || t is Relocate)
}

/// Only turns are left.
pub open spec fn turning(s: NavState) -> bool {
    &&& forall|i: int| 0 <= i < s.agenda.len() ==> turn_only(#[trigger] s.agenda[i])
    &&& (s.waiting is Nothing || s.waiting is Turned)
}

/// Nothing is left whose outcome hangs on what the turtle answers.
pub open spec fn calm(s: NavState) -> bool {
    &&& forall|i: int| 0 <= i < s.agenda.len() ==> calm_item(#[trigger] s.agenda[i])
    &&& !(s.waiting is Backed || s.waiting is Located || s.waiting is Relocated)
}

/// The journey is on course: what is left to do leads to where the journey is
/// meant to end.
pub open spec fn on_course(s: NavState) -> bool {
    match s.job {
        Job::Free => true,
        Job::Face(h) => turning(s) && settle(s.p, s.agenda).h == h,
        Job::Goto { dst, order, head, has_head, turning: true } => {
            &&& has_head
            &&& turning(s)
            &&& s.p.spec_pos() == dst
            &&& settle(s.p, s.agenda).h == head
        },
        Job::Goto { dst, order, head, has_head, turning: false } => {
            &&& calm(s)
            &&& !s.avoid ==> settle(after_wait(s.p, s.waiting), s.agenda).spec_pos() == dst
        },
    }
}

/// What comes first on the list is done first.
pub proof fn lemma_settle_push(p: PosH, agenda: Seq<Errand>, t: Errand)
    ensures
        settle(p, agenda.push(t)) == settle(settle_item(p, t), agenda),
{
    assert(agenda.push(t).drop_last() =~= agenda);
}

/// A list that is put on top of another is done before it.
pub proof fn lemma_settle_concat(p: PosH, a: Seq<Errand>, b: Seq<Errand>)
    ensures
        settle(p, a + b) == settle(settle(p, b), a),
    decreases b.len(),
{
    if b.len() == 0 {
        assert(a + b =~= a);
    } else {
        assert((a + b).drop_last() =~= a + b.drop_last());
        assert((a + b).last() == b.last());
        lemma_settle_concat(settle_item(p, b.last()), a, b.drop_last());
    }
}

proof fn lemma_settle_turns(p: PosH, agenda: Seq<Errand>)
    requires
        forall|i: int| 0 <= i < agenda.len() ==> turn_only(#[trigger] agenda[i]),
    ensures
        settle(p, agenda).spec_pos() == p.spec_pos(),
    decreases agenda.len(),
{
    if agenda.len() > 0 {
        assert(turn_only(agenda[agenda.len() - 1]));
        assert forall|i: int| 0 <= i < agenda.drop_last().len() implies turn_only(
            #[trigger] agenda.drop_last()[i],
        ) by {
            assert(agenda.drop_last()[i] == agenda[i]);
        }
        lemma_settle_turns(settle_item(p, agenda.last()), agenda.drop_last());
    }
}

/// Moving `n` blocks changes one coordinate by `n`, as long as that stays
/// within the world, and nothing else.
pub proof fn lemma_moved_n(p: PosH, face: Face, n: nat)
    ensures
        moved_n(p, face, n).h == p.h,
        face == Face::Up && p.y + n <= i64::MAX ==> moved_n(p, face, n) == (PosH {
            y: (p.y + n) as i64,
            ..p
        }),
        face == Face::Down && p.y - n >= i64::MIN ==> moved_n(p, face, n) == (PosH {
            y: (p.y - n) as i64,
            ..p
        }),
        face == Face::Forw && p.h == Head::E && p.x + n <= i64::MAX ==> moved_n(p, face, n) == (PosH {
            x: (p.x + n) as i64,
            ..p
        }),
        face == Face::Forw && p.h == Head::W && p.x - n >= i64::MIN ==> moved_n(p, face, n) == (PosH {
            x: (p.x - n) as i64,
            ..p
        }),
        face == Face::Forw && p.h == Head::S && p.z + n <= i64::MAX ==> moved_n(p, face, n) == (PosH {
            z: (p.z + n) as i64,
            ..p
        }),
        face == Face::Forw && p.h == Head::N && p.z - n >= i64::MIN ==> moved_n(p, face, n) == (PosH {
            z: (p.z - n) as i64,
            ..p
        }),
    decreases n,
{
    if n > 0 {
        lemma_moved_n(moved(p, face), face, (n - 1) as nat);
    }
}

/// The moves along an axis bring the turtle to the coordinate of the place
/// on that axis and leave the other two as they are.
pub proof fn lemma_sweep_axis(p: PosH, dst: Pos, axis: Axis)
    ensures
        axis == Axis::X ==> sweep_axis(p, dst, axis).x == dst.x && sweep_axis(p, dst, axis).y == p.y
            && sweep_axis(p, dst, axis).z == p.z,
        axis == Axis::Y ==> sweep_axis(p, dst, axis).y == dst.y && sweep_axis(p, dst, axis).x == p.x
            && sweep_axis(p, dst, axis).z == p.z,
        axis == Axis::Z ==> sweep_axis(p, dst, axis).z == dst.z && sweep_axis(p, dst, axis).y == p.y
            && sweep_axis(p, dst, axis).x == p.x,
        sweep_axis(p, dst, axis) == settle(p, axis_items(p, dst, axis)),
{
    let items = axis_items(p, dst, axis);
    match axis {
        Axis::X => {
            if p.x != dst.x {
                let h = if p.x < dst.x {
                    Head::E
                } else {
                    Head::W
                };
                let q = PosH { h, ..p };
                let n = spec_distance(p.x, dst.x);
                lemma_moved_n(q, Face::Forw, n);
                assert(items.drop_last() =~= seq![Errand::Steps(Face::Forw, n as u64)]);
                assert(items.drop_last().drop_last() =~= Seq::<Errand>::empty());
                assert(settle(p, items) == settle(q, items.drop_last()));
                assert(settle(q, items.drop_last()) == settle(
                    moved_n(q, Face::Forw, n),
                    Seq::<Errand>::empty(),
                ));
            }
        },
        Axis::Y => {
            if p.y != dst.y {
                let f = if p.y < dst.y {
                    Face::Up
                } else {
                    Face::Down
                };
                let n = spec_distance(p.y, dst.y);
                lemma_moved_n(p, f, n);
                assert(items.drop_last() =~= Seq::<Errand>::empty());
                assert(settle(p, items) == settle(moved_n(p, f, n), Seq::<Errand>::empty()));
            }
        },
        Axis::Z => {
            if p.z != dst.z {
                let h = if p.z < dst.z {
                    Head::S
                } else {
                    Head::N
                };
                let q = PosH { h, ..p };
                let n = spec_distance(p.z, dst.z);
                lemma_moved_n(q, Face::Forw, n);
                assert(items.drop_last() =~= seq![Errand::Steps(Face::Forw, n as u64)]);
                assert(items.drop_last().drop_last() =~= Seq::<Errand>::empty());
                assert(settle(p, items) == settle(q, items.drop_last()));
                assert(settle(q, items.drop_last()) == settle(
                    moved_n(q, Face::Forw, n),
                    Seq::<Errand>::empty(),
                ));
            }
        },
    }
}

/// The moves along all three axes bring the turtle to the place, whatever
/// the order.
pub proof fn lemma_sweep_reaches(p: PosH, dst: Pos, order: Order)
    ensures
        sweep_from(p, dst, order, 0).spec_pos() == dst,
{
    let a = sweep_axis(p, dst, order.spec_axis(0));
    let b = sweep_axis(a, dst, order.spec_axis(1));
    let c = sweep_axis(b, dst, order.spec_axis(2));
    lemma_sweep_axis(p, dst, order.spec_axis(0));
    lemma_sweep_axis(a, dst, order.spec_axis(1));
    lemma_sweep_axis(b, dst, order.spec_axis(2));
    assert(sweep_from(c, dst, order, 3) == c);
    assert(sweep_from(b, dst, order, 2) == c);
    assert(sweep_from(a, dst, order, 1) == c);
}

/// A journey that begins is on course: a turtle that is sent to a place, or
/// told to turn to a heading, has that end before it.
pub proof fn lemma_begins_on_course(s: NavState, dst: Pos, order: Order, head: Head, has_head: bool)
    requires
        idle(s),
    ensures
        on_course(
            NavState {
                agenda: seq![Errand::Sweep(dst, order, 0)],
                job: Job::Goto { dst, order, head, has_head, turning: false },
                ..s
            },
        ),
        on_course(NavState { agenda: seq![Errand::TurnHead(head)], job: Job::Face(head), ..s }),
{
    let t = seq![Errand::Sweep(dst, order, 0)];
    assert(t.drop_last() =~= Seq::<Errand>::empty());
    lemma_sweep_reaches(s.p, dst, order);
    assert(settle(s.p, t) == settle(sweep_from(s.p, dst, order, 0), Seq::<Errand>::empty()));
    let u = seq![Errand::TurnHead(head)];
    assert(u.drop_last() =~= Seq::<Errand>::empty());
    assert(settle(s.p, u) == settle(PosH { h: head, ..s.p }, Seq::<Errand>::empty()));
}


proof fn lemma_turn_items(p: PosH, h: Head, rest: Seq<Errand>)
    ensures
        settle(p, rest.push(Errand::SetHead(h)) + turn_items(p.h.spec_diff(h))) == settle(
            PosH { h, ..p },
            rest,
        ),
        forall|i: int|
            0 <= i < turn_items(p.h.spec_diff(h)).len() ==> turn_only(
                #[trigger] turn_items(p.h.spec_diff(h))[i],
            ),
{
    let items = turn_items(p.h.spec_diff(h));
    lemma_settle_concat(p, rest.push(Errand::SetHead(h)), items);
    lemma_settle_turns(p, items);
    lemma_settle_push(settle(p, items), rest, Errand::SetHead(h));
}

proof fn lemma_all_pushed(agenda: Seq<Errand>, t: Errand)
    ensures
        (forall|i: int| 0 <= i < agenda.len() ==> turn_only(#[trigger] agenda[i])) && turn_only(t) ==> (
        forall|i: int| 0 <= i < agenda.push(t).len() ==> turn_only(#[trigger] agenda.push(t)[i])),
        (forall|i: int| 0 <= i < agenda.len() ==> calm_item(#[trigger] agenda[i])) && calm_item(t) ==> (
        forall|i: int| 0 <= i < agenda.push(t).len() ==> calm_item(#[trigger] agenda.push(t)[i])),
{
    if (forall|i: int| 0 <= i < agenda.len() ==> turn_only(#[trigger] agenda[i])) && turn_only(t) {
        assert forall|i: int| 0 <= i < agenda.push(t).len() implies turn_only(
            #[trigger] agenda.push(t)[i],
        ) by {
            if i < agenda.len() {
                assert(agenda.push(t)[i] == agenda[i]);
            }
        }
    }
    if (forall|i: int| 0 <= i < agenda.len() ==> calm_item(#[trigger] agenda[i])) && calm_item(t) {
        assert forall|i: int| 0 <= i < agenda.push(t).len() implies calm_item(
            #[trigger] agenda.push(t)[i],
        ) by {
            if i < agenda.len() {
                assert(agenda.push(t)[i] == agenda[i]);
            }
        }
    }
}

proof fn lemma_all_dropped(agenda: Seq<Errand>)
    requires
        agenda.len() > 0,
    ensures
        (forall|i: int| 0 <= i < agenda.len() ==> turn_only(#[trigger] agenda[i])) ==> (forall|i: int|
            0 <= i < agenda.drop_last().len() ==> turn_only(#[trigger] agenda.drop_last()[i]))
            && turn_only(agenda.last()),
        (forall|i: int| 0 <= i < agenda.len() ==> calm_item(#[trigger] agenda[i])) ==> (forall|i: int|
            0 <= i < agenda.drop_last().len() ==> calm_item(#[trigger] agenda.drop_last()[i]))
            && calm_item(agenda.last()),
{
    if forall|i: int| 0 <= i < agenda.len() ==> turn_only(#[trigger] agenda[i]) {
        assert(turn_only(agenda[agenda.len() - 1]));
        assert forall|i: int| 0 <= i < agenda.drop_last().len() implies turn_only(
            #[trigger] agenda.drop_last()[i],
        ) by {
            assert(agenda.drop_last()[i] == agenda[i]);
        }
    }
    if forall|i: int| 0 <= i < agenda.len() ==> calm_item(#[trigger] agenda[i]) {
        assert(calm_item(agenda[agenda.len() - 1]));
        assert forall|i: int| 0 <= i < agenda.drop_last().len() implies calm_item(
            #[trigger] agenda.drop_last()[i],
        ) by {
            assert(agenda.drop_last()[i] == agenda[i]);
        }
    }
}

proof fn lemma_all_concat(a: Seq<Errand>, b: Seq<Errand>)
    ensures
        (forall|i: int| 0 <= i < a.len() ==> turn_only(#[trigger] a[i])) && (forall|i: int|
            0 <= i < b.len() ==> turn_only(#[trigger] b[i])) ==> (forall|i: int|
            0 <= i < (a + b).len() ==> turn_only(#[trigger] (a + b)[i])),
        (forall|i: int| 0 <= i < a.len() ==> calm_item(#[trigger] a[i])) && (forall|i: int|
            0 <= i < b.len() ==> calm_item(#[trigger] b[i])) ==> (forall|i: int|
            0 <= i < (a + b).len() ==> calm_item(#[trigger] (a + b)[i])),
{
    if (forall|i: int| 0 <= i < a.len() ==> turn_only(#[trigger] a[i])) && (forall|i: int|
        0 <= i < b.len() ==> turn_only(#[trigger] b[i])) {
        assert forall|i: int| 0 <= i < (a + b).len() implies turn_only(#[trigger] (a + b)[i]) by {
            if i < a.len() {
                assert((a + b)[i] == a[i]);
            } else {
                assert((a + b)[i] == b[i - a.len()]);
            }
        }
    }
    if (forall|i: int| 0 <= i < a.len() ==> calm_item(#[trigger] a[i])) && (forall|i: int|
        0 <= i < b.len() ==> calm_item(#[trigger] b[i])) {
        assert forall|i: int| 0 <= i < (a + b).len() implies calm_item(#[trigger] (a + b)[i]) by {
            if i < a.len() {
                assert((a + b)[i] == a[i]);
            } else {
                assert((a + b)[i] == b[i - a.len()]);
            }
        }
    }
}

/// Taking up the next thing to do does not change where the list of things
/// to do leads, as long as the outcome of that thing does not hang on what
/// the turtle answers.
proof fn lemma_advance_settles(s: NavState)
    requires
        s.waiting is Nothing,
        s.agenda.len() > 0,
        calm_item(s.agenda.last()),
    ensures
        settle(after_wait(spec_advance(s).0.p, spec_advance(s).0.waiting), spec_advance(s).0.agenda)
            == settle(s.p, s.agenda),
        turn_only(s.agenda.last()) ==> spec_advance(s).0.p.spec_pos() == s.p.spec_pos(),
{
    let rest = s.agenda.drop_last();
    match s.agenda.last() {
        Errand::TurnHead(h) => {
            lemma_turn_items(s.p, h, rest);
        },
        Errand::Steps(f, n) => {
            if n > 0 {
                lemma_settle_push(s.p, rest.push(Errand::Steps(f, (n - 1) as u64)), Errand::Move(f));
                lemma_settle_push(moved(s.p, f), rest, Errand::Steps(f, (n - 1) as u64));
            }
        },
        Errand::Sweep(dst, order, i) => {
            if i < 3 {
                let axis = order.spec_axis(i as int);
                let next = Errand::Sweep(dst, order, (i + 1) as u8);
                lemma_settle_concat(s.p, rest.push(next), axis_items(s.p, dst, axis));
                lemma_sweep_axis(s.p, dst, axis);
                lemma_settle_push(sweep_axis(s.p, dst, axis), rest, next);
            }
        },
        _ => {},
    }
}

proof fn lemma_advance_turning(s: NavState, h: Head)
    requires
        s.waiting is Nothing,
        s.agenda.len() > 0,
        turning(s),
        settle(s.p, s.agenda).h == h,
    ensures
        turning(spec_advance(s).0),
        settle(spec_advance(s).0.p, spec_advance(s).0.agenda).h == h,
        spec_advance(s).0.p.spec_pos() == s.p.spec_pos(),
        spec_advance(s).0.job == s.job,
        !(spec_advance(s).1 is Finished),
{
    lemma_all_dropped(s.agenda);
    lemma_advance_settles(s);
    let rest = s.agenda.drop_last();
    match s.agenda.last() {
        Errand::TurnHead(h2) => {
            lemma_turn_items(s.p, h2, rest);
            lemma_all_pushed(rest, Errand::SetHead(h2));
            lemma_all_concat(rest.push(Errand::SetHead(h2)), turn_items(s.p.h.spec_diff(h2)));
        },
        _ => {},
    }
}

proof fn lemma_advance_calm(s: NavState)
    requires
        s.waiting is Nothing,
        s.agenda.len() > 0,
        calm(s),
    ensures
        calm(spec_advance(s).0),
        settle(after_wait(spec_advance(s).0.p, spec_advance(s).0.waiting), spec_advance(s).0.agenda)
            == settle(s.p, s.agenda),
        spec_advance(s).0.job == s.job,
        !(spec_advance(s).1 is Finished),
{
    lemma_all_dropped(s.agenda);
    lemma_advance_settles(s);
    let rest = s.agenda.drop_last();
    match s.agenda.last() {
        Errand::TurnHead(h) => {
            lemma_all_pushed(rest, Errand::SetHead(h));
            lemma_all_concat(rest.push(Errand::SetHead(h)), turn_items(s.p.h.spec_diff(h)));
        },
        Errand::Steps(f, n) => {
            lemma_all_pushed(rest, Errand::Steps(f, (n - 1) as u64));
            lemma_all_pushed(rest.push(Errand::Steps(f, (n - 1) as u64)), Errand::Move(f));
        },
        Errand::Sweep(dst, order, i) => {
            let next = Errand::Sweep(dst, order, (i + 1) as u8);
            lemma_all_pushed(rest, next);
            lemma_all_concat(rest.push(next), axis_items(s.p, dst, order.spec_axis(i as int)));
        },
        _ => {},
    }
}

proof fn lemma_react_calm(s: NavState, resp: TurtResponse, dodge: bool)
    requires
        !(s.waiting is Nothing),
        calm(s),
    ensures
        calm(spec_react(s, resp, dodge).0),
        !s.avoid ==> settle(
            after_wait(spec_react(s, resp, dodge).0.p, spec_react(s, resp, dodge).0.waiting),
            spec_react(s, resp, dodge).0.agenda,
        ) == settle(after_wait(s.p, s.waiting), s.agenda),
        spec_react(s, resp, dodge).0.job == s.job,
        !(spec_react(s, resp, dodge).1 is Finished),
{
    match s.waiting {
        Waiting::Inspected(f) => {
            lemma_all_pushed(s.agenda, Errand::Move(f));
            lemma_all_pushed(s.agenda, Errand::Attempt(f));
            let t1 = s.agenda.push(Errand::Attempt(f));
            let t2 = t1.push(Errand::Move(Face::Down));
            let t3 = t2.push(Errand::Move(Face::Forw));
            lemma_all_pushed(t1, Errand::Move(Face::Down));
            lemma_all_pushed(t2, Errand::Move(Face::Forw));
            lemma_all_pushed(t3, Errand::Move(Face::Up));
            lemma_settle_push(s.p, s.agenda, Errand::Move(f));
            lemma_settle_push(s.p, s.agenda, Errand::Attempt(f));
        },
        Waiting::Moved(f) => {
            lemma_all_pushed(s.agenda, Errand::Move(f));
            lemma_settle_push(s.p, s.agenda, Errand::Move(f));
        },
        _ => {},
    }
}

proof fn lemma_idle_course(s: NavState)
    requires
        on_course(s),
        s.waiting is Nothing,
        s.agenda.len() == 0,
    ensures
        on_course(spec_advance(s).0),
        spec_advance(s).0.job == s.job || (s.job is Goto && spec_advance(s).0.job is Goto),
        spec_advance(s).1 is Finished ==> spec_advance(s).0 == s && match s.job {
            Job::Free => true,
            Job::Face(h) => s.p.h == h,
            Job::Goto { dst, order, head, has_head, turning } => s.p.spec_pos() == dst && (has_head
                ==> s.p.h == head),
        },
{
    match s.job {
        Job::Goto { dst, order, head, has_head, turning } => {
            lemma_begins_on_course(s, dst, order, head, has_head);
            let u = seq![Errand::TurnHead(head)];
            assert(u.drop_last() =~= Seq::<Errand>::empty());
            assert(settle(s.p, u) == settle(PosH { h: head, ..s.p }, Seq::<Errand>::empty()));
        },
        _ => {},
    }
}

/// A step keeps a journey on course.  When the journey is finished, nothing
/// is left to do, a turtle that was sent to a place is there, and a turtle
/// that was told to take a heading has it.
pub proof fn lemma_step_keeps_course(s: NavState, reply: Option<TurtResponse>, dodge: bool)
    requires
        on_course(s),
        reply is Some <==> !(s.waiting is Nothing),
    ensures
        on_course(spec_step(s, reply, dodge).0),
        spec_step(s, reply, dodge).1 is Finished ==> {
            let t = spec_step(s, reply, dodge).0;
            &&& t == s
            &&& idle(t)
            &&& match t.job {
                Job::Free => true,
                Job::Face(h) => t.p.h == h,
                Job::Goto { dst, order, head, has_head, turning } => t.p.spec_pos() == dst && (
                has_head ==> t.p.h == head),
            }
        },
{
    if s.waiting is Nothing {
        if s.agenda.len() == 0 {
            lemma_idle_course(s);
        } else {
            match s.job {
                Job::Free => {
                    lemma_advance_free(s);
                },
                Job::Face(h) => {
                    lemma_advance_turning(s, h);
                },
                Job::Goto { dst, order, head, has_head, turning } => {
                    if turning {
                        lemma_advance_turning(s, head);
                    } else {
                        lemma_advance_calm(s);
                    }
                },
            }
        }
    } else {
        let resp = reply->Some_0;
        match s.job {
            Job::Free => {
                lemma_react_free(s, resp, dodge);
            },
            Job::Face(h) => {
                lemma_react_turning(s, resp, dodge);
            },
            Job::Goto { dst, order, head, has_head, turning } => {
                if turning {
                    lemma_react_turning(s, resp, dodge);
                } else {
                    lemma_react_calm(s, resp, dodge);
                }
            },
        }
    }
}

proof fn lemma_advance_free(s: NavState)
    requires
        s.waiting is Nothing,
        s.agenda.len() > 0,
    ensures
        spec_advance(s).0.job == s.job,
        !(spec_advance(s).1 is Finished),
{
}

proof fn lemma_react_free(s: NavState, resp: TurtResponse, dodge: bool)
    requires
        !(s.waiting is Nothing),
    ensures
        spec_react(s, resp, dodge).0.job == s.job || spec_react(s, resp, dodge).0.job is Free,
        !(spec_react(s, resp, dodge).1 is Finished),
{
}

proof fn lemma_react_turning(s: NavState, resp: TurtResponse, dodge: bool)
    requires
        s.waiting is Turned,
    ensures
        spec_react(s, resp, dodge).0 == (NavState { waiting: Waiting::Nothing, ..s }),
        !(spec_react(s, resp, dodge).1 is Finished),
{
}

/// The step that a move takes: up is more `y`, down is less `y`, and forwards
/// is less `z` to the north, more `x` to the east, more `z` to the south and
/// less `x` to the west.
pub open spec fn unit_vector(h: Head, face: Face) -> (int, int, int) {
    match face {
        Face::Up => (0, 1, 0),
        Face::Down => (0, -1, 0),
        Face::Forw => match h {
            Head::N => (0, 0, -1),
            Head::E => (1, 0, 0),
            Head::S => (0, 0, 1),
            Head::W => (-1, 0, 0),
        },
    }
}

/// The move does not lead over the edge of the world.
pub open spec fn off_edge(p: PosH, v: (int, int, int)) -> bool {
    &&& i64::MIN <= p.x + v.0 <= i64::MAX
    &&& i64::MIN <= p.y + v.1 <= i64::MAX
    &&& i64::MIN <= p.z + v.2 <= i64::MAX
}

/// A move that the turtle confirms changes the position by the step of the
/// move, and by nothing else, and the new position is kept at once.
pub proof fn lemma_confirmed_move(s: NavState, resp: TurtResponse, dodge: bool)
    requires
        s.waiting is Moved,
        spec_success(resp),
        off_edge(s.p, unit_vector(s.p.h, s.waiting->Moved_0)),
    ensures
        spec_step(s, Some(resp), dodge).0.p.x == s.p.x + unit_vector(s.p.h, s.waiting->Moved_0).0,
        spec_step(s, Some(resp), dodge).0.p.y == s.p.y + unit_vector(s.p.h, s.waiting->Moved_0).1,
        spec_step(s, Some(resp), dodge).0.p.z == s.p.z + unit_vector(s.p.h, s.waiting->Moved_0).2,
        spec_step(s, Some(resp), dodge).0.p.h == s.p.h,
        spec_step(s, Some(resp), dodge).1 == ActionView::Save(
            StateFile::Nav,
            nav_text(spec_step(s, Some(resp), dodge).0.p),
        ),
{
}

/// A move backwards that the turtle confirms changes the position by the
/// step forwards, taken back, and the new position is kept at once.
pub proof fn lemma_confirmed_move_back(s: NavState, resp: TurtResponse, dodge: bool)
    requires
        s.waiting is Backed,
        spec_success(resp),
        off_edge(
            s.p,
            (
                -unit_vector(s.p.h, Face::Forw).0,
                -unit_vector(s.p.h, Face::Forw).1,
                -unit_vector(s.p.h, Face::Forw).2,
            ),
        ),
    ensures
        spec_step(s, Some(resp), dodge).0.p.x == s.p.x - unit_vector(s.p.h, Face::Forw).0,
        spec_step(s, Some(resp), dodge).0.p.y == s.p.y,
        spec_step(s, Some(resp), dodge).0.p.z == s.p.z - unit_vector(s.p.h, Face::Forw).2,
        spec_step(s, Some(resp), dodge).0.p.h == s.p.h,
        spec_step(s, Some(resp), dodge).1 == ActionView::Save(
            StateFile::Nav,
            nav_text(spec_step(s, Some(resp), dodge).0.p),
        ),
{
}

/// A move that the turtle does not confirm changes nothing, and nothing is
/// kept.
pub proof fn lemma_unconfirmed_move(s: NavState, resp: TurtResponse, dodge: bool)
    requires
        s.waiting is Moved || s.waiting is Backed,
        !spec_success(resp),
    ensures
        spec_step(s, Some(resp), dodge).0.p == s.p,
        spec_step(s, Some(resp), dodge).1 == ActionView::Continue,
{
}

/// One command is in flight at a time: a step that sends a command leaves the
/// navigation waiting for the response, and no other step does.
pub proof fn lemma_one_command_in_flight(s: NavState, reply: Option<TurtResponse>, dodge: bool)
    requires
        reply is Some <==> !(s.waiting is Nothing),
    ensures
        spec_step(s, reply, dodge).1 is Send <==> !(spec_step(s, reply, dodge).0.waiting
            is Nothing),
{
}

/// The place of the turtle changes only when the turtle confirms a move or
/// is located, and every change of place or heading is kept: at once, or,
/// for a turn, as soon as the turtle has answered.
pub proof fn lemma_changes_are_kept(s: NavState, reply: Option<TurtResponse>, dodge: bool)
    requires
        reply is Some <==> !(s.waiting is Nothing),
    ensures
        spec_step(s, reply, dodge).0.p.spec_pos() != s.p.spec_pos() ==> (s.waiting is Moved
            || s.waiting is Backed || s.waiting is Relocated),
        spec_step(s, reply, dodge).0.p != s.p ==> spec_step(s, reply, dodge).1 == ActionView::Save(
            StateFile::Nav,
            nav_text(spec_step(s, reply, dodge).0.p),
        ) || spec_step(s, reply, dodge).0.waiting is Turned,
        s.waiting is Turned ==> spec_step(s, reply, dodge).1 == ActionView::Save(
            StateFile::Nav,
            nav_text(s.p),
        ),
{
}

/// What the turtle answers to one step, if a response is due, and whether
/// the turtle steps aside at that step.
pub struct Feed {
    pub reply: Option<TurtResponse>,
    pub dodge: bool,
}

/// The responses come when they are due: at every step that follows a
/// command, and at no other.
pub open spec fn in_turn(s: NavState, feed: Seq<Feed>) -> bool
    decreases feed.len(),
{
    if feed.len() == 0 {
        true
    } else {
        &&& feed[0].reply is Some <==> !(s.waiting is Nothing)
        &&& in_turn(spec_step(s, feed[0].reply, feed[0].dodge).0, feed.skip(1))
    }
}

/// The state after the steps that are fed one after the other.
pub open spec fn after_steps(s: NavState, feed: Seq<Feed>) -> NavState
    decreases feed.len(),
{
    if feed.len() == 0 {
        s
    } else {
        after_steps(spec_step(s, feed[0].reply, feed[0].dodge).0, feed.skip(1))
    }
}

/// What is asked of the driver at the last of the steps that are fed.
pub open spec fn last_action(s: NavState, feed: Seq<Feed>) -> ActionView
    decreases feed.len(),
{
    if feed.len() <= 1 {
        spec_step(s, feed[0].reply, feed[0].dodge).1
    } else {
        last_action(spec_step(s, feed[0].reply, feed[0].dodge).0, feed.skip(1))
    }
}

/// Whatever happens on the way, a journey that is on course stays on course,
/// and when it is finished the turtle is where it was sent and looks where
/// it was told to.
pub proof fn lemma_journey_ends_at_goal(s: NavState, feed: Seq<Feed>)
    requires
        on_course(s),
        in_turn(s, feed),
        feed.len() > 0,
    ensures
        on_course(after_steps(s, feed)),
        last_action(s, feed) is Finished ==> idle(after_steps(s, feed)) && match after_steps(
            s,
            feed,
        ).job {
            Job::Free => true,
            Job::Face(h) => after_steps(s, feed).p.h == h,
            Job::Goto { dst, order, head, has_head, turning } => after_steps(s, feed).p.spec_pos()
                == dst && (has_head ==> after_steps(s, feed).p.h == head),
        },
    decreases feed.len(),
{
    lemma_step_keeps_course(s, feed[0].reply, feed[0].dodge);
    if feed.len() > 1 {
        lemma_journey_ends_at_goal(spec_step(s, feed[0].reply, feed[0].dodge).0, feed.skip(1));
    } else {
        assert(feed.skip(1).len() == 0);
    }
}

/// A turtle that is sent to a place arrives there: when the journey is
/// finished, the position is the place, in all three coordinates, whether or
/// not the turtle stepped aside for others on the way.  A turtle that is
/// told to take a heading at the place has that heading then.
pub proof fn lemma_goto_arrives(
    s: NavState,
    dst: PosH,
    order: Order,
    with_head: bool,
    feed: Seq<Feed>,
)
    requires
        idle(s),
        feed.len() > 0,
        in_turn(
            if with_head {
                journey_head_in(s, dst, order)
            } else {
                journey_in(s, dst.spec_pos(), order)
            },
            feed,
        ),
        last_action(
            if with_head {
                journey_head_in(s, dst, order)
            } else {
                journey_in(s, dst.spec_pos(), order)
            },
            feed,
        ) is Finished,
    ensures
        after_steps(
            if with_head {
                journey_head_in(s, dst, order)
            } else {
                journey_in(s, dst.spec_pos(), order)
            },
            feed,
        ).p.spec_pos() == dst.spec_pos(),
        with_head ==> after_steps(journey_head_in(s, dst, order), feed).p == dst,
{
    let start = if with_head {
        journey_head_in(s, dst, order)
    } else {
        journey_in(s, dst.spec_pos(), order)
    };
    lemma_begins_on_course(s, dst.spec_pos(), order, dst.h, true);
    lemma_begins_on_course(s, dst.spec_pos(), order, Head::N, false);
    lemma_journey_ends_at_goal(start, feed);
    lemma_job_stays(start, feed);
}

/// A turtle that is told to turn to a heading has it when the turning is
/// finished, and stands where it stood.
pub proof fn lemma_turn_head_arrives(s: NavState, h: Head, feed: Seq<Feed>)
    requires
        idle(s),
        feed.len() > 0,
        in_turn(facing(s, h), feed),
        last_action(facing(s, h), feed) is Finished,
    ensures
        after_steps(facing(s, h), feed).p == (PosH { h, ..s.p }),
{
    let start = facing(s, h);
    lemma_begins_on_course(s, s.p.spec_pos(), Order::XYZ, h, false);
    lemma_journey_ends_at_goal(start, feed);
    lemma_job_stays(start, feed);
    lemma_turning_stays_put(start, feed);
}

/// The purpose of a journey that is on course does not change on the way,
/// but for the note that the place was reached.
proof fn lemma_job_stays(s: NavState, feed: Seq<Feed>)
    requires
        on_course(s),
        in_turn(s, feed),
        !(s.job is Free),
    ensures
        match s.job {
            Job::Free => true,
            Job::Face(h) => after_steps(s, feed).job == s.job,
            Job::Goto { dst, order, head, has_head, turning } => after_steps(s, feed).job is Goto
                && after_steps(s, feed).job->Goto_dst == dst && after_steps(
                s,
                feed,
            ).job->Goto_head == head && after_steps(s, feed).job->Goto_has_head == has_head,
        },
    decreases feed.len(),
{
    if feed.len() > 0 {
        let t = spec_step(s, feed[0].reply, feed[0].dodge).0;
        lemma_step_keeps_course(s, feed[0].reply, feed[0].dodge);
        lemma_step_keeps_job(s, feed[0].reply, feed[0].dodge);
        lemma_job_stays(t, feed.skip(1));
    }
}

proof fn lemma_step_keeps_job(s: NavState, reply: Option<TurtResponse>, dodge: bool)
    requires
        on_course(s),
        reply is Some <==> !(s.waiting is Nothing),
        !(s.job is Free),
    ensures
        match s.job {
            Job::Free => true,
            Job::Face(h) => spec_step(s, reply, dodge).0.job == s.job,
            Job::Goto { dst, order, head, has_head, turning } => spec_step(s, reply, dodge).0.job
                is Goto && spec_step(s, reply, dodge).0.job->Goto_dst == dst && spec_step(
                s,
                reply,
                dodge,
            ).0.job->Goto_head == head && spec_step(s, reply, dodge).0.job->Goto_has_head
                == has_head && spec_step(s, reply, dodge).0.job->Goto_order == order,
        },
{
    if s.waiting is Nothing {
        if s.agenda.len() > 0 {
            match s.job {
                Job::Free => {},
                Job::Face(h) => {
                    lemma_advance_turning(s, h);
                },
                Job::Goto { dst, order, head, has_head, turning } => {
                    if turning {
                        lemma_advance_turning(s, head);
                    } else {
                        lemma_advance_calm(s);
                    }
                },
            }
        }
    } else {
        let resp = reply->Some_0;
        match s.job {
            Job::Free => {},
            Job::Face(h) => {
                lemma_react_turning(s, resp, dodge);
            },
            Job::Goto { dst, order, head, has_head, turning } => {
                if turning {
                    lemma_react_turning(s, resp, dodge);
                } else {
                    lemma_react_calm(s, resp, dodge);
                }
            },
        }
    }
}

proof fn lemma_turning_stays_put(s: NavState, feed: Seq<Feed>)
    requires
        on_course(s),
        in_turn(s, feed),
        s.job is Face,
    ensures
        after_steps(s, feed).p.spec_pos() == s.p.spec_pos(),
    decreases feed.len(),
{
    if feed.len() > 0 {
        let t = spec_step(s, feed[0].reply, feed[0].dodge).0;
        lemma_step_keeps_course(s, feed[0].reply, feed[0].dodge);
        lemma_step_keeps_job(s, feed[0].reply, feed[0].dodge);
        if s.waiting is Nothing {
            if s.agenda.len() > 0 {
                lemma_advance_turning(s, s.job->Face_0);
            }
        } else {
            lemma_react_turning(s, feed[0].reply->Some_0, feed[0].dodge);
        }
        lemma_turning_stays_put(t, feed.skip(1));
    }
}

} // verus!
