//! The navigation of a turtle under its short names.

use vstd::prelude::*;
use crate::coords::Order;
use crate::turtle::Turt;
use crate::turtle_core::control::{Action, Face};
use crate::turtle_core::data::TurtResponse;
use crate::turtle_core::heading::Head;
use crate::turtle_core::navigation::{
    facing,
    nav_parse,
    nav_text,
    read_nav,
    idle,
    journey_head_in,
    journey_in,
    spec_step,
    FStoreNav,
    Job,
    NavState,
    Errand,
    TurtNavigation,
    Waiting,
};
use crate::turtle_core::position::{Pos, PosH};

verus! {

/// The navigation of one turtle: `t` stands for a turn, `m` for a move.
#[derive(Debug)]
pub struct Nav {
    nav: TurtNavigation,
}

impl View for Nav {
    type V = NavState;

    closed spec fn view(&self) -> NavState {
        self.nav@
    }
}

impl Nav {
    /// The navigation of a turtle that stands at the given position.
    pub fn new(avoid_other_turtles: bool, turt: &Turt, p: PosH) -> (r: Self)
        ensures
            r@ == (NavState {
                p,
                avoid: avoid_other_turtles,
                agenda: Seq::empty(),
                waiting: Waiting::Nothing,
                job: Job::Free,
            }),
    {
        Nav { nav: TurtNavigation::new(turt.control(), avoid_other_turtles, FStoreNav { p }) }
    }

    /// Where the turtle is.
    pub fn pos(&self) -> (r: &PosH)
        ensures
            *r == self@.p,
    {
        self.nav.pos()
    }

    /// The text that keeps the position.
    pub fn spos(&self) -> (r: Vec<u8>)
        ensures
            r@ == nav_text(self@.p),
    {
        self.nav.pos_save()
    }

    /// Takes the position from the text that kept it.  Nothing changes if
    /// the text stands for no position.
    pub fn lpos(&mut self, kept: &[u8]) -> (r: bool)
        requires
            idle(old(self)@),
        ensures
            r == nav_parse(kept@) is Some,
            r ==> final(self)@ == (NavState { p: nav_parse(kept@)->Some_0, ..old(self)@ }),
            !r ==> final(self)@ == old(self)@,
    {
        match read_nav(kept) {
            Some(p) => {
                self.nav.set_pos(p);
                true
            },
            None => false,
        }
    }

    /// Begins to find out where the turtle is and where it looks.
    pub fn gps_init(&mut self)
        requires
            idle(old(self)@),
        ensures
            final(self)@ == (NavState { agenda: seq![Errand::Locate], job: Job::Free, ..old(self)@ }),
    {
        self.nav.gps_init();
    }

    /// Begins to turn the turtle to the heading `h`.
    pub fn t_head(&mut self, h: Head)
        requires
            idle(old(self)@),
        ensures
            final(self)@ == facing(old(self)@, h),
    {
        self.nav.turn_head(h);
    }

    /// Begins a quarter turn to the left.
    pub fn t_left(&mut self)
        requires
            idle(old(self)@),
        ensures
            final(self)@ == (NavState { agenda: seq![Errand::TurnLeft], job: Job::Free, ..old(self)@ }),
    {
        self.nav.turn_left();
    }

    /// Begins a quarter turn to the right.
    pub fn t_right(&mut self)
        requires
            idle(old(self)@),
        ensures
            final(self)@ == (NavState {
                agenda: seq![Errand::TurnRight],
                job: Job::Free,
                ..old(self)@
            }),
    {
        self.nav.turn_right();
    }

    /// Begins a move of one block forwards.
    pub fn m_forw(&mut self)
        requires
            idle(old(self)@),
        ensures
            final(self)@ == (NavState {
                agenda: seq![Errand::Move(Face::Forw)],
                job: Job::Free,
                ..old(self)@
            }),
    {
        self.nav.mv_forw();
    }

    /// Begins a move of one block backwards.  It is tried once.
    pub fn m_back(&mut self)
        requires
            idle(old(self)@),
        ensures
            final(self)@ == (NavState { agenda: seq![Errand::Back], job: Job::Free, ..old(self)@ }),
    {
        self.nav.mv_back();
    }

    /// Begins a move of one block upwards.
    pub fn m_up(&mut self)
        requires
            idle(old(self)@),
        ensures
            final(self)@ == (NavState {
                agenda: seq![Errand::Move(Face::Up)],
                job: Job::Free,
                ..old(self)@
            }),
    {
        self.nav.mv_up();
    }

    /// Begins a move of one block downwards.
    pub fn m_down(&mut self)
        requires
            idle(old(self)@),
        ensures
            final(self)@ == (NavState {
                agenda: seq![Errand::Move(Face::Down)],
                job: Job::Free,
                ..old(self)@
            }),
    {
        self.nav.mv_down();
    }

    /// Begins a journey to the place `dst`, at the end of which the turtle
    /// takes the heading of `dst`.
    pub fn goto_head(&mut self, dst: &PosH, order: Order)
        requires
            idle(old(self)@),
        ensures
            final(self)@ == journey_head_in(old(self)@, *dst, order),
    {
        self.nav.goto_head(dst, order);
    }

    /// Begins a journey to the place `dst`, one axis after the other in the
    /// given order.
    pub fn goto_nohead(&mut self, dst: &Pos, order: Order)
        requires
            idle(old(self)@),
        ensures
            final(self)@ == journey_in(old(self)@, *dst, order),
    {
        self.nav.goto_nohead(dst, order);
    }

    /// Says whether a command is in flight.
    pub fn awaits_reply(&self) -> (r: bool)
        ensures
            r == !(self@.waiting is Nothing),
    {
        self.nav.awaits_reply()
    }

    /// Takes one step of the journey.
    pub fn step_with(&mut self, reply: Option<TurtResponse>, dodge: bool) -> (r: Action)
        requires
            reply is Some <==> !(old(self)@.waiting is Nothing),
        ensures
            (final(self)@, r@) == spec_step(old(self)@, reply, dodge),
    {
        self.nav.step_with(reply, dodge)
    }

    /// Takes one step of the journey.  Where another turtle is in the way, a
    /// coin decides whether the turtle steps aside.
    pub fn step(&mut self, reply: Option<TurtResponse>) -> (r: Action)
        requires
            reply is Some <==> !(old(self)@.waiting is Nothing),
        ensures
            (final(self)@, r@) == spec_step(old(self)@, reply, true) || (final(self)@, r@)
                == spec_step(old(self)@, reply, false),
    {
        self.nav.step(reply)
    }
}

} // verus!
