//! The mirror of the inventory of a turtle, as far as a digger needs it.

use vstd::prelude::*;
use crate::turtle::Turt;
use crate::turtle_core::control::Action;
use crate::turtle_core::data::{SlotView, TurtResponse};
use crate::turtle_core::inventory::{
    inv_awaits,
    inv_wf,
    spec_inv_step,
    spec_is_full,
    spec_request,
    InvState,
    Mode,
    TurtInventory,
};

verus! {

/// The mirror of the sixteen slots of a turtle.
#[derive(Debug)]
pub struct Inventory {
    inv: TurtInventory,
}

impl Inventory {
    /// Model of the mirror.
    pub closed spec fn view(&self) -> InvState {
        self.inv@
    }

    /// A mirror that shows nothing in any slot.
    pub fn init(turt: &Turt) -> (r: Self)
        ensures
            r@ == (InvState {
                slots: Seq::new(16, |i: int| None::<SlotView>),
                mode: Mode::Idle,
                found: None,
                found_at: 0,
            }),
            inv_wf(r@),
    {
        Inventory { inv: TurtInventory::init(turt.control()) }
    }

    /// Begins to ask the turtle for every slot.
    pub fn full_update(&mut self)
        requires
            inv_wf(old(self)@),
            old(self)@.mode is Idle,
        ensures
            final(self)@ == (InvState {
                mode: Mode::Updating { cursor: 0, asked: false },
                ..old(self)@
            }),
            inv_wf(final(self)@),
    {
        self.inv.full_update();
    }

    /// Says whether every slot holds something.
    pub fn is_full(&self) -> (r: bool)
        ensures
            r == spec_is_full(self@.slots),
    {
        self.inv.is_full()
    }

    /// Takes one step of what the mirror is busy with.
    pub fn step(&mut self, reply: Option<TurtResponse>) -> (r: Action)
        requires
            inv_wf(old(self)@),
            reply is Some <==> inv_awaits(old(self)@),
        ensures
            final(self)@ == spec_inv_step(old(self)@, reply),
            r@ == spec_request(final(self)@),
            inv_wf(final(self)@),
    {
        self.inv.step(reply)
    }
}

} // verus!
