//! The short names of the commands of a turtle, and the results of a
//! movement and of an inspection as a flag with a text.

use vstd::prelude::*;
use crate::turtle_core::control::{spec_exit, spec_item_detail, spec_select, TurtControl};
use crate::turtle_core::data::{
    opt_text,
    spec_inspect,
    spec_movement,
    DecodeFault,
    Json,
    TurtInspect,
    TurtMovement,
};

verus! {

/// Outcome of a movement, a turn or a dig.
#[derive(Debug)]
pub struct Movement {
    pub success: bool,
    pub msg: Option<String>,
}

/// Outcome of looking at a neighbouring block: whether a block is there, and
/// its name.
#[derive(Debug)]
pub struct Inspect {
    pub block: bool,
    pub name: Option<String>,
}

impl Movement {
    pub fn success(&self) -> (r: bool)
        ensures
            r == self.success,
    {
        self.success
    }

    pub fn msg(&self) -> (r: &Option<String>)
        ensures
            *r == self.msg,
    {
        &self.msg
    }

    /// Reads a movement from the value that the turtle returned.
    pub fn from_json(j: &Json) -> (r: Result<Movement, DecodeFault>)
        ensures
            match spec_movement(*j) {
                Ok(v) => r is Ok && r->Ok_0.success == v.success && opt_text(r->Ok_0.msg) == v.msg,
                Err(f) => r is Err && r->Err_0 == f,
            },
    {
        match TurtMovement::from_json(j) {
            Ok(m) => {
                let msg = match m.msg() {
                    Some(t) => Some(t.clone()),
                    None => None,
                };
                Ok(Movement { success: m.success(), msg })
            },
            Err(f) => Err(f),
        }
    }
}

impl Inspect {
    pub fn block(&self) -> (r: bool)
        ensures
            r == self.block,
    {
        self.block
    }

    pub fn name(&self) -> (r: &Option<String>)
        ensures
            *r == self.name,
    {
        &self.name
    }

    /// Reads an inspection from the value that the turtle returned.
    pub fn from_json(j: &Json) -> (r: Result<Inspect, DecodeFault>)
        ensures
            match spec_inspect(*j) {
                Ok(v) => r is Ok && r->Ok_0.block == (v is Some) && opt_text(r->Ok_0.name) == v,
                Err(f) => r is Err && r->Err_0 == f,
            },
    {
        match TurtInspect::from_json(j) {
            Ok(i) => {
                match i.block() {
                    Some(t) => Ok(Inspect { block: true, name: Some(t.clone()) }),
                    None => Ok(Inspect { block: false, name: None }),
                }
            },
            Err(f) => Err(f),
        }
    }
}

/// The commands of a turtle under their short names: `m` for a move, `t` for
/// a turn, `d` for a dig, `i` for an inspection and `p` for a placement.
#[derive(Debug, Clone, Copy)]
pub struct Turt {
    control: TurtControl,
}

impl Turt {
    pub fn new() -> (r: Turt) {
        Turt { control: TurtControl::new() }
    }

    pub fn m_forw(&self) -> (r: String)
        ensures
            r@ == "turtle.forward()"@,
    {
        self.control.mv_forw()
    }

    pub fn m_back(&self) -> (r: String)
        ensures
            r@ == "turtle.back()"@,
    {
        self.control.mv_back()
    }

    pub fn m_up(&self) -> (r: String)
        ensures
            r@ == "turtle.up()"@,
    {
        self.control.mv_up()
    }

    pub fn m_down(&self) -> (r: String)
        ensures
            r@ == "turtle.down()"@,
    {
        self.control.mv_down()
    }

    pub fn t_left(&self) -> (r: String)
        ensures
            r@ == "turtle.turnLeft()"@,
    {
        self.control.turn_left()
    }

    pub fn t_right(&self) -> (r: String)
        ensures
            r@ == "turtle.turnRight()"@,
    {
        self.control.turn_right()
    }

    pub fn d_forw(&self) -> (r: String)
        ensures
            r@ == "turtle.dig()"@,
    {
        self.control.dig_forw()
    }

    pub fn d_down(&self) -> (r: String)
        ensures
            r@ == "turtle.digDown()"@,
    {
        self.control.dig_down()
    }

    pub fn d_up(&self) -> (r: String)
        ensures
            r@ == "turtle.digUp()"@,
    {
        self.control.dig_up()
    }

    pub fn i_forw(&self) -> (r: String)
        ensures
            r@ == "turtle.inspect()"@,
    {
        self.control.insp_forw()
    }

    pub fn i_up(&self) -> (r: String)
        ensures
            r@ == "turtle.inspectUp()"@,
    {
        self.control.insp_up()
    }

    pub fn i_down(&self) -> (r: String)
        ensures
            r@ == "turtle.inspectDown()"@,
    {
        self.control.insp_down()
    }

    pub fn inv_drop_forw(&self) -> (r: String)
        ensures
            r@ == "turtle.drop()"@,
    {
        self.control.inv_drop_forw()
    }

    pub fn inv_drop_down(&self) -> (r: String)
        ensures
            r@ == "turtle.dropDown()"@,
    {
        self.control.inv_drop_down()
    }

    pub fn inv_drop_up(&self) -> (r: String)
        ensures
            r@ == "turtle.dropUp()"@,
    {
        self.control.inv_drop_up()
    }

    pub fn p_forw(&self) -> (r: String)
        ensures
            r@ == "turtle.place()"@,
    {
        self.control.place_forw()
    }

    pub fn p_up(&self) -> (r: String)
        ensures
            r@ == "turtle.placeUp()"@,
    {
        self.control.place_up()
    }

    pub fn p_down(&self) -> (r: String)
        ensures
            r@ == "turtle.placeDown()"@,
    {
        self.control.place_down()
    }

    /// Selects a slot, counted from 0.
    pub fn inv_select(&self, slot: u8) -> (r: String)
        requires
            slot <= 15,
        ensures
            r@ == spec_select(slot),
    {
        self.control.inv_select(slot)
    }

    /// Asks for the contents of a slot, counted from 0.
    pub fn inv_item_detail(&self, slot: u8) -> (r: String)
        requires
            slot <= 15,
        ensures
            r@ == spec_item_detail(slot),
    {
        self.control.inv_item_detail(slot)
    }

    /// The sentinel that ends the session of a turtle.
    pub fn disconnect(&self) -> (r: String)
        ensures
            r@ == spec_exit(),
    {
        self.control.disconnect()
    }

    /// The same commands under their long names.
    pub fn control(&self) -> (r: TurtControl) {
        self.control
    }
}

} // verus!
