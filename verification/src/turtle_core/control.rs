//! The commands that a turtle understands, and what the controller asks of
//! whoever drives it.
//!
//! A command is a line of text for the turtle's runtime.  One command is in
//! flight at a time: the next one is made only after the response to the last
//! one was handed in.

use vstd::prelude::*;
use vstd::string::StringExecFns;
use crate::text::{number_chars, push_number};

verus! {

/// The state file that a text is meant for.
#[derive(Debug, Clone, Copy, PartialEq, Eq, Structural)]
pub enum StateFile {
    /// Position and heading.
    Nav,
    /// Progress of a model builder.
    ModelBuilder,
    /// Progress of a chunk digger.
    ChunkDigger,
    /// Progress of a builder of solid boxes.
    SillyBuilder,
}

/// Why a job cannot go on.
#[derive(Debug, Clone, Copy, PartialEq, Eq, Structural)]
pub enum Failure {
    /// The turtle could not be located.
    NoGps,
    /// More stacks were deposited than the counter holds.
    TooManyStacks,
}

/// What a job asks of its driver.  After `Send` the driver hands the response
/// of the turtle to the next step; after anything else it hands in nothing.
#[derive(Debug)]
pub enum Action {
    /// Send the command to the turtle.
    Send(String),
    /// Replace the contents of the state file by the text.
    Save(StateFile, Vec<u8>),
    /// Wait for the given number of milliseconds.
    Sleep(u64),
    /// Nothing to do outside; take the next step.
    Continue,
    /// The job is done.
    Finished,
    /// The job cannot go on.
    Failed(Failure),
}

/// Model of an action: commands and texts by their contents.
pub enum ActionView {
    Send(Seq<char>),
    Save(StateFile, Seq<u8>),
    Sleep(u64),
    Continue,
    Finished,
    Failed(Failure),
}

impl View for Action {
    type V = ActionView;

    open spec fn view(&self) -> ActionView {
        match *self {
            Action::Send(c) => ActionView::Send(c@),
            Action::Save(f, t) => ActionView::Save(f, t@),
            Action::Sleep(ms) => ActionView::Sleep(ms),
            Action::Continue => ActionView::Continue,
            Action::Finished => ActionView::Finished,
            Action::Failed(f) => ActionView::Failed(f),
        }
    }
}

/// The side of a turtle that a command works on.
#[derive(Debug, Clone, Copy, PartialEq, Eq, Structural)]
pub enum Face {
    Forw,
    Up,
    Down,
}

/// The command that selects a slot.  Slots are counted from 0 here and from 1
/// on the wire.
pub open spec fn spec_select(slot: u8) -> Seq<char> {
    "turtle.select("@ + number_chars((slot + 1) as nat) + ")"@
}

/// The command that asks for the contents of a slot.
pub open spec fn spec_item_detail(slot: u8) -> Seq<char> {
    "turtle.getItemDetail("@ + number_chars((slot + 1) as nat) + ")"@
}

/// The command that prints a message on the turtle.
pub open spec fn spec_print(msg: Seq<char>) -> Seq<char> {
    "print(\""@ + msg + "\")"@
}

/// The sentinel that tells a turtle to stop.
pub open spec fn spec_exit() -> Seq<char> {
    "EXIT"@
}

/// The typed surface over the commands of a turtle.
#[derive(Debug, Clone, Copy)]
pub struct TurtControl {}

impl TurtControl {
    pub fn new() -> (r: TurtControl) {
        TurtControl {  }
    }

    /// A command given as text.
    pub fn make_req(&self, cmd: &str) -> (r: String)
        ensures
            r@ == cmd@,
    {
        cmd.to_string()
    }

    pub fn suck(&self) -> (r: String)
        ensures
            r@ == "turtle.suck()"@,
    {
        self.make_req("turtle.suck()")
    }

    pub fn suck_up(&self) -> (r: String)
        ensures
            r@ == "turtle.suckUp()"@,
    {
        self.make_req("turtle.suckUp()")
    }

    pub fn suck_down(&self) -> (r: String)
        ensures
            r@ == "turtle.suckDown()"@,
    {
        self.make_req("turtle.suckDown()")
    }

    pub fn mv_forw(&self) -> (r: String)
        ensures
            r@ == "turtle.forward()"@,
    {
        self.make_req("turtle.forward()")
    }

    pub fn mv_back(&self) -> (r: String)
        ensures
            r@ == "turtle.back()"@,
    {
        self.make_req("turtle.back()")
    }

    pub fn mv_up(&self) -> (r: String)
        ensures
            r@ == "turtle.up()"@,
    {
        self.make_req("turtle.up()")
    }

    pub fn mv_down(&self) -> (r: String)
        ensures
            r@ == "turtle.down()"@,
    {
        self.make_req("turtle.down()")
    }

    pub fn turn_left(&self) -> (r: String)
        ensures
            r@ == "turtle.turnLeft()"@,
    {
        self.make_req("turtle.turnLeft()")
    }

    pub fn turn_right(&self) -> (r: String)
        ensures
            r@ == "turtle.turnRight()"@,
    {
        self.make_req("turtle.turnRight()")
    }

    pub fn dig_forw(&self) -> (r: String)
        ensures
            r@ == "turtle.dig()"@,
    {
        self.make_req("turtle.dig()")
    }

    pub fn dig_down(&self) -> (r: String)
        ensures
            r@ == "turtle.digDown()"@,
    {
        self.make_req("turtle.digDown()")
    }

    pub fn dig_up(&self) -> (r: String)
        ensures
            r@ == "turtle.digUp()"@,
    {
        self.make_req("turtle.digUp()")
    }

    pub fn insp_forw(&self) -> (r: String)
        ensures
            r@ == "turtle.inspect()"@,
    {
        self.make_req("turtle.inspect()")
    }

    pub fn insp_up(&self) -> (r: String)
        ensures
            r@ == "turtle.inspectUp()"@,
    {
        self.make_req("turtle.inspectUp()")
    }

    pub fn insp_down(&self) -> (r: String)
        ensures
            r@ == "turtle.inspectDown()"@,
    {
        self.make_req("turtle.inspectDown()")
    }

    /// Selects a slot, counted from 0.
    pub fn inv_select(&self, slot: u8) -> (r: String)
        requires
            slot <= 15,
        ensures
            r@ == spec_select(slot),
    {
        let mut cmd = String::from_str("turtle.select(");
        push_number((slot + 1) as u64, &mut cmd);
        cmd.append(")");
        cmd
    }

    /// Asks for the contents of a slot, counted from 0.
    pub fn inv_item_detail(&self, slot: u8) -> (r: String)
        requires
            slot <= 15,
        ensures
            r@ == spec_item_detail(slot),
    {
        let mut cmd = String::from_str("turtle.getItemDetail(");
        push_number((slot + 1) as u64, &mut cmd);
        cmd.append(")");
        cmd
    }

    pub fn inv_drop_forw(&self) -> (r: String)
        ensures
            r@ == "turtle.drop()"@,
    {
        self.make_req("turtle.drop()")
    }

    pub fn inv_drop_down(&self) -> (r: String)
        ensures
            r@ == "turtle.dropDown()"@,
    {
        self.make_req("turtle.dropDown()")
    }

    pub fn inv_drop_up(&self) -> (r: String)
        ensures
            r@ == "turtle.dropUp()"@,
    {
        self.make_req("turtle.dropUp()")
    }

    pub fn place_forw(&self) -> (r: String)
        ensures
            r@ == "turtle.place()"@,
    {
        self.make_req("turtle.place()")
    }

    pub fn place_up(&self) -> (r: String)
        ensures
            r@ == "turtle.placeUp()"@,
    {
        self.make_req("turtle.placeUp()")
    }

    pub fn place_down(&self) -> (r: String)
        ensures
            r@ == "turtle.placeDown()"@,
    {
        self.make_req("turtle.placeDown()")
    }

    /// Asks the turtle where it is.
    pub fn gps(&self) -> (r: String)
        ensures
            r@ == "gps.locate()"@,
    {
        self.make_req("gps.locate()")
    }

    /// Prints a message on the turtle.
    pub fn print(&self, msg: &str) -> (r: String)
        ensures
            r@ == spec_print(msg@),
    {
        let mut cmd = String::from_str("print(\"");
        cmd.append(msg);
        cmd.append("\")");
        cmd
    }

    /// The sentinel that ends the session of a turtle.
    pub fn disconnect(&self) -> (r: String)
        ensures
            r@ == spec_exit(),
    {
        self.make_req("EXIT")
    }

    /// The command that moves the turtle by one block.
    pub fn mv(&self, face: Face) -> (r: String)
        ensures
            r@ == spec_mv(face),
    {
        match face {
            Face::Forw => self.mv_forw(),
            Face::Up => self.mv_up(),
            Face::Down => self.mv_down(),
        }
    }

    /// The command that looks at the neighbouring block.
    pub fn insp(&self, face: Face) -> (r: String)
        ensures
            r@ == spec_insp(face),
    {
        match face {
            Face::Forw => self.insp_forw(),
            Face::Up => self.insp_up(),
            Face::Down => self.insp_down(),
        }
    }

    /// The command that digs the neighbouring block.
    pub fn dig(&self, face: Face) -> (r: String)
        ensures
            r@ == spec_dig(face),
    {
        match face {
            Face::Forw => self.dig_forw(),
            Face::Up => self.dig_up(),
            Face::Down => self.dig_down(),
        }
    }
}

/// The command that moves the turtle by one block.
pub open spec fn spec_mv(face: Face) -> Seq<char> {
    match face {
        Face::Forw => "turtle.forward()"@,
        Face::Up => "turtle.up()"@,
        Face::Down => "turtle.down()"@,
    }
}

/// The command that looks at the neighbouring block.
pub open spec fn spec_insp(face: Face) -> Seq<char> {
    match face {
        Face::Forw => "turtle.inspect()"@,
        Face::Up => "turtle.inspectUp()"@,
        Face::Down => "turtle.inspectDown()"@,
    }
}

/// The command that digs the neighbouring block.
pub open spec fn spec_dig(face: Face) -> Seq<char> {
    match face {
        Face::Forw => "turtle.dig()"@,
        Face::Up => "turtle.digUp()"@,
        Face::Down => "turtle.digDown()"@,
    }
}

} // verus!
