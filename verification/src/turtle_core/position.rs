//! World positions, with and without a heading.

use vstd::prelude::*;
use vstd::string::StringExecFns;
use crate::text::{int_chars, push_signed};
use crate::turtle_core::heading::Head;

verus! {

/// Block position in world coordinates.
#[derive(Debug, Clone, Copy, PartialEq, Eq, Structural)]
pub struct Pos {
    pub x: i64,
    pub y: i64,
    pub z: i64,
}

/// Block position together with the heading of the turtle that stands there.
#[derive(Debug, Clone, Copy, PartialEq, Eq, Structural)]
pub struct PosH {
    pub x: i64,
    pub y: i64,
    pub z: i64,
    pub h: Head,
}

/// A place as it is shown: `(x, y, z)`.
pub open spec fn spec_show_pos(p: Pos) -> Seq<char> {
    "("@ + int_chars(p.x as int) + ", "@ + int_chars(p.y as int) + ", "@ + int_chars(p.z as int)
        + ")"@
}

/// A place with a heading as it is shown: `(x, y, z)[h]`.
pub open spec fn spec_show_posh(p: PosH) -> Seq<char> {
    spec_show_pos(p.spec_pos()) + "["@ + seq![p.h.letter() as char] + "]"@
}

impl Pos {
    /// The place as it is shown.
    pub fn to_string(&self) -> (r: String)
        ensures
            r@ == spec_show_pos(*self),
    {
        let mut out = String::from_str("(");
        push_signed(self.x, &mut out);
        out.append(", ");
        push_signed(self.y, &mut out);
        out.append(", ");
        push_signed(self.z, &mut out);
        out.append(")");
        out
    }

    /// The origin of the world.
    pub fn orig() -> (r: Pos)
        ensures
            r == (Pos { x: 0, y: 0, z: 0 }),
    {
        Pos { x: 0, y: 0, z: 0 }
    }

    pub fn new(x: i64, y: i64, z: i64) -> (r: Pos)
        ensures
            r == (Pos { x, y, z }),
    {
        Pos { x, y, z }
    }

    /// The same place, facing north.
    pub fn into_posh(self) -> (r: PosH)
        ensures
            r == (PosH { x: self.x, y: self.y, z: self.z, h: Head::N }),
    {
        PosH { x: self.x, y: self.y, z: self.z, h: Head::N }
    }
}

impl PosH {
    /// The place and the heading as they are shown.
    pub fn to_string(&self) -> (r: String)
        ensures
            r@ == spec_show_posh(*self),
    {
        let mut out = self.pos().to_string();
        out.append("[");
        out.append(self.h.to_string().as_str());
        out.append("]");
        out
    }

    /// The place without the heading.
    pub open spec fn spec_pos(self) -> Pos {
        Pos { x: self.x, y: self.y, z: self.z }
    }

    /// The place without the heading.
    pub fn pos(&self) -> (r: Pos)
        ensures
            r == self.spec_pos(),
    {
        Pos { x: self.x, y: self.y, z: self.z }
    }
}

impl Default for PosH {
    /// The origin, facing north.
    fn default() -> (r: PosH)
        ensures
            r == (PosH { x: 0, y: 0, z: 0, h: Head::N }),
    {
        PosH { x: 0, y: 0, z: 0, h: Head::N }
    }
}

} // verus!
