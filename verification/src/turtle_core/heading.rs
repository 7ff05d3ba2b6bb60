//! Compass headings and the rotations between them.

use vstd::prelude::*;

verus! {

/// Compass heading.  North is decreasing `z`, east is increasing `x`, south is
/// increasing `z` and west is decreasing `x`.
#[derive(Debug, Clone, Copy, PartialEq, Eq, Structural)]
pub enum Head {
    N,
    E,
    S,
    W,
}

/// Why a heading could not be read.
#[derive(Debug, Clone, Copy, PartialEq, Eq, Structural)]
pub struct InvalidRotation;

/// The heading that a name stands for: `n`, `e`, `s` or `w`.
pub open spec fn spec_head_named(name: Seq<char>) -> Option<Head> {
    if name == seq!['n'] {
        Some(Head::N)
    } else if name == seq!['e'] {
        Some(Head::E)
    } else if name == seq!['s'] {
        Some(Head::S)
    } else if name == seq!['w'] {
        Some(Head::W)
    } else {
        None
    }
}

impl Head {
    /// Number of clockwise quarter turns that lead from north to this heading.
    pub open spec fn quarter(self) -> int {
        match self {
            Head::N => 0,
            Head::E => 1,
            Head::S => 2,
            Head::W => 3,
        }
    }

    /// The heading reached by `q` clockwise quarter turns from north.
    pub open spec fn of_quarter(q: int) -> Head {
        let r = q % 4;
        if r == 0 {
            Head::N
        } else if r == 1 {
            Head::E
        } else if r == 2 {
            Head::S
        } else {
            Head::W
        }
    }

    /// Signed rotation from `self` to `h`: the clockwise quarter turns between
    /// them, folded into the range -1 ..= 2.
    pub open spec fn spec_diff(self, h: Head) -> int {
        (h.quarter() - self.quarter() + 1) % 4 - 1
    }

    /// The letter that stands for this heading in persisted state.
    pub open spec fn letter(self) -> u8 {
        match self {
            Head::N => 110u8,
            Head::E => 101u8,
            Head::S => 115u8,
            Head::W => 119u8,
        }
    }

    /// The heading after one counter-clockwise quarter turn.
    pub open spec fn spec_left(self) -> Head {
        Head::of_quarter(self.quarter() + 3)
    }

    /// The heading after one clockwise quarter turn.
    pub open spec fn spec_right(self) -> Head {
        Head::of_quarter(self.quarter() + 1)
    }

    /// Reads a heading from its one-letter name.
    pub fn from_str(head: &str) -> (r: Result<Head, InvalidRotation>)
        ensures
            r is Ok <==> spec_head_named(head@) is Some,
            r is Ok ==> Some(r->Ok_0) == spec_head_named(head@),
    {
        if head.unicode_len() != 1 {
            return Err(InvalidRotation);
        }
        let c = head.get_char(0);
        assert(head@ =~= seq![c]);
        if c == 'n' {
            Ok(Head::N)
        } else if c == 'e' {
            Ok(Head::E)
        } else if c == 's' {
            Ok(Head::S)
        } else if c == 'w' {
            Ok(Head::W)
        } else {
            Err(InvalidRotation)
        }
    }

    /// One-letter name of the heading.
    pub fn to_string(&self) -> (r: String)
        ensures
            r@ == seq![self.letter() as char],
            spec_head_named(r@) == Some(*self),
    {
        proof {
            reveal_strlit("n");
            reveal_strlit("e");
            reveal_strlit("s");
            reveal_strlit("w");
        }
        let s = match self {
            Head::N => "n",
            Head::E => "e",
            Head::S => "s",
            Head::W => "w",
        };
        assert(s@ =~= seq![self.letter() as char]);
        assert(110u8 as char == 'n' && 101u8 as char == 'e' && 115u8 as char == 's' && 119u8 as char
            == 'w');
        assert(seq!['n'] != seq!['e'] && seq!['n'] != seq!['s'] && seq!['n'] != seq!['w']
            && seq!['e'] != seq!['s'] && seq!['e'] != seq!['w'] && seq!['s'] != seq!['w']) by {
            assert(seq!['n'][0] == 'n');
            assert(seq!['e'][0] == 'e');
            assert(seq!['s'][0] == 's');
            assert(seq!['w'][0] == 'w');
        }
        s.to_string()
    }

    /// Returns 0 if the headings agree, a positive value for a clockwise
    /// rotation (turn right) and a negative one for a counter-clockwise
    /// rotation (turn left).  A half turn is always 2.
    pub fn diff(&self, h: &Head) -> (r: i8)
        ensures
            r == self.spec_diff(*h),
            -1 <= r <= 2,
    {
        match (self, h) {
            (Head::N, Head::N) => 0,
            (Head::N, Head::E) => 1,
            (Head::N, Head::S) => 2,
            (Head::N, Head::W) => -1,
            (Head::E, Head::N) => -1,
            (Head::E, Head::E) => 0,
            (Head::E, Head::S) => 1,
            (Head::E, Head::W) => 2,
            (Head::S, Head::N) => 2,
            (Head::S, Head::E) => -1,
            (Head::S, Head::S) => 0,
            (Head::S, Head::W) => 1,
            (Head::W, Head::N) => 1,
            (Head::W, Head::E) => 2,
            (Head::W, Head::S) => -1,
            (Head::W, Head::W) => 0,
        }
    }

    /// The heading after one counter-clockwise quarter turn.
    pub fn left(&self) -> (r: Head)
        ensures
            r == self.spec_left(),
            self.spec_diff(r) == -1,
    {
        match self {
            Head::N => Head::W,
            Head::E => Head::N,
            Head::S => Head::E,
            Head::W => Head::S,
        }
    }

    /// The heading after one clockwise quarter turn.
    pub fn right(&self) -> (r: Head)
        ensures
            r == self.spec_right(),
            self.spec_diff(r) == 1,
    {
        match self {
            Head::N => Head::E,
            Head::E => Head::S,
            Head::S => Head::W,
            Head::W => Head::N,
        }
    }
}

/// The rotation between two headings is one of -1, 0, 1 and 2.  Turning back
/// undoes it: the two rotations add up to a whole number of full turns, and a
/// half turn is 2 in both directions.
pub proof fn lemma_diff_antisymmetric(a: Head, b: Head)
    ensures
        -1 <= a.spec_diff(b) <= 2,
        (a.spec_diff(b) + b.spec_diff(a)) % 4 == 0,
        a.spec_diff(b) == 2 <==> b.spec_diff(a) == 2,
        a.spec_diff(b) == 0 <==> a == b,
        a.spec_diff(b) != 2 ==> a.spec_diff(b) == -b.spec_diff(a),
{
}

/// Rotating by the difference reaches the target heading.
pub proof fn lemma_diff_reaches(a: Head, b: Head)
    ensures
        Head::of_quarter(a.quarter() + a.spec_diff(b) + 4) == b,
{
}

} // verus!
