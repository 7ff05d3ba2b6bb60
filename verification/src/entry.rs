//! What is done when a turtle registers.

use vstd::prelude::*;

verus! {

/// The place of the first of the first `m` turtles of the fleet that has the
/// identifier `turtleid`.
pub open spec fn spec_id_to_i(active: Seq<usize>, turtleid: usize, m: int) -> Option<usize>
    decreases m,
{
    if m <= 0 {
        None
    } else {
        match spec_id_to_i(active, turtleid, m - 1) {
            Some(i) => Some(i),
            None => if active[m - 1] == turtleid {
                Some((m - 1) as usize)
            } else {
                None
            },
        }
    }
}

proof fn lemma_id_to_i_stays(active: Seq<usize>, turtleid: usize, a: int, b: int)
    requires
        0 <= a <= b,
        spec_id_to_i(active, turtleid, a) is Some,
    ensures
        spec_id_to_i(active, turtleid, b) == spec_id_to_i(active, turtleid, a),
    decreases b - a,
{
    if a < b {
        lemma_id_to_i_stays(active, turtleid, a, b - 1);
    }
}

/// The place of a turtle in the fleet: the index of its identifier among
/// those of the active turtles.  A turtle that is not of the fleet has none.
pub fn id_to_i(active: &[usize], turtleid: usize) -> (r: Option<usize>)
    ensures
        r == spec_id_to_i(active@, turtleid, active@.len() as int),
        r is Some ==> r->Some_0 < active@.len() && active@[r->Some_0 as int] == turtleid,
        r is None ==> forall|i: int| 0 <= i < active@.len() ==> active@[i] != turtleid,
{
    let mut i: usize = 0;
    while i < active.len()
        invariant
            0 <= i <= active.len(),
            spec_id_to_i(active@, turtleid, i as int) is None,
            forall|k: int| 0 <= k < i ==> active@[k] != turtleid,
        decreases active.len() - i,
    {
        if active[i] == turtleid {
            proof {
                assert(spec_id_to_i(active@, turtleid, i + 1) == Some(i));
                lemma_id_to_i_stays(active@, turtleid, i + 1, active@.len() as int);
            }
            return Some(i);
        }
        i = i + 1;
    }
    None
}

} // verus!
