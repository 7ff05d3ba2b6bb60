//! Nearest-first visiting of the nodes of a layer.  Every node keeps the list
//! of all nodes in the order of their distance from it.

use vstd::prelude::*;
use crate::sorting::{is_permutation, sort_indices, sorted_indices};

verus! {

/// Grid coordinate `(x, z)`.
pub type CoordXZ = (usize, usize);

/// Whether a block was placed at a node.
pub type Placed = bool;

/// The nodes of a layer with, for each node, all nodes ordered by distance.
pub struct SimpleSearcher {
    pub heuristic: Vec<Vec<usize>>,
    pub nodes: Vec<(Placed, CoordXZ)>,
}

/// Distance between two coordinates along one axis.
pub open spec fn spec_gap(a: usize, b: usize) -> int {
    if a < b {
        b - a
    } else {
        a - b
    }
}

/// Distance between two nodes: the Manhattan distance, and one more where
/// they share a coordinate.  A distance that does not fit is the largest
/// number.
pub open spec fn spec_heuristic(a: CoordXZ, b: CoordXZ) -> usize {
    let manhatten = spec_gap(a.0, b.0) + spec_gap(a.1, b.1);
    let d = if a.0 == b.0 || a.1 == b.1 {
        manhatten + 1
    } else {
        manhatten
    };
    if d > usize::MAX {
        usize::MAX
    } else {
        d as usize
    }
}

/// The distances from node `i` to every node.
pub open spec fn distances(nodes: Seq<CoordXZ>, i: int) -> Seq<usize> {
    Seq::new(nodes.len(), |j: int| spec_heuristic(nodes[i], nodes[j]))
}

/// The coordinates of the nodes, in their order.
pub open spec fn coords(nodes: Seq<(Placed, CoordXZ)>) -> Seq<CoordXZ> {
    Seq::new(nodes.len(), |i: int| nodes[i].1)
}

/// The first of the first `m` indices in `row` whose node is not placed.
pub open spec fn first_free(row: Seq<usize>, nodes: Seq<(Placed, CoordXZ)>, m: int) -> Option<usize>
    decreases m,
{
    if m <= 0 {
        None
    } else {
        match first_free(row, nodes, m - 1) {
            Some(j) => Some(j),
            None => if !nodes[row[m - 1] as int].0 {
                Some(row[m - 1])
            } else {
                None
            },
        }
    }
}

/// The node nearest to `node` among the first `m`, with its distance.  The
/// earlier of two nodes at the same distance wins.
pub open spec fn closest_upto(nodes: Seq<(Placed, CoordXZ)>, node: CoordXZ, m: int) -> (
    Option<usize>,
    usize,
)
    decreases m,
{
    if m <= 0 {
        (None, usize::MAX)
    } else {
        let b = closest_upto(nodes, node, m - 1);
        let d = spec_heuristic(node, nodes[m - 1].1);
        if d < b.1 {
            (Some((m - 1) as usize), d)
        } else {
            b
        }
    }
}

/// The index of the first of the first `m` nodes that stands at `node`.
pub open spec fn index_of(nodes: Seq<(Placed, CoordXZ)>, node: CoordXZ, m: int) -> Option<int>
    decreases m,
{
    if m <= 0 {
        None
    } else {
        match index_of(nodes, node, m - 1) {
            Some(j) => Some(j),
            None => if nodes[m - 1].1 == node {
                Some(m - 1)
            } else {
                None
            },
        }
    }
}

proof fn lemma_index_of_stays(nodes: Seq<(Placed, CoordXZ)>, node: CoordXZ, a: int, b: int)
    requires
        0 <= a <= b,
        index_of(nodes, node, a) is Some,
    ensures
        index_of(nodes, node, b) == index_of(nodes, node, a),
    decreases b - a,
{
    if a < b {
        lemma_index_of_stays(nodes, node, a, b - 1);
    }
}

proof fn lemma_first_free_stays(row: Seq<usize>, nodes: Seq<(Placed, CoordXZ)>, a: int, b: int)
    requires
        0 <= a <= b,
        first_free(row, nodes, a) is Some,
    ensures
        first_free(row, nodes, b) == first_free(row, nodes, a),
    decreases b - a,
{
    if a < b {
        lemma_first_free_stays(row, nodes, a, b - 1);
    }
}

fn gap(a: usize, b: usize) -> (r: usize)
    ensures
        r == spec_gap(a, b),
{
    if a < b {
        b - a
    } else {
        a - b
    }
}

impl SimpleSearcher {
    /// Every node has its list, and every list orders all nodes by their
    /// distance from that node.
    pub open spec fn wf(&self) -> bool {
        &&& self.heuristic@.len() == self.nodes@.len()
        &&& forall|i: int|
            0 <= i < self.heuristic@.len() ==> (#[trigger] self.heuristic@[i])@ == sorted_indices(
                distances(coords(self.nodes@), i),
            )
        &&& forall|i: int|
            0 <= i < self.heuristic@.len() ==> is_permutation(
                (#[trigger] self.heuristic@[i])@,
                self.nodes@.len(),
            )
    }

    /// Manhattan distance, and one more where the nodes share a coordinate.
    pub fn heuristic(a: &CoordXZ, b: &CoordXZ) -> (r: usize)
        ensures
            r == spec_heuristic(*a, *b),
    {
        let dx = gap(a.0, b.0);
        let dz = gap(a.1, b.1);
        if dz > usize::MAX - dx {
            return usize::MAX;
        }
        let manhatten = dx + dz;
        if a.0 == b.0 || a.1 == b.1 {
            if manhatten == usize::MAX {
                return usize::MAX;
            }
            return manhatten + 1;
        }
        manhatten
    }

    fn calc_heuristic(nodes: &Vec<CoordXZ>) -> (r: Vec<Vec<usize>>)
        requires
            forall|i: int, j: int|
                0 <= i < nodes@.len() && 0 <= j < nodes@.len() ==> spec_heuristic(
                    #[trigger] nodes@[i],
                    #[trigger] nodes@[j],
                ) < usize::MAX,
        ensures
            r@.len() == nodes@.len(),
            forall|i: int|
                0 <= i < r@.len() ==> (#[trigger] r@[i])@ == sorted_indices(distances(nodes@, i)),
            forall|i: int| 0 <= i < r@.len() ==> is_permutation((#[trigger] r@[i])@, nodes@.len()),
    {
        let n = nodes.len();
        let mut heuristic: Vec<Vec<usize>> = Vec::new();
        let mut i: usize = 0;
        while i < n
            invariant
                0 <= i <= n,
                n == nodes.len(),
                heuristic.len() == i,
                forall|i: int, j: int|
                    0 <= i < nodes@.len() && 0 <= j < nodes@.len() ==> spec_heuristic(
                        #[trigger] nodes@[i],
                        #[trigger] nodes@[j],
                    ) < usize::MAX,
                forall|k: int|
                    0 <= k < i ==> (#[trigger] heuristic@[k])@ == sorted_indices(
                        distances(nodes@, k),
                    ),
                forall|k: int| 0 <= k < i ==> is_permutation((#[trigger] heuristic@[k])@, n as nat),
            decreases n - i,
        {
            let mut row: Vec<usize> = Vec::new();
            let mut j: usize = 0;
            while j < n
                invariant
                    0 <= j <= n,
                    0 <= i < n,
                    n == nodes.len(),
                    row.len() == j,
                    forall|k: int| 0 <= k < j ==> #[trigger] row@[k] == distances(nodes@, i as int)[k],
                decreases n - j,
            {
                row.push(Self::heuristic(&nodes[i], &nodes[j]));
                j = j + 1;
            }
            assert(row@ =~= distances(nodes@, i as int));
            let order = sort_indices(&row);
            heuristic.push(order);
            i = i + 1;
        }
        heuristic
    }

    /// The searcher over the given nodes, none of them placed.  Their
    /// distances have to fit.
    pub fn new(nodes: Vec<CoordXZ>) -> (r: Self)
        requires
            forall|i: int, j: int|
                0 <= i < nodes@.len() && 0 <= j < nodes@.len() ==> spec_heuristic(
                    #[trigger] nodes@[i],
                    #[trigger] nodes@[j],
                ) < usize::MAX,
        ensures
            r.wf(),
            r.nodes@ == Seq::new(nodes@.len(), |i: int| (false, nodes@[i])),
    {
        let heuristic = Self::calc_heuristic(&nodes);
        let mut marked: Vec<(Placed, CoordXZ)> = Vec::new();
        let mut i: usize = 0;
        while i < nodes.len()
            invariant
                0 <= i <= nodes.len(),
                marked.len() == i,
                forall|k: int| 0 <= k < i ==> #[trigger] marked@[k] == (false, nodes@[k]),
            decreases nodes.len() - i,
        {
            marked.push((false, nodes[i]));
            i = i + 1;
        }
        assert(marked@ =~= Seq::new(nodes@.len(), |i: int| (false, nodes@[i])));
        assert(coords(marked@) =~= nodes@);
        SimpleSearcher { heuristic, nodes: marked }
    }

    /// The first node that stands at the given coordinate.
    pub fn get_node(&self, node: &CoordXZ) -> (r: Option<&(Placed, CoordXZ)>)
        ensures
            match index_of(self.nodes@, *node, self.nodes@.len() as int) {
                Some(j) => r == Some(&self.nodes@[j]),
                None => r is None,
            },
    {
        let mut i: usize = 0;
        while i < self.nodes.len()
            invariant
                0 <= i <= self.nodes.len(),
                index_of(self.nodes@, *node, i as int) is None,
            decreases self.nodes.len() - i,
        {
            let n = &self.nodes[i];
            if n.1.0 == node.0 && n.1.1 == node.1 {
                proof {
                    assert(index_of(self.nodes@, *node, i + 1) == Some(i as int));
                    lemma_index_of_stays(self.nodes@, *node, i + 1, self.nodes@.len() as int);
                }
                return Some(n);
            }
            i = i + 1;
        }
        None
    }

    /// The index of the node that is nearest to the given coordinate.
    pub fn find_closest(&self, node: &CoordXZ) -> (r: Option<usize>)
        ensures
            r == closest_upto(self.nodes@, *node, self.nodes@.len() as int).0,
    {
        let mut closest: Option<usize> = None;
        let mut closest_dist = usize::MAX;
        let mut i: usize = 0;
        while i < self.nodes.len()
            invariant
                0 <= i <= self.nodes.len(),
                (closest, closest_dist) == closest_upto(self.nodes@, *node, i as int),
            decreases self.nodes.len() - i,
        {
            let dist = Self::heuristic(node, &self.nodes[i].1);
            if dist < closest_dist {
                closest = Some(i);
                closest_dist = dist;
            }
            i = i + 1;
        }
        closest
    }

    /// Takes the nearest node to `curr_node` that is not placed yet, and
    /// marks it as placed.
    pub fn next_node(&mut self, curr_node: usize) -> (r: Option<usize>)
        requires
            old(self).wf(),
            curr_node < old(self).nodes@.len(),
        ensures
            final(self).wf(),
            final(self).heuristic@ == old(self).heuristic@,
            r == first_free(
                old(self).heuristic@[curr_node as int]@,
                old(self).nodes@,
                old(self).nodes@.len() as int,
            ),
            match r {
                Some(j) => j < old(self).nodes@.len() && final(self).nodes@ == old(
                    self,
                ).nodes@.update(j as int, (true, old(self).nodes@[j as int].1)),
                None => final(self).nodes@ == old(self).nodes@,
            },
    {
        let n = self.nodes.len();
        let mut k: usize = 0;
        while k < n
            invariant
                0 <= k <= n,
                n == self.nodes.len(),
                curr_node < n,
                self.wf(),
                self.nodes@ == old(self).nodes@,
                self.heuristic@ == old(self).heuristic@,
                first_free(self.heuristic@[curr_node as int]@, self.nodes@, k as int) is None,
            decreases n - k,
        {
            let node = self.heuristic[curr_node][k];
            assert(is_permutation(self.heuristic@[curr_node as int]@, n as nat));
            assert(self.heuristic@[curr_node as int]@[k as int] < n);
            if !self.nodes[node].0 {
                proof {
                    let row = self.heuristic@[curr_node as int]@;
                    assert(first_free(row, self.nodes@, k + 1) == Some(node));
                    lemma_first_free_stays(row, self.nodes@, k + 1, n as int);
                }
                let at = self.nodes[node].1;
                self.nodes[node] = (true, at);
                proof {
                    assert(coords(self.nodes@) =~= coords(old(self).nodes@));
                }
                return Some(node);
            }
            k = k + 1;
        }
        None
    }
}

} // verus!
