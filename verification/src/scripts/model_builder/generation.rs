//! The offline planner: it turns the nodes of a layer into one visiting order.
//!
//! A layer is first spanned by a cheapest tree, the tree is walked into runs
//! of nodes, and the runs are stitched together greedily.

use vstd::prelude::*;
use crate::sorting::{
    concat_all,
    is_permutation,
    lemma_concat_all_push,
    lemma_concat_all_remove,
    lemma_occurrences_concat,
    lemma_occurrences_reverse,
    lemma_sorted_indices,
    lemma_sorted_indices_in_range,
    occurrences,
    sort_indices,
    sorted_indices,
};

verus! {

/// Grid coordinate `(x, z)` within a layer.
pub type CoordXZ = (u16, u16);

/// Block id of a voxel; 0 is empty space.
pub type Block = u16;

/// Index of a node within its layer.
pub type Node = usize;

/// Cost of walking from one node to another.
pub type Cost = usize;

/// An edge between two nodes of a layer, with its cost.
pub type Edge = (Node, Node, Cost);

/// Centre of a cluster and the weight that was assigned to it.
pub type Centroid = (CoordXZ, usize);

/// The views of the rows of a nested vector.
pub open spec fn rows<T>(v: Seq<Vec<T>>) -> Seq<Seq<T>> {
    Seq::new(v.len(), |i: int| v[i]@)
}

/// Distance between two coordinates along one axis.
pub open spec fn spec_abs_diff(a: u16, b: u16) -> int {
    if a < b {
        b - a
    } else {
        a - b
    }
}

/// Cost for a turtle to go from `a` to `b`: the Manhattan distance, and one
/// more where the step is along neither axis, because the turtle has to turn.
pub open spec fn spec_manhatten_turtle(a: CoordXZ, b: CoordXZ) -> int {
    let dx = spec_abs_diff(a.0, b.0);
    let dz = spec_abs_diff(a.1, b.1);
    if dx == 0 || dz == 0 {
        dx + dz
    } else {
        dx + dz + 1
    }
}

/// The edges from node `i` to the nodes after it and before `m`.
pub open spec fn row_edges(nodes: Seq<(CoordXZ, Block)>, i: int, m: int) -> Seq<Edge>
    decreases m - i,
{
    if m <= i + 1 {
        Seq::empty()
    } else {
        row_edges(nodes, i, m - 1).push(
            (i as usize, (m - 1) as usize, spec_manhatten_turtle(nodes[i].0, nodes[m - 1].0) as usize),
        )
    }
}

/// The edges of the complete graph over the nodes, as far as they start at a
/// node before `m`: ordered by their first node, then by their second.
pub open spec fn all_edges(nodes: Seq<(CoordXZ, Block)>, m: int) -> Seq<Edge>
    decreases m,
{
    if m <= 0 {
        Seq::empty()
    } else {
        all_edges(nodes, m - 1) + row_edges(nodes, m - 1, nodes.len() as int)
    }
}

/// The costs of the edges, in their order.
pub open spec fn edge_costs(edges: Seq<Edge>) -> Seq<usize> {
    Seq::new(edges.len(), |k: int| edges[k].2)
}

/// The edges in ascending order of cost; edges of equal cost keep their order.
pub open spec fn edges_by_cost(edges: Seq<Edge>) -> Seq<Edge> {
    sorted_indices(edge_costs(edges)).map_values(|j: usize| edges[j as int])
}

/// A forest that grows into a spanning tree: nodes with the same label are
/// connected, and `adj[a]` lists the nodes that were joined to `a`.
pub struct Forest {
    pub labels: Seq<usize>,
    pub adj: Seq<Seq<usize>>,
}

/// Every node that bears the label `from` gets the label `to`.
pub open spec fn relabel(labels: Seq<usize>, from: usize, to: usize) -> Seq<usize> {
    Seq::new(
        labels.len(),
        |i: int|
            if labels[i] == from {
                to
            } else {
                labels[i]
            },
    )
}

/// Takes an edge into the forest if it connects two trees.
pub open spec fn accept(f: Forest, e: Edge) -> Forest {
    if f.labels[e.0 as int] != f.labels[e.1 as int] {
        Forest {
            labels: relabel(f.labels, f.labels[e.0 as int], f.labels[e.1 as int]),
            adj: f.adj.update(e.0 as int, f.adj[e.0 as int].push(e.1)),
        }
    } else {
        f
    }
}

/// Offers the edges to the forest, one after the other.
pub open spec fn grow(f: Forest, edges: Seq<Edge>) -> Forest
    decreases edges.len(),
{
    if edges.len() == 0 {
        f
    } else {
        accept(grow(f, edges.drop_last()), edges.last())
    }
}

/// The forest of `n` single nodes.
pub open spec fn bare_forest(n: nat) -> Forest {
    Forest {
        labels: Seq::new(n, |i: int| i as usize),
        adj: Seq::new(n, |i: int| Seq::<usize>::empty()),
    }
}

/// The spanning tree of a layer: its edges are offered in ascending order of
/// cost, and each one that joins two trees is taken.  The tree is given as
/// one list of children per node; an edge is listed under its smaller node.
pub open spec fn spec_mst(nodes: Seq<(CoordXZ, Block)>) -> Seq<Seq<usize>> {
    grow(bare_forest(nodes.len()), edges_by_cost(all_edges(nodes, nodes.len() as int))).adj
}

/// The edges lead from a node to a later node of the layer.
pub open spec fn edges_in_range(edges: Seq<Edge>, n: nat) -> bool {
    forall|k: int| 0 <= k < edges.len() ==> (#[trigger] edges[k]).0 < edges[k].1 < n
}

/// Every child in the lists is a node of the layer.
pub open spec fn children_in_range(adj: Seq<Seq<usize>>, n: nat) -> bool {
    forall|i: int, k: int|
        0 <= i < adj.len() && 0 <= k < adj[i].len() ==> #[trigger] adj[i][k] < n
}

/// A forest that is offered edges between nodes of the layer keeps one list
/// per node, and every child in its lists is a node of the layer.
pub proof fn lemma_grow_in_range(f: Forest, edges: Seq<Edge>, n: nat)
    requires
        f.labels.len() == n,
        f.adj.len() == n,
        children_in_range(f.adj, n),
        edges_in_range(edges, n),
    ensures
        grow(f, edges).labels.len() == n,
        grow(f, edges).adj.len() == n,
        children_in_range(grow(f, edges).adj, n),
    decreases edges.len(),
{
    if edges.len() > 0 {
        let head = edges.drop_last();
        assert(edges_in_range(head, n)) by {
            assert forall|k: int| 0 <= k < head.len() implies (#[trigger] head[k]).0 < head[k].1
                < n by {
                assert(head[k] == edges[k]);
            }
        }
        lemma_grow_in_range(f, head, n);
        let g = grow(f, head);
        let e = edges.last();
        assert(e == edges[edges.len() - 1]);
        let h = accept(g, e);
        assert forall|i: int, k: int| 0 <= i < h.adj.len() && 0 <= k < h.adj[i].len() implies #[trigger] h.adj[i][k]
            < n by {
            if g.labels[e.0 as int] != g.labels[e.1 as int] && i == e.0 {
                if k < g.adj[i].len() {
                    assert(h.adj[i][k] == g.adj[i][k]);
                }
            } else {
                assert(h.adj[i][k] == g.adj[i][k]);
            }
        }
    }
}

proof fn lemma_row_edges(nodes: Seq<(CoordXZ, Block)>, i: int, m: int)
    requires
        0 <= i,
        m <= nodes.len() <= usize::MAX,
    ensures
        edges_in_range(row_edges(nodes, i, m), nodes.len()),
        forall|k: int| 0 <= k < row_edges(nodes, i, m).len() ==> (#[trigger] row_edges(nodes, i, m)[k]).2 <= 131071,
    decreases m - i,
{
    if m > i + 1 {
        lemma_row_edges(nodes, i, m - 1);
    }
}

proof fn lemma_all_edges(nodes: Seq<(CoordXZ, Block)>, m: int)
    requires
        m <= nodes.len() <= usize::MAX,
    ensures
        edges_in_range(all_edges(nodes, m), nodes.len()),
        forall|k: int| 0 <= k < all_edges(nodes, m).len() ==> (#[trigger] all_edges(nodes, m)[k]).2 <= 131071,
    decreases m,
{
    if m > 0 {
        lemma_all_edges(nodes, m - 1);
        lemma_row_edges(nodes, m - 1, nodes.len() as int);
        let a = all_edges(nodes, m - 1);
        let b = row_edges(nodes, m - 1, nodes.len() as int);
        assert forall|k: int| 0 <= k < (a + b).len() implies (#[trigger] (a + b)[k]).0 < (a + b)[k].1 < nodes.len() && (a + b)[k].2 <= 131071 by {
            if k < a.len() {
                assert((a + b)[k] == a[k]);
            } else {
                assert((a + b)[k] == b[k - a.len()]);
            }
        }
    }
}

/// The spanning tree has one list per node, and every child is a node.
pub proof fn lemma_mst_in_range(nodes: Seq<(CoordXZ, Block)>)
    requires
        nodes.len() <= usize::MAX,
    ensures
        spec_mst(nodes).len() == nodes.len(),
        children_in_range(spec_mst(nodes), nodes.len()),
{
    let n = nodes.len();
    let edges = all_edges(nodes, n as int);
    lemma_all_edges(nodes, n as int);
    lemma_sorted_indices_in_range(edge_costs(edges));
    let sorted = edges_by_cost(edges);
    assert(edges_in_range(sorted, n)) by {
        assert forall|k: int| 0 <= k < sorted.len() implies (#[trigger] sorted[k]).0 < sorted[k].1 < n by {
            let j = sorted_indices(edge_costs(edges))[k];
            assert(j < edges.len());
            assert(sorted[k] == edges[j as int]);
        }
    }
    lemma_grow_in_range(bare_forest(n), sorted, n);
}

/// Distance between two coordinates along one axis.
pub fn abs_diff(a: u16, b: u16) -> (r: usize)
    ensures
        r == spec_abs_diff(a, b),
        r <= 65535,
{
    if a < b {
        (b - a) as usize
    } else {
        (a - b) as usize
    }
}

/// Cost for a turtle to go from `a` to `b`.
pub fn manhatten_turtle(a: CoordXZ, b: CoordXZ) -> (r: Cost)
    ensures
        r == spec_manhatten_turtle(a, b),
        r <= 131071,
{
    let dx = abs_diff(a.0, b.0);
    let dz = abs_diff(a.1, b.1);
    if dx == 0 || dz == 0 {
        return dx + dz;
    }
    dx + dz + 1
}

/// The label of the tree that holds `node`.
pub fn find_parent(parents: &Vec<Node>, node: Node) -> (r: Node)
    requires
        node < parents.len(),
    ensures
        r == parents[node as int],
{
    parents[node]
}

/// Joins the tree of `node_a` to the tree of `node_b`.
pub fn union(parents: &mut Vec<Node>, node_a: Node, node_b: Node)
    requires
        node_a < old(parents).len(),
        node_b < old(parents).len(),
    ensures
        final(parents)@ == relabel(
            old(parents)@,
            old(parents)[node_a as int],
            old(parents)[node_b as int],
        ),
{
    let parent_a = find_parent(parents, node_a);
    let parent_b = find_parent(parents, node_b);
    if parent_a == parent_b {
        assert(parents@ =~= relabel(parents@, parent_a, parent_b));
        return ;
    }
    let n = parents.len();
    let mut i: usize = 0;
    while i < n
        invariant
            0 <= i <= n,
            n == parents.len(),
            n == old(parents).len(),
            parent_a != parent_b,
            forall|k: int| 0 <= k < i ==> #[trigger] parents[k] == relabel(old(parents)@, parent_a, parent_b)[k],
            forall|k: int| i <= k < n ==> #[trigger] parents[k] == old(parents)[k],
        decreases n - i,
    {
        if parents[i] == parent_a {
            parents[i] = parent_b;
        }
        i = i + 1;
    }
    assert(parents@ =~= relabel(old(parents)@, parent_a, parent_b));
}

/// Spans the nodes of a layer with a tree of least total cost.  The tree is
/// given as one list of children per node; an edge is listed under its
/// smaller node.
pub fn nodes_to_mst(nodes: &Vec<(CoordXZ, Block)>) -> (adj_list: Vec<Vec<Node>>)
    ensures
        rows(adj_list@) == spec_mst(nodes@),
        adj_list.len() == nodes.len(),
        children_in_range(rows(adj_list@), nodes@.len()),
{
    let n = nodes.len();
    let mut edges: Vec<Edge> = Vec::new();
    let mut costs: Vec<usize> = Vec::new();
    let mut i: usize = 0;
    while i < n
        invariant
            0 <= i <= n,
            n == nodes.len(),
            edges@ == all_edges(nodes@, i as int),
            costs@ == edge_costs(edges@),
        decreases n - i,
    {
        let mut j: usize = i + 1;
        let ghost before = edges@;
        while j < n
            invariant
                i < j <= n,
                n == nodes.len(),
                edges@ == before + row_edges(nodes@, i as int, j as int),
                costs@ == edge_costs(edges@),
            decreases n - j,
        {
            let (node_a, _block_a) = nodes[i];
            let (node_b, _block_b) = nodes[j];
            let cost: Cost = manhatten_turtle(node_a, node_b);
            edges.push((i, j, cost));
            costs.push(cost);
            assert(costs@ =~= edge_costs(edges@));
            assert(edges@ =~= before + row_edges(nodes@, i as int, j + 1));
            j = j + 1;
        }
        proof {
            if i + 1 >= n {
                assert(row_edges(nodes@, i as int, i + 1) =~= Seq::<Edge>::empty());
                assert(row_edges(nodes@, i as int, n as int) =~= Seq::<Edge>::empty());
            }
        }
        i = i + 1;
    }
    proof {
        lemma_all_edges(nodes@, n as int);
        lemma_mst_in_range(nodes@);
    }
    let order = sort_indices(&costs);
    let ghost sorted = edges_by_cost(edges@);

    let mut parents: Vec<Node> = Vec::new();
    let mut adj_list: Vec<Vec<Node>> = Vec::new();
    i = 0;
    while i < n
        invariant
            0 <= i <= n,
            parents.len() == i,
            adj_list.len() == i,
            forall|k: int| 0 <= k < i ==> #[trigger] parents[k] == k,
            forall|k: int| 0 <= k < i ==> (#[trigger] adj_list[k])@ == Seq::<usize>::empty(),
        decreases n - i,
    {
        parents.push(i);
        adj_list.push(Vec::new());
        i = i + 1;
    }
    assert(parents@ =~= bare_forest(n as nat).labels);
    assert(rows(adj_list@) =~= bare_forest(n as nat).adj);

    let m = order.len();
    let mut k: usize = 0;
    assert(sorted.take(0) =~= Seq::<Edge>::empty());
    while k < m
        invariant
            0 <= k <= m,
            m == order.len(),
            m == edges.len(),
            n == nodes.len(),
            order@ == sorted_indices(edge_costs(edges@)),
            is_permutation(order@, edges@.len()),
            sorted == edges_by_cost(edges@),
            edges_in_range(edges@, n as nat),
            parents.len() == n,
            adj_list.len() == n,
            (Forest { labels: parents@, adj: rows(adj_list@) }) == grow(
                bare_forest(n as nat),
                sorted.take(k as int),
            ),
        decreases m - k,
    {
        let (node_a, node_b, _cost) = edges[order[k]];
        proof {
            assert(sorted.take(k + 1).drop_last() =~= sorted.take(k as int));
            assert(sorted.take(k + 1).last() == edges@[order@[k as int] as int]);
        }
        if find_parent(&parents, node_a) != find_parent(&parents, node_b) {
            let ghost old_rows = rows(adj_list@);
            union(&mut parents, node_a, node_b);
            adj_list[node_a].push(node_b);
            assert(rows(adj_list@) =~= old_rows.update(
                node_a as int,
                old_rows[node_a as int].push(node_b),
            ));
        }
        k = k + 1;
    }
    assert(sorted.take(m as int) =~= sorted);
    adj_list
}


/// The largest number of children that one of the first `m` nodes has.
pub open spec fn max_degree(adj: Seq<Seq<usize>>, m: int) -> nat
    decreases m,
{
    if m <= 0 {
        0
    } else if adj[m - 1].len() > max_degree(adj, m - 1) {
        adj[m - 1].len()
    } else {
        max_degree(adj, m - 1)
    }
}

/// The first of the first `m` nodes that has the most children; node 0 where
/// no node has a child.
pub open spec fn max_degree_node(adj: Seq<Seq<usize>>, m: int) -> int
    decreases m,
{
    if m <= 0 {
        0
    } else if adj[m - 1].len() > max_degree(adj, m - 1) {
        m - 1
    } else {
        max_degree_node(adj, m - 1)
    }
}

/// State of the walk over a tree: the nodes that wait to be visited (the
/// last one is next), the time at which each node was seen (0: not yet), and
/// the clock.
pub struct Walk {
    pub stack: Seq<usize>,
    pub seen: Seq<usize>,
    pub time: nat,
}

/// Number of nodes that were not seen yet.
pub open spec fn unseen(seen: Seq<usize>) -> nat
    decreases seen.len(),
{
    if seen.len() == 0 {
        0
    } else {
        unseen(seen.drop_last()) + if seen.last() == 0 {
            1nat
        } else {
            0nat
        }
    }
}

/// Marking a node that was not seen leaves one node less to see.
pub proof fn lemma_unseen_update(seen: Seq<usize>, node: int, t: usize)
    requires
        0 <= node < seen.len(),
        seen[node] == 0,
        t != 0,
    ensures
        unseen(seen.update(node, t)) + 1 == unseen(seen),
    decreases seen.len(),
{
    let u = seen.update(node, t);
    if node == seen.len() - 1 {
        assert(u.drop_last() =~= seen.drop_last());
    } else {
        assert(u.drop_last() =~= seen.drop_last().update(node, t));
        lemma_unseen_update(seen.drop_last(), node, t);
    }
}

/// A node on the stack can be visited now: it was not seen before, and the
/// clock can be written down.
pub open spec fn visits(adj: Seq<Seq<usize>>, w: Walk) -> bool {
    &&& w.stack.len() > 0
    &&& w.stack.last() < w.seen.len()
    &&& w.stack.last() < adj.len()
    &&& w.seen[w.stack.last() as int] == 0
    &&& 0 < w.time <= usize::MAX
}

/// The walk after its next node was taken from the stack.  A node that is
/// visited gets the time of the clock, its children go on the stack in the
/// order of their list, and the clock advances by one, and by one more where
/// the node has no child.
pub open spec fn walk_step(adj: Seq<Seq<usize>>, w: Walk) -> Walk {
    let node = w.stack.last() as int;
    if visits(adj, w) {
        Walk {
            stack: w.stack.drop_last() + adj[node],
            seen: w.seen.update(node, w.time as usize),
            time: w.time + 1 + if adj[node].len() == 0 {
                1nat
            } else {
                0nat
            },
        }
    } else {
        Walk { stack: w.stack.drop_last(), seen: w.seen, time: w.time }
    }
}

/// The times at which the nodes are seen when the walk runs until its stack
/// is empty.
pub open spec fn walk(adj: Seq<Seq<usize>>, w: Walk) -> Seq<usize>
    decreases unseen(w.seen), w.stack.len(),
{
    if w.stack.len() == 0 {
        w.seen
    } else {
        proof {
            if visits(adj, w) {
                lemma_unseen_update(w.seen, w.stack.last() as int, w.time as usize);
            }
        }
        walk(adj, walk_step(adj, w))
    }
}

/// The time at which each node of a tree is seen in a walk that starts at the
/// node with the most children, at time 1.  A node that the walk does not
/// reach keeps the time 0.
pub open spec fn seen_times(adj: Seq<Seq<usize>>) -> Seq<usize> {
    walk(
        adj,
        Walk {
            stack: seq![max_degree_node(adj, adj.len() as int) as usize],
            seen: Seq::new(adj.len(), |i: int| 0usize),
            time: 1,
        },
    )
}

/// Cuts an order of nodes into runs: a node goes on with the run of the node
/// before it where its time is the next one, and begins a new run otherwise.
pub open spec fn cut_runs(order: Seq<usize>, seen: Seq<usize>) -> Seq<Seq<usize>>
    decreases order.len(),
{
    if order.len() == 0 {
        Seq::empty()
    } else if order.len() == 1 {
        seq![order]
    } else {
        let head = cut_runs(order.drop_last(), seen);
        let prev = order[order.len() - 2];
        let cur = order.last();
        if seen[cur as int] == seen[prev as int] + 1 {
            head.drop_last().push(head.last().push(cur))
        } else {
            head.push(seq![cur])
        }
    }
}

/// The paths of a tree: its nodes in the order of the times at which the walk
/// sees them, cut into runs of successive times.
pub open spec fn spec_paths(adj: Seq<Seq<usize>>) -> Seq<Seq<usize>> {
    cut_runs(sorted_indices(seen_times(adj)), seen_times(adj))
}

/// Every path holds a node, and every node of a path is a node of the layer.
pub open spec fn paths_in_range(paths: Seq<Seq<usize>>, n: nat) -> bool {
    &&& forall|i: int| 0 <= i < paths.len() ==> (#[trigger] paths[i]).len() > 0
    &&& forall|i: int, k: int|
        0 <= i < paths.len() && 0 <= k < paths[i].len() ==> #[trigger] paths[i][k] < n
}

/// The runs of an order are not empty, and one after the other they give the
/// order again.
pub proof fn lemma_cut_runs(order: Seq<usize>, seen: Seq<usize>)
    ensures
        concat_all(cut_runs(order, seen)) == order,
        order.len() > 0 ==> cut_runs(order, seen).len() > 0,
        forall|i: int|
            0 <= i < cut_runs(order, seen).len() ==> (#[trigger] cut_runs(order, seen)[i]).len()
                > 0,
    decreases order.len(),
{
    if order.len() == 0 {
    } else if order.len() == 1 {
        let r = seq![order];
        assert(r.drop_last() =~= Seq::<Seq<usize>>::empty());
        assert(concat_all(r.drop_last()) =~= Seq::<usize>::empty());
        assert(concat_all(r) =~= order);
    } else {
        let head = cut_runs(order.drop_last(), seen);
        lemma_cut_runs(order.drop_last(), seen);
        let cur = order.last();
        let prev = order[order.len() - 2];
        if seen[cur as int] == seen[prev as int] + 1 {
            let r = head.drop_last().push(head.last().push(cur));
            lemma_concat_all_push(head.drop_last(), head.last().push(cur));
            assert(head.len() > 0);
            assert(concat_all(head) == concat_all(head.drop_last()) + head.last());
            assert(concat_all(head) == order.drop_last());
            assert(concat_all(r) == concat_all(head.drop_last()) + head.last().push(cur));
            assert(concat_all(head.drop_last()) + head.last().push(cur) =~= (concat_all(
                head.drop_last(),
            ) + head.last()).push(cur));
            assert(order.drop_last().push(cur) =~= order);
            assert(concat_all(r) =~= order);
            assert forall|i: int| 0 <= i < r.len() implies (#[trigger] r[i]).len() > 0 by {
                if i < r.len() - 1 {
                    assert(r[i] == head[i]);
                }
            }
        } else {
            let r = head.push(seq![cur]);
            lemma_concat_all_push(head, seq![cur]);
            assert(concat_all(head) == order.drop_last());
            assert(order.drop_last() + seq![cur] =~= order);
            assert(concat_all(r) =~= order);
            assert forall|i: int| 0 <= i < r.len() implies (#[trigger] r[i]).len() > 0 by {
                if i < r.len() - 1 {
                    assert(r[i] == head[i]);
                }
            }
        }
    }
}

/// Every entry of one of the sequences is an entry of their concatenation.
pub proof fn lemma_concat_all_entries(paths: Seq<Seq<usize>>, n: nat)
    requires
        forall|j: int| 0 <= j < concat_all(paths).len() ==> #[trigger] concat_all(paths)[j] < n,
    ensures
        forall|i: int, k: int|
            0 <= i < paths.len() && 0 <= k < paths[i].len() ==> #[trigger] paths[i][k] < n,
    decreases paths.len(),
{
    if paths.len() > 0 {
        let head = paths.drop_last();
        let a = concat_all(head);
        let b = paths.last();
        assert(concat_all(paths) == a + b);
        assert forall|j: int| 0 <= j < a.len() implies #[trigger] a[j] < n by {
            assert((a + b)[j] == a[j]);
        }
        lemma_concat_all_entries(head, n);
        assert forall|i: int, k: int| 0 <= i < paths.len() && 0 <= k < paths[i].len() implies #[trigger] paths[i][k]
            < n by {
            if i < paths.len() - 1 {
                assert(paths[i] == head[i]);
            } else {
                assert((a + b)[a.len() + k] == b[k]);
            }
        }
    }
}

proof fn lemma_walk_len(adj: Seq<Seq<usize>>, w: Walk)
    ensures
        walk(adj, w).len() == w.seen.len(),
    decreases unseen(w.seen), w.stack.len(),
{
    if w.stack.len() > 0 {
        if visits(adj, w) {
            lemma_unseen_update(w.seen, w.stack.last() as int, w.time as usize);
        }
        lemma_walk_len(adj, walk_step(adj, w));
    }
}

/// The paths of a tree hold every node once.
pub proof fn lemma_paths_cover(adj: Seq<Seq<usize>>)
    requires
        adj.len() <= usize::MAX,
    ensures
        is_permutation(concat_all(spec_paths(adj)), adj.len()),
        paths_in_range(spec_paths(adj), adj.len()),
{
    let seen = seen_times(adj);
    lemma_walk_len(
        adj,
        Walk {
            stack: seq![max_degree_node(adj, adj.len() as int) as usize],
            seen: Seq::new(adj.len(), |i: int| 0usize),
            time: 1,
        },
    );
    lemma_sorted_indices(seen);
    lemma_cut_runs(sorted_indices(seen), seen);
    lemma_concat_all_entries(spec_paths(adj), adj.len());
}

proof fn lemma_unseen_zeros(n: nat)
    ensures
        unseen(Seq::new(n, |i: int| 0usize)) == n,
    decreases n,
{
    if n > 0 {
        assert(Seq::new(n, |i: int| 0usize).drop_last() =~= Seq::new((n - 1) as nat, |i: int| 0usize));
        lemma_unseen_zeros((n - 1) as nat);
    }
}

proof fn lemma_unseen_positive(seen: Seq<usize>, node: int)
    requires
        0 <= node < seen.len(),
        seen[node] == 0,
    ensures
        unseen(seen) > 0,
    decreases seen.len(),
{
    if node < seen.len() - 1 {
        lemma_unseen_positive(seen.drop_last(), node);
    }
}

/// Walks a tree from the node with the most children and cuts the order in
/// which the nodes are seen into runs of successive times.
pub fn mst_to_paths(adj_list: Vec<Vec<Node>>) -> (paths: Vec<Vec<Node>>)
    requires
        children_in_range(rows(adj_list@), adj_list@.len()),
        2 * adj_list.len() + 2 <= usize::MAX,
    ensures
        rows(paths@) == spec_paths(rows(adj_list@)),
        is_permutation(concat_all(rows(paths@)), adj_list@.len()),
        paths_in_range(rows(paths@), adj_list@.len()),
{
    let n = adj_list.len();
    let ghost adj = rows(adj_list@);
    proof {
        lemma_paths_cover(adj);
    }

    // Find the node with the highest degree.
    let mut max_deg: usize = 0;
    let mut root: usize = 0;
    let mut i: usize = 0;
    while i < n
        invariant
            0 <= i <= n,
            n == adj_list.len(),
            adj == rows(adj_list@),
            max_deg == max_degree(adj, i as int),
            root == max_degree_node(adj, i as int),
            root < n || n == 0,
        decreases n - i,
    {
        if adj_list[i].len() > max_deg {
            max_deg = adj_list[i].len();
            root = i;
        }
        i = i + 1;
    }

    let mut stack: Vec<Node> = Vec::new();
    let mut seen: Vec<usize> = Vec::new();
    i = 0;
    while i < n
        invariant
            0 <= i <= n,
            seen.len() == i,
            forall|k: int| 0 <= k < i ==> #[trigger] seen[k] == 0,
        decreases n - i,
    {
        seen.push(0);
        i = i + 1;
    }
    stack.push(root);
    let mut time: usize = 1;
    proof {
        assert(seen@ =~= Seq::new(n as nat, |i: int| 0usize));
        assert(stack@ =~= seq![root]);
        lemma_unseen_zeros(n as nat);
    }

    // Walk the tree.
    while stack.len() > 0
        invariant
            n == adj_list.len(),
            adj == rows(adj_list@),
            children_in_range(adj, n as nat),
            2 * n + 2 <= usize::MAX,
            seen.len() == n,
            1 <= time,
            time + 2 * unseen(seen@) <= 2 * n + 1,
            forall|k: int| 0 <= k < n ==> #[trigger] seen[k] < time,
            forall|k: int| 0 <= k < stack.len() ==> #[trigger] stack[k] < n || n == 0,
            walk(adj, Walk { stack: stack@, seen: seen@, time: time as nat }) == seen_times(adj),
        decreases unseen(seen@), stack.len(),
    {
        let ghost w = Walk { stack: stack@, seen: seen@, time: time as nat };
        let node = stack.pop().unwrap();
        assert(node == w.stack.last());
        if node < n && seen[node] == 0 {
            proof {
                lemma_unseen_update(seen@, node as int, time);
                lemma_unseen_positive(seen@, node as int);
                assert(visits(adj, w));
            }
            seen[node] = time;
            time = time + 1;
            let children = &adj_list[node];
            let ghost rest = stack@;
            let mut k: usize = 0;
            while k < children.len()
                invariant
                    0 <= k <= children.len(),
                    children@ == adj[node as int],
                    node < n,
                    children_in_range(adj, n as nat),
                    n == adj.len(),
                    stack@ == rest + children@.take(k as int),
                    forall|k: int| 0 <= k < rest.len() ==> #[trigger] rest[k] < n,
                decreases children.len() - k,
            {
                stack.push(children[k]);
                assert(children@.take(k + 1) =~= children@.take(k as int).push(children@[k as int]));
                k = k + 1;
            }
            assert(children@.take(k as int) =~= children@);
            if children.len() == 0 {
                time = time + 1;
            }
            assert(walk_step(adj, w) == (Walk { stack: stack@, seen: seen@, time: time as nat }));
            assert forall|k: int| 0 <= k < stack.len() implies #[trigger] stack[k] < n by {
                if k >= rest.len() {
                    assert(stack[k] == adj[node as int][k - rest.len()]);
                }
            }
        } else {
            assert(!visits(adj, w));
            assert(walk_step(adj, w) == (Walk { stack: stack@, seen: seen@, time: time as nat }));
        }
    }

    // Order the nodes by the time at which they were seen.
    let nodes = sort_indices(&seen);

    // Cut the order into runs of successive times.
    let mut paths: Vec<Vec<Node>> = Vec::new();
    if n == 0 {
        assert(rows(paths@) =~= spec_paths(adj));
        return paths;
    }
    let mut curr_path: Vec<Node> = Vec::new();
    curr_path.push(nodes[0]);
    let mut prev_time = seen[nodes[0]];
    proof {
        assert(nodes@.take(1) =~= seq![nodes@[0]]);
        assert(rows(paths@).push(curr_path@) =~= seq![nodes@.take(1)]);
    }
    i = 1;
    while i < n
        invariant
            1 <= i <= n,
            n == nodes.len(),
            n == seen.len(),
            is_permutation(nodes@, n as nat),
            forall|k: int| 0 <= k < n ==> #[trigger] seen[k] < usize::MAX,
            prev_time == seen[nodes[i - 1] as int],
            rows(paths@).push(curr_path@) == cut_runs(nodes@.take(i as int), seen@),
        decreases n - i,
    {
        let curr_time = seen[nodes[i]];
        let ghost head = cut_runs(nodes@.take(i as int), seen@);
        let ghost old_rows = rows(paths@);
        let ghost old_curr = curr_path@;
        proof {
            let t = nodes@.take(i + 1);
            assert(t.drop_last() =~= nodes@.take(i as int));
            assert(t[t.len() - 2] == nodes@[i - 1]);
            assert(t.last() == nodes@[i as int]);
            assert(head.drop_last() =~= old_rows);
            assert(head.last() == old_curr);
        }
        if curr_time != prev_time + 1 {
            paths.push(curr_path);
            curr_path = Vec::new();
            assert(rows(paths@) =~= old_rows.push(old_curr));
        }
        curr_path.push(nodes[i]);
        prev_time = curr_time;
        i = i + 1;
    }
    assert(nodes@.take(n as int) =~= nodes@);
    let ghost last_rows = rows(paths@);
    paths.push(curr_path);
    assert(rows(paths@) =~= last_rows.push(curr_path@));
    paths
}

/// A distance that is larger than the distance between any two coordinates.
pub const UNREACHED: usize = 131_071;

/// Manhattan distance between two coordinates.
pub open spec fn spec_manhattan(a: CoordXZ, b: CoordXZ) -> int {
    spec_abs_diff(a.0, b.0) + spec_abs_diff(a.1, b.1)
}

/// The nearest end of a path.
pub struct Nearest {
    /// Manhattan distance from the current point to the end.
    pub distance: int,
    /// Index of the path.
    pub path: int,
    /// Whether the end is the back of the path.
    pub reverse: bool,
}

/// The end that is nearest to `start` among the ends of the first `m` paths.
/// Of two ends at the same distance the one of the earlier path wins, and the
/// front wins over the back.
pub open spec fn nearest_end(
    start: CoordXZ,
    paths: Seq<Seq<usize>>,
    nodes: Seq<(CoordXZ, Block)>,
    m: int,
) -> Nearest
    decreases m,
{
    if m <= 0 {
        Nearest { distance: UNREACHED as int, path: 0, reverse: false }
    } else {
        let b = nearest_end(start, paths, nodes, m - 1);
        let p = paths[m - 1];
        let front = spec_manhattan(start, nodes[p.first() as int].0);
        let back = spec_manhattan(start, nodes[p.last() as int].0);
        let b1 = if front < b.distance {
            Nearest { distance: front, path: m - 1, reverse: false }
        } else {
            b
        };
        if back < b1.distance {
            Nearest { distance: back, path: m - 1, reverse: true }
        } else {
            b1
        }
    }
}

/// Stitches paths into one: the path with the nearest end comes next, walked
/// from that end, and the search goes on from its other end.
pub open spec fn stitch(start: CoordXZ, paths: Seq<Seq<usize>>, nodes: Seq<(CoordXZ, Block)>) -> Seq<
    usize,
>
    decreases paths.len(),
{
    if paths.len() == 0 {
        Seq::empty()
    } else {
        let b = nearest_end(start, paths, nodes, paths.len() as int);
        if 0 <= b.path < paths.len() {
            let p = paths[b.path];
            if b.reverse {
                p.reverse() + stitch(nodes[p.first() as int].0, paths.remove(b.path), nodes)
            } else {
                p + stitch(nodes[p.last() as int].0, paths.remove(b.path), nodes)
            }
        } else {
            Seq::empty()
        }
    }
}

/// Where there is a path, the nearest end is an end of one of them.
pub proof fn lemma_nearest_end(
    start: CoordXZ,
    paths: Seq<Seq<usize>>,
    nodes: Seq<(CoordXZ, Block)>,
    m: int,
)
    requires
        0 <= m <= paths.len(),
    ensures
        m > 0 ==> 0 <= nearest_end(start, paths, nodes, m).path < m,
        m > 0 ==> nearest_end(start, paths, nodes, m).distance <= 131070,
        m == 0 ==> nearest_end(start, paths, nodes, m).distance == 131071,
    decreases m,
{
    if m > 0 {
        lemma_nearest_end(start, paths, nodes, m - 1);
        let p = paths[m - 1];
        let front = nodes[p.first() as int].0;
        let back = nodes[p.last() as int].0;
        assert(spec_manhattan(start, front) <= 131070);
        assert(spec_manhattan(start, back) <= 131070);
    }
}

/// The stitched path holds what the paths hold, each node as often.
pub proof fn lemma_stitch_keeps_nodes(
    start: CoordXZ,
    paths: Seq<Seq<usize>>,
    nodes: Seq<(CoordXZ, Block)>,
    v: usize,
)
    ensures
        occurrences(stitch(start, paths, nodes), v) == occurrences(concat_all(paths), v),
        stitch(start, paths, nodes).len() == concat_all(paths).len(),
    decreases paths.len(),
{
    if paths.len() > 0 {
        let b = nearest_end(start, paths, nodes, paths.len() as int);
        lemma_nearest_end(start, paths, nodes, paths.len() as int);
        let p = paths[b.path];
        let rest = paths.remove(b.path);
        lemma_concat_all_remove(paths, b.path, v);
        lemma_concat_all_len_remove(paths, b.path);
        if b.reverse {
            let tail = stitch(nodes[p.first() as int].0, rest, nodes);
            lemma_stitch_keeps_nodes(nodes[p.first() as int].0, rest, nodes, v);
            lemma_occurrences_concat(p.reverse(), tail, v);
            lemma_occurrences_reverse(p, v);
        } else {
            let tail = stitch(nodes[p.last() as int].0, rest, nodes);
            lemma_stitch_keeps_nodes(nodes[p.last() as int].0, rest, nodes, v);
            lemma_occurrences_concat(p, tail, v);
        }
    }
}

proof fn lemma_concat_all_len_remove(paths: Seq<Seq<usize>>, i: int)
    requires
        0 <= i < paths.len(),
    ensures
        concat_all(paths).len() == paths[i].len() + concat_all(paths.remove(i)).len(),
    decreases paths.len(),
{
    let head = paths.drop_last();
    if i == paths.len() - 1 {
        assert(paths.remove(i) =~= head);
    } else {
        let r = paths.remove(i);
        assert(r.drop_last() =~= head.remove(i));
        assert(r.last() == paths.last());
        lemma_concat_all_len_remove(head, i);
    }
}

proof fn lemma_stitch_in_range(
    start: CoordXZ,
    paths: Seq<Seq<usize>>,
    nodes: Seq<(CoordXZ, Block)>,
    n: nat,
)
    requires
        paths_in_range(paths, n),
    ensures
        forall|k: int|
            0 <= k < stitch(start, paths, nodes).len() ==> #[trigger] stitch(start, paths, nodes)[k]
                < n,
    decreases paths.len(),
{
    if paths.len() > 0 {
        let b = nearest_end(start, paths, nodes, paths.len() as int);
        lemma_nearest_end(start, paths, nodes, paths.len() as int);
        let p = paths[b.path];
        let rest = paths.remove(b.path);
        assert(paths_in_range(rest, n)) by {
            assert forall|i: int| 0 <= i < rest.len() implies (#[trigger] rest[i]).len() > 0 by {
                if i < b.path {
                    assert(rest[i] == paths[i]);
                } else {
                    assert(rest[i] == paths[i + 1]);
                }
            }
            assert forall|i: int, k: int| 0 <= i < rest.len() && 0 <= k < rest[i].len() implies #[trigger] rest[i][k]
                < n by {
                if i < b.path {
                    assert(rest[i] == paths[i]);
                } else {
                    assert(rest[i] == paths[i + 1]);
                }
            }
        }
        let next = if b.reverse {
            nodes[p.first() as int].0
        } else {
            nodes[p.last() as int].0
        };
        lemma_stitch_in_range(next, rest, nodes, n);
        let tail = stitch(next, rest, nodes);
        let q = if b.reverse {
            p.reverse()
        } else {
            p
        };
        assert(stitch(start, paths, nodes) == q + tail);
        assert forall|k: int| 0 <= k < (q + tail).len() implies #[trigger] (q + tail)[k] < n by {
            if k < q.len() {
                if b.reverse {
                    assert(q[k] == p[p.len() - 1 - k]);
                } else {
                    assert(q[k] == p[k]);
                }
            } else {
                assert((q + tail)[k] == tail[k - q.len()]);
            }
        }
    }
}

fn manhattan(a: CoordXZ, b: CoordXZ) -> (r: usize)
    ensures
        r == spec_manhattan(a, b),
        r <= 131070,
{
    abs_diff(a.0, b.0) + abs_diff(a.1, b.1)
}

/// Stitches paths into one visiting order.  Again and again the path is
/// taken whose front or back is nearest to the current point; it is walked
/// from that end, and its far end becomes the current point.
pub fn join_paths_greedily(
    start_point: CoordXZ,
    paths: Vec<Vec<Node>>,
    nodes: &Vec<(CoordXZ, Block)>,
) -> (final_path: Vec<Node>)
    requires
        paths_in_range(rows(paths@), nodes@.len()),
    ensures
        final_path@ == stitch(start_point, rows(paths@), nodes@),
        forall|v: usize|
            occurrences(final_path@, v) == occurrences(concat_all(rows(paths@)), v),
        final_path@.len() == concat_all(rows(paths@)).len(),
        forall|k: int| 0 <= k < final_path@.len() ==> #[trigger] final_path@[k] < nodes@.len(),
{
    let ghost all = rows(paths@);
    proof {
        assert forall|v: usize|
            occurrences(stitch(start_point, all, nodes@), v) == occurrences(
                concat_all(all),
                v,
            ) by {
            lemma_stitch_keeps_nodes(start_point, all, nodes@, v);
        }
        lemma_stitch_keeps_nodes(start_point, all, nodes@, 0);
        lemma_stitch_in_range(start_point, all, nodes@, nodes@.len());
    }
    let mut paths = paths;
    let mut current = start_point;
    let mut final_path: Vec<Node> = Vec::new();
    while paths.len() > 0
        invariant
            paths_in_range(rows(paths@), nodes@.len()),
            final_path@ + stitch(current, rows(paths@), nodes@) == stitch(
                start_point,
                all,
                nodes@,
            ),
        decreases paths.len(),
    {
        let ghost ps = rows(paths@);
        let ghost before = current;
        let mut min_distance = UNREACHED;
        let mut curr_path: usize = 0;
        let mut reverse = false;
        let mut i: usize = 0;
        while i < paths.len()
            invariant
                0 <= i <= paths.len(),
                ps == rows(paths@),
                paths_in_range(ps, nodes@.len()),
                (Nearest { distance: min_distance as int, path: curr_path as int, reverse })
                    == nearest_end(current, ps, nodes@, i as int),
            decreases paths.len() - i,
        {
            let path = &paths[i];
            assert(path@ == ps[i as int]);
            assert(ps[i as int].len() > 0);
            assert(ps[i as int][0] < nodes@.len());
            assert(ps[i as int][ps[i as int].len() - 1] < nodes@.len());
            let front_dist = manhattan(current, nodes[path[0]].0);
            let back_dist = manhattan(current, nodes[path[path.len() - 1]].0);
            if front_dist < min_distance {
                min_distance = front_dist;
                curr_path = i;
                reverse = false;
            }
            if back_dist < min_distance {
                min_distance = back_dist;
                curr_path = i;
                reverse = true;
            }
            i = i + 1;
        }
        proof {
            lemma_nearest_end(current, ps, nodes@, ps.len() as int);
        }
        let ghost done = final_path@;
        let path = paths.remove(curr_path);
        assert(path@ == ps[curr_path as int]);
        assert(rows(paths@) =~= ps.remove(curr_path as int));
        assert(paths_in_range(rows(paths@), nodes@.len())) by {
            let rest = rows(paths@);
            assert forall|i: int| 0 <= i < rest.len() implies (#[trigger] rest[i]).len() > 0 by {
                if i < curr_path {
                    assert(rest[i] == ps[i]);
                } else {
                    assert(rest[i] == ps[i + 1]);
                }
            }
            assert forall|i: int, k: int| 0 <= i < rest.len() && 0 <= k < rest[i].len() implies #[trigger] rest[i][k]
                < nodes@.len() by {
                if i < curr_path {
                    assert(rest[i] == ps[i]);
                } else {
                    assert(rest[i] == ps[i + 1]);
                }
            }
        }
        assert(path@[0] < nodes@.len());
        assert(path@[path@.len() - 1] < nodes@.len());
        let len = path.len();
        let mut k: usize = 0;
        if reverse {
            while k < len
                invariant
                    0 <= k <= len,
                    len == path.len(),
                    final_path@ == done + path@.reverse().take(k as int),
                decreases len - k,
            {
                final_path.push(path[len - 1 - k]);
                assert(path@.reverse().take(k + 1) =~= path@.reverse().take(k as int).push(
                    path@[len - 1 - k],
                ));
                k = k + 1;
            }
            assert(path@.reverse().take(len as int) =~= path@.reverse());
            current = nodes[path[0]].0;
        } else {
            while k < len
                invariant
                    0 <= k <= len,
                    len == path.len(),
                    final_path@ == done + path@.take(k as int),
                decreases len - k,
            {
                final_path.push(path[k]);
                assert(path@.take(k + 1) =~= path@.take(k as int).push(path@[k as int]));
                k = k + 1;
            }
            assert(path@.take(len as int) =~= path@);
            current = nodes[path[len - 1]].0;
        }
        assert(final_path@ + stitch(current, rows(paths@), nodes@) =~= done + stitch(
            before,
            ps,
            nodes@,
        )) by {
            let q = if reverse { path@.reverse() } else { path@ };
            assert(final_path@ == done + q);
            assert((done + q) + stitch(current, rows(paths@), nodes@) =~= done + (q + stitch(current, rows(paths@), nodes@)));
        }
    }
    assert(final_path@ + Seq::<usize>::empty() =~= final_path@);
    final_path
}

/// The order in which a turtle that stands at `start` visits the nodes of a
/// layer.
pub open spec fn spec_layer_path(start: CoordXZ, nodes: Seq<(CoordXZ, Block)>) -> Seq<usize> {
    stitch(start, spec_paths(spec_mst(nodes)), nodes)
}

/// The visiting order of a layer holds every node of the layer once.
pub proof fn lemma_layer_path_visits_each_node_once(start: CoordXZ, nodes: Seq<(CoordXZ, Block)>)
    requires
        nodes.len() <= usize::MAX,
    ensures
        is_permutation(spec_layer_path(start, nodes), nodes.len()),
{
    let n = nodes.len();
    lemma_mst_in_range(nodes);
    let adj = spec_mst(nodes);
    lemma_paths_cover(adj);
    let paths = spec_paths(adj);
    lemma_stitch_in_range(start, paths, nodes, n);
    lemma_stitch_keeps_nodes(start, paths, nodes, 0);
    assert forall|v: usize| v < n implies #[trigger] occurrences(
        spec_layer_path(start, nodes),
        v,
    ) == 1 by {
        lemma_stitch_keeps_nodes(start, paths, nodes, v);
    }
}

/// Plans the order in which a turtle that stands at `start` visits the nodes
/// of a layer: a spanning tree, its paths, and the paths stitched together.
/// Nothing is planned for a layer that is too large to number the steps of
/// the walk.
pub fn layer_path(start: CoordXZ, nodes: &Vec<(CoordXZ, Block)>) -> (path: Option<Vec<Node>>)
    ensures
        path is Some <==> 2 * nodes@.len() + 2 <= usize::MAX,
        path is Some ==> path->Some_0@ == spec_layer_path(start, nodes@),
        path is Some ==> is_permutation(path->Some_0@, nodes@.len()),
{
    if nodes.len() > (usize::MAX - 2) / 2 {
        return None;
    }
    let mst = nodes_to_mst(nodes);
    let paths = mst_to_paths(mst);
    let path = join_paths_greedily(start, paths, nodes);
    proof {
        lemma_layer_path_visits_each_node_once(start, nodes@);
    }
    Some(path)
}

} // verus!
