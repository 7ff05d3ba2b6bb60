//! The builder of a model that is shared among several turtles, in its first
//! form: the state that it keeps, and the order in which it visits a layer.

use vstd::prelude::*;
use crate::scripts::chunk_digger::{progress_text, FStoreChunkDigger};
use crate::scripts::model_builder::clustering::{array_model_to_nodes, layer_nodes, ArrayModel};
use crate::scripts::model_builder::generation::{
    children_in_range,
    lemma_unseen_update,
    nodes_to_mst,
    rows,
    spec_mst,
    unseen,
    Block,
    CoordXZ,
    Node,
};
use crate::coords::Order;
use crate::scripts::model_builder::runtime::{
    spec_world_coord,
    Running,
    LIMIT,
    REACH,
    REFILL_WAIT,
};
use crate::turtle_core::control::{
    spec_select,
    Action,
    ActionView,
    Failure,
    StateFile,
    TurtControl,
};
use crate::turtle_core::data::TurtResponse;
use crate::turtle_core::file_system_storage::fstore_save;
use crate::turtle_core::inventory::{
    inv_awaits,
    inv_wf,
    spec_inv_step,
    spec_is_full,
    spec_request,
    InvState,
    Mode,
    TurtInventory,
};
use crate::turtle_core::navigation::{
    idle,
    journey,
    journey_head,
    spec_step,
    NavState,
    TurtNavigation,
};
use crate::turtle_core::position::{Pos, PosH};

verus! {

/// Number of slots of a chest.
pub const CHEST_INV: usize = 27;

/// Number of slots of a turtle.
pub const TURT_INV: usize = 16;

/// Number of blocks in a slot.
pub const SLOT_SIZE: usize = 64;

/// State of the walk that lists the children of a tree: the nodes that wait
/// to be visited (the last one is next), which nodes were visited (1) or not
/// (0), and the children that were listed.
pub struct Listing {
    pub stack: Seq<usize>,
    pub visited: Seq<usize>,
    pub path: Seq<usize>,
}

/// The next node can be visited now.
pub open spec fn lists(adj: Seq<Seq<usize>>, w: Listing) -> bool {
    &&& w.stack.len() > 0
    &&& w.stack.last() < w.visited.len()
    &&& w.stack.last() < adj.len()
    &&& w.visited[w.stack.last() as int] == 0
}

/// The walk after its next node was taken from the stack.  The children of a
/// node that is visited go on the stack and on the list, in their order.
pub open spec fn listing_step(adj: Seq<Seq<usize>>, w: Listing) -> Listing {
    let node = w.stack.last() as int;
    if lists(adj, w) {
        Listing {
            stack: w.stack.drop_last() + adj[node],
            visited: w.visited.update(node, 1usize),
            path: w.path + adj[node],
        }
    } else {
        Listing { stack: w.stack.drop_last(), ..w }
    }
}

/// The children that are listed when the walk runs until its stack is empty.
pub open spec fn listing(adj: Seq<Seq<usize>>, w: Listing) -> Seq<usize>
    decreases unseen(w.visited), w.stack.len(),
{
    if w.stack.len() == 0 {
        w.path
    } else {
        proof {
            if lists(adj, w) {
                lemma_unseen_update(w.visited, w.stack.last() as int, 1usize);
            }
        }
        listing(adj, listing_step(adj, w))
    }
}

/// The visiting order of a tree: the children of every node that a walk from
/// node 0 reaches, node by node.  Node 0 itself is not in it.
pub open spec fn spec_child_path(adj: Seq<Seq<usize>>) -> Seq<usize> {
    listing(
        adj,
        Listing {
            stack: seq![0usize],
            visited: Seq::new(adj.len(), |i: int| 0usize),
            path: Seq::empty(),
        },
    )
}

/// Number of chests that hold `count` blocks.
pub open spec fn spec_chests_needed(count: usize) -> int {
    (count + 1727) / 1728
}

/// Number of chests that hold `count` blocks: a chest has 27 slots of 64
/// blocks.
pub fn chests_needed(count: usize) -> (r: usize)
    ensures
        r == spec_chests_needed(count),
{
    let whole = count / (SLOT_SIZE * CHEST_INV);
    if count % (SLOT_SIZE * CHEST_INV) == 0 {
        whole
    } else {
        whole + 1
    }
}

/// Spans the nodes of a layer with a tree of least total cost and lists the
/// children of the nodes that a walk from the first node reaches.
pub fn nodes_to_mst_to_path(nodes: &Vec<(CoordXZ, Block)>) -> (path: Vec<Node>)
    ensures
        path@ == spec_child_path(spec_mst(nodes@)),
        forall|k: int| 0 <= k < path@.len() ==> #[trigger] path@[k] < nodes@.len(),
{
    let adj_list = nodes_to_mst(nodes);
    let ghost adj = rows(adj_list@);
    let n = adj_list.len();
    let mut stack: Vec<Node> = Vec::new();
    let mut visited: Vec<usize> = Vec::new();
    let mut path: Vec<Node> = Vec::new();
    let mut i: usize = 0;
    while i < n
        invariant
            0 <= i <= n,
            visited.len() == i,
            forall|k: int| 0 <= k < i ==> #[trigger] visited[k] == 0,
        decreases n - i,
    {
        visited.push(0);
        i = i + 1;
    }
    stack.push(0);
    proof {
        assert(visited@ =~= Seq::new(n as nat, |i: int| 0usize));
        assert(stack@ =~= seq![0usize]);
    }
    while stack.len() > 0
        invariant
            n == adj_list.len(),
            n == nodes@.len(),
            adj == rows(adj_list@),
            adj == spec_mst(nodes@),
            children_in_range(adj, n as nat),
            visited.len() == n,
            forall|k: int| 0 <= k < path@.len() ==> #[trigger] path@[k] < n,
            listing(adj, Listing { stack: stack@, visited: visited@, path: path@ })
                == spec_child_path(adj),
        decreases unseen(visited@), stack.len(),
    {
        let ghost w = Listing { stack: stack@, visited: visited@, path: path@ };
        let node = stack.pop().unwrap();
        assert(node == w.stack.last());
        if node < n && visited[node] == 0 {
            proof {
                lemma_unseen_update(visited@, node as int, 1usize);
                assert(lists(adj, w));
            }
            visited[node] = 1;
            let children = &adj_list[node];
            let ghost rest = stack@;
            let ghost listed = path@;
            let mut k: usize = 0;
            while k < children.len()
                invariant
                    0 <= k <= children.len(),
                    children@ == adj[node as int],
                    node < n,
                    n == adj.len(),
                    children_in_range(adj, n as nat),
                    stack@ == rest + children@.take(k as int),
                    path@ == listed + children@.take(k as int),
                    forall|k: int| 0 <= k < listed.len() ==> #[trigger] listed[k] < n,
                    forall|k: int| 0 <= k < path@.len() ==> #[trigger] path@[k] < n,
                decreases children.len() - k,
            {
                stack.push(children[k]);
                path.push(children[k]);
                assert(children@[k as int] == adj[node as int][k as int]);
                assert(children@.take(k + 1) =~= children@.take(k as int).push(children@[k as int]));
                k = k + 1;
            }
            assert(children@.take(k as int) =~= children@);
            assert(listing_step(adj, w) == (Listing {
                stack: stack@,
                visited: visited@,
                path: path@,
            }));
        } else {
            assert(!lists(adj, w));
            assert(listing_step(adj, w) == (Listing {
                stack: stack@,
                visited: visited@,
                path: path@,
            }));
        }
    }
    path
}

/// One thing that the builder has to do.
#[derive(Debug, Clone, Copy)]
pub enum Chore {
    /// Put the chests in their places, from the given one on, of the given
    /// number.
    Chests(usize, usize),
    DigDown,
    PlaceDown,
    /// Build the layers below the given one, down to the layer at which the
    /// build began.
    Layers(usize),
    /// Visit the nodes of the visiting order from the given place on.
    Node(usize),
    /// Take blocks from the chests when a round of the slots begins, and
    /// select the slot in turn when a slot begins.
    UpdateInv,
    /// Go to the chest with the given number.
    Chest(usize),
    /// Take from the chest into the slots from the first to before the
    /// second.
    Take(usize, usize),
    SuckDown,
    /// Ask the turtle for every slot.
    Update,
    /// Wait and look again unless the turtle is full.
    Check,
    Select(usize),
    /// Go to a place.
    Travel(Pos),
    PlaceUp,
    /// Count a block as placed.
    Count,
}

/// Model of the builder.
pub struct MultiState {
    pub nav: NavState,
    pub inv: InvState,
    pub turt_i: usize,
    pub start_pos: PosH,
    pub start_layer: usize,
    pub total_blocks: usize,
    pub stack_count: usize,
    /// Number of blocks that were placed, counted round the sixteen slots.
    pub blocks_placed: usize,
    /// The layer at which the build began.
    pub floor: usize,
    pub nodes: Seq<Seq<(CoordXZ, Block)>>,
    /// The visiting order of the layer in work.
    pub path: Seq<usize>,
    pub agenda: Seq<Chore>,
    pub waiting: bool,
    pub running: Running,
}

/// The place of the chest with the given number: the chests of a turtle
/// stand in a row from its place beside the anchor towards less `z`.
pub open spec fn spec_depot(s: MultiState, number: usize) -> PosH {
    PosH {
        x: (s.start_pos.x + s.turt_i) as i64,
        z: (s.start_pos.z - number) as i64,
        ..s.start_pos
    }
}

/// A response is awaited.
pub open spec fn multi_awaits(s: MultiState) -> bool {
    match s.running {
        Running::Nav => !(s.nav.waiting is Nothing),
        Running::Inv => inv_awaits(s.inv),
        Running::Neither => s.waiting,
    }
}

/// The state after the next thing to do was taken up, and what is asked of
/// the driver.
pub open spec fn spec_multi_advance(s: MultiState) -> (MultiState, ActionView) {
    if s.agenda.len() == 0 {
        (s, ActionView::Finished)
    } else {
        let rest = s.agenda.drop_last();
        let next = MultiState { agenda: rest, ..s };
        match s.agenda.last() {
            Chore::Chests(i, n) => if i >= n {
                (next, ActionView::Continue)
            } else {
                (
                    MultiState {
                        nav: journey(s.nav, spec_depot(s, i).spec_pos()),
                        running: Running::Nav,
                        agenda: rest.push(Chore::Chests((i + 1) as usize, n)).push(
                            Chore::PlaceDown,
                        ).push(Chore::DigDown).push(Chore::Select(0)),
                        ..s
                    },
                    ActionView::Continue,
                )
            },
            Chore::DigDown => (
                MultiState { waiting: true, ..next },
                ActionView::Send("turtle.digDown()"@),
            ),
            Chore::PlaceDown => (
                MultiState { waiting: true, ..next },
                ActionView::Send("turtle.placeDown()"@),
            ),
            Chore::Layers(top) => if top <= s.floor || top > s.nodes.len() {
                (next, ActionView::Continue)
            } else {
                let y = (top - 1) as usize;
                let layer = s.nodes[y as int];
                if layer.len() == 0 {
                    (MultiState { agenda: rest.push(Chore::Layers(y)), ..s }, ActionView::Continue)
                } else {
                    (
                        MultiState {
                            start_layer: y,
                            path: spec_child_path(spec_mst(layer)),
                            agenda: rest.push(Chore::Layers(y)).push(Chore::Node(0)),
                            ..s
                        },
                        ActionView::Save(StateFile::ModelBuilder, progress_text(y, s.total_blocks)),
                    )
                }
            },
            Chore::Node(k) => if k >= s.path.len() {
                (next, ActionView::Continue)
            } else {
                let coord = s.nodes[s.start_layer as int][s.path[k as int] as int].0;
                (
                    MultiState {
                        agenda: rest.push(Chore::Node((k + 1) as usize)).push(Chore::Count).push(
                            Chore::PlaceUp,
                        ).push(Chore::PlaceUp).push(
                            Chore::Travel(
                                spec_world_coord(s.start_pos.spec_pos(), coord, s.start_layer),
                            ),
                        ).push(Chore::UpdateInv),
                        ..s
                    },
                    ActionView::Continue,
                )
            },
            Chore::UpdateInv => if s.blocks_placed as int % 64 != 0 {
                (next, ActionView::Continue)
            } else if (s.blocks_placed as int / 64) % 16 != 0 {
                (
                    MultiState { waiting: true, ..next },
                    ActionView::Send(spec_select(((s.blocks_placed as int / 64) % 16) as u8)),
                )
            } else if s.stack_count + 16 > LIMIT {
                (next, ActionView::Failed(Failure::TooManyStacks))
            } else {
                let number = ((s.stack_count + 16) / 432) as usize;
                let space = (27 - s.stack_count as int % 27) as usize;
                let tail = rest.push(Chore::Select(0)).push(Chore::Check).push(Chore::Update);
                let spill = if space < 16 {
                    tail.push(Chore::Take(space, 16)).push(Chore::Chest((number + 1) as usize))
                } else {
                    tail
                };
                (
                    MultiState {
                        nav: journey_head(s.nav, spec_depot(s, number)),
                        running: Running::Nav,
                        stack_count: (s.stack_count + 16) as usize,
                        agenda: spill.push(Chore::Take(0, 16)),
                        ..s
                    },
                    ActionView::Continue,
                )
            },
            Chore::Chest(number) => (
                MultiState {
                    nav: journey_head(s.nav, spec_depot(s, number)),
                    running: Running::Nav,
                    ..next
                },
                ActionView::Continue,
            ),
            Chore::Take(from, to) => if from >= to || from >= 16 {
                (next, ActionView::Continue)
            } else {
                (
                    MultiState {
                        waiting: true,
                        agenda: rest.push(Chore::Take((from + 1) as usize, to)).push(Chore::SuckDown),
                        ..s
                    },
                    ActionView::Send(spec_select(from as u8)),
                )
            },
            Chore::SuckDown => (
                MultiState { waiting: true, ..next },
                ActionView::Send("turtle.suckDown()"@),
            ),
            Chore::Update => (
                MultiState {
                    inv: InvState { mode: Mode::Updating { cursor: 0, asked: false }, ..s.inv },
                    running: Running::Inv,
                    ..next
                },
                ActionView::Continue,
            ),
            Chore::Check => if spec_is_full(s.inv.slots) {
                (next, ActionView::Continue)
            } else {
                (
                    MultiState { agenda: rest.push(Chore::Check).push(Chore::Update), ..s },
                    ActionView::Sleep(REFILL_WAIT),
                )
            },
            Chore::Select(slot) => (
                MultiState { waiting: true, ..next },
                ActionView::Send(spec_select(slot as u8)),
            ),
            Chore::Travel(dst) => (
                MultiState { nav: journey(s.nav, dst), running: Running::Nav, ..next },
                ActionView::Continue,
            ),
            Chore::PlaceUp => (
                MultiState { waiting: true, ..next },
                ActionView::Send("turtle.placeUp()"@),
            ),
            Chore::Count => (
                MultiState { blocks_placed: ((s.blocks_placed + 1) % 1024) as usize, ..next },
                ActionView::Continue,
            ),
        }
    }
}

/// One step of the builder.  While a command is in flight, `reply` holds the
/// response to it; `dodge` says whether the turtle steps aside where another
/// turtle is in its way.
pub open spec fn spec_multi_step(s: MultiState, reply: Option<TurtResponse>, dodge: bool) -> (
    MultiState,
    ActionView,
) {
    match s.running {
        Running::Nav => {
            let (nav, a) = spec_step(s.nav, reply, dodge);
            if a is Finished {
                (MultiState { nav, running: Running::Neither, ..s }, ActionView::Continue)
            } else {
                (MultiState { nav, ..s }, a)
            }
        },
        Running::Inv => {
            let inv = spec_inv_step(s.inv, reply);
            if inv.mode is Idle {
                (MultiState { inv, running: Running::Neither, ..s }, ActionView::Continue)
            } else {
                (MultiState { inv, ..s }, spec_request(inv))
            }
        },
        Running::Neither => if s.waiting {
            (MultiState { waiting: false, ..s }, ActionView::Continue)
        } else {
            spec_multi_advance(s)
        },
    }
}

/// The numbers that a thing to do bears are within their limits.
pub open spec fn chore_ok(t: Chore) -> bool {
    match t {
        Chore::Chests(i, n) => n <= LIMIT,
        Chore::Chest(number) => number <= LIMIT,
        Chore::Take(from, to) => to <= 16,
        Chore::Select(slot) => slot < 16,
        _ => true,
    }
}

/// The state is well formed: the anchor lies within reach, the numbers are
/// within their limits, the visiting order belongs to the layer in work, and
/// the parts that are not at work are at rest.
pub open spec fn multi_wf(s: MultiState) -> bool {
    &&& -REACH <= s.start_pos.x <= REACH
    &&& -REACH <= s.start_pos.y <= REACH
    &&& -REACH <= s.start_pos.z <= REACH
    &&& s.turt_i <= LIMIT
    &&& s.stack_count <= LIMIT
    &&& s.blocks_placed < 1024
    &&& s.nodes.len() <= LIMIT
    &&& inv_wf(s.inv)
    &&& (s.path.len() > 0 ==> s.start_layer < s.nodes.len())
    &&& forall|k: int|
        0 <= k < s.path.len() ==> #[trigger] s.path[k] < s.nodes[s.start_layer as int].len()
    &&& forall|i: int| 0 <= i < s.agenda.len() ==> chore_ok(#[trigger] s.agenda[i])
    &&& match s.running {
        Running::Nav => s.inv.mode is Idle && !s.waiting,
        Running::Inv => idle(s.nav) && !s.waiting,
        Running::Neither => idle(s.nav) && s.inv.mode is Idle,
    }
}

/// The builder of a model that is shared among several turtles, in its first
/// form.
#[derive(Debug)]
pub struct MultiBuilder {
    turt_i: usize,
    turt: TurtControl,
    nav: TurtNavigation,
    inv: TurtInventory,
    start_pos: PosH,
    start_layer: usize,
    total_blocks: usize,
    stack_count: usize,
    blocks_placed: usize,
    floor: usize,
    nodes: Vec<Vec<(CoordXZ, Block)>>,
    path: Vec<Node>,
    agenda: Vec<Chore>,
    waiting: bool,
    running: Running,
}

impl MultiBuilder {
    /// Model of the builder.
    pub closed spec fn view(&self) -> MultiState {
        MultiState {
            nav: self.nav@,
            inv: self.inv@,
            turt_i: self.turt_i,
            start_pos: self.start_pos,
            start_layer: self.start_layer,
            total_blocks: self.total_blocks,
            stack_count: self.stack_count,
            blocks_placed: self.blocks_placed,
            floor: self.floor,
            nodes: rows(self.nodes@),
            path: self.path@,
            agenda: self.agenda@,
            waiting: self.waiting,
            running: self.running,
        }
    }

    /// The builder of the turtle that is the `turt_i`-th of the fleet, with
    /// the anchor of the build.
    pub fn new(turt_i: usize, start_pos: PosH, turt: TurtControl, nav: TurtNavigation) -> (r:
        Self)
        requires
            idle(nav@),
            -REACH <= start_pos.x <= REACH,
            -REACH <= start_pos.y <= REACH,
            -REACH <= start_pos.z <= REACH,
            turt_i <= LIMIT,
        ensures
            multi_wf(r@),
            r@.nav == nav@,
            r@.turt_i == turt_i,
            r@.start_pos == start_pos,
            r@.start_layer == 0,
            r@.total_blocks == 0,
            r@.stack_count == 0,
            r@.blocks_placed == 0,
            r@.agenda.len() == 0,
            r@.nodes.len() == 0,
            !r@.waiting,
            r@.running is Neither,
    {
        MultiBuilder {
            turt_i,
            start_pos,
            turt,
            stack_count: 0,
            nav,
            inv: TurtInventory::init(turt),
            start_layer: 0,
            total_blocks: 0,
            blocks_placed: 0,
            floor: 0,
            nodes: Vec::new(),
            path: Vec::new(),
            agenda: Vec::new(),
            waiting: false,
            running: Running::Neither,
        }
    }

    /// Lists the nodes of a voxel grid, layer by layer from the bottom.
    pub fn get_nodes(array_model: ArrayModel) -> (layers: Vec<Vec<(CoordXZ, Block)>>)
        requires
            array_model.wf(),
        ensures
            layers@.len() == array_model.dims.1,
            forall|y: int|
                0 <= y < array_model.dims.1 ==> (#[trigger] layers@[y])@ == layer_nodes(
                    array_model,
                    y,
                    array_model.dims.0 as int,
                ),
    {
        array_model_to_nodes(array_model)
    }

    /// The text that keeps the progress: the layer that is being built and
    /// the number of blocks, each on a line of its own.
    pub fn save_progress(&self) -> (r: Vec<u8>)
        ensures
            r@ == progress_text(self@.start_layer, self@.total_blocks),
    {
        fstore_save(&FStoreChunkDigger { layer: self.start_layer, stack_count: self.total_blocks })
    }

    /// Takes up the progress that was kept.
    pub fn get_or_init_progress(&mut self, kept: FStoreChunkDigger)
        requires
            multi_wf(old(self)@),
            old(self)@.agenda.len() == 0,
            old(self)@.path.len() == 0,
        ensures
            final(self)@ == (MultiState {
                start_layer: kept.layer,
                total_blocks: kept.stack_count,
                ..old(self)@
            }),
            multi_wf(final(self)@),
    {
        self.start_layer = kept.layer;
        self.total_blocks = kept.stack_count;
    }

    /// Where the turtle is.
    pub fn pos(&self) -> (r: &PosH)
        ensures
            *r == self@.nav.p,
    {
        self.nav.pos()
    }

    /// Says whether a command is in flight, so that the next step takes the
    /// response to it.
    pub fn awaits_reply(&self) -> (r: bool)
        ensures
            r == multi_awaits(self@),
    {
        match self.running {
            Running::Nav => self.nav.awaits_reply(),
            Running::Inv => self.inv.awaits_reply(),
            Running::Neither => self.waiting,
        }
    }

    /// Begins what is due before a block is placed: at the beginning of a
    /// round of the sixteen slots the turtle takes blocks from the chests and
    /// waits until it is full, and at the beginning of a slot it selects the
    /// slot.
    pub fn update_inv(&mut self)
        requires
            multi_wf(old(self)@),
            old(self)@.agenda.len() == 0,
            old(self)@.running is Neither,
            !old(self)@.waiting,
        ensures
            final(self)@ == (MultiState { agenda: seq![Chore::UpdateInv], ..old(self)@ }),
            multi_wf(final(self)@),
    {
        self.agenda.push(Chore::UpdateInv);
        assert(self.agenda@ =~= seq![Chore::UpdateInv]);
    }

    /// Begins the build of the layers `nodes`, bottom layer first: the chests
    /// for `count` blocks are put in their places, and the layers are built
    /// from the top down to the layer that the kept progress names.
    pub fn run(&mut self, nodes: Vec<Vec<(CoordXZ, Block)>>, count: usize)
        requires
            multi_wf(old(self)@),
            old(self)@.agenda.len() == 0,
            old(self)@.running is Neither,
            !old(self)@.waiting,
            nodes@.len() <= LIMIT,
            spec_chests_needed(count) <= LIMIT,
        ensures
            final(self)@ == (MultiState {
                nodes: rows(nodes@),
                path: Seq::empty(),
                blocks_placed: 0,
                floor: old(self)@.start_layer,
                agenda: seq![
                    Chore::Layers(nodes@.len() as usize),
                    Chore::Chests(0, spec_chests_needed(count) as usize),
                ],
                ..old(self)@
            }),
            multi_wf(final(self)@),
    {
        let top = nodes.len();
        self.nodes = nodes;
        self.path = Vec::new();
        self.blocks_placed = 0;
        self.floor = self.start_layer;
        self.agenda.push(Chore::Layers(top));
        self.agenda.push(Chore::Chests(0, chests_needed(count)));
        assert(self.agenda@ =~= seq![
            Chore::Layers(top),
            Chore::Chests(0, spec_chests_needed(count) as usize),
        ]);
    }

    fn depot(&self, number: usize) -> (r: PosH)
        requires
            multi_wf(self@),
            number <= LIMIT,
        ensures
            r == spec_depot(self@, number),
    {
        let s = self.start_pos;
        PosH { x: s.x + self.turt_i as i64, y: s.y, z: s.z - number as i64, h: s.h }
    }

    fn start_head(&mut self, dst: PosH)
        requires
            idle(old(self)@.nav),
        ensures
            final(self)@ == (MultiState {
                nav: journey_head(old(self)@.nav, dst),
                running: Running::Nav,
                ..old(self)@
            }),
    {
        self.nav.goto_head(&dst, Order::XYZ);
        self.running = Running::Nav;
    }

    fn start_nohead(&mut self, dst: Pos)
        requires
            idle(old(self)@.nav),
        ensures
            final(self)@ == (MultiState {
                nav: journey(old(self)@.nav, dst),
                running: Running::Nav,
                ..old(self)@
            }),
    {
        self.nav.goto_nohead(&dst, Order::XYZ);
        self.running = Running::Nav;
    }

    fn advance(&mut self) -> (r: Action)
        requires
            multi_wf(old(self)@),
            old(self)@.running is Neither,
            !old(self)@.waiting,
        ensures
            (final(self)@, r@) == spec_multi_advance(old(self)@),
            multi_wf(final(self)@),
    {
        if self.agenda.len() == 0 {
            return Action::Finished;
        }
        let ghost before = self@;
        let ghost rest = self.agenda@.drop_last();
        let top = self.agenda.pop().unwrap();
        assert(self.agenda@ =~= rest);
        assert(forall|i: int| 0 <= i < rest.len() ==> chore_ok(#[trigger] rest[i])) by {
            assert forall|i: int| 0 <= i < rest.len() implies chore_ok(#[trigger] rest[i]) by {
                assert(rest[i] == before.agenda[i]);
            }
        }
        assert(chore_ok(before.agenda[before.agenda.len() - 1]));
        match top {
            Chore::Chests(i, n) => {
                if i < n {
                    let dst = self.depot(i).pos();
                    self.agenda.push(Chore::Chests(i + 1, n));
                    self.agenda.push(Chore::PlaceDown);
                    self.agenda.push(Chore::DigDown);
                    self.agenda.push(Chore::Select(0));
                    self.start_nohead(dst);
                }
                Action::Continue
            },
            Chore::DigDown => {
                self.waiting = true;
                Action::Send(self.turt.dig_down())
            },
            Chore::PlaceDown => {
                self.waiting = true;
                Action::Send(self.turt.place_down())
            },
            Chore::Layers(top) => {
                if top <= self.floor || top > self.nodes.len() {
                    return Action::Continue;
                }
                let y = top - 1;
                self.agenda.push(Chore::Layers(y));
                assert(self.nodes@[y as int]@ == before.nodes[y as int]);
                if self.nodes[y].len() == 0 {
                    return Action::Continue;
                }
                self.path = nodes_to_mst_to_path(&self.nodes[y]);
                self.start_layer = y;
                self.agenda.push(Chore::Node(0));
                Action::Save(StateFile::ModelBuilder, self.save_progress())
            },
            Chore::Node(k) => {
                if k >= self.path.len() {
                    return Action::Continue;
                }
                let node = self.path[k];
                assert(before.path[k as int] < before.nodes[before.start_layer as int].len());
                assert(self.nodes@[self.start_layer as int]@
                    == before.nodes[before.start_layer as int]);
                let coord = self.nodes[self.start_layer][node].0;
                let start = self.start_pos;
                let dst = Pos {
                    x: start.x + coord.0 as i64,
                    y: start.y + self.start_layer as i64,
                    z: start.z + coord.1 as i64,
                };
                self.agenda.push(Chore::Node(k + 1));
                self.agenda.push(Chore::Count);
                self.agenda.push(Chore::PlaceUp);
                self.agenda.push(Chore::PlaceUp);
                self.agenda.push(Chore::Travel(dst));
                self.agenda.push(Chore::UpdateInv);
                Action::Continue
            },
            Chore::UpdateInv => {
                if self.blocks_placed % 64 != 0 {
                    return Action::Continue;
                }
                let slot = (self.blocks_placed / 64) % 16;
                if slot != 0 {
                    self.waiting = true;
                    return Action::Send(self.turt.inv_select(slot as u8));
                }
                let count = self.stack_count;
                if count > LIMIT - 16 {
                    return Action::Failed(Failure::TooManyStacks);
                }
                let number = (count + 16) / (TURT_INV * CHEST_INV);
                let space = CHEST_INV - (count % CHEST_INV);
                self.stack_count = count + 16;
                self.agenda.push(Chore::Select(0));
                self.agenda.push(Chore::Check);
                self.agenda.push(Chore::Update);
                if space < TURT_INV {
                    self.agenda.push(Chore::Take(space, 16));
                    self.agenda.push(Chore::Chest(number + 1));
                }
                self.agenda.push(Chore::Take(0, 16));
                let dst = self.depot(number);
                self.start_head(dst);
                Action::Continue
            },
            Chore::Chest(number) => {
                let dst = self.depot(number);
                self.start_head(dst);
                Action::Continue
            },
            Chore::Take(from, to) => {
                if from >= to || from >= 16 {
                    Action::Continue
                } else {
                    self.waiting = true;
                    self.agenda.push(Chore::Take(from + 1, to));
                    self.agenda.push(Chore::SuckDown);
                    Action::Send(self.turt.inv_select(from as u8))
                }
            },
            Chore::SuckDown => {
                self.waiting = true;
                Action::Send(self.turt.suck_down())
            },
            Chore::Update => {
                self.inv.full_update();
                self.running = Running::Inv;
                Action::Continue
            },
            Chore::Check => {
                if self.inv.is_full() {
                    Action::Continue
                } else {
                    self.agenda.push(Chore::Check);
                    self.agenda.push(Chore::Update);
                    Action::Sleep(REFILL_WAIT)
                }
            },
            Chore::Select(slot) => {
                self.waiting = true;
                Action::Send(self.turt.inv_select(slot as u8))
            },
            Chore::Travel(dst) => {
                self.start_nohead(dst);
                Action::Continue
            },
            Chore::PlaceUp => {
                self.waiting = true;
                Action::Send(self.turt.place_up())
            },
            Chore::Count => {
                self.blocks_placed = (self.blocks_placed + 1) % 1024;
                Action::Continue
            },
        }
    }

    /// Takes one step of the build.  While a command is in flight, `reply`
    /// holds the response to it; `dodge` says whether the turtle steps aside
    /// where another turtle is in its way.
    pub fn step_with(&mut self, reply: Option<TurtResponse>, dodge: bool) -> (r: Action)
        requires
            multi_wf(old(self)@),
            reply is Some <==> multi_awaits(old(self)@),
        ensures
            (final(self)@, r@) == spec_multi_step(old(self)@, reply, dodge),
            multi_wf(final(self)@),
            r@ is Send <==> multi_awaits(final(self)@),
    {
        match self.running {
            Running::Nav => {
                let a = self.nav.step_with(reply, dodge);
                match a {
                    Action::Finished => {
                        self.running = Running::Neither;
                        Action::Continue
                    },
                    _ => a,
                }
            },
            Running::Inv => {
                let a = self.inv.step(reply);
                match a {
                    Action::Finished => {
                        self.running = Running::Neither;
                        Action::Continue
                    },
                    _ => a,
                }
            },
            Running::Neither => {
                if self.waiting {
                    self.waiting = false;
                    Action::Continue
                } else {
                    self.advance()
                }
            },
        }
    }

    /// Takes one step of the build.  Where another turtle is in the way, a
    /// coin decides whether the turtle steps aside.
    pub fn step(&mut self, reply: Option<TurtResponse>) -> (r: Action)
        requires
            multi_wf(old(self)@),
            reply is Some <==> multi_awaits(old(self)@),
        ensures
            (final(self)@, r@) == spec_multi_step(old(self)@, reply, true) || (final(self)@, r@)
                == spec_multi_step(old(self)@, reply, false),
            multi_wf(final(self)@),
            r@ is Send <==> multi_awaits(final(self)@),
    {
        let dodge = self.nav.dodges();
        self.step_with(reply, dodge)
    }
}

} // verus!
