//! The online builder: it drives one turtle along the visiting order of each
//! layer, from the top layer down, places a block above itself at every node,
//! and refills from a column of chests when it runs out of blocks.

use vstd::prelude::*;
use crate::coords::Order;
use crate::scripts::model_builder::generation::{
    layer_path,
    rows,
    spec_layer_path,
    Block,
    CoordXZ,
    Node,
};
use crate::text::{
    first_line,
    is_line,
    lemma_nat_digits,
    lemma_split_line,
    nat_digits,
    parse_digits,
    push_digits,
    split_line,
    text_nat,
    LINE_FEED,
};
use crate::turtle_core::control::{
    spec_item_detail,
    spec_select,
    Action,
    ActionView,
    StateFile,
    TurtControl,
};
use crate::turtle_core::data::TurtResponse;
use crate::turtle_core::file_system_storage::{fstore_save, FStore};
use crate::turtle_core::heading::Head;
use crate::turtle_core::inventory::{
    inv_awaits,
    inv_wf,
    reply_detail,
    spec_detail,
    spec_inv_step,
    spec_is_full,
    spec_request,
    InvState,
    Mode,
    TurtInventory,
};
use crate::turtle_core::navigation::{
    idle,
    journey,
    journey_head,
    reply_success,
    spec_step,
    spec_success,
    NavState,
    TurtNavigation,
};
use crate::turtle_core::position::{Pos, PosH};
use crate::{TurtleIdentifier, TurtleIndex};

verus! {

/// How long a turtle waits for its chests to be filled again, in
/// milliseconds.
pub const REFILL_WAIT: u64 = 10_000;

/// The progress of a builder as it is kept in its file: the number of the
/// layer that is being built, counted from the top.
#[derive(Debug, Clone, Copy, PartialEq, Eq, Structural)]
pub struct FStoreModelBuilder {
    pub start_layer: usize,
}

/// The text of a count: its digits on a line.
pub open spec fn count_text(n: usize) -> Seq<u8> {
    nat_digits(n as nat) + seq![10u8] + Seq::<u8>::empty()
}

/// The count that the first line of a text stands for.
pub open spec fn count_of_line(l: Seq<u8>) -> Option<usize> {
    match text_nat(l) {
        Some(v) => if v <= usize::MAX {
            Some(v as usize)
        } else {
            None
        },
        None => None,
    }
}

/// A count that was written is read back as it was.
pub proof fn lemma_count_round_trip(n: usize, rest: Seq<u8>)
    ensures
        count_of_line(first_line(nat_digits(n as nat) + seq![10u8] + rest)) == Some(n),
        is_line(nat_digits(n as nat)),
{
    lemma_nat_digits(n as nat);
    lemma_split_line(nat_digits(n as nat), rest);
}

/// Reads a count from a line.
pub fn read_count(l: &[u8]) -> (r: Option<usize>)
    ensures
        r == count_of_line(l@),
{
    match parse_digits(l) {
        Some(v) => if v <= usize::MAX as u64 {
            Some(v as usize)
        } else {
            None
        },
        None => None,
    }
}

impl FStore for FStoreModelBuilder {
    open spec fn text(&self) -> Seq<u8> {
        count_text(self.start_layer)
    }

    open spec fn parse(d: Seq<u8>) -> Option<Self> {
        match count_of_line(first_line(d)) {
            Some(start_layer) => Some(FStoreModelBuilder { start_layer }),
            None => None,
        }
    }

    open spec fn initial() -> Self {
        FStoreModelBuilder { start_layer: 0 }
    }

    fn default() -> (r: Self) {
        FStoreModelBuilder { start_layer: 0 }
    }

    fn save(&self) -> (r: Vec<u8>) {
        let mut out: Vec<u8> = Vec::new();
        push_digits(self.start_layer as u64, &mut out);
        out.push(LINE_FEED);
        assert(out@ =~= count_text(self.start_layer));
        out
    }

    fn load(d: &[u8]) -> (r: Option<Self>) {
        let (l0, _rest) = split_line(d);
        match read_count(l0) {
            Some(start_layer) => Some(FStoreModelBuilder { start_layer }),
            None => None,
        }
    }

    proof fn lemma_reload(&self) {
        lemma_count_round_trip(self.start_layer, Seq::<u8>::empty());
    }
}

/// What a builder is told: the anchor of the build, which is also the first
/// chest of its column, the number of chests in the column, and the items
/// that the turtle may hold.
#[derive(Debug, Clone)]
pub struct ModelBuilderConfig {
    pub start_pos: Pos,
    pub max_chests: usize,
    pub allowed_blocks: Vec<String>,
}

/// One thing that a builder has to do.
#[derive(Debug, Clone, Copy)]
pub enum Task {
    /// Build the layers from the given one on, counted from the top.
    Layer(usize),
    /// Visit the nodes of the visiting order from the given place on.
    Node(usize),
    /// Take a block from the inventory, or refill.
    Tick,
    /// Look at what the search for a block came to.
    Ticked,
    /// Go to a place.
    Travel(Pos),
    /// Place a block above.
    Place,
    /// Refill from the chests and come back.
    Refill,
    /// Drop what the turtle may not hold, from the given slot on.
    Clear(usize),
    /// Drop the selected item.
    Drop,
    /// Ask the turtle for every slot.
    Update,
    /// Remember where the turtle stands.
    Remember,
    /// Go to the level of the chests, below or above the remembered place.
    Descend,
    /// Go along x to the column of the chests.
    Lateral,
    /// Go to the chest in turn.
    Anchor,
    /// Take from the chest, once for every slot.
    Fill,
    /// Take from the chest for the given slot and those after it.
    Suck(usize),
    /// Drop what the turtle may not hold, and see whether it is full.
    Check,
    /// Wait and fill again unless the turtle is full.
    Checked,
    /// Go back to the remembered place.
    Resume,
}

/// The command of the builder whose response is awaited.
#[derive(Debug, Clone, Copy)]
pub enum Await {
    Nothing,
    /// The response does not matter.
    Ignored,
    /// The contents of the given slot.
    Detail(usize),
    /// What taking from the chest for the given slot came to.
    Sucked(usize),
}

/// The part of the turtle that is at work.
#[derive(Debug, Clone, Copy)]
pub enum Running {
    Neither,
    Nav,
    Inv,
}

/// Model of a builder.
pub struct BuilderState {
    pub nav: NavState,
    pub inv: InvState,
    pub start_pos: Pos,
    pub max_chests: usize,
    pub allowed: Seq<Seq<char>>,
    pub index: usize,
    pub start_layer: usize,
    pub nodes: Seq<Seq<(CoordXZ, Block)>>,
    /// The visiting order of the layer that is being built.
    pub path: Seq<usize>,
    /// The layer that is being built, counted from the bottom.
    pub rev_y: usize,
    pub curr_slot: usize,
    pub saved_pos: PosH,
    /// The chest in turn, counted from the anchor.
    pub offset: usize,
    pub agenda: Seq<Task>,
    pub waiting: Await,
    pub running: Running,
}

/// The grid coordinate that is nearest to a world coordinate.
pub open spec fn spec_grid_coord(p: i64, start: i64) -> u16 {
    if p - start < 0 {
        0u16
    } else if p - start > 65535 {
        65535u16
    } else {
        (p - start) as u16
    }
}

/// The place in the world of a node of a layer.
pub open spec fn spec_world_coord(start: Pos, coord: CoordXZ, y: usize) -> Pos {
    Pos { x: (start.x + coord.0) as i64, y: (start.y + y) as i64, z: (start.z + coord.1) as i64 }
}

/// The texts of a list of strings.
pub open spec fn strings(v: Seq<String>) -> Seq<Seq<char>> {
    Seq::new(v.len(), |i: int| v[i]@)
}

/// The place at the level of the chests that lies below or above the
/// remembered place.
pub open spec fn below_saved(s: BuilderState) -> PosH {
    PosH { y: s.start_pos.y, ..s.saved_pos }
}

/// The place at the level of the chests that lies in the column of the
/// chests, beside the remembered place.
pub open spec fn beside_chests(s: BuilderState) -> PosH {
    PosH { x: (s.start_pos.x + s.index) as i64, y: s.start_pos.y, ..s.saved_pos }
}

/// The place of the chest in turn.
pub open spec fn chest_in_turn(s: BuilderState) -> PosH {
    PosH {
        x: (s.start_pos.x + s.index) as i64,
        y: s.start_pos.y,
        z: (s.start_pos.z - s.offset) as i64,
        h: Head::N,
    }
}

/// A response is awaited.
pub open spec fn builder_awaits(s: BuilderState) -> bool {
    match s.running {
        Running::Nav => !(s.nav.waiting is Nothing),
        Running::Inv => inv_awaits(s.inv),
        Running::Neither => !(s.waiting is Nothing),
    }
}

/// The state after the next thing to do was taken up, and what is asked of
/// the driver.
pub open spec fn spec_builder_advance(s: BuilderState) -> (BuilderState, ActionView) {
    if s.agenda.len() == 0 {
        (s, ActionView::Finished)
    } else {
        let rest = s.agenda.drop_last();
        let next = BuilderState { agenda: rest, ..s };
        match s.agenda.last() {
            Task::Layer(y) => if y >= s.nodes.len() {
                (next, ActionView::Continue)
            } else {
                let rev = (s.nodes.len() - y - 1) as usize;
                let layer = s.nodes[rev as int];
                if layer.len() == 0 || 2 * layer.len() + 2 > usize::MAX {
                    (
                        BuilderState { agenda: rest.push(Task::Layer((y + 1) as usize)), ..s },
                        ActionView::Continue,
                    )
                } else {
                    let start = (
                        spec_grid_coord(s.nav.p.x, s.start_pos.x),
                        spec_grid_coord(s.nav.p.z, s.start_pos.z),
                    );
                    (
                        BuilderState {
                            start_layer: y,
                            rev_y: rev,
                            path: spec_layer_path(start, layer),
                            agenda: rest.push(Task::Layer((y + 1) as usize)).push(Task::Node(0)),
                            ..s
                        },
                        ActionView::Save(StateFile::ModelBuilder, count_text(y)),
                    )
                }
            },
            Task::Node(k) => if k >= s.path.len() {
                (next, ActionView::Continue)
            } else {
                let coord = s.nodes[s.rev_y as int][s.path[k as int] as int].0;
                (
                    BuilderState {
                        agenda: rest.push(Task::Node((k + 1) as usize)).push(Task::Place).push(
                            Task::Travel(spec_world_coord(s.start_pos, coord, s.rev_y)),
                        ).push(Task::Tick),
                        ..s
                    },
                    ActionView::Continue,
                )
            },
            Task::Tick => (
                BuilderState {
                    inv: InvState {
                        mode: Mode::Finding {
                            start: s.curr_slot,
                            slot: s.curr_slot,
                            visited: 0,
                            queried: false,
                            asked: false,
                        },
                        ..s.inv
                    },
                    running: Running::Inv,
                    agenda: rest.push(Task::Ticked),
                    ..s
                },
                ActionView::Continue,
            ),
            Task::Ticked => match s.inv.found {
                Some(_) => (
                    BuilderState { curr_slot: s.inv.found_at, waiting: Await::Ignored, ..next },
                    ActionView::Send(spec_select(s.inv.found_at as u8)),
                ),
                None => (
                    BuilderState { agenda: rest.push(Task::Tick).push(Task::Refill), ..s },
                    ActionView::Continue,
                ),
            },
            Task::Travel(dst) => (
                BuilderState { nav: journey(s.nav, dst), running: Running::Nav, ..next },
                ActionView::Continue,
            ),
            Task::Place => (
                BuilderState { waiting: Await::Ignored, ..next },
                ActionView::Send("turtle.placeUp()"@),
            ),
            Task::Refill => (
                BuilderState {
                    offset: 0,
                    agenda: rest.push(Task::Resume).push(Task::Descend).push(Task::Lateral).push(
                        Task::Fill,
                    ).push(Task::Anchor).push(Task::Lateral).push(Task::Descend).push(
                        Task::Remember,
                    ).push(Task::Clear(0)),
                    ..s
                },
                ActionView::Continue,
            ),
            Task::Clear(slot) => if slot >= 16 {
                (BuilderState { agenda: rest.push(Task::Update), ..s }, ActionView::Continue)
            } else {
                (
                    BuilderState { waiting: Await::Detail(slot), ..next },
                    ActionView::Send(spec_item_detail(slot as u8)),
                )
            },
            Task::Drop => (
                BuilderState { waiting: Await::Ignored, ..next },
                ActionView::Send("turtle.drop()"@),
            ),
            Task::Update => (
                BuilderState {
                    inv: InvState { mode: Mode::Updating { cursor: 0, asked: false }, ..s.inv },
                    running: Running::Inv,
                    ..next
                },
                ActionView::Continue,
            ),
            Task::Remember => (BuilderState { saved_pos: s.nav.p, ..next }, ActionView::Continue),
            Task::Descend => (
                BuilderState {
                    nav: journey_head(s.nav, below_saved(s)),
                    running: Running::Nav,
                    ..next
                },
                ActionView::Continue,
            ),
            Task::Lateral => (
                BuilderState {
                    nav: journey_head(s.nav, beside_chests(s)),
                    running: Running::Nav,
                    ..next
                },
                ActionView::Continue,
            ),
            Task::Anchor => (
                BuilderState {
                    nav: journey_head(s.nav, chest_in_turn(s)),
                    running: Running::Nav,
                    ..next
                },
                ActionView::Continue,
            ),
            Task::Fill => (
                BuilderState { agenda: rest.push(Task::Check).push(Task::Suck(0)), ..s },
                ActionView::Continue,
            ),
            Task::Suck(slot) => if slot >= 16 {
                (next, ActionView::Continue)
            } else {
                (
                    BuilderState { waiting: Await::Sucked(slot), ..next },
                    ActionView::Send("turtle.suckDown()"@),
                )
            },
            Task::Check => (
                BuilderState { agenda: rest.push(Task::Checked).push(Task::Clear(0)), ..s },
                ActionView::Continue,
            ),
            Task::Checked => if spec_is_full(s.inv.slots) {
                (next, ActionView::Continue)
            } else {
                (
                    BuilderState { agenda: rest.push(Task::Fill), ..s },
                    ActionView::Sleep(REFILL_WAIT),
                )
            },
            Task::Resume => (
                BuilderState {
                    nav: journey_head(s.nav, s.saved_pos),
                    running: Running::Nav,
                    ..next
                },
                ActionView::Continue,
            ),
        }
    }
}

/// The state after the response to the awaited command of the builder was
/// taken in, and what is asked of the driver.
pub open spec fn spec_builder_react(s: BuilderState, resp: TurtResponse) -> (
    BuilderState,
    ActionView,
) {
    let quiet = BuilderState { waiting: Await::Nothing, ..s };
    match s.waiting {
        Await::Nothing => (s, ActionView::Continue),
        Await::Ignored => (quiet, ActionView::Continue),
        Await::Detail(slot) => match spec_detail(resp) {
            Some(item) => if s.allowed.contains(item.name) {
                (
                    BuilderState { agenda: s.agenda.push(Task::Clear((slot + 1) as usize)), ..quiet },
                    ActionView::Continue,
                )
            } else {
                (
                    BuilderState {
                        agenda: s.agenda.push(Task::Clear((slot + 1) as usize)).push(Task::Drop),
                        waiting: Await::Ignored,
                        ..s
                    },
                    ActionView::Send(spec_select(slot as u8)),
                )
            },
            None => (
                BuilderState { agenda: s.agenda.push(Task::Clear((slot + 1) as usize)), ..quiet },
                ActionView::Continue,
            ),
        },
        Await::Sucked(slot) => if spec_success(resp) {
            (
                BuilderState { agenda: s.agenda.push(Task::Suck((slot + 1) as usize)), ..quiet },
                ActionView::Continue,
            )
        } else {
            (
                BuilderState {
                    offset: ((s.offset + 1) % (s.max_chests as int)) as usize,
                    agenda: s.agenda.push(Task::Suck((slot + 1) as usize)).push(Task::Anchor),
                    ..quiet
                },
                ActionView::Continue,
            )
        },
    }
}

/// One step of the builder.  While a command is in flight, `reply` holds the
/// response to it; `dodge` says whether the turtle steps aside where another
/// turtle is in its way.
pub open spec fn spec_builder_step(s: BuilderState, reply: Option<TurtResponse>, dodge: bool) -> (
    BuilderState,
    ActionView,
) {
    match s.running {
        Running::Nav => {
            let (nav, a) = spec_step(s.nav, reply, dodge);
            if a is Finished {
                (BuilderState { nav, running: Running::Neither, ..s }, ActionView::Continue)
            } else {
                (BuilderState { nav, ..s }, a)
            }
        },
        Running::Inv => {
            let inv = spec_inv_step(s.inv, reply);
            if inv.mode is Idle {
                (BuilderState { inv, running: Running::Neither, ..s }, ActionView::Continue)
            } else {
                (BuilderState { inv, ..s }, spec_request(inv))
            }
        },
        Running::Neither => if s.waiting is Nothing {
            spec_builder_advance(s)
        } else {
            spec_builder_react(s, reply->Some_0)
        },
    }
}

/// A layer without nodes is passed over: the builder goes on to the next
/// layer, and nothing is sent to the turtle or kept.
pub proof fn lemma_empty_layer_is_skipped(s: BuilderState, y: usize)
    requires
        s.running is Neither,
        s.waiting is Nothing,
        s.agenda.len() > 0,
        s.agenda.last() == Task::Layer(y),
        y < s.nodes.len() <= LIMIT,
        s.nodes[s.nodes.len() - y - 1].len() == 0,
    ensures
        spec_builder_step(s, None, false).1 == ActionView::Continue,
        spec_builder_step(s, None, false).0 == (BuilderState {
            agenda: s.agenda.drop_last().push(Task::Layer((y + 1) as usize)),
            ..s
        }),
{
}

/// Farthest distance of an anchor from the origin, along each axis.
pub const REACH: i64 = 0x4000_0000_0000_0000;

/// Largest number of turtles, of chests and of layers.
pub const LIMIT: usize = 0xffff_ffff;

/// An index into the slots, as far as a thing to do bears one.
pub open spec fn task_ok(t: Task) -> bool {
    match t {
        Task::Clear(slot) => slot <= 16,
        Task::Suck(slot) => slot <= 16,
        _ => true,
    }
}

/// The state is well formed: the anchor lies within reach, the numbers are
/// within their limits, the visiting order belongs to the layer that is
/// being built, the layers that are left come last and lie at or after the
/// one that was kept, and the parts that are not at work are at rest.
pub open spec fn builder_wf(s: BuilderState) -> bool {
    &&& -REACH <= s.start_pos.x <= REACH
    &&& -REACH <= s.start_pos.y <= REACH
    &&& -REACH <= s.start_pos.z <= REACH
    &&& s.index <= LIMIT
    &&& 1 <= s.max_chests <= LIMIT
    &&& s.nodes.len() <= LIMIT
    &&& s.offset < s.max_chests
    &&& s.curr_slot < 16
    &&& inv_wf(s.inv)
    &&& (s.path.len() > 0 ==> s.rev_y < s.nodes.len())
    &&& forall|k: int| 0 <= k < s.path.len() ==> #[trigger] s.path[k] < s.nodes[s.rev_y as int].len()
    &&& forall|i: int| 0 <= i < s.agenda.len() ==> task_ok(#[trigger] s.agenda[i])
    &&& forall|i: int|
        0 <= i < s.agenda.len() && (#[trigger] s.agenda[i]) is Layer ==> i == 0
            && s.agenda[i]->Layer_0 >= s.start_layer
    &&& match s.waiting {
        Await::Detail(slot) => slot < 16,
        Await::Sucked(slot) => slot < 16,
        _ => true,
    }
    &&& match s.running {
        Running::Nav => s.inv.mode is Idle && s.waiting is Nothing,
        Running::Inv => idle(s.nav) && s.waiting is Nothing,
        Running::Neither => idle(s.nav) && s.inv.mode is Idle,
    }
}

/// The builder of one turtle.
#[derive(Debug)]
pub struct ModelBuilder {
    identifier: TurtleIdentifier,
    index: TurtleIndex,
    turt: TurtControl,
    nav: TurtNavigation,
    inv: TurtInventory,
    conf: ModelBuilderConfig,
    fstore_model_builder: FStoreModelBuilder,
    nodes: Vec<Vec<(CoordXZ, Block)>>,
    count: usize,
    path: Vec<Node>,
    rev_y: usize,
    curr_slot: usize,
    saved_pos: PosH,
    offset: usize,
    agenda: Vec<Task>,
    waiting: Await,
    running: Running,
}

fn grid_coord(p: i64, start: i64) -> (r: u16)
    ensures
        r == spec_grid_coord(p, start),
{
    let d = (p as i128) - (start as i128);
    if d < 0 {
        0
    } else if d > 65535 {
        65535
    } else {
        d as u16
    }
}

fn is_allowed(allowed: &Vec<String>, name: &str) -> (r: bool)
    ensures
        r == strings(allowed@).contains(name@),
{
    let wanted = name.to_string();
    let mut i: usize = 0;
    while i < allowed.len()
        invariant
            0 <= i <= allowed.len(),
            wanted@ == name@,
            forall|k: int| 0 <= k < i ==> strings(allowed@)[k] != name@,
        decreases allowed.len() - i,
    {
        if allowed[i] == wanted {
            assert(strings(allowed@)[i as int] == name@);
            return true;
        }
        i = i + 1;
    }
    false
}

impl ModelBuilder {
    /// Model of the builder.
    pub closed spec fn view(&self) -> BuilderState {
        BuilderState {
            nav: self.nav@,
            inv: self.inv@,
            start_pos: self.conf.start_pos,
            max_chests: self.conf.max_chests,
            allowed: strings(self.conf.allowed_blocks@),
            index: self.index,
            start_layer: self.fstore_model_builder.start_layer,
            nodes: rows(self.nodes@),
            path: self.path@,
            rev_y: self.rev_y,
            curr_slot: self.curr_slot,
            saved_pos: self.saved_pos,
            offset: self.offset,
            agenda: self.agenda@,
            waiting: self.waiting,
            running: self.running,
        }
    }

    /// The builder of the turtle with the given identifier, which is the
    /// `index`-th of the fleet.  It goes on from the progress that was kept.
    pub fn new(
        identifier: TurtleIdentifier,
        index: TurtleIndex,
        turt: TurtControl,
        nav: TurtNavigation,
        conf: ModelBuilderConfig,
        fstore_model_builder: FStoreModelBuilder,
    ) -> (r: Self)
        requires
            idle(nav@),
            -REACH <= conf.start_pos.x <= REACH,
            -REACH <= conf.start_pos.y <= REACH,
            -REACH <= conf.start_pos.z <= REACH,
            index <= LIMIT,
            1 <= conf.max_chests <= LIMIT,
        ensures
            builder_wf(r@),
            r@.nav == nav@,
            r@.start_pos == conf.start_pos,
            r@.max_chests == conf.max_chests,
            r@.allowed == strings(conf.allowed_blocks@),
            r@.index == index,
            r@.start_layer == fstore_model_builder.start_layer,
            r@.agenda.len() == 0,
            r@.nodes.len() == 0,
            r@.waiting is Nothing,
            r@.running is Neither,
            r@.curr_slot == 0,
    {
        let saved_pos = *nav.pos();
        ModelBuilder {
            identifier,
            index,
            turt,
            nav,
            inv: TurtInventory::init(turt),
            conf,
            fstore_model_builder,
            nodes: Vec::new(),
            count: 0,
            path: Vec::new(),
            rev_y: 0,
            curr_slot: 0,
            saved_pos,
            offset: 0,
            agenda: Vec::new(),
            waiting: Await::Nothing,
            running: Running::Neither,
        }
    }

    /// The text that keeps the progress.
    pub fn save_progress(&self) -> (r: Vec<u8>)
        ensures
            r@ == count_text(self@.start_layer),
    {
        fstore_save(&self.fstore_model_builder)
    }

    /// Where the turtle is.
    pub fn pos(&self) -> (r: &PosH)
        ensures
            *r == self@.nav.p,
    {
        self.nav.pos()
    }

    /// The slot that blocks are taken from.
    pub fn curr_slot(&self) -> (r: usize)
        ensures
            r == self@.curr_slot,
    {
        self.curr_slot
    }

    /// Says whether a command is in flight, so that the next step takes the
    /// response to it.
    pub fn awaits_reply(&self) -> (r: bool)
        ensures
            r == builder_awaits(self@),
    {
        match self.running {
            Running::Nav => self.nav.awaits_reply(),
            Running::Inv => self.inv.awaits_reply(),
            Running::Neither => !matches!(self.waiting, Await::Nothing),
        }
    }

    /// Begins the refill tick for one block: a block is taken from the
    /// inventory, and where there is none, the turtle refills from its chests
    /// and comes back first.
    pub fn inv_update(&mut self)
        requires
            builder_wf(old(self)@),
            old(self)@.agenda.len() == 0,
            old(self)@.running is Neither,
            old(self)@.waiting is Nothing,
        ensures
            final(self)@ == (BuilderState { agenda: seq![Task::Tick], ..old(self)@ }),
            builder_wf(final(self)@),
    {
        self.agenda.push(Task::Tick);
        assert(self.agenda@ =~= seq![Task::Tick]);
    }

    /// Begins to build the layers `nodes`, bottom layer first, from the top
    /// down and from the layer on that the kept progress names.  `count` is
    /// the number of nodes.
    pub fn run(&mut self, nodes: Vec<Vec<(CoordXZ, Block)>>, count: usize)
        requires
            builder_wf(old(self)@),
            old(self)@.agenda.len() == 0,
            old(self)@.running is Neither,
            old(self)@.waiting is Nothing,
            nodes@.len() <= LIMIT,
        ensures
            final(self)@ == (BuilderState {
                nodes: rows(nodes@),
                path: Seq::empty(),
                agenda: seq![Task::Layer(old(self)@.start_layer)],
                ..old(self)@
            }),
            builder_wf(final(self)@),
    {
        self.nodes = nodes;
        self.count = count;
        self.path = Vec::new();
        self.agenda.push(Task::Layer(self.fstore_model_builder.start_layer));
        assert(self.agenda@ =~= seq![Task::Layer(old(self)@.start_layer)]);
    }

    fn start_head(&mut self, dst: PosH)
        requires
            idle(old(self)@.nav),
        ensures
            final(self)@ == (BuilderState {
                nav: journey_head(old(self)@.nav, dst),
                running: Running::Nav,
                ..old(self)@
            }),
    {
        self.nav.goto_head(&dst, Order::XYZ);
        self.running = Running::Nav;
    }

    fn advance(&mut self) -> (r: Action)
        requires
            builder_wf(old(self)@),
            old(self)@.running is Neither,
            old(self)@.waiting is Nothing,
        ensures
            (final(self)@, r@) == spec_builder_advance(old(self)@),
            builder_wf(final(self)@),
    {
        if self.agenda.len() == 0 {
            return Action::Finished;
        }
        let ghost before = self@;
        let ghost rest = self.agenda@.drop_last();
        let top = self.agenda.pop().unwrap();
        assert(self.agenda@ =~= rest);
        assert(forall|i: int| 0 <= i < rest.len() ==> task_ok(#[trigger] rest[i])) by {
            assert forall|i: int| 0 <= i < rest.len() implies task_ok(#[trigger] rest[i]) by {
                assert(rest[i] == before.agenda[i]);
            }
        }
        assert(task_ok(before.agenda[before.agenda.len() - 1]));
        match top {
            Task::Layer(y) => {
                let n = self.nodes.len();
                if y >= n {
                    return Action::Continue;
                }
                let rev = n - y - 1;
                self.agenda.push(Task::Layer(y + 1));
                let start = (
                    grid_coord(self.nav.pos().x, self.conf.start_pos.x),
                    grid_coord(self.nav.pos().z, self.conf.start_pos.z),
                );
                assert(self.nodes@[rev as int]@ == before.nodes[rev as int]);
                if self.nodes[rev].len() == 0 {
                    return Action::Continue;
                }
                match layer_path(start, &self.nodes[rev]) {
                    None => Action::Continue,
                    Some(path) => {
                        self.path = path;
                        self.rev_y = rev;
                        self.fstore_model_builder.start_layer = y;
                        self.agenda.push(Task::Node(0));
                        Action::Save(StateFile::ModelBuilder, self.save_progress())
                    },
                }
            },
            Task::Node(k) => {
                if k >= self.path.len() {
                    return Action::Continue;
                }
                let node = self.path[k];
                assert(before.path[k as int] < before.nodes[before.rev_y as int].len());
                assert(self.nodes@[self.rev_y as int]@ == before.nodes[before.rev_y as int]);
                let coord = self.nodes[self.rev_y][node].0;
                let start = self.conf.start_pos;
                let dst = Pos {
                    x: start.x + coord.0 as i64,
                    y: start.y + self.rev_y as i64,
                    z: start.z + coord.1 as i64,
                };
                self.agenda.push(Task::Node(k + 1));
                self.agenda.push(Task::Place);
                self.agenda.push(Task::Travel(dst));
                self.agenda.push(Task::Tick);
                Action::Continue
            },
            Task::Tick => {
                self.inv.reduce_count_andor_find_next(self.curr_slot);
                self.running = Running::Inv;
                self.agenda.push(Task::Ticked);
                Action::Continue
            },
            Task::Ticked => {
                match self.inv.found() {
                    Some(_) => {
                        self.curr_slot = self.inv.found_at();
                        self.waiting = Await::Ignored;
                        Action::Send(self.turt.inv_select(self.curr_slot as u8))
                    },
                    None => {
                        self.agenda.push(Task::Tick);
                        self.agenda.push(Task::Refill);
                        Action::Continue
                    },
                }
            },
            Task::Travel(dst) => {
                self.nav.goto_nohead(&dst, Order::XYZ);
                self.running = Running::Nav;
                Action::Continue
            },
            Task::Place => {
                self.waiting = Await::Ignored;
                Action::Send(self.turt.place_up())
            },
            Task::Refill => {
                self.offset = 0;
                self.agenda.push(Task::Resume);
                self.agenda.push(Task::Descend);
                self.agenda.push(Task::Lateral);
                self.agenda.push(Task::Fill);
                self.agenda.push(Task::Anchor);
                self.agenda.push(Task::Lateral);
                self.agenda.push(Task::Descend);
                self.agenda.push(Task::Remember);
                self.agenda.push(Task::Clear(0));
                Action::Continue
            },
            Task::Clear(slot) => {
                if slot >= 16 {
                    self.agenda.push(Task::Update);
                    Action::Continue
                } else {
                    self.waiting = Await::Detail(slot);
                    Action::Send(self.turt.inv_item_detail(slot as u8))
                }
            },
            Task::Drop => {
                self.waiting = Await::Ignored;
                Action::Send(self.turt.inv_drop_forw())
            },
            Task::Update => {
                self.inv.full_update();
                self.running = Running::Inv;
                Action::Continue
            },
            Task::Remember => {
                self.saved_pos = *self.nav.pos();
                Action::Continue
            },
            Task::Descend => {
                let s = self.saved_pos;
                self.start_head(PosH { x: s.x, y: self.conf.start_pos.y, z: s.z, h: s.h });
                Action::Continue
            },
            Task::Lateral => {
                let s = self.saved_pos;
                self.start_head(
                    PosH {
                        x: self.conf.start_pos.x + self.index as i64,
                        y: self.conf.start_pos.y,
                        z: s.z,
                        h: s.h,
                    },
                );
                Action::Continue
            },
            Task::Anchor => {
                self.start_head(
                    PosH {
                        x: self.conf.start_pos.x + self.index as i64,
                        y: self.conf.start_pos.y,
                        z: self.conf.start_pos.z - self.offset as i64,
                        h: Head::N,
                    },
                );
                Action::Continue
            },
            Task::Fill => {
                self.agenda.push(Task::Check);
                self.agenda.push(Task::Suck(0));
                Action::Continue
            },
            Task::Suck(slot) => {
                if slot >= 16 {
                    Action::Continue
                } else {
                    self.waiting = Await::Sucked(slot);
                    Action::Send(self.turt.suck_down())
                }
            },
            Task::Check => {
                self.agenda.push(Task::Checked);
                self.agenda.push(Task::Clear(0));
                Action::Continue
            },
            Task::Checked => {
                if self.inv.is_full() {
                    Action::Continue
                } else {
                    self.agenda.push(Task::Fill);
                    Action::Sleep(REFILL_WAIT)
                }
            },
            Task::Resume => {
                let s = self.saved_pos;
                self.start_head(s);
                Action::Continue
            },
        }
    }

    fn react(&mut self, resp: TurtResponse) -> (r: Action)
        requires
            builder_wf(old(self)@),
            old(self)@.running is Neither,
            !(old(self)@.waiting is Nothing),
        ensures
            (final(self)@, r@) == spec_builder_react(old(self)@, resp),
            builder_wf(final(self)@),
    {
        let ghost before = self@;
        let waiting = self.waiting;
        self.waiting = Await::Nothing;
        match waiting {
            Await::Nothing => Action::Continue,
            Await::Ignored => Action::Continue,
            Await::Detail(slot) => {
                self.agenda.push(Task::Clear(slot + 1));
                match reply_detail(resp) {
                    Some(item) => {
                        if is_allowed(&self.conf.allowed_blocks, item.name()) {
                            Action::Continue
                        } else {
                            self.agenda.push(Task::Drop);
                            self.waiting = Await::Ignored;
                            Action::Send(self.turt.inv_select(slot as u8))
                        }
                    },
                    None => Action::Continue,
                }
            },
            Await::Sucked(slot) => {
                self.agenda.push(Task::Suck(slot + 1));
                if reply_success(&resp) {
                    Action::Continue
                } else {
                    self.offset = (self.offset + 1) % self.conf.max_chests;
                    self.agenda.push(Task::Anchor);
                    Action::Continue
                }
            },
        }
    }

    /// Takes one step of the build.  While a command is in flight, `reply`
    /// holds the response to it; `dodge` says whether the turtle steps aside
    /// where another turtle is in its way.
    pub fn step_with(&mut self, reply: Option<TurtResponse>, dodge: bool) -> (r: Action)
        requires
            builder_wf(old(self)@),
            reply is Some <==> builder_awaits(old(self)@),
        ensures
            (final(self)@, r@) == spec_builder_step(old(self)@, reply, dodge),
            builder_wf(final(self)@),
            r@ is Send <==> builder_awaits(final(self)@),
            final(self)@.start_layer >= old(self)@.start_layer,
    {
        match self.running {
            Running::Nav => {
                let a = self.nav.step_with(reply, dodge);
                match a {
                    Action::Finished => {
                        self.running = Running::Neither;
                        Action::Continue
                    },
                    _ => a,
                }
            },
            Running::Inv => {
                let a = self.inv.step(reply);
                match a {
                    Action::Finished => {
                        self.running = Running::Neither;
                        Action::Continue
                    },
                    _ => a,
                }
            },
            Running::Neither => match reply {
                Some(resp) => self.react(resp),
                None => self.advance(),
            },
        }
    }

    /// Takes one step of the build.  Where another turtle is in the way, a
    /// coin decides whether the turtle steps aside.
    pub fn step(&mut self, reply: Option<TurtResponse>) -> (r: Action)
        requires
            builder_wf(old(self)@),
            reply is Some <==> builder_awaits(old(self)@),
        ensures
            (final(self)@, r@) == spec_builder_step(old(self)@, reply, true) || (final(self)@, r@)
                == spec_builder_step(old(self)@, reply, false),
            builder_wf(final(self)@),
            r@ is Send <==> builder_awaits(final(self)@),
            final(self)@.start_layer >= old(self)@.start_layer,
    {
        let dodge = self.nav.dodges();
        self.step_with(reply, dodge)
    }

    /// The navigation of the turtle, when the build is over.
    pub fn into_nav(self) -> (r: TurtNavigation)
        ensures
            r@ == self@.nav,
    {
        self.nav
    }
}

} // verus!
