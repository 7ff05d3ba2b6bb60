//! The mirror of the sixteen slots of a turtle.
//!
//! The controller keeps count of what it takes from a slot, so that placing a
//! block costs no question to the turtle.  It asks only where its mirror
//! shows nothing to take.

use vstd::prelude::*;
use crate::turtle_core::control::{spec_item_detail, Action, ActionView, TurtControl};
use crate::turtle_core::data::{spec_slot, SlotView, TurtResponse, TurtSlot};

verus! {

/// Number of slots of a turtle.
pub const TURT_SLOTS: usize = 16;

/// The block that a job puts down.
#[derive(Debug, Clone)]
pub enum TurtBlock {
    /// Nothing is put down.
    Nothing,
    /// Whatever the turtle holds.
    Any,
    /// The block of the given name.
    Named(String),
}

/// What the mirror is busy with.
#[derive(Debug, Clone, Copy)]
pub enum Mode {
    Idle,
    /// Asking for every slot: `cursor` is the slot that is asked for next, or
    /// was asked for if `asked` is set.
    Updating { cursor: usize, asked: bool },
    /// Looking for a slot to take from: the search began at `start`, has
    /// left `visited` slots behind and stands at `slot`.  `queried` says
    /// that the turtle was asked for this slot already, `asked` that the
    /// question is in flight.
    Finding { start: usize, slot: usize, visited: usize, queried: bool, asked: bool },
}

/// Model of the mirror.
pub struct InvState {
    pub slots: Seq<Option<SlotView>>,
    pub mode: Mode,
    /// What the last search came to: the count that is left in the slot that
    /// was taken from.
    pub found: Option<i32>,
    /// The slot that the last search took from.
    pub found_at: usize,
}

/// The slots seen as their models.
pub open spec fn slot_views(v: Seq<Option<TurtSlot>>) -> Seq<Option<SlotView>> {
    Seq::new(
        v.len(),
        |i: int|
            match v[i] {
                Some(s) => Some(s@),
                None => None,
            },
    )
}

/// The contents of a slot that a response reports; nothing where the slot is
/// empty or the response cannot be read.
pub open spec fn spec_detail(resp: TurtResponse) -> Option<SlotView> {
    match resp {
        TurtResponse::Value(j) => match spec_slot(j) {
            Ok(s) => Some(s),
            Err(_) => None,
        },
        _ => None,
    }
}

/// Every slot holds something.
pub open spec fn spec_is_full(slots: Seq<Option<SlotView>>) -> bool {
    forall|i: int| 0 <= i < slots.len() ==> (#[trigger] slots[i]) is Some
}

/// The search, from the slot it stands at until it finds a slot to take
/// from, has to ask the turtle, or has come round.  A slot with a count
/// above 0 is taken from.  A slot that the mirror shows as used up is
/// cleared.  For a slot that shows nothing the turtle is asked, once.  In any
/// other case the search moves on to the next slot, and from the last slot
/// to the first.
pub open spec fn spec_scan(s: InvState) -> InvState
    decreases
            match s.mode {
                Mode::Finding { visited, queried, .. } => 2 * (16 - visited) + if queried {
                    0int
                } else {
                    1int
                },
                _ => 0int,
            },
{
    match s.mode {
        Mode::Finding { start, slot, visited, queried, asked } => {
            if visited >= 16 || slot >= s.slots.len() {
                InvState { mode: Mode::Idle, found: None, ..s }
            } else {
                match s.slots[slot as int] {
                    Some(v) if v.count > 0 => InvState {
                        slots: s.slots.update(
                            slot as int,
                            Some(SlotView { count: v.count - 1, name: v.name }),
                        ),
                        mode: Mode::Idle,
                        found: Some((v.count - 1) as i32),
                        found_at: slot,
                    },
                    Some(v) if v.count == 0 && !queried => InvState {
                        slots: s.slots.update(slot as int, None),
                        mode: Mode::Finding { start, slot, visited, queried: true, asked: true },
                        ..s
                    },
                    None if !queried => InvState {
                        mode: Mode::Finding { start, slot, visited, queried: true, asked: true },
                        ..s
                    },
                    _ => {
                        let next = if slot + 1 >= 16 {
                            0usize
                        } else {
                            (slot + 1) as usize
                        };
                        if next == start {
                            InvState { mode: Mode::Idle, found: None, ..s }
                        } else {
                            spec_scan(
                                InvState {
                                    mode: Mode::Finding {
                                        start,
                                        slot: next,
                                        visited: (visited + 1) as usize,
                                        queried: false,
                                        asked: false,
                                    },
                                    ..s
                                },
                            )
                        }
                    },
                }
            }
        },
        _ => s,
    }
}

/// What the mirror asks of the driver in a state.
pub open spec fn spec_request(s: InvState) -> ActionView {
    match s.mode {
        Mode::Idle => ActionView::Finished,
        Mode::Updating { cursor, asked } => ActionView::Send(spec_item_detail(cursor as u8)),
        Mode::Finding { slot, .. } => ActionView::Send(spec_item_detail(slot as u8)),
    }
}

/// One step of the mirror.  While a question is in flight, `reply` holds the
/// response to it.
pub open spec fn spec_inv_step(s: InvState, reply: Option<TurtResponse>) -> InvState {
    match s.mode {
        Mode::Idle => s,
        Mode::Updating { cursor, asked } => {
            let slots = if asked {
                s.slots.update(cursor as int, spec_detail(reply->Some_0))
            } else {
                s.slots
            };
            let next = if asked {
                (cursor + 1) as usize
            } else {
                cursor
            };
            if next >= 16 {
                InvState { slots, mode: Mode::Idle, ..s }
            } else {
                InvState { slots, mode: Mode::Updating { cursor: next, asked: true }, ..s }
            }
        },
        Mode::Finding { start, slot, visited, queried, asked } => {
            if asked {
                spec_scan(
                    InvState {
                        slots: s.slots.update(slot as int, spec_detail(reply->Some_0)),
                        mode: Mode::Finding { start, slot, visited, queried, asked: false },
                        ..s
                    },
                )
            } else {
                spec_scan(s)
            }
        },
    }
}

/// A question is in flight.
pub open spec fn inv_awaits(s: InvState) -> bool {
    match s.mode {
        Mode::Idle => false,
        Mode::Updating { asked, .. } => asked,
        Mode::Finding { asked, .. } => asked,
    }
}

/// The state is well formed: there are sixteen slots, and the slot that the
/// mirror stands at is one of them.
pub open spec fn inv_wf(s: InvState) -> bool {
    &&& s.slots.len() == 16
    &&& match s.mode {
        Mode::Idle => true,
        Mode::Updating { cursor, asked } => cursor < 16,
        Mode::Finding { start, slot, visited, queried, asked } => start < 16 && slot < 16
            && visited <= 16 && (asked ==> queried),
    }
    &&& s.found_at < 16
}

/// The mirror of the inventory of a turtle.
#[derive(Debug)]
pub struct TurtInventory {
    turt: TurtControl,
    pub slots: Vec<Option<TurtSlot>>,
    mode: Mode,
    found: Option<i32>,
    found_at: usize,
}

/// Reads the contents of a slot from a response.
pub fn reply_detail(resp: TurtResponse) -> (r: Option<TurtSlot>)
    ensures
        match spec_detail(resp) {
            Some(v) => r is Some && r->Some_0@ == v,
            None => r is None,
        },
{
    match resp {
        TurtResponse::Value(j) => match TurtSlot::from_json(&j) {
            Ok(s) => Some(s),
            Err(_) => None,
        },
        _ => None,
    }
}

impl TurtInventory {
    /// Model of the mirror.
    pub closed spec fn view(&self) -> InvState {
        InvState {
            slots: slot_views(self.slots@),
            mode: self.mode,
            found: self.found,
            found_at: self.found_at,
        }
    }

    /// A mirror that shows nothing in any slot.
    pub fn init(turt: TurtControl) -> (r: Self)
        ensures
            r@ == (InvState {
                slots: Seq::new(16, |i: int| None::<SlotView>),
                mode: Mode::Idle,
                found: None,
                found_at: 0,
            }),
            inv_wf(r@),
    {
        let mut slots: Vec<Option<TurtSlot>> = Vec::new();
        let mut i: usize = 0;
        while i < TURT_SLOTS
            invariant
                0 <= i <= 16,
                slots.len() == i,
                forall|k: int| 0 <= k < i ==> (#[trigger] slots[k]) is None,
            decreases 16 - i,
        {
            slots.push(None);
            i = i + 1;
        }
        let r = TurtInventory { turt, slots, mode: Mode::Idle, found: None, found_at: 0 };
        assert(r@.slots =~= Seq::new(16, |i: int| None::<SlotView>));
        r
    }

    /// Begins to ask the turtle for every slot.
    pub fn full_update(&mut self)
        requires
            inv_wf(old(self)@),
            old(self)@.mode is Idle,
        ensures
            final(self)@ == (InvState {
                mode: Mode::Updating { cursor: 0, asked: false },
                ..old(self)@
            }),
            inv_wf(final(self)@),
    {
        self.mode = Mode::Updating { cursor: 0, asked: false };
    }

    /// Says whether every slot holds something.
    pub fn is_full(&self) -> (r: bool)
        ensures
            r == spec_is_full(self@.slots),
    {
        let mut i: usize = 0;
        while i < self.slots.len()
            invariant
                0 <= i <= self.slots.len(),
                forall|k: int| 0 <= k < i ==> (#[trigger] self@.slots[k]) is Some,
            decreases self.slots.len() - i,
        {
            if self.slots[i].is_none() {
                assert(self@.slots[i as int] is None);
                return false;
            }
            assert(self@.slots[i as int] is Some);
            i = i + 1;
        }
        true
    }

    /// Begins to look for a slot to take a block from, at `start_slot`.  The
    /// slot that is found loses one block in the mirror.
    pub fn reduce_count_andor_find_next(&mut self, start_slot: usize)
        requires
            inv_wf(old(self)@),
            old(self)@.mode is Idle,
            start_slot < 16,
        ensures
            final(self)@ == (InvState {
                mode: Mode::Finding {
                    start: start_slot,
                    slot: start_slot,
                    visited: 0,
                    queried: false,
                    asked: false,
                },
                ..old(self)@
            }),
            inv_wf(final(self)@),
    {
        self.mode = Mode::Finding {
            start: start_slot,
            slot: start_slot,
            visited: 0,
            queried: false,
            asked: false,
        };
    }

    /// What the last search came to: the count that is left in the slot that
    /// was taken from, or nothing if no slot holds a block.
    pub fn found(&self) -> (r: Option<i32>)
        ensures
            r == self@.found,
    {
        self.found
    }

    /// The slot that the last search took from.
    pub fn found_at(&self) -> (r: usize)
        ensures
            r == self@.found_at,
    {
        self.found_at
    }

    /// Says whether a question is in flight, so that the next step takes the
    /// response to it.
    pub fn awaits_reply(&self) -> (r: bool)
        ensures
            r == inv_awaits(self@),
    {
        match self.mode {
            Mode::Idle => false,
            Mode::Updating { asked, .. } => asked,
            Mode::Finding { asked, .. } => asked,
        }
    }

    /// Says whether the mirror is busy with nothing.
    pub fn is_idle(&self) -> (r: bool)
        ensures
            r == (self@.mode is Idle),
    {
        matches!(self.mode, Mode::Idle)
    }

    fn scan(&mut self)
        requires
            inv_wf(old(self)@),
            old(self)@.mode is Finding,
            !inv_awaits(old(self)@),
        ensures
            final(self)@ == spec_scan(old(self)@),
            inv_wf(final(self)@),
            final(self)@.mode is Idle || inv_awaits(final(self)@),
    {
        loop
            invariant_except_break
                inv_wf(self@),
                self@.mode is Finding,
                !inv_awaits(self@),
                spec_scan(self@) == spec_scan(old(self)@),
            ensures
                self@ == spec_scan(old(self)@),
                inv_wf(self@),
                self@.mode is Idle || inv_awaits(self@),
            decreases
                    match self@.mode {
                        Mode::Finding { visited, queried, .. } => 2 * (16 - visited) + if queried {
                            0int
                        } else {
                            1int
                        },
                        _ => 0int,
                    },
        {
            let ghost before = self@;
            match self.mode {
                Mode::Finding { start, slot, visited, queried, asked } => {
                    if visited >= 16 {
                        self.mode = Mode::Idle;
                        self.found = None;
                        break ;
                    }
                    let count: Option<i32> = match &self.slots[slot] {
                        Some(s) => Some(s.count()),
                        None => None,
                    };
                    assert(before.slots[slot as int] == match self.slots[slot as int] {
                        Some(s) => Some(s@),
                        None => None,
                    });
                    match count {
                        Some(c) if c > 0 => {
                            let mut s = self.slots[slot].take().unwrap();
                            s.reduce_count(1);
                            self.slots[slot] = Some(s);
                            self.mode = Mode::Idle;
                            self.found = Some(c - 1);
                            self.found_at = slot;
                            assert(self@.slots =~= before.slots.update(
                                slot as int,
                                Some(
                                    SlotView {
                                        count: c - 1,
                                        name: before.slots[slot as int]->Some_0.name,
                                    },
                                ),
                            ));
                            break ;
                        },
                        Some(c) if c == 0 && !queried => {
                            self.slots[slot] = None;
                            self.mode = Mode::Finding {
                                start,
                                slot,
                                visited,
                                queried: true,
                                asked: true,
                            };
                            assert(self@.slots =~= before.slots.update(slot as int, None));
                            break ;
                        },
                        None if !queried => {
                            self.mode = Mode::Finding {
                                start,
                                slot,
                                visited,
                                queried: true,
                                asked: true,
                            };
                            assert(self@.slots =~= before.slots);
                            break ;
                        },
                        _ => {
                            let next = if slot + 1 >= TURT_SLOTS {
                                0
                            } else {
                                slot + 1
                            };
                            if next == start {
                                self.mode = Mode::Idle;
                                self.found = None;
                                assert(self@.slots =~= before.slots);
                                break ;
                            }
                            self.mode = Mode::Finding {
                                start,
                                slot: next,
                                visited: visited + 1,
                                queried: false,
                                asked: false,
                            };
                            assert(self@.slots =~= before.slots);
                        },
                    }
                },
                _ => {
                    break ;
                },
            }
        }
    }

    fn request(&self) -> (r: Action)
        requires
            inv_wf(self@),
        ensures
            r@ == spec_request(self@),
    {
        match self.mode {
            Mode::Idle => Action::Finished,
            Mode::Updating { cursor, .. } => Action::Send(self.turt.inv_item_detail(cursor as u8)),
            Mode::Finding { slot, .. } => Action::Send(self.turt.inv_item_detail(slot as u8)),
        }
    }

    /// Takes one step of what the mirror is busy with.  While a question is
    /// in flight, `reply` holds the response to it.  The step ends with the
    /// next question to the turtle, or with the mirror at rest.
    pub fn step(&mut self, reply: Option<TurtResponse>) -> (r: Action)
        requires
            inv_wf(old(self)@),
            reply is Some <==> inv_awaits(old(self)@),
        ensures
            final(self)@ == spec_inv_step(old(self)@, reply),
            r@ == spec_request(final(self)@),
            inv_wf(final(self)@),
            final(self)@.mode is Idle || inv_awaits(final(self)@),
    {
        let ghost before = self@;
        match self.mode {
            Mode::Idle => {},
            Mode::Updating { cursor, asked } => {
                let mut next = cursor;
                match reply {
                    Some(resp) => {
                        self.slots[cursor] = reply_detail(resp);
                        assert(self@.slots =~= before.slots.update(
                            cursor as int,
                            spec_detail(resp),
                        ));
                        next = cursor + 1;
                    },
                    None => {
                        assert(self@.slots =~= before.slots);
                    },
                }
                if next >= TURT_SLOTS {
                    self.mode = Mode::Idle;
                } else {
                    self.mode = Mode::Updating { cursor: next, asked: true };
                }
            },
            Mode::Finding { start, slot, visited, queried, asked } => {
                match reply {
                    Some(resp) => {
                        self.slots[slot] = reply_detail(resp);
                        self.mode = Mode::Finding { start, slot, visited, queried, asked: false };
                        assert(self@.slots =~= before.slots.update(slot as int, spec_detail(resp)));
                    },
                    None => {},
                }
                self.scan();
            },
        }
        self.request()
    }
}

} // verus!
