//! The rendezvous between the planner of a turtle and the turtle itself.
//!
//! The planner leaves commands for the turtle, and the turtle leaves its
//! responses for the planner.  Neither side waits in here: a turtle that
//! finds no command is told to wait, and a planner that finds no response
//! looks again later.

use std::collections::VecDeque;
use vstd::prelude::*;
use crate::turtle_core::control::spec_exit;
use crate::turtle_core::data::TurtResponse;

verus! {

/// Number of turtles that a registry has room for when it is made.
pub const TURTLE_CAPACITY: usize = 32;

/// The two queues of one turtle.
#[derive(Debug)]
pub struct Rendezvous {
    next_queue: VecDeque<String>,
    complete_queue: VecDeque<TurtResponse>,
}

/// Model of a rendezvous: the commands that wait for the turtle and the
/// responses that wait for the planner, oldest first.
pub struct RendezvousView {
    pub next_queue: Seq<Seq<char>>,
    pub complete_queue: Seq<TurtResponse>,
}

/// What a turtle is told when no command waits for it.
pub open spec fn spec_wait() -> Seq<char> {
    "WAIT"@
}

impl View for Rendezvous {
    type V = RendezvousView;

    closed spec fn view(&self) -> RendezvousView {
        RendezvousView {
            next_queue: Seq::new(self.next_queue@.len(), |i: int| self.next_queue@[i]@),
            complete_queue: self.complete_queue@,
        }
    }
}

impl Rendezvous {
    /// A rendezvous with nothing in its queues.
    pub fn new() -> (r: Self)
        ensures
            r@.next_queue.len() == 0,
            r@.complete_queue.len() == 0,
    {
        Rendezvous { next_queue: VecDeque::new(), complete_queue: VecDeque::new() }
    }

    /// The planner leaves a command for the turtle.
    pub fn send(&mut self, cmd: String)
        ensures
            final(self)@.next_queue == old(self)@.next_queue.push(cmd@),
            final(self)@.complete_queue == old(self)@.complete_queue,
    {
        self.next_queue.push_back(cmd);
        assert(self@.next_queue =~= old(self)@.next_queue.push(cmd@));
    }

    /// The planner takes the oldest response, if there is one.
    pub fn recv(&mut self) -> (r: Option<TurtResponse>)
        ensures
            final(self)@.next_queue == old(self)@.next_queue,
            old(self)@.complete_queue.len() == 0 ==> r is None && final(self)@.complete_queue
                == old(self)@.complete_queue,
            old(self)@.complete_queue.len() > 0 ==> r == Some(old(self)@.complete_queue[0])
                && final(self)@.complete_queue == old(self)@.complete_queue.skip(1),
    {
        let r = self.complete_queue.pop_front();
        assert(self@.next_queue =~= old(self)@.next_queue);
        if r.is_some() {
            assert(self@.complete_queue =~= old(self)@.complete_queue.skip(1));
        }
        r
    }

    /// The turtle takes the oldest command, or is told to wait.
    pub fn next(&mut self) -> (r: String)
        ensures
            final(self)@.complete_queue == old(self)@.complete_queue,
            old(self)@.next_queue.len() == 0 ==> r@ == spec_wait() && final(self)@.next_queue
                == old(self)@.next_queue,
            old(self)@.next_queue.len() > 0 ==> r@ == old(self)@.next_queue[0] && final(self)@.next_queue == old(self)@.next_queue.skip(1),
    {
        match self.next_queue.pop_front() {
            Some(v) => {
                assert(self@.next_queue =~= old(self)@.next_queue.skip(1));
                v
            },
            None => {
                assert(self@.next_queue =~= old(self)@.next_queue);
                "WAIT".to_string()
            },
        }
    }

    /// The turtle leaves its response for the planner.
    pub fn cmdcomplete(&mut self, resp: TurtResponse)
        ensures
            final(self)@.complete_queue == old(self)@.complete_queue.push(resp),
            final(self)@.next_queue == old(self)@.next_queue,
    {
        self.complete_queue.push_back(resp);
        assert(self@.next_queue =~= old(self)@.next_queue);
    }

    /// The planner tells the turtle to stop.
    pub fn disconnect(&mut self)
        ensures
            final(self)@.next_queue == old(self)@.next_queue.push(spec_exit()),
            final(self)@.complete_queue == old(self)@.complete_queue,
    {
        self.send("EXIT".to_string());
    }
}

/// The registry of the turtles: one rendezvous for every identifier.
#[derive(Debug)]
pub struct BotNet {
    turtles: Vec<Rendezvous>,
}

impl BotNet {
    /// Model of the registry.
    pub closed spec fn view(&self) -> Seq<RendezvousView> {
        Seq::new(self.turtles@.len(), |i: int| self.turtles@[i]@)
    }

    /// A registry with room for the first turtles, all of them without a
    /// command or a response.
    pub fn new() -> (r: Self)
        ensures
            r@.len() == TURTLE_CAPACITY,
            forall|i: int|
                0 <= i < r@.len() ==> (#[trigger] r@[i]).next_queue.len() == 0
                    && r@[i].complete_queue.len() == 0,
    {
        let mut turtles: Vec<Rendezvous> = Vec::new();
        let mut i: usize = 0;
        while i < TURTLE_CAPACITY
            invariant
                0 <= i <= TURTLE_CAPACITY,
                turtles.len() == i,
                forall|k: int|
                    0 <= k < i ==> (#[trigger] turtles@[k])@.next_queue.len() == 0
                        && turtles@[k]@.complete_queue.len() == 0,
            decreases TURTLE_CAPACITY - i,
        {
            turtles.push(Rendezvous::new());
            i = i + 1;
        }
        BotNet { turtles }
    }

    /// Registers a turtle: it gets a rendezvous with nothing in its queues,
    /// in place of the one it may have had.  The registry grows as far as the
    /// identifier asks for.
    pub fn register_turtle(&mut self, turtleid: usize)
        requires
            turtleid < usize::MAX,
        ensures
            final(self)@.len() == if turtleid < old(self)@.len() {
                old(self)@.len()
            } else {
                (turtleid + 1) as nat
            },
            final(self)@[turtleid as int].next_queue.len() == 0,
            final(self)@[turtleid as int].complete_queue.len() == 0,
            forall|i: int|
                0 <= i < old(self)@.len() && i != turtleid ==> #[trigger] final(self)@[i] == old(self)@[i],
            forall|i: int|
                old(self)@.len() <= i < final(self)@.len() ==> (#[trigger] final(self)@[i]).next_queue.len() == 0 && final(self)@[i].complete_queue.len() == 0,
    {
        while self.turtles.len() <= turtleid
            invariant
                turtleid < usize::MAX,
                self.turtles.len() >= old(self).turtles.len(),
                self.turtles.len() <= turtleid + 1 || self.turtles.len() == old(
                    self,
                ).turtles.len(),
                self.turtles.len() > old(self).turtles.len() ==> old(self).turtles.len()
                    <= turtleid,
                forall|i: int|
                    0 <= i < old(self)@.len() ==> #[trigger] self.turtles@[i] == old(self).turtles@[i],
                forall|i: int|
                    old(self)@.len() <= i < self.turtles.len() ==> (#[trigger] self.turtles@[i])@.next_queue.len()
                        == 0 && self.turtles@[i]@.complete_queue.len() == 0,
            decreases turtleid + 1 - self.turtles.len(),
        {
            self.turtles.push(Rendezvous::new());
        }
        self.turtles[turtleid] = Rendezvous::new();
    }

    /// Says whether the registry holds a rendezvous for the identifier.
    pub fn knows(&self, turtleid: usize) -> (r: bool)
        ensures
            r == (turtleid < self@.len()),
    {
        turtleid < self.turtles.len()
    }

    /// The planner of a turtle leaves a command for it.
    pub fn send(&mut self, turtleid: usize, cmd: String)
        requires
            turtleid < old(self)@.len(),
        ensures
            final(self)@ == old(self)@.update(
                turtleid as int,
                RendezvousView {
                    next_queue: old(self)@[turtleid as int].next_queue.push(cmd@),
                    ..old(self)@[turtleid as int]
                },
            ),
    {
        self.turtles[turtleid].send(cmd);
        assert(self@ =~= old(self)@.update(
            turtleid as int,
            RendezvousView {
                next_queue: old(self)@[turtleid as int].next_queue.push(cmd@),
                ..old(self)@[turtleid as int]
            },
        ));
    }

    /// The planner of a turtle takes the oldest response, if there is one.
    pub fn recv(&mut self, turtleid: usize) -> (r: Option<TurtResponse>)
        requires
            turtleid < old(self)@.len(),
        ensures
            old(self)@[turtleid as int].complete_queue.len() == 0 ==> r is None && final(self)@
                == old(self)@,
            old(self)@[turtleid as int].complete_queue.len() > 0 ==> r == Some(
                old(self)@[turtleid as int].complete_queue[0],
            ) && final(self)@ == old(self)@.update(
                turtleid as int,
                RendezvousView {
                    complete_queue: old(self)@[turtleid as int].complete_queue.skip(1),
                    ..old(self)@[turtleid as int]
                },
            ),
    {
        let r = self.turtles[turtleid].recv();
        proof {
            if old(self)@[turtleid as int].complete_queue.len() == 0 {
                assert(self@ =~= old(self)@);
            } else {
                assert(self@ =~= old(self)@.update(
                    turtleid as int,
                    RendezvousView {
                        complete_queue: old(self)@[turtleid as int].complete_queue.skip(1),
                        ..old(self)@[turtleid as int]
                    },
                ));
            }
        }
        r
    }

    /// A turtle asks for its next command.  It is told to wait if none is
    /// there, or if it is not registered.
    pub fn next(&mut self, turtleid: usize) -> (r: String)
        ensures
            turtleid >= old(self)@.len() || old(self)@[turtleid as int].next_queue.len() == 0 ==> r@
                == spec_wait() && final(self)@ == old(self)@,
            turtleid < old(self)@.len() && old(self)@[turtleid as int].next_queue.len() > 0 ==> r@
                == old(self)@[turtleid as int].next_queue[0] && final(self)@ == old(self)@.update(
                turtleid as int,
                RendezvousView {
                    next_queue: old(self)@[turtleid as int].next_queue.skip(1),
                    ..old(self)@[turtleid as int]
                },
            ),
    {
        if turtleid >= self.turtles.len() {
            return "WAIT".to_string();
        }
        let r = self.turtles[turtleid].next();
        proof {
            if old(self)@[turtleid as int].next_queue.len() == 0 {
                assert(self@ =~= old(self)@);
            } else {
                assert(self@ =~= old(self)@.update(
                    turtleid as int,
                    RendezvousView {
                        next_queue: old(self)@[turtleid as int].next_queue.skip(1),
                        ..old(self)@[turtleid as int]
                    },
                ));
            }
        }
        r
    }

    /// A turtle hands in its response.  A response of a turtle that is not
    /// registered is dropped.
    pub fn cmdcomplete(&mut self, turtleid: usize, resp: TurtResponse) -> (r: bool)
        ensures
            r == (turtleid < old(self)@.len()),
            !r ==> final(self)@ == old(self)@,
            r ==> final(self)@ == old(self)@.update(
                turtleid as int,
                RendezvousView {
                    complete_queue: old(self)@[turtleid as int].complete_queue.push(resp),
                    ..old(self)@[turtleid as int]
                },
            ),
    {
        if turtleid >= self.turtles.len() {
            return false;
        }
        self.turtles[turtleid].cmdcomplete(resp);
        assert(self@ =~= old(self)@.update(
            turtleid as int,
            RendezvousView {
                complete_queue: old(self)@[turtleid as int].complete_queue.push(resp),
                ..old(self)@[turtleid as int]
            },
        ));
        true
    }
}

} // verus!
