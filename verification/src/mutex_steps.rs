//! The mutex, one atomic step at a time.
//!
//! As for the reader-writer lock, a call is a program: a state that names the
//! next operation on the shared memory of the mutex ([`MutexOp`]), and a
//! function from what the operation saw ([`MutexSeen`]) to the next state.

use crate::waiter::WaiterList;
use std::task::Waker;
use vstd::prelude::*;

verus! {

/// The shared memory of a mutex: whether it is locked, and the waiters in the
/// order of their coming.
pub struct MutexMem {
    pub locked: bool,
    pub waiters: Seq<(usize, Waker)>,
}

/// An operation on the shared memory of a mutex. The list of waiters has a
/// lock of its own.
#[derive(Clone, Copy, PartialEq, Eq, Debug)]
pub enum MutexOp {
    /// Locks the mutex unless it is locked.
    CompareExchange,
    /// Unlocks the mutex.
    Store,
    /// Locks the list of waiters and links the waiter of the task into it, or
    /// gives it the new waker if it is linked.
    Enlist,
    /// Unlinks the waiter of the task from the held list and unlocks the list.
    Delist,
    /// Locks the list of waiters, unlinks the waiter of the task if it is
    /// linked, and unlocks the list.
    Remove,
    /// Locks the list of waiters.
    Enter,
    /// Unlinks the first waiter of the held list and takes its waker.
    Pop,
    /// Wakes by the waker that was taken.
    Wake,
    /// Unlocks the list of waiters.
    Leave,
}

/// What an operation saw.
#[derive(Clone, Copy, PartialEq, Eq, Debug)]
pub enum MutexSeen {
    /// Whether the mutex was taken.
    Acquired(bool),
    /// Whether there was a waiter.
    Popped(bool),
    /// Nothing.
    Done,
}

impl MutexOp {
    /// The operation can see `seen`.
    pub open spec fn answers(self, seen: MutexSeen) -> bool {
        match self {
            MutexOp::CompareExchange => seen is Acquired,
            MutexOp::Pop => seen is Popped,
            _ => seen is Done,
        }
    }

    /// The operation, by the task of waiter `id` with the waker `waker`, turns
    /// the memory `pre` into `post`, sees `seen` and takes the waker `taken`.
    pub open spec fn performed(
        self,
        id: usize,
        waker: Option<Waker>,
        pre: MutexMem,
        seen: MutexSeen,
        taken: Option<Waker>,
        post: MutexMem,
    ) -> bool {
        &&& self.answers(seen)
        &&& match self {
            MutexOp::CompareExchange => {
                &&& seen == MutexSeen::Acquired(!pre.locked)
                &&& post == (MutexMem { locked: true, ..pre })
                &&& taken is None
            },
            MutexOp::Store => post == (MutexMem { locked: false, ..pre }) && taken is None,
            MutexOp::Enlist => {
                &&& waker is Some
                &&& cloned(waker->0, WaiterList::waker_of(post.waiters, id))
                &&& WaiterList::linked(post.waiters, id)
                &&& post == (MutexMem {
                    waiters: WaiterList::enlisted(
                        pre.waiters,
                        id,
                        WaiterList::waker_of(post.waiters, id),
                    ),
                    ..pre
                })
                &&& taken is None
            },
            MutexOp::Delist | MutexOp::Remove => {
                &&& post == (MutexMem { waiters: WaiterList::delisted(pre.waiters, id), ..pre })
                &&& taken is None
            },
            MutexOp::Pop => {
                &&& seen == MutexSeen::Popped(pre.waiters.len() > 0)
                &&& taken == WaiterList::first_waker(pre.waiters)
                &&& post == (MutexMem { waiters: WaiterList::popped(pre.waiters), ..pre })
            },
            MutexOp::Enter | MutexOp::Wake | MutexOp::Leave => post == pre && taken is None,
        }
    }

    /// Only an exchange locks the mutex and only a store unlocks it. Only an
    /// operation on the list changes the list, and then for nobody but the
    /// waiter that comes or goes. Only the first waiter's waker is ever taken,
    /// as that waiter is unlinked.
    pub proof fn law_performed(
        self,
        id: usize,
        waker: Option<Waker>,
        pre: MutexMem,
        seen: MutexSeen,
        taken: Option<Waker>,
        post: MutexMem,
    )
        requires
            self.performed(id, waker, pre, seen, taken, post),
            forall|i: int, j: int|
                0 <= i < j < pre.waiters.len() ==> (#[trigger] pre.waiters[i]).0 != (
                #[trigger] pre.waiters[j]).0,
        ensures
            self is CompareExchange ==> post.locked && seen == MutexSeen::Acquired(!pre.locked),
            self is Store ==> !post.locked,
            !(self is CompareExchange || self is Store) ==> post.locked == pre.locked,
            !(self is Enlist || self is Delist || self is Remove || self is Pop) ==> post.waiters
                == pre.waiters,
            self is Enlist ==> (forall|i: int|
                0 <= i < pre.waiters.len() && (#[trigger] pre.waiters[i]).0 == id ==> waker is Some
                    && post.waiters == pre.waiters.update(i, (id, post.waiters[i].1)) && cloned(
                    waker->0,
                    post.waiters[i].1,
                )),
            self is Enlist && (forall|i: int|
                0 <= i < pre.waiters.len() ==> (#[trigger] pre.waiters[i]).0 != id) ==> {
                let at = pre.waiters.len() as int;
                &&& waker is Some
                &&& post.waiters == pre.waiters.push((id, post.waiters[at].1))
                &&& cloned(waker->0, post.waiters[at].1)
            },
            self is Delist || self is Remove ==> (forall|i: int|
                0 <= i < pre.waiters.len() && (#[trigger] pre.waiters[i]).0 == id ==> post.waiters
                    == pre.waiters.remove(i)),
            (self is Delist || self is Remove) && (forall|i: int|
                0 <= i < pre.waiters.len() ==> (#[trigger] pre.waiters[i]).0 != id)
                ==> post.waiters == pre.waiters,
            self is Pop ==> seen == MutexSeen::Popped(pre.waiters.len() > 0),
            self is Pop && pre.waiters.len() == 0 ==> post.waiters == pre.waiters,
            self is Pop && pre.waiters.len() > 0 ==> taken == Some(pre.waiters[0].1)
                && post.waiters == pre.waiters.subrange(1, pre.waiters.len() as int),
            !(self is Pop && pre.waiters.len() > 0) ==> taken is None,
    {
        WaiterList::lemma_enlisted_at(
            pre.waiters,
            id,
            WaiterList::waker_of(post.waiters, id),
        );
        WaiterList::lemma_delisted_at(pre.waiters, id);
    }
}

/// The poll of a future that waits for the mutex.
#[derive(Clone, Copy, PartialEq, Eq, Debug)]
pub enum LockPoll {
    /// Try to take the mutex.
    Try,
    /// It is contended: register the waker.
    Enlist,
    /// Try again before parking.
    Retry,
    /// That went well: take the waiter back.
    Delist,
    /// It did not: leave the waiter there.
    Leave,
    /// The mutex is taken.
    Ready,
    /// The task is parked.
    Pending,
}

impl LockPoll {
    /// The program has an answer.
    pub open spec fn finished(self) -> bool {
        self is Ready || self is Pending
    }

    /// The program has the list of waiters locked.
    pub open spec fn holds_list(self) -> bool {
        self is Retry || self is Delist || self is Leave
    }

    /// The operation that comes next.
    pub open spec fn pending_op(self) -> MutexOp {
        match self {
            LockPoll::Enlist => MutexOp::Enlist,
            LockPoll::Delist => MutexOp::Delist,
            LockPoll::Leave => MutexOp::Leave,
            _ => MutexOp::CompareExchange,
        }
    }

    /// The state of the program after its operation saw `seen`.
    pub open spec fn after(self, seen: MutexSeen) -> Self {
        match (self, seen) {
            (LockPoll::Try, MutexSeen::Acquired(acquired)) => if acquired {
                LockPoll::Ready
            } else {
                LockPoll::Enlist
            },
            (LockPoll::Enlist, _) => LockPoll::Retry,
            (LockPoll::Retry, MutexSeen::Acquired(acquired)) => if acquired {
                LockPoll::Delist
            } else {
                LockPoll::Leave
            },
            (LockPoll::Delist, _) => LockPoll::Ready,
            (LockPoll::Leave, _) => LockPoll::Pending,
            _ => self,
        }
    }

    /// The operation to perform next.
    pub fn op(&self) -> (op: MutexOp)
        requires
            !self.finished(),
        ensures
            op == self.pending_op(),
    {
        match *self {
            LockPoll::Enlist => MutexOp::Enlist,
            LockPoll::Delist => MutexOp::Delist,
            LockPoll::Leave => MutexOp::Leave,
            _ => MutexOp::CompareExchange,
        }
    }

    /// Goes on after the operation saw `seen`.
    pub fn next(self, seen: MutexSeen) -> (state: Self)
        requires
            !self.finished(),
            self.pending_op().answers(seen),
        ensures
            state == self.after(seen),
    {
        match (self, seen) {
            (LockPoll::Try, MutexSeen::Acquired(acquired)) => if acquired {
                // we got it
                LockPoll::Ready
            } else {
                // contended - register waker
                LockPoll::Enlist
            },
            // double check before returning pending
            (LockPoll::Enlist, _) => LockPoll::Retry,
            (LockPoll::Retry, MutexSeen::Acquired(acquired)) => if acquired {
                LockPoll::Delist
            } else {
                // we lost: park
                LockPoll::Leave
            },
            (LockPoll::Delist, _) => LockPoll::Ready,
            (LockPoll::Leave, _) => LockPoll::Pending,
            _ => self,
        }
    }

    /// A poll tries to take the mutex, and takes it if it can. If it cannot, it
    /// links the waiter and tries once more before it answers: with the mutex
    /// it takes the waiter back, without it the waiter stays.
    pub proof fn law_tries_links_and_tries_again()
        ensures
            ({
                let won = MutexSeen::Acquired(true);
                let lost = MutexSeen::Acquired(false);
                let done = MutexSeen::Done;
                let first = LockPoll::Try;
                let parking = first.after(lost);
                let again = parking.after(done);
                &&& first.pending_op() is CompareExchange && !first.holds_list()
                &&& first.after(won) is Ready
                &&& !parking.finished() && parking.pending_op() is Enlist && !parking.holds_list()
                &&& !again.finished() && again.pending_op() is CompareExchange
                    && again.holds_list()
                &&& !again.after(won).finished() && again.after(won).pending_op() is Delist
                    && again.after(won).holds_list()
                &&& again.after(won).after(done) is Ready
                &&& !again.after(lost).finished() && again.after(lost).pending_op() is Leave
                    && again.after(lost).holds_list()
                &&& again.after(lost).after(done) is Pending
            }),
    {
    }
}

/// The release of the mutex. The list of waiters stays locked while the mutex
/// is released and the first waiter is woken.
#[derive(Clone, Copy, PartialEq, Eq, Debug)]
pub enum Unlock {
    /// Lock the list of waiters.
    Enter,
    /// Unlock the mutex.
    Store,
    /// Take the waker of the first waiter.
    Pop,
    /// Wake it.
    Wake,
    /// Unlock the list of waiters.
    Leave,
    /// The mutex is given back.
    Done,
}

impl Unlock {
    /// The program still has the mutex.
    pub open spec fn owns(self) -> bool {
        self is Enter || self is Store
    }

    /// The program has the list of waiters locked.
    pub open spec fn holds_list(self) -> bool {
        self is Store || self is Pop || self is Wake || self is Leave
    }

    /// The program has taken a waker and not woken by it yet.
    pub open spec fn carries(self) -> bool {
        self is Wake
    }

    /// The operation that comes next.
    pub open spec fn pending_op(self) -> MutexOp {
        match self {
            Unlock::Enter => MutexOp::Enter,
            Unlock::Store => MutexOp::Store,
            Unlock::Pop => MutexOp::Pop,
            Unlock::Wake => MutexOp::Wake,
            _ => MutexOp::Leave,
        }
    }

    /// The state of the program after its operation saw `seen`.
    pub open spec fn after(self, seen: MutexSeen) -> Self {
        match (self, seen) {
            (Unlock::Enter, _) => Unlock::Store,
            (Unlock::Store, _) => Unlock::Pop,
            (Unlock::Pop, MutexSeen::Popped(popped)) => if popped {
                Unlock::Wake
            } else {
                Unlock::Leave
            },
            (Unlock::Wake, _) => Unlock::Leave,
            (Unlock::Leave, _) => Unlock::Done,
            _ => self,
        }
    }

    /// The operation to perform next.
    pub fn op(&self) -> (op: MutexOp)
        requires
            !(self is Done),
        ensures
            op == self.pending_op(),
    {
        match *self {
            Unlock::Enter => MutexOp::Enter,
            Unlock::Store => MutexOp::Store,
            Unlock::Pop => MutexOp::Pop,
            Unlock::Wake => MutexOp::Wake,
            _ => MutexOp::Leave,
        }
    }

    /// Goes on after the operation saw `seen`.
    pub fn next(self, seen: MutexSeen) -> (state: Self)
        requires
            !(self is Done),
            self.pending_op().answers(seen),
        ensures
            state == self.after(seen),
    {
        match (self, seen) {
            (Unlock::Enter, _) => Unlock::Store,
            (Unlock::Store, _) => Unlock::Pop,
            (Unlock::Pop, MutexSeen::Popped(popped)) => if popped {
                Unlock::Wake
            } else {
                Unlock::Leave
            },
            (Unlock::Wake, _) => Unlock::Leave,
            (Unlock::Leave, _) => Unlock::Done,
            _ => self,
        }
    }

    /// A release locks the list of waiters, unlocks the mutex, and takes the
    /// first waiter out. It wakes by that waiter's waker if there was one, and
    /// unlocks the list.
    pub proof fn law_unlocks_and_wakes_the_first()
        ensures
            ({
                let done = MutexSeen::Done;
                let storing = Unlock::Enter.after(done);
                let popping = storing.after(done);
                let waking = popping.after(MutexSeen::Popped(true));
                let leaving = popping.after(MutexSeen::Popped(false));
                &&& Unlock::Enter.pending_op() is Enter && !Unlock::Enter.holds_list()
                &&& Unlock::Enter.owns()
                &&& storing.pending_op() is Store && storing.holds_list() && storing.owns()
                &&& popping.pending_op() is Pop && popping.holds_list() && !popping.owns()
                &&& waking.pending_op() is Wake && !(waking is Done) && waking.holds_list()
                &&& waking.after(done) == leaving
                &&& leaving.pending_op() is Leave && leaving.holds_list() && !leaving.owns()
                &&& leaving.after(done) is Done
            }),
    {
    }
}

} // verus!
