//! A mutex for tasks: the lock, its future and its guard.
//!
//! The calls here run the programs of [`crate::mutex_steps`] from start to end
//! without a step of another task in between. A call that makes a task ready
//! to go on returns its waker.

use crate::mutex_steps::{LockPoll, MutexMem, MutexOp, MutexSeen, Unlock};
use crate::waiter::WaiterList;
use crate::waker::Poll;
use std::task::Waker;
use vstd::prelude::*;

verus! {

/// A mutex around a value.
pub struct Mutex<T> {
    /// false: Unlocked
    /// true: Locked
    state: bool,
    value: T,
    waiters: WaiterList,
    next_waiter_id: usize,
}

/// What a mutex holds.
pub struct MutexView<T> {
    /// The memory that the programs work on.
    pub mem: MutexMem,
    /// The value under the lock.
    pub value: T,
    /// The waiter id of the next future.
    pub next_waiter_id: usize,
}

impl<T> View for Mutex<T> {
    type V = MutexView<T>;

    closed spec fn view(&self) -> MutexView<T> {
        MutexView {
            mem: MutexMem { locked: self.state, waiters: self.waiters@ },
            value: self.value,
            next_waiter_id: self.next_waiter_id,
        }
    }
}

impl<T> MutexView<T> {
    /// The mutex with other memory.
    pub open spec fn with_mem(self, mem: MutexMem) -> Self {
        MutexView { mem, ..self }
    }

    /// Nothing but the memory is another.
    pub proof fn law_with_mem(self, mem: MutexMem)
        ensures
            self.with_mem(mem).mem == mem,
            self.with_mem(mem).value == self.value,
            self.with_mem(mem).next_waiter_id == self.next_waiter_id,
    {
    }
}

impl<T> Mutex<T> {
    /// The list of waiters is in order.
    pub closed spec fn wf(self) -> bool {
        self.waiters.wf()
    }

    /// No waiter of a well-formed mutex is linked twice.
    pub proof fn lemma_wf(self)
        requires
            self.wf(),
        ensures
            WaiterList::distinct(self@.mem.waiters),
            forall|i: int, j: int|
                0 <= i < j < self@.mem.waiters.len() ==> (#[trigger] self@.mem.waiters[i]).0 != (
                #[trigger] self@.mem.waiters[j]).0,
    {
        self.waiters.lemma_wf();
    }

    /// An unlocked mutex around `value`.
    pub fn new(value: T) -> (mutex: Self)
        ensures
            mutex.wf(),
            mutex@.value == value,
            !mutex@.mem.locked,
            mutex@.mem.waiters == Seq::<(usize, Waker)>::empty(),
            mutex@.next_waiter_id == 0,
    {
        Mutex {
            state: false,  // starts unlocked
            value,
            waiters: WaiterList::new(),
            next_waiter_id: 0,
        }
    }

    /// A future that waits for the mutex, with a waiter id of its own. The
    /// counter of ids wraps around, so an id comes again after `usize::MAX`
    /// others. A future that is still linked then shares its place in the list
    /// with the new one.
    pub fn lock(&mut self) -> (future: LockFuture)
        requires
            old(self).wf(),
        ensures
            final(self).wf(),
            future.id() == old(self)@.next_waiter_id,
            final(self)@ == (MutexView {
                next_waiter_id: old(self)@.next_waiter_id.wrapping_add(1),
                ..old(self)@
            }),
    {
        let id = self.next_waiter_id;
        self.next_waiter_id = id.wrapping_add(1);
        LockFuture { id }
    }

    /// Performs one operation on the memory of the mutex, for the task of
    /// waiter `id` with the waker `waker`. Returns what it saw and the waker
    /// that it took.
    pub fn perform(&mut self, op: MutexOp, id: usize, waker: Option<&Waker>) -> (outcome: (
        MutexSeen,
        Option<Waker>,
    ))
        requires
            old(self).wf(),
            op is Enlist ==> waker is Some,
        ensures
            final(self).wf(),
            op.performed(
                id,
                match waker {
                    Some(waker) => Some(*waker),
                    None => None,
                },
                old(self)@.mem,
                outcome.0,
                outcome.1,
                final(self)@.mem,
            ),
            final(self)@ == old(self)@.with_mem(final(self)@.mem),
    {
        match op {
            MutexOp::CompareExchange => {
                let acquired = !self.state;
                self.state = true;
                (MutexSeen::Acquired(acquired), None)
            },
            MutexOp::Store => {
                self.state = false;
                (MutexSeen::Done, None)
            },
            MutexOp::Enlist => {
                self.waiters.enlist(id, waker.unwrap());
                (MutexSeen::Done, None)
            },
            MutexOp::Delist | MutexOp::Remove => {
                let _ = self.waiters.remove(id);
                (MutexSeen::Done, None)
            },
            MutexOp::Pop => {
                let taken = self.waiters.pop_front();
                (MutexSeen::Popped(taken.is_some()), taken)
            },
            MutexOp::Enter | MutexOp::Wake | MutexOp::Leave => (MutexSeen::Done, None),
        }
    }
}

/// The right to read and write the value of a mutex.
pub struct MutexGuard {
    _held: (),
}

impl MutexGuard {
    /// The value under the mutex.
    pub fn deref<'a, T>(&self, mutex: &'a Mutex<T>) -> (value: &'a T)
        ensures
            *value == mutex@.value,
    {
        &mutex.value
    }

    /// The value under the mutex, to be written.
    pub fn deref_mut<'a, T>(&mut self, mutex: &'a mut Mutex<T>) -> (value: &'a mut T)
        ensures
            *final(self) == *old(self),
            *value == old(mutex)@.value,
            old(mutex).wf() ==> final(mutex).wf(),
            final(mutex)@ == (MutexView { value: *final(value), ..old(mutex)@ }),
    {
        &mut mutex.value
    }

    /// How far the drop is from its end.
    spec fn distance(unlock: Unlock) -> nat {
        match unlock {
            Unlock::Enter => 6,
            Unlock::Store => 5,
            Unlock::Pop => 4,
            Unlock::Wake => 3,
            Unlock::Leave => 2,
            Unlock::Done => 1,
        }
    }

    /// Gives the mutex back. The first waiter is unlinked and is to wake.
    pub fn drop<T>(self, mutex: &mut Mutex<T>) -> (waker: Option<Waker>)
        requires
            old(mutex).wf(),
        ensures
            final(mutex).wf(),
            final(mutex)@ == old(mutex)@.with_mem(
                (MutexMem {
                    locked: false,
                    waiters: WaiterList::popped(old(mutex)@.mem.waiters),
                }),
            ),
            waker == WaiterList::first_waker(old(mutex)@.mem.waiters),
            !final(mutex)@.mem.locked,
            final(mutex)@.value == old(mutex)@.value,
            final(mutex)@.next_waiter_id == old(mutex)@.next_waiter_id,
            old(mutex)@.mem.waiters.len() == 0 ==> {
                &&& waker is None
                &&& final(mutex)@.mem.waiters == old(mutex)@.mem.waiters
            },
            old(mutex)@.mem.waiters.len() > 0 ==> {
                &&& waker == Some(old(mutex)@.mem.waiters[0].1)
                &&& final(mutex)@.mem.waiters == old(mutex)@.mem.waiters.subrange(
                    1,
                    old(mutex)@.mem.waiters.len() as int,
                )
            },
    {
        let ghost before = mutex@.mem;
        let mut waker: Option<Waker> = None;
        let mut unlock = Unlock::Enter;
        loop
            invariant
                before == old(mutex)@.mem,
                mutex.wf(),
                mutex@ == old(mutex)@.with_mem(mutex@.mem),
                match unlock {
                    Unlock::Enter | Unlock::Store => mutex@.mem == before && waker is None,
                    Unlock::Pop => {
                        &&& mutex@.mem == (MutexMem { locked: false, ..before })
                        &&& waker is None
                    },
                    Unlock::Wake | Unlock::Leave | Unlock::Done => {
                        &&& mutex@.mem == (MutexMem {
                            locked: false,
                            waiters: WaiterList::popped(before.waiters),
                        })
                        &&& waker == WaiterList::first_waker(before.waiters)
                    },
                },
            decreases Self::distance(unlock),
        {
            match unlock {
                Unlock::Done => {
                    return waker;
                },
                _ => {
                    let (seen, taken) = mutex.perform(unlock.op(), 0, None);
                    if taken.is_some() {
                        waker = taken;
                    }
                    unlock = unlock.next(seen);
                },
            }
        }
    }
}

/// A future that waits for a mutex.
pub struct LockFuture {
    id: usize,
}

impl LockFuture {
    /// The id of the future's waiter.
    pub closed spec fn id(self) -> usize {
        self.id
    }

    /// How far the poll is from its end when nobody interferes.
    spec fn distance(poll: LockPoll) -> nat {
        match poll {
            LockPoll::Try => 5,
            LockPoll::Enlist => 4,
            LockPoll::Retry => 3,
            LockPoll::Delist | LockPoll::Leave => 2,
            LockPoll::Ready | LockPoll::Pending => 1,
        }
    }

    /// Takes the mutex if it is unlocked. If it is locked, links the waiter of
    /// the task at the back of the list, or only renews the waker of a waiter
    /// that is linked.
    pub fn poll<T>(&mut self, mutex: &mut Mutex<T>, waker: &Waker) -> (poll: Poll<MutexGuard>)
        requires
            old(mutex).wf(),
        ensures
            final(mutex).wf(),
            *final(self) == *old(self),
            final(mutex)@ == old(mutex)@.with_mem(final(mutex)@.mem),
            final(mutex)@.mem.locked,
            poll is Ready <==> !old(mutex)@.mem.locked,
            poll is Ready ==> final(mutex)@.mem.waiters == old(mutex)@.mem.waiters,
            poll is Pending ==> {
                &&& WaiterList::linked(final(mutex)@.mem.waiters, old(self).id())
                &&& final(mutex)@.mem.waiters == WaiterList::enlisted(
                    old(mutex)@.mem.waiters,
                    old(self).id(),
                    WaiterList::waker_of(final(mutex)@.mem.waiters, old(self).id()),
                )
                &&& cloned(
                    *waker,
                    WaiterList::waker_of(final(mutex)@.mem.waiters, old(self).id()),
                )
            },
            final(mutex)@.value == old(mutex)@.value,
            final(mutex)@.next_waiter_id == old(mutex)@.next_waiter_id,
            // a waiter that is linked keeps its place
            poll is Pending ==> forall|i: int|
                0 <= i < old(mutex)@.mem.waiters.len() && (#[trigger] old(mutex)@.mem.waiters[i]).0
                    == old(self).id() ==> final(mutex)@.mem.waiters
                    == old(mutex)@.mem.waiters.update(
                    i,
                    (old(self).id(), final(mutex)@.mem.waiters[i].1),
                ) && cloned(*waker, final(mutex)@.mem.waiters[i].1),
            // another is linked at the back
            poll is Pending && (forall|i: int|
                0 <= i < old(mutex)@.mem.waiters.len() ==> (#[trigger] old(mutex)@.mem.waiters[i]).0
                    != old(self).id()) ==> {
                let at = old(mutex)@.mem.waiters.len() as int;
                &&& final(mutex)@.mem.waiters == old(mutex)@.mem.waiters.push(
                    (old(self).id(), final(mutex)@.mem.waiters[at].1),
                )
                &&& cloned(*waker, final(mutex)@.mem.waiters[at].1)
            },
    {
        let ghost before = mutex@.mem;
        let ghost id = self.id;
        proof {
            mutex.lemma_wf();
        }
        let mut poll = LockPoll::Try;
        loop
            invariant
                WaiterList::distinct(before.waiters),
                id == self.id,
                self.id == old(self).id,
                before == old(mutex)@.mem,
                mutex.wf(),
                mutex@ == old(mutex)@.with_mem(mutex@.mem),
                match poll {
                    LockPoll::Try => mutex@.mem == before,
                    LockPoll::Enlist => before.locked && mutex@.mem == before,
                    LockPoll::Retry | LockPoll::Leave | LockPoll::Pending => {
                        &&& before.locked
                        &&& mutex@.mem.locked
                        &&& WaiterList::linked(mutex@.mem.waiters, id)
                        &&& mutex@.mem.waiters == WaiterList::enlisted(
                            before.waiters,
                            id,
                            WaiterList::waker_of(mutex@.mem.waiters, id),
                        )
                        &&& cloned(*waker, WaiterList::waker_of(mutex@.mem.waiters, id))
                    },
                    LockPoll::Delist => false,
                    LockPoll::Ready => {
                        &&& !before.locked
                        &&& mutex@.mem == (MutexMem { locked: true, ..before })
                    },
                },
            decreases Self::distance(poll),
        {
            match poll {
                LockPoll::Ready => {
                    return Poll::Ready(MutexGuard { _held: () });
                },
                LockPoll::Pending => {
                    proof {
                        WaiterList::lemma_enlisted_at(
                            before.waiters,
                            id,
                            WaiterList::waker_of(mutex@.mem.waiters, id),
                        );
                    }
                    return Poll::Pending;
                },
                _ => {
                    let (seen, _) = mutex.perform(poll.op(), self.id, Some(waker));
                    poll = poll.next(seen);
                },
            }
        }
    }

    /// Drops the future: its waiter leaves the list.
    pub fn drop<T>(self, mutex: &mut Mutex<T>)
        requires
            old(mutex).wf(),
        ensures
            final(mutex).wf(),
            final(mutex)@ == old(mutex)@.with_mem(
                (MutexMem {
                    waiters: WaiterList::delisted(old(mutex)@.mem.waiters, self.id()),
                    ..old(mutex)@.mem
                }),
            ),
            final(mutex)@.mem.locked == old(mutex)@.mem.locked,
            final(mutex)@.value == old(mutex)@.value,
            final(mutex)@.next_waiter_id == old(mutex)@.next_waiter_id,
            forall|i: int|
                0 <= i < old(mutex)@.mem.waiters.len() && (#[trigger] old(mutex)@.mem.waiters[i]).0
                    == self.id() ==> final(mutex)@.mem.waiters == old(
                    mutex,
                )@.mem.waiters.remove(i),
            (forall|i: int|
                0 <= i < old(mutex)@.mem.waiters.len() ==> (#[trigger] old(mutex)@.mem.waiters[i]).0
                    != self.id()) ==> final(mutex)@.mem.waiters == old(mutex)@.mem.waiters,
    {
        proof {
            mutex.lemma_wf();
            WaiterList::lemma_delisted_at(mutex@.mem.waiters, self.id);
        }
        let _ = mutex.perform(MutexOp::Remove, self.id, None);
    }
}

} // verus!
