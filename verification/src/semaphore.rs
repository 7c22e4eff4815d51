//! A semaphore for tasks, made of a mutex and a condition variable.

use crate::condvar::{Condvar, CondvarPhase, CondvarView, CondvarWaitFuture};
use crate::mutex::{LockFuture, Mutex, MutexGuard, MutexView};
use crate::mutex_steps::MutexMem;
use crate::waiter::WaiterList;
use crate::waker::Poll;
use std::task::Waker;
use vstd::prelude::*;

verus! {

/// A semaphore: the number of free permits under a mutex, and a condition
/// variable for the tasks that find none.
///
/// A call that makes tasks ready to go on returns their wakers, in the order
/// in which to wake by them.
pub struct Semaphore {
    mutex: Mutex<usize>,
    cv: Condvar,
}

/// What a semaphore holds.
pub struct SemaphoreView {
    /// The mutex around the number of free permits.
    pub mutex: MutexView<usize>,
    /// The condition variable.
    pub cv: CondvarView,
}

impl View for Semaphore {
    type V = SemaphoreView;

    closed spec fn view(&self) -> SemaphoreView {
        SemaphoreView { mutex: self.mutex@, cv: self.cv@ }
    }
}

impl SemaphoreView {
    /// The number of free permits.
    pub open spec fn permits(self) -> usize {
        self.mutex.value
    }

    /// The semaphore as its mutex is taken by the future of waiter `id`, which
    /// goes away.
    pub open spec fn locked_by(self, id: usize) -> Self {
        SemaphoreView {
            mutex: self.mutex.with_mem(
                MutexMem {
                    locked: true,
                    waiters: WaiterList::delisted(self.mutex.mem.waiters, id),
                },
            ),
            ..self
        }
    }

    /// The semaphore as its mutex is taken again by the notified wait `wait`,
    /// which goes away.
    pub open spec fn locked_after(self, wait: CondvarWaitFuture) -> Self {
        SemaphoreView {
            mutex: MutexView {
                next_waiter_id: wait.ids_after(self.mutex),
                ..self.locked_by(wait.lock_id(self.mutex)).mutex
            },
            cv: self.cv.with_waiters(WaiterList::delisted(self.cv.waiters, wait.id())),
        }
    }

    /// The memory of the mutex once it is given back.
    pub open spec fn given_back(self) -> MutexMem {
        MutexMem { locked: false, waiters: WaiterList::popped(self.mutex.mem.waiters) }
    }

    /// A permit is taken and the mutex given back, which wakes its first
    /// waiter.
    pub open spec fn took_permit(self, wakers: Seq<Waker>, after: Self) -> bool {
        &&& self.permits() > 0
        &&& after == (SemaphoreView {
            mutex: MutexView {
                mem: self.given_back(),
                value: (self.permits() - 1) as usize,
                ..self.mutex
            },
            ..self
        })
        &&& wakers == Self::woken(WaiterList::first_waker(self.mutex.mem.waiters))
    }

    /// There is no permit: a wait is linked with a clone of `waker` and the
    /// mutex given back, which wakes its first waiter.
    pub open spec fn began_wait(
        self,
        wait: CondvarWaitFuture,
        waker: Waker,
        wakers: Seq<Waker>,
        after: Self,
    ) -> bool {
        &&& self.permits() == 0
        &&& wait.phase() is Parked
        &&& wait.id() == self.cv.next_waiter_id
        &&& WaiterList::linked(after.cv.waiters, wait.id())
        &&& cloned(waker, WaiterList::waker_of(after.cv.waiters, wait.id()))
        &&& after == (SemaphoreView {
            mutex: self.mutex.with_mem(self.given_back()),
            cv: CondvarView {
                waiters: WaiterList::enlisted(
                    self.cv.waiters,
                    wait.id(),
                    WaiterList::waker_of(after.cv.waiters, wait.id()),
                ),
                next_waiter_id: self.cv.next_waiter_id.wrapping_add(1),
            },
        })
        &&& wakers == Self::woken(WaiterList::first_waker(self.mutex.mem.waiters))
    }

    /// The future of waiter `id` is linked for the mutex with a clone of
    /// `waker`.
    pub open spec fn began_lock(self, id: usize, waker: Waker, after: Self) -> bool {
        &&& WaiterList::linked(after.mutex.mem.waiters, id)
        &&& cloned(waker, WaiterList::waker_of(after.mutex.mem.waiters, id))
        &&& after.cv == self.cv
        &&& after.mutex.value == self.mutex.value
        &&& after.mutex.mem == (MutexMem {
            locked: true,
            waiters: WaiterList::enlisted(
                self.mutex.mem.waiters,
                id,
                WaiterList::waker_of(after.mutex.mem.waiters, id),
            ),
        })
    }

    /// A permit is given back under the mutex: the wait that has waited
    /// longest is woken, and then the first waiter for the mutex.
    pub open spec fn returned_permit(self, wakers: Seq<Waker>, after: Self) -> bool {
        &&& after == (SemaphoreView {
            mutex: MutexView {
                mem: self.given_back(),
                value: (self.permits() + 1) as usize,
                ..self.mutex
            },
            cv: self.cv.with_waiters(WaiterList::popped(self.cv.waiters)),
        })
        &&& wakers == Self::woken(WaiterList::first_waker(self.cv.waiters)) + Self::woken(
            WaiterList::first_waker(self.mutex.mem.waiters),
        )
    }

    /// The wakers to wake by, of one that may be missing.
    pub open spec fn woken(waker: Option<Waker>) -> Seq<Waker> {
        match waker {
            Some(waker) => seq![waker],
            None => Seq::empty(),
        }
    }

    /// To take the mutex locks it, and takes the waiter out of its list. Nothing
    /// else changes: neither the permits nor the waits.
    pub proof fn law_locked_by(self, id: usize)
        requires
            forall|i: int, j: int|
                0 <= i < j < self.mutex.mem.waiters.len() ==> (
                #[trigger] self.mutex.mem.waiters[i]).0 != (#[trigger] self.mutex.mem.waiters[j]).0,
        ensures
            self.locked_by(id).mutex.mem.locked,
            self.locked_by(id).mutex.value == self.mutex.value,
            self.locked_by(id).mutex.next_waiter_id == self.mutex.next_waiter_id,
            self.locked_by(id).cv == self.cv,
            forall|i: int|
                0 <= i < self.mutex.mem.waiters.len() && (#[trigger] self.mutex.mem.waiters[i]).0
                    == id ==> self.locked_by(id).mutex.mem.waiters == self.mutex.mem.waiters.remove(
                    i,
                ),
            (forall|i: int|
                0 <= i < self.mutex.mem.waiters.len() ==> (#[trigger] self.mutex.mem.waiters[i]).0
                    != id) ==> self.locked_by(id).mutex.mem.waiters == self.mutex.mem.waiters,
    {
        WaiterList::lemma_delisted_at(self.mutex.mem.waiters, id);
    }

    /// To take the mutex again after a notified wait locks it and leaves the
    /// permits. The wait is in no list any more, and all others are where they
    /// were.
    pub proof fn law_locked_after(self, wait: CondvarWaitFuture)
        requires
            forall|i: int, j: int|
                0 <= i < j < self.mutex.mem.waiters.len() ==> (
                #[trigger] self.mutex.mem.waiters[i]).0 != (#[trigger] self.mutex.mem.waiters[j]).0,
            forall|i: int|
                0 <= i < self.cv.waiters.len() ==> (#[trigger] self.cv.waiters[i]).0 != wait.id(),
        ensures
            self.locked_after(wait).mutex.mem.locked,
            self.locked_after(wait).mutex.value == self.mutex.value,
            self.locked_after(wait).cv == self.cv,
            wait.phase() matches CondvarPhase::Acquiring(lock) ==> {
                &&& self.locked_after(wait).mutex.next_waiter_id == self.mutex.next_waiter_id
                &&& forall|i: int|
                    0 <= i < self.mutex.mem.waiters.len() && (
                    #[trigger] self.mutex.mem.waiters[i]).0 == lock.id() ==> self.locked_after(
                        wait,
                    ).mutex.mem.waiters == self.mutex.mem.waiters.remove(i)
                &&& (forall|i: int|
                    0 <= i < self.mutex.mem.waiters.len() ==> (
                    #[trigger] self.mutex.mem.waiters[i]).0 != lock.id()) ==> self.locked_after(
                    wait,
                ).mutex.mem.waiters == self.mutex.mem.waiters
            },
            wait.phase() is Parked ==> {
                &&& self.locked_after(wait).mutex.next_waiter_id
                    == self.mutex.next_waiter_id.wrapping_add(1)
                &&& (forall|i: int|
                    0 <= i < self.mutex.mem.waiters.len() ==> (
                    #[trigger] self.mutex.mem.waiters[i]).0 != self.mutex.next_waiter_id)
                    ==> self.locked_after(wait).mutex.mem.waiters == self.mutex.mem.waiters
            },
    {
        WaiterList::lemma_delisted_at(self.mutex.mem.waiters, wait.lock_id(self.mutex));
    }

    /// Whoever gives the mutex back unlocks it, whatever the number of permits,
    /// and wakes the first of those who wait for it.
    pub proof fn law_given_back(self)
        ensures
            !self.given_back().locked,
            self.mutex.mem.waiters.len() == 0 ==> self.given_back().waiters.len() == 0,
            self.mutex.mem.waiters.len() > 0 ==> self.given_back().waiters
                == self.mutex.mem.waiters.subrange(1, self.mutex.mem.waiters.len() as int),
    {
    }

    /// An acquisition that takes a permit takes one, gives the mutex back and
    /// wakes the first of those who wait for it, and touches no wait.
    pub proof fn law_took_permit(self, wakers: Seq<Waker>, after: Self)
        requires
            self.took_permit(wakers, after),
        ensures
            !after.mutex.mem.locked,
            after.mutex.value + 1 == self.mutex.value,
            after.mutex.next_waiter_id == self.mutex.next_waiter_id,
            after.cv == self.cv,
            self.mutex.mem.waiters.len() == 0 ==> wakers.len() == 0
                && after.mutex.mem.waiters.len() == 0,
            self.mutex.mem.waiters.len() > 0 ==> wakers == seq![self.mutex.mem.waiters[0].1]
                && after.mutex.mem.waiters == self.mutex.mem.waiters.subrange(
                1,
                self.mutex.mem.waiters.len() as int,
            ),
    {
    }

    /// An acquisition begins to wait only if there is no permit. It gives the
    /// mutex back, wakes the first of those who wait for it, and stands in the
    /// list of waits behind all others, which it does not touch.
    pub proof fn law_began_wait(
        self,
        wait: CondvarWaitFuture,
        waker: Waker,
        wakers: Seq<Waker>,
        after: Self,
    )
        requires
            self.began_wait(wait, waker, wakers, after),
            forall|i: int|
                0 <= i < self.cv.waiters.len() ==> (#[trigger] self.cv.waiters[i]).0
                    != self.cv.next_waiter_id,
        ensures
            !after.mutex.mem.locked,
            self.mutex.value == 0,
            after.mutex.value == 0,
            after.mutex.next_waiter_id == self.mutex.next_waiter_id,
            self.mutex.mem.waiters.len() == 0 ==> wakers.len() == 0
                && after.mutex.mem.waiters.len() == 0,
            self.mutex.mem.waiters.len() > 0 ==> wakers == seq![self.mutex.mem.waiters[0].1]
                && after.mutex.mem.waiters == self.mutex.mem.waiters.subrange(
                1,
                self.mutex.mem.waiters.len() as int,
            ),
            wait.phase() is Parked,
            wait.id() == self.cv.next_waiter_id,
            after.cv.next_waiter_id == self.cv.next_waiter_id.wrapping_add(1),
            after.cv.waiters == self.cv.waiters.push(
                (wait.id(), after.cv.waiters[self.cv.waiters.len() as int].1),
            ),
            cloned(waker, after.cv.waiters[self.cv.waiters.len() as int].1),
    {
        let at = self.cv.waiters.len() as int;
        let p = WaiterList::position(after.cv.waiters, wait.id());
        assert(after.cv.waiters[p].0 == wait.id());
        assert(p == at);
    }

    /// A future that finds the mutex locked leaves it locked, and leaves the
    /// permits and the waits. It stands in the list of the mutex with its new
    /// waker, and touches nobody else there.
    pub proof fn law_began_lock(self, id: usize, waker: Waker, after: Self)
        requires
            self.began_lock(id, waker, after),
            forall|i: int, j: int|
                0 <= i < j < self.mutex.mem.waiters.len() ==> (
                #[trigger] self.mutex.mem.waiters[i]).0 != (#[trigger] self.mutex.mem.waiters[j]).0,
        ensures
            after.mutex.mem.locked,
            after.mutex.value == self.mutex.value,
            after.cv == self.cv,
            forall|i: int|
                0 <= i < self.mutex.mem.waiters.len() && (#[trigger] self.mutex.mem.waiters[i]).0
                    == id ==> after.mutex.mem.waiters == self.mutex.mem.waiters.update(
                    i,
                    (id, after.mutex.mem.waiters[i].1),
                ) && cloned(waker, after.mutex.mem.waiters[i].1),
            (forall|i: int|
                0 <= i < self.mutex.mem.waiters.len() ==> (#[trigger] self.mutex.mem.waiters[i]).0
                    != id) ==> {
                let at = self.mutex.mem.waiters.len() as int;
                &&& after.mutex.mem.waiters == self.mutex.mem.waiters.push(
                    (id, after.mutex.mem.waiters[at].1),
                )
                &&& cloned(waker, after.mutex.mem.waiters[at].1)
            },
    {
        WaiterList::lemma_enlisted_at(
            self.mutex.mem.waiters,
            id,
            WaiterList::waker_of(after.mutex.mem.waiters, id),
        );
    }

    /// A release counts one permit more and gives the mutex back, whatever the
    /// number of permits. It wakes the wait that has waited longest, if there
    /// is one, and then the first of those who wait for the mutex, and takes
    /// just these out of the lists.
    pub proof fn law_returned_permit(self, wakers: Seq<Waker>, after: Self)
        requires
            self.returned_permit(wakers, after),
            self.mutex.value < usize::MAX,
        ensures
            !after.mutex.mem.locked,
            after.mutex.value == self.mutex.value + 1,
            after.mutex.next_waiter_id == self.mutex.next_waiter_id,
            after.cv.next_waiter_id == self.cv.next_waiter_id,
            self.cv.waiters.len() == 0 ==> after.cv.waiters.len() == 0,
            self.cv.waiters.len() > 0 ==> after.cv.waiters == self.cv.waiters.subrange(
                1,
                self.cv.waiters.len() as int,
            ),
            self.mutex.mem.waiters.len() == 0 ==> after.mutex.mem.waiters.len() == 0,
            self.mutex.mem.waiters.len() > 0 ==> after.mutex.mem.waiters
                == self.mutex.mem.waiters.subrange(1, self.mutex.mem.waiters.len() as int),
            self.cv.waiters.len() == 0 && self.mutex.mem.waiters.len() == 0 ==> wakers.len() == 0,
            self.cv.waiters.len() > 0 && self.mutex.mem.waiters.len() == 0 ==> wakers
                == seq![self.cv.waiters[0].1],
            self.cv.waiters.len() == 0 && self.mutex.mem.waiters.len() > 0 ==> wakers
                == seq![self.mutex.mem.waiters[0].1],
            self.cv.waiters.len() > 0 && self.mutex.mem.waiters.len() > 0 ==> wakers
                == seq![self.cv.waiters[0].1, self.mutex.mem.waiters[0].1],
    {
    }
}

/// Takes a permit, if there is one. Says whether it did.
pub fn take_permit(permits: &mut usize) -> (taken: bool)
    ensures
        taken <==> *old(permits) > 0,
        *final(permits) == (if taken {
            *old(permits) - 1
        } else {
            *old(permits) as int
        }),
{
    if *permits == 0 {
        false
    } else {
        *permits -= 1;
        true
    }
}

/// Gives a permit back.
pub fn put_permit(permits: &mut usize)
    requires
        *old(permits) < usize::MAX,
    ensures
        *final(permits) == *old(permits) + 1,
{
    *permits += 1;
}

/// Adds a waker that may be missing.
fn push_waker(wakers: &mut Vec<Waker>, waker: Option<Waker>)
    ensures
        final(wakers)@ == old(wakers)@ + SemaphoreView::woken(waker),
{
    if let Some(waker) = waker {
        wakers.push(waker);
    }
    assert(wakers@ =~= old(wakers)@ + SemaphoreView::woken(waker));
}

impl Semaphore {
    /// The lists of waiters are in order.
    pub closed spec fn wf(self) -> bool {
        self.mutex.wf() && self.cv.wf()
    }

    /// A semaphore with `permit_count` free permits.
    pub fn new(permit_count: usize) -> (semaphore: Self)
        ensures
            semaphore.wf(),
            semaphore@.permits() == permit_count,
            !semaphore@.mutex.mem.locked,
            semaphore@.mutex.mem.waiters == Seq::<(usize, Waker)>::empty(),
            semaphore@.mutex.next_waiter_id == 0,
            semaphore@.cv.waiters == Seq::<(usize, Waker)>::empty(),
            semaphore@.cv.next_waiter_id == 0,
    {
        Semaphore { mutex: Mutex::new(permit_count), cv: Condvar::new() }
    }

    /// A future that takes a permit, and waits until there is one.
    pub fn acquire(&mut self) -> (future: AcquireFuture)
        requires
            old(self).wf(),
        ensures
            final(self).wf(),
            future.wf(),
            future.phase() matches AcquirePhase::Locking(lock) && lock.id() == old(
                self,
            )@.mutex.next_waiter_id,
            final(self)@.cv == old(self)@.cv,
            final(self)@.mutex == (MutexView {
                next_waiter_id: old(self)@.mutex.next_waiter_id.wrapping_add(1),
                ..old(self)@.mutex
            }),
    {
        AcquireFuture { phase: AcquirePhase::Locking(self.mutex.lock()) }
    }

    /// A future that gives a permit back.
    pub fn release(&mut self) -> (future: ReleaseFuture)
        requires
            old(self).wf(),
        ensures
            final(self).wf(),
            future.lock() matches Some(lock) && lock.id() == old(self)@.mutex.next_waiter_id,
            final(self)@.cv == old(self)@.cv,
            final(self)@.mutex == (MutexView {
                next_waiter_id: old(self)@.mutex.next_waiter_id.wrapping_add(1),
                ..old(self)@.mutex
            }),
    {
        ReleaseFuture { lock: Some(self.mutex.lock()) }
    }

    /// With the mutex taken: takes a permit, or begins to wait for one.
    fn proceed(&mut self, guard: MutexGuard, waker: &Waker) -> (outcome: (
        AcquirePhase,
        Vec<Waker>,
    ))
        requires
            old(self).wf(),
        ensures
            final(self).wf(),
            old(self)@.permits() > 0 ==> {
                &&& outcome.0 is Done
                &&& old(self)@.took_permit(outcome.1@, final(self)@)
            },
            old(self)@.permits() == 0 ==> {
                &&& outcome.0 matches AcquirePhase::Waiting(wait)
                &&& old(self)@.began_wait(wait, *waker, outcome.1@, final(self)@)
            },
    {
        let mut guard = guard;
        let mut wakers: Vec<Waker> = Vec::new();
        let taken = take_permit(guard.deref_mut(&mut self.mutex));
        if taken {
            let woken = guard.drop(&mut self.mutex);
            push_waker(&mut wakers, woken);
            assert(wakers@ =~= SemaphoreView::woken(woken));
            (AcquirePhase::Done, wakers)
        } else {
            let mut wait = self.cv.wait(guard);
            let (_, woken) = wait.poll(&mut self.cv, &mut self.mutex, waker);
            push_waker(&mut wakers, woken);
            assert(wakers@ =~= SemaphoreView::woken(woken));
            (AcquirePhase::Waiting(wait), wakers)
        }
    }
}

/// How far an acquisition has come.
pub enum AcquirePhase {
    /// It waits for the mutex.
    Locking(LockFuture),
    /// It waits for a permit.
    Waiting(CondvarWaitFuture),
    /// It has its permit.
    Done,
}

/// A future that takes a permit.
pub struct AcquireFuture {
    phase: AcquirePhase,
}

/// A future that gives a permit back.
pub struct ReleaseFuture {
    lock: Option<LockFuture>,
}

impl AcquireFuture {
    /// How far the acquisition has come.
    pub closed spec fn phase(self) -> AcquirePhase {
        self.phase
    }

    /// A wait inside the future has given the mutex back and is not over.
    pub open spec fn wf(self) -> bool {
        self.phase() matches AcquirePhase::Waiting(wait) ==> wait.phase() is Parked
            || wait.phase() is Acquiring
    }

    /// Polls an acquisition that is not over. Returns the answer, and the
    /// wakers to wake by.
    ///
    /// Once the mutex is taken, the poll takes a permit if there is one. If
    /// there is none, it gives the mutex back and waits.
    pub fn poll(&mut self, semaphore: &mut Semaphore, waker: &Waker) -> (outcome: (
        Poll<()>,
        Vec<Waker>,
    ))
        requires
            old(self).wf(),
            !(old(self).phase() is Done),
            old(semaphore).wf(),
        ensures
            final(self).wf(),
            final(semaphore).wf(),
            outcome.0 is Ready <==> final(self).phase() is Done,
            outcome.0 is Ready ==> final(semaphore)@.permits() == old(semaphore)@.permits() - 1,
            outcome.0 is Pending ==> final(semaphore)@.permits() == old(semaphore)@.permits(),
            match old(self).phase() {
                AcquirePhase::Locking(lock) => if old(semaphore)@.mutex.mem.locked {
                    &&& final(self).phase() == old(self).phase()
                    &&& old(semaphore)@.began_lock(lock.id(), *waker, final(semaphore)@)
                    &&& final(semaphore)@.mutex.next_waiter_id == old(
                        semaphore,
                    )@.mutex.next_waiter_id
                    &&& outcome.1@.len() == 0
                } else if old(semaphore)@.permits() > 0 {
                    &&& outcome.0 is Ready
                    &&& old(semaphore)@.locked_by(lock.id()).took_permit(
                        outcome.1@,
                        final(semaphore)@,
                    )
                } else {
                    &&& final(self).phase() matches AcquirePhase::Waiting(wait)
                    &&& old(semaphore)@.locked_by(lock.id()).began_wait(
                        wait,
                        *waker,
                        outcome.1@,
                        final(semaphore)@,
                    )
                },
                AcquirePhase::Waiting(wait) => if !wait.notified(old(semaphore)@.cv) {
                    &&& final(self).phase() matches AcquirePhase::Waiting(after)
                    &&& after.phase() is Parked
                    &&& after.id() == wait.id()
                    &&& final(semaphore)@.mutex == old(semaphore)@.mutex
                    &&& WaiterList::linked(final(semaphore)@.cv.waiters, wait.id())
                    &&& final(semaphore)@.cv == old(semaphore)@.cv.with_waiters(
                        WaiterList::enlisted(
                            old(semaphore)@.cv.waiters,
                            wait.id(),
                            WaiterList::waker_of(final(semaphore)@.cv.waiters, wait.id()),
                        ),
                    )
                    &&& cloned(
                        *waker,
                        WaiterList::waker_of(final(semaphore)@.cv.waiters, wait.id()),
                    )
                    &&& outcome.1@.len() == 0
                } else if old(semaphore)@.mutex.mem.locked {
                    &&& final(self).phase() matches AcquirePhase::Waiting(after)
                    &&& after.phase() matches CondvarPhase::Acquiring(lock)
                    &&& after.id() == wait.id()
                    &&& lock.id() == wait.lock_id(old(semaphore)@.mutex)
                    &&& old(semaphore)@.began_lock(lock.id(), *waker, final(semaphore)@)
                    &&& final(semaphore)@.mutex.next_waiter_id == wait.ids_after(
                        old(semaphore)@.mutex,
                    )
                    &&& outcome.1@.len() == 0
                } else if old(semaphore)@.permits() > 0 {
                    &&& outcome.0 is Ready
                    &&& old(semaphore)@.locked_after(wait).took_permit(
                        outcome.1@,
                        final(semaphore)@,
                    )
                } else {
                    &&& final(self).phase() matches AcquirePhase::Waiting(after)
                    &&& old(semaphore)@.locked_after(wait).began_wait(
                        after,
                        *waker,
                        outcome.1@,
                        final(semaphore)@,
                    )
                },
                AcquirePhase::Done => true,
            },
            // a call that takes the mutex has given it back when it returns
            final(semaphore)@.mutex.mem.locked == old(semaphore)@.mutex.mem.locked,
            // a permit is taken if there is one and the wait, if any, is over
            outcome.0 is Ready <==> !old(semaphore)@.mutex.mem.locked && old(
                semaphore,
            )@.mutex.value > 0 && match old(self).phase() {
                AcquirePhase::Locking(_) => true,
                AcquirePhase::Waiting(wait) => wait.phase() is Acquiring || forall|i: int|
                    0 <= i < old(semaphore)@.cv.waiters.len() ==> (#[trigger] old(
                        semaphore,
                    )@.cv.waiters[i]).0 != wait.id(),
                AcquirePhase::Done => false,
            },
            final(semaphore)@.mutex.value == (if outcome.0 is Ready {
                old(semaphore)@.mutex.value - 1
            } else {
                old(semaphore)@.mutex.value as int
            }),
            // who is not linked among the waits goes without touching them
            outcome.0 is Ready && (old(self).phase() matches AcquirePhase::Waiting(wait) ==> forall|
                i: int,
            |
                0 <= i < old(semaphore)@.cv.waiters.len() ==> (#[trigger] old(
                    semaphore,
                )@.cv.waiters[i]).0 != wait.id()) ==> final(semaphore)@.cv == old(semaphore)@.cv,
            // it wakes at most the one who has waited longest for the mutex
            old(semaphore)@.mutex.mem.waiters.len() == 0 || old(semaphore)@.mutex.mem.locked
                ==> outcome.1@.len() == 0,
            !old(semaphore)@.mutex.mem.locked && old(semaphore)@.mutex.mem.waiters.len() > 0 && (
            old(self).phase() matches AcquirePhase::Locking(lock) && lock.id() != old(
                semaphore,
            )@.mutex.mem.waiters[0].0) ==> outcome.1@ == seq![
                old(semaphore)@.mutex.mem.waiters[0].1,
            ],
    {
        proof {
            semaphore.mutex.lemma_wf();
            semaphore.cv.lemma_wf();
            if let AcquirePhase::Locking(lock) = &self.phase {
                WaiterList::lemma_delisted_at(semaphore@.mutex.mem.waiters, lock.id());
            }
            if let AcquirePhase::Waiting(wait) = &self.phase {
                WaiterList::lemma_delisted_at(
                    semaphore@.mutex.mem.waiters,
                    wait.lock_id(semaphore@.mutex),
                );
            }
        }
        let mut phase = AcquirePhase::Done;
        std::mem::swap(&mut phase, &mut self.phase);
        let guard: MutexGuard;
        match phase {
            AcquirePhase::Locking(mut lock) => match lock.poll(&mut semaphore.mutex, waker) {
                Poll::Ready(taken) => {
                    lock.drop(&mut semaphore.mutex);
                    guard = taken;
                },
                Poll::Pending => {
                    self.phase = AcquirePhase::Locking(lock);
                    return (Poll::Pending, Vec::new());
                },
            },
            AcquirePhase::Waiting(mut wait) => {
                let (poll, _) = wait.poll(&mut semaphore.cv, &mut semaphore.mutex, waker);
                match poll {
                    Poll::Ready(taken) => {
                        let _ = wait.drop(&mut semaphore.cv, &mut semaphore.mutex);
                        guard = taken;
                    },
                    Poll::Pending => {
                        self.phase = AcquirePhase::Waiting(wait);
                        return (Poll::Pending, Vec::new());
                    },
                }
            },
            AcquirePhase::Done => {
                return vstd::pervasive::unreached();
            },
        }
        let (phase, wakers) = semaphore.proceed(guard, waker);
        self.phase = phase;
        match self.phase {
            AcquirePhase::Done => (Poll::Ready(()), wakers),
            _ => (Poll::Pending, wakers),
        }
    }

    /// Drops the future: its waiters leave the lists.
    pub fn drop(self, semaphore: &mut Semaphore)
        requires
            self.wf(),
            old(semaphore).wf(),
        ensures
            final(semaphore).wf(),
            match self.phase() {
                AcquirePhase::Locking(lock) => {
                    &&& final(semaphore)@.cv == old(semaphore)@.cv
                    &&& final(semaphore)@.mutex == old(semaphore)@.mutex.with_mem(
                        (MutexMem {
                            waiters: WaiterList::delisted(
                                old(semaphore)@.mutex.mem.waiters,
                                lock.id(),
                            ),
                            ..old(semaphore)@.mutex.mem
                        }),
                    )
                },
                AcquirePhase::Waiting(wait) => {
                    &&& final(semaphore)@.cv == old(semaphore)@.cv.with_waiters(
                        WaiterList::delisted(old(semaphore)@.cv.waiters, wait.id()),
                    )
                    &&& final(semaphore)@.mutex == old(semaphore)@.mutex.with_mem(
                        (MutexMem {
                            waiters: match wait.phase() {
                                CondvarPhase::Acquiring(lock) => WaiterList::delisted(
                                    old(semaphore)@.mutex.mem.waiters,
                                    lock.id(),
                                ),
                                _ => old(semaphore)@.mutex.mem.waiters,
                            },
                            ..old(semaphore)@.mutex.mem
                        }),
                    )
                },
                AcquirePhase::Done => final(semaphore)@ == old(semaphore)@,
            },
            final(semaphore)@.mutex.mem.locked == old(semaphore)@.mutex.mem.locked,
            final(semaphore)@.mutex.value == old(semaphore)@.mutex.value,
            final(semaphore)@.mutex.next_waiter_id == old(semaphore)@.mutex.next_waiter_id,
            final(semaphore)@.cv.next_waiter_id == old(semaphore)@.cv.next_waiter_id,
            // the others wait on, each with its own waker
            self.phase() matches AcquirePhase::Waiting(wait) ==> forall|i: int|
                0 <= i < old(semaphore)@.cv.waiters.len() && (#[trigger] old(
                    semaphore,
                )@.cv.waiters[i]).0 == wait.id() ==> final(semaphore)@.cv.waiters == old(
                    semaphore,
                )@.cv.waiters.remove(i),
            self.phase() matches AcquirePhase::Locking(lock) ==> forall|i: int|
                0 <= i < old(semaphore)@.mutex.mem.waiters.len() && (#[trigger] old(
                    semaphore,
                )@.mutex.mem.waiters[i]).0 == lock.id() ==> final(semaphore)@.mutex.mem.waiters
                    == old(semaphore)@.mutex.mem.waiters.remove(i),
    {
        proof {
            semaphore.mutex.lemma_wf();
            semaphore.cv.lemma_wf();
            if let AcquirePhase::Locking(lock) = &self.phase {
                WaiterList::lemma_delisted_at(semaphore@.mutex.mem.waiters, lock.id());
            }
            if let AcquirePhase::Waiting(wait) = &self.phase {
                WaiterList::lemma_delisted_at(semaphore@.cv.waiters, wait.id());
            }
        }
        match self.phase {
            AcquirePhase::Locking(lock) => {
                lock.drop(&mut semaphore.mutex);
            },
            AcquirePhase::Waiting(wait) => {
                let _ = wait.drop(&mut semaphore.cv, &mut semaphore.mutex);
            },
            AcquirePhase::Done => {},
        }
    }
}

impl ReleaseFuture {
    /// The wait for the mutex, until it is over.
    pub closed spec fn lock(self) -> Option<LockFuture> {
        self.lock
    }

    /// Polls a release that is not over. Returns the answer, and the wakers to
    /// wake by. There is room to count one more permit.
    pub fn poll(&mut self, semaphore: &mut Semaphore, waker: &Waker) -> (outcome: (
        Poll<()>,
        Vec<Waker>,
    ))
        requires
            old(self).lock() is Some,
            old(semaphore).wf(),
            !old(semaphore)@.mutex.mem.locked ==> old(semaphore)@.permits() < usize::MAX,
        ensures
            final(semaphore).wf(),
            outcome.0 is Ready <==> !old(semaphore)@.mutex.mem.locked,
            outcome.0 is Ready ==> {
                &&& final(self).lock() is None
                &&& old(semaphore)@.locked_by(old(self).lock()->0.id()).returned_permit(
                    outcome.1@,
                    final(semaphore)@,
                )
            },
            outcome.0 is Pending ==> {
                &&& *final(self) == *old(self)
                &&& old(semaphore)@.began_lock(
                    old(self).lock()->0.id(),
                    *waker,
                    final(semaphore)@,
                )
                &&& final(semaphore)@.mutex.next_waiter_id == old(
                    semaphore,
                )@.mutex.next_waiter_id
                &&& outcome.1@.len() == 0
            },
            // a call that takes the mutex has given it back when it returns
            final(semaphore)@.mutex.mem.locked == old(semaphore)@.mutex.mem.locked,
            final(semaphore)@.mutex.value == (if outcome.0 is Ready {
                old(semaphore)@.mutex.value + 1
            } else {
                old(semaphore)@.mutex.value as int
            }),
            final(semaphore)@.cv.next_waiter_id == old(semaphore)@.cv.next_waiter_id,
            // the wait that has waited longest is notified, and no other
            outcome.0 is Ready && old(semaphore)@.cv.waiters.len() > 0 ==> {
                &&& outcome.1@.len() > 0
                &&& outcome.1@[0] == old(semaphore)@.cv.waiters[0].1
                &&& final(semaphore)@.cv.waiters == old(semaphore)@.cv.waiters.subrange(
                    1,
                    old(semaphore)@.cv.waiters.len() as int,
                )
            },
            outcome.0 is Pending || old(semaphore)@.cv.waiters.len() == 0
                ==> final(semaphore)@.cv.waiters == old(semaphore)@.cv.waiters,
            // then the one who has waited longest for the mutex, and no other
            outcome.0 is Ready && old(semaphore)@.mutex.mem.waiters.len() > 0 && old(
                self,
            ).lock()->0.id() != old(semaphore)@.mutex.mem.waiters[0].0 ==> outcome.1@.len() > 0
                && outcome.1@.last() == old(semaphore)@.mutex.mem.waiters[0].1,
            outcome.0 is Ready && old(semaphore)@.mutex.mem.waiters.len() == 0 ==> outcome.1@.len()
                <= old(semaphore)@.cv.waiters.len(),
            outcome.1@.len() <= 2,
    {
        proof {
            semaphore.mutex.lemma_wf();
            WaiterList::lemma_delisted_at(semaphore@.mutex.mem.waiters, self.lock->0.id());
        }
        let mut wakers: Vec<Waker> = Vec::new();
        let mut lock = self.lock.take().unwrap();
        match lock.poll(&mut semaphore.mutex, waker) {
            Poll::Ready(mut guard) => {
                lock.drop(&mut semaphore.mutex);
                put_permit(guard.deref_mut(&mut semaphore.mutex));
                let notified = semaphore.cv.notify_one();
                push_waker(&mut wakers, notified);
                let woken = guard.drop(&mut semaphore.mutex);
                push_waker(&mut wakers, woken);
                assert(wakers@ =~= SemaphoreView::woken(notified) + SemaphoreView::woken(woken));
                (Poll::Ready(()), wakers)
            },
            Poll::Pending => {
                self.lock = Some(lock);
                (Poll::Pending, wakers)
            },
        }
    }

    /// Drops the future: its waiter leaves the list of the mutex.
    pub fn drop(self, semaphore: &mut Semaphore)
        requires
            old(semaphore).wf(),
        ensures
            final(semaphore).wf(),
            final(semaphore)@.cv == old(semaphore)@.cv,
            self.lock() is None ==> final(semaphore)@.mutex == old(semaphore)@.mutex,
            self.lock() matches Some(lock) ==> final(semaphore)@.mutex == old(
                semaphore,
            )@.mutex.with_mem(
                (MutexMem {
                    waiters: WaiterList::delisted(old(semaphore)@.mutex.mem.waiters, lock.id()),
                    ..old(semaphore)@.mutex.mem
                }),
            ),
            final(semaphore)@.mutex.mem.locked == old(semaphore)@.mutex.mem.locked,
            final(semaphore)@.mutex.value == old(semaphore)@.mutex.value,
            self.lock() matches Some(lock) ==> forall|i: int|
                0 <= i < old(semaphore)@.mutex.mem.waiters.len() && (#[trigger] old(
                    semaphore,
                )@.mutex.mem.waiters[i]).0 == lock.id() ==> final(semaphore)@.mutex.mem.waiters
                    == old(semaphore)@.mutex.mem.waiters.remove(i),
    {
        proof {
            semaphore.mutex.lemma_wf();
            if let Some(lock) = &self.lock {
                WaiterList::lemma_delisted_at(semaphore@.mutex.mem.waiters, lock.id());
            }
        }
        if let Some(lock) = self.lock {
            lock.drop(&mut semaphore.mutex);
        }
    }
}

} // verus!
