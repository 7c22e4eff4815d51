//! A condition variable for tasks that share a mutex.

use crate::mutex::{LockFuture, Mutex, MutexGuard, MutexView};
use crate::mutex_steps::MutexMem;
use crate::waiter::WaiterList;
use crate::waker::Poll;
use std::task::Waker;
use vstd::prelude::*;

verus! {

/// A condition variable: the list of the tasks that wait for a notification.
///
/// A call that makes tasks ready to go on returns their wakers, in the order
/// in which to wake by them.
pub struct Condvar {
    waiters: WaiterList,
    next_waiter_id: usize,
}

/// What a condition variable holds.
pub struct CondvarView {
    /// The waiters, longest waiting first.
    pub waiters: Seq<(usize, Waker)>,
    /// The waiter id of the next future.
    pub next_waiter_id: usize,
}

impl View for Condvar {
    type V = CondvarView;

    closed spec fn view(&self) -> CondvarView {
        CondvarView { waiters: self.waiters@, next_waiter_id: self.next_waiter_id }
    }
}

impl CondvarView {
    /// The condition variable with other waiters.
    pub open spec fn with_waiters(self, waiters: Seq<(usize, Waker)>) -> Self {
        CondvarView { waiters, ..self }
    }

    /// Nothing but the waiters is another.
    pub proof fn law_with_waiters(self, waiters: Seq<(usize, Waker)>)
        ensures
            self.with_waiters(waiters).waiters == waiters,
            self.with_waiters(waiters).next_waiter_id == self.next_waiter_id,
    {
    }
}

impl Default for Condvar {
    fn default() -> (cv: Self)
        ensures
            cv.wf(),
            cv@.waiters == Seq::<(usize, Waker)>::empty(),
            cv@.next_waiter_id == 0,
    {
        Condvar::new()
    }
}

impl Condvar {
    /// The list of waiters is in order.
    pub closed spec fn wf(self) -> bool {
        self.waiters.wf()
    }

    /// No waiter of a well-formed condition variable is linked twice.
    pub proof fn lemma_wf(self)
        requires
            self.wf(),
        ensures
            WaiterList::distinct(self@.waiters),
            forall|i: int, j: int|
                0 <= i < j < self@.waiters.len() ==> (#[trigger] self@.waiters[i]).0 != (
                #[trigger] self@.waiters[j]).0,
    {
        self.waiters.lemma_wf();
    }

    /// A condition variable that nobody waits for.
    pub fn new() -> (cv: Self)
        ensures
            cv.wf(),
            cv@.waiters == Seq::<(usize, Waker)>::empty(),
            cv@.next_waiter_id == 0,
    {
        Condvar { waiters: WaiterList::new(), next_waiter_id: 0 }
    }

    /// Notifies the task that has waited longest: it is unlinked and is to
    /// wake.
    pub fn notify_one(&mut self) -> (waker: Option<Waker>)
        requires
            old(self).wf(),
        ensures
            final(self).wf(),
            final(self)@ == old(self)@.with_waiters(WaiterList::popped(old(self)@.waiters)),
            waker == WaiterList::first_waker(old(self)@.waiters),
            final(self)@.next_waiter_id == old(self)@.next_waiter_id,
            old(self)@.waiters.len() == 0 ==> {
                &&& waker is None
                &&& final(self)@.waiters == old(self)@.waiters
            },
            old(self)@.waiters.len() > 0 ==> {
                &&& waker == Some(old(self)@.waiters[0].1)
                &&& final(self)@.waiters == old(self)@.waiters.subrange(
                    1,
                    old(self)@.waiters.len() as int,
                )
            },
    {
        self.waiters.pop_front()
    }

    /// Notifies all tasks that wait: they are unlinked and are to wake, longest
    /// waiting first.
    pub fn notify_all(&mut self) -> (wakers: Vec<Waker>)
        requires
            old(self).wf(),
        ensures
            final(self).wf(),
            final(self)@ == old(self)@.with_waiters(Seq::<(usize, Waker)>::empty()),
            wakers@ == old(self)@.waiters.map_values(|waiter: (usize, Waker)| waiter.1),
            final(self)@.next_waiter_id == old(self)@.next_waiter_id,
            final(self)@.waiters.len() == 0,
            wakers@.len() == old(self)@.waiters.len(),
            forall|i: int|
                0 <= i < wakers@.len() ==> #[trigger] wakers@[i] == old(self)@.waiters[i].1,
    {
        self.waiters.drain()
    }

    /// A future that gives `guard` back, waits for a notification, and takes
    /// the mutex again. Nothing happens before its first poll. The counter of
    /// waiter ids wraps around, so an id comes again after `usize::MAX` others.
    /// A wait that is still linked then shares its place in the list with the
    /// new one.
    pub fn wait(&mut self, guard: MutexGuard) -> (future: CondvarWaitFuture)
        requires
            old(self).wf(),
        ensures
            final(self).wf(),
            future.phase() == CondvarPhase::Waiting(guard),
            future.id() == old(self)@.next_waiter_id,
            final(self)@ == (CondvarView {
                next_waiter_id: old(self)@.next_waiter_id.wrapping_add(1),
                ..old(self)@
            }),
    {
        let id = self.next_waiter_id;
        self.next_waiter_id = id.wrapping_add(1);
        CondvarWaitFuture { phase: CondvarPhase::Waiting(guard), id }
    }
}

/// How far a wait has come.
pub enum CondvarPhase {
    /// pre-first-poll, holding the guard
    Waiting(MutexGuard),
    /// registered with condvar, waiting for notify
    Parked,
    /// notified, re-acquiring the mutex
    Acquiring(LockFuture),
    /// The wait is over.
    Sentinel,
}

/// What a step of a wait saw.
#[derive(Clone, Copy, PartialEq, Eq, Debug)]
pub enum WaitSeen {
    /// Whether the waiter is still linked.
    Linked(bool),
    /// Whether the mutex was taken.
    Locked(bool),
    /// Nothing.
    Done,
}

/// The poll of a wait, step by step. The list of waiters is locked from
/// `Enlist` to `Leave`.
#[derive(Clone, Copy, PartialEq, Eq, Debug)]
pub enum WaitPoll {
    /// Lock the list of waiters and link the waiter.
    Enlist,
    /// Give the guard back.
    Release,
    /// Unlock the list of waiters.
    Leave,
    /// Lock the list of waiters, renew the waker of the waiter if it is linked,
    /// and unlock the list.
    Check,
    /// Poll the future that takes the mutex again; make one if there is none.
    Lock,
    /// The task waits for a notification.
    Parked,
    /// The task waits for the mutex.
    Acquiring,
    /// The mutex is taken again.
    Ready,
}

impl WaitPoll {
    /// The program has an answer.
    pub open spec fn finished(self) -> bool {
        self is Parked || self is Acquiring || self is Ready
    }

    /// The step can see `seen`.
    pub open spec fn answers(self, seen: WaitSeen) -> bool {
        match self {
            WaitPoll::Check => seen is Linked,
            WaitPoll::Lock => seen is Locked,
            _ => seen is Done,
        }
    }

    /// The state of the program after its step saw `seen`.
    pub open spec fn after(self, seen: WaitSeen) -> Self {
        match (self, seen) {
            (WaitPoll::Enlist, _) => WaitPoll::Release,
            (WaitPoll::Release, _) => WaitPoll::Leave,
            (WaitPoll::Leave, _) => WaitPoll::Parked,
            (WaitPoll::Check, WaitSeen::Linked(linked)) => if linked {
                WaitPoll::Parked
            } else {
                WaitPoll::Lock
            },
            (WaitPoll::Lock, WaitSeen::Locked(locked)) => if locked {
                WaitPoll::Ready
            } else {
                WaitPoll::Acquiring
            },
            _ => self,
        }
    }

    /// Goes on after the step saw `seen`.
    pub fn next(self, seen: WaitSeen) -> (state: Self)
        requires
            !self.finished(),
            self.answers(seen),
        ensures
            state == self.after(seen),
    {
        match (self, seen) {
            (WaitPoll::Enlist, _) => WaitPoll::Release,
            (WaitPoll::Release, _) => WaitPoll::Leave,
            (WaitPoll::Leave, _) => WaitPoll::Parked,
            (WaitPoll::Check, WaitSeen::Linked(linked)) => if linked {
                // we have a waker, which was just updated
                WaitPoll::Parked
            } else {
                // we were notified and waker was taken
                WaitPoll::Lock
            },
            (WaitPoll::Lock, WaitSeen::Locked(locked)) => if locked {
                WaitPoll::Ready
            } else {
                WaitPoll::Acquiring
            },
            _ => self,
        }
    }

    /// The first poll links the waiter, then gives the guard back, and then
    /// waits. A later one waits on as long as the waiter is linked, and else
    /// goes for the mutex and answers whether it has it.
    pub proof fn law_links_before_it_gives_back()
        ensures
            WaitPoll::Enlist.after(WaitSeen::Done) is Release,
            WaitPoll::Release.after(WaitSeen::Done) is Leave,
            WaitPoll::Leave.after(WaitSeen::Done) is Parked,
            WaitPoll::Check.after(WaitSeen::Linked(true)) is Parked,
            WaitPoll::Check.after(WaitSeen::Linked(false)) is Lock,
            WaitPoll::Lock.after(WaitSeen::Locked(true)) is Ready,
            WaitPoll::Lock.after(WaitSeen::Locked(false)) is Acquiring,
    {
    }
}

/// A future that waits for a notification and then for the mutex.
pub struct CondvarWaitFuture {
    phase: CondvarPhase,
    id: usize,
}

impl CondvarWaitFuture {
    /// How far the wait has come.
    pub closed spec fn phase(self) -> CondvarPhase {
        self.phase
    }

    /// The id of the future's waiter.
    pub closed spec fn id(self) -> usize {
        self.id
    }

    /// The wait has been notified: its waiter was linked and is no longer.
    pub open spec fn notified(self, cv: CondvarView) -> bool {
        match self.phase() {
            CondvarPhase::Parked => !WaiterList::linked(cv.waiters, self.id()),
            CondvarPhase::Acquiring(_) => true,
            _ => false,
        }
    }

    /// The id of the waiter for the mutex, in a poll of a notified wait.
    pub open spec fn lock_id<T>(self, mutex: MutexView<T>) -> usize {
        match self.phase() {
            CondvarPhase::Acquiring(future) => future.id(),
            _ => mutex.next_waiter_id,
        }
    }

    /// A wait goes for the mutex with the waiter id that it began with, and
    /// begins with the next one that the mutex gives out.
    pub proof fn law_goes_on_with_its_own_waiter<T>(self, mutex: MutexView<T>)
        ensures
            self.phase() matches CondvarPhase::Acquiring(future) ==> self.lock_id(mutex)
                == future.id() && self.ids_after(mutex) == mutex.next_waiter_id,
            !(self.phase() is Acquiring) ==> self.lock_id(mutex) == mutex.next_waiter_id
                && self.ids_after(mutex) == mutex.next_waiter_id.wrapping_add(1),
    {
    }

    /// A wait is notified once its waiter has left the list, and not before.
    pub proof fn law_notified_once_unlinked(self, cv: CondvarView)
        ensures
            self.phase() is Parked ==> (self.notified(cv) <==> forall|i: int|
                0 <= i < cv.waiters.len() ==> (#[trigger] cv.waiters[i]).0 != self.id()),
            self.phase() is Acquiring ==> self.notified(cv),
            self.phase() is Waiting || self.phase() is Sentinel ==> !self.notified(cv),
    {
    }

    /// The waiter id counter of the mutex after a poll of a notified wait.
    pub open spec fn ids_after<T>(self, mutex: MutexView<T>) -> usize {
        match self.phase() {
            CondvarPhase::Acquiring(_) => mutex.next_waiter_id,
            _ => mutex.next_waiter_id.wrapping_add(1),
        }
    }

    /// Polls a wait that is not over. Returns the answer, and the waker of the
    /// first waiter for the mutex if the poll gave the mutex back.
    ///
    /// The first poll links the waiter and then gives the mutex back. A poll
    /// before the notification only renews the waker. A poll after it goes for
    /// the mutex.
    pub fn poll<T>(&mut self, cv: &mut Condvar, mutex: &mut Mutex<T>, waker: &Waker) -> (outcome: (
        Poll<MutexGuard>,
        Option<Waker>,
    ))
        requires
            old(cv).wf(),
            old(mutex).wf(),
            !(old(self).phase() is Sentinel),
        ensures
            final(cv).wf(),
            final(mutex).wf(),
            final(self).id() == old(self).id(),
            final(mutex)@.value == old(mutex)@.value,
            // the first poll
            old(self).phase() is Waiting ==> {
                &&& outcome.0 is Pending
                &&& final(self).phase() is Parked
                &&& final(mutex)@ == old(mutex)@.with_mem(
                    (MutexMem {
                        locked: false,
                        waiters: WaiterList::popped(old(mutex)@.mem.waiters),
                    }),
                )
                &&& outcome.1 == WaiterList::first_waker(old(mutex)@.mem.waiters)
            },
            !(old(self).phase() is Waiting) ==> outcome.1 is None,
            // a poll before the notification
            old(self).phase() is Parked && !old(self).notified(old(cv)@) ==> {
                &&& outcome.0 is Pending
                &&& final(self).phase() is Parked
                &&& final(mutex)@ == old(mutex)@
            },
            !old(self).notified(old(cv)@) ==> {
                &&& WaiterList::linked(final(cv)@.waiters, old(self).id())
                &&& final(cv)@ == old(cv)@.with_waiters(
                    WaiterList::enlisted(
                        old(cv)@.waiters,
                        old(self).id(),
                        WaiterList::waker_of(final(cv)@.waiters, old(self).id()),
                    ),
                )
                &&& cloned(*waker, WaiterList::waker_of(final(cv)@.waiters, old(self).id()))
            },
            // a poll after the notification
            old(self).notified(old(cv)@) ==> {
                &&& final(cv)@ == old(cv)@
                &&& final(mutex)@.mem.locked
                &&& final(mutex)@.next_waiter_id == old(self).ids_after(old(mutex)@)
                &&& outcome.0 is Ready <==> !old(mutex)@.mem.locked
            },
            old(self).notified(old(cv)@) && outcome.0 is Ready ==> {
                &&& final(self).phase() is Sentinel
                &&& final(mutex)@.mem.waiters == WaiterList::delisted(
                    old(mutex)@.mem.waiters,
                    old(self).lock_id(old(mutex)@),
                )
            },
            old(self).notified(old(cv)@) && outcome.0 is Pending ==> {
                &&& final(self).phase() matches CondvarPhase::Acquiring(future)
                &&& future.id() == old(self).lock_id(old(mutex)@)
                &&& WaiterList::linked(final(mutex)@.mem.waiters, future.id())
                &&& final(mutex)@.mem.waiters == WaiterList::enlisted(
                    old(mutex)@.mem.waiters,
                    future.id(),
                    WaiterList::waker_of(final(mutex)@.mem.waiters, future.id()),
                )
                &&& cloned(*waker, WaiterList::waker_of(final(mutex)@.mem.waiters, future.id()))
            },
            final(cv)@.next_waiter_id == old(cv)@.next_waiter_id,
            // the mutex is given back at the first poll, and only then
            old(self).phase() is Waiting ==> {
                &&& !final(mutex)@.mem.locked
                &&& final(mutex)@.next_waiter_id == old(mutex)@.next_waiter_id
                &&& old(mutex)@.mem.waiters.len() == 0 ==> outcome.1 is None
                    && final(mutex)@.mem.waiters == old(mutex)@.mem.waiters
                &&& old(mutex)@.mem.waiters.len() > 0 ==> outcome.1 == Some(
                    old(mutex)@.mem.waiters[0].1,
                ) && final(mutex)@.mem.waiters == old(mutex)@.mem.waiters.subrange(
                    1,
                    old(mutex)@.mem.waiters.len() as int,
                )
            },
            // it is taken again once the waiter is no longer linked and the
            // mutex is free, and only then
            outcome.0 is Ready <==> !old(mutex)@.mem.locked && match old(self).phase() {
                CondvarPhase::Parked => forall|i: int|
                    0 <= i < old(cv)@.waiters.len() ==> (#[trigger] old(cv)@.waiters[i]).0 != old(
                        self,
                    ).id(),
                CondvarPhase::Acquiring(_) => true,
                _ => false,
            },
            outcome.0 is Ready ==> final(mutex)@.mem.locked,
            !(old(self).phase() is Waiting) && outcome.0 is Pending ==> final(mutex)@.mem.locked
                == old(mutex)@.mem.locked,
            // until then the waiter is linked with the new waker, at its place
            // if it has one and else at the back, and nobody else is touched
            !(old(self).phase() is Acquiring) ==> forall|i: int|
                0 <= i < old(cv)@.waiters.len() && (#[trigger] old(cv)@.waiters[i]).0 == old(
                    self,
                ).id() ==> final(cv)@.waiters == old(cv)@.waiters.update(
                    i,
                    (old(self).id(), final(cv)@.waiters[i].1),
                ) && cloned(*waker, final(cv)@.waiters[i].1),
            old(self).phase() is Waiting && (forall|i: int|
                0 <= i < old(cv)@.waiters.len() ==> (#[trigger] old(cv)@.waiters[i]).0 != old(
                    self,
                ).id()) ==> {
                let at = old(cv)@.waiters.len() as int;
                &&& final(cv)@.waiters == old(cv)@.waiters.push(
                    (old(self).id(), final(cv)@.waiters[at].1),
                )
                &&& cloned(*waker, final(cv)@.waiters[at].1)
            },
            old(self).phase() is Acquiring || (old(self).phase() is Parked && (forall|i: int|
                0 <= i < old(cv)@.waiters.len() ==> (#[trigger] old(cv)@.waiters[i]).0 != old(
                    self,
                ).id())) ==> final(cv)@.waiters == old(cv)@.waiters,
            // who gets the mutex leaves its list, and touches nobody else there
            outcome.0 is Ready ==> match old(self).phase() {
                CondvarPhase::Acquiring(begun) => {
                    &&& forall|i: int|
                        0 <= i < old(mutex)@.mem.waiters.len() && (#[trigger] old(
                            mutex,
                        )@.mem.waiters[i]).0 == begun.id() ==> final(mutex)@.mem.waiters == old(
                            mutex,
                        )@.mem.waiters.remove(i)
                    &&& (forall|i: int|
                        0 <= i < old(mutex)@.mem.waiters.len() ==> (#[trigger] old(
                            mutex,
                        )@.mem.waiters[i]).0 != begun.id()) ==> final(mutex)@.mem.waiters == old(
                        mutex,
                    )@.mem.waiters
                },
                _ => (forall|i: int|
                    0 <= i < old(mutex)@.mem.waiters.len() ==> (#[trigger] old(
                        mutex,
                    )@.mem.waiters[i]).0 != old(mutex)@.next_waiter_id)
                    ==> final(mutex)@.mem.waiters == old(mutex)@.mem.waiters,
            },
            // the wait for the mutex is begun once
            match old(self).phase() {
                CondvarPhase::Acquiring(begun) => {
                    &&& final(mutex)@.next_waiter_id == old(mutex)@.next_waiter_id
                    &&& outcome.0 is Pending ==> (final(self).phase()
                        matches CondvarPhase::Acquiring(going_on) && going_on.id()
                        == begun.id())
                },
                CondvarPhase::Parked => (forall|i: int|
                    0 <= i < old(cv)@.waiters.len() ==> (#[trigger] old(cv)@.waiters[i]).0 != old(
                        self,
                    ).id()) ==> {
                    &&& final(mutex)@.next_waiter_id == old(mutex)@.next_waiter_id.wrapping_add(1)
                    &&& outcome.0 is Pending ==> (final(self).phase()
                        matches CondvarPhase::Acquiring(begun) && begun.id() == old(
                        mutex,
                    )@.next_waiter_id)
                },
                _ => true,
            },
    {
        let ghost start = *self;
        proof {
            cv.lemma_wf();
            mutex.lemma_wf();
        }
        let ghost queue = cv@;
        let ghost before = mutex@;
        let mut phase = CondvarPhase::Sentinel;
        std::mem::swap(&mut phase, &mut self.phase);
        let mut held: Option<MutexGuard> = None;
        let mut locking: Option<LockFuture> = None;
        let mut woken: Option<Waker> = None;
        let mut poll = match phase {
            CondvarPhase::Waiting(guard) => {
                held = Some(guard);
                WaitPoll::Enlist
            },
            CondvarPhase::Acquiring(future) => {
                locking = Some(future);
                WaitPoll::Lock
            },
            CondvarPhase::Parked => WaitPoll::Check,
            CondvarPhase::Sentinel => vstd::pervasive::unreached(),
        };
        loop
            invariant
                start == *old(self),
                queue == old(cv)@,
                before == old(mutex)@,
                self.id == start.id,
                self.phase is Sentinel,
                WaiterList::distinct(queue.waiters),
                WaiterList::distinct(before.mem.waiters),
                cv.wf(),
                mutex.wf(),
                mutex@.value == before.value,
                match poll {
                    WaitPoll::Enlist => {
                        &&& start.phase() is Waiting
                        &&& cv@ == queue
                        &&& mutex@ == before
                        &&& held is Some
                        &&& woken is None
                    },
                    WaitPoll::Release => {
                        &&& start.phase() is Waiting
                        &&& self.renewed(queue, cv@, *waker)
                        &&& mutex@ == before
                        &&& held is Some
                        &&& woken is None
                    },
                    WaitPoll::Leave => {
                        &&& start.phase() is Waiting
                        &&& self.renewed(queue, cv@, *waker)
                        &&& Self::gave_back(before, mutex@, woken)
                    },
                    WaitPoll::Check => {
                        &&& start.phase() is Parked
                        &&& cv@ == queue
                        &&& mutex@ == before
                        &&& woken is None
                        &&& locking is None
                    },
                    WaitPoll::Lock => {
                        &&& start.notified(queue)
                        &&& cv@ == queue
                        &&& mutex@ == before
                        &&& woken is None
                        &&& locking == (match start.phase() {
                            CondvarPhase::Acquiring(future) => Some(future),
                            _ => None,
                        })
                    },
                    WaitPoll::Parked => {
                        &&& !start.notified(queue)
                        &&& self.renewed(queue, cv@, *waker)
                        &&& start.phase() is Waiting ==> Self::gave_back(before, mutex@, woken)
                        &&& !(start.phase() is Waiting) ==> mutex@ == before && woken is None
                    },
                    WaitPoll::Acquiring => {
                        &&& start.notified(queue)
                        &&& cv@ == queue
                        &&& before.mem.locked
                        &&& mutex@.mem.locked
                        &&& mutex@.next_waiter_id == start.ids_after(before)
                        &&& woken is None
                        &&& locking is Some
                        &&& locking->0.id() == start.lock_id(before)
                        &&& WaiterList::linked(mutex@.mem.waiters, locking->0.id())
                        &&& mutex@.mem.waiters == WaiterList::enlisted(
                            before.mem.waiters,
                            locking->0.id(),
                            WaiterList::waker_of(mutex@.mem.waiters, locking->0.id()),
                        )
                        &&& cloned(
                            *waker,
                            WaiterList::waker_of(mutex@.mem.waiters, locking->0.id()),
                        )
                    },
                    WaitPoll::Ready => {
                        &&& start.notified(queue)
                        &&& cv@ == queue
                        &&& !before.mem.locked
                        &&& mutex@.mem == (MutexMem {
                            locked: true,
                            waiters: WaiterList::delisted(
                                before.mem.waiters,
                                start.lock_id(before),
                            ),
                        })
                        &&& mutex@.next_waiter_id == start.ids_after(before)
                        &&& woken is None
                        &&& held is Some
                    },
                },
            decreases Self::distance(poll),
        {
            match poll {
                WaitPoll::Enlist => {
                    cv.waiters.enlist(self.id, waker);
                    poll = poll.next(WaitSeen::Done);
                },
                WaitPoll::Release => {
                    woken = held.take().unwrap().drop(mutex);
                    poll = poll.next(WaitSeen::Done);
                },
                WaitPoll::Leave => {
                    poll = poll.next(WaitSeen::Done);
                },
                WaitPoll::Check => {
                    let linked = cv.waiters.refresh(self.id, waker);
                    poll = poll.next(WaitSeen::Linked(linked));
                },
                WaitPoll::Lock => {
                    let mut future = match locking.take() {
                        Some(future) => future,
                        None => mutex.lock(),
                    };
                    match future.poll(mutex, waker) {
                        Poll::Ready(guard) => {
                            future.drop(mutex);
                            held = Some(guard);
                            poll = poll.next(WaitSeen::Locked(true));
                        },
                        Poll::Pending => {
                            locking = Some(future);
                            poll = poll.next(WaitSeen::Locked(false));
                        },
                    }
                },
                WaitPoll::Parked => {
                    self.phase = CondvarPhase::Parked;
                    proof {
                        WaiterList::lemma_enlisted_at(
                            queue.waiters,
                            start.id,
                            WaiterList::waker_of(cv@.waiters, start.id),
                        );
                    }
                    return (Poll::Pending, woken);
                },
                WaitPoll::Acquiring => {
                    self.phase = CondvarPhase::Acquiring(locking.take().unwrap());
                    return (Poll::Pending, woken);
                },
                WaitPoll::Ready => {
                    proof {
                        WaiterList::lemma_delisted_at(
                            before.mem.waiters,
                            start.lock_id(before),
                        );
                    }
                    return (Poll::Ready(held.take().unwrap()), woken);
                },
            }
        }
    }

    /// How far the poll is from its end.
    spec fn distance(poll: WaitPoll) -> nat {
        match poll {
            WaitPoll::Enlist => 5,
            WaitPoll::Release => 4,
            WaitPoll::Leave | WaitPoll::Check => 3,
            WaitPoll::Lock => 2,
            WaitPoll::Parked | WaitPoll::Acquiring | WaitPoll::Ready => 1,
        }
    }

    /// The waiter is linked, with a clone of `waker`.
    spec fn renewed(self, before: CondvarView, after: CondvarView, waker: Waker) -> bool {
        &&& WaiterList::linked(after.waiters, self.id)
        &&& after == before.with_waiters(
            WaiterList::enlisted(
                before.waiters,
                self.id,
                WaiterList::waker_of(after.waiters, self.id),
            ),
        )
        &&& cloned(waker, WaiterList::waker_of(after.waiters, self.id))
    }

    /// The mutex was given back and its first waiter unlinked.
    spec fn gave_back<T>(before: MutexView<T>, after: MutexView<T>, woken: Option<Waker>) -> bool {
        &&& after == before.with_mem(
            MutexMem { locked: false, waiters: WaiterList::popped(before.mem.waiters) },
        )
        &&& woken == WaiterList::first_waker(before.mem.waiters)
    }

    /// Drops the future. Its waiter, which would be stale, leaves the list. A
    /// guard that it still has is given back, and the waker of the first
    /// waiter for the mutex returned; a wait for the mutex is given up.
    pub fn drop<T>(self, cv: &mut Condvar, mutex: &mut Mutex<T>) -> (woken: Option<Waker>)
        requires
            old(cv).wf(),
            old(mutex).wf(),
        ensures
            final(cv).wf(),
            final(mutex).wf(),
            final(cv)@ == old(cv)@.with_waiters(
                WaiterList::delisted(old(cv)@.waiters, self.id()),
            ),
            match self.phase() {
                CondvarPhase::Waiting(_) => {
                    &&& final(mutex)@ == old(mutex)@.with_mem(
                        (MutexMem {
                            locked: false,
                            waiters: WaiterList::popped(old(mutex)@.mem.waiters),
                        }),
                    )
                    &&& woken == WaiterList::first_waker(old(mutex)@.mem.waiters)
                },
                CondvarPhase::Acquiring(future) => {
                    &&& final(mutex)@ == old(mutex)@.with_mem(
                        (MutexMem {
                            waiters: WaiterList::delisted(
                                old(mutex)@.mem.waiters,
                                future.id(),
                            ),
                            ..old(mutex)@.mem
                        }),
                    )
                    &&& woken is None
                },
                _ => final(mutex)@ == old(mutex)@ && woken is None,
            },
            final(cv)@.next_waiter_id == old(cv)@.next_waiter_id,
            final(mutex)@.value == old(mutex)@.value,
            final(mutex)@.next_waiter_id == old(mutex)@.next_waiter_id,
            final(mutex)@.mem.locked == (old(mutex)@.mem.locked && !(self.phase() is Waiting)),
            forall|i: int|
                0 <= i < old(cv)@.waiters.len() && (#[trigger] old(cv)@.waiters[i]).0 == self.id()
                    ==> final(cv)@.waiters == old(cv)@.waiters.remove(i),
            (forall|i: int|
                0 <= i < old(cv)@.waiters.len() ==> (#[trigger] old(cv)@.waiters[i]).0
                    != self.id()) ==> final(cv)@.waiters == old(cv)@.waiters,
            self.phase() is Waiting && old(mutex)@.mem.waiters.len() > 0 ==> woken == Some(
                old(mutex)@.mem.waiters[0].1,
            ) && final(mutex)@.mem.waiters == old(mutex)@.mem.waiters.subrange(
                1,
                old(mutex)@.mem.waiters.len() as int,
            ),
            !(self.phase() is Waiting) || old(mutex)@.mem.waiters.len() == 0 ==> woken is None,
    {
        let _ = cv.waiters.remove(self.id);
        match self.phase {
            CondvarPhase::Waiting(guard) => guard.drop(mutex),
            CondvarPhase::Acquiring(future) => {
                future.drop(mutex);
                None
            },
            _ => None,
        }
    }
}

} // verus!
