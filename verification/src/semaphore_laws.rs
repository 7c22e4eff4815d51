//! What holds of a semaphore over all its calls.
//!
//! The number of permits and the list of waits change together under the mutex
//! of the semaphore, so one step of the system here is what one call does
//! between taking the mutex and giving it back.

use crate::condvar::{CondvarPhase, CondvarWaitFuture};
use crate::mutex::MutexView;
use crate::mutex_steps::MutexMem;
use crate::semaphore::SemaphoreView;
use crate::waiter::WaiterList;
use std::task::Waker;
use vstd::prelude::*;

verus! {

/// A semaphore with its history and its waits, by waiter id.
pub struct SemaphoreSystem {
    pub semaphore: SemaphoreView,
    /// How many acquisitions have got their permit so far.
    pub taken: nat,
    /// How many releases have given one.
    pub given: nat,
    /// The waits that have begun, and have not gone on or been dropped since.
    pub waits: Set<usize>,
    /// Those of them that were notified.
    pub called: Set<usize>,
}

impl SemaphoreSystem {
    /// A new semaphore.
    pub open spec fn init(self, permit_count: usize) -> bool {
        &&& self.semaphore.permits() == permit_count
        &&& self.semaphore.cv.waiters == Seq::<(usize, Waker)>::empty()
        &&& self.taken == 0
        &&& self.given == 0
        &&& self.waits == Set::<usize>::empty()
        &&& self.called == Set::<usize>::empty()
    }

    /// The waiter id of `wait` is not in use.
    pub open spec fn fresh(self, wait: CondvarWaitFuture) -> bool {
        !self.waits.contains(wait.id())
    }

    /// The wait `wait` was notified and has not gone on since.
    pub open spec fn calls(self, wait: CondvarWaitFuture) -> bool {
        wait.notified(self.semaphore.cv) && self.called.contains(wait.id())
    }

    /// An acquisition or a release is made: a waiter id for the mutex is given
    /// out.
    pub open spec fn created(self, post: Self) -> bool {
        post == (SemaphoreSystem {
            semaphore: SemaphoreView {
                mutex: MutexView {
                    next_waiter_id: self.semaphore.mutex.next_waiter_id.wrapping_add(1),
                    ..self.semaphore.mutex
                },
                ..self.semaphore
            },
            ..self
        })
    }

    /// The future of waiter `id` finds the mutex locked and waits for it. It is
    /// that of an acquisition, a release or a notified wait.
    pub open spec fn blocked(self, id: usize, waker: Waker, post: Self) -> bool {
        &&& self.semaphore.mutex.mem.locked
        &&& self.semaphore.began_lock(id, waker, post.semaphore)
        &&& post == (SemaphoreSystem { semaphore: post.semaphore, ..self })
    }

    /// An acquisition takes the mutex for the first time, by the future of
    /// waiter `id`, and takes a permit.
    pub open spec fn acquired(self, id: usize, wakers: Seq<Waker>, post: Self) -> bool {
        &&& self.semaphore.locked_by(id).took_permit(wakers, post.semaphore)
        &&& post == (SemaphoreSystem {
            semaphore: post.semaphore,
            taken: self.taken + 1,
            ..self
        })
    }

    /// It finds no permit and begins the wait `wait`.
    pub open spec fn parked(
        self,
        id: usize,
        wait: CondvarWaitFuture,
        waker: Waker,
        wakers: Seq<Waker>,
        post: Self,
    ) -> bool {
        &&& self.fresh(wait)
        &&& self.semaphore.locked_by(id).began_wait(wait, waker, wakers, post.semaphore)
        &&& post == (SemaphoreSystem {
            semaphore: post.semaphore,
            waits: self.waits.insert(wait.id()),
            ..self
        })
    }

    /// The wait `wait` is polled before it was notified: its waker is renewed.
    pub open spec fn renewed(self, wait: CondvarWaitFuture, waker: Waker, post: Self) -> bool {
        &&& WaiterList::linked(self.semaphore.cv.waiters, wait.id())
        &&& post == (SemaphoreSystem {
            semaphore: SemaphoreView {
                cv: self.semaphore.cv.with_waiters(
                    WaiterList::enlisted(self.semaphore.cv.waiters, wait.id(), waker),
                ),
                ..self.semaphore
            },
            ..self
        })
    }

    /// The notified wait `wait` takes the mutex again and takes a permit.
    pub open spec fn resumed(
        self,
        wait: CondvarWaitFuture,
        wakers: Seq<Waker>,
        post: Self,
    ) -> bool {
        &&& self.calls(wait)
        &&& self.semaphore.locked_after(wait).took_permit(wakers, post.semaphore)
        &&& post == (SemaphoreSystem {
            semaphore: post.semaphore,
            taken: self.taken + 1,
            waits: self.waits.remove(wait.id()),
            called: self.called.remove(wait.id()),
            ..self
        })
    }

    /// It finds no permit and begins another wait.
    pub open spec fn parked_again(
        self,
        wait: CondvarWaitFuture,
        again: CondvarWaitFuture,
        waker: Waker,
        wakers: Seq<Waker>,
        post: Self,
    ) -> bool {
        &&& self.calls(wait)
        &&& self.fresh(again)
        &&& self.semaphore.locked_after(wait).began_wait(again, waker, wakers, post.semaphore)
        &&& post == (SemaphoreSystem {
            semaphore: post.semaphore,
            waits: self.waits.remove(wait.id()).insert(again.id()),
            called: self.called.remove(wait.id()),
            ..self
        })
    }

    /// A permit is given, by the future of waiter `id`, and the wait that has
    /// waited longest is notified. Whoever gives it need not have taken one;
    /// there is room to count it.
    pub open spec fn released(self, id: usize, wakers: Seq<Waker>, post: Self) -> bool {
        &&& self.semaphore.permits() < usize::MAX
        &&& self.semaphore.locked_by(id).returned_permit(wakers, post.semaphore)
        &&& post == (SemaphoreSystem {
            semaphore: post.semaphore,
            given: self.given + 1,
            called: if self.semaphore.cv.waiters.len() > 0 {
                self.called.insert(self.semaphore.cv.waiters[0].0)
            } else {
                self.called
            },
            ..self
        })
    }

    /// The mutex without waiter `id` in its list.
    pub open spec fn mutex_without(self, id: usize) -> MutexView<usize> {
        self.semaphore.mutex.with_mem(
            MutexMem {
                waiters: WaiterList::delisted(self.semaphore.mutex.mem.waiters, id),
                ..self.semaphore.mutex.mem
            },
        )
    }

    /// The future of waiter `id`, which waits for the mutex, is dropped.
    pub open spec fn left(self, id: usize, post: Self) -> bool {
        post == (SemaphoreSystem {
            semaphore: SemaphoreView { mutex: self.mutex_without(id), ..self.semaphore },
            ..self
        })
    }

    /// The wait `wait` is dropped.
    pub open spec fn dropped(self, wait: CondvarWaitFuture, post: Self) -> bool {
        post == (SemaphoreSystem {
            semaphore: SemaphoreView {
                mutex: match wait.phase() {
                    CondvarPhase::Acquiring(lock) => self.mutex_without(lock.id()),
                    _ => self.semaphore.mutex,
                },
                cv: self.semaphore.cv.with_waiters(
                    WaiterList::delisted(self.semaphore.cv.waiters, wait.id()),
                ),
            },
            waits: self.waits.remove(wait.id()),
            called: self.called.remove(wait.id()),
            ..self
        })
    }

    /// The wait `wait` was notified and is dropped while others wait, and the
    /// free permits were all called for.
    pub open spec fn loses_notification(self, wait: CondvarWaitFuture, post: Self) -> bool {
        &&& self.dropped(wait, post)
        &&& self.called.contains(wait.id())
        &&& self.semaphore.cv.waiters.len() > 0
        &&& self.semaphore.permits() == self.called.len()
    }

    /// One step of some user.
    pub open spec fn step(
        self,
        id: usize,
        wait: CondvarWaitFuture,
        again: CondvarWaitFuture,
        waker: Waker,
        wakers: Seq<Waker>,
        post: Self,
    ) -> bool {
        ||| self.created(post)
        ||| self.blocked(id, waker, post)
        ||| self.acquired(id, wakers, post)
        ||| self.parked(id, wait, waker, wakers, post)
        ||| self.renewed(wait, waker, post)
        ||| self.resumed(wait, wakers, post)
        ||| self.parked_again(wait, again, waker, wakers, post)
        ||| self.released(id, wakers, post)
        ||| self.left(id, post)
        ||| self.dropped(wait, post)
    }

    /// The free permits are those at the start and those given since, without
    /// those taken.
    pub open spec fn conserves(self, permit_count: usize) -> bool {
        self.semaphore.permits() + self.taken == permit_count + self.given
    }

    /// A wait is in the list until it is called.
    pub open spec fn links_waits(self) -> bool {
        &&& WaiterList::distinct(self.semaphore.cv.waiters)
        &&& forall|id: usize|
            #![trigger WaiterList::linked(self.semaphore.cv.waiters, id)]
            #![trigger self.waits.contains(id)]
            WaiterList::linked(self.semaphore.cv.waiters, id) <==> self.waits.contains(id)
                && !self.called.contains(id)
        &&& self.called.subset_of(self.waits)
    }

    /// While tasks wait, there are no more free permits than waits that were
    /// called and will go for them.
    pub open spec fn attends_waits(self) -> bool {
        &&& self.links_waits()
        &&& self.called.finite()
        &&& self.semaphore.cv.waiters.len() > 0 ==> self.semaphore.permits() <= self.called.len()
    }
}

/// In a new semaphore all permits are free and nobody waits.
pub proof fn law_new_semaphore(system: SemaphoreSystem, permit_count: usize)
    requires
        system.init(permit_count),
    ensures
        system.conserves(permit_count),
        system.attends_waits(),
{
}

/// Permits are neither lost nor made up: after every step, the free permits are
/// those at the start and those given since, without those taken. A step in
/// which no acquisition gets its permit and no release gives one, such as the
/// poll of an acquisition that has to wait, or its drop, leaves them as they
/// are.
pub proof fn law_every_step_conserves_permits(
    pre: SemaphoreSystem,
    permit_count: usize,
    id: usize,
    wait: CondvarWaitFuture,
    again: CondvarWaitFuture,
    waker: Waker,
    wakers: Seq<Waker>,
    post: SemaphoreSystem,
)
    requires
        pre.conserves(permit_count),
        pre.step(id, wait, again, waker, wakers, post),
    ensures
        post.conserves(permit_count),
        post.taken == pre.taken && post.given == pre.given ==> post.semaphore.permits()
            == pre.semaphore.permits(),
{
}

/// The mutex of a semaphore is never left locked: whatever the number of
/// permits, a step that takes the mutex gives it back. So if no call is under
/// way the mutex is free.
pub proof fn law_every_step_gives_the_mutex_back(
    pre: SemaphoreSystem,
    id: usize,
    wait: CondvarWaitFuture,
    again: CondvarWaitFuture,
    waker: Waker,
    wakers: Seq<Waker>,
    post: SemaphoreSystem,
)
    requires
        pre.step(id, wait, again, waker, wakers, post),
    ensures
        !pre.semaphore.mutex.mem.locked ==> !post.semaphore.mutex.mem.locked,
        pre.acquired(id, wakers, post) || pre.resumed(wait, wakers, post) || pre.released(
            id,
            wakers,
            post,
        ) || pre.parked(id, wait, waker, wakers, post) || pre.parked_again(
            wait,
            again,
            waker,
            wakers,
            post,
        ) ==> !post.semaphore.mutex.mem.locked,
{
}

/// A free permit is there for the taking: while the mutex is free and a permit
/// is, an acquisition that is polled does not have to wait, neither for the
/// mutex nor for a permit; and a release leaves it so.
pub proof fn law_free_permit_is_there_for_the_taking(
    pre: SemaphoreSystem,
    id: usize,
    wait: CondvarWaitFuture,
    again: CondvarWaitFuture,
    waker: Waker,
    wakers: Seq<Waker>,
    post: SemaphoreSystem,
)
    requires
        !pre.semaphore.mutex.mem.locked,
    ensures
        pre.semaphore.mutex.value > 0 ==> !pre.blocked(id, waker, post) && !pre.parked(
            id,
            wait,
            waker,
            wakers,
            post,
        ) && !pre.parked_again(wait, again, waker, wakers, post),
        pre.acquired(id, wakers, post) || pre.resumed(wait, wakers, post)
            ==> post.semaphore.mutex.value + 1 == pre.semaphore.mutex.value,
        pre.released(id, wakers, post) ==> !post.semaphore.mutex.mem.locked
            && post.semaphore.mutex.value == pre.semaphore.mutex.value + 1,
{
}

/// A step leaves every other wait as it is: of those who wait before and after,
/// all but the ones that the step is of have the wakers that they had, and none
/// of them leaves but the one that a release notifies.
pub proof fn law_every_step_keeps_other_waits(
    pre: SemaphoreSystem,
    id: usize,
    wait: CondvarWaitFuture,
    again: CondvarWaitFuture,
    waker: Waker,
    wakers: Seq<Waker>,
    post: SemaphoreSystem,
)
    requires
        pre.links_waits(),
        pre.step(id, wait, again, waker, wakers, post),
    ensures
        forall|i: int, j: int|
            0 <= i < pre.semaphore.cv.waiters.len() && 0 <= j < post.semaphore.cv.waiters.len() && (
            #[trigger] pre.semaphore.cv.waiters[i]).0 == (
            #[trigger] post.semaphore.cv.waiters[j]).0 && pre.semaphore.cv.waiters[i].0 != wait.id()
                && pre.semaphore.cv.waiters[i].0 != again.id() ==> pre.semaphore.cv.waiters[i]
                == post.semaphore.cv.waiters[j],
        forall|i: int|
            0 <= i < pre.semaphore.cv.waiters.len() && (
            #[trigger] pre.semaphore.cv.waiters[i]).0 != wait.id()
                && pre.semaphore.cv.waiters[i].0 != again.id()
                ==> post.semaphore.cv.waiters.contains(pre.semaphore.cv.waiters[i]) || (i == 0 && post.called.contains(pre.semaphore.cv.waiters[i].0)),
{
    let before = pre.semaphore.cv.waiters;
    let after = post.semaphore.cv.waiters;
    let renewed = WaiterList::waker_of(after, wait.id());
    let begun = WaiterList::waker_of(after, again.id());
    WaiterList::law_enlisted_touches_nobody_else(before, wait.id(), waker);
    WaiterList::law_enlisted_touches_nobody_else(before, wait.id(), renewed);
    WaiterList::law_enlisted_touches_nobody_else(before, again.id(), begun);
    WaiterList::lemma_enlisted_at(before, wait.id(), waker);
    WaiterList::lemma_enlisted_at(before, wait.id(), renewed);
    WaiterList::lemma_enlisted_at(before, again.id(), begun);
    WaiterList::lemma_delisted_at(before, wait.id());
    WaiterList::law_popped_touches_nobody_else(before);
    if pre.released(id, wakers, post) {
        assert forall|i: int| 0 < i < before.len() implies after.contains(
            #[trigger] before[i],
        ) by {
            assert(after[i - 1] == before[i]);
        }
    } else if exists|r: int| 0 <= r < before.len() && (#[trigger] before[r]).0 == wait.id() && after
        == before.remove(r) {
        let r = choose|r: int|
            0 <= r < before.len() && (#[trigger] before[r]).0 == wait.id() && after
                == before.remove(r);
        assert forall|i: int|
            0 <= i < before.len() && (#[trigger] before[i]).0 != wait.id() implies after.contains(
            before[i],
        ) by {
            let k = if i < r {
                i
            } else {
                i - 1
            };
            assert(after[k] == before[i]);
        }
        assert forall|i: int, j: int|
            0 <= i < before.len() && 0 <= j < after.len() && (#[trigger] before[i]).0 == (
            #[trigger] after[j]).0 && before[i].0 != wait.id() implies before[i] == after[j] by {
            let k = if j < r {
                j
            } else {
                j + 1
            };
            assert(after[j] == before[k]);
        }
    } else {
        assert forall|i: int|
            0 <= i < before.len() && (#[trigger] before[i]).0 != wait.id() && before[i].0
                != again.id() implies after.contains(before[i]) by {
            assert(after[i] == before[i]);
        }
        assert forall|i: int, j: int|
            0 <= i < before.len() && 0 <= j < after.len() && (#[trigger] before[i]).0 == (
            #[trigger] after[j]).0 && before[i].0 != wait.id() && before[i].0
                != again.id() implies before[i] == after[j] by {
            if j < before.len() {
                assert(before[j].0 == after[j].0);
            }
        }
    }
}

/// Never more permits are taken than there were at the start and were given
/// since. So of tasks that give back what they took, no more than
/// `permit_count` have a permit at once, and they do not overflow the count.
pub proof fn law_permits_bound_acquisitions(system: SemaphoreSystem, permit_count: usize)
    requires
        system.conserves(permit_count),
    ensures
        system.taken <= permit_count + system.given,
        system.taken - system.given <= permit_count,
        system.given < system.taken ==> system.semaphore.permits() < usize::MAX,
        permit_count + system.given < usize::MAX ==> system.semaphore.permits() < usize::MAX,
{
}

/// Every step leaves every wait in the list until it is called.
pub proof fn law_every_step_links_waits(
    pre: SemaphoreSystem,
    id: usize,
    wait: CondvarWaitFuture,
    again: CondvarWaitFuture,
    waker: Waker,
    wakers: Seq<Waker>,
    post: SemaphoreSystem,
)
    requires
        pre.links_waits(),
        pre.step(id, wait, again, waker, wakers, post),
    ensures
        post.links_waits(),
{
    let queue = pre.semaphore.cv.waiters;
    let after = post.semaphore.cv.waiters;
    WaiterList::law_enlisted_in_order(queue, wait.id(), waker);
    WaiterList::law_enlisted_in_order(
        queue,
        wait.id(),
        WaiterList::waker_of(after, wait.id()),
    );
    WaiterList::law_enlisted_in_order(
        queue,
        again.id(),
        WaiterList::waker_of(after, again.id()),
    );
    WaiterList::law_delisted_in_order(queue, wait.id());
    WaiterList::law_popped_in_order(queue);
    if queue.len() > 0 {
        WaiterList::lemma_position(queue, 0);
    }
    assert forall|c: usize| WaiterList::linked(after, c) <==> post.waits.contains(c)
        && !post.called.contains(c) by {
        WaiterList::lemma_enlisted_linked(queue, wait.id(), waker, c);
        WaiterList::lemma_enlisted_linked(
            queue,
            wait.id(),
            WaiterList::waker_of(after, wait.id()),
            c,
        );
        WaiterList::lemma_enlisted_linked(
            queue,
            again.id(),
            WaiterList::waker_of(after, again.id()),
            c,
        );
        WaiterList::lemma_delisted_linked(queue, wait.id(), c);
        if queue.len() > 0 {
            WaiterList::lemma_popped_linked(queue, c);
        }
        assert(WaiterList::linked(queue, c) <==> pre.waits.contains(c) && !pre.called.contains(c));
    }
}

/// No task is left waiting for a permit that nobody goes for: with every step,
/// while tasks wait, there are no more free permits than notified waits. Left
/// out is the drop of a notified wait that loses the notification: no other
/// wait was called for the permit that is then free.
pub proof fn law_every_step_attends_waits(
    pre: SemaphoreSystem,
    id: usize,
    wait: CondvarWaitFuture,
    again: CondvarWaitFuture,
    waker: Waker,
    wakers: Seq<Waker>,
    post: SemaphoreSystem,
)
    requires
        pre.attends_waits(),
        pre.step(id, wait, again, waker, wakers, post),
        !pre.loses_notification(wait, post),
    ensures
        post.attends_waits(),
{
    law_every_step_links_waits(pre, id, wait, again, waker, wakers, post);
    let queue = pre.semaphore.cv.waiters;
    if queue.len() > 0 {
        WaiterList::lemma_position(queue, 0);
    }
}

/// No task sleeps next to a free permit: if a permit is free while a wait has
/// not been notified, then another was notified that has yet to go for it.
pub proof fn law_no_wait_sleeps_next_to_a_free_permit(system: SemaphoreSystem, sleeper: usize)
    requires
        system.attends_waits(),
        system.waits.contains(sleeper),
        !system.called.contains(sleeper),
        system.semaphore.permits() > 0,
    ensures
        exists|id: usize| #[trigger] system.called.contains(id) && id != sleeper,
{
    assert(WaiterList::linked(system.semaphore.cv.waiters, sleeper));
    if forall|id: usize| !system.called.contains(id) {
        assert(system.called =~= Set::empty());
    }
}

/// A release undoes an acquisition: the number of free permits is what it was.
pub proof fn law_release_undoes_acquire(
    pre: SemaphoreView,
    taken_wakers: Seq<Waker>,
    taken: SemaphoreView,
    id: usize,
    wakers: Seq<Waker>,
    post: SemaphoreView,
)
    requires
        pre.took_permit(taken_wakers, taken),
        taken.locked_by(id).returned_permit(wakers, post),
    ensures
        post.permits() == pre.permits(),
{
}

} // verus!
