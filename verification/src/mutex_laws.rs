//! What holds of a mutex under every interleaving of its users.
//!
//! The system here is the memory of one mutex together with all the futures
//! and guards on it, each at some point of the program that it runs
//! ([`crate::mutex_steps`]). One step of the system is one operation of one of
//! them.

use crate::mutex_steps::{LockPoll, MutexMem, MutexOp, MutexSeen, Unlock};
use crate::waiter::WaiterList;
use std::task::Waker;
use vstd::prelude::*;

verus! {

/// Where a future on the mutex is.
pub enum LockTask {
    /// Not polled at the moment.
    Idle,
    /// In its poll.
    Polling(LockPoll),
    /// It has given its guard away.
    Finished,
}

/// Where a guard on the mutex is.
pub enum HeldTask {
    /// Held.
    Held,
    /// In its drop.
    Dropping(Unlock),
}

impl HeldTask {
    /// The guard still has the mutex.
    pub open spec fn owns(self) -> bool {
        match self {
            HeldTask::Held => true,
            HeldTask::Dropping(unlock) => unlock.owns(),
        }
    }
}

/// A mutex with its futures and guards, and who of them sleeps, by waiter id. A
/// guard has the id of the future that it came from.
pub struct MutexSystem {
    pub mem: MutexMem,
    pub futures: Map<usize, LockTask>,
    pub guards: Map<usize, HeldTask>,
    /// The waiters that were unlinked to be woken since they were last polled.
    pub notified: Set<usize>,
    /// Those whose last poll answered that they have to wait, and who were not
    /// notified since it began.
    pub asleep: Set<usize>,
    /// The wakers that the futures brought when they last linked their waiters.
    pub brought: Map<usize, Waker>,
}

impl MutexSystem {
    /// The future or the guard of `id` has the mutex.
    pub open spec fn owns(self, id: usize) -> bool {
        ||| self.futures.contains_key(id) && self.futures[id] == LockTask::Polling(LockPoll::Delist)
        ||| self.guards.contains_key(id) && self.guards[id].owns()
    }

    /// The future of `id` has the list of waiters locked.
    pub open spec fn polls_with_list(self, id: usize) -> bool {
        &&& self.futures.contains_key(id)
        &&& self.futures[id] matches LockTask::Polling(poll)
        &&& poll.holds_list()
    }

    /// The guard of `id` has the list of waiters locked.
    pub open spec fn unlocks_with_list(self, id: usize) -> bool {
        &&& self.guards.contains_key(id)
        &&& self.guards[id] matches HeldTask::Dropping(unlock)
        &&& unlock.holds_list()
    }

    /// The guard of `id` has taken a waker that it has not woken by yet.
    pub open spec fn carries(self, id: usize) -> bool {
        &&& self.guards.contains_key(id)
        &&& self.guards[id] matches HeldTask::Dropping(unlock)
        &&& unlock.carries()
    }

    /// The next operation of the guard of `id` wakes by the waker that it has
    /// taken.
    pub open spec fn wakes(self, id: usize) -> bool {
        &&& self.guards.contains_key(id)
        &&& self.guards[id] matches HeldTask::Dropping(unlock)
        &&& unlock.pending_op() is Wake
    }

    /// Nobody has the list of waiters locked.
    pub open spec fn list_free(self) -> bool {
        &&& forall|id: usize| !#[trigger] self.polls_with_list(id)
        &&& forall|id: usize| !#[trigger] self.unlocks_with_list(id)
    }

    /// At most one future or guard has the list of waiters locked.
    pub open spec fn one_holder(self) -> bool {
        &&& forall|a: usize, b: usize| #[trigger]
            self.polls_with_list(a) && #[trigger] self.polls_with_list(b) ==> a == b
        &&& forall|a: usize, b: usize| #[trigger]
            self.unlocks_with_list(a) && #[trigger] self.unlocks_with_list(b) ==> a == b
        &&& forall|a: usize, b: usize|
            !(#[trigger] self.polls_with_list(a) && #[trigger] self.unlocks_with_list(b))
    }

    /// The list of waiters is free if the operation locks it.
    pub open spec fn admits(self, op: MutexOp) -> bool {
        op is Enlist || op is Remove || op is Enter ==> self.list_free()
    }

    /// A new mutex.
    pub open spec fn init(self) -> bool {
        &&& !self.mem.locked
        &&& self.mem.waiters == Seq::<(usize, Waker)>::empty()
        &&& self.futures == Map::<usize, LockTask>::empty()
        &&& self.guards == Map::<usize, HeldTask>::empty()
        &&& self.asleep == Set::<usize>::empty()
    }

    /// A future is made, under an id that is not in use.
    pub open spec fn created(self, id: usize, post: Self) -> bool {
        &&& !self.futures.contains_key(id)
        &&& !self.guards.contains_key(id)
        &&& post == (MutexSystem {
            futures: self.futures.insert(id, LockTask::Idle),
            notified: self.notified.remove(id),
            asleep: self.asleep.remove(id),
            ..self
        })
    }

    /// A future begins to be polled.
    pub open spec fn polled(self, id: usize, post: Self) -> bool {
        &&& self.futures.contains_key(id)
        &&& self.futures[id] is Idle
        &&& post == (MutexSystem {
            futures: self.futures.insert(id, LockTask::Polling(LockPoll::Try)),
            notified: self.notified.remove(id),
            asleep: self.asleep.remove(id),
            ..self
        })
    }

    /// A future goes on in its poll.
    pub open spec fn poll_went_on(
        self,
        id: usize,
        waker: Option<Waker>,
        seen: MutexSeen,
        post: Self,
    ) -> bool {
        &&& self.futures.contains_key(id)
        &&& self.futures[id] matches LockTask::Polling(poll)
        &&& self.admits(poll.pending_op())
        &&& poll.pending_op().performed(id, waker, self.mem, seen, None, post.mem)
        &&& post.futures == self.futures.insert(
            id,
            match poll.after(seen) {
                LockPoll::Ready => LockTask::Finished,
                LockPoll::Pending => LockTask::Idle,
                next => LockTask::Polling(next),
            },
        )
        &&& post.guards == (if poll.after(seen) is Ready {
            self.guards.insert(id, HeldTask::Held)
        } else {
            self.guards
        })
        &&& post.notified == self.notified
        &&& post.asleep == (if poll.after(seen) is Pending && !self.notified.contains(id) {
            self.asleep.insert(id)
        } else {
            self.asleep
        })
        &&& post.brought == (if poll.pending_op() is Enlist {
            self.brought.insert(id, waker->0)
        } else {
            self.brought
        })
    }

    /// A future is dropped.
    pub open spec fn dropped(self, id: usize, post: Self) -> bool {
        &&& self.futures.contains_key(id)
        &&& (self.futures[id] is Idle || self.futures[id] is Finished)
        &&& self.admits(MutexOp::Remove)
        &&& MutexOp::Remove.performed(id, None, self.mem, MutexSeen::Done, None, post.mem)
        &&& post.futures == self.futures.remove(id)
        &&& post.guards == self.guards
        &&& post.notified == self.notified.remove(id)
        &&& post.asleep == self.asleep.remove(id)
        &&& post.brought == self.brought
    }

    /// A guard begins to be dropped.
    pub open spec fn released(self, id: usize, post: Self) -> bool {
        &&& self.guards.contains_key(id)
        &&& self.guards[id] is Held
        &&& post == (MutexSystem {
            guards: self.guards.insert(id, HeldTask::Dropping(Unlock::Enter)),
            ..self
        })
    }

    /// A guard goes on in its drop. A waiter that it unlinks is notified.
    pub open spec fn release_went_on(
        self,
        id: usize,
        seen: MutexSeen,
        taken: Option<Waker>,
        post: Self,
    ) -> bool {
        &&& self.guards.contains_key(id)
        &&& self.guards[id] matches HeldTask::Dropping(unlock)
        &&& self.admits(unlock.pending_op())
        &&& unlock.pending_op().performed(id, None, self.mem, seen, taken, post.mem)
        &&& post.guards == (if unlock.after(seen) is Done {
            self.guards.remove(id)
        } else {
            self.guards.insert(id, HeldTask::Dropping(unlock.after(seen)))
        })
        &&& post.futures == self.futures
        &&& post.notified == (if unlock is Pop && self.mem.waiters.len() > 0 {
            self.notified.insert(self.mem.waiters[0].0)
        } else {
            self.notified
        })
        &&& post.asleep == (if unlock is Pop && self.mem.waiters.len() > 0 {
            self.asleep.remove(self.mem.waiters[0].0)
        } else {
            self.asleep
        })
        &&& post.brought == self.brought
    }

    /// One step of some future or guard.
    pub open spec fn step(
        self,
        id: usize,
        waker: Option<Waker>,
        seen: MutexSeen,
        taken: Option<Waker>,
        post: Self,
    ) -> bool {
        ||| self.created(id, post)
        ||| self.polled(id, post)
        ||| self.poll_went_on(id, waker, seen, post)
        ||| self.dropped(id, post)
        ||| self.released(id, post)
        ||| self.release_went_on(id, seen, taken, post)
    }

    /// The programs have work to do, and a future that still waits has no
    /// guard.
    pub open spec fn tasks_wf(self) -> bool {
        &&& forall|id: usize| #[trigger]
            self.futures.contains_key(id) ==> (self.futures[id] matches LockTask::Polling(poll)
                ==> !poll.finished())
        &&& forall|id: usize| #[trigger]
            self.guards.contains_key(id) ==> (self.guards[id] matches HeldTask::Dropping(unlock)
                ==> !(unlock is Done))
        &&& forall|id: usize| #[trigger]
            self.futures.contains_key(id) && !(self.futures[id] is Finished)
                ==> !self.guards.contains_key(id)
    }

    /// The mutex is locked if and only if someone has it, and at most one has.
    pub open spec fn excludes(self) -> bool {
        &&& self.tasks_wf()
        &&& forall|a: usize, b: usize| #[trigger] self.owns(a) && #[trigger] self.owns(b) ==> a == b
        &&& self.mem.locked <==> exists|a: usize| self.owns(a)
    }

    /// The future of `id` is in a poll in which it will try to take the mutex.
    pub open spec fn tries(self, id: usize) -> bool {
        &&& self.futures.contains_key(id)
        &&& self.futures[id] matches LockTask::Polling(poll)
        &&& (poll is Try || poll is Enlist || poll is Retry)
    }

    /// The future of `id` was notified and will be polled again.
    pub open spec fn awakes(self, id: usize) -> bool {
        &&& self.notified.contains(id)
        &&& self.futures.contains_key(id)
        &&& (self.futures[id] is Idle || self.futures[id] == LockTask::Polling(LockPoll::Leave))
    }

    /// The guard of `id` is about to notify the first waiter.
    pub open spec fn passes_on(self, id: usize) -> bool {
        self.guards.contains_key(id) && self.guards[id] == HeldTask::Dropping(Unlock::Pop)
    }

    /// The future or guard of `id` is on the way: it will try to take the
    /// mutex, or notify a waiter.
    pub open spec fn on_the_way(self, id: usize) -> bool {
        self.tries(id) || self.awakes(id) || self.passes_on(id)
    }

    /// Linked waiters belong to futures, and if such a future has got the
    /// mutex then its guard is held.
    pub open spec fn linked_wf(self) -> bool {
        &&& WaiterList::distinct(self.mem.waiters)
        &&& forall|i: int|
            #![trigger self.mem.waiters[i]]
            0 <= i < self.mem.waiters.len() ==> {
                let id = self.mem.waiters[i].0;
                &&& self.futures.contains_key(id)
                &&& self.futures[id] is Finished ==> self.guards.contains_key(id)
                    && self.guards[id] is Held
            }
    }

    /// Linked waiters belong to futures that are still there, and none is
    /// linked twice.
    pub open spec fn links_futures(self) -> bool {
        &&& WaiterList::distinct(self.mem.waiters)
        &&& forall|id: usize| #[trigger]
            WaiterList::linked(self.mem.waiters, id) ==> self.futures.contains_key(id)
    }

    /// Every linked waiter has a clone of the waker that its own future brought
    /// last.
    pub open spec fn keeps_wakers(self) -> bool {
        &&& forall|i: int, j: int|
            0 <= i < j < self.mem.waiters.len() ==> (#[trigger] self.mem.waiters[i]).0 != (
            #[trigger] self.mem.waiters[j]).0
        &&& forall|i: int|
            0 <= i < self.mem.waiters.len() ==> self.brought.contains_key(
                (#[trigger] self.mem.waiters[i]).0,
            ) && cloned(self.brought[self.mem.waiters[i].0], self.mem.waiters[i].1)
    }

    /// A future that has the list of waiters locked is linked, and so is every
    /// task that sleeps.
    pub open spec fn links_sleepers(self) -> bool {
        &&& WaiterList::distinct(self.mem.waiters)
        &&& self.one_holder()
        &&& forall|id: usize| #[trigger]
            self.polls_with_list(id) ==> WaiterList::linked(self.mem.waiters, id)
        &&& forall|id: usize| #[trigger]
            self.asleep.contains(id) ==> self.futures.contains_key(id) && self.futures[id] is Idle
                && !self.notified.contains(id) && WaiterList::linked(self.mem.waiters, id)
    }

    /// When the mutex is free while tasks wait for it, someone is on the way.
    pub open spec fn attends_waiters(self) -> bool {
        &&& self.linked_wf()
        &&& !self.mem.locked && self.mem.waiters.len() > 0 ==> exists|id: usize|
            self.on_the_way(id)
    }

    /// The future of `id` was notified and is dropped instead of polled, while
    /// the mutex is free, others wait, and nobody else is on the way.
    pub open spec fn drops_notification(self, id: usize, post: Self) -> bool {
        &&& self.dropped(id, post)
        &&& self.notified.contains(id)
        &&& !self.mem.locked
        &&& post.mem.waiters.len() > 0
        &&& forall|a: usize| a != id ==> !#[trigger] self.on_the_way(a)
    }

    /// The guard of `id` is dropped while the future that it came from is
    /// still there, and linked from an earlier poll.
    pub open spec fn drops_guard_first(self, id: usize, post: Self) -> bool {
        self.released(id, post) && WaiterList::linked(self.mem.waiters, id)
    }

    /// No future and no guard is in a program.
    pub open spec fn quiet(self) -> bool {
        &&& forall|id: usize| #[trigger]
            self.futures.contains_key(id) ==> !(self.futures[id] is Polling)
        &&& forall|id: usize| #[trigger] self.guards.contains_key(id) ==> self.guards[id] is Held
    }

    /// The future of `id` was notified and waits to be polled.
    pub open spec fn to_be_polled(self, id: usize) -> bool {
        self.notified.contains(id) && self.futures.contains_key(id) && self.futures[id] is Idle
    }
}

/// In a new mutex nobody has the mutex and nobody waits.
pub proof fn law_new_mutex(system: MutexSystem)
    requires
        system.init(),
    ensures
        system.excludes(),
        system.links_futures(),
        system.links_sleepers(),
        system.keeps_wakers(),
        system.attends_waiters(),
{
}

/// A step that does not change who has the mutex, nor whether it is locked.
proof fn lemma_same_owner(pre: MutexSystem, post: MutexSystem)
    requires
        pre.excludes(),
        post.tasks_wf(),
        forall|a: usize| #[trigger] post.owns(a) == pre.owns(a),
        post.mem.locked == pre.mem.locked,
    ensures
        post.excludes(),
{
    if pre.mem.locked {
        let a = choose|a: usize| pre.owns(a);
        assert(post.owns(a));
    }
}

proof fn lemma_poll_excludes(
    pre: MutexSystem,
    id: usize,
    waker: Option<Waker>,
    seen: MutexSeen,
    post: MutexSystem,
)
    requires
        pre.excludes(),
        pre.poll_went_on(id, waker, seen, post),
    ensures
        post.excludes(),
{
    assert forall|a: usize| a != id implies #[trigger] post.owns(a) == pre.owns(a) by {}
    assert(post.tasks_wf());
    if seen == MutexSeen::Acquired(true) {
        assert forall|a: usize| !pre.owns(a) by {}
        assert(post.owns(id));
    } else {
        assert(post.owns(id) == pre.owns(id));
        lemma_same_owner(pre, post);
    }
}

proof fn lemma_release_excludes(
    pre: MutexSystem,
    id: usize,
    seen: MutexSeen,
    taken: Option<Waker>,
    post: MutexSystem,
)
    requires
        pre.excludes(),
        pre.release_went_on(id, seen, taken, post),
    ensures
        post.excludes(),
{
    assert forall|a: usize| a != id implies #[trigger] post.owns(a) == pre.owns(a) by {}
    assert(post.tasks_wf());
    if pre.guards[id] == HeldTask::Dropping(Unlock::Store) {
        assert(pre.owns(id));
        assert forall|a: usize| !post.owns(a) by {
            if a != id {
                assert(!pre.owns(a));
            }
        }
    } else {
        assert(post.owns(id) == pre.owns(id));
        lemma_same_owner(pre, post);
    }
}

/// Mutual exclusion, kept by every step of every future and guard in every
/// interleaving: the mutex is locked if and only if someone has it, and at
/// most one has.
pub proof fn law_every_step_excludes(
    pre: MutexSystem,
    id: usize,
    waker: Option<Waker>,
    seen: MutexSeen,
    taken: Option<Waker>,
    post: MutexSystem,
)
    requires
        pre.excludes(),
        pre.step(id, waker, seen, taken, post),
    ensures
        post.excludes(),
{
    if pre.poll_went_on(id, waker, seen, post) {
        lemma_poll_excludes(pre, id, waker, seen, post);
    } else if pre.release_went_on(id, seen, taken, post) {
        lemma_release_excludes(pre, id, seen, taken, post);
    } else {
        assert forall|a: usize| #[trigger] post.owns(a) == pre.owns(a) by {}
        lemma_same_owner(pre, post);
    }
}

/// Mutual exclusion: two who have the mutex are one.
pub proof fn law_owner_is_alone(system: MutexSystem, a: usize, b: usize)
    requires
        system.excludes(),
        system.owns(a),
        system.owns(b),
    ensures
        a == b,
        system.mem.locked,
{
}

/// What a step does to the list of waiters, by the places of the waiters.
proof fn lemma_step_on_the_list(
    pre: MutexSystem,
    id: usize,
    waker: Option<Waker>,
    seen: MutexSeen,
    taken: Option<Waker>,
    post: MutexSystem,
)
    requires
        forall|i: int, j: int|
            0 <= i < j < pre.mem.waiters.len() ==> (#[trigger] pre.mem.waiters[i]).0 != (
            #[trigger] pre.mem.waiters[j]).0,
        pre.excludes(),
        pre.step(id, waker, seen, taken, post),
    ensures
        ({
            let before = pre.mem.waiters;
            let after = post.mem.waiters;
            let brings = pre.poll_went_on(id, waker, seen, post) && pre.futures[id]
                == LockTask::Polling(LockPoll::Enlist);
            ||| after == before && !brings
            ||| pre.passes_on(id) && before.len() > 0 && after == before.subrange(
                1,
                before.len() as int,
            ) && !brings
            ||| !brings && exists|i: int|
                0 <= i < before.len() && (#[trigger] before[i]).0 == id && after == before.remove(i)
            ||| brings && waker is Some && exists|i: int|
                0 <= i < before.len() && (#[trigger] before[i]).0 == id && after == before.update(
                    i,
                    (id, after[i].1),
                ) && cloned(waker->0, after[i].1)
            ||| brings && waker is Some && after == before.push(
                (id, after[before.len() as int].1),
            ) && cloned(waker->0, after[before.len() as int].1) && forall|i: int|
                0 <= i < before.len() ==> (#[trigger] before[i]).0 != id
        }),
{
    if pre.poll_went_on(id, waker, seen, post) {
        let op = pre.futures[id]->Polling_0.pending_op();
        op.law_performed(id, waker, pre.mem, seen, None, post.mem);
    } else if pre.dropped(id, post) {
        MutexOp::Remove.law_performed(id, None, pre.mem, MutexSeen::Done, None, post.mem);
    } else if pre.release_went_on(id, seen, taken, post) {
        let op = pre.guards[id]->Dropping_0.pending_op();
        op.law_performed(id, None, pre.mem, seen, taken, post.mem);
    }
}

/// Who does not take the step stays in the list with its own waker.
proof fn lemma_others_stay(
    pre: MutexSystem,
    id: usize,
    waker: Option<Waker>,
    seen: MutexSeen,
    taken: Option<Waker>,
    post: MutexSystem,
)
    requires
        WaiterList::distinct(pre.mem.waiters),
        pre.excludes(),
        pre.step(id, waker, seen, taken, post),
    ensures
        forall|i: int, j: int|
            0 <= i < pre.mem.waiters.len() && 0 <= j < post.mem.waiters.len() && (
            #[trigger] pre.mem.waiters[i]).0 == (#[trigger] post.mem.waiters[j]).0
                && pre.mem.waiters[i].0 != id ==> pre.mem.waiters[i] == post.mem.waiters[j],
        forall|i: int|
            0 <= i < pre.mem.waiters.len() && (#[trigger] pre.mem.waiters[i]).0 != id && !(i == 0
                && pre.passes_on(id)) ==> post.mem.waiters.contains(pre.mem.waiters[i]),
{
    let before = pre.mem.waiters;
    let after = post.mem.waiters;
    lemma_step_on_the_list(pre, id, waker, seen, taken, post);
    if exists|r: int| 0 <= r < before.len() && (#[trigger] before[r]).0 == id && after
        == before.remove(r) {
        let r = choose|r: int|
            0 <= r < before.len() && (#[trigger] before[r]).0 == id && after == before.remove(r);
        assert forall|i: int|
            0 <= i < before.len() && (#[trigger] before[i]).0 != id implies after.contains(
            before[i],
        ) by {
            let k = if i < r {
                i
            } else {
                i - 1
            };
            assert(after[k] == before[i]);
        }
        assert forall|i: int, j: int|
            0 <= i < before.len() && 0 <= j < after.len() && (#[trigger] before[i]).0 == (
            #[trigger] after[j]).0 && before[i].0 != id implies before[i] == after[j] by {
            let k = if j < r {
                j
            } else {
                j + 1
            };
            assert(after[j] == before[k]);
        }
    } else if pre.passes_on(id) && before.len() > 0 && after == before.subrange(
        1,
        before.len() as int,
    ) {
        assert forall|i: int| 0 < i < before.len() implies after.contains(
            #[trigger] before[i],
        ) by {
            assert(after[i - 1] == before[i]);
        }
        assert forall|i: int, j: int|
            0 <= i < before.len() && 0 <= j < after.len() && (#[trigger] before[i]).0 == (
            #[trigger] after[j]).0 implies before[i] == after[j] by {
            assert(after[j] == before[j + 1]);
        }
    } else {
        assert forall|i: int|
            0 <= i < before.len() && (#[trigger] before[i]).0 != id implies after.contains(
            before[i],
        ) by {
            assert(after[i] == before[i]);
        }
        assert forall|i: int, j: int|
            0 <= i < before.len() && 0 <= j < after.len() && (#[trigger] before[i]).0 == (
            #[trigger] after[j]).0 && before[i].0 != id implies before[i] == after[j] by {
            if j < before.len() {
                assert(before[j].0 == after[j].0);
            }
        }
    }
}

/// Everyone is woken by its own waker, in every interleaving: every linked
/// waiter has a clone of the waker that the last poll of its own future
/// brought, and that is what an unlock takes from the first of them.
pub proof fn law_every_step_keeps_wakers(
    pre: MutexSystem,
    id: usize,
    waker: Option<Waker>,
    seen: MutexSeen,
    taken: Option<Waker>,
    post: MutexSystem,
)
    requires
        pre.excludes(),
        pre.keeps_wakers(),
        pre.step(id, waker, seen, taken, post),
    ensures
        post.keeps_wakers(),
        pre.release_went_on(id, seen, taken, post) && taken is Some ==> {
            &&& pre.mem.waiters.len() > 0
            &&& taken == Some(pre.mem.waiters[0].1)
            &&& cloned(pre.brought[pre.mem.waiters[0].0], taken->0)
        },
{
    let before = pre.mem.waiters;
    let after = post.mem.waiters;
    lemma_step_on_the_list(pre, id, waker, seen, taken, post);
    if pre.release_went_on(id, seen, taken, post) {
        let op = pre.guards[id]->Dropping_0.pending_op();
        op.law_performed(id, None, pre.mem, seen, taken, post.mem);
    }
    assert forall|j: int| 0 <= j < after.len() implies post.brought.contains_key(
        (#[trigger] after[j]).0,
    ) && cloned(post.brought[after[j].0], after[j].1) by {
        if after == before.subrange(1, before.len() as int) && before.len() > 0 {
            assert(after[j] == before[j + 1]);
        } else if exists|r: int|
            0 <= r < before.len() && (#[trigger] before[r]).0 == id && after == before.remove(r) {
            let r = choose|r: int|
                0 <= r < before.len() && (#[trigger] before[r]).0 == id && after == before.remove(
                    r,
                );
            let k = if j < r {
                j
            } else {
                j + 1
            };
            assert(after[j] == before[k]);
        } else if j < before.len() {
            assert(after[j].0 == before[j].0);
        }
    }
    law_every_step_keeps_order(pre, id, waker, seen, taken, post);
}

/// First in, first out, in every interleaving: no step brings waiters out of
/// their order, one that comes stands behind all others, and the one whose
/// waker an unlock takes is the one who has waited longest.
pub proof fn law_every_step_keeps_order(
    pre: MutexSystem,
    id: usize,
    waker: Option<Waker>,
    seen: MutexSeen,
    taken: Option<Waker>,
    post: MutexSystem,
)
    requires
        pre.excludes(),
        WaiterList::distinct(pre.mem.waiters),
        pre.step(id, waker, seen, taken, post),
    ensures
        WaiterList::in_order(pre.mem.waiters, post.mem.waiters),
        WaiterList::distinct(post.mem.waiters),
        pre.passes_on(id) && pre.release_went_on(id, seen, taken, post) ==> taken
            == WaiterList::first_waker(pre.mem.waiters),
        // of those who wait before and after, all but the one that takes the
        // step have the wakers that they had
        forall|i: int, j: int|
            0 <= i < pre.mem.waiters.len() && 0 <= j < post.mem.waiters.len() && (
            #[trigger] pre.mem.waiters[i]).0 == (#[trigger] post.mem.waiters[j]).0
                && pre.mem.waiters[i].0 != id ==> pre.mem.waiters[i] == post.mem.waiters[j],
        // and none of them leaves but the first, to be woken
        forall|i: int|
            0 <= i < pre.mem.waiters.len() && (#[trigger] pre.mem.waiters[i]).0 != id && !(i == 0
                && pre.passes_on(id)) ==> post.mem.waiters.contains(pre.mem.waiters[i]),
{
    lemma_others_stay(pre, id, waker, seen, taken, post);
    WaiterList::lemma_same_in_order(pre.mem.waiters);
    WaiterList::law_delisted_in_order(pre.mem.waiters, id);
    WaiterList::law_popped_in_order(pre.mem.waiters);
    WaiterList::law_enlisted_in_order(
        pre.mem.waiters,
        id,
        WaiterList::waker_of(post.mem.waiters, id),
    );
}

/// Every step of every future and guard, in every interleaving, leaves only
/// futures linked that are still there.
pub proof fn law_every_step_links_futures(
    pre: MutexSystem,
    id: usize,
    waker: Option<Waker>,
    seen: MutexSeen,
    taken: Option<Waker>,
    post: MutexSystem,
)
    requires
        pre.excludes(),
        pre.links_futures(),
        pre.step(id, waker, seen, taken, post),
    ensures
        post.links_futures(),
{
    let queue = pre.mem.waiters;
    law_every_step_keeps_order(pre, id, waker, seen, taken, post);
    assert forall|a: usize| #[trigger]
        WaiterList::linked(post.mem.waiters, a) implies post.futures.contains_key(a) by {
        WaiterList::lemma_enlisted_linked(
            queue,
            id,
            WaiterList::waker_of(post.mem.waiters, id),
            a,
        );
        WaiterList::lemma_delisted_linked(queue, id, a);
        if queue.len() > 0 {
            WaiterList::lemma_popped_linked(queue, a);
        }
    }
}

/// A future that was dropped is never woken: while its id is not given out
/// again, it is not linked, and an unlock takes the waker of another.
pub proof fn law_dropped_future_is_never_woken(
    pre: MutexSystem,
    id: usize,
    waker: Option<Waker>,
    seen: MutexSeen,
    taken: Option<Waker>,
    post: MutexSystem,
    gone: usize,
)
    requires
        pre.excludes(),
        pre.links_futures(),
        pre.step(id, waker, seen, taken, post),
        !pre.futures.contains_key(gone),
        !pre.created(gone, post),
    ensures
        !post.futures.contains_key(gone),
        !WaiterList::linked(post.mem.waiters, gone),
        pre.mem.waiters.len() > 0 ==> pre.mem.waiters[0].0 != gone,
{
    law_every_step_links_futures(pre, id, waker, seen, taken, post);
    if pre.mem.waiters.len() > 0 {
        WaiterList::lemma_position(pre.mem.waiters, 0);
    }
}

/// Every step keeps what is linked in order.
proof fn lemma_linked_wf(
    pre: MutexSystem,
    id: usize,
    waker: Option<Waker>,
    seen: MutexSeen,
    taken: Option<Waker>,
    post: MutexSystem,
)
    requires
        pre.excludes(),
        pre.attends_waiters(),
        pre.step(id, waker, seen, taken, post),
        !pre.drops_guard_first(id, post),
    ensures
        post.linked_wf(),
{
    law_every_step_keeps_order(pre, id, waker, seen, taken, post);
    WaiterList::law_delisted_in_order(pre.mem.waiters, id);
}

/// No wakeup is lost, in any interleaving: every step of every future and
/// guard leaves the waiters attended to. When the mutex is free while tasks
/// wait for it, someone is on the way who will try to take it, or notify one
/// of them.
///
/// Two steps are left out, after which a waiter can sleep next to a free
/// mutex: a notified future is dropped while the mutex is free, others wait,
/// and nobody else is on the way; and a guard is dropped while the finished
/// future that it came from is still linked.
pub proof fn law_every_step_attends_waiters(
    pre: MutexSystem,
    id: usize,
    waker: Option<Waker>,
    seen: MutexSeen,
    taken: Option<Waker>,
    post: MutexSystem,
)
    requires
        pre.excludes(),
        pre.attends_waiters(),
        pre.step(id, waker, seen, taken, post),
        !pre.drops_notification(id, post),
        !pre.drops_guard_first(id, post),
    ensures
        post.attends_waiters(),
{
    lemma_linked_wf(pre, id, waker, seen, taken, post);
    if !post.mem.locked && post.mem.waiters.len() > 0 {
        if pre.mem.locked {
            assert(post.on_the_way(id));
        } else if pre.release_went_on(id, seen, taken, post) && pre.passes_on(id) {
            let woken = pre.mem.waiters[0].0;
            assert(pre.futures.contains_key(woken));
            if pre.futures[woken] is Finished {
                assert(pre.owns(woken));
            } else if pre.futures[woken] == LockTask::Polling(LockPoll::Delist) {
                assert(pre.owns(woken));
            }
            assert(pre.tasks_wf());
            assert(post.on_the_way(woken));
        } else if pre.mem.waiters.len() == 0 {
            assert(post.on_the_way(id));
        } else if pre.dropped(id, post) && pre.notified.contains(id) {
            let a = choose|a: usize| a != id && #[trigger] pre.on_the_way(a);
            assert(post.on_the_way(a));
        } else {
            let a = choose|a: usize| pre.on_the_way(a);
            assert(post.on_the_way(a));
        }
    }
}

/// No waiter is left behind: once no future and no guard is in a program, and
/// tasks wait, then the mutex is held, or a notified task has yet to be
/// polled.
pub proof fn law_no_waiter_left_behind(system: MutexSystem)
    requires
        system.excludes(),
        system.attends_waiters(),
        system.quiet(),
        system.mem.waiters.len() > 0,
    ensures
        (exists|id: usize| system.owns(id)) || (exists|id: usize| system.to_be_polled(id)),
{
    if !system.mem.locked {
        let a = choose|a: usize| system.on_the_way(a);
        assert(system.to_be_polled(a));
    }
}

proof fn lemma_one_holder(
    pre: MutexSystem,
    id: usize,
    waker: Option<Waker>,
    seen: MutexSeen,
    taken: Option<Waker>,
    post: MutexSystem,
)
    requires
        pre.excludes(),
        pre.one_holder(),
        pre.step(id, waker, seen, taken, post),
    ensures
        post.one_holder(),
{
    assert forall|a: usize| #[trigger] post.polls_with_list(a) implies pre.polls_with_list(a) || (a
        == id && pre.list_free()) by {}
    assert forall|a: usize| #[trigger] post.unlocks_with_list(a) implies pre.unlocks_with_list(a)
        || (a == id && pre.list_free()) by {}
    assert(!(post.polls_with_list(id) && post.unlocks_with_list(id))) by {
        assert(!(pre.polls_with_list(id) && pre.unlocks_with_list(id)));
    }
}

/// Who has the list locked in a poll or sleeps after a step is linked.
proof fn lemma_stays_linked(
    pre: MutexSystem,
    id: usize,
    waker: Option<Waker>,
    seen: MutexSeen,
    taken: Option<Waker>,
    post: MutexSystem,
    a: usize,
)
    requires
        pre.excludes(),
        pre.links_sleepers(),
        pre.step(id, waker, seen, taken, post),
        post.polls_with_list(a) || post.asleep.contains(a),
    ensures
        WaiterList::linked(post.mem.waiters, a),
{
    let queue = pre.mem.waiters;
    WaiterList::lemma_enlisted_linked(
        queue,
        id,
        WaiterList::waker_of(post.mem.waiters, id),
        a,
    );
    WaiterList::lemma_delisted_linked(queue, id, a);
    if queue.len() > 0 {
        WaiterList::lemma_popped_linked(queue, a);
    }
    assert(!(pre.polls_with_list(a) && pre.unlocks_with_list(id)));
    if !pre.polls_with_list(a) && !pre.asleep.contains(a) {
        assert(a == id && pre.poll_went_on(id, waker, seen, post));
    }
}

/// Every step of every future and guard, in every interleaving, leaves every
/// task linked that sleeps: one that was told to wait and has not been
/// notified.
pub proof fn law_every_step_links_sleepers(
    pre: MutexSystem,
    id: usize,
    waker: Option<Waker>,
    seen: MutexSeen,
    taken: Option<Waker>,
    post: MutexSystem,
)
    requires
        pre.excludes(),
        pre.links_sleepers(),
        pre.step(id, waker, seen, taken, post),
    ensures
        post.links_sleepers(),
{
    law_every_step_keeps_order(pre, id, waker, seen, taken, post);
    lemma_one_holder(pre, id, waker, seen, taken, post);
    assert forall|a: usize| #[trigger] post.polls_with_list(a) implies WaiterList::linked(
        post.mem.waiters,
        a,
    ) by {
        lemma_stays_linked(pre, id, waker, seen, taken, post, a);
    }
    assert forall|a: usize| #[trigger] post.asleep.contains(a) implies WaiterList::linked(
        post.mem.waiters,
        a,
    ) by {
        lemma_stays_linked(pre, id, waker, seen, taken, post, a);
    }
}

/// No task sleeps next to a free mutex: once no future and no guard is in a
/// program, and the mutex is free while a task was told to wait and has not
/// been notified, another task was notified and has yet to be polled.
pub proof fn law_no_task_sleeps_next_to_a_free_mutex(system: MutexSystem, sleeper: usize)
    requires
        system.excludes(),
        system.attends_waiters(),
        system.links_sleepers(),
        system.quiet(),
        !system.mem.locked,
        system.asleep.contains(sleeper),
    ensures
        exists|a: usize| #[trigger] system.to_be_polled(a) && a != sleeper,
{
    assert(WaiterList::linked(system.mem.waiters, sleeper));
    law_no_waiter_left_behind(system);
    let a = choose|a: usize| system.to_be_polled(a);
    assert(system.to_be_polled(a) && a != sleeper);
}

/// Whoever takes a waker wakes by it, in every interleaving: the guard whose
/// step takes one carries it from then on, until the step that wakes by it.
pub proof fn law_taken_waker_is_woken_by(
    pre: MutexSystem,
    id: usize,
    waker: Option<Waker>,
    seen: MutexSeen,
    taken: Option<Waker>,
    post: MutexSystem,
    carrier: usize,
)
    requires
        pre.tasks_wf(),
        pre.step(id, waker, seen, taken, post),
    ensures
        pre.release_went_on(id, seen, taken, post) && taken is Some ==> post.carries(id),
        pre.carries(carrier) ==> post.carries(carrier) || (carrier == id && pre.wakes(id)),
        pre.quiet() ==> !pre.carries(carrier),
{
}

/// Unlocking undoes locking.
pub proof fn law_unlock_undoes_lock(
    id: usize,
    pre: MutexMem,
    seen: MutexSeen,
    locked: MutexMem,
    post: MutexMem,
)
    requires
        MutexOp::CompareExchange.performed(id, None, pre, seen, None, locked),
        seen == MutexSeen::Acquired(true),
        MutexOp::Store.performed(id, None, locked, MutexSeen::Done, None, post),
    ensures
        post == pre,
{
}

} // verus!
