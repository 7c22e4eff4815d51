//! What holds of a condition variable under every interleaving of its users.
//!
//! The system here is the list of waiters of one condition variable together
//! with all the waits on it, each at some point of its poll
//! ([`crate::condvar::WaitPoll`]). One step of the system is one step of one
//! of them, or a notification.

use crate::condvar::{WaitPoll, WaitSeen};
use crate::waiter::WaiterList;
use std::task::Waker;
use vstd::prelude::*;

verus! {

/// Where a wait is.
pub enum WaitTask {
    /// Not polled yet; it has the guard.
    Waiting,
    /// In its poll.
    Polling(WaitPoll),
    /// Between polls, waiting for a notification.
    Parked,
    /// Between polls, waiting for the mutex.
    Acquiring,
    /// It has the mutex again.
    Finished,
}

/// A condition variable with its waits, by waiter id.
pub struct CondvarSystem {
    pub waiters: Seq<(usize, Waker)>,
    pub waits: Map<usize, WaitTask>,
    /// The waits that were notified.
    pub notified: Set<usize>,
    /// The wakers that the waits left in the list when they were last polled.
    pub brought: Map<usize, Waker>,
}

impl CondvarSystem {
    /// A new condition variable.
    pub open spec fn init(self) -> bool {
        &&& self.waiters == Seq::<(usize, Waker)>::empty()
        &&& self.waits == Map::<usize, WaitTask>::empty()
    }

    /// A wait is made, under an id that is not in use.
    pub open spec fn created(self, id: usize, post: Self) -> bool {
        &&& !self.waits.contains_key(id)
        &&& post == (CondvarSystem {
            waits: self.waits.insert(id, WaitTask::Waiting),
            notified: self.notified.remove(id),
            ..self
        })
    }

    /// A wait begins to be polled.
    pub open spec fn polled(self, id: usize, post: Self) -> bool {
        &&& self.waits.contains_key(id)
        &&& match self.waits[id] {
            WaitTask::Waiting => post.waits == self.waits.insert(
                id,
                WaitTask::Polling(WaitPoll::Enlist),
            ),
            WaitTask::Parked => post.waits == self.waits.insert(
                id,
                WaitTask::Polling(WaitPoll::Check),
            ),
            WaitTask::Acquiring => post.waits == self.waits.insert(
                id,
                WaitTask::Polling(WaitPoll::Lock),
            ),
            _ => false,
        }
        &&& post.waiters == self.waiters
        &&& post.notified == self.notified
        &&& post.brought == self.brought
    }

    /// A wait goes on in its poll. The waker of its waiter becomes `waker`
    /// where the step renews it.
    pub open spec fn went_on(self, id: usize, waker: Waker, seen: WaitSeen, post: Self) -> bool {
        &&& self.waits.contains_key(id)
        &&& self.waits[id] matches WaitTask::Polling(poll)
        &&& poll.answers(seen)
        &&& poll is Check ==> seen == WaitSeen::Linked(WaiterList::linked(self.waiters, id))
        &&& post.waiters == (if poll is Enlist || seen == WaitSeen::Linked(true) {
            WaiterList::enlisted(self.waiters, id, waker)
        } else {
            self.waiters
        })
        &&& post.waits == self.waits.insert(
            id,
            match poll.after(seen) {
                WaitPoll::Parked => WaitTask::Parked,
                WaitPoll::Acquiring => WaitTask::Acquiring,
                WaitPoll::Ready => WaitTask::Finished,
                next => WaitTask::Polling(next),
            },
        )
        &&& post.notified == self.notified
        &&& post.brought == (if poll is Enlist || seen == WaitSeen::Linked(true) {
            self.brought.insert(id, waker)
        } else {
            self.brought
        })
    }

    /// The wait that has waited longest is notified, if there is one.
    pub open spec fn notified_one(self, post: Self) -> bool {
        &&& post.waiters == WaiterList::popped(self.waiters)
        &&& post.waits == self.waits
        &&& post.notified == (if self.waiters.len() > 0 {
            self.notified.insert(self.waiters[0].0)
        } else {
            self.notified
        })
        &&& post.brought == self.brought
    }

    /// All waits that are linked are notified.
    pub open spec fn notified_all(self, post: Self) -> bool {
        &&& post.waiters == Seq::<(usize, Waker)>::empty()
        &&& post.waits == self.waits
        &&& post.notified == self.notified.union(
            Set::new(|id: usize| WaiterList::linked(self.waiters, id)),
        )
        &&& post.brought == self.brought
    }

    /// A wait is dropped.
    pub open spec fn dropped(self, id: usize, post: Self) -> bool {
        &&& self.waits.contains_key(id)
        &&& !(self.waits[id] is Polling)
        &&& post.waiters == WaiterList::delisted(self.waiters, id)
        &&& post.waits == self.waits.remove(id)
        &&& post.notified == self.notified
        &&& post.brought == self.brought
    }

    /// One step of a wait, or a notification.
    pub open spec fn step(self, id: usize, waker: Waker, seen: WaitSeen, post: Self) -> bool {
        ||| self.created(id, post)
        ||| self.polled(id, post)
        ||| self.went_on(id, waker, seen, post)
        ||| self.notified_one(post)
        ||| self.notified_all(post)
        ||| self.dropped(id, post)
    }

    /// The wait of `id` has linked its waiter and does not know of a
    /// notification. From `Release` on it no longer has the mutex.
    pub open spec fn waits_for_notification(self, id: usize) -> bool {
        &&& self.waits.contains_key(id)
        &&& match self.waits[id] {
            WaitTask::Parked => true,
            WaitTask::Polling(poll) => poll is Release || poll is Leave || poll is Check,
            _ => false,
        }
    }

    /// The wait of `id` goes for the mutex again, or has it.
    pub open spec fn comes_back(self, id: usize) -> bool {
        &&& self.waits.contains_key(id)
        &&& match self.waits[id] {
            WaitTask::Acquiring | WaitTask::Finished => true,
            WaitTask::Polling(poll) => poll is Lock,
            _ => false,
        }
    }

    /// Every linked wait has the waker that it brought last itself.
    pub open spec fn keeps_wakers(self) -> bool {
        &&& forall|i: int, j: int|
            0 <= i < j < self.waiters.len() ==> (#[trigger] self.waiters[i]).0 != (
            #[trigger] self.waiters[j]).0
        &&& forall|i: int|
            0 <= i < self.waiters.len() ==> self.brought.contains_key(
                (#[trigger] self.waiters[i]).0,
            ) && self.brought[self.waiters[i].0] == self.waiters[i].1
    }

    /// Who waits for a notification is linked until it is notified, and who
    /// returns was notified.
    pub open spec fn keeps_notifications(self) -> bool {
        &&& WaiterList::distinct(self.waiters)
        &&& forall|id: usize| #[trigger]
            self.waits_for_notification(id) ==> (WaiterList::linked(self.waiters, id)
                <==> !self.notified.contains(id))
        &&& forall|id: usize| #[trigger] self.comes_back(id) ==> self.notified.contains(id)
        &&& forall|i: int|
            0 <= i < self.waiters.len() ==> self.waits_for_notification(
                (#[trigger] self.waiters[i]).0,
            )
        &&& forall|id: usize| #[trigger]
            self.waits.contains_key(id) ==> {
                &&& self.waits[id] matches WaitTask::Polling(poll) ==> !poll.finished()
                &&& self.waits[id] is Waiting || self.waits[id] == WaitTask::Polling(
                    WaitPoll::Enlist,
                ) ==> !self.notified.contains(id)
            }
    }
}

/// Nobody waits for a new condition variable.
pub proof fn law_new_condvar(system: CondvarSystem)
    requires
        system.init(),
    ensures
        system.keeps_notifications(),
        system.keeps_wakers(),
{
}

/// No notification is lost and none is made up, in any interleaving. A wait
/// links its waiter before it gives the mutex back, and from then on it is in
/// the list until a notification takes it out; and only waits that were
/// notified go for the mutex again.
pub proof fn law_every_step_keeps_notifications(
    pre: CondvarSystem,
    id: usize,
    waker: Waker,
    seen: WaitSeen,
    post: CondvarSystem,
)
    requires
        pre.keeps_notifications(),
        pre.step(id, waker, seen, post),
    ensures
        post.keeps_notifications(),
{
    let queue = pre.waiters;
    WaiterList::law_enlisted_in_order(queue, id, waker);
    WaiterList::law_delisted_in_order(queue, id);
    WaiterList::law_popped_in_order(queue);
    assert forall|a: usize| #[trigger]
        post.waits_for_notification(a) implies (WaiterList::linked(post.waiters, a)
        <==> !post.notified.contains(a)) by {
        WaiterList::lemma_enlisted_linked(queue, id, waker, a);
        WaiterList::lemma_delisted_linked(queue, id, a);
        if queue.len() > 0 {
            WaiterList::lemma_popped_linked(queue, a);
        }
        if !pre.waits_for_notification(a) {
            assert(a == id);
            assert(pre.waits[a] == WaitTask::Polling(WaitPoll::Enlist));
            assert(!pre.notified.contains(a));
        } else if pre.created(id, post) {
            assert(a != id);
        }
    }
    assert forall|i: int| 0 <= i < post.waiters.len() implies post.waits_for_notification(
        (#[trigger] post.waiters[i]).0,
    ) by {
        let a = post.waiters[i].0;
        assert(WaiterList::linked(post.waiters, a));
        WaiterList::lemma_enlisted_linked(queue, id, waker, a);
        WaiterList::lemma_delisted_linked(queue, id, a);
        if queue.len() > 0 {
            WaiterList::lemma_popped_linked(queue, a);
        }
        if WaiterList::linked(queue, a) {
            assert(queue[WaiterList::position(queue, a)].0 == a);
            assert(pre.waits_for_notification(a));
        }
    }
    assert forall|a: usize| #[trigger] post.comes_back(a) implies post.notified.contains(a) by {
        assert(pre.comes_back(a) || pre.waits_for_notification(a));
    }
}

/// What a step does to the list of waits, by their places.
proof fn lemma_step_on_the_list(
    pre: CondvarSystem,
    id: usize,
    waker: Waker,
    seen: WaitSeen,
    post: CondvarSystem,
)
    requires
        WaiterList::distinct(pre.waiters),
        pre.step(id, waker, seen, post),
    ensures
        ({
            let before = pre.waiters;
            let after = post.waiters;
            ||| after == before && post.brought == pre.brought
            ||| after.len() == 0 && post.brought == pre.brought && forall|i: int|
                0 <= i < before.len() ==> post.notified.contains((#[trigger] before[i]).0)
            ||| before.len() > 0 && after == before.subrange(1, before.len() as int)
                && post.brought == pre.brought && post.notified.contains(before[0].0)
            ||| post.brought == pre.brought && exists|i: int|
                0 <= i < before.len() && (#[trigger] before[i]).0 == id && after == before.remove(i)
            ||| post.brought == pre.brought.insert(id, waker) && exists|i: int|
                0 <= i < before.len() && (#[trigger] before[i]).0 == id && after == before.update(
                    i,
                    (id, waker),
                )
            ||| post.brought == pre.brought.insert(id, waker) && after == before.push((id, waker))
                && forall|i: int| 0 <= i < before.len() ==> (#[trigger] before[i]).0 != id
        }),
{
    WaiterList::lemma_enlisted_at(pre.waiters, id, waker);
    WaiterList::lemma_delisted_at(pre.waiters, id);
    WaiterList::law_popped_touches_nobody_else(pre.waiters);
    if pre.waiters.len() > 0 {
        assert(WaiterList::popped(pre.waiters) =~= pre.waiters.subrange(
            1,
            pre.waiters.len() as int,
        ));
    }
}

/// Who does not take the step stays in the list with its own waker, unless it
/// is notified.
proof fn lemma_others_stay(
    pre: CondvarSystem,
    id: usize,
    waker: Waker,
    seen: WaitSeen,
    post: CondvarSystem,
)
    requires
        WaiterList::distinct(pre.waiters),
        pre.step(id, waker, seen, post),
    ensures
        forall|i: int, j: int|
            0 <= i < pre.waiters.len() && 0 <= j < post.waiters.len() && (
            #[trigger] pre.waiters[i]).0 == (#[trigger] post.waiters[j]).0 && pre.waiters[i].0 != id
                ==> pre.waiters[i] == post.waiters[j],
        forall|i: int|
            0 <= i < pre.waiters.len() && (#[trigger] pre.waiters[i]).0 != id
                ==> post.waiters.contains(pre.waiters[i]) || post.notified.contains(
                pre.waiters[i].0,
            ),
{
    let before = pre.waiters;
    let after = post.waiters;
    lemma_step_on_the_list(pre, id, waker, seen, post);
    if exists|r: int| 0 <= r < before.len() && (#[trigger] before[r]).0 == id && after
        == before.remove(r) {
        let r = choose|r: int|
            0 <= r < before.len() && (#[trigger] before[r]).0 == id && after == before.remove(r);
        assert forall|i: int|
            0 <= i < before.len() && (#[trigger] before[i]).0 != id implies after.contains(
            before[i],
        ) by {
            let k = if i < r {
                i
            } else {
                i - 1
            };
            assert(after[k] == before[i]);
        }
        assert forall|i: int, j: int|
            0 <= i < before.len() && 0 <= j < after.len() && (#[trigger] before[i]).0 == (
            #[trigger] after[j]).0 && before[i].0 != id implies before[i] == after[j] by {
            let k = if j < r {
                j
            } else {
                j + 1
            };
            assert(after[j] == before[k]);
        }
    } else if before.len() > 0 && after == before.subrange(1, before.len() as int) {
        assert forall|i: int| 0 < i < before.len() implies after.contains(
            #[trigger] before[i],
        ) by {
            assert(after[i - 1] == before[i]);
        }
        assert forall|i: int, j: int|
            0 <= i < before.len() && 0 <= j < after.len() && (#[trigger] before[i]).0 == (
            #[trigger] after[j]).0 implies before[i] == after[j] by {
            assert(after[j] == before[j + 1]);
        }
    } else if after.len() > 0 {
        assert forall|i: int|
            0 <= i < before.len() && (#[trigger] before[i]).0 != id implies after.contains(
            before[i],
        ) by {
            assert(after[i] == before[i]);
        }
        assert forall|i: int, j: int|
            0 <= i < before.len() && 0 <= j < after.len() && (#[trigger] before[i]).0 == (
            #[trigger] after[j]).0 && before[i].0 != id implies before[i] == after[j] by {
            if j < before.len() {
                assert(before[j].0 == after[j].0);
            }
        }
    }
}

/// Everyone is woken by its own waker, in every interleaving: every linked wait
/// has the waker that its own last poll brought, and those are the wakers that
/// a notification takes.
pub proof fn law_every_step_keeps_wakers(
    pre: CondvarSystem,
    id: usize,
    waker: Waker,
    seen: WaitSeen,
    post: CondvarSystem,
)
    requires
        pre.keeps_wakers(),
        pre.step(id, waker, seen, post),
    ensures
        post.keeps_wakers(),
        pre.waiters.len() > 0 ==> WaiterList::first_waker(pre.waiters) == Some(
            pre.brought[pre.waiters[0].0],
        ),
{
    let before = pre.waiters;
    let after = post.waiters;
    lemma_step_on_the_list(pre, id, waker, seen, post);
    WaiterList::law_popped_touches_nobody_else(before);
    assert forall|j: int| 0 <= j < after.len() implies post.brought.contains_key(
        (#[trigger] after[j]).0,
    ) && post.brought[after[j].0] == after[j].1 by {
        if after == before.subrange(1, before.len() as int) && before.len() > 0 {
            assert(after[j] == before[j + 1]);
        } else if exists|r: int|
            0 <= r < before.len() && (#[trigger] before[r]).0 == id && after == before.remove(r) {
            let r = choose|r: int|
                0 <= r < before.len() && (#[trigger] before[r]).0 == id && after == before.remove(
                    r,
                );
            let k = if j < r {
                j
            } else {
                j + 1
            };
            assert(after[j] == before[k]);
        } else if j < before.len() {
            assert(after[j].0 == before[j].0);
        }
    }
    law_every_step_keeps_order(pre, id, waker, seen, post);
}

/// A wait that was dropped is never woken: while its id is not given out again,
/// it is not linked, neither before a step nor after it.
pub proof fn law_dropped_wait_is_never_woken(
    pre: CondvarSystem,
    id: usize,
    waker: Waker,
    seen: WaitSeen,
    post: CondvarSystem,
    gone: usize,
)
    requires
        pre.keeps_notifications(),
        pre.step(id, waker, seen, post),
        !pre.waits.contains_key(gone),
        !pre.created(gone, post),
    ensures
        !post.waits.contains_key(gone),
        !WaiterList::linked(pre.waiters, gone),
        !WaiterList::linked(post.waiters, gone),
{
    law_every_step_keeps_notifications(pre, id, waker, seen, post);
    if WaiterList::linked(pre.waiters, gone) {
        assert(pre.waiters[WaiterList::position(pre.waiters, gone)].0 == gone);
        assert(pre.waits_for_notification(gone));
    }
    if WaiterList::linked(post.waiters, gone) {
        assert(post.waiters[WaiterList::position(post.waiters, gone)].0 == gone);
        assert(post.waits_for_notification(gone));
    }
}

/// First in, first out, in every interleaving: no step brings waits out of
/// their order, and one that comes stands behind all others. So a notification
/// goes to the one who has waited longest.
pub proof fn law_every_step_keeps_order(
    pre: CondvarSystem,
    id: usize,
    waker: Waker,
    seen: WaitSeen,
    post: CondvarSystem,
)
    requires
        WaiterList::distinct(pre.waiters),
        pre.step(id, waker, seen, post),
    ensures
        WaiterList::in_order(pre.waiters, post.waiters),
        // of those who wait before and after, all but the one that takes the
        // step have the wakers that they had
        forall|i: int, j: int|
            0 <= i < pre.waiters.len() && 0 <= j < post.waiters.len() && (
            #[trigger] pre.waiters[i]).0 == (#[trigger] post.waiters[j]).0 && pre.waiters[i].0 != id
                ==> pre.waiters[i] == post.waiters[j],
        // and none of them leaves but to be notified
        forall|i: int|
            0 <= i < pre.waiters.len() && (#[trigger] pre.waiters[i]).0 != id
                ==> post.waiters.contains(pre.waiters[i]) || post.notified.contains(
                pre.waiters[i].0,
            ),
{
    lemma_others_stay(pre, id, waker, seen, post);
    WaiterList::lemma_same_in_order(pre.waiters);
    WaiterList::law_enlisted_in_order(pre.waiters, id, waker);
    WaiterList::law_delisted_in_order(pre.waiters, id);
    WaiterList::law_popped_in_order(pre.waiters);
}

} // verus!
