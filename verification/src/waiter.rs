//! Waiters, and the first-in first-out list that they are linked into.

use std::collections::VecDeque;
use std::task::Waker;
use vstd::prelude::*;

verus! {

/// A task that waits: the id of its future, and the waker that its last poll
/// left behind. A waiter that is linked into a list has a waker; the one who
/// unlinks it takes the waker away.
pub struct Waiter {
    id: usize,
    waker: Option<Waker>,
}

impl Waiter {
    /// The id of the future that waits.
    pub closed spec fn id(self) -> usize {
        self.id
    }

    /// The waker to wake the task by, if it is set.
    pub closed spec fn waker(self) -> Option<Waker> {
        self.waker
    }

    /// A waiter without a waker.
    pub fn new(id: usize) -> (waiter: Self)
        ensures
            waiter.id() == id,
            waiter.waker() is None,
    {
        Waiter { id, waker: None }
    }

    /// Sets the waker, in place of an earlier one.
    pub fn add_waker(&mut self, val: Waker)
        ensures
            final(self).id() == old(self).id(),
            final(self).waker() == Some(val),
    {
        self.waker = Some(val);
    }

    /// Takes the waker away.
    pub fn take_waker(&mut self) -> (waker: Option<Waker>)
        ensures
            final(self).id() == old(self).id(),
            final(self).waker() is None,
            waker == old(self).waker(),
    {
        self.waker.take()
    }
}

/// The waiters of a lock or of a condition variable, longest waiting first.
///
/// Its view is the sequence of their ids and wakers, front first.
pub struct WaiterList {
    waiters: VecDeque<Waiter>,
}

impl View for WaiterList {
    type V = Seq<(usize, Waker)>;

    closed spec fn view(&self) -> Seq<(usize, Waker)> {
        Seq::new(
            self.waiters@.len(),
            |i: int| (self.waiters@[i].id(), self.waiters@[i].waker()->0),
        )
    }
}

impl WaiterList {
    /// Waiter `id` stands in `queue`.
    pub open spec fn linked(queue: Seq<(usize, Waker)>, id: usize) -> bool {
        exists|i: int| 0 <= i < queue.len() && (#[trigger] queue[i]).0 == id
    }

    /// Where waiter `id` stands in `queue`.
    pub open spec fn position(queue: Seq<(usize, Waker)>, id: usize) -> int {
        choose|i: int| 0 <= i < queue.len() && (#[trigger] queue[i]).0 == id
    }

    /// The waker of waiter `id` in `queue`.
    pub open spec fn waker_of(queue: Seq<(usize, Waker)>, id: usize) -> Waker {
        queue[Self::position(queue, id)].1
    }

    /// No waiter stands in `queue` twice.
    pub open spec fn distinct(queue: Seq<(usize, Waker)>) -> bool {
        forall|i: int, j: int|
            0 <= i < j < queue.len() ==> (#[trigger] queue[i]).0 != (#[trigger] queue[j]).0
    }

    /// `queue` with waiter `id` in it: one that stands there keeps its place
    /// and gets the new waker, another is linked at the back.
    pub open spec fn enlisted(
        queue: Seq<(usize, Waker)>,
        id: usize,
        waker: Waker,
    ) -> Seq<(usize, Waker)> {
        if Self::linked(queue, id) {
            queue.update(Self::position(queue, id), (id, waker))
        } else {
            queue.push((id, waker))
        }
    }

    /// `queue` without waiter `id`.
    pub open spec fn delisted(queue: Seq<(usize, Waker)>, id: usize) -> Seq<(usize, Waker)> {
        if Self::linked(queue, id) {
            queue.remove(Self::position(queue, id))
        } else {
            queue
        }
    }

    /// `queue` without its first waiter.
    pub open spec fn popped(queue: Seq<(usize, Waker)>) -> Seq<(usize, Waker)> {
        if queue.len() == 0 {
            queue
        } else {
            queue.drop_first()
        }
    }

    /// The waker of the first waiter of `queue`.
    pub open spec fn first_waker(queue: Seq<(usize, Waker)>) -> Option<Waker> {
        if queue.len() == 0 {
            None
        } else {
            Some(queue[0].1)
        }
    }

    /// `after` keeps the order of `before`: of two waiters that stand in both,
    /// the first stays the first, and one that is new stands behind all
    /// others.
    pub open spec fn in_order(before: Seq<(usize, Waker)>, after: Seq<(usize, Waker)>) -> bool {
        forall|i: int, j: int|
            0 <= i < j < after.len() ==> {
                &&& (#[trigger] after[i]).0 != (#[trigger] after[j]).0
                &&& Self::linked(before, after[i].0)
                &&& Self::linked(before, after[j].0) ==> Self::position(before, after[i].0)
                    < Self::position(before, after[j].0)
            }
    }

    /// Every linked waiter has a waker, and none is linked twice.
    pub closed spec fn wf(self) -> bool {
        &&& forall|i: int|
            0 <= i < self.waiters@.len() ==> (#[trigger] self.waiters@[i]).waker() is Some
        &&& Self::distinct(self@)
    }

    /// The ids of a well-formed list differ from each other.
    pub proof fn lemma_wf(self)
        requires
            self.wf(),
        ensures
            Self::distinct(self@),
            forall|i: int, j: int|
                0 <= i < j < self@.len() ==> (#[trigger] self@[i]).0 != (#[trigger] self@[j]).0,
    {
    }

    /// A list without waiters.
    pub fn new() -> (list: Self)
        ensures
            list.wf(),
            list@ == Seq::<(usize, Waker)>::empty(),
    {
        let list = WaiterList { waiters: VecDeque::new() };
        assert(list@ =~= Seq::empty());
        list
    }

    /// Where waiter `id` stands, if it is linked.
    fn find(&self, id: usize) -> (found: Option<usize>)
        ensures
            found is Some <==> Self::linked(self@, id),
            found matches Some(i) ==> i < self@.len() && self@[i as int].0 == id,
    {
        let mut i: usize = 0;
        while i < self.waiters.len()
            invariant
                i <= self.waiters@.len(),
                forall|j: int| 0 <= j < i ==> (#[trigger] self@[j]).0 != id,
            decreases self.waiters@.len() - i,
        {
            if self.waiters[i].id == id {
                assert(self@[i as int].0 == id);
                return Some(i);
            }
            i += 1;
        }
        None
    }

    /// Where a waiter of a list without repetitions stands.
    pub proof fn lemma_position(queue: Seq<(usize, Waker)>, i: int)
        requires
            Self::distinct(queue),
            0 <= i < queue.len(),
        ensures
            Self::linked(queue, queue[i].0),
            Self::position(queue, queue[i].0) == i,
    {
        let id = queue[i].0;
        assert(queue[i].0 == id);
        let p = Self::position(queue, id);
        assert(0 <= p < queue.len() && queue[p].0 == id);
        if p < i {
            assert(queue[p].0 != queue[i].0);
        } else if i < p {
            assert(queue[i].0 != queue[p].0);
        }
    }

    /// A waiter is linked if its id stands in the list, and its waker is the one
    /// that stands beside it.
    pub proof fn law_linked_with_its_waker(queue: Seq<(usize, Waker)>, id: usize)
        requires
            forall|i: int, j: int|
                0 <= i < j < queue.len() ==> (#[trigger] queue[i]).0 != (#[trigger] queue[j]).0,
        ensures
            Self::distinct(queue),
            Self::linked(queue, id) <==> exists|i: int|
                0 <= i < queue.len() && (#[trigger] queue[i]).0 == id,
            forall|i: int|
                0 <= i < queue.len() && (#[trigger] queue[i]).0 == id ==> Self::waker_of(queue, id)
                    == queue[i].1,
    {
        assert forall|i: int| 0 <= i < queue.len() && (#[trigger] queue[i]).0 == id implies
            Self::waker_of(queue, id) == queue[i].1 by {
            Self::lemma_position(queue, i);
        }
    }

    /// Linking a waiter, or renewing its waker, touches nobody else: whoever
    /// stood in the list stands at the same place with the same waker. The
    /// waiter itself has the new waker, at its old place if it had one and else
    /// behind all others.
    pub proof fn law_enlisted_touches_nobody_else(
        queue: Seq<(usize, Waker)>,
        id: usize,
        waker: Waker,
    )
        requires
            forall|i: int, j: int|
                0 <= i < j < queue.len() ==> (#[trigger] queue[i]).0 != (#[trigger] queue[j]).0,
        ensures
            ({
                let after = Self::enlisted(queue, id, waker);
                &&& forall|i: int|
                    0 <= i < queue.len() && (#[trigger] queue[i]).0 != id ==> after[i] == queue[i]
                &&& forall|i: int|
                    0 <= i < queue.len() && (#[trigger] queue[i]).0 == id ==> after[i] == (
                        id,
                        waker,
                    ) && after.len() == queue.len()
                &&& (forall|i: int| 0 <= i < queue.len() ==> (#[trigger] queue[i]).0 != id)
                    ==> after.len() == queue.len() + 1 && after[queue.len() as int] == (id, waker)
            }),
    {
        if Self::linked(queue, id) {
            let at = Self::position(queue, id);
            assert(queue[at].0 == id);
        }
    }

    /// Unlinking a waiter touches nobody else: those before it stay where they
    /// are with their own wakers, those behind it move up by one with theirs,
    /// and neither its id nor its waker is left behind. Without that waiter the
    /// list stays as it is.
    pub proof fn law_delisted_touches_nobody_else(queue: Seq<(usize, Waker)>, id: usize)
        requires
            forall|i: int, j: int|
                0 <= i < j < queue.len() ==> (#[trigger] queue[i]).0 != (#[trigger] queue[j]).0,
        ensures
            ({
                let after = Self::delisted(queue, id);
                &&& forall|at: int|
                    0 <= at < queue.len() && (#[trigger] queue[at]).0 == id ==> after.len()
                        == queue.len() - 1 && (forall|i: int|
                        0 <= i < at ==> #[trigger] after[i] == queue[i]) && (forall|i: int|
                        at <= i < after.len() ==> #[trigger] after[i] == queue[i + 1])
                &&& (forall|i: int| 0 <= i < queue.len() ==> (#[trigger] queue[i]).0 != id)
                    ==> after == queue
            }),
    {
        assert forall|at: int| 0 <= at < queue.len() && (#[trigger] queue[at]).0 == id implies
            Self::delisted(queue, id) == queue.remove(at) by {
            Self::lemma_position(queue, at);
        }
    }

    /// The first waiter leaves with its own waker, and all others move up by
    /// one with theirs.
    pub proof fn law_popped_touches_nobody_else(queue: Seq<(usize, Waker)>)
        ensures
            ({
                let after = Self::popped(queue);
                &&& queue.len() == 0 ==> after.len() == 0 && Self::first_waker(queue) is None
                &&& queue.len() > 0 ==> {
                    &&& after.len() == queue.len() - 1
                    &&& forall|i: int| 0 <= i < after.len() ==> #[trigger] after[i] == queue[i + 1]
                    &&& Self::first_waker(queue) == Some(queue[0].1)
                }
            }),
    {
    }

    /// What is linked and then unlinked again leaves the list as it was.
    pub proof fn law_delisting_undoes_enlisting(
        queue: Seq<(usize, Waker)>,
        id: usize,
        waker: Waker,
    )
        requires
            forall|i: int, j: int|
                0 <= i < j < queue.len() ==> (#[trigger] queue[i]).0 != (#[trigger] queue[j]).0,
            forall|i: int| 0 <= i < queue.len() ==> (#[trigger] queue[i]).0 != id,
        ensures
            Self::delisted(Self::enlisted(queue, id, waker), id) == queue,
    {
        let after = Self::enlisted(queue, id, waker);
        Self::law_enlisted_touches_nobody_else(queue, id, waker);
        assert(after[queue.len() as int].0 == id);
        Self::law_delisted_touches_nobody_else(after, id);
        assert(Self::delisted(after, id) =~= queue);
    }

    /// The list after waiter `id` was enlisted, by the place of the waiter.
    pub proof fn lemma_enlisted_at(queue: Seq<(usize, Waker)>, id: usize, waker: Waker)
        requires
            Self::distinct(queue),
        ensures
            forall|i: int|
                0 <= i < queue.len() && (#[trigger] queue[i]).0 == id ==> Self::enlisted(
                    queue,
                    id,
                    waker,
                ) == queue.update(i, (id, waker)),
            (forall|i: int| 0 <= i < queue.len() ==> (#[trigger] queue[i]).0 != id)
                ==> Self::enlisted(queue, id, waker) == queue.push((id, waker)),
    {
        assert forall|i: int| 0 <= i < queue.len() && (#[trigger] queue[i]).0 == id implies
            Self::enlisted(queue, id, waker) == queue.update(i, (id, waker)) by {
            Self::lemma_position(queue, i);
        }
    }

    /// The list after waiter `id` was unlinked, by the place of the waiter.
    pub proof fn lemma_delisted_at(queue: Seq<(usize, Waker)>, id: usize)
        requires
            Self::distinct(queue),
        ensures
            forall|i: int|
                0 <= i < queue.len() && (#[trigger] queue[i]).0 == id ==> Self::delisted(queue, id)
                    == queue.remove(i),
            (forall|i: int| 0 <= i < queue.len() ==> (#[trigger] queue[i]).0 != id)
                ==> Self::delisted(queue, id) == queue,
    {
        assert forall|i: int| 0 <= i < queue.len() && (#[trigger] queue[i]).0 == id implies
            Self::delisted(queue, id) == queue.remove(i) by {
            Self::lemma_position(queue, i);
        }
    }

    /// `n` waiters that are linked one after the other into an empty list are
    /// unlinked in the same order, each with its own waker.
    pub proof fn law_first_in_first_out(waiters: Seq<(usize, Waker)>, n: nat)
        requires
            forall|i: int, j: int|
                0 <= i < j < waiters.len() ==> (#[trigger] waiters[i]).0 != (
                #[trigger] waiters[j]).0,
            n <= waiters.len(),
        ensures
            Self::all_enlisted(waiters) == waiters,
            Self::all_popped(Self::all_enlisted(waiters), n) == waiters.skip(n as int),
            n < waiters.len() ==> Self::first_waker(
                Self::all_popped(Self::all_enlisted(waiters), n),
            ) == Some(waiters[n as int].1),
    {
        Self::lemma_all_enlisted(waiters);
        Self::lemma_all_popped(waiters, n);
    }

    /// The list into which `waiters` were linked one after the other.
    pub open spec fn all_enlisted(waiters: Seq<(usize, Waker)>) -> Seq<(usize, Waker)>
        decreases waiters.len(),
    {
        if waiters.len() == 0 {
            Seq::empty()
        } else {
            Self::enlisted(
                Self::all_enlisted(waiters.drop_last()),
                waiters.last().0,
                waiters.last().1,
            )
        }
    }

    /// The list from which the first waiter was unlinked `n` times.
    pub open spec fn all_popped(queue: Seq<(usize, Waker)>, n: nat) -> Seq<(usize, Waker)>
        decreases n,
    {
        if n == 0 {
            queue
        } else {
            Self::popped(Self::all_popped(queue, (n - 1) as nat))
        }
    }

    proof fn lemma_all_enlisted(waiters: Seq<(usize, Waker)>)
        requires
            forall|i: int, j: int|
                0 <= i < j < waiters.len() ==> (#[trigger] waiters[i]).0 != (
                #[trigger] waiters[j]).0,
        ensures
            Self::all_enlisted(waiters) == waiters,
        decreases waiters.len(),
    {
        if waiters.len() > 0 {
            let rest = waiters.drop_last();
            Self::lemma_all_enlisted(rest);
            Self::law_enlisted_touches_nobody_else(rest, waiters.last().0, waiters.last().1);
            assert(Self::all_enlisted(waiters) =~= waiters);
        } else {
            assert(Self::all_enlisted(waiters) =~= waiters);
        }
    }

    proof fn lemma_all_popped(queue: Seq<(usize, Waker)>, n: nat)
        requires
            n <= queue.len(),
        ensures
            Self::all_popped(queue, n) == queue.skip(n as int),
        decreases n,
    {
        if n > 0 {
            Self::lemma_all_popped(queue, (n - 1) as nat);
            Self::law_popped_touches_nobody_else(Self::all_popped(queue, (n - 1) as nat));
        }
        assert(Self::all_popped(queue, n) =~= queue.skip(n as int));
    }

    /// Who comes is linked at the back, who comes again keeps its place.
    pub proof fn law_enlisted_in_order(queue: Seq<(usize, Waker)>, id: usize, waker: Waker)
        requires
            Self::distinct(queue),
        ensures
            Self::in_order(queue, Self::enlisted(queue, id, waker)),
    {
        let after = Self::enlisted(queue, id, waker);
        assert forall|i: int, j: int| 0 <= i < j < after.len() implies {
            &&& (#[trigger] after[i]).0 != (#[trigger] after[j]).0
            &&& Self::linked(queue, after[i].0)
            &&& Self::linked(queue, after[j].0) ==> Self::position(queue, after[i].0)
                < Self::position(queue, after[j].0)
        } by {
            assert(after[i].0 == queue[i].0);
            Self::lemma_position(queue, i);
            if j < queue.len() {
                assert(after[j].0 == queue[j].0);
                Self::lemma_position(queue, j);
            }
        }
    }

    /// Who leaves does not change the order of the others, and is gone.
    pub proof fn law_delisted_in_order(queue: Seq<(usize, Waker)>, id: usize)
        requires
            Self::distinct(queue),
        ensures
            Self::in_order(queue, Self::delisted(queue, id)),
            !Self::linked(Self::delisted(queue, id), id),
    {
        let after = Self::delisted(queue, id);
        let at = Self::position(queue, id);
        if Self::linked(queue, id) {
            assert forall|i: int, j: int| 0 <= i < j < after.len() implies {
                &&& (#[trigger] after[i]).0 != (#[trigger] after[j]).0
                &&& Self::linked(queue, after[i].0)
                &&& Self::linked(queue, after[j].0) ==> Self::position(queue, after[i].0)
                    < Self::position(queue, after[j].0)
            } by {
                Self::lemma_position(
                    queue,
                    if i < at {
                        i
                    } else {
                        i + 1
                    },
                );
                Self::lemma_position(
                    queue,
                    if j < at {
                        j
                    } else {
                        j + 1
                    },
                );
            }
        } else {
            Self::lemma_same_in_order(queue);
        }
    }

    /// Who is woken is the one who has waited longest, and the others stay in
    /// order.
    pub proof fn law_popped_in_order(queue: Seq<(usize, Waker)>)
        requires
            Self::distinct(queue),
        ensures
            Self::in_order(queue, Self::popped(queue)),
            queue.len() > 0 ==> !Self::linked(Self::popped(queue), queue[0].0),
    {
        let after = Self::popped(queue);
        assert forall|i: int, j: int| 0 <= i < j < after.len() implies {
            &&& (#[trigger] after[i]).0 != (#[trigger] after[j]).0
            &&& Self::linked(queue, after[i].0)
            &&& Self::linked(queue, after[j].0) ==> Self::position(queue, after[i].0)
                < Self::position(queue, after[j].0)
        } by {
            Self::lemma_position(queue, i + 1);
            Self::lemma_position(queue, j + 1);
        }
    }

    /// A list is in its own order.
    pub proof fn lemma_same_in_order(queue: Seq<(usize, Waker)>)
        requires
            Self::distinct(queue),
        ensures
            Self::in_order(queue, queue),
    {
        assert forall|i: int, j: int| 0 <= i < j < queue.len() implies {
            &&& (#[trigger] queue[i]).0 != (#[trigger] queue[j]).0
            &&& Self::linked(queue, queue[i].0)
            &&& Self::linked(queue, queue[j].0) ==> Self::position(queue, queue[i].0)
                < Self::position(queue, queue[j].0)
        } by {
            Self::lemma_position(queue, i);
            Self::lemma_position(queue, j);
        }
    }

    /// Who stands in the list after waiter `id` was enlisted.
    pub proof fn lemma_enlisted_linked(
        queue: Seq<(usize, Waker)>,
        id: usize,
        waker: Waker,
        other: usize,
    )
        requires
            Self::distinct(queue),
        ensures
            Self::linked(Self::enlisted(queue, id, waker), other) <==> other == id || Self::linked(
                queue,
                other,
            ),
    {
        let after = Self::enlisted(queue, id, waker);
        let at = Self::position(queue, id);
        if Self::linked(queue, id) {
            assert(after[at].0 == id);
        } else {
            assert(after[queue.len() as int].0 == id);
        }
        if Self::linked(queue, other) {
            let p = Self::position(queue, other);
            assert(queue[p].0 == other);
            assert(after[p].0 == other);
        }
        if Self::linked(after, other) {
            let p = Self::position(after, other);
            assert(after[p].0 == other);
            if p < queue.len() {
                assert(queue[p].0 == other);
            }
        }
    }

    /// Who stands in the list after waiter `id` was unlinked.
    pub proof fn lemma_delisted_linked(queue: Seq<(usize, Waker)>, id: usize, other: usize)
        requires
            Self::distinct(queue),
        ensures
            Self::linked(Self::delisted(queue, id), other) <==> other != id && Self::linked(
                queue,
                other,
            ),
    {
        Self::law_delisted_in_order(queue, id);
        let after = Self::delisted(queue, id);
        let at = Self::position(queue, id);
        if Self::linked(queue, id) {
            if other != id && Self::linked(queue, other) {
                let p = Self::position(queue, other);
                assert(queue[p].0 == other);
                let k = if p < at {
                    p
                } else {
                    p - 1
                };
                assert(after[k].0 == other);
            }
            if Self::linked(after, other) {
                let p = Self::position(after, other);
                assert(after[p].0 == other);
                let k = if p < at {
                    p
                } else {
                    p + 1
                };
                assert(queue[k].0 == other);
            }
        }
    }

    /// Who stands in the list after its first waiter was unlinked.
    pub proof fn lemma_popped_linked(queue: Seq<(usize, Waker)>, other: usize)
        requires
            Self::distinct(queue),
            queue.len() > 0,
        ensures
            Self::linked(Self::popped(queue), other) <==> other != queue[0].0 && Self::linked(
                queue,
                other,
            ),
    {
        Self::law_popped_in_order(queue);
        let after = Self::popped(queue);
        if other != queue[0].0 && Self::linked(queue, other) {
            let p = Self::position(queue, other);
            assert(queue[p].0 == other);
            assert(after[p - 1].0 == other);
        }
        if Self::linked(after, other) {
            let p = Self::position(after, other);
            assert(after[p].0 == other);
            assert(queue[p + 1].0 == other);
        }
    }

    /// Gives the linked waiter at `i` a clone of `waker`.
    fn replace_waker(&mut self, i: usize, waker: &Waker)
        requires
            old(self).wf(),
            i < old(self)@.len(),
        ensures
            final(self).wf(),
            final(self)@.len() == old(self)@.len(),
            final(self)@ == old(self)@.update(
                i as int,
                (old(self)@[i as int].0, final(self)@[i as int].1),
            ),
            cloned(*waker, final(self)@[i as int].1),
    {
        if let Some(mut waiter) = self.waiters.remove(i) {
            waiter.add_waker(waker.clone());
            self.waiters.insert(i, waiter);
        }
        assert(self.waiters@ =~= old(self).waiters@.update(i as int, self.waiters@[i as int]));
        assert(self@ =~= old(self)@.update(i as int, (old(self)@[i as int].0, self@[i as int].1)));
    }

    /// Links waiter `id` at the back with a clone of `waker`; one that is
    /// linked already keeps its place and only gets the new waker.
    pub fn enlist(&mut self, id: usize, waker: &Waker)
        requires
            old(self).wf(),
        ensures
            final(self).wf(),
            Self::linked(final(self)@, id),
            final(self)@ == Self::enlisted(old(self)@, id, Self::waker_of(final(self)@, id)),
            cloned(*waker, Self::waker_of(final(self)@, id)),
            // one that is linked keeps its place
            forall|i: int|
                0 <= i < old(self)@.len() && (#[trigger] old(self)@[i]).0 == id ==> final(self)@
                    == old(self)@.update(i, (id, final(self)@[i].1)) && cloned(
                    *waker,
                    final(self)@[i].1,
                ),
            // another is linked at the back
            (forall|i: int| 0 <= i < old(self)@.len() ==> (#[trigger] old(self)@[i]).0 != id) ==> {
                &&& final(self)@ == old(self)@.push((id, final(self)@[old(self)@.len() as int].1))
                &&& cloned(*waker, final(self)@[old(self)@.len() as int].1)
            },
    {
        match self.find(id) {
            Some(i) => {
                self.replace_waker(i, waker);
                proof {
                    Self::lemma_position(old(self)@, i as int);
                    Self::lemma_position(self@, i as int);
                    assert forall|j: int|
                        0 <= j < old(self)@.len() && (#[trigger] old(self)@[j]).0 == id implies j
                        == i by {
                        Self::lemma_position(old(self)@, j);
                    }
                }
            },
            None => {
                let mut waiter = Waiter::new(id);
                waiter.add_waker(waker.clone());
                self.waiters.push_back(waiter);
                proof {
                    let last = old(self)@.len() as int;
                    assert(self@ =~= old(self)@.push(self@[last]));
                    assert(forall|j: int| 0 <= j < last ==> self@[j] == old(self)@[j]);
                    Self::lemma_position(self@, last);
                }
            },
        }
    }

    /// Gives waiter `id`, if it is linked, a clone of `waker`. Says whether it
    /// is linked.
    pub fn refresh(&mut self, id: usize, waker: &Waker) -> (linked: bool)
        requires
            old(self).wf(),
        ensures
            final(self).wf(),
            linked == Self::linked(old(self)@, id),
            linked == Self::linked(final(self)@, id),
            linked ==> {
                &&& final(self)@ == Self::enlisted(
                    old(self)@,
                    id,
                    Self::waker_of(final(self)@, id),
                )
                &&& cloned(*waker, Self::waker_of(final(self)@, id))
            },
            !linked ==> final(self)@ == old(self)@,
            linked <==> exists|i: int|
                0 <= i < old(self)@.len() && (#[trigger] old(self)@[i]).0 == id,
            forall|i: int|
                0 <= i < old(self)@.len() && (#[trigger] old(self)@[i]).0 == id ==> final(self)@
                    == old(self)@.update(i, (id, final(self)@[i].1)) && cloned(
                    *waker,
                    final(self)@[i].1,
                ),
    {
        match self.find(id) {
            Some(i) => {
                self.replace_waker(i, waker);
                proof {
                    Self::lemma_position(old(self)@, i as int);
                    Self::lemma_position(self@, i as int);
                    assert forall|j: int|
                        0 <= j < old(self)@.len() && (#[trigger] old(self)@[j]).0 == id implies j
                        == i by {
                        Self::lemma_position(old(self)@, j);
                    }
                }
                true
            },
            None => false,
        }
    }

    /// Unlinks waiter `id`. Says whether it was linked.
    pub fn remove(&mut self, id: usize) -> (linked: bool)
        requires
            old(self).wf(),
        ensures
            final(self).wf(),
            linked == Self::linked(old(self)@, id),
            final(self)@ == Self::delisted(old(self)@, id),
            !Self::linked(final(self)@, id),
            linked <==> exists|i: int|
                0 <= i < old(self)@.len() && (#[trigger] old(self)@[i]).0 == id,
            forall|i: int|
                0 <= i < old(self)@.len() && (#[trigger] old(self)@[i]).0 == id ==> final(self)@
                    == old(self)@.remove(i),
            !linked ==> final(self)@ == old(self)@,
    {
        match self.find(id) {
            Some(i) => {
                let _ = self.waiters.remove(i);
                proof {
                    Self::lemma_position(old(self)@, i as int);
                    assert(self@ =~= old(self)@.remove(i as int));
                    Self::law_delisted_in_order(old(self)@, id);
                    assert forall|j: int|
                        0 <= j < old(self)@.len() && (#[trigger] old(self)@[j]).0 == id implies j
                        == i by {
                        Self::lemma_position(old(self)@, j);
                    }
                }
                true
            },
            None => false,
        }
    }

    /// Unlinks the first waiter and takes its waker.
    pub fn pop_front(&mut self) -> (waker: Option<Waker>)
        requires
            old(self).wf(),
        ensures
            final(self).wf(),
            waker == Self::first_waker(old(self)@),
            final(self)@ == Self::popped(old(self)@),
            old(self)@.len() == 0 ==> waker is None && final(self)@ == old(self)@,
            old(self)@.len() > 0 ==> {
                &&& waker == Some(old(self)@[0].1)
                &&& final(self)@ == old(self)@.subrange(1, old(self)@.len() as int)
            },
    {
        match self.waiters.pop_front() {
            Some(mut waiter) => {
                proof {
                    assert(self@ =~= old(self)@.drop_first());
                    assert forall|i: int| 0 <= i < self@.len() implies #[trigger] self@[i] == old(
                        self,
                    )@[i + 1] by {}
                }
                waiter.take_waker()
            },
            None => None,
        }
    }

    /// Unlinks every waiter and takes their wakers, front first.
    pub fn drain(&mut self) -> (wakers: Vec<Waker>)
        requires
            old(self).wf(),
        ensures
            final(self).wf(),
            wakers@ == old(self)@.map_values(|waiter: (usize, Waker)| waiter.1),
            wakers@.len() == old(self)@.len(),
            forall|i: int| 0 <= i < wakers@.len() ==> #[trigger] wakers@[i] == old(self)@[i].1,
            final(self)@ == Seq::<(usize, Waker)>::empty(),
    {
        let mut wakers: Vec<Waker> = Vec::new();
        let ghost queue = self@;
        loop
            invariant
                self.wf(),
                wakers@.len() <= queue.len(),
                self@ == queue.skip(wakers@.len() as int),
                forall|i: int| 0 <= i < wakers@.len() ==> #[trigger] wakers@[i] == queue[i].1,
            ensures
                self@.len() == 0,
            decreases self@.len(),
        {
            match self.pop_front() {
                Some(waker) => {
                    wakers.push(waker);
                },
                None => {
                    break ;
                },
            }
        }
        assert(wakers@ =~= queue.map_values(|waiter: (usize, Waker)| waiter.1));
        wakers
    }
}

} // verus!
