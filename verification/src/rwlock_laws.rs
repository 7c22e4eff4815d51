//! What holds of a reader-writer lock under every interleaving of its users.
//!
//! The system here is the memory of one lock together with all the futures and
//! guards on it, each at some point of the program that it runs
//! ([`crate::rwlock_steps`]). One step of the system is one operation of one of
//! them.

use crate::rwlock_steps::{
    ReadPoll, ReadRelease, RwMem, RwOp, Seen, WriteCancel, WritePoll, WriteRelease, FULL,
    WRITE_LOCKED,
};
use std::task::Waker;
use vstd::prelude::*;

verus! {

/// Where a future on the lock is.
pub enum FutureTask {
    /// Not polled at the moment.
    Idle { writer: bool },
    /// In the poll for a read lock.
    Reading(ReadPoll),
    /// In the poll for the write lock.
    Writing(WritePoll),
    /// It has given its guard away.
    Finished { writer: bool },
    /// A future for the write lock, in its drop.
    Dropping(WriteCancel),
}

/// Where a guard on the lock is.
pub enum GuardTask {
    /// A read lock that is held.
    Read,
    /// The write lock, held.
    Write,
    /// A read lock, in its drop.
    ReadDrop(ReadRelease),
    /// The write lock, in its drop.
    WriteDrop(WriteRelease),
}

/// A lock with its futures and guards, by slot id. A guard has the slot id of
/// the future that it came from.
pub struct RwSystem {
    pub mem: RwMem,
    pub futures: Map<usize, FutureTask>,
    pub guards: Map<usize, GuardTask>,
    /// The wakers that the futures brought when they last registered.
    pub brought: Map<usize, Waker>,
}

impl FutureTask {
    /// The program that the future is in has work to do.
    pub open spec fn wf(self) -> bool {
        match self {
            FutureTask::Reading(poll) => poll.wf() && !poll.finished(),
            FutureTask::Writing(poll) => poll.wf() && !poll.finished(),
            FutureTask::Dropping(cancel) => cancel.wf() && !(cancel is Done),
            _ => true,
        }
    }

    /// The future has the map of writers locked.
    pub open spec fn holds_writers(self) -> bool {
        match self {
            FutureTask::Writing(poll) => poll.holds_writers(),
            FutureTask::Dropping(cancel) => cancel.holds_writers(),
            _ => false,
        }
    }

    /// The future has the map of readers locked.
    pub open spec fn holds_readers(self) -> bool {
        self matches FutureTask::Reading(poll) && poll.holds_readers()
    }

    /// The future is registered as a reader and has still to look at the
    /// state, or has seen that it may enter.
    pub open spec fn rechecks(self) -> bool {
        self matches FutureTask::Reading(poll) && (poll is Recheck || poll is Unpark)
    }

    /// The future may have taken wakers that it has not woken by yet.
    pub open spec fn carries(self) -> bool {
        self matches FutureTask::Dropping(cancel) && cancel.carries()
    }

    /// The next operation of the future wakes by the wakers that it has taken.
    pub open spec fn wakes(self) -> bool {
        self matches FutureTask::Dropping(cancel) && cancel.pending_op() is Wake
    }

    /// The drop of the future will wake all readers.
    pub open spec fn drains(self) -> bool {
        self matches FutureTask::Dropping(cancel) && (cancel == WriteCancel::Leave { last: true }
            || cancel is Drain)
    }
}

impl GuardTask {
    /// The program that the guard is in has work to do.
    pub open spec fn wf(self) -> bool {
        match self {
            GuardTask::ReadDrop(release) => !(release is Done),
            GuardTask::WriteDrop(release) => !(release is Done),
            _ => true,
        }
    }

    /// The guard has the map of writers locked.
    pub open spec fn holds_writers(self) -> bool {
        match self {
            GuardTask::ReadDrop(release) => release.holds_writers(),
            GuardTask::WriteDrop(release) => release.holds_writers(),
            _ => false,
        }
    }

    /// The guard has a read lock.
    pub open spec fn reads(self) -> bool {
        match self {
            GuardTask::Read => true,
            GuardTask::ReadDrop(release) => release is Subtract,
            _ => false,
        }
    }

    /// The guard has the write lock.
    pub open spec fn writes(self) -> bool {
        match self {
            GuardTask::Write => true,
            GuardTask::WriteDrop(release) => release.owns(),
            _ => false,
        }
    }

    /// The guard may have taken wakers that it has not woken by yet.
    pub open spec fn carries(self) -> bool {
        match self {
            GuardTask::ReadDrop(release) => release.carries(),
            GuardTask::WriteDrop(release) => release.carries(),
            _ => false,
        }
    }

    /// The next operation of the guard wakes by the wakers that it has taken.
    pub open spec fn wakes(self) -> bool {
        match self {
            GuardTask::ReadDrop(release) => release.pending_op() is Wake,
            GuardTask::WriteDrop(release) => release.pending_op() is Wake,
            _ => false,
        }
    }

    /// The drop of the guard will wake all readers.
    pub open spec fn drains(self) -> bool {
        self matches GuardTask::WriteDrop(release) && (release == WriteRelease::Leave {
            handed: false,
        } || release is Drain)
    }
}

impl RwSystem {
    /// The slot ids of the guards that have a read lock.
    pub open spec fn readers(self) -> Set<usize> {
        self.guards.dom().filter(|id: usize| self.guards[id].reads())
    }

    /// The guard of slot `id` has the write lock.
    pub open spec fn has_writer(self, id: usize) -> bool {
        self.guards.contains_key(id) && self.guards[id].writes()
    }

    /// The future of slot `id` may have taken wakers that it has not woken by
    /// yet.
    pub open spec fn future_carries(self, id: usize) -> bool {
        self.futures.contains_key(id) && self.futures[id].carries()
    }

    /// The guard of slot `id` may have taken wakers that it has not woken by
    /// yet.
    pub open spec fn guard_carries(self, id: usize) -> bool {
        self.guards.contains_key(id) && self.guards[id].carries()
    }

    /// Nobody has the map of writers locked.
    pub open spec fn writers_free(self) -> bool {
        &&& forall|id: usize| #[trigger]
            self.futures.contains_key(id) ==> !self.futures[id].holds_writers()
        &&& forall|id: usize| #[trigger]
            self.guards.contains_key(id) ==> !self.guards[id].holds_writers()
    }

    /// Nobody has the map of readers locked.
    pub open spec fn readers_free(self) -> bool {
        forall|id: usize| #[trigger]
            self.futures.contains_key(id) ==> !self.futures[id].holds_readers()
    }

    /// The mutexes that the operation locks are free.
    pub open spec fn admits(self, op: RwOp) -> bool {
        match op {
            RwOp::ParkWriter | RwOp::RemoveWriter | RwOp::TakeWriter => self.writers_free(),
            RwOp::ParkReader | RwOp::RemoveReader | RwOp::DrainReaders => self.readers_free(),
            _ => true,
        }
    }

    /// A new lock.
    pub open spec fn init(self) -> bool {
        &&& self.mem.state == 0
        &&& self.mem.writers == Map::<usize, Waker>::empty()
        &&& self.mem.readers == Map::<usize, Waker>::empty()
        &&& self.futures == Map::<usize, FutureTask>::empty()
        &&& self.guards == Map::<usize, GuardTask>::empty()
    }

    /// A future is made, under a slot id that is not in use.
    pub open spec fn created(self, id: usize, writer: bool, post: Self) -> bool {
        &&& !self.futures.contains_key(id)
        &&& !self.guards.contains_key(id)
        &&& post == (RwSystem {
            futures: self.futures.insert(id, FutureTask::Idle { writer }),
            ..self
        })
    }

    /// A future begins to be polled.
    pub open spec fn polled(self, id: usize, post: Self) -> bool {
        &&& self.futures.contains_key(id)
        &&& self.futures[id] matches FutureTask::Idle { writer }
        &&& post == (RwSystem {
            futures: self.futures.insert(
                id,
                if writer {
                    FutureTask::Writing(WritePoll::Load)
                } else {
                    FutureTask::Reading(ReadPoll::Load)
                },
            ),
            ..self
        })
    }

    /// A future for a read lock goes on in its poll. The poll does not go on
    /// where the count of readers would overflow.
    pub open spec fn read_polled(
        self,
        id: usize,
        waker: Option<Waker>,
        seen: Seen,
        taken: Seq<Waker>,
        post: Self,
    ) -> bool {
        &&& self.futures.contains_key(id)
        &&& self.futures[id] matches FutureTask::Reading(poll)
        &&& self.admits(poll.pending_op())
        &&& poll.pending_op().performed(id, waker, self.mem, seen, taken, post.mem)
        &&& seen != Seen::Word(FULL)
        &&& post.futures == self.futures.insert(
            id,
            match poll.after(seen) {
                ReadPoll::Ready => FutureTask::Finished { writer: false },
                ReadPoll::Pending => FutureTask::Idle { writer: false },
                next => FutureTask::Reading(next),
            },
        )
        &&& post.guards == (if poll.after(seen) is Ready {
            self.guards.insert(id, GuardTask::Read)
        } else {
            self.guards
        })
        &&& post.brought == (if poll.pending_op().parks() {
            self.brought.insert(id, waker->0)
        } else {
            self.brought
        })
    }

    /// A future for the write lock goes on in its poll.
    pub open spec fn write_polled(
        self,
        id: usize,
        waker: Option<Waker>,
        seen: Seen,
        taken: Seq<Waker>,
        post: Self,
    ) -> bool {
        &&& self.futures.contains_key(id)
        &&& self.futures[id] matches FutureTask::Writing(poll)
        &&& self.admits(poll.pending_op())
        &&& poll.pending_op().performed(id, waker, self.mem, seen, taken, post.mem)
        &&& post.futures == self.futures.insert(
            id,
            match poll.after(seen) {
                WritePoll::Ready => FutureTask::Finished { writer: true },
                WritePoll::Pending => FutureTask::Idle { writer: true },
                next => FutureTask::Writing(next),
            },
        )
        &&& post.guards == (if poll.after(seen) is Ready {
            self.guards.insert(id, GuardTask::Write)
        } else {
            self.guards
        })
        &&& post.brought == (if poll.pending_op().parks() {
            self.brought.insert(id, waker->0)
        } else {
            self.brought
        })
    }

    /// The future of slot `id`, for the write lock if `writer` and else for a
    /// read lock, is not in a program.
    pub open spec fn at_rest(self, id: usize, writer: bool) -> bool {
        &&& self.futures.contains_key(id)
        &&& (self.futures[id] == FutureTask::Idle { writer } || self.futures[id]
            == FutureTask::Finished { writer })
    }

    /// A future for a read lock is dropped.
    pub open spec fn read_dropped(self, id: usize, post: Self) -> bool {
        &&& self.at_rest(id, false)
        &&& self.admits(RwOp::RemoveReader)
        &&& RwOp::RemoveReader.performed(
            id,
            None,
            self.mem,
            Seen::Done,
            Seq::empty(),
            post.mem,
        )
        &&& post.futures == self.futures.remove(id)
        &&& post.guards == self.guards
        &&& post.brought == self.brought
    }

    /// A future for the write lock begins to be dropped.
    pub open spec fn write_drop_begun(self, id: usize, post: Self) -> bool {
        &&& self.at_rest(id, true)
        &&& post == (RwSystem {
            futures: self.futures.insert(id, FutureTask::Dropping(WriteCancel::Remove)),
            ..self
        })
    }

    /// A future for the write lock goes on in its drop.
    pub open spec fn write_dropped(
        self,
        id: usize,
        seen: Seen,
        taken: Seq<Waker>,
        post: Self,
    ) -> bool {
        &&& self.futures.contains_key(id)
        &&& self.futures[id] matches FutureTask::Dropping(cancel)
        &&& self.admits(cancel.pending_op())
        &&& cancel.pending_op().performed(id, None, self.mem, seen, taken, post.mem)
        &&& post.futures == (if cancel.after(seen) is Done {
            self.futures.remove(id)
        } else {
            self.futures.insert(id, FutureTask::Dropping(cancel.after(seen)))
        })
        &&& post.guards == self.guards
        &&& post.brought == self.brought
    }

    /// A guard begins to be dropped.
    pub open spec fn released(self, id: usize, post: Self) -> bool {
        &&& self.guards.contains_key(id)
        &&& (self.guards[id] is Read || self.guards[id] is Write)
        &&& post == (RwSystem {
            guards: self.guards.insert(
                id,
                if self.guards[id] is Read {
                    GuardTask::ReadDrop(ReadRelease::Subtract)
                } else {
                    GuardTask::WriteDrop(WriteRelease::Take)
                },
            ),
            ..self
        })
    }

    /// A read guard goes on in its drop.
    pub open spec fn read_released(
        self,
        id: usize,
        seen: Seen,
        taken: Seq<Waker>,
        post: Self,
    ) -> bool {
        &&& self.guards.contains_key(id)
        &&& self.guards[id] matches GuardTask::ReadDrop(release)
        &&& self.admits(release.pending_op())
        &&& release.pending_op().performed(id, None, self.mem, seen, taken, post.mem)
        &&& post.guards == (if release.after(seen) is Done {
            self.guards.remove(id)
        } else {
            self.guards.insert(id, GuardTask::ReadDrop(release.after(seen)))
        })
        &&& post.futures == self.futures
        &&& post.brought == self.brought
    }

    /// A write guard goes on in its drop.
    pub open spec fn write_released(
        self,
        id: usize,
        seen: Seen,
        taken: Seq<Waker>,
        post: Self,
    ) -> bool {
        &&& self.guards.contains_key(id)
        &&& self.guards[id] matches GuardTask::WriteDrop(release)
        &&& self.admits(release.pending_op())
        &&& release.pending_op().performed(id, None, self.mem, seen, taken, post.mem)
        &&& post.guards == (if release.after(seen) is Done {
            self.guards.remove(id)
        } else {
            self.guards.insert(id, GuardTask::WriteDrop(release.after(seen)))
        })
        &&& post.futures == self.futures
        &&& post.brought == self.brought
    }

    /// One step of some future or guard.
    pub open spec fn step(
        self,
        id: usize,
        writer: bool,
        waker: Option<Waker>,
        seen: Seen,
        taken: Seq<Waker>,
        post: Self,
    ) -> bool {
        ||| self.created(id, writer, post)
        ||| self.polled(id, post)
        ||| self.read_polled(id, waker, seen, taken, post)
        ||| self.write_polled(id, waker, seen, taken, post)
        ||| self.read_dropped(id, post)
        ||| self.write_drop_begun(id, post)
        ||| self.write_dropped(id, seen, taken, post)
        ||| self.released(id, post)
        ||| self.read_released(id, seen, taken, post)
        ||| self.write_released(id, seen, taken, post)
    }

    /// The programs are in order, and a future that still waits has no guard.
    pub open spec fn tasks_wf(self) -> bool {
        &&& self.guards.dom().finite()
        &&& forall|id: usize| #[trigger] self.futures.contains_key(id) ==> self.futures[id].wf()
        &&& forall|id: usize| #[trigger] self.guards.contains_key(id) ==> self.guards[id].wf()
        &&& forall|id: usize| #[trigger]
            self.futures.contains_key(id) && (self.futures[id] is Idle || self.futures[id]
                is Reading || self.futures[id] is Writing) ==> !self.guards.contains_key(id)
    }

    /// The state word says who has the lock: one writer alone, or the readers
    /// that it counts.
    pub open spec fn excludes(self) -> bool {
        &&& self.tasks_wf()
        &&& forall|a: usize, b: usize| #[trigger]
            self.has_writer(a) && #[trigger] self.has_writer(b) ==> a == b
        &&& forall|a: usize| #[trigger]
            self.has_writer(a) ==> self.mem.state == WRITE_LOCKED && self.readers()
                == Set::<usize>::empty()
        &&& (forall|a: usize| !#[trigger] self.has_writer(a)) ==> self.mem.state / 2
            == self.readers().len()
    }

    /// Whoever is registered is a future that is still there: among the writers
    /// one for the write lock, which has not taken its waker back in its drop,
    /// and among the readers one for a read lock.
    pub open spec fn registers_futures(self) -> bool {
        &&& forall|id: usize| #[trigger]
            self.mem.writers.contains_key(id) ==> self.futures.contains_key(id)
                && match self.futures[id] {
                FutureTask::Idle { writer } => writer,
                FutureTask::Writing(_) => true,
                FutureTask::Finished { writer } => writer,
                FutureTask::Dropping(cancel) => cancel is Remove,
                FutureTask::Reading(_) => false,
            }
        &&& forall|id: usize| #[trigger]
            self.mem.readers.contains_key(id) ==> self.futures.contains_key(id)
                && match self.futures[id] {
                FutureTask::Idle { writer } => !writer,
                FutureTask::Reading(_) => true,
                FutureTask::Finished { writer } => !writer,
                _ => false,
            }
    }

    /// Every registered future has a clone of the waker that it brought last
    /// itself.
    pub open spec fn keeps_wakers(self) -> bool {
        &&& forall|id: usize| #[trigger]
            self.mem.writers.contains_key(id) ==> self.brought.contains_key(id) && cloned(
                self.brought[id],
                self.mem.writers[id],
            )
        &&& forall|id: usize| #[trigger]
            self.mem.readers.contains_key(id) ==> self.brought.contains_key(id) && cloned(
                self.brought[id],
                self.mem.readers[id],
            )
    }

    /// The future of slot `id` is registered with `waker`, a clone of the waker
    /// that it brought last.
    pub open spec fn registered_with(self, id: usize, waker: Waker) -> bool {
        &&& self.brought.contains_key(id)
        &&& cloned(self.brought[id], waker)
        &&& {
            ||| self.mem.writers.contains_key(id) && self.mem.writers[id] == waker
            ||| self.mem.readers.contains_key(id) && self.mem.readers[id] == waker
        }
    }

    /// Some future is registered with `waker`.
    pub open spec fn comes_from_someone(self, waker: Waker) -> bool {
        exists|id: usize| self.registered_with(id, waker)
    }

    /// The future of slot `id` is gone, or has taken its waker back in its drop.
    pub open spec fn took_waker_back(self, id: usize) -> bool {
        self.futures.contains_key(id) ==> (self.futures[id] matches FutureTask::Dropping(cancel)
            && !(cancel is Remove))
    }

    /// While readers may enter, whoever is registered as a reader will be
    /// looked after: by itself, since it rechecks the state, or by one who is
    /// about to wake all readers.
    pub open spec fn attends_readers(self) -> bool {
        self.mem.state % 2 == 0 ==> forall|id: usize| #[trigger]
            self.mem.readers.contains_key(id) ==> self.draining() || (self.futures.contains_key(id)
                && self.futures[id].rechecks())
    }

    /// Someone is about to wake all readers.
    pub open spec fn draining(self) -> bool {
        ||| exists|id: usize| #[trigger]
            self.futures.contains_key(id) && self.futures[id].drains()
        ||| exists|id: usize| #[trigger] self.guards.contains_key(id) && self.guards[id].drains()
    }

    /// No future and no guard is in a program.
    pub open spec fn quiet(self) -> bool {
        &&& forall|id: usize| #[trigger]
            self.futures.contains_key(id) ==> self.futures[id] is Idle || self.futures[id]
                is Finished
        &&& forall|id: usize| #[trigger]
            self.guards.contains_key(id) ==> self.guards[id] is Read || self.guards[id] is Write
    }
}

/// A step on the guard of slot `id` that leaves its read lock as it was.
proof fn lemma_same_readers(pre: RwSystem, id: usize, post: RwSystem)
    requires
        post.guards == pre.guards || post.guards == pre.guards.insert(id, post.guards[id])
            || post.guards == pre.guards.remove(id),
        (pre.guards.contains_key(id) && pre.guards[id].reads()) == (post.guards.contains_key(id)
            && post.guards[id].reads()),
    ensures
        post.readers() == pre.readers(),
{
    assert(post.readers() =~= pre.readers());
}

/// A step on the guard of slot `id` that leaves the write lock as it was.
proof fn lemma_same_writer(pre: RwSystem, id: usize, post: RwSystem)
    requires
        post.guards == pre.guards || post.guards == pre.guards.insert(id, post.guards[id])
            || post.guards == pre.guards.remove(id),
        pre.has_writer(id) == post.has_writer(id),
    ensures
        forall|a: usize| post.has_writer(a) == #[trigger] pre.has_writer(a),
        forall|a: usize| #[trigger] post.has_writer(a) == pre.has_writer(a),
{
}

proof fn lemma_read_polled(
    pre: RwSystem,
    id: usize,
    waker: Option<Waker>,
    seen: Seen,
    taken: Seq<Waker>,
    post: RwSystem,
)
    requires
        pre.excludes(),
        pre.read_polled(id, waker, seen, taken, post),
    ensures
        post.excludes(),
{
    let poll = pre.futures[id]->Reading_0;
    assert(poll.wf());
    lemma_same_writer(pre, id, post);
    if poll.after(seen) is Ready {
        assert(post.readers() =~= pre.readers().insert(id));
        assert(!pre.has_writer(id));
    } else {
        lemma_same_readers(pre, id, post);
    }
}

proof fn lemma_write_polled(
    pre: RwSystem,
    id: usize,
    waker: Option<Waker>,
    seen: Seen,
    taken: Seq<Waker>,
    post: RwSystem,
)
    requires
        pre.excludes(),
        pre.write_polled(id, waker, seen, taken, post),
    ensures
        post.excludes(),
{
    let poll = pre.futures[id]->Writing_0;
    assert(poll.wf());
    lemma_same_readers(pre, id, post);
    if poll.after(seen) is Ready {
        assert(pre.mem.state <= 1);
        assert(forall|a: usize| !pre.has_writer(a));
        assert(pre.readers().len() == 0);
        assert(post.readers() =~= Set::empty());
        assert(post.has_writer(id));
        assert forall|a: usize| post.has_writer(a) implies a == id by {
            if a != id {
                assert(pre.has_writer(a));
            }
        }
    } else {
        lemma_same_writer(pre, id, post);
    }
}

proof fn lemma_write_dropped(
    pre: RwSystem,
    id: usize,
    seen: Seen,
    taken: Seq<Waker>,
    post: RwSystem,
)
    requires
        pre.excludes(),
        pre.write_dropped(id, seen, taken, post),
    ensures
        post.excludes(),
{
    let cancel = pre.futures[id]->Dropping_0;
    assert(cancel.wf());
    lemma_same_readers(pre, id, post);
    lemma_same_writer(pre, id, post);
}

proof fn lemma_read_released(
    pre: RwSystem,
    id: usize,
    seen: Seen,
    taken: Seq<Waker>,
    post: RwSystem,
)
    requires
        pre.excludes(),
        pre.read_released(id, seen, taken, post),
    ensures
        post.excludes(),
{
    let release = pre.guards[id]->ReadDrop_0;
    lemma_same_writer(pre, id, post);
    if release is Subtract {
        assert(pre.readers().contains(id));
        assert(post.readers() =~= pre.readers().remove(id));
        assert(forall|a: usize| !pre.has_writer(a));
        assert(pre.mem.state >= 2);
    } else {
        lemma_same_readers(pre, id, post);
    }
}

proof fn lemma_write_released(
    pre: RwSystem,
    id: usize,
    seen: Seen,
    taken: Seq<Waker>,
    post: RwSystem,
)
    requires
        pre.excludes(),
        pre.write_released(id, seen, taken, post),
    ensures
        post.excludes(),
{
    let release = pre.guards[id]->WriteDrop_0;
    lemma_same_readers(pre, id, post);
    if release is Store {
        assert(pre.has_writer(id));
        assert(pre.readers() == Set::<usize>::empty());
        assert forall|a: usize| !post.has_writer(a) by {
            if post.has_writer(a) {
                assert(pre.has_writer(a));
            }
        }
    } else {
        lemma_same_writer(pre, id, post);
    }
}

/// In a new lock the state word agrees with the guards, and nobody waits.
pub proof fn law_new_lock(system: RwSystem)
    requires
        system.init(),
    ensures
        system.excludes(),
        system.registers_futures(),
        system.keeps_wakers(),
        system.attends_readers(),
{
    assert(system.readers() =~= Set::empty());
}

/// Every step of every future and guard, in every interleaving, keeps the
/// state word and the guards in agreement: a writer has the lock alone, and
/// else the state word counts the read locks.
pub proof fn law_every_step_excludes(
    pre: RwSystem,
    id: usize,
    writer: bool,
    waker: Option<Waker>,
    seen: Seen,
    taken: Seq<Waker>,
    post: RwSystem,
)
    requires
        pre.excludes(),
        pre.step(id, writer, waker, seen, taken, post),
    ensures
        post.excludes(),
{
    if pre.read_polled(id, waker, seen, taken, post) {
        lemma_read_polled(pre, id, waker, seen, taken, post);
    } else if pre.write_polled(id, waker, seen, taken, post) {
        lemma_write_polled(pre, id, waker, seen, taken, post);
    } else if pre.write_dropped(id, seen, taken, post) {
        lemma_write_dropped(pre, id, seen, taken, post);
    } else if pre.read_released(id, seen, taken, post) {
        lemma_read_released(pre, id, seen, taken, post);
    } else if pre.write_released(id, seen, taken, post) {
        lemma_write_released(pre, id, seen, taken, post);
    } else {
        lemma_same_readers(pre, id, post);
        lemma_same_writer(pre, id, post);
    }
}

/// Mutual exclusion: whoever has the write lock has the lock alone.
pub proof fn law_writer_is_alone(system: RwSystem, a: usize, b: usize)
    requires
        system.excludes(),
        system.has_writer(a),
        system.guards.contains_key(b),
        system.guards[b].reads() || system.guards[b].writes(),
    ensures
        a == b,
        !system.guards[b].reads(),
{
    if system.guards[b].reads() {
        assert(system.readers().contains(b));
    } else {
        assert(system.has_writer(b));
    }
}

/// The state word is [`WRITE_LOCKED`] if and only if someone has the write
/// lock, and else half of it is the number of read locks. With 2^31 - 1 read
/// locks and a waiting writer the word is the same, so there the law asks for
/// fewer.
pub proof fn law_state_word_says_who_has_the_lock(system: RwSystem)
    requires
        system.excludes(),
        system.readers().len() < 0x7fff_ffff,
    ensures
        system.mem.state == WRITE_LOCKED <==> exists|id: usize| system.has_writer(id),
        system.mem.state != WRITE_LOCKED ==> system.mem.state / 2 == system.readers().len(),
{
}

/// While the state word is odd, no step gives anyone a read lock that it did
/// not have.
pub proof fn law_odd_state_keeps_readers_out(
    pre: RwSystem,
    id: usize,
    writer: bool,
    waker: Option<Waker>,
    seen: Seen,
    taken: Seq<Waker>,
    post: RwSystem,
)
    requires
        pre.tasks_wf(),
        pre.mem.state % 2 == 1,
        pre.step(id, writer, waker, seen, taken, post),
    ensures
        post.readers().subset_of(pre.readers()),
{
    assert forall|a: usize| post.readers().contains(a) implies pre.readers().contains(a) by {
        if pre.read_polled(id, waker, seen, taken, post) {
            assert(pre.futures[id].wf());
        }
    }
}

/// Every step of every future and guard, in every interleaving, leaves each
/// registered reader attended to: while readers may enter, it rechecks the
/// state itself, or someone is about to wake all readers.
pub proof fn law_every_step_attends_readers(
    pre: RwSystem,
    id: usize,
    writer: bool,
    waker: Option<Waker>,
    seen: Seen,
    taken: Seq<Waker>,
    post: RwSystem,
)
    requires
        pre.tasks_wf(),
        pre.attends_readers(),
        pre.step(id, writer, waker, seen, taken, post),
    ensures
        post.attends_readers(),
{
    if post.mem.state % 2 == 0 {
        assert forall|r: usize| #[trigger] post.mem.readers.contains_key(r) implies post.draining()
            || (post.futures.contains_key(r) && post.futures[r].rechecks()) by {
            lemma_attended(pre, id, writer, waker, seen, taken, post, r);
        }
    }
}

proof fn lemma_attended(
    pre: RwSystem,
    id: usize,
    writer: bool,
    waker: Option<Waker>,
    seen: Seen,
    taken: Seq<Waker>,
    post: RwSystem,
    r: usize,
)
    requires
        pre.tasks_wf(),
        pre.attends_readers(),
        pre.step(id, writer, waker, seen, taken, post),
        post.mem.state % 2 == 0,
        post.mem.readers.contains_key(r),
    ensures
        post.draining() || (post.futures.contains_key(r) && post.futures[r].rechecks()),
{
    if pre.mem.state % 2 == 0 && pre.mem.readers.contains_key(r) {
        if pre.draining() {
            if exists|a: usize| #[trigger] pre.futures.contains_key(a) && pre.futures[a].drains() {
                let a = choose|a: usize| #[trigger]
                    pre.futures.contains_key(a) && pre.futures[a].drains();
                assert(post.futures.contains_key(a));
                assert(post.futures[a].drains());
            } else {
                let a = choose|a: usize| #[trigger]
                    pre.guards.contains_key(a) && pre.guards[a].drains();
                assert(post.guards.contains_key(a));
                assert(post.guards[a].drains());
            }
        }
    } else if pre.mem.state % 2 == 1 {
        if pre.write_dropped(id, seen, taken, post) {
            assert(post.futures.contains_key(id) && post.futures[id].drains());
        } else if pre.write_released(id, seen, taken, post) {
            assert(post.guards.contains_key(id) && post.guards[id].drains());
        } else {
            if pre.read_polled(id, waker, seen, taken, post) || pre.write_polled(
                id,
                waker,
                seen,
                taken,
                post,
            ) {
                assert(pre.futures[id].wf());
            }
            assert(false);
        }
    }
}

/// No reader is left behind: once no future and no guard is in a program, a
/// lock that readers may enter has no parked reader.
pub proof fn law_no_reader_left_behind(system: RwSystem)
    requires
        system.attends_readers(),
        system.quiet(),
        system.mem.state % 2 == 0,
    ensures
        system.mem.readers == Map::<usize, Waker>::empty(),
{
    assert forall|r: usize| !system.mem.readers.contains_key(r) by {}
    assert(system.mem.readers =~= Map::empty());
}

/// Every step of every future and guard, in every interleaving, leaves only
/// futures registered that are still there.
pub proof fn law_every_step_registers_futures(
    pre: RwSystem,
    id: usize,
    writer: bool,
    waker: Option<Waker>,
    seen: Seen,
    taken: Seq<Waker>,
    post: RwSystem,
)
    requires
        pre.registers_futures(),
        pre.step(id, writer, waker, seen, taken, post),
    ensures
        post.registers_futures(),
{
}

/// Everyone is woken by its own waker, in every interleaving: every registered
/// future has a clone of the waker that its own last registration brought, no
/// step changes the waker of another, and what a step takes are wakers of
/// registered futures.
pub proof fn law_every_step_keeps_wakers(
    pre: RwSystem,
    id: usize,
    writer: bool,
    waker: Option<Waker>,
    seen: Seen,
    taken: Seq<Waker>,
    post: RwSystem,
)
    requires
        pre.registers_futures(),
        pre.keeps_wakers(),
        pre.step(id, writer, waker, seen, taken, post),
    ensures
        post.keeps_wakers(),
        forall|other: usize| #[trigger]
            post.mem.writers.contains_key(other) && other != id ==> pre.mem.writers.contains_key(
                other,
            ) && post.mem.writers[other] == pre.mem.writers[other],
        forall|other: usize| #[trigger]
            post.mem.readers.contains_key(other) && other != id ==> pre.mem.readers.contains_key(
                other,
            ) && post.mem.readers[other] == pre.mem.readers[other],
        pre.write_dropped(id, seen, taken, post) || pre.read_released(id, seen, taken, post)
            || pre.write_released(id, seen, taken, post) ==> forall|i: int|
            0 <= i < taken.len() ==> pre.comes_from_someone(#[trigger] taken[i]),
{
    lemma_step_on_the_wakers(pre, id, writer, waker, seen, taken, post);
    if pre.write_dropped(id, seen, taken, post) || pre.read_released(id, seen, taken, post)
        || pre.write_released(id, seen, taken, post) {
        assert forall|i: int| 0 <= i < taken.len() implies pre.comes_from_someone(
            #[trigger] taken[i],
        ) by {
            lemma_taken_is_registered(pre, id, seen, taken, post, i);
        }
    }
}

/// What a step does to the maps of wakers, by the slots.
proof fn lemma_step_on_the_wakers(
    pre: RwSystem,
    id: usize,
    writer: bool,
    waker: Option<Waker>,
    seen: Seen,
    taken: Seq<Waker>,
    post: RwSystem,
)
    requires
        pre.registers_futures(),
        pre.step(id, writer, waker, seen, taken, post),
    ensures
        forall|other: usize| #[trigger]
            post.mem.writers.contains_key(other) && other != id ==> pre.mem.writers.contains_key(
                other,
            ) && post.mem.writers[other] == pre.mem.writers[other],
        forall|other: usize| #[trigger]
            post.mem.readers.contains_key(other) && other != id ==> pre.mem.readers.contains_key(
                other,
            ) && post.mem.readers[other] == pre.mem.readers[other],
        post.brought == pre.brought || post.brought == pre.brought.insert(id, waker->0),
        post.mem.writers.contains_key(id) ==> {
            ||| pre.mem.writers.contains_key(id) && post.mem.writers[id] == pre.mem.writers[id]
                && post.brought == pre.brought
            ||| post.brought == pre.brought.insert(id, waker->0) && cloned(
                waker->0,
                post.mem.writers[id],
            )
        },
        post.mem.readers.contains_key(id) ==> {
            ||| pre.mem.readers.contains_key(id) && post.mem.readers[id] == pre.mem.readers[id]
                && post.brought == pre.brought
            ||| post.brought == pre.brought.insert(id, waker->0) && cloned(
                waker->0,
                post.mem.readers[id],
            )
        },
{
    if pre.read_polled(id, waker, seen, taken, post) {
        let op = pre.futures[id]->Reading_0.pending_op();
        op.law_performed_on_the_wakers(id, waker, pre.mem, seen, taken, post.mem);
        if op is ParkReader {
            assert(!pre.mem.writers.contains_key(id));
        }
    } else if pre.write_polled(id, waker, seen, taken, post) {
        let op = pre.futures[id]->Writing_0.pending_op();
        op.law_performed_on_the_wakers(id, waker, pre.mem, seen, taken, post.mem);
        if op is ParkWriter {
            assert(!pre.mem.readers.contains_key(id));
        }
    } else if pre.read_dropped(id, post) {
        RwOp::RemoveReader.law_performed_on_the_wakers(
            id,
            None,
            pre.mem,
            Seen::Done,
            Seq::empty(),
            post.mem,
        );
    } else if pre.write_dropped(id, seen, taken, post) {
        let op = pre.futures[id]->Dropping_0.pending_op();
        op.law_performed_on_the_wakers(id, None, pre.mem, seen, taken, post.mem);
    } else if pre.read_released(id, seen, taken, post) {
        let op = pre.guards[id]->ReadDrop_0.pending_op();
        op.law_performed_on_the_wakers(id, None, pre.mem, seen, taken, post.mem);
    } else if pre.write_released(id, seen, taken, post) {
        let op = pre.guards[id]->WriteDrop_0.pending_op();
        op.law_performed_on_the_wakers(id, None, pre.mem, seen, taken, post.mem);
    }
}

/// A waker that a step takes is that of a registered future.
proof fn lemma_taken_is_registered(
    pre: RwSystem,
    id: usize,
    seen: Seen,
    taken: Seq<Waker>,
    post: RwSystem,
    i: int,
)
    requires
        pre.keeps_wakers(),
        pre.write_dropped(id, seen, taken, post) || pre.read_released(id, seen, taken, post)
            || pre.write_released(id, seen, taken, post),
        0 <= i < taken.len(),
    ensures
        pre.comes_from_someone(taken[i]),
{
    if exists|from: usize| #[trigger] RwOp::took_writer(pre.mem, from, taken, post.mem) {
        let from = choose|from: usize| #[trigger]
            RwOp::took_writer(pre.mem, from, taken, post.mem);
        RwOp::law_took_writer(pre.mem, from, taken, post.mem);
        assert(pre.registered_with(from, taken[i]));
    } else {
        assert(crate::waker_map::drained(pre.mem.readers, taken));
        let ids = choose|ids: Seq<usize>| #[trigger]
            crate::waker_map::drained_in_order(pre.mem.readers, ids, taken);
        crate::waker_map::law_drained_in_order(pre.mem.readers, ids, taken);
        assert(pre.mem.readers.contains_key(ids[i]));
        assert(pre.registered_with(ids[i], taken[i]));
    }
}

/// A future that is dropped takes its waker back, and wakes nobody by it.
pub proof fn law_drop_takes_waker_back(
    pre: RwSystem,
    id: usize,
    seen: Seen,
    taken: Seq<Waker>,
    post: RwSystem,
)
    requires
        pre.registers_futures(),
        pre.read_dropped(id, post) || (pre.write_dropped(id, seen, taken, post) && pre.futures[id]
            == FutureTask::Dropping(WriteCancel::Remove)),
    ensures
        post.took_waker_back(id),
        !post.mem.writers.contains_key(id),
        !post.mem.readers.contains_key(id),
        pre.write_dropped(id, seen, taken, post) ==> taken.len() == 0,
{
}

/// A future that was dropped is never woken: once it has taken its waker back,
/// and while its slot id is not given out again, nothing is registered under
/// it, and no step takes a waker from its slot.
pub proof fn law_dropped_future_is_never_woken(
    pre: RwSystem,
    id: usize,
    writer: bool,
    waker: Option<Waker>,
    seen: Seen,
    taken: Seq<Waker>,
    post: RwSystem,
    gone: usize,
)
    requires
        pre.registers_futures(),
        pre.took_waker_back(gone),
        pre.step(id, writer, waker, seen, taken, post),
        !pre.created(gone, writer, post),
    ensures
        post.took_waker_back(gone),
        !post.mem.writers.contains_key(gone),
        !post.mem.readers.contains_key(gone),
        forall|woken: usize| #[trigger]
            RwOp::took_writer(pre.mem, woken, taken, post.mem) ==> woken != gone,
        forall|woken: Seq<usize>| #[trigger]
            crate::waker_map::drained_in_order(pre.mem.readers, woken, taken) ==> !woken.contains(
                gone,
            ),
{
    law_every_step_registers_futures(pre, id, writer, waker, seen, taken, post);
    assert forall|woken: Seq<usize>| #[trigger]
        crate::waker_map::drained_in_order(pre.mem.readers, woken, taken) implies !woken.contains(
        gone,
    ) by {
        if woken.contains(gone) {
            assert(woken.to_set().contains(gone));
            assert(pre.mem.readers.contains_key(gone));
        }
    }
}

/// Whoever takes wakers wakes by them, in every interleaving: a step that takes
/// some is one of a future or guard that from then on carries them, and it
/// carries them until the step that wakes by them.
pub proof fn law_taken_wakers_are_woken_by(
    pre: RwSystem,
    id: usize,
    writer: bool,
    waker: Option<Waker>,
    seen: Seen,
    taken: Seq<Waker>,
    post: RwSystem,
    carrier: usize,
)
    requires
        pre.tasks_wf(),
        pre.step(id, writer, waker, seen, taken, post),
    ensures
        pre.write_dropped(id, seen, taken, post) && taken.len() > 0 ==> post.future_carries(id),
        pre.read_released(id, seen, taken, post) && taken.len() > 0 ==> post.guard_carries(id),
        pre.write_released(id, seen, taken, post) && taken.len() > 0 ==> post.guard_carries(id),
        pre.read_polled(id, waker, seen, taken, post) ==> taken.len() == 0,
        pre.write_polled(id, waker, seen, taken, post) ==> taken.len() == 0,
        pre.future_carries(carrier) ==> post.future_carries(carrier) || (carrier == id
            && pre.futures[id].wakes()),
        pre.guard_carries(carrier) ==> post.guard_carries(carrier) || (carrier == id
            && pre.guards[id].wakes()),
        pre.quiet() ==> !pre.future_carries(carrier) && !pre.guard_carries(carrier),
{
}

/// A future that gives up, and was the last writer to wait, makes the state word
/// even with the read locks as they are, whatever their number: once it has
/// seen to the word, the word is even or that of a writer who has the lock.
pub proof fn law_last_writer_makes_the_word_even(
    pre: RwSystem,
    id: usize,
    seen: Seen,
    taken: Seq<Waker>,
    post: RwSystem,
)
    requires
        pre.tasks_wf(),
        pre.write_dropped(id, seen, taken, post),
        pre.futures[id] matches FutureTask::Dropping(cancel) && (cancel is Load || cancel is Clear),
        post.futures[id] matches FutureTask::Dropping(cancel) && !(cancel is Load || cancel
            is Clear),
    ensures
        post.mem.state % 2 == 0 || post.mem.state == u32::MAX,
        pre.mem.state == u32::MAX ==> post.mem.state == u32::MAX,
        pre.mem.state != u32::MAX ==> post.mem.state / 2 == pre.mem.state / 2,
        post.futures.contains_key(id) && post.futures[id].drains(),
{
    assert(pre.futures[id].wf());
}

/// The release of a read lock undoes its acquisition.
pub proof fn law_release_undoes_read(
    slot: usize,
    poll: ReadPoll,
    pre: RwMem,
    taken: RwMem,
    seen: Seen,
    post: RwMem,
)
    requires
        poll is Acquire,
        poll.wf(),
        poll.pending_op().performed(slot, None, pre, Seen::Swapped, Seq::empty(), taken),
        ReadRelease::Subtract.pending_op().performed(
            slot,
            None,
            taken,
            seen,
            Seq::empty(),
            post,
        ),
    ensures
        post == pre,
        ReadRelease::Subtract.after(seen) is Done,
{
}

/// The release of the write lock undoes its acquisition, if no writer was
/// announced and none has parked since.
pub proof fn law_release_undoes_write(
    slot: usize,
    pre: RwMem,
    taken: RwMem,
    seen: Seen,
    looked: RwMem,
    post: RwMem,
)
    requires
        pre.state == 0,
        pre.writers == Map::<usize, Waker>::empty(),
        (WritePoll::Acquire { seen: 0 }).pending_op().performed(
            slot,
            None,
            pre,
            Seen::Swapped,
            Seq::empty(),
            taken,
        ),
        WriteRelease::Take.pending_op().performed(slot, None, taken, seen, Seq::empty(), looked),
        WriteRelease::Take.after(seen).pending_op().performed(
            slot,
            None,
            looked,
            Seen::Done,
            Seq::empty(),
            post,
        ),
    ensures
        post == pre,
{
}

} // verus!
