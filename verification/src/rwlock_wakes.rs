//! What holds of tasks that sleep on a reader-writer lock, under every
//! interleaving.
//!
//! A parked task sleeps until its waker is taken. So whoever sleeps has to be
//! registered. No reader may sleep while readers may enter, and whenever the
//! lock is free while writers are parked, someone has to be on the way who will
//! take the lock or wake one of them.

use crate::rwlock_laws::{FutureTask, GuardTask, RwSystem};
use crate::rwlock_steps::{ReadRelease, RwOp, Seen, WriteCancel, WritePoll, WriteRelease};
use std::task::Waker;
use vstd::prelude::*;

verus! {

/// A lock with its futures and guards, and who of them sleeps, by slot id.
pub struct RwWatch {
    pub system: RwSystem,
    /// The writers whose wakers were taken since they were last polled.
    pub notified: Set<usize>,
    /// The writers whose last poll answered that they have to wait, and whose
    /// wakers were not taken since it began.
    pub asleep: Set<usize>,
    /// The readers whose last poll answered that they have to wait, and whose
    /// wakers were not taken since.
    pub asleep_readers: Set<usize>,
}

impl RwWatch {
    /// The future of slot `id` is registered as a writer and has still to look
    /// at the state, or has seen that it is to try again.
    pub open spec fn rechecks(self, id: usize) -> bool {
        &&& self.system.futures.contains_key(id)
        &&& self.system.futures[id] matches FutureTask::Writing(poll)
        &&& (poll is Recheck || poll is Unpark)
    }

    /// A writer is parked in slot `id`.
    pub open spec fn parked(self, id: usize) -> bool {
        self.system.mem.writers.contains_key(id) && !self.rechecks(id)
    }

    /// The future of slot `id` is in a poll for the write lock in which it
    /// will look at the state again.
    pub open spec fn tries(self, id: usize) -> bool {
        &&& self.system.futures.contains_key(id)
        &&& self.system.futures[id] matches FutureTask::Writing(poll)
        &&& !(poll is Leave)
    }

    /// The writer of slot `id` was notified, and has not been polled or
    /// dropped since.
    pub open spec fn awakes(self, id: usize) -> bool {
        &&& self.notified.contains(id)
        &&& self.system.futures.contains_key(id)
        &&& (self.system.futures[id] == FutureTask::Idle { writer: true }
            || self.system.futures[id] == FutureTask::Dropping(WriteCancel::Remove))
    }

    /// The writer of slot `id` was notified and waits to be polled.
    pub open spec fn to_be_polled(self, id: usize) -> bool {
        &&& self.notified.contains(id)
        &&& self.system.futures.contains_key(id)
        &&& self.system.futures[id] == FutureTask::Idle { writer: true }
    }

    /// The read guard of slot `id` was the last one and is about to notify a
    /// parked writer.
    pub open spec fn passes_on(self, id: usize) -> bool {
        &&& self.system.guards.contains_key(id)
        &&& self.system.guards[id] == GuardTask::ReadDrop(ReadRelease::Take)
    }

    /// The future or guard of slot `id` is on the way: it will take the lock or
    /// notify a parked writer.
    pub open spec fn on_the_way(self, id: usize) -> bool {
        self.tries(id) || self.awakes(id) || self.passes_on(id)
    }

    /// Someone is on the way.
    pub open spec fn active(self) -> bool {
        exists|id: usize| self.on_the_way(id)
    }

    /// Who has found the map of writers empty and keeps it locked still finds
    /// it so.
    pub open spec fn found_empty(self) -> bool {
        &&& forall|id: usize| #[trigger]
            self.system.futures.contains_key(id) && (self.system.futures[id]
                matches FutureTask::Dropping(cancel) && (cancel is Load || cancel is Clear))
                ==> self.system.mem.writers == Map::<usize, Waker>::empty()
        &&& forall|id: usize| #[trigger]
            self.system.guards.contains_key(id) && self.system.guards[id] == GuardTask::WriteDrop(
                WriteRelease::Store { handed: false },
            ) ==> self.system.mem.writers == Map::<usize, Waker>::empty()
    }

    /// Parked writers keep the state word odd.
    pub open spec fn odd_while_parked(self) -> bool {
        &&& self.system.one_holder()
        &&& self.found_empty()
        &&& forall|id: usize| #[trigger] self.parked(id) ==> self.system.mem.state % 2 == 1
    }

    /// Parked writers keep the state word odd, and if the lock is free then
    /// someone is on the way; so too if it is about to be unlocked for a writer.
    pub open spec fn attends_writers(self) -> bool {
        &&& self.odd_while_parked()
        &&& self.system.registered_wf()
        &&& forall|id: usize| #[trigger] self.system.hands_over(id) ==> self.active()
        &&& forall|id: usize| #[trigger]
            self.parked(id) && self.system.mem.state == 1 ==> self.active()
    }

    /// Whoever is registered and has the map of writers locked is registered
    /// still, and so is every writer that sleeps.
    pub open spec fn registers_sleepers(self) -> bool {
        &&& forall|id: usize| #[trigger]
            self.system.futures.contains_key(id) && (self.system.futures[id]
                matches FutureTask::Writing(poll) && poll.holds_writers())
                ==> self.system.mem.writers.contains_key(id)
        &&& forall|id: usize| #[trigger]
            self.asleep.contains(id) ==> self.system.futures.contains_key(id)
                && self.system.futures[id] == (FutureTask::Idle { writer: true })
                && self.system.mem.writers.contains_key(id) && !self.notified.contains(id)
    }

    /// A reader that has the map of readers locked is registered, and so is
    /// every reader that sleeps.
    pub open spec fn registers_sleeping_readers(self) -> bool {
        &&& forall|id: usize| #[trigger]
            self.system.futures.contains_key(id) && self.system.futures[id].holds_readers()
                ==> self.system.mem.readers.contains_key(id)
        &&& forall|id: usize| #[trigger]
            self.asleep_readers.contains(id) ==> self.system.futures.contains_key(id)
                && self.system.futures[id] == (FutureTask::Idle { writer: false })
                && self.system.mem.readers.contains_key(id)
    }

    /// A new lock.
    pub open spec fn init(self) -> bool {
        &&& self.system.init()
        &&& self.asleep == Set::<usize>::empty()
        &&& self.asleep_readers == Set::<usize>::empty()
    }

    /// The future or guard of slot `id` takes the wakers of all readers.
    pub open spec fn drained(self, id: usize, seen: Seen, taken: Seq<Waker>, post: Self) -> bool {
        ||| self.system.write_dropped(id, seen, taken, post.system) && self.system.futures[id]
            == FutureTask::Dropping(WriteCancel::Drain)
        ||| self.system.write_released(id, seen, taken, post.system) && self.system.guards[id]
            == GuardTask::WriteDrop(WriteRelease::Drain)
    }

    /// The readers that sleep after a step: one that is told to wait falls
    /// asleep, one that is polled or dropped is not asleep, and all wake when
    /// their wakers are taken.
    pub open spec fn readers_asleep_after(
        self,
        id: usize,
        writer: bool,
        waker: Option<Waker>,
        seen: Seen,
        taken: Seq<Waker>,
        post: Self,
    ) -> Set<usize> {
        if self.drained(id, seen, taken, post) {
            Set::empty()
        } else if self.system.created(id, writer, post.system) || self.system.polled(
            id,
            post.system,
        ) || self.system.read_dropped(id, post.system) {
            self.asleep_readers.remove(id)
        } else if self.system.read_polled(id, waker, seen, taken, post.system)
            && post.system.futures[id] is Idle {
            self.asleep_readers.insert(id)
        } else {
            self.asleep_readers
        }
    }

    /// One step of some future or guard, with what it does to `notified`,
    /// `asleep` and `asleep_readers`: taking the waker of writer `woken`
    /// notifies it, a poll answers the notification, and one that answers that
    /// the lock is not there yet lets the task sleep.
    pub open spec fn step(
        self,
        id: usize,
        writer: bool,
        waker: Option<Waker>,
        seen: Seen,
        taken: Seq<Waker>,
        woken: usize,
        post: Self,
    ) -> bool {
        &&& self.system.step(id, writer, waker, seen, taken, post.system)
        &&& post.asleep_readers == self.readers_asleep_after(id, writer, waker, seen, taken, post)
        &&& if self.took(id, seen, taken, post) {
            &&& RwOp::took_writer(self.system.mem, woken, taken, post.system.mem)
            &&& post.notified == self.notified.insert(woken)
            &&& post.asleep == self.asleep.remove(woken)
        } else if self.system.created(id, writer, post.system) || self.system.polled(
            id,
            post.system,
        ) {
            &&& post.notified == self.notified.remove(id)
            &&& post.asleep == self.asleep.remove(id)
        } else if self.system.write_polled(id, waker, seen, taken, post.system)
            && post.system.futures[id] is Idle {
            &&& post.notified == self.notified
            &&& post.asleep == (if self.notified.contains(id) {
                self.asleep
            } else {
                self.asleep.insert(id)
            })
        } else if self.system.write_drop_begun(id, post.system) {
            &&& post.notified == self.notified
            &&& post.asleep == self.asleep.remove(id)
        } else {
            post.notified == self.notified && post.asleep == self.asleep
        }
    }

    /// The guard of slot `id` takes the waker of a parked writer.
    pub open spec fn took(self, id: usize, seen: Seen, taken: Seq<Waker>, post: Self) -> bool {
        &&& self.system.guards.contains_key(id)
        &&& match self.system.guards[id] {
            GuardTask::ReadDrop(release) => {
                release is Take && self.system.read_released(id, seen, taken, post.system)
            },
            GuardTask::WriteDrop(release) => {
                release is Take && self.system.write_released(id, seen, taken, post.system)
            },
            _ => false,
        }
        &&& seen == Seen::Found(true)
    }

    /// The future of slot `id` was notified and is dropped instead of polled,
    /// while the lock is free, other writers are parked, and nobody else is on
    /// the way.
    pub open spec fn drops_notification(
        self,
        id: usize,
        seen: Seen,
        taken: Seq<Waker>,
        post: Self,
    ) -> bool {
        &&& self.system.write_dropped(id, seen, taken, post.system)
        &&& self.system.futures[id] == FutureTask::Dropping(WriteCancel::Remove)
        &&& self.notified.contains(id)
        &&& self.system.mem.state == 1
        &&& seen == Seen::Found(true)
        &&& forall|a: usize| a != id ==> !#[trigger] self.on_the_way(a)
    }

    /// A step that drops neither a notification in this way nor a write guard
    /// before the registered future that it came from.
    pub open spec fn orderly_step(
        self,
        id: usize,
        writer: bool,
        waker: Option<Waker>,
        seen: Seen,
        taken: Seq<Waker>,
        woken: usize,
        post: Self,
    ) -> bool {
        &&& self.step(id, writer, waker, seen, taken, woken, post)
        &&& !self.drops_notification(id, seen, taken, post)
        &&& !self.system.drops_guard_first(id, post.system)
    }
}

proof fn lemma_parked_odd(
    pre: RwWatch,
    id: usize,
    writer: bool,
    waker: Option<Waker>,
    seen: Seen,
    taken: Seq<Waker>,
    woken: usize,
    post: RwWatch,
    p: usize,
)
    requires
        pre.system.excludes(),
        pre.odd_while_parked(),
        pre.step(id, writer, waker, seen, taken, woken, post),
        post.parked(p),
    ensures
        post.system.mem.state % 2 == 1,
{
    if pre.parked(p) {
        if pre.system.read_polled(id, waker, seen, taken, post.system) || pre.system.write_polled(
            id,
            waker,
            seen,
            taken,
            post.system,
        ) || pre.system.write_dropped(id, seen, taken, post.system) {
            assert(pre.system.futures[id].wf());
        }
    }
}

/// Every step of every future and guard, in every interleaving, keeps the state
/// word odd while a writer is parked.
pub proof fn law_every_step_keeps_parked_writers_odd(
    pre: RwWatch,
    id: usize,
    writer: bool,
    waker: Option<Waker>,
    seen: Seen,
    taken: Seq<Waker>,
    woken: usize,
    post: RwWatch,
)
    requires
        pre.system.excludes(),
        pre.odd_while_parked(),
        pre.step(id, writer, waker, seen, taken, woken, post),
    ensures
        post.odd_while_parked(),
{
    crate::rwlock_word::lemma_one_holder(
        pre.system,
        id,
        writer,
        waker,
        seen,
        taken,
        post.system,
    );
    assert forall|p: usize| #[trigger] post.parked(p) implies post.system.mem.state % 2 == 1 by {
        lemma_parked_odd(pre, id, writer, waker, seen, taken, woken, post, p);
    }
}

/// Whoever is on the way stays on the way, or takes the lock, or leaves no
/// parked writer behind.
proof fn lemma_active_stays(
    pre: RwWatch,
    id: usize,
    writer: bool,
    waker: Option<Waker>,
    seen: Seen,
    taken: Seq<Waker>,
    woken: usize,
    post: RwWatch,
)
    requires
        pre.system.excludes(),
        pre.attends_writers(),
        pre.orderly_step(id, writer, waker, seen, taken, woken, post),
        pre.active(),
        post.system.mem.state == 1,
        exists|p: usize| #[trigger] post.parked(p),
    ensures
        post.active(),
{
    let a = choose|a: usize| pre.on_the_way(a);
    let p = choose|p: usize| #[trigger] post.parked(p);
    if a != id {
        assert(post.on_the_way(a));
    } else if pre.tries(a) {
        assert(pre.system.futures[id].wf());
        assert(post.on_the_way(a));
    } else if pre.awakes(a) {
        if pre.system.write_dropped(id, seen, taken, post.system) {
            assert(post.system.mem.writers.contains_key(p));
            let b = choose|b: usize| b != id && #[trigger] pre.on_the_way(b);
            assert(post.on_the_way(b));
        } else {
            assert(post.on_the_way(a));
        }
    } else if pre.system.read_released(id, seen, taken, post.system) {
        if seen == Seen::Found(true) {
            lemma_woken_active(pre, id, writer, waker, seen, taken, woken, post);
        } else {
            assert(post.system.mem.writers.contains_key(p));
            assert(false);
        }
    } else {
        assert(post.on_the_way(a));
    }
}

/// A writer whose waker is taken while the lock is free, or by the guard that
/// gives the write lock back, is on the way.
proof fn lemma_woken_active(
    pre: RwWatch,
    id: usize,
    writer: bool,
    waker: Option<Waker>,
    seen: Seen,
    taken: Seq<Waker>,
    woken: usize,
    post: RwWatch,
)
    requires
        pre.system.excludes(),
        pre.attends_writers(),
        pre.orderly_step(id, writer, waker, seen, taken, woken, post),
        pre.took(id, seen, taken, post),
        pre.system.mem.state == 1 || pre.system.guards[id] is WriteDrop,
    ensures
        post.active(),
{
    assert(pre.system.mem.writers.contains_key(woken));
    assert(pre.system.futures.contains_key(woken));
    assert(!pre.system.futures[woken].holds_writers());
    if pre.system.guards.contains_key(woken) {
        assert(pre.system.has_writer(woken));
        if pre.system.guards[id] is WriteDrop {
            assert(pre.system.has_writer(id));
        }
        assert(false);
    }
    assert(post.on_the_way(woken));
}

/// A lock that is about to be unlocked for a writer has someone on the way.
proof fn lemma_handed_active(
    pre: RwWatch,
    id: usize,
    writer: bool,
    waker: Option<Waker>,
    seen: Seen,
    taken: Seq<Waker>,
    woken: usize,
    post: RwWatch,
)
    requires
        pre.system.excludes(),
        pre.attends_writers(),
        pre.orderly_step(id, writer, waker, seen, taken, woken, post),
    ensures
        forall|h: usize| #[trigger] post.system.hands_over(h) ==> post.active(),
{
    assert forall|h: usize| #[trigger] post.system.hands_over(h) implies post.active() by {
        if h == id && pre.system.write_released(id, seen, taken, post.system) {
            assert(pre.took(id, seen, taken, post));
            lemma_woken_active(pre, id, writer, waker, seen, taken, woken, post);
        } else {
            assert(pre.system.hands_over(h));
            assert(pre.system.guards[h].holds_writers());
            assert(pre.system.has_writer(h));
            let a = choose|a: usize| pre.on_the_way(a);
            if a == id && pre.tries(a) {
                assert(pre.system.futures[id].wf());
            }
            assert(post.on_the_way(a));
        }
    }
}

/// A free lock with a parked writer has someone on the way.
proof fn lemma_free_active(
    pre: RwWatch,
    id: usize,
    writer: bool,
    waker: Option<Waker>,
    seen: Seen,
    taken: Seq<Waker>,
    woken: usize,
    post: RwWatch,
    p: usize,
)
    requires
        pre.system.excludes(),
        pre.attends_writers(),
        pre.orderly_step(id, writer, waker, seen, taken, woken, post),
        post.parked(p),
        post.system.mem.state == 1,
    ensures
        post.active(),
{
    if pre.active() {
        lemma_active_stays(pre, id, writer, waker, seen, taken, woken, post);
    } else if pre.system.mem.state == 1 {
        assert(!pre.parked(p));
        if pre.rechecks(p) {
            assert(pre.tries(p));
            assert(pre.on_the_way(p));
        }
        assert(false);
    } else if pre.system.read_released(id, seen, taken, post.system) {
        assert(post.passes_on(id));
        assert(post.on_the_way(id));
    } else {
        assert(!pre.system.hands_over(id));
        if pre.system.futures.contains_key(id) {
            assert(pre.system.futures[id].wf());
        }
    }
}

/// In a new lock nobody is parked and nobody sleeps.
pub proof fn law_nobody_sleeps_on_a_new_lock(watch: RwWatch)
    requires
        watch.init(),
    ensures
        watch.attends_writers(),
        watch.registers_sleepers(),
        watch.registers_sleeping_readers(),
{
}

/// Every step of every future and guard, in every interleaving, leaves the
/// parked writers attended to: they keep readers out, and when the lock is
/// free then someone is on the way who will take it or notify one of them.
///
/// Two steps are left out, after which a writer can sleep next to a free lock:
/// a notified writer is dropped while the lock is free, others are parked, and
/// nobody else is on the way; and a write guard is dropped while the finished
/// future that it came from is still registered.
pub proof fn law_every_step_attends_writers(
    pre: RwWatch,
    id: usize,
    writer: bool,
    waker: Option<Waker>,
    seen: Seen,
    taken: Seq<Waker>,
    woken: usize,
    post: RwWatch,
)
    requires
        pre.system.excludes(),
        pre.attends_writers(),
        pre.orderly_step(id, writer, waker, seen, taken, woken, post),
    ensures
        post.attends_writers(),
{
    law_every_step_keeps_parked_writers_odd(pre, id, writer, waker, seen, taken, woken, post);
    crate::rwlock_word::lemma_registered_wf(
        pre.system,
        id,
        writer,
        waker,
        seen,
        taken,
        post.system,
    );
    lemma_handed_active(pre, id, writer, waker, seen, taken, woken, post);
    assert forall|p: usize| #[trigger]
        post.parked(p) && post.system.mem.state == 1 implies post.active() by {
        lemma_free_active(pre, id, writer, waker, seen, taken, woken, post, p);
    }
}

/// No writer is left behind: once no future and no guard is in a program, and
/// a writer is parked, then the lock is held, or a notified writer has yet to
/// be polled.
pub proof fn law_no_writer_left_behind(watch: RwWatch, parked: usize)
    requires
        watch.system.excludes(),
        watch.attends_writers(),
        watch.system.quiet(),
        watch.system.mem.writers.contains_key(parked),
    ensures
        (exists|id: usize| watch.system.has_writer(id)) || watch.system.readers().len() > 0 || (
        exists|id: usize| watch.to_be_polled(id)),
{
    assert(watch.parked(parked));
    if watch.system.mem.state == 1 {
        let a = choose|a: usize| watch.on_the_way(a);
        assert(watch.to_be_polled(a));
    }
}

/// Every step of every future and guard, in every interleaving, leaves every
/// writer registered that sleeps: one that was told to wait and has not been
/// notified.
pub proof fn law_every_step_registers_sleepers(
    pre: RwWatch,
    id: usize,
    writer: bool,
    waker: Option<Waker>,
    seen: Seen,
    taken: Seq<Waker>,
    woken: usize,
    post: RwWatch,
)
    requires
        pre.system.excludes(),
        pre.registers_sleepers(),
        pre.step(id, writer, waker, seen, taken, woken, post),
    ensures
        post.registers_sleepers(),
{
}

/// A writer that was told to wait and has not been notified keeps the state
/// word odd, and so new readers out.
pub proof fn law_sleeping_writer_keeps_the_word_odd(watch: RwWatch, sleeper: usize)
    requires
        watch.odd_while_parked(),
        watch.registers_sleepers(),
        watch.asleep.contains(sleeper),
    ensures
        watch.system.mem.state % 2 == 1,
{
    assert(watch.parked(sleeper));
}

/// No writer sleeps next to a free lock: once no future and no guard is in a
/// program, a writer that was told to wait and has not been notified keeps new
/// readers out, and the lock is held, or another writer was notified and has
/// yet to be polled.
pub proof fn law_no_writer_sleeps_next_to_a_free_lock(watch: RwWatch, sleeper: usize)
    requires
        watch.system.excludes(),
        watch.attends_writers(),
        watch.registers_sleepers(),
        watch.system.quiet(),
        watch.asleep.contains(sleeper),
    ensures
        watch.system.mem.state % 2 == 1,
        (exists|id: usize| watch.system.has_writer(id)) || watch.system.readers().len() > 0 || (
        exists|id: usize| #[trigger] watch.to_be_polled(id) && id != sleeper),
{
    assert(watch.parked(sleeper));
    law_no_writer_left_behind(watch, sleeper);
}

/// Every step of every future and guard, in every interleaving, leaves every
/// reader registered that sleeps: one that was told to wait and whose waker was
/// not taken since.
pub proof fn law_every_step_registers_sleeping_readers(
    pre: RwWatch,
    id: usize,
    writer: bool,
    waker: Option<Waker>,
    seen: Seen,
    taken: Seq<Waker>,
    woken: usize,
    post: RwWatch,
)
    requires
        pre.system.excludes(),
        pre.registers_sleeping_readers(),
        pre.step(id, writer, waker, seen, taken, woken, post),
    ensures
        post.registers_sleeping_readers(),
{
}

/// No reader sleeps next to an open lock: once no future and no guard is in a
/// program, a reader that was told to wait and whose waker was not taken since
/// has the state word odd, which keeps every reader out.
pub proof fn law_no_reader_sleeps_next_to_an_open_lock(watch: RwWatch, sleeper: usize)
    requires
        watch.system.attends_readers(),
        watch.registers_sleeping_readers(),
        watch.system.quiet(),
        watch.asleep_readers.contains(sleeper),
    ensures
        watch.system.mem.state % 2 == 1,
{
    if watch.system.mem.state % 2 == 0 {
        crate::rwlock_laws::law_no_reader_left_behind(watch.system);
    }
}

} // verus!
