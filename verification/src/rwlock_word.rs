//! What the state word of a reader-writer lock says of waiting writers, under
//! every interleaving.
//!
//! The word is odd while a writer waits. The last one that gives up makes it
//! even again, so that an odd word never keeps readers out for nobody.

use crate::rwlock_laws::{FutureTask, GuardTask, RwSystem};
use crate::rwlock_steps::{Seen, WriteCancel, WriteRelease};
use std::task::Waker;
use vstd::prelude::*;

verus! {

impl RwSystem {
    /// At most one future or guard has the map of writers locked.
    pub open spec fn one_holder(self) -> bool {
        &&& forall|a: usize, b: usize| #[trigger]
            self.futures.contains_key(a) && #[trigger] self.futures.contains_key(b)
                && self.futures[a].holds_writers() && self.futures[b].holds_writers()
                ==> a == b
        &&& forall|a: usize, b: usize| #[trigger]
            self.guards.contains_key(a) && #[trigger] self.guards.contains_key(b)
                && self.guards[a].holds_writers() && self.guards[b].holds_writers()
                ==> a == b
        &&& forall|a: usize, b: usize| #[trigger]
            self.futures.contains_key(a) && #[trigger] self.guards.contains_key(b)
                ==> !(self.futures[a].holds_writers()
                && self.guards[b].holds_writers())
    }

    /// What is registered in the map of writers belongs to a future for the
    /// write lock, and if that future has got the lock then its guard is held.
    pub open spec fn registered_wf(self) -> bool {
        forall|id: usize| #[trigger]
            self.mem.writers.contains_key(id) ==> {
                &&& self.futures.contains_key(id)
                &&& match self.futures[id] {
                    FutureTask::Idle { writer } => writer,
                    FutureTask::Writing(_) => true,
                    FutureTask::Finished { writer } => writer && self.guards.contains_key(
                        id,
                    ),
                    FutureTask::Dropping(cancel) => cancel is Remove,
                    _ => false,
                }
                &&& self.guards.contains_key(id) ==> self.guards[id] is Write
            }
    }

    /// The future of slot `id` is for the write lock and has not got it, and if
    /// it is being dropped then it has still to see to the state word.
    pub open spec fn pending_writer(self, id: usize) -> bool {
        &&& self.futures.contains_key(id)
        &&& match self.futures[id] {
            FutureTask::Idle { writer } => writer,
            FutureTask::Writing(_) => true,
            FutureTask::Dropping(cancel) => cancel is Remove || cancel is Load || cancel is Clear,
            _ => false,
        }
    }

    /// The guard of slot `id` is about to unlock for a writer.
    pub open spec fn hands_over(self, id: usize) -> bool {
        &&& self.guards.contains_key(id)
        &&& self.guards[id] == GuardTask::WriteDrop(WriteRelease::Store { handed: true })
    }

    /// A state word that is odd without a write lock, or is about to be, is so
    /// for some writer.
    pub open spec fn odd_for_a_writer(self) -> bool {
        &&& self.one_holder()
        &&& self.registered_wf()
        &&& self.mem.state % 2 == 1 && (forall|a: usize| !#[trigger] self.has_writer(a)) ==> exists|
            id: usize,
        | #[trigger]
            self.pending_writer(id)
        &&& forall|g: usize| #[trigger]
            self.hands_over(g) ==> exists|id: usize| #[trigger] self.pending_writer(id)
    }

    /// The write guard of slot `id` is dropped while the future that it came
    /// from is still there, and registered from an earlier poll.
    pub open spec fn drops_guard_first(self, id: usize, post: Self) -> bool {
        &&& self.released(id, post)
        &&& self.guards[id] is Write
        &&& self.mem.writers.contains_key(id)
    }
}

pub(crate) proof fn lemma_one_holder(
    pre: RwSystem,
    id: usize,
    writer: bool,
    waker: Option<Waker>,
    seen: Seen,
    taken: Seq<Waker>,
    post: RwSystem,
)
    requires
        pre.excludes(),
        pre.one_holder(),
        pre.step(id, writer, waker, seen, taken, post),
    ensures
        post.one_holder(),
{
}

pub(crate) proof fn lemma_registered_wf(
    pre: RwSystem,
    id: usize,
    writer: bool,
    waker: Option<Waker>,
    seen: Seen,
    taken: Seq<Waker>,
    post: RwSystem,
)
    requires
        pre.excludes(),
        pre.one_holder(),
        pre.registered_wf(),
        pre.step(id, writer, waker, seen, taken, post),
        !pre.drops_guard_first(id, post),
    ensures
        post.registered_wf(),
{
}

/// A registered writer waits, unless it has the write lock.
proof fn lemma_registered_pending(system: RwSystem, id: usize)
    requires
        system.registered_wf(),
        system.mem.writers.contains_key(id),
    ensures
        system.pending_writer(id) || system.has_writer(id),
{
}

/// A guard that takes a waker under the write lock leaves a waiting writer.
proof fn lemma_hands_over(
    pre: RwSystem,
    id: usize,
    writer: bool,
    waker: Option<Waker>,
    seen: Seen,
    taken: Seq<Waker>,
    post: RwSystem,
    g: usize,
)
    requires
        pre.excludes(),
        pre.odd_for_a_writer(),
        pre.step(id, writer, waker, seen, taken, post),
        post.hands_over(g),
    ensures
        exists|w: usize| #[trigger] post.pending_writer(w),
{
    if pre.hands_over(g) {
        assert(pre.has_writer(g));
        let w = choose|w: usize| #[trigger] pre.pending_writer(w);
        if w == id && !(pre.futures[w] is Idle) {
            assert(pre.futures[w].wf());
        }
        assert(post.pending_writer(w));
    } else {
        assert(pre.write_released(id, seen, taken, post));
        assert(pre.has_writer(g));
        let w = choose|w: usize| pre.mem.writers.contains_key(w);
        assert(pre.mem.writers.contains_key(w)) by {
            assert(pre.mem.writers != Map::<usize, Waker>::empty());
            if forall|w: usize| !pre.mem.writers.contains_key(w) {
                assert(pre.mem.writers =~= Map::empty());
            }
        }
        lemma_registered_pending(pre, w);
        assert(post.pending_writer(w));
    }
}

proof fn lemma_odd_pending(
    pre: RwSystem,
    id: usize,
    writer: bool,
    waker: Option<Waker>,
    seen: Seen,
    taken: Seq<Waker>,
    post: RwSystem,
)
    requires
        pre.excludes(),
        pre.odd_for_a_writer(),
        pre.readers().len() < 0x7fff_ffff,
        pre.step(id, writer, waker, seen, taken, post),
        post.mem.state % 2 == 1,
        forall|a: usize| !#[trigger] post.has_writer(a),
    ensures
        exists|w: usize| #[trigger] post.pending_writer(w),
{
    if exists|a: usize| #[trigger] pre.has_writer(a) {
        let a = choose|a: usize| #[trigger] pre.has_writer(a);
        assert(a == id && pre.write_released(id, seen, taken, post)) by {
            assert(!post.has_writer(a));
        }
        assert(pre.hands_over(id));
        let w = choose|w: usize| #[trigger] pre.pending_writer(w);
        assert(post.pending_writer(w));
    } else if pre.mem.state % 2 == 0 {
        if pre.futures.contains_key(id) {
            assert(pre.futures[id].wf());
        }
        assert(!pre.has_writer(id) && !post.has_writer(id));
        assert(post.pending_writer(id));
    } else {
        let w = choose|w: usize| #[trigger] pre.pending_writer(w);
        if pre.write_dropped(id, seen, taken, post) && w == id {
            assert(pre.futures[id].wf());
            if pre.futures[id] == FutureTask::Dropping(WriteCancel::Remove) && seen == Seen::Found(
                true,
            ) {
                let other = choose|other: usize| post.mem.writers.contains_key(other);
                assert(post.mem.writers.contains_key(other)) by {
                    if forall|o: usize| !post.mem.writers.contains_key(o) {
                        assert(post.mem.writers =~= Map::empty());
                    }
                }
                assert(other != id);
                lemma_registered_pending(pre, other);
                assert(post.pending_writer(other));
            } else {
                assert(post.pending_writer(id));
            }
        } else {
            if w == id && !(pre.futures[w] is Idle) {
                assert(pre.futures[w].wf());
            }
            assert(!post.has_writer(id));
            assert(post.pending_writer(w));
        }
    }
}

/// The state word of a new lock is even.
pub proof fn law_new_lock_is_even(system: RwSystem)
    requires
        system.init(),
    ensures
        system.mem.state % 2 == 0,
        system.odd_for_a_writer(),
{
}

/// Every step of every future and guard, in every interleaving, keeps the
/// state word odd only for a writer: if it is odd and nobody has the write
/// lock, then some future for the write lock waits, or is being dropped and
/// will see to the word.
///
/// Left out is a write guard that is dropped while the finished future that it
/// came from is still registered: it may unlock for that very future. With
/// 2^31 - 1 read locks an odd word looks like a write lock, and a future that
/// gives up then leaves it, so the law asks for fewer.
pub proof fn law_every_step_is_odd_for_a_writer(
    pre: RwSystem,
    id: usize,
    writer: bool,
    waker: Option<Waker>,
    seen: Seen,
    taken: Seq<Waker>,
    post: RwSystem,
)
    requires
        pre.excludes(),
        pre.odd_for_a_writer(),
        pre.readers().len() < 0x7fff_ffff,
        pre.step(id, writer, waker, seen, taken, post),
        !pre.drops_guard_first(id, post),
    ensures
        post.odd_for_a_writer(),
{
    lemma_one_holder(pre, id, writer, waker, seen, taken, post);
    lemma_registered_wf(pre, id, writer, waker, seen, taken, post);
    assert forall|g: usize| #[trigger] post.hands_over(g) implies exists|w: usize| #[trigger]
        post.pending_writer(w) by {
        lemma_hands_over(pre, id, writer, waker, seen, taken, post, g);
    }
    if post.mem.state % 2 == 1 && (forall|a: usize| !#[trigger] post.has_writer(a)) {
        lemma_odd_pending(pre, id, writer, waker, seen, taken, post);
    }
}

/// The state word is even when nobody waits for the write lock: once no future
/// and no guard is in a program, an odd word without a write lock has a future
/// for the write lock that has not finished.
pub proof fn law_odd_word_has_a_waiting_writer(system: RwSystem)
    requires
        system.odd_for_a_writer(),
        system.quiet(),
        forall|a: usize| !#[trigger] system.has_writer(a),
        system.mem.state % 2 == 1,
    ensures
        exists|id: usize| #[trigger]
            system.futures.contains_key(id) && system.futures[id] == (FutureTask::Idle {
                writer: true,
            }),
{
    let w = choose|w: usize| #[trigger] system.pending_writer(w);
    assert(system.futures.contains_key(w));
}

} // verus!
