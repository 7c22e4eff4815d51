//! A reader-writer lock for tasks: the lock, its futures and its guards.
//!
//! The calls here run the programs of [`crate::rwlock_steps`] from start to
//! end without a step of another task in between. A call that makes tasks
//! ready to go on returns their wakers, in the order in which to wake by them.

use crate::rwlock_steps::{
    ReadPoll, ReadRelease, RwMem, RwOp, Seen, WriteCancel, WritePoll, WriteRelease, FULL,
    WRITE_LOCKED,
};
use crate::waker::Poll;
use crate::waker_map::WakerMap;
use std::task::Waker;
use vstd::prelude::*;

verus! {

/// A reader-writer lock around a value. Writers that wait keep new readers
/// out.
pub struct RwLock<T> {
    /// The number of read locks times two, plus one if there's a writer waiting.
    /// u32::MAX if write-locked.
    ///
    /// This means that readers may acquire the lock when
    /// the state is even, but need to block when odd.
    state: u32,
    value: T,
    writer_wakers: WakerMap,
    reader_wakers: WakerMap,
    next_waiter_id: usize,
}

/// What a reader-writer lock holds.
pub struct RwLockView<T> {
    /// The memory that the programs work on.
    pub mem: RwMem,
    /// The value under the lock.
    pub value: T,
    /// The slot id of the next future.
    pub next_waiter_id: usize,
}

impl<T> View for RwLock<T> {
    type V = RwLockView<T>;

    closed spec fn view(&self) -> RwLockView<T> {
        RwLockView {
            mem: RwMem {
                state: self.state,
                writers: self.writer_wakers@,
                readers: self.reader_wakers@,
            },
            value: self.value,
            next_waiter_id: self.next_waiter_id,
        }
    }
}

impl<T> RwLock<T> {
    /// An unlocked lock around `value`.
    pub fn new(value: T) -> (lock: Self)
        ensures
            lock@.value == value,
            lock@.mem.state == 0,
            lock@.mem.writers == Map::<usize, Waker>::empty(),
            lock@.mem.readers == Map::<usize, Waker>::empty(),
            lock@.next_waiter_id == 0,
    {
        RwLock {
            state: 0,  // unlocked
            value,
            writer_wakers: WakerMap::new(),
            reader_wakers: WakerMap::new(),
            next_waiter_id: 0,
        }
    }

    /// A future that waits for a read lock, with a slot id of its own.
    pub fn read(&mut self) -> (future: ReadLockFuture)
        ensures
            future.slot_id() == old(self)@.next_waiter_id,
            final(self)@ == (RwLockView {
                next_waiter_id: old(self)@.next_waiter_id.wrapping_add(1),
                ..old(self)@
            }),
    {
        ReadLockFuture { slot_id: self.next_slot_id() }
    }

    /// A future that waits for the write lock, with a slot id of its own.
    pub fn write(&mut self) -> (future: WriteLockFuture)
        ensures
            future.slot_id() == old(self)@.next_waiter_id,
            final(self)@ == (RwLockView {
                next_waiter_id: old(self)@.next_waiter_id.wrapping_add(1),
                ..old(self)@
            }),
    {
        WriteLockFuture { slot_id: self.next_slot_id() }
    }

    /// The next slot id. The counter wraps around.
    pub fn next_slot_id(&mut self) -> (id: usize)
        ensures
            id == old(self)@.next_waiter_id,
            final(self)@ == (RwLockView {
                next_waiter_id: old(self)@.next_waiter_id.wrapping_add(1),
                ..old(self)@
            }),
    {
        let id = self.next_waiter_id;
        self.next_waiter_id = id.wrapping_add(1);
        id
    }

    /// Performs one operation on the memory of the lock, for the task of slot
    /// `slot` with the waker `waker`. Returns what it saw and the wakers that
    /// it took.
    ///
    /// An exchange fails here only if another word stands in its way.
    pub fn perform(&mut self, op: RwOp, slot: usize, waker: Option<&Waker>) -> (outcome: (
        Seen,
        Vec<Waker>,
    ))
        requires
            op.parks() ==> waker is Some,
        ensures
            op.performed(
                slot,
                match waker {
                    Some(waker) => Some(*waker),
                    None => None,
                },
                old(self)@.mem,
                outcome.0,
                outcome.1@,
                final(self)@.mem,
            ),
            op matches RwOp::Exchange { from, to } ==> (outcome.0 is Swapped <==> old(
                self,
            )@.mem.state == from),
            final(self)@.value == old(self)@.value,
            final(self)@.next_waiter_id == old(self)@.next_waiter_id,
    {
        let mut taken: Vec<Waker> = Vec::new();
        let seen = match op {
            RwOp::Load => Seen::Word(self.state),
            RwOp::Exchange { from, to } => if self.state == from {
                self.state = to;
                Seen::Swapped
            } else {
                Seen::Word(self.state)
            },
            RwOp::Store { to } => {
                self.state = to;
                Seen::Done
            },
            RwOp::Subtract => {
                let previous = self.state;
                self.state = previous.wrapping_sub(2);
                Seen::Word(previous)
            },
            RwOp::ParkWriter => {
                self.writer_wakers.register(slot, waker.unwrap());
                Seen::Done
            },
            RwOp::UnparkWriter => {
                let _ = self.writer_wakers.remove(slot);
                Seen::Done
            },
            RwOp::RemoveWriter => {
                let _ = self.writer_wakers.remove(slot);
                Seen::Found(!self.writer_wakers.is_empty())
            },
            RwOp::TakeWriter => {
                match self.writer_wakers.take_any() {
                    Some((id, waker)) => {
                        taken.push(waker);
                        assert(RwOp::took_writer(old(self)@.mem, id, taken@, self@.mem)) by {
                            assert(taken@ =~= seq![old(self)@.mem.writers[id]]);
                        }
                        Seen::Found(true)
                    },
                    None => Seen::Found(false),
                }
            },
            RwOp::ParkReader => {
                self.reader_wakers.register(slot, waker.unwrap());
                Seen::Done
            },
            RwOp::UnparkReader | RwOp::RemoveReader => {
                let _ = self.reader_wakers.remove(slot);
                Seen::Done
            },
            RwOp::DrainReaders => {
                taken = self.reader_wakers.drain();
                Seen::Done
            },
            RwOp::LeaveWriters | RwOp::LeaveReaders | RwOp::Wake => Seen::Done,
        };
        (seen, taken)
    }
}

/// A future that waits for the write lock.
pub struct WriteLockFuture {
    slot_id: usize,
}

impl WriteLockFuture {
    /// The slot of the future's waker.
    pub closed spec fn slot_id(self) -> usize {
        self.slot_id
    }

    /// How far the poll is from its end when nobody interferes.
    spec fn distance(poll: WritePoll) -> nat {
        match poll {
            WritePoll::Load => 6,
            WritePoll::Acquire { .. } | WritePoll::Announce { .. } => 5,
            WritePoll::Park => 4,
            WritePoll::Recheck => 3,
            WritePoll::Unpark { .. } | WritePoll::Leave => 2,
            WritePoll::Ready | WritePoll::Pending => 1,
        }
    }

    /// Takes the write lock if the lock is free. If it is not, makes the state
    /// odd, so that no new reader gets in, and parks the task.
    pub fn poll<T>(&mut self, lock: &mut RwLock<T>, waker: &Waker) -> (poll: Poll<WriteGuard>)
        ensures
            *final(self) == *old(self),
            final(lock)@.value == old(lock)@.value,
            final(lock)@.next_waiter_id == old(lock)@.next_waiter_id,
            poll is Ready <==> old(lock)@.mem.state <= 1,
            poll is Ready ==> final(lock)@.mem == old(lock)@.mem.with_state(WRITE_LOCKED),
            poll is Pending ==> {
                &&& final(lock)@.mem == (RwMem {
                    state: if old(lock)@.mem.state % 2 == 0 {
                        (old(lock)@.mem.state + 1) as u32
                    } else {
                        old(lock)@.mem.state
                    },
                    writers: old(lock)@.mem.writers.insert(
                        old(self).slot_id(),
                        final(lock)@.mem.writers[old(self).slot_id()],
                    ),
                    ..old(lock)@.mem
                })
                &&& cloned(*waker, final(lock)@.mem.writers[old(self).slot_id()])
            },
            final(lock)@.mem.readers == old(lock)@.mem.readers,
            poll is Ready ==> {
                &&& final(lock)@.mem.state == u32::MAX
                &&& final(lock)@.mem.writers == old(lock)@.mem.writers
            },
            // a writer that has to wait leaves the read locks and keeps new ones out
            poll is Pending ==> {
                &&& final(lock)@.mem.state % 2 == 1
                &&& final(lock)@.mem.state / 2 == old(lock)@.mem.state / 2
                &&& final(lock)@.mem.writers.contains_key(old(self).slot_id())
                &&& final(lock)@.mem.writers.remove(old(self).slot_id())
                    == old(lock)@.mem.writers.remove(old(self).slot_id())
            },
    {
        let ghost before = lock@.mem;
        let ghost slot = self.slot_id;
        let ghost announced = if before.state % 2 == 0 {
            (before.state + 1) as u32
        } else {
            before.state
        };
        let mut poll = WritePoll::Load;
        loop
            invariant
                slot == self.slot_id,
                self.slot_id == old(self).slot_id,
                before == old(lock)@.mem,
                announced == (if before.state % 2 == 0 {
                    (before.state + 1) as u32
                } else {
                    before.state
                }),
                lock@.value == old(lock)@.value,
                lock@.next_waiter_id == old(lock)@.next_waiter_id,
                poll.wf(),
                match poll {
                    WritePoll::Load => lock@.mem == before,
                    WritePoll::Acquire { seen } => lock@.mem == before && seen == before.state,
                    WritePoll::Announce { seen } => lock@.mem == before && seen == before.state,
                    WritePoll::Park => {
                        &&& before.state > 1
                        &&& lock@.mem == before.with_state(announced)
                    },
                    WritePoll::Recheck | WritePoll::Leave | WritePoll::Pending => {
                        &&& before.state > 1
                        &&& lock@.mem == (RwMem {
                            state: announced,
                            writers: before.writers.insert(slot, lock@.mem.writers[slot]),
                            ..before
                        })
                        &&& cloned(*waker, lock@.mem.writers[slot])
                    },
                    WritePoll::Unpark { .. } => false,
                    WritePoll::Ready => {
                        &&& before.state <= 1
                        &&& lock@.mem == before.with_state(WRITE_LOCKED)
                    },
                },
            decreases Self::distance(poll),
        {
            match poll {
                WritePoll::Ready => {
                    return Poll::Ready(WriteGuard { _held: () });
                },
                WritePoll::Pending => {
                    assert(lock@.mem.writers.remove(slot) =~= before.writers.remove(slot));
                    return Poll::Pending;
                },
                _ => {
                    let (seen, _) = lock.perform(poll.op(), self.slot_id, Some(waker));
                    poll = poll.next(seen);
                },
            }
        }
    }

    /// How far the drop is from its end when nobody interferes.
    spec fn drop_distance(cancel: WriteCancel) -> nat {
        match cancel {
            WriteCancel::Remove => 7,
            WriteCancel::Load => 6,
            WriteCancel::Clear { .. } => 5,
            WriteCancel::Leave { .. } => 4,
            WriteCancel::Drain => 3,
            WriteCancel::Wake => 2,
            WriteCancel::Done => 1,
        }
    }

    /// Drops the future. Its waker, which would be stale, leaves the lock. If
    /// no other writer is parked, none waits any more: the state becomes even
    /// unless the lock is write-locked, and all parked readers are to wake.
    pub fn drop<T>(self, lock: &mut RwLock<T>) -> (wakers: Vec<Waker>)
        ensures
            final(lock)@.value == old(lock)@.value,
            final(lock)@.next_waiter_id == old(lock)@.next_waiter_id,
            final(lock)@.mem.writers == old(lock)@.mem.writers.remove(self.slot_id()),
            final(lock)@.mem.writers != Map::<usize, Waker>::empty() ==> {
                &&& final(lock)@.mem.state == old(lock)@.mem.state
                &&& final(lock)@.mem.readers == old(lock)@.mem.readers
                &&& wakers@.len() == 0
            },
            final(lock)@.mem.writers == Map::<usize, Waker>::empty() ==> {
                &&& final(lock)@.mem.state == WriteLockFuture::cleared(old(lock)@.mem.state)
                &&& final(lock)@.mem.readers == Map::<usize, Waker>::empty()
                &&& crate::waker_map::drained(old(lock)@.mem.readers, wakers@)
            },
            // the read locks are what they were
            old(lock)@.mem.state != u32::MAX ==> final(lock)@.mem.state / 2 == old(
                lock,
            )@.mem.state / 2,
            old(lock)@.mem.state == u32::MAX ==> final(lock)@.mem.state == u32::MAX,
            // if no writer waits any more, readers may enter
            final(lock)@.mem.writers.dom() == Set::<usize>::empty() && old(lock)@.mem.state
                != u32::MAX ==> final(lock)@.mem.state % 2 == 0,
            // and those who waited are to wake, each once
            final(lock)@.mem.writers.dom() == Set::<usize>::empty() ==> {
                &&& final(lock)@.mem.readers.dom() == Set::<usize>::empty()
                &&& wakers@.len() == old(lock)@.mem.readers.dom().len()
                &&& forall|id: usize| #[trigger]
                    old(lock)@.mem.readers.contains_key(id) ==> wakers@.contains(
                        old(lock)@.mem.readers[id],
                    )
            },
            // if another writer waits, readers wait on
            final(lock)@.mem.writers.dom() != Set::<usize>::empty() ==> {
                &&& final(lock)@.mem.state == old(lock)@.mem.state
                &&& final(lock)@.mem.readers == old(lock)@.mem.readers
                &&& wakers@.len() == 0
            },
    {
        let ghost before = lock@.mem;
        let ghost slot = self.slot_id;
        let mut wakers: Vec<Waker> = Vec::new();
        let mut cancel = WriteCancel::Remove;
        loop
            invariant
                slot == self.slot_id,
                before == old(lock)@.mem,
                lock@.value == old(lock)@.value,
                lock@.next_waiter_id == old(lock)@.next_waiter_id,
                cancel.wf(),
                !(cancel is Wake || cancel is Done) ==> wakers@.len() == 0,
                !(cancel is Remove) ==> lock@.mem.writers == before.writers.remove(slot),
                match cancel {
                    WriteCancel::Remove => lock@.mem == before,
                    WriteCancel::Load => {
                        &&& lock@.mem.writers == Map::<usize, Waker>::empty()
                        &&& lock@.mem.state == before.state
                        &&& lock@.mem.readers == before.readers
                    },
                    WriteCancel::Clear { seen } => {
                        &&& lock@.mem.writers == Map::<usize, Waker>::empty()
                        &&& lock@.mem.state == before.state
                        &&& seen == before.state
                        &&& lock@.mem.readers == before.readers
                    },
                    WriteCancel::Leave { last } => {
                        &&& last == (lock@.mem.writers == Map::<usize, Waker>::empty())
                        &&& lock@.mem.state == (if last {
                            Self::cleared(before.state)
                        } else {
                            before.state
                        })
                        &&& lock@.mem.readers == before.readers
                    },
                    WriteCancel::Drain => {
                        &&& lock@.mem.writers == Map::<usize, Waker>::empty()
                        &&& lock@.mem.state == Self::cleared(before.state)
                        &&& lock@.mem.readers == before.readers
                    },
                    WriteCancel::Wake => {
                        &&& lock@.mem.writers == Map::<usize, Waker>::empty()
                        &&& lock@.mem.state == Self::cleared(before.state)
                        &&& lock@.mem.readers == Map::<usize, Waker>::empty()
                        &&& crate::waker_map::drained(before.readers, wakers@)
                    },
                    WriteCancel::Done => if lock@.mem.writers == Map::<usize, Waker>::empty() {
                        &&& lock@.mem.state == Self::cleared(before.state)
                        &&& lock@.mem.readers == Map::<usize, Waker>::empty()
                        &&& crate::waker_map::drained(before.readers, wakers@)
                    } else {
                        &&& lock@.mem.state == before.state
                        &&& lock@.mem.readers == before.readers
                        &&& wakers@.len() == 0
                    },
                },
            decreases Self::drop_distance(cancel),
        {
            match cancel {
                WriteCancel::Done => {
                    proof {
                        let left = lock@.mem.writers;
                        assert(left.dom() =~= Set::<usize>::empty() ==> left =~= Map::empty());
                        assert(Map::<usize, Waker>::empty().dom() =~= Set::<usize>::empty());
                        if left == Map::<usize, Waker>::empty() {
                            crate::waker_map::law_drained(before.readers, wakers@);
                        }
                        Self::law_last_writer_makes_the_word_even(before.state);
                    }
                    return wakers;
                },
                _ => {
                    let (seen, mut taken) = lock.perform(cancel.op(), self.slot_id, None);
                    let ghost had = wakers@;
                    let ghost got = taken@;
                    wakers.append(&mut taken);
                    assert(had.len() == 0 ==> wakers@ =~= got);
                    assert(got.len() == 0 ==> wakers@ =~= had);
                    cancel = cancel.next(seen);
                },
            }
        }
    }

    /// The state word when no writer waits any more.
    pub open spec fn cleared(word: u32) -> u32 {
        if word % 2 == 1 && word != WRITE_LOCKED {
            (word - 1) as u32
        } else {
            word
        }
    }

    /// When the last writer that waits gives up, the state word becomes even
    /// and counts the read locks that it counted before, however many; only the
    /// word of a writer that has the lock stays.
    pub proof fn law_last_writer_makes_the_word_even(word: u32)
        ensures
            word != u32::MAX ==> Self::cleared(word) % 2 == 0,
            word != u32::MAX ==> Self::cleared(word) / 2 == word / 2,
            word == u32::MAX ==> Self::cleared(word) == u32::MAX,
    {
    }

    /// A writer that waits and gives up leaves no trace in the state word: from
    /// an even word it makes an odd one as it begins to wait, and the even one
    /// again as it gives up.
    pub proof fn law_giving_up_undoes_waiting(word: u32)
        requires
            word % 2 == 0,
            word < u32::MAX - 1,
        ensures
            Self::cleared((word + 1) as u32) == word,
            ReadPoll::Load.after(
                Seen::Word(Self::cleared((word + 1) as u32)),
            ).pending_op() == (RwOp::Exchange { from: word, to: (word + 2) as u32 }),
    {
    }
}

/// A future that waits for a read lock.
pub struct ReadLockFuture {
    slot_id: usize,
}

impl ReadLockFuture {
    /// The slot of the future's waker.
    pub closed spec fn slot_id(self) -> usize {
        self.slot_id
    }

    /// How far the poll is from its end when nobody interferes.
    spec fn distance(poll: ReadPoll) -> nat {
        match poll {
            ReadPoll::Load => 6,
            ReadPoll::Acquire { .. } => 5,
            ReadPoll::Park => 4,
            ReadPoll::Recheck => 3,
            ReadPoll::Unpark { .. } | ReadPoll::Leave => 2,
            ReadPoll::Ready | ReadPoll::Pending => 1,
        }
    }

    /// Takes a read lock if the state is even, else parks the task. The count
    /// of readers has room for one more.
    pub fn poll<T>(&mut self, lock: &mut RwLock<T>, waker: &Waker) -> (poll: Poll<ReadGuard>)
        requires
            old(lock)@.mem.state != FULL,
        ensures
            *final(self) == *old(self),
            final(lock)@.value == old(lock)@.value,
            final(lock)@.next_waiter_id == old(lock)@.next_waiter_id,
            poll is Ready <==> old(lock)@.mem.state % 2 == 0,
            poll is Ready ==> final(lock)@.mem == old(lock)@.mem.with_state(
                (old(lock)@.mem.state + 2) as u32,
            ),
            poll is Pending ==> {
                &&& final(lock)@.mem == (RwMem {
                    readers: old(lock)@.mem.readers.insert(
                        old(self).slot_id(),
                        final(lock)@.mem.readers[old(self).slot_id()],
                    ),
                    ..old(lock)@.mem
                })
                &&& cloned(*waker, final(lock)@.mem.readers[old(self).slot_id()])
            },
            final(lock)@.mem.writers == old(lock)@.mem.writers,
            poll is Ready ==> {
                &&& final(lock)@.mem.state == old(lock)@.mem.state + 2
                &&& final(lock)@.mem.readers == old(lock)@.mem.readers
            },
            poll is Pending ==> {
                &&& final(lock)@.mem.state == old(lock)@.mem.state
                &&& final(lock)@.mem.readers.contains_key(old(self).slot_id())
                &&& final(lock)@.mem.readers.remove(old(self).slot_id())
                    == old(lock)@.mem.readers.remove(old(self).slot_id())
            },
    {
        let ghost before = lock@.mem;
        let ghost slot = self.slot_id;
        let mut poll = ReadPoll::Load;
        loop
            invariant
                slot == self.slot_id,
                self.slot_id == old(self).slot_id,
                before == old(lock)@.mem,
                before.state != FULL,
                lock@.value == old(lock)@.value,
                lock@.next_waiter_id == old(lock)@.next_waiter_id,
                poll.wf(),
                match poll {
                    ReadPoll::Load => lock@.mem == before,
                    ReadPoll::Acquire { seen } => lock@.mem == before && seen == before.state,
                    ReadPoll::Park => before.state % 2 == 1 && lock@.mem == before,
                    ReadPoll::Recheck | ReadPoll::Leave | ReadPoll::Pending => {
                        &&& before.state % 2 == 1
                        &&& lock@.mem == (RwMem {
                            readers: before.readers.insert(slot, lock@.mem.readers[slot]),
                            ..before
                        })
                        &&& cloned(*waker, lock@.mem.readers[slot])
                    },
                    ReadPoll::Unpark { .. } => false,
                    ReadPoll::Ready => {
                        &&& before.state % 2 == 0
                        &&& lock@.mem == before.with_state((before.state + 2) as u32)
                    },
                },
            decreases Self::distance(poll),
        {
            match poll {
                ReadPoll::Ready => {
                    return Poll::Ready(ReadGuard { _held: () });
                },
                ReadPoll::Pending => {
                    assert(lock@.mem.readers.remove(slot) =~= before.readers.remove(slot));
                    return Poll::Pending;
                },
                _ => {
                    let (seen, _) = lock.perform(poll.op(), self.slot_id, Some(waker));
                    poll = poll.next(seen);
                },
            }
        }
    }

    /// Drops the future: its waker leaves the lock.
    pub fn drop<T>(self, lock: &mut RwLock<T>)
        ensures
            final(lock)@ == (RwLockView {
                mem: RwMem {
                    readers: old(lock)@.mem.readers.remove(self.slot_id()),
                    ..old(lock)@.mem
                },
                ..old(lock)@
            }),
    {
        let _ = lock.perform(RwOp::RemoveReader, self.slot_id, None);
    }
}

/// The right to read the value of a lock.
pub struct ReadGuard {
    _held: (),
}

impl ReadGuard {
    /// The value under the lock.
    pub fn deref<'a, T>(&self, lock: &'a RwLock<T>) -> (value: &'a T)
        ensures
            *value == lock@.value,
    {
        &lock.value
    }

    /// How far the drop is from its end.
    spec fn distance(release: ReadRelease) -> nat {
        match release {
            ReadRelease::Subtract => 5,
            ReadRelease::Take => 4,
            ReadRelease::Wake => 3,
            ReadRelease::Leave => 2,
            ReadRelease::Done => 1,
        }
    }

    /// Gives the read lock back. If it was the last one and a writer waits,
    /// some parked writer is to wake.
    pub fn drop<T>(self, lock: &mut RwLock<T>) -> (wakers: Vec<Waker>)
        ensures
            final(lock)@.value == old(lock)@.value,
            final(lock)@.next_waiter_id == old(lock)@.next_waiter_id,
            old(lock)@.mem.state == 3 && old(lock)@.mem.writers != Map::<usize, Waker>::empty()
                ==> exists|id: usize| #[trigger]
                RwOp::took_writer(old(lock)@.mem.with_state(1), id, wakers@, final(lock)@.mem),
            old(lock)@.mem.state != 3 || old(lock)@.mem.writers == Map::<usize, Waker>::empty()
                ==> {
                &&& final(lock)@.mem == old(lock)@.mem.with_state(
                    old(lock)@.mem.state.wrapping_sub(2),
                )
                &&& wakers@.len() == 0
            },
            final(lock)@.mem.readers == old(lock)@.mem.readers,
            // one read lock less, and who waits is still announced
            old(lock)@.mem.state >= 2 ==> final(lock)@.mem.state + 2 == old(lock)@.mem.state,
            // the last one wakes one parked writer, by its own waker
            old(lock)@.mem.state == 3 && old(lock)@.mem.writers.dom() != Set::<usize>::empty()
                ==> exists|id: usize|
                old(lock)@.mem.writers.contains_key(id) && final(lock)@.mem.writers
                    == #[trigger] old(lock)@.mem.writers.remove(id) && wakers@ == seq![
                    old(lock)@.mem.writers[id],
                ],
            old(lock)@.mem.state != 3 || old(lock)@.mem.writers.dom() == Set::<usize>::empty()
                ==> final(lock)@.mem.writers == old(lock)@.mem.writers && wakers@.len() == 0,
    {
        let ghost before = lock@.mem;
        let ghost counted = before.with_state(before.state.wrapping_sub(2));
        let mut wakers: Vec<Waker> = Vec::new();
        let mut release = ReadRelease::Subtract;
        loop
            invariant
                before == old(lock)@.mem,
                counted == before.with_state(before.state.wrapping_sub(2)),
                lock@.value == old(lock)@.value,
                lock@.next_waiter_id == old(lock)@.next_waiter_id,
                match release {
                    ReadRelease::Subtract => lock@.mem == before && wakers@.len() == 0,
                    ReadRelease::Take => {
                        &&& before.state == 3
                        &&& lock@.mem == counted
                        &&& wakers@.len() == 0
                    },
                    ReadRelease::Wake => {
                        &&& before.state == 3
                        &&& before.writers != Map::<usize, Waker>::empty()
                        &&& exists|id: usize| #[trigger]
                            RwOp::took_writer(counted, id, wakers@, lock@.mem)
                    },
                    ReadRelease::Leave | ReadRelease::Done => if before.state == 3
                        && before.writers != Map::<usize, Waker>::empty() {
                        exists|id: usize| #[trigger]
                            RwOp::took_writer(counted, id, wakers@, lock@.mem)
                    } else {
                        lock@.mem == counted && wakers@.len() == 0
                    },
                },
            decreases Self::distance(release),
        {
            match release {
                ReadRelease::Done => {
                    proof {
                        assert(before.writers.dom() =~= Set::<usize>::empty() ==> before.writers
                            =~= Map::empty());
                        assert(Map::<usize, Waker>::empty().dom() =~= Set::<usize>::empty());
                        if before.state == 3 && before.writers != Map::<usize, Waker>::empty() {
                            let id = choose|id: usize| #[trigger]
                                RwOp::took_writer(counted, id, wakers@, lock@.mem);
                            assert(lock@.mem.writers == before.writers.remove(id));
                        }
                    }
                    return wakers;
                },
                _ => {
                    let (seen, mut taken) = lock.perform(release.op(), 0, None);
                    let ghost had = wakers@;
                    let ghost got = taken@;
                    wakers.append(&mut taken);
                    assert(had.len() == 0 ==> wakers@ =~= got);
                    assert(got.len() == 0 ==> wakers@ =~= had);
                    release = release.next(seen);
                },
            }
        }
    }
}

/// The right to read and write the value of a lock.
pub struct WriteGuard {
    _held: (),
}

impl WriteGuard {
    /// The value under the lock.
    pub fn deref<'a, T>(&self, lock: &'a RwLock<T>) -> (value: &'a T)
        ensures
            *value == lock@.value,
    {
        &lock.value
    }

    /// The value under the lock, to be written.
    pub fn deref_mut<'a, T>(&mut self, lock: &'a mut RwLock<T>) -> (value: &'a mut T)
        ensures
            *final(self) == *old(self),
            *value == old(lock)@.value,
            final(lock)@ == (RwLockView { value: *final(value), ..old(lock)@ }),
    {
        &mut lock.value
    }

    /// How far the drop is from its end.
    spec fn distance(release: WriteRelease) -> nat {
        match release {
            WriteRelease::Take => 6,
            WriteRelease::Store { .. } => 5,
            WriteRelease::Leave { .. } => 4,
            WriteRelease::Drain => 3,
            WriteRelease::Wake => 2,
            WriteRelease::Done => 1,
        }
    }

    /// Gives the write lock back. If writers are parked, some one of them is
    /// to wake, and readers stay out. If none is, the lock is free, and all
    /// parked readers are to wake.
    pub fn drop<T>(self, lock: &mut RwLock<T>) -> (wakers: Vec<Waker>)
        ensures
            final(lock)@.value == old(lock)@.value,
            final(lock)@.next_waiter_id == old(lock)@.next_waiter_id,
            old(lock)@.mem.writers != Map::<usize, Waker>::empty() ==> exists|id: usize| #[trigger]
                RwOp::took_writer(old(lock)@.mem.with_state(1), id, wakers@, final(lock)@.mem),
            old(lock)@.mem.writers == Map::<usize, Waker>::empty() ==> {
                &&& final(lock)@.mem == (RwMem {
                    readers: Map::empty(),
                    ..old(lock)@.mem.with_state(0)
                })
                &&& crate::waker_map::drained(old(lock)@.mem.readers, wakers@)
            },
            // nobody has the lock any more, and it says whether a writer waits
            final(lock)@.mem.state <= 1,
            final(lock)@.mem.state == 1 <==> old(lock)@.mem.writers.dom()
                != Set::<usize>::empty(),
            // one parked writer is to wake, by its own waker
            old(lock)@.mem.writers.dom() != Set::<usize>::empty() ==> {
                &&& final(lock)@.mem.readers == old(lock)@.mem.readers
                &&& exists|id: usize|
                    old(lock)@.mem.writers.contains_key(id) && final(lock)@.mem.writers
                        == #[trigger] old(lock)@.mem.writers.remove(id) && wakers@ == seq![
                        old(lock)@.mem.writers[id],
                    ]
            },
            // or else all parked readers, each once
            old(lock)@.mem.writers.dom() == Set::<usize>::empty() ==> {
                &&& final(lock)@.mem.writers.dom() == Set::<usize>::empty()
                &&& final(lock)@.mem.readers.dom() == Set::<usize>::empty()
                &&& wakers@.len() == old(lock)@.mem.readers.dom().len()
                &&& forall|id: usize| #[trigger]
                    old(lock)@.mem.readers.contains_key(id) ==> wakers@.contains(
                        old(lock)@.mem.readers[id],
                    )
            },
    {
        let ghost before = lock@.mem;
        let ghost awaited = before.writers != Map::<usize, Waker>::empty();
        let mut wakers: Vec<Waker> = Vec::new();
        let mut release = WriteRelease::Take;
        loop
            invariant
                before == old(lock)@.mem,
                awaited == (before.writers != Map::<usize, Waker>::empty()),
                lock@.value == old(lock)@.value,
                lock@.next_waiter_id == old(lock)@.next_waiter_id,
                match release {
                    WriteRelease::Take => lock@.mem == before && wakers@.len() == 0,
                    WriteRelease::Store { handed } => {
                        &&& handed == awaited
                        &&& if awaited {
                            exists|id: usize| #[trigger]
                                RwOp::took_writer(before, id, wakers@, lock@.mem)
                        } else {
                            lock@.mem == before && wakers@.len() == 0
                        }
                    },
                    WriteRelease::Leave { handed } => {
                        &&& handed == awaited
                        &&& if awaited {
                            exists|id: usize| #[trigger]
                                RwOp::took_writer(before.with_state(1), id, wakers@, lock@.mem)
                        } else {
                            lock@.mem == before.with_state(0) && wakers@.len() == 0
                        }
                    },
                    WriteRelease::Drain => {
                        &&& !awaited
                        &&& lock@.mem == before.with_state(0)
                        &&& wakers@.len() == 0
                    },
                    WriteRelease::Wake | WriteRelease::Done => if awaited {
                        exists|id: usize| #[trigger]
                            RwOp::took_writer(before.with_state(1), id, wakers@, lock@.mem)
                    } else {
                        &&& lock@.mem == (RwMem {
                            readers: Map::empty(),
                            ..before.with_state(0)
                        })
                        &&& crate::waker_map::drained(before.readers, wakers@)
                    },
                },
            decreases Self::distance(release),
        {
            match release {
                WriteRelease::Done => {
                    proof {
                        assert(before.writers.dom() =~= Set::<usize>::empty() ==> before.writers
                            =~= Map::empty());
                        assert(Map::<usize, Waker>::empty().dom() =~= Set::<usize>::empty());
                        if awaited {
                            let id = choose|id: usize| #[trigger]
                                RwOp::took_writer(before.with_state(1), id, wakers@, lock@.mem);
                            assert(lock@.mem.writers == before.writers.remove(id));
                        } else {
                            crate::waker_map::law_drained(before.readers, wakers@);
                        }
                    }
                    return wakers;
                },
                _ => {
                    let ghost from = lock@.mem;
                    let (seen, mut taken) = lock.perform(release.op(), 0, None);
                    let ghost had = wakers@;
                    let ghost got = taken@;
                    wakers.append(&mut taken);
                    assert(had.len() == 0 ==> wakers@ =~= got);
                    assert(got.len() == 0 ==> wakers@ =~= had);
                    proof {
                        if release is Store && awaited {
                            let id = choose|id: usize| #[trigger]
                                RwOp::took_writer(before, id, had, from);
                            assert(RwOp::took_writer(
                                before.with_state(1),
                                id,
                                wakers@,
                                lock@.mem,
                            ));
                        }
                    }
                    release = release.next(seen);
                },
            }
        }
    }
}

} // verus!
