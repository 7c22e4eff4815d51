//! The reader-writer lock, one atomic step at a time.
//!
//! Tasks on several threads poll and release the lock at once, and each of
//! those calls touches the shared memory of the lock more than once. Here a
//! call is a program: a state that names the next operation on the shared
//! memory ([`RwOp`]), and a function from what that operation saw ([`Seen`])
//! to the next state. Whoever runs the program performs the operations, with
//! any steps of other tasks in between.
//!
//! The state word counts the read locks twice, plus one if a writer waits, and
//! is [`WRITE_LOCKED`] under a write lock. So readers may enter while it is
//! even.

use std::task::Waker;
use vstd::prelude::*;

verus! {

/// The state word of a lock that a writer holds.
pub const WRITE_LOCKED: u32 = u32::MAX;

/// The state word that leaves no room for one more reader.
pub const FULL: u32 = u32::MAX - 1;

/// The shared memory of a reader-writer lock: the state word, and the wakers
/// of parked writers and readers by slot id.
pub struct RwMem {
    pub state: u32,
    pub writers: Map<usize, Waker>,
    pub readers: Map<usize, Waker>,
}

impl RwMem {
    /// The memory with another state word.
    pub open spec fn with_state(self, state: u32) -> Self {
        RwMem { state, ..self }
    }

    /// Nothing but the state word is another.
    pub proof fn law_with_state(self, state: u32)
        ensures
            self.with_state(state).state == state,
            self.with_state(state).writers == self.writers,
            self.with_state(state).readers == self.readers,
    {
    }
}

/// An operation on the shared memory of a reader-writer lock.
///
/// Each map of wakers has a mutex. An operation on a map that is not held yet
/// locks it first.
#[derive(Clone, Copy, PartialEq, Eq, Debug)]
pub enum RwOp {
    /// Reads the state word.
    Load,
    /// Replaces the state word `from` by `to`. It fails on another word, and
    /// may fail for no reason.
    Exchange { from: u32, to: u32 },
    /// Writes the state word.
    Store { to: u32 },
    /// Takes two off the state word, wrapping around, and reads what it was.
    Subtract,
    /// Locks the map of writers and registers the waker of the task in it.
    ParkWriter,
    /// Takes the waker of the task out of the held map of writers and unlocks
    /// the map.
    UnparkWriter,
    /// Locks the map of writers, takes the waker of the task out of it, and
    /// looks whether others are left.
    RemoveWriter,
    /// Locks the map of writers and takes some waker out of it, if there is
    /// one.
    TakeWriter,
    /// Unlocks the map of writers.
    LeaveWriters,
    /// Locks the map of readers and registers the waker of the task in it.
    ParkReader,
    /// Takes the waker of the task out of the held map of readers and unlocks
    /// the map.
    UnparkReader,
    /// Locks the map of readers, takes the waker of the task out of it, and
    /// unlocks it.
    RemoveReader,
    /// Locks the map of readers, takes every waker out of it, and unlocks it.
    DrainReaders,
    /// Unlocks the map of readers.
    LeaveReaders,
    /// Wakes by the wakers that earlier operations of the call took.
    Wake,
}

/// What an operation saw.
#[derive(Clone, Copy, PartialEq, Eq, Debug)]
pub enum Seen {
    /// The state word: what was read, what stood in the way of an exchange, or
    /// what was there before a subtraction.
    Word(u32),
    /// The exchange took place.
    Swapped,
    /// Whether a waker was taken, or whether others are left.
    Found(bool),
    /// Nothing.
    Done,
}

impl RwOp {
    /// The operation can see `seen`.
    pub open spec fn answers(self, seen: Seen) -> bool {
        match self {
            RwOp::Load | RwOp::Subtract => seen is Word,
            RwOp::Exchange { from, to } => seen is Word || seen is Swapped,
            RwOp::TakeWriter | RwOp::RemoveWriter => seen is Found,
            _ => seen is Done,
        }
    }

    /// The operation registers the waker of the task.
    pub open spec fn parks(self) -> bool {
        self is ParkWriter || self is ParkReader
    }

    /// The operation, by the task of slot `slot` with the waker `waker`, turns
    /// the memory `pre` into `post`, sees `seen` and takes the wakers `taken`.
    pub open spec fn performed(
        self,
        slot: usize,
        waker: Option<Waker>,
        pre: RwMem,
        seen: Seen,
        taken: Seq<Waker>,
        post: RwMem,
    ) -> bool {
        &&& self.answers(seen)
        &&& match self {
            RwOp::Load => seen == Seen::Word(pre.state) && post == pre && taken.len() == 0,
            RwOp::Exchange { from, to } => {
                &&& taken.len() == 0
                &&& match seen {
                    Seen::Swapped => pre.state == from && post == pre.with_state(to),
                    _ => seen == Seen::Word(pre.state) && post == pre,
                }
            },
            RwOp::Store { to } => post == pre.with_state(to) && taken.len() == 0,
            RwOp::Subtract => {
                &&& seen == Seen::Word(pre.state)
                &&& post == pre.with_state(pre.state.wrapping_sub(2))
                &&& taken.len() == 0
            },
            RwOp::ParkWriter => {
                &&& taken.len() == 0
                &&& waker is Some
                &&& cloned(waker->0, post.writers[slot])
                &&& post == (RwMem {
                    writers: pre.writers.insert(slot, post.writers[slot]),
                    ..pre
                })
            },
            RwOp::UnparkWriter => {
                post == (RwMem { writers: pre.writers.remove(slot), ..pre }) && taken.len() == 0
            },
            RwOp::RemoveWriter => {
                &&& post == (RwMem { writers: pre.writers.remove(slot), ..pre })
                &&& taken.len() == 0
                &&& seen == Seen::Found(post.writers != Map::<usize, Waker>::empty())
            },
            RwOp::TakeWriter => {
                &&& seen == Seen::Found(pre.writers != Map::<usize, Waker>::empty())
                &&& seen == Seen::Found(true) ==> exists|id: usize| #[trigger]
                    Self::took_writer(pre, id, taken, post)
                &&& seen == Seen::Found(false) ==> post == pre && taken.len() == 0
            },
            RwOp::ParkReader => {
                &&& taken.len() == 0
                &&& waker is Some
                &&& cloned(waker->0, post.readers[slot])
                &&& post == (RwMem {
                    readers: pre.readers.insert(slot, post.readers[slot]),
                    ..pre
                })
            },
            RwOp::UnparkReader | RwOp::RemoveReader => {
                post == (RwMem { readers: pre.readers.remove(slot), ..pre }) && taken.len() == 0
            },
            RwOp::DrainReaders => {
                &&& post == (RwMem { readers: Map::empty(), ..pre })
                &&& crate::waker_map::drained(pre.readers, taken)
            },
            RwOp::LeaveWriters | RwOp::LeaveReaders | RwOp::Wake => post == pre && taken.len() == 0,
        }
    }

    /// The waker of the parked writer `id` was taken out of `pre`.
    pub open spec fn took_writer(pre: RwMem, id: usize, taken: Seq<Waker>, post: RwMem) -> bool {
        &&& pre.writers.contains_key(id)
        &&& post == (RwMem { writers: pre.writers.remove(id), ..pre })
        &&& taken == seq![pre.writers[id]]
    }

    /// What is taken from writer `id` is its waker and nothing else.
    pub proof fn law_took_writer(pre: RwMem, id: usize, taken: Seq<Waker>, post: RwMem)
        requires
            Self::took_writer(pre, id, taken, post),
        ensures
            pre.writers.contains_key(id),
            taken.len() == 1,
            taken[0] == pre.writers[id],
            post.writers == pre.writers.remove(id),
            post.state == pre.state,
            post.readers == pre.readers,
    {
    }

    /// What an operation does to the state word, and what it sees of it.
    pub proof fn law_performed_on_the_word(
        self,
        slot: usize,
        waker: Option<Waker>,
        pre: RwMem,
        seen: Seen,
        taken: Seq<Waker>,
        post: RwMem,
    )
        requires
            self.performed(slot, waker, pre, seen, taken, post),
        ensures
            self is Load ==> seen == Seen::Word(pre.state) && post.state == pre.state,
            self matches RwOp::Exchange { from, to } ==> {
                ||| seen is Swapped && pre.state == from && post.state == to
                ||| seen == Seen::Word(pre.state) && post.state == pre.state
            },
            self matches RwOp::Store { to } ==> post.state == to,
            self is Subtract ==> seen == Seen::Word(pre.state),
            self is Subtract && pre.state >= 2 ==> post.state + 2 == pre.state,
            !(self is Exchange || self is Store || self is Subtract) ==> post.state == pre.state,
            self is Load || self is Exchange || self is Store || self is Subtract ==> post.writers
                == pre.writers && post.readers == pre.readers && taken.len() == 0,
    {
    }

    /// What an operation does to the maps of wakers: it touches one slot of one
    /// map, or all slots of the readers, and leaves every other waker where it
    /// is.
    pub proof fn law_performed_on_the_wakers(
        self,
        slot: usize,
        waker: Option<Waker>,
        pre: RwMem,
        seen: Seen,
        taken: Seq<Waker>,
        post: RwMem,
    )
        requires
            self.performed(slot, waker, pre, seen, taken, post),
        ensures
            self is ParkWriter ==> {
                &&& waker is Some
                &&& post.writers.contains_key(slot)
                &&& cloned(waker->0, post.writers[slot])
                &&& post.writers == pre.writers.insert(slot, post.writers[slot])
            },
            self is UnparkWriter || self is RemoveWriter ==> post.writers == pre.writers.remove(
                slot,
            ),
            self is RemoveWriter ==> seen == Seen::Found(
                post.writers.dom() != Set::<usize>::empty(),
            ),
            self is TakeWriter ==> seen == Seen::Found(pre.writers.dom() != Set::<usize>::empty()),
            self is TakeWriter && seen == Seen::Found(true) ==> exists|id: usize|
                pre.writers.contains_key(id) && post.writers == #[trigger] pre.writers.remove(id)
                    && taken == seq![pre.writers[id]],
            self is TakeWriter && seen == Seen::Found(false) ==> post.writers == pre.writers,
            !(self is ParkWriter || self is UnparkWriter || self is RemoveWriter
                || self is TakeWriter) ==> post.writers == pre.writers,
            self is ParkReader ==> {
                &&& waker is Some
                &&& post.readers.contains_key(slot)
                &&& cloned(waker->0, post.readers[slot])
                &&& post.readers == pre.readers.insert(slot, post.readers[slot])
            },
            self is UnparkReader || self is RemoveReader ==> post.readers == pre.readers.remove(
                slot,
            ),
            self is DrainReaders ==> {
                &&& post.readers == Map::<usize, Waker>::empty()
                &&& taken.len() == pre.readers.dom().len()
                &&& forall|id: usize| #[trigger]
                    pre.readers.contains_key(id) ==> taken.contains(pre.readers[id])
            },
            !(self is ParkReader || self is UnparkReader || self is RemoveReader
                || self is DrainReaders) ==> post.readers == pre.readers,
            !(self is DrainReaders || (self is TakeWriter && seen == Seen::Found(true)))
                ==> taken.len() == 0,
    {
        assert(post.writers.dom() == Set::<usize>::empty() ==> post.writers =~= Map::empty());
        assert(pre.writers.dom() == Set::<usize>::empty() ==> pre.writers =~= Map::empty());
        assert(Map::<usize, Waker>::empty().dom() =~= Set::<usize>::empty());
        if self is TakeWriter && seen == Seen::Found(true) {
            let id = choose|id: usize| #[trigger] Self::took_writer(pre, id, taken, post);
            assert(post.writers == pre.writers.remove(id));
        }
        if self is DrainReaders {
            crate::waker_map::law_drained(pre.readers, taken);
        }
    }
}

/// The poll of a future that waits for the write lock.
#[derive(Clone, Copy, PartialEq, Eq, Debug)]
pub enum WritePoll {
    /// Read the state word.
    Load,
    /// The lock was seen free: try to take it.
    Acquire { seen: u32 },
    /// Readers hold the lock and no writer waits: keep new readers out.
    Announce { seen: u32 },
    /// Register the waker.
    Park,
    /// Look again whether the lock is held with new readers kept out.
    Recheck,
    /// It is free, or new readers may enter: take the waker back and try again.
    Unpark { seen: u32 },
    /// It is: leave the waker there.
    Leave,
    /// The write lock is taken.
    Ready,
    /// The task is parked.
    Pending,
}

impl WritePoll {
    /// The words that the program carries are such as it acts on.
    pub open spec fn wf(self) -> bool {
        match self {
            WritePoll::Acquire { seen } => seen <= 1,
            WritePoll::Unpark { seen } => seen == 1 || seen % 2 == 0,
            WritePoll::Announce { seen } => seen > 1 && seen % 2 == 0,
            _ => true,
        }
    }

    /// The program has an answer.
    pub open spec fn finished(self) -> bool {
        self is Ready || self is Pending
    }

    /// The program has the map of writers locked.
    pub open spec fn holds_writers(self) -> bool {
        self is Recheck || self is Unpark || self is Leave
    }

    /// The operation that comes next.
    pub open spec fn pending_op(self) -> RwOp {
        match self {
            WritePoll::Acquire { seen } => RwOp::Exchange { from: seen, to: WRITE_LOCKED },
            WritePoll::Announce { seen } => RwOp::Exchange { from: seen, to: (seen + 1) as u32 },
            WritePoll::Park => RwOp::ParkWriter,
            WritePoll::Unpark { seen } => RwOp::UnparkWriter,
            WritePoll::Leave => RwOp::LeaveWriters,
            _ => RwOp::Load,
        }
    }

    /// What to do about the state word `word`.
    pub open spec fn attempted(word: u32) -> Self {
        if word <= 1 {
            WritePoll::Acquire { seen: word }
        } else if word % 2 == 0 {
            WritePoll::Announce { seen: word }
        } else {
            WritePoll::Park
        }
    }

    /// The state of the program after its operation saw `seen`.
    pub open spec fn after(self, seen: Seen) -> Self {
        match (self, seen) {
            (WritePoll::Load, Seen::Word(word)) => Self::attempted(word),
            (WritePoll::Acquire { .. }, Seen::Swapped) => WritePoll::Ready,
            (WritePoll::Acquire { .. }, Seen::Word(word)) => Self::attempted(word),
            (WritePoll::Announce { .. }, Seen::Swapped) => WritePoll::Park,
            (WritePoll::Announce { .. }, Seen::Word(word)) => Self::attempted(word),
            (WritePoll::Park, _) => WritePoll::Recheck,
            (WritePoll::Recheck, Seen::Word(word)) => if word == 1 || word % 2 == 0 {
                WritePoll::Unpark { seen: word }
            } else {
                WritePoll::Leave
            },
            (WritePoll::Unpark { seen }, _) => Self::attempted(seen),
            (WritePoll::Leave, _) => WritePoll::Pending,
            _ => self,
        }
    }

    /// The operation to perform next.
    pub fn op(&self) -> (op: RwOp)
        requires
            self.wf(),
            !self.finished(),
        ensures
            op == self.pending_op(),
    {
        match *self {
            WritePoll::Acquire { seen } => RwOp::Exchange { from: seen, to: WRITE_LOCKED },
            WritePoll::Announce { seen } => RwOp::Exchange { from: seen, to: seen + 1 },
            WritePoll::Park => RwOp::ParkWriter,
            WritePoll::Unpark { seen } => RwOp::UnparkWriter,
            WritePoll::Leave => RwOp::LeaveWriters,
            _ => RwOp::Load,
        }
    }

    fn attempt(word: u32) -> (state: Self)
        ensures
            state == Self::attempted(word),
            state.wf(),
    {
        // try to lock if unlocked
        if word <= 1 {
            WritePoll::Acquire { seen: word }
        } else if word.is_multiple_of(2) {
            // block new readers, by making sure the state is odd
            WritePoll::Announce { seen: word }
        } else {
            WritePoll::Park
        }
    }

    /// Goes on after the operation saw `seen`.
    pub fn next(self, seen: Seen) -> (state: Self)
        requires
            self.wf(),
            !self.finished(),
            self.pending_op().answers(seen),
        ensures
            state == self.after(seen),
            state.wf(),
    {
        match (self, seen) {
            (WritePoll::Load, Seen::Word(word)) => Self::attempt(word),
            (WritePoll::Acquire { .. }, Seen::Swapped) => WritePoll::Ready,
            (WritePoll::Acquire { .. }, Seen::Word(word)) => Self::attempt(word),
            (WritePoll::Announce { .. }, Seen::Swapped) => WritePoll::Park,
            (WritePoll::Announce { .. }, Seen::Word(word)) => Self::attempt(word),
            (WritePoll::Park, _) => WritePoll::Recheck,
            (WritePoll::Recheck, Seen::Word(word)) => if word == 1 || word.is_multiple_of(2) {
                // lock became free, or readers entered and no writer is announced
                WritePoll::Unpark { seen: word }
            } else {
                // lock still held, and new readers are kept out
                WritePoll::Leave
            },
            (WritePoll::Unpark { seen }, _) => Self::attempt(seen),
            (WritePoll::Leave, _) => WritePoll::Pending,
            _ => self,
        }
    }

    /// A poll acts on the last state word that it has seen: on a free lock it
    /// tries to take it, on a lock that readers hold and may enter it tries to
    /// keep new ones out, and else it registers. It goes on trying as long as
    /// the word changes under its hands.
    pub proof fn law_acts_on_the_word(self, word: u32)
        requires
            self is Load || self is Acquire || self is Announce || (self
                matches WritePoll::Unpark { seen } && seen == word),
        ensures
            ({
                let next = if self is Unpark {
                    self.after(Seen::Done)
                } else {
                    self.after(Seen::Word(word))
                };
                &&& !next.finished() && !next.holds_writers()
                &&& word <= 1 ==> next.pending_op() == (RwOp::Exchange {
                    from: word,
                    to: WRITE_LOCKED,
                }) && next.after(Seen::Swapped) is Ready
                &&& word > 1 && word % 2 == 0 ==> next.pending_op() == (RwOp::Exchange {
                    from: word,
                    to: (word + 1) as u32,
                }) && !next.after(Seen::Swapped).finished() && next.after(
                    Seen::Swapped,
                ).pending_op() is ParkWriter
                &&& word > 1 && word % 2 == 1 ==> next.pending_op() is ParkWriter
            }),
    {
    }

    /// A poll that has registered looks at the state word again, with the map
    /// of writers locked. It stays only if the lock is held and new readers are
    /// kept out, and else takes the waker back and tries again.
    pub proof fn law_looks_again_before_it_waits(self, word: u32)
        requires
            self is Park,
        ensures
            ({
                let again = self.after(Seen::Done);
                let next = again.after(Seen::Word(word));
                &&& !again.finished() && again.pending_op() is Load && again.holds_writers()
                &&& !next.finished() && next.holds_writers()
                &&& word > 1 && word % 2 == 1 ==> next.pending_op() is LeaveWriters && next.after(
                    Seen::Done,
                ) is Pending
                &&& word <= 1 || word % 2 == 0 ==> next == (WritePoll::Unpark { seen: word })
                    && next.pending_op() is UnparkWriter
            }),
    {
    }

}

/// The poll of a future that waits for a read lock.
#[derive(Clone, Copy, PartialEq, Eq, Debug)]
pub enum ReadPoll {
    /// Read the state word.
    Load,
    /// The state word was seen even: try to count one more reader.
    Acquire { seen: u32 },
    /// Register the waker.
    Park,
    /// Look again whether readers may enter.
    Recheck,
    /// They may: take the waker back and try again.
    Unpark { seen: u32 },
    /// They may not: leave the waker there.
    Leave,
    /// A read lock is taken.
    Ready,
    /// The task is parked.
    Pending,
}

impl ReadPoll {
    /// The words that the program carries are such as it acts on.
    pub open spec fn wf(self) -> bool {
        match self {
            ReadPoll::Acquire { seen } | ReadPoll::Unpark { seen } => {
                seen % 2 == 0 && seen != FULL
            },
            _ => true,
        }
    }

    /// The program has an answer.
    pub open spec fn finished(self) -> bool {
        self is Ready || self is Pending
    }

    /// The program has the map of readers locked.
    pub open spec fn holds_readers(self) -> bool {
        self is Recheck || self is Unpark || self is Leave
    }

    /// The operation that comes next.
    pub open spec fn pending_op(self) -> RwOp {
        match self {
            ReadPoll::Acquire { seen } => RwOp::Exchange { from: seen, to: (seen + 2) as u32 },
            ReadPoll::Park => RwOp::ParkReader,
            ReadPoll::Unpark { seen } => RwOp::UnparkReader,
            ReadPoll::Leave => RwOp::LeaveReaders,
            _ => RwOp::Load,
        }
    }

    /// What to do about the state word `word`.
    pub open spec fn attempted(word: u32) -> Self {
        if word % 2 == 0 {
            ReadPoll::Acquire { seen: word }
        } else {
            ReadPoll::Park
        }
    }

    /// The state of the program after its operation saw `seen`.
    pub open spec fn after(self, seen: Seen) -> Self {
        match (self, seen) {
            (ReadPoll::Load, Seen::Word(word)) => Self::attempted(word),
            (ReadPoll::Acquire { .. }, Seen::Swapped) => ReadPoll::Ready,
            (ReadPoll::Acquire { .. }, Seen::Word(word)) => Self::attempted(word),
            (ReadPoll::Park, _) => ReadPoll::Recheck,
            (ReadPoll::Recheck, Seen::Word(word)) => if word % 2 == 0 {
                ReadPoll::Unpark { seen: word }
            } else {
                ReadPoll::Leave
            },
            (ReadPoll::Unpark { seen }, _) => Self::attempted(seen),
            (ReadPoll::Leave, _) => ReadPoll::Pending,
            _ => self,
        }
    }

    /// The operation to perform next.
    pub fn op(&self) -> (op: RwOp)
        requires
            self.wf(),
            !self.finished(),
        ensures
            op == self.pending_op(),
    {
        match *self {
            ReadPoll::Acquire { seen } => RwOp::Exchange { from: seen, to: seen + 2 },
            ReadPoll::Park => RwOp::ParkReader,
            ReadPoll::Unpark { seen } => RwOp::UnparkReader,
            ReadPoll::Leave => RwOp::LeaveReaders,
            _ => RwOp::Load,
        }
    }

    fn attempt(word: u32) -> (state: Self)
        requires
            word != FULL,
        ensures
            state == Self::attempted(word),
            state.wf(),
    {
        if word.is_multiple_of(2) {
            // even, free to take the lock
            ReadPoll::Acquire { seen: word }
        } else {
            // odd, writer waiting or write-locked
            ReadPoll::Park
        }
    }

    /// Goes on after the operation saw `seen`, which is not a full state word:
    /// the count of readers would overflow there.
    pub fn next(self, seen: Seen) -> (state: Self)
        requires
            self.wf(),
            !self.finished(),
            self.pending_op().answers(seen),
            seen != Seen::Word(FULL),
        ensures
            state == self.after(seen),
            state.wf(),
    {
        match (self, seen) {
            (ReadPoll::Load, Seen::Word(word)) => Self::attempt(word),
            (ReadPoll::Acquire { .. }, Seen::Swapped) => ReadPoll::Ready,
            (ReadPoll::Acquire { .. }, Seen::Word(word)) => Self::attempt(word),
            (ReadPoll::Park, _) => ReadPoll::Recheck,
            (ReadPoll::Recheck, Seen::Word(word)) => if word.is_multiple_of(2) {
                ReadPoll::Unpark { seen: word }
            } else {
                // still odd
                ReadPoll::Leave
            },
            (ReadPoll::Unpark { seen }, _) => Self::attempt(seen),
            (ReadPoll::Leave, _) => ReadPoll::Pending,
            _ => self,
        }
    }

    /// A poll acts on the last state word that it has seen: while readers may
    /// enter it tries to count itself in, and else it registers.
    pub proof fn law_acts_on_the_word(self, word: u32)
        requires
            word != FULL,
            self is Load || self is Acquire || (self matches ReadPoll::Unpark { seen } && seen
                == word),
        ensures
            ({
                let next = if self is Unpark {
                    self.after(Seen::Done)
                } else {
                    self.after(Seen::Word(word))
                };
                &&& !next.finished() && !next.holds_readers()
                &&& word % 2 == 0 ==> next.pending_op() == (RwOp::Exchange {
                    from: word,
                    to: (word + 2) as u32,
                }) && next.after(Seen::Swapped) is Ready
                &&& word % 2 == 1 ==> next.pending_op() is ParkReader
            }),
    {
    }

    /// A poll that has registered looks at the state word again, with the map
    /// of readers locked. It stays only if readers are kept out, and else takes
    /// the waker back and tries again.
    pub proof fn law_looks_again_before_it_waits(self, word: u32)
        requires
            self is Park,
        ensures
            ({
                let again = self.after(Seen::Done);
                let next = again.after(Seen::Word(word));
                &&& !again.finished() && again.pending_op() is Load && again.holds_readers()
                &&& !next.finished() && next.holds_readers()
                &&& word % 2 == 1 ==> next.pending_op() is LeaveReaders && next.after(
                    Seen::Done,
                ) is Pending
                &&& word % 2 == 0 ==> next == (ReadPoll::Unpark { seen: word })
                    && next.pending_op() is UnparkReader
            }),
    {
    }

}

/// The release of a read lock.
#[derive(Clone, Copy, PartialEq, Eq, Debug)]
pub enum ReadRelease {
    /// Count one reader less.
    Subtract,
    /// That was the last one, and a writer waits: take its waker.
    Take,
    /// Wake the writer.
    Wake,
    /// Unlock the map of writers.
    Leave,
    /// The read lock is given back.
    Done,
}

impl ReadRelease {
    /// The program has the map of writers locked.
    pub open spec fn holds_writers(self) -> bool {
        self is Wake || self is Leave
    }

    /// The program has taken a waker and not woken by it yet.
    pub open spec fn carries(self) -> bool {
        self is Wake
    }

    /// The operation that comes next.
    pub open spec fn pending_op(self) -> RwOp {
        match self {
            ReadRelease::Subtract => RwOp::Subtract,
            ReadRelease::Take => RwOp::TakeWriter,
            ReadRelease::Leave => RwOp::LeaveWriters,
            _ => RwOp::Wake,
        }
    }

    /// The state of the program after its operation saw `seen`.
    pub open spec fn after(self, seen: Seen) -> Self {
        match (self, seen) {
            (ReadRelease::Subtract, Seen::Word(word)) => if word == 3 {
                ReadRelease::Take
            } else {
                ReadRelease::Done
            },
            (ReadRelease::Take, Seen::Found(found)) => if found {
                ReadRelease::Wake
            } else {
                ReadRelease::Leave
            },
            (ReadRelease::Wake, _) => ReadRelease::Leave,
            (ReadRelease::Leave, _) => ReadRelease::Done,
            _ => self,
        }
    }

    /// The operation to perform next.
    pub fn op(&self) -> (op: RwOp)
        requires
            !(self is Done),
        ensures
            op == self.pending_op(),
    {
        match *self {
            ReadRelease::Subtract => RwOp::Subtract,
            ReadRelease::Take => RwOp::TakeWriter,
            ReadRelease::Leave => RwOp::LeaveWriters,
            _ => RwOp::Wake,
        }
    }

    /// Goes on after the operation saw `seen`.
    pub fn next(self, seen: Seen) -> (state: Self)
        requires
            !(self is Done),
            self.pending_op().answers(seen),
        ensures
            state == self.after(seen),
    {
        match (self, seen) {
            // if we decrement from 3 to 1, this means the lock is now unlocked
            // *and* there is a waiting writer, which we wake up
            (ReadRelease::Subtract, Seen::Word(word)) => if word == 3 {
                ReadRelease::Take
            } else {
                ReadRelease::Done
            },
            (ReadRelease::Take, Seen::Found(found)) => if found {
                ReadRelease::Wake
            } else {
                ReadRelease::Leave
            },
            (ReadRelease::Wake, _) => ReadRelease::Leave,
            (ReadRelease::Leave, _) => ReadRelease::Done,
            _ => self,
        }
    }

    /// A release counts one reader less. Only the one that was the last, while
    /// a writer waits, goes on: it takes the waker of a parked writer, if there
    /// is one, and wakes by it.
    pub proof fn law_last_reader_wakes_a_writer(word: u32)
        ensures
            ({
                let next = ReadRelease::Subtract.after(Seen::Word(word));
                let waking = next.after(Seen::Found(true));
                let leaving = next.after(Seen::Found(false));
                &&& ReadRelease::Subtract.pending_op() is Subtract
                &&& word != 3 ==> next is Done
                &&& word == 3 ==> {
                    &&& !(next is Done) && next.pending_op() is TakeWriter
                    &&& !(waking is Done) && waking.pending_op() is Wake
                    &&& waking.after(Seen::Done) == leaving
                    &&& !(leaving is Done) && leaving.pending_op() is LeaveWriters
                    &&& leaving.after(Seen::Done) is Done
                }
            }),
    {
    }

}

/// The release of the write lock.
#[derive(Clone, Copy, PartialEq, Eq, Debug)]
pub enum WriteRelease {
    /// Take the waker of some parked writer.
    Take,
    /// Unlock: with a writer waiting if one was taken, else without.
    Store { handed: bool },
    /// Unlock the map of writers.
    Leave { handed: bool },
    /// No writer waits: take the wakers of all parked readers.
    Drain,
    /// Wake those whose wakers were taken.
    Wake,
    /// The write lock is given back.
    Done,
}

impl WriteRelease {
    /// The program still has the write lock.
    pub open spec fn owns(self) -> bool {
        self is Take || self is Store
    }

    /// The program has the map of writers locked.
    pub open spec fn holds_writers(self) -> bool {
        self is Store || self is Leave
    }

    /// The program may have taken wakers and not woken by them yet.
    pub open spec fn carries(self) -> bool {
        self == (WriteRelease::Store { handed: true }) || self == (WriteRelease::Leave {
            handed: true,
        }) || self is Wake
    }

    /// The operation that comes next.
    pub open spec fn pending_op(self) -> RwOp {
        match self {
            WriteRelease::Take => RwOp::TakeWriter,
            WriteRelease::Store { handed } => RwOp::Store {
                to: if handed {
                    1
                } else {
                    0
                },
            },
            WriteRelease::Leave { handed } => RwOp::LeaveWriters,
            WriteRelease::Drain => RwOp::DrainReaders,
            _ => RwOp::Wake,
        }
    }

    /// The state of the program after its operation saw `seen`.
    pub open spec fn after(self, seen: Seen) -> Self {
        match (self, seen) {
            (WriteRelease::Take, Seen::Found(found)) => WriteRelease::Store { handed: found },
            (WriteRelease::Store { handed }, _) => WriteRelease::Leave { handed },
            (WriteRelease::Leave { handed }, _) => if handed {
                WriteRelease::Wake
            } else {
                WriteRelease::Drain
            },
            (WriteRelease::Drain, _) => WriteRelease::Wake,
            (WriteRelease::Wake, _) => WriteRelease::Done,
            _ => self,
        }
    }

    /// The operation to perform next.
    pub fn op(&self) -> (op: RwOp)
        requires
            !(self is Done),
        ensures
            op == self.pending_op(),
    {
        match *self {
            WriteRelease::Take => RwOp::TakeWriter,
            WriteRelease::Store { handed } => if handed {
                RwOp::Store { to: 1 }
            } else {
                RwOp::Store { to: 0 }
            },
            WriteRelease::Leave { handed } => RwOp::LeaveWriters,
            WriteRelease::Drain => RwOp::DrainReaders,
            _ => RwOp::Wake,
        }
    }

    /// Goes on after the operation saw `seen`.
    pub fn next(self, seen: Seen) -> (state: Self)
        requires
            !(self is Done),
            self.pending_op().answers(seen),
        ensures
            state == self.after(seen),
    {
        match (self, seen) {
            (WriteRelease::Take, Seen::Found(found)) => WriteRelease::Store { handed: found },
            (WriteRelease::Store { handed }, _) => WriteRelease::Leave { handed },
            (WriteRelease::Leave { handed }, _) => if handed {
                WriteRelease::Wake
            } else {
                WriteRelease::Drain
            },
            (WriteRelease::Drain, _) => WriteRelease::Wake,
            (WriteRelease::Wake, _) => WriteRelease::Done,
            _ => self,
        }
    }

    /// A release takes the waker of a parked writer, if there is one. Then it
    /// unlocks the lock so that readers stay out, and wakes that writer. If
    /// there is none, it unlocks the lock for all, takes the wakers of all
    /// parked readers, and wakes by them.
    pub proof fn law_hands_over_or_lets_readers_in(found: bool)
        ensures
            ({
                let done = Seen::Done;
                let storing = WriteRelease::Take.after(Seen::Found(found));
                let leaving = storing.after(done);
                let going = leaving.after(done);
                &&& WriteRelease::Take.pending_op() is TakeWriter
                &&& !(storing is Done) && storing.holds_writers()
                &&& storing.pending_op() == (RwOp::Store {
                    to: if found {
                        1
                    } else {
                        0
                    },
                })
                &&& !(leaving is Done) && leaving.pending_op() is LeaveWriters
                &&& leaving.holds_writers()
                &&& !(going is Done)
                &&& found ==> going.pending_op() is Wake && going.after(done) is Done
                &&& !found ==> going.pending_op() is DrainReaders && !(going.after(done) is Done)
                    && going.after(done).pending_op() is Wake && going.after(done).after(
                    done,
                ) is Done
            }),
    {
    }

}

/// The drop of a future that waits for the write lock, or has got it.
#[derive(Clone, Copy, PartialEq, Eq, Debug)]
pub enum WriteCancel {
    /// Take the waker of the future out of the map of writers.
    Remove,
    /// No other writer is parked: read the state word.
    Load,
    /// It says that a writer waits: clear that.
    Clear { seen: u32 },
    /// Unlock the map of writers.
    Leave { last: bool },
    /// No writer waits: take the wakers of all parked readers.
    Drain,
    /// Wake those whose wakers were taken.
    Wake,
    /// The future is gone.
    Done,
}

impl WriteCancel {
    /// The words that the program carries are such as it acts on.
    pub open spec fn wf(self) -> bool {
        self matches WriteCancel::Clear { seen } ==> seen % 2 == 1 && seen != WRITE_LOCKED
    }

    /// The program has the map of writers locked.
    pub open spec fn holds_writers(self) -> bool {
        self is Load || self is Clear || self is Leave
    }

    /// The program may have taken wakers and not woken by them yet.
    pub open spec fn carries(self) -> bool {
        self is Wake
    }

    /// The operation that comes next.
    pub open spec fn pending_op(self) -> RwOp {
        match self {
            WriteCancel::Remove => RwOp::RemoveWriter,
            WriteCancel::Load => RwOp::Load,
            WriteCancel::Clear { seen } => RwOp::Exchange { from: seen, to: (seen - 1) as u32 },
            WriteCancel::Leave { last } => RwOp::LeaveWriters,
            WriteCancel::Drain => RwOp::DrainReaders,
            _ => RwOp::Wake,
        }
    }

    /// What to do about the state word `word`.
    pub open spec fn attempted(word: u32) -> Self {
        if word % 2 == 0 || word == WRITE_LOCKED {
            WriteCancel::Leave { last: true }
        } else {
            WriteCancel::Clear { seen: word }
        }
    }

    /// The state of the program after its operation saw `seen`.
    pub open spec fn after(self, seen: Seen) -> Self {
        match (self, seen) {
            (WriteCancel::Remove, Seen::Found(others)) => if others {
                WriteCancel::Leave { last: false }
            } else {
                WriteCancel::Load
            },
            (WriteCancel::Load, Seen::Word(word)) => Self::attempted(word),
            (WriteCancel::Clear { .. }, Seen::Swapped) => WriteCancel::Leave { last: true },
            (WriteCancel::Clear { .. }, Seen::Word(word)) => Self::attempted(word),
            (WriteCancel::Leave { last }, _) => if last {
                WriteCancel::Drain
            } else {
                WriteCancel::Done
            },
            (WriteCancel::Drain, _) => WriteCancel::Wake,
            (WriteCancel::Wake, _) => WriteCancel::Done,
            _ => self,
        }
    }

    /// The operation to perform next.
    pub fn op(&self) -> (op: RwOp)
        requires
            self.wf(),
            !(self is Done),
        ensures
            op == self.pending_op(),
    {
        match *self {
            WriteCancel::Remove => RwOp::RemoveWriter,
            WriteCancel::Load => RwOp::Load,
            WriteCancel::Clear { seen } => RwOp::Exchange { from: seen, to: seen - 1 },
            WriteCancel::Leave { last } => RwOp::LeaveWriters,
            WriteCancel::Drain => RwOp::DrainReaders,
            _ => RwOp::Wake,
        }
    }

    fn attempt(word: u32) -> (state: Self)
        ensures
            state == Self::attempted(word),
            state.wf(),
    {
        if word.is_multiple_of(2) || word == WRITE_LOCKED {
            WriteCancel::Leave { last: true }
        } else {
            // clear the odd bit - there are no writers waiting
            WriteCancel::Clear { seen: word }
        }
    }

    /// Goes on after the operation saw `seen`.
    pub fn next(self, seen: Seen) -> (state: Self)
        requires
            self.wf(),
            !(self is Done),
            self.pending_op().answers(seen),
        ensures
            state == self.after(seen),
            state.wf(),
    {
        match (self, seen) {
            (WriteCancel::Remove, Seen::Found(others)) => if others {
                WriteCancel::Leave { last: false }
            } else {
                WriteCancel::Load
            },
            (WriteCancel::Load, Seen::Word(word)) => Self::attempt(word),
            (WriteCancel::Clear { .. }, Seen::Swapped) => WriteCancel::Leave { last: true },
            (WriteCancel::Clear { .. }, Seen::Word(word)) => Self::attempt(word),
            (WriteCancel::Leave { last }, _) => if last {
                WriteCancel::Drain
            } else {
                WriteCancel::Done
            },
            (WriteCancel::Drain, _) => WriteCancel::Wake,
            (WriteCancel::Wake, _) => WriteCancel::Done,
            _ => self,
        }
    }

    /// A future that is dropped takes its waker back, and that is all if other
    /// writers are parked. If none is, it makes the state word even, with the
    /// number of read locks as it is, unless a writer has the lock. It goes on
    /// trying as long as the word changes under its hands, and then lets all
    /// parked readers in.
    pub proof fn law_last_writer_lets_readers_in(self, word: u32)
        ensures
            ({
                let done = Seen::Done;
                let others = WriteCancel::Remove.after(Seen::Found(true));
                let looking = WriteCancel::Remove.after(Seen::Found(false));
                &&& WriteCancel::Remove.pending_op() is RemoveWriter
                &&& !(others is Done) && others.pending_op() is LeaveWriters && others.after(
                    done,
                ) is Done
                &&& !(looking is Done) && looking.pending_op() is Load && looking.holds_writers()
            }),
            self is Load || self is Clear ==> {
                let done = Seen::Done;
                let next = self.after(Seen::Word(word));
                &&& !(next is Done) && next.holds_writers()
                &&& word % 2 == 1 && word != WRITE_LOCKED ==> {
                    &&& next.pending_op() matches RwOp::Exchange { from, to }
                    &&& from == word && to % 2 == 0 && to / 2 == word / 2
                    &&& next.after(Seen::Swapped).pending_op() is LeaveWriters
                    &&& next.after(Seen::Swapped).after(done).pending_op() is DrainReaders
                    &&& next.after(Seen::Swapped).after(done).after(done).pending_op() is Wake
                    &&& next.after(Seen::Swapped).after(done).after(done).after(done) is Done
                    &&& !(next.after(Seen::Swapped).after(done).after(done) is Done)
                }
                &&& word % 2 == 0 || word == WRITE_LOCKED ==> {
                    &&& next.pending_op() is LeaveWriters
                    &&& next.after(done).pending_op() is DrainReaders
                    &&& next.after(done).after(done).pending_op() is Wake
                    &&& next.after(done).after(done).after(done) is Done
                    &&& !(next.after(done).after(done) is Done)
                }
            },
    {
    }

}

} // verus!
