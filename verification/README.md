# async_locks

Locks for asynchronous tasks, verified with Verus: a mutex, a reader-writer
lock, a condition variable, and a semaphore made of the mutex and the condition
variable.

## The library (`src/`)

A lock is a state machine. A future on it is polled with the waker of its task;
a guard is given back by `drop`. Calls that make other tasks ready return their
wakers, and the caller wakes by them.

| module | what it holds |
| --- | --- |
| `mutex`, `rwlock`, `condvar`, `semaphore` | the locks, their futures and guards; each call runs undisturbed |
| `mutex_steps`, `rwlock_steps` | the same calls, one atomic operation on shared memory at a time |
| `mutex_laws`, `rwlock_laws`, `rwlock_word`, `rwlock_wakes`, `condvar_laws`, `semaphore_laws` | what every interleaving keeps |
| `waiter` | the first-in first-out list of waiters of a mutex or condition variable |
| `waker_map` | the wakers of parked readers or writers, by slot id |
| `waker` | the waker type, and what a poll answers |

The laws say, for every interleaving of the operations of any number of tasks:

* at most one task has the mutex; a writer has the reader-writer lock alone, and
  else the state word counts the read locks;
* waiters of a mutex and of a condition variable are served in the order of
  their coming;
* a writer that sleeps keeps the state word of the reader-writer lock odd. As
  long as each guard is dropped after the future that it came from, and fewer
  than 2^31 - 1 read locks are held, the word is odd only for a writer that has
  the lock or waits for it;
* nobody sleeps next to a free lock: whoever was told to wait and has not been
  woken since is registered, and is looked after. For readers this is always so.
  For writers and for tasks that wait for the mutex, two steps are left out: the
  drop of a future that was notified and not polled since, and the drop of a
  guard before that of the future that it came from;
* whoever takes the waker of a parked task wakes by it, and a future that was
  dropped is never woken;
* a wait is in the list of the condition variable before it gives the mutex
  back, and ends only when it was notified;
* the free permits of a semaphore are those at the start and those given since,
  without those taken. While tasks wait, every free permit has a notified task
  that goes for it, unless one was dropped after it was notified.

The library trusts one outside type, `std::task::Waker`, and says nothing of its
`clone` but that stored wakers come from it.

## The shared-memory locks (`app/`)

`app/` keeps the state in atomics and the wakers under `std::sync::Mutex`, and
implements `Future`, `Deref` and `Drop`. It performs the operations that the
programs of the library ask for, and wakes tasks.
