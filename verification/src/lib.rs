//! Locks for asynchronous tasks: a mutex, a reader-writer lock, a condition
//! variable and a semaphore, as state machines that are polled.
//!
//! * [`mutex`], [`rwlock`], [`condvar`] and [`semaphore`] hold the locks with
//!   their futures and guards. Each call runs undisturbed, and its contract
//!   says what it does to the lock.
//! * [`mutex_steps`], [`rwlock_steps`] and the `WaitPoll` of [`condvar`] are the
//!   same calls one atomic operation at a time, for locks whose memory several
//!   threads share.
//! * [`mutex_laws`], [`rwlock_laws`], [`rwlock_word`], [`rwlock_wakes`],
//!   [`condvar_laws`] and [`semaphore_laws`] prove what every interleaving of
//!   those operations keeps: mutual exclusion, order, and that nobody sleeps
//!   next to a free lock.
//! * [`waiter`] and [`waker_map`] keep the wakers of parked tasks.

pub mod condvar;
pub mod condvar_laws;
pub mod mutex;
pub mod mutex_laws;
pub mod mutex_steps;
pub mod rwlock;
pub mod rwlock_laws;
pub mod rwlock_steps;
pub mod rwlock_wakes;
pub mod rwlock_word;
pub mod semaphore;
pub mod semaphore_laws;
pub mod waiter;
pub mod waker;
pub mod waker_map;

pub use condvar::Condvar;
pub use mutex::Mutex;
pub use rwlock::RwLock;
pub use semaphore::Semaphore;
pub use waker::Poll;
