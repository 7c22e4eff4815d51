//! The mutex, call by call and step by step, and its list of waiters.

use std::sync::atomic::{AtomicUsize, Ordering::SeqCst};
use std::sync::Arc;
use std::task::{Wake, Waker};

use async_locks::mutex::{LockFuture, Mutex, MutexGuard};
use async_locks::mutex_steps::{LockPoll, MutexOp, MutexSeen, Unlock};
use async_locks::waiter::{Waiter, WaiterList};
use async_locks::Poll;

struct Task {
    wakes: AtomicUsize,
}

impl Wake for Task {
    fn wake(self: Arc<Self>) {
        self.wakes.fetch_add(1, SeqCst);
    }
}

fn task() -> (Arc<Task>, Waker) {
    let task = Arc::new(Task { wakes: AtomicUsize::new(0) });
    let waker = Waker::from(Arc::clone(&task));
    (task, waker)
}

fn wakes(task: &Arc<Task>) -> usize {
    task.wakes.load(SeqCst)
}

fn lock_now<T>(future: &mut LockFuture, mutex: &mut Mutex<T>, waker: &Waker) -> MutexGuard {
    match future.poll(mutex, waker) {
        Poll::Ready(guard) => guard,
        Poll::Pending => panic!("the mutex is free"),
    }
}

#[test]
fn guard_reads_and_writes_the_value() {
    let (_, waker) = task();
    let mut mutex = Mutex::new(String::from("a"));
    let mut future = mutex.lock();
    let mut guard = lock_now(&mut future, &mut mutex, &waker);
    guard.deref_mut(&mut mutex).push('b');
    assert_eq!(guard.deref(&mutex), "ab");
}

#[test]
fn owner_is_alone() {
    let (_, waker) = task();
    let mut mutex = Mutex::new(());
    let mut first = mutex.lock();
    let mut second = mutex.lock();
    let guard = lock_now(&mut first, &mut mutex, &waker);
    assert!(matches!(second.poll(&mut mutex, &waker), Poll::Pending));
    assert!(matches!(second.poll(&mut mutex, &waker), Poll::Pending));
    guard.drop(&mut mutex).unwrap().wake();
    let guard = lock_now(&mut second, &mut mutex, &waker);
    assert!(guard.drop(&mut mutex).is_none());
}

#[test]
fn waiters_are_woken_in_the_order_of_their_coming() {
    let (_, waker) = task();
    let mut mutex = Mutex::new(());
    let mut holding = mutex.lock();
    let mut guard = lock_now(&mut holding, &mut mutex, &waker);
    let mut waiting = Vec::new();
    for _ in 0..3 {
        let (waiter, waker) = task();
        let mut future = mutex.lock();
        assert!(matches!(future.poll(&mut mutex, &waker), Poll::Pending));
        waiting.push((waiter, waker, future));
    }
    // coming again does not cost a waiter its place
    let (_, waker, future) = &mut waiting[0];
    assert!(matches!(future.poll(&mut mutex, waker), Poll::Pending));
    for next in 0..3 {
        guard.drop(&mut mutex).unwrap().wake();
        let woken: Vec<usize> = waiting.iter().map(|(waiter, _, _)| wakes(waiter)).collect();
        let expected: Vec<usize> = (0..3).map(|i| if i <= next { 1 } else { 0 }).collect();
        assert_eq!(woken, expected);
        let (_, waker, future) = &mut waiting[next];
        guard = lock_now(future, &mut mutex, waker);
    }
}

#[test]
fn woken_waiter_that_finds_the_mutex_taken_waits_at_the_back() {
    let (_, waker) = task();
    let (first_task, first_waker) = task();
    let (second_task, second_waker) = task();
    let mut mutex = Mutex::new(());
    let mut holding = mutex.lock();
    let mut first = mutex.lock();
    let mut second = mutex.lock();
    let guard = lock_now(&mut holding, &mut mutex, &waker);
    assert!(matches!(first.poll(&mut mutex, &first_waker), Poll::Pending));
    assert!(matches!(second.poll(&mut mutex, &second_waker), Poll::Pending));
    guard.drop(&mut mutex).unwrap().wake();
    assert_eq!((wakes(&first_task), wakes(&second_task)), (1, 0));
    // another task comes before the one that was woken
    let mut barging = mutex.lock();
    let guard = lock_now(&mut barging, &mut mutex, &waker);
    assert!(matches!(first.poll(&mut mutex, &first_waker), Poll::Pending));
    guard.drop(&mut mutex).unwrap().wake();
    assert_eq!((wakes(&first_task), wakes(&second_task)), (1, 1));
}

#[test]
fn dropped_future_is_not_woken() {
    let (_, waker) = task();
    let (first_task, first_waker) = task();
    let (second_task, second_waker) = task();
    let mut mutex = Mutex::new(());
    let mut holding = mutex.lock();
    let mut first = mutex.lock();
    let mut second = mutex.lock();
    let guard = lock_now(&mut holding, &mut mutex, &waker);
    assert!(matches!(first.poll(&mut mutex, &first_waker), Poll::Pending));
    assert!(matches!(second.poll(&mut mutex, &second_waker), Poll::Pending));
    first.drop(&mut mutex);
    guard.drop(&mut mutex).unwrap().wake();
    assert_eq!((wakes(&first_task), wakes(&second_task)), (0, 1));
}

#[test]
fn future_that_never_waited_is_dropped_without_effect() {
    let (_, waker) = task();
    let mut mutex = Mutex::new(());
    let mut holding = mutex.lock();
    let idle = mutex.lock();
    let guard = lock_now(&mut holding, &mut mutex, &waker);
    idle.drop(&mut mutex);
    holding.drop(&mut mutex);
    assert!(guard.drop(&mut mutex).is_none());
}

#[test]
fn task_sleeps_next_to_a_free_mutex_only_behind_a_notified_one() {
    let (_, waker) = task();
    let (first_task, first_waker) = task();
    let (second_task, second_waker) = task();
    let mut mutex = Mutex::new(());
    let mut holding = mutex.lock();
    let mut first = mutex.lock();
    let mut second = mutex.lock();
    let guard = lock_now(&mut holding, &mut mutex, &waker);
    holding.drop(&mut mutex);
    assert!(matches!(first.poll(&mut mutex, &first_waker), Poll::Pending));
    assert!(matches!(second.poll(&mut mutex, &second_waker), Poll::Pending));
    guard.drop(&mut mutex).unwrap().wake();
    assert_eq!((wakes(&first_task), wakes(&second_task)), (1, 0));
    let guard = lock_now(&mut first, &mut mutex, &first_waker);
    first.drop(&mut mutex);
    guard.drop(&mut mutex).unwrap().wake();
    assert_eq!((wakes(&first_task), wakes(&second_task)), (1, 1));
    let guard = lock_now(&mut second, &mut mutex, &second_waker);
    second.drop(&mut mutex);
    assert!(guard.drop(&mut mutex).is_none());
}

#[test]
fn notified_future_that_is_dropped_loses_the_wakeup() {
    let (_, waker) = task();
    let (first_task, first_waker) = task();
    let (second_task, second_waker) = task();
    let mut mutex = Mutex::new(());
    let mut holding = mutex.lock();
    let mut first = mutex.lock();
    let mut second = mutex.lock();
    let guard = lock_now(&mut holding, &mut mutex, &waker);
    assert!(matches!(first.poll(&mut mutex, &first_waker), Poll::Pending));
    assert!(matches!(second.poll(&mut mutex, &second_waker), Poll::Pending));
    guard.drop(&mut mutex).unwrap().wake();
    first.drop(&mut mutex);
    assert_eq!((wakes(&first_task), wakes(&second_task)), (1, 0));
}

fn lock_step<T>(poll: LockPoll, mutex: &mut Mutex<T>, id: usize, waker: &Waker) -> LockPoll {
    let (seen, _) = mutex.perform(poll.op(), id, Some(waker));
    poll.next(seen)
}

#[test]
fn second_try_takes_a_mutex_that_became_free() {
    let (waiter, waker) = task();
    let mut mutex = Mutex::new(());
    mutex.perform(MutexOp::CompareExchange, 0, None);
    let mut poll = lock_step(LockPoll::Try, &mut mutex, 1, &waker);
    assert_eq!(poll, LockPoll::Enlist);
    // the owner unlocks before the waiter is linked, and wakes nobody
    mutex.perform(MutexOp::Store, 0, None);
    assert_eq!(mutex.perform(MutexOp::Pop, 0, None).0, MutexSeen::Popped(false));
    poll = lock_step(poll, &mut mutex, 1, &waker);
    assert_eq!(poll, LockPoll::Retry);
    poll = lock_step(poll, &mut mutex, 1, &waker);
    assert_eq!(poll, LockPoll::Delist);
    poll = lock_step(poll, &mut mutex, 1, &waker);
    assert_eq!(poll, LockPoll::Ready);
    assert_eq!(mutex.perform(MutexOp::CompareExchange, 0, None).0, MutexSeen::Acquired(false));
    assert_eq!(mutex.perform(MutexOp::Pop, 0, None).0, MutexSeen::Popped(false));
    assert_eq!(wakes(&waiter), 0);
}

#[test]
fn unlock_program_runs_in_order() {
    assert_eq!(Unlock::Enter.next(MutexSeen::Done), Unlock::Store);
    assert_eq!(Unlock::Store.op(), MutexOp::Store);
    assert_eq!(Unlock::Store.next(MutexSeen::Done), Unlock::Pop);
    assert_eq!(Unlock::Pop.next(MutexSeen::Popped(true)), Unlock::Wake);
    assert_eq!(Unlock::Pop.next(MutexSeen::Popped(false)), Unlock::Leave);
    assert_eq!(Unlock::Wake.next(MutexSeen::Done), Unlock::Leave);
    assert_eq!(Unlock::Leave.next(MutexSeen::Done), Unlock::Done);
}

#[test]
fn waiter_keeps_its_last_waker() {
    let (old_task, old_waker) = task();
    let (new_task, new_waker) = task();
    let mut waiter = Waiter::new(4);
    assert!(waiter.take_waker().is_none());
    waiter.add_waker(old_waker);
    waiter.add_waker(new_waker);
    waiter.take_waker().unwrap().wake();
    assert!(waiter.take_waker().is_none());
    assert_eq!((wakes(&old_task), wakes(&new_task)), (0, 1));
}

#[test]
fn list_is_first_in_first_out() {
    let (first_task, first_waker) = task();
    let (second_task, second_waker) = task();
    let (third_task, third_waker) = task();
    let mut list = WaiterList::new();
    assert!(list.pop_front().is_none());
    list.enlist(7, &first_waker);
    list.enlist(3, &first_waker);
    list.enlist(5, &third_waker);
    list.enlist(3, &second_waker);
    assert!(!list.remove(4));
    list.pop_front().unwrap().wake();
    assert_eq!((wakes(&first_task), wakes(&second_task), wakes(&third_task)), (1, 0, 0));
    list.pop_front().unwrap().wake();
    assert_eq!((wakes(&first_task), wakes(&second_task), wakes(&third_task)), (1, 1, 0));
    assert!(list.remove(5));
    assert!(!list.remove(5));
    assert!(list.pop_front().is_none());
    assert_eq!(wakes(&third_task), 0);
}

#[test]
fn refresh_reaches_linked_waiters_only() {
    let (old_task, old_waker) = task();
    let (new_task, new_waker) = task();
    let mut list = WaiterList::new();
    list.enlist(1, &old_waker);
    assert!(!list.refresh(2, &new_waker));
    assert!(list.refresh(1, &new_waker));
    let wakers = list.drain();
    assert_eq!(wakers.len(), 1);
    for waker in wakers {
        waker.wake();
    }
    assert_eq!((wakes(&old_task), wakes(&new_task)), (0, 1));
    assert!(list.drain().is_empty());
}
