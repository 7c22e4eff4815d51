//! The condition variable and the semaphore, call by call.

use std::sync::atomic::{AtomicUsize, Ordering::SeqCst};
use std::sync::Arc;
use std::task::{Wake, Waker};

use async_locks::condvar::{Condvar, CondvarWaitFuture, WaitPoll, WaitSeen};
use async_locks::mutex::{Mutex, MutexGuard};
use async_locks::semaphore::{put_permit, take_permit, Semaphore};
use async_locks::Poll;

struct Task {
    wakes: AtomicUsize,
}

impl Wake for Task {
    fn wake(self: Arc<Self>) {
        self.wakes.fetch_add(1, SeqCst);
    }
}

fn task() -> (Arc<Task>, Waker) {
    let task = Arc::new(Task { wakes: AtomicUsize::new(0) });
    let waker = Waker::from(Arc::clone(&task));
    (task, waker)
}

fn wakes(task: &Arc<Task>) -> usize {
    task.wakes.load(SeqCst)
}

fn locked<T>(mutex: &mut Mutex<T>, waker: &Waker) -> MutexGuard {
    let mut future = mutex.lock();
    match future.poll(mutex, waker) {
        Poll::Ready(guard) => guard,
        Poll::Pending => panic!("the mutex is free"),
    }
}

/// A wait after its first poll.
fn parked<T>(cv: &mut Condvar, mutex: &mut Mutex<T>, waker: &Waker) -> CondvarWaitFuture {
    let guard = locked(mutex, waker);
    let mut wait = cv.wait(guard);
    let (answer, woken) = wait.poll(cv, mutex, waker);
    assert!(matches!(answer, Poll::Pending));
    assert!(woken.is_none());
    wait
}

#[test]
fn wait_gives_the_mutex_back_and_takes_it_again() {
    let (waiter, waker) = task();
    let mut cv = Condvar::new();
    let mut mutex = Mutex::new(0u8);
    let mut wait = parked(&mut cv, &mut mutex, &waker);
    // the mutex is free while the wait lasts
    let mut guard = locked(&mut mutex, &waker);
    *guard.deref_mut(&mut mutex) = 9;
    assert!(guard.drop(&mut mutex).is_none());
    cv.notify_one().unwrap().wake();
    assert_eq!(wakes(&waiter), 1);
    match wait.poll(&mut cv, &mut mutex, &waker) {
        (Poll::Ready(guard), None) => assert_eq!(*guard.deref(&mutex), 9),
        _ => panic!("the wait is over"),
    }
}

#[test]
fn wait_does_not_end_without_a_notification() {
    let (old_task, old_waker) = task();
    let (new_task, new_waker) = task();
    let mut cv = Condvar::default();
    let mut mutex = Mutex::new(());
    let mut wait = parked(&mut cv, &mut mutex, &old_waker);
    assert!(matches!(wait.poll(&mut cv, &mut mutex, &new_waker).0, Poll::Pending));
    // the notification goes to the waker of the last poll
    cv.notify_one().unwrap().wake();
    assert_eq!((wakes(&old_task), wakes(&new_task)), (0, 1));
    assert!(matches!(wait.poll(&mut cv, &mut mutex, &new_waker).0, Poll::Ready(_)));
}

#[test]
fn giving_the_mutex_back_wakes_its_first_waiter() {
    let (_, waker) = task();
    let (locking_task, locking_waker) = task();
    let mut cv = Condvar::new();
    let mut mutex = Mutex::new(());
    let guard = locked(&mut mutex, &waker);
    let mut locking = mutex.lock();
    assert!(matches!(locking.poll(&mut mutex, &locking_waker), Poll::Pending));
    let mut wait = cv.wait(guard);
    let (answer, woken) = wait.poll(&mut cv, &mut mutex, &waker);
    assert!(matches!(answer, Poll::Pending));
    woken.unwrap().wake();
    assert_eq!(wakes(&locking_task), 1);
    assert!(matches!(locking.poll(&mut mutex, &locking_waker), Poll::Ready(_)));
}

#[test]
fn notified_wait_waits_for_the_mutex() {
    let (waiter, waker) = task();
    let (_, other_waker) = task();
    let mut cv = Condvar::new();
    let mut mutex = Mutex::new(());
    let mut wait = parked(&mut cv, &mut mutex, &waker);
    let guard = locked(&mut mutex, &other_waker);
    cv.notify_one().unwrap().wake();
    assert!(matches!(wait.poll(&mut cv, &mut mutex, &waker).0, Poll::Pending));
    assert!(matches!(wait.poll(&mut cv, &mut mutex, &waker).0, Poll::Pending));
    guard.drop(&mut mutex).unwrap().wake();
    assert_eq!(wakes(&waiter), 2);
    match wait.poll(&mut cv, &mut mutex, &waker).0 {
        // the wait has left the list of the mutex
        Poll::Ready(guard) => assert!(guard.drop(&mut mutex).is_none()),
        Poll::Pending => panic!("the mutex is free"),
    }
}

#[test]
fn notifications_go_to_the_longest_waiting_first() {
    let mut cv = Condvar::new();
    let mut mutex = Mutex::new(());
    let mut waiting = Vec::new();
    for _ in 0..3 {
        let (waiter, waker) = task();
        let wait = parked(&mut cv, &mut mutex, &waker);
        waiting.push((waiter, wait));
    }
    for next in 0..3 {
        cv.notify_one().unwrap().wake();
        let woken: Vec<usize> = waiting.iter().map(|(waiter, _)| wakes(waiter)).collect();
        let expected: Vec<usize> = (0..3).map(|i| if i <= next { 1 } else { 0 }).collect();
        assert_eq!(woken, expected);
    }
    assert!(cv.notify_one().is_none());
}

#[test]
fn notify_all_wakes_each_waiter_once() {
    let mut cv = Condvar::new();
    let mut mutex = Mutex::new(());
    let mut waiting = Vec::new();
    for _ in 0..3 {
        let (waiter, waker) = task();
        let wait = parked(&mut cv, &mut mutex, &waker);
        waiting.push((waiter, wait));
    }
    let wakers = cv.notify_all();
    assert_eq!(wakers.len(), 3);
    for (next, waker) in wakers.into_iter().enumerate() {
        waker.wake();
        assert_eq!(wakes(&waiting[next].0), 1);
    }
    assert!(cv.notify_all().is_empty());
}

#[test]
fn notification_before_the_wait_is_not_kept() {
    let (_, waker) = task();
    let mut cv = Condvar::new();
    let mut mutex = Mutex::new(());
    assert!(cv.notify_one().is_none());
    let mut wait = parked(&mut cv, &mut mutex, &waker);
    assert!(matches!(wait.poll(&mut cv, &mut mutex, &waker).0, Poll::Pending));
}

#[test]
fn dropped_wait_is_not_notified() {
    let (first_task, first_waker) = task();
    let (second_task, second_waker) = task();
    let mut cv = Condvar::new();
    let mut mutex = Mutex::new(());
    let first = parked(&mut cv, &mut mutex, &first_waker);
    let _second = parked(&mut cv, &mut mutex, &second_waker);
    assert!(first.drop(&mut cv, &mut mutex).is_none());
    cv.notify_one().unwrap().wake();
    assert_eq!((wakes(&first_task), wakes(&second_task)), (0, 1));
}

#[test]
fn wait_that_is_dropped_before_its_first_poll_gives_the_mutex_back() {
    let (_, waker) = task();
    let (locking_task, locking_waker) = task();
    let mut cv = Condvar::new();
    let mut mutex = Mutex::new(());
    let guard = locked(&mut mutex, &waker);
    let mut locking = mutex.lock();
    assert!(matches!(locking.poll(&mut mutex, &locking_waker), Poll::Pending));
    let wait = cv.wait(guard);
    wait.drop(&mut cv, &mut mutex).unwrap().wake();
    assert_eq!(wakes(&locking_task), 1);
    assert!(matches!(locking.poll(&mut mutex, &locking_waker), Poll::Ready(_)));
    assert!(cv.notify_one().is_none());
}

#[test]
fn wait_that_is_dropped_while_it_waits_for_the_mutex_leaves_its_list() {
    let (_, waker) = task();
    let (_, other_waker) = task();
    let mut cv = Condvar::new();
    let mut mutex = Mutex::new(());
    let mut wait = parked(&mut cv, &mut mutex, &waker);
    let guard = locked(&mut mutex, &other_waker);
    cv.notify_one().unwrap().wake();
    assert!(matches!(wait.poll(&mut cv, &mut mutex, &waker).0, Poll::Pending));
    assert!(wait.drop(&mut cv, &mut mutex).is_none());
    assert!(guard.drop(&mut mutex).is_none());
}

#[test]
fn wait_program_runs_in_order() {
    assert_eq!(WaitPoll::Enlist.next(WaitSeen::Done), WaitPoll::Release);
    assert_eq!(WaitPoll::Release.next(WaitSeen::Done), WaitPoll::Leave);
    assert_eq!(WaitPoll::Leave.next(WaitSeen::Done), WaitPoll::Parked);
    assert_eq!(WaitPoll::Check.next(WaitSeen::Linked(true)), WaitPoll::Parked);
    assert_eq!(WaitPoll::Check.next(WaitSeen::Linked(false)), WaitPoll::Lock);
    assert_eq!(WaitPoll::Lock.next(WaitSeen::Locked(true)), WaitPoll::Ready);
    assert_eq!(WaitPoll::Lock.next(WaitSeen::Locked(false)), WaitPoll::Acquiring);
}

#[test]
fn permits_count_down_and_up() {
    let mut permits = 1;
    assert!(take_permit(&mut permits));
    assert_eq!(permits, 0);
    assert!(!take_permit(&mut permits));
    assert_eq!(permits, 0);
    put_permit(&mut permits);
    assert_eq!(permits, 1);
}

#[test]
fn semaphore_gives_out_as_many_permits_as_it_has() {
    let (_, waker) = task();
    let mut semaphore = Semaphore::new(2);
    for _ in 0..2 {
        let mut acquiring = semaphore.acquire();
        let (answer, wakers) = acquiring.poll(&mut semaphore, &waker);
        assert!(matches!(answer, Poll::Ready(())));
        assert!(wakers.is_empty());
    }
    let mut acquiring = semaphore.acquire();
    let (answer, wakers) = acquiring.poll(&mut semaphore, &waker);
    assert!(matches!(answer, Poll::Pending));
    assert!(wakers.is_empty());
}

#[test]
fn released_permit_wakes_the_longest_waiting() {
    let (first_task, first_waker) = task();
    let (second_task, second_waker) = task();
    let mut semaphore = Semaphore::new(0);
    let mut first = semaphore.acquire();
    let mut second = semaphore.acquire();
    assert!(matches!(first.poll(&mut semaphore, &first_waker).0, Poll::Pending));
    assert!(matches!(second.poll(&mut semaphore, &second_waker).0, Poll::Pending));
    let mut releasing = semaphore.release();
    let (answer, wakers) = releasing.poll(&mut semaphore, &second_waker);
    assert!(matches!(answer, Poll::Ready(())));
    assert_eq!(wakers.len(), 1);
    for waker in wakers {
        waker.wake();
    }
    assert_eq!((wakes(&first_task), wakes(&second_task)), (1, 0));
    assert!(matches!(second.poll(&mut semaphore, &second_waker).0, Poll::Pending));
    assert!(matches!(first.poll(&mut semaphore, &first_waker).0, Poll::Ready(())));
    assert!(matches!(second.poll(&mut semaphore, &second_waker).0, Poll::Pending));
}

#[test]
fn woken_acquisition_that_finds_no_permit_waits_again() {
    let (waiter, waker) = task();
    let (_, other_waker) = task();
    let mut semaphore = Semaphore::new(0);
    let mut waiting = semaphore.acquire();
    assert!(matches!(waiting.poll(&mut semaphore, &waker).0, Poll::Pending));
    let mut releasing = semaphore.release();
    for waker in releasing.poll(&mut semaphore, &other_waker).1 {
        waker.wake();
    }
    assert_eq!(wakes(&waiter), 1);
    // another task comes before the one that was woken
    let mut barging = semaphore.acquire();
    assert!(matches!(barging.poll(&mut semaphore, &other_waker).0, Poll::Ready(())));
    assert!(matches!(waiting.poll(&mut semaphore, &waker).0, Poll::Pending));
    let mut releasing = semaphore.release();
    for waker in releasing.poll(&mut semaphore, &other_waker).1 {
        waker.wake();
    }
    assert_eq!(wakes(&waiter), 2);
    assert!(matches!(waiting.poll(&mut semaphore, &waker).0, Poll::Ready(())));
}

#[test]
fn dropped_acquisition_is_not_woken() {
    let (first_task, first_waker) = task();
    let (second_task, second_waker) = task();
    let mut semaphore = Semaphore::new(0);
    let mut first = semaphore.acquire();
    let mut second = semaphore.acquire();
    assert!(matches!(first.poll(&mut semaphore, &first_waker).0, Poll::Pending));
    assert!(matches!(second.poll(&mut semaphore, &second_waker).0, Poll::Pending));
    first.drop(&mut semaphore);
    let unused = semaphore.release();
    unused.drop(&mut semaphore);
    let mut releasing = semaphore.release();
    for waker in releasing.poll(&mut semaphore, &second_waker).1 {
        waker.wake();
    }
    assert_eq!((wakes(&first_task), wakes(&second_task)), (0, 1));
}

#[test]
fn permits_are_those_at_the_start_and_those_given_without_those_taken() {
    let (_, waker) = task();
    let mut semaphore = Semaphore::new(1);
    // nobody has taken a permit, and two more are given
    for _ in 0..2 {
        let mut releasing = semaphore.release();
        assert!(matches!(releasing.poll(&mut semaphore, &waker).0, Poll::Ready(())));
    }
    for _ in 0..3 {
        let mut acquiring = semaphore.acquire();
        assert!(matches!(acquiring.poll(&mut semaphore, &waker).0, Poll::Ready(())));
    }
    // what waits or is dropped takes nothing
    let mut waiting = semaphore.acquire();
    assert!(matches!(waiting.poll(&mut semaphore, &waker).0, Poll::Pending));
    waiting.drop(&mut semaphore);
    let mut releasing = semaphore.release();
    assert!(releasing.poll(&mut semaphore, &waker).1.is_empty());
    let mut last = semaphore.acquire();
    assert!(matches!(last.poll(&mut semaphore, &waker).0, Poll::Ready(())));
    let mut late = semaphore.acquire();
    assert!(matches!(late.poll(&mut semaphore, &waker).0, Poll::Pending));
}
