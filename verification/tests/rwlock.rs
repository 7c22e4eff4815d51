//! The reader-writer lock, call by call and step by step.

use std::sync::atomic::{AtomicUsize, Ordering::SeqCst};
use std::sync::Arc;
use std::task::{Wake, Waker};

use async_locks::rwlock::{ReadGuard, ReadLockFuture, RwLock, WriteGuard, WriteLockFuture};
use async_locks::rwlock_steps::{
    ReadPoll, ReadRelease, RwOp, Seen, WriteCancel, WritePoll, WriteRelease, FULL, WRITE_LOCKED,
};
use async_locks::waker_map::WakerMap;
use async_locks::Poll;

struct Task {
    wakes: AtomicUsize,
}

impl Wake for Task {
    fn wake(self: Arc<Self>) {
        self.wakes.fetch_add(1, SeqCst);
    }
}

fn task() -> (Arc<Task>, Waker) {
    let task = Arc::new(Task { wakes: AtomicUsize::new(0) });
    let waker = Waker::from(Arc::clone(&task));
    (task, waker)
}

fn wakes(task: &Arc<Task>) -> usize {
    task.wakes.load(SeqCst)
}

fn wake_all(wakers: Vec<Waker>) {
    for waker in wakers {
        waker.wake();
    }
}

fn word<T>(lock: &mut RwLock<T>) -> u32 {
    match lock.perform(RwOp::Load, 0, None).0 {
        Seen::Word(word) => word,
        _ => panic!("a load sees a word"),
    }
}

fn read_now<T>(future: &mut ReadLockFuture, lock: &mut RwLock<T>, waker: &Waker) -> ReadGuard {
    match future.poll(lock, waker) {
        Poll::Ready(guard) => guard,
        Poll::Pending => panic!("readers may enter"),
    }
}

fn write_now<T>(future: &mut WriteLockFuture, lock: &mut RwLock<T>, waker: &Waker) -> WriteGuard {
    match future.poll(lock, waker) {
        Poll::Ready(guard) => guard,
        Poll::Pending => panic!("the lock is free"),
    }
}

#[test]
fn state_word_counts_readers_twice() {
    let (_, waker) = task();
    let mut lock = RwLock::new('x');
    assert_eq!(word(&mut lock), 0);
    let mut first = lock.read();
    let mut second = lock.read();
    let one = read_now(&mut first, &mut lock, &waker);
    assert_eq!(word(&mut lock), 2);
    let two = read_now(&mut second, &mut lock, &waker);
    assert_eq!(word(&mut lock), 4);
    assert_eq!(*one.deref(&lock), 'x');
    assert_eq!(*two.deref(&lock), 'x');
    assert!(one.drop(&mut lock).is_empty());
    assert_eq!(word(&mut lock), 2);
    assert!(two.drop(&mut lock).is_empty());
    assert_eq!(word(&mut lock), 0);
}

#[test]
fn writer_is_alone() {
    let (_, waker) = task();
    let mut lock = RwLock::new(1u32);
    let mut writing = lock.write();
    let mut other = lock.write();
    let mut reading = lock.read();
    let mut guard = write_now(&mut writing, &mut lock, &waker);
    assert_eq!(word(&mut lock), WRITE_LOCKED);
    assert_eq!(WRITE_LOCKED, u32::MAX);
    assert!(matches!(other.poll(&mut lock, &waker), Poll::Pending));
    assert!(matches!(reading.poll(&mut lock, &waker), Poll::Pending));
    assert_eq!(word(&mut lock), WRITE_LOCKED);
    *guard.deref_mut(&mut lock) += 41;
    assert_eq!(*guard.deref(&lock), 42);
}

#[test]
fn waiting_writer_keeps_new_readers_out() {
    let (reader_task, reader_waker) = task();
    let (writer_task, writer_waker) = task();
    let mut lock = RwLock::new(0u32);
    let mut first = lock.read();
    let mut writing = lock.write();
    let mut second = lock.read();

    let guard = read_now(&mut first, &mut lock, &reader_waker);
    assert!(matches!(writing.poll(&mut lock, &writer_waker), Poll::Pending));
    assert_eq!(word(&mut lock), 3);
    assert!(matches!(second.poll(&mut lock, &reader_waker), Poll::Pending));
    assert_eq!(word(&mut lock), 3);

    // the last reader wakes the writer
    let wakers = guard.drop(&mut lock);
    assert_eq!(wakers.len(), 1);
    wake_all(wakers);
    assert_eq!((wakes(&writer_task), wakes(&reader_task)), (1, 0));
    assert_eq!(word(&mut lock), 1);

    // readers stay out until the writer has had its turn
    assert!(matches!(second.poll(&mut lock, &reader_waker), Poll::Pending));
    let guard = write_now(&mut writing, &mut lock, &writer_waker);
    let wakers = guard.drop(&mut lock);
    assert_eq!(wakers.len(), 1);
    wake_all(wakers);
    assert_eq!((wakes(&writer_task), wakes(&reader_task)), (1, 1));
    assert_eq!(word(&mut lock), 0);
    let guard = read_now(&mut second, &mut lock, &reader_waker);
    assert_eq!(word(&mut lock), 2);
    assert!(guard.drop(&mut lock).is_empty());
}

#[test]
fn reader_that_is_not_the_last_wakes_nobody() {
    let (_, reader_waker) = task();
    let (writer_task, writer_waker) = task();
    let mut lock = RwLock::new(());
    let mut first = lock.read();
    let mut second = lock.read();
    let mut writing = lock.write();
    let one = read_now(&mut first, &mut lock, &reader_waker);
    let two = read_now(&mut second, &mut lock, &reader_waker);
    assert!(matches!(writing.poll(&mut lock, &writer_waker), Poll::Pending));
    assert_eq!(word(&mut lock), 5);
    assert!(one.drop(&mut lock).is_empty());
    assert_eq!(word(&mut lock), 3);
    wake_all(two.drop(&mut lock));
    assert_eq!(wakes(&writer_task), 1);
}

#[test]
fn writer_hands_over_to_one_writer() {
    let (first_task, first_waker) = task();
    let (second_task, second_waker) = task();
    let (reader_task, reader_waker) = task();
    let mut lock = RwLock::new(());
    let mut holding = lock.write();
    let mut first = lock.write();
    let mut second = lock.write();
    let mut reading = lock.read();

    let guard = write_now(&mut holding, &mut lock, &first_waker);
    assert!(matches!(first.poll(&mut lock, &first_waker), Poll::Pending));
    assert!(matches!(second.poll(&mut lock, &second_waker), Poll::Pending));
    assert!(matches!(reading.poll(&mut lock, &reader_waker), Poll::Pending));

    let wakers = guard.drop(&mut lock);
    assert_eq!(wakers.len(), 1);
    wake_all(wakers);
    assert_eq!(wakes(&first_task) + wakes(&second_task), 1);
    assert_eq!(wakes(&reader_task), 0);
    assert_eq!(word(&mut lock), 1);

    // whichever was woken hands over to the other, and then come the readers
    let (woken, woken_waker) = if wakes(&first_task) == 1 {
        (&mut first, &first_waker)
    } else {
        (&mut second, &second_waker)
    };
    let guard = write_now(woken, &mut lock, woken_waker);
    wake_all(guard.drop(&mut lock));
    assert_eq!((wakes(&first_task), wakes(&second_task)), (1, 1));
    assert_eq!(wakes(&reader_task), 0);
}

#[test]
fn writer_without_followers_wakes_all_readers() {
    let (writer_task, writer_waker) = task();
    let mut lock = RwLock::new(());
    let mut writing = lock.write();
    let guard = write_now(&mut writing, &mut lock, &writer_waker);
    let mut tasks = Vec::new();
    for _ in 0..3 {
        let (reader_task, reader_waker) = task();
        let mut reading = lock.read();
        assert!(matches!(reading.poll(&mut lock, &reader_waker), Poll::Pending));
        tasks.push((reader_task, reading));
    }
    let wakers = guard.drop(&mut lock);
    assert_eq!(wakers.len(), 3);
    wake_all(wakers);
    for (reader_task, _) in &tasks {
        assert_eq!(wakes(reader_task), 1);
    }
    assert_eq!(wakes(&writer_task), 0);
    assert_eq!(word(&mut lock), 0);
}

#[test]
fn last_waiting_writer_that_is_dropped_lets_readers_in() {
    let (reader_task, reader_waker) = task();
    let (_, writer_waker) = task();
    let mut lock = RwLock::new(());
    let mut first = lock.read();
    let mut second = lock.read();
    let mut writing = lock.write();
    let _held = read_now(&mut first, &mut lock, &reader_waker);
    assert!(matches!(writing.poll(&mut lock, &writer_waker), Poll::Pending));
    assert!(matches!(second.poll(&mut lock, &reader_waker), Poll::Pending));
    let wakers = writing.drop(&mut lock);
    assert_eq!(wakers.len(), 1);
    wake_all(wakers);
    assert_eq!(wakes(&reader_task), 1);
    assert_eq!(word(&mut lock), 2);
    read_now(&mut second, &mut lock, &reader_waker);
    assert_eq!(word(&mut lock), 4);
}

#[test]
fn one_of_two_waiting_writers_that_is_dropped_changes_nothing_else() {
    let (reader_task, reader_waker) = task();
    let (_, first_waker) = task();
    let (second_task, second_waker) = task();
    let mut lock = RwLock::new(());
    let mut reading = lock.read();
    let mut late = lock.read();
    let mut first = lock.write();
    let mut second = lock.write();
    let held = read_now(&mut reading, &mut lock, &reader_waker);
    assert!(matches!(first.poll(&mut lock, &first_waker), Poll::Pending));
    assert!(matches!(second.poll(&mut lock, &second_waker), Poll::Pending));
    assert!(matches!(late.poll(&mut lock, &reader_waker), Poll::Pending));
    assert!(first.drop(&mut lock).is_empty());
    assert_eq!(word(&mut lock), 3);
    assert_eq!(wakes(&reader_task), 0);
    wake_all(held.drop(&mut lock));
    assert_eq!(wakes(&second_task), 1);
}

#[test]
fn finished_write_future_that_is_dropped_leaves_the_lock_held() {
    let (_, waker) = task();
    let (reader_task, reader_waker) = task();
    let mut lock = RwLock::new(7);
    let mut writing = lock.write();
    let mut reading = lock.read();
    let guard = write_now(&mut writing, &mut lock, &waker);
    assert!(matches!(reading.poll(&mut lock, &reader_waker), Poll::Pending));
    // the parked reader is woken, finds the lock held, and parks again
    wake_all(writing.drop(&mut lock));
    assert_eq!(wakes(&reader_task), 1);
    assert_eq!(word(&mut lock), WRITE_LOCKED);
    assert!(matches!(reading.poll(&mut lock, &reader_waker), Poll::Pending));
    wake_all(guard.drop(&mut lock));
    assert_eq!(wakes(&reader_task), 2);
}

#[test]
fn dropped_read_future_is_not_woken() {
    let (reader_task, reader_waker) = task();
    let (_, writer_waker) = task();
    let mut lock = RwLock::new(());
    let mut writing = lock.write();
    let mut reading = lock.read();
    let guard = write_now(&mut writing, &mut lock, &writer_waker);
    assert!(matches!(reading.poll(&mut lock, &reader_waker), Poll::Pending));
    reading.drop(&mut lock);
    assert!(guard.drop(&mut lock).is_empty());
    assert_eq!(wakes(&reader_task), 0);
}

#[test]
fn polling_again_renews_the_waker() {
    let (old_task, old_waker) = task();
    let (new_task, new_waker) = task();
    let mut lock = RwLock::new(());
    let mut holding = lock.write();
    let mut writing = lock.write();
    let mut reading = lock.read();
    let guard = write_now(&mut holding, &mut lock, &old_waker);
    assert!(matches!(writing.poll(&mut lock, &old_waker), Poll::Pending));
    assert!(matches!(writing.poll(&mut lock, &new_waker), Poll::Pending));
    assert!(matches!(reading.poll(&mut lock, &old_waker), Poll::Pending));
    assert!(matches!(reading.poll(&mut lock, &new_waker), Poll::Pending));
    let wakers = guard.drop(&mut lock);
    assert_eq!(wakers.len(), 1);
    wake_all(wakers);
    assert_eq!((wakes(&old_task), wakes(&new_task)), (0, 1));
    let guard = write_now(&mut writing, &mut lock, &new_waker);
    let wakers = guard.drop(&mut lock);
    assert_eq!(wakers.len(), 1);
    wake_all(wakers);
    assert_eq!((wakes(&old_task), wakes(&new_task)), (0, 2));
}

#[test]
fn slot_ids_count_up() {
    let mut lock = RwLock::new(());
    assert_eq!(lock.next_slot_id(), 0);
    let _ = lock.read();
    let _ = lock.write();
    assert_eq!(lock.next_slot_id(), 3);
}

#[test]
fn there_is_room_for_readers_up_to_a_full_state_word() {
    let (_, waker) = task();
    let mut lock = RwLock::new(());
    assert_eq!(FULL, 0xffff_fffe);
    lock.perform(RwOp::Store { to: FULL - 2 }, 0, None);
    let mut reading = lock.read();
    let guard = read_now(&mut reading, &mut lock, &waker);
    assert_eq!(word(&mut lock), FULL);
    guard.drop(&mut lock);
    assert_eq!(word(&mut lock), FULL - 2);
}

#[test]
fn operations_see_what_they_do() {
    let (first_task, first_waker) = task();
    let (_, second_waker) = task();
    let mut lock = RwLock::new(());
    assert_eq!(lock.perform(RwOp::Exchange { from: 0, to: 4 }, 0, None).0, Seen::Swapped);
    assert_eq!(lock.perform(RwOp::Exchange { from: 0, to: 6 }, 0, None).0, Seen::Word(4));
    assert_eq!(lock.perform(RwOp::Subtract, 0, None).0, Seen::Word(4));
    assert_eq!(lock.perform(RwOp::Store { to: 1 }, 0, None).0, Seen::Done);
    assert_eq!(lock.perform(RwOp::Subtract, 0, None).0, Seen::Word(1));
    assert_eq!(word(&mut lock), u32::MAX);

    assert_eq!(lock.perform(RwOp::TakeWriter, 0, None).0, Seen::Found(false));
    assert_eq!(lock.perform(RwOp::ParkWriter, 5, Some(&first_waker)).0, Seen::Done);
    assert_eq!(lock.perform(RwOp::ParkWriter, 6, Some(&second_waker)).0, Seen::Done);
    assert_eq!(lock.perform(RwOp::RemoveWriter, 6, None).0, Seen::Found(true));
    let (seen, taken) = lock.perform(RwOp::TakeWriter, 0, None);
    assert_eq!(seen, Seen::Found(true));
    assert_eq!(taken.len(), 1);
    wake_all(taken);
    assert_eq!(wakes(&first_task), 1);
    assert_eq!(lock.perform(RwOp::RemoveWriter, 5, None).0, Seen::Found(false));

    lock.perform(RwOp::ParkReader, 7, Some(&first_waker));
    lock.perform(RwOp::ParkReader, 8, Some(&first_waker));
    lock.perform(RwOp::UnparkReader, 8, None);
    let (seen, taken) = lock.perform(RwOp::DrainReaders, 0, None);
    assert_eq!(seen, Seen::Done);
    assert_eq!(taken.len(), 1);
    assert!(lock.perform(RwOp::DrainReaders, 0, None).1.is_empty());
}

/// One step of a program on the memory of a lock.
fn write_step<T>(poll: WritePoll, lock: &mut RwLock<T>, slot: usize, waker: &Waker) -> WritePoll {
    let (seen, _) = lock.perform(poll.op(), slot, Some(waker));
    poll.next(seen)
}

fn read_step<T>(poll: ReadPoll, lock: &mut RwLock<T>, slot: usize, waker: &Waker) -> ReadPoll {
    let (seen, _) = lock.perform(poll.op(), slot, Some(waker));
    poll.next(seen)
}

#[test]
fn writer_finds_the_lock_free_after_it_has_registered() {
    let (_, waker) = task();
    let mut lock = RwLock::new(());
    lock.perform(RwOp::Store { to: WRITE_LOCKED }, 0, None);
    let mut poll = write_step(WritePoll::Load, &mut lock, 1, &waker);
    assert_eq!(poll, WritePoll::Park);
    // the holder goes away before the waker is registered, and finds nobody
    assert_eq!(lock.perform(RwOp::TakeWriter, 0, None).0, Seen::Found(false));
    lock.perform(RwOp::Store { to: 0 }, 0, None);
    poll = write_step(poll, &mut lock, 1, &waker);
    assert_eq!(poll, WritePoll::Recheck);
    poll = write_step(poll, &mut lock, 1, &waker);
    assert_eq!(poll, WritePoll::Unpark { seen: 0 });
    poll = write_step(poll, &mut lock, 1, &waker);
    assert_eq!(poll, WritePoll::Acquire { seen: 0 });
    poll = write_step(poll, &mut lock, 1, &waker);
    assert_eq!(poll, WritePoll::Ready);
    assert_eq!(word(&mut lock), WRITE_LOCKED);
    assert_eq!(lock.perform(RwOp::TakeWriter, 0, None).0, Seen::Found(false));
}

#[test]
fn writer_whose_exchange_fails_tries_with_the_word_it_saw() {
    assert_eq!(
        WritePoll::Acquire { seen: 0 }.next(Seen::Word(4)),
        WritePoll::Announce { seen: 4 }
    );
    assert_eq!(WritePoll::Announce { seen: 4 }.next(Seen::Word(5)), WritePoll::Park);
    assert_eq!(
        WritePoll::Announce { seen: 4 }.next(Seen::Word(1)),
        WritePoll::Acquire { seen: 1 }
    );
    assert_eq!(
        WritePoll::Acquire { seen: 1 }.next(Seen::Word(1)),
        WritePoll::Acquire { seen: 1 }
    );
    assert_eq!(WritePoll::Announce { seen: 4 }.op(), RwOp::Exchange { from: 4, to: 5 });
    assert_eq!(
        WritePoll::Acquire { seen: 1 }.op(),
        RwOp::Exchange { from: 1, to: WRITE_LOCKED }
    );
    assert_eq!(WritePoll::Recheck.next(Seen::Word(3)), WritePoll::Leave);
    assert_eq!(WritePoll::Leave.next(Seen::Done), WritePoll::Pending);
}

#[test]
fn reader_may_enter_after_it_has_registered() {
    let (reader_task, waker) = task();
    let mut lock = RwLock::new(());
    lock.perform(RwOp::Store { to: WRITE_LOCKED }, 0, None);
    let mut poll = read_step(ReadPoll::Load, &mut lock, 1, &waker);
    assert_eq!(poll, ReadPoll::Park);
    // the writer goes away and wakes nobody, since nobody is registered yet
    lock.perform(RwOp::Store { to: 0 }, 0, None);
    assert!(lock.perform(RwOp::DrainReaders, 0, None).1.is_empty());
    poll = read_step(poll, &mut lock, 1, &waker);
    poll = read_step(poll, &mut lock, 1, &waker);
    assert_eq!(poll, ReadPoll::Unpark { seen: 0 });
    poll = read_step(poll, &mut lock, 1, &waker);
    assert_eq!(poll, ReadPoll::Acquire { seen: 0 });
    poll = read_step(poll, &mut lock, 1, &waker);
    assert_eq!(poll, ReadPoll::Ready);
    assert_eq!(word(&mut lock), 2);
    assert!(lock.perform(RwOp::DrainReaders, 0, None).1.is_empty());
    assert_eq!(wakes(&reader_task), 0);
}

#[test]
fn reader_whose_exchange_fails_tries_with_the_word_it_saw() {
    assert_eq!(
        ReadPoll::Acquire { seen: 0 }.next(Seen::Word(2)),
        ReadPoll::Acquire { seen: 2 }
    );
    assert_eq!(ReadPoll::Acquire { seen: 0 }.next(Seen::Word(1)), ReadPoll::Park);
    assert_eq!(ReadPoll::Acquire { seen: 2 }.op(), RwOp::Exchange { from: 2, to: 4 });
    assert_eq!(ReadPoll::Recheck.next(Seen::Word(3)), ReadPoll::Leave);
    assert_eq!(ReadPoll::Leave.next(Seen::Done), ReadPoll::Pending);
}

#[test]
fn writer_that_finds_an_even_state_announces_itself() {
    // One writer releases and a reader enters between the look at the state
    // and the registration.
    let (writer_task, waker) = task();
    let mut lock = RwLock::new(());
    lock.perform(RwOp::Store { to: WRITE_LOCKED }, 0, None);
    let mut poll = write_step(WritePoll::Load, &mut lock, 1, &waker);
    assert_eq!(poll, WritePoll::Park);
    lock.perform(RwOp::Store { to: 0 }, 0, None);
    lock.perform(RwOp::Exchange { from: 0, to: 2 }, 0, None);
    poll = write_step(poll, &mut lock, 1, &waker);
    assert_eq!(poll, WritePoll::Recheck);
    poll = write_step(poll, &mut lock, 1, &waker);
    assert_eq!(poll, WritePoll::Unpark { seen: 2 });
    poll = write_step(poll, &mut lock, 1, &waker);
    assert_eq!(poll, WritePoll::Announce { seen: 2 });
    poll = write_step(poll, &mut lock, 1, &waker);
    assert_eq!(poll, WritePoll::Park);
    assert_eq!(word(&mut lock), 3);
    poll = write_step(poll, &mut lock, 1, &waker);
    poll = write_step(poll, &mut lock, 1, &waker);
    assert_eq!(poll, WritePoll::Leave);
    poll = write_step(poll, &mut lock, 1, &waker);
    assert_eq!(poll, WritePoll::Pending);
    // the last reader wakes it
    let (seen, _) = lock.perform(ReadRelease::Subtract.op(), 0, None);
    assert_eq!(ReadRelease::Subtract.next(seen), ReadRelease::Take);
    assert_eq!(word(&mut lock), 1);
    let (seen, wakers) = lock.perform(ReadRelease::Take.op(), 0, None);
    assert_eq!(seen, Seen::Found(true));
    wake_all(wakers);
    assert_eq!(wakes(&writer_task), 1);
}

#[test]
fn writer_whose_announcement_is_cleared_announces_itself_again() {
    let (_, waker) = task();
    let mut lock = RwLock::new(());
    lock.perform(RwOp::Store { to: 2 }, 0, None);
    let mut poll = write_step(WritePoll::Load, &mut lock, 1, &waker);
    poll = write_step(poll, &mut lock, 1, &waker);
    assert_eq!(poll, WritePoll::Park);
    assert_eq!(word(&mut lock), 3);
    // another writer gives up before this one has registered
    let mut cancel = WriteCancel::Remove;
    while !matches!(cancel, WriteCancel::Leave { .. }) {
        let (seen, _) = lock.perform(cancel.op(), 2, None);
        cancel = cancel.next(seen);
    }
    assert_eq!(cancel, WriteCancel::Leave { last: true });
    assert_eq!(word(&mut lock), 2);
    poll = write_step(poll, &mut lock, 1, &waker);
    poll = write_step(poll, &mut lock, 1, &waker);
    assert_eq!(poll, WritePoll::Unpark { seen: 2 });
    poll = write_step(poll, &mut lock, 1, &waker);
    poll = write_step(poll, &mut lock, 1, &waker);
    assert_eq!(poll, WritePoll::Park);
    assert_eq!(word(&mut lock), 3);
}

#[test]
fn registered_writer_looks_at_the_state_again() {
    assert_eq!(WritePoll::Recheck.next(Seen::Word(0)), WritePoll::Unpark { seen: 0 });
    assert_eq!(WritePoll::Recheck.next(Seen::Word(1)), WritePoll::Unpark { seen: 1 });
    assert_eq!(WritePoll::Recheck.next(Seen::Word(2)), WritePoll::Unpark { seen: 2 });
    assert_eq!(WritePoll::Recheck.next(Seen::Word(5)), WritePoll::Leave);
    assert_eq!(WritePoll::Recheck.next(Seen::Word(WRITE_LOCKED)), WritePoll::Leave);
    assert_eq!(WritePoll::Unpark { seen: 4 }.op(), RwOp::UnparkWriter);
    assert_eq!(WritePoll::Unpark { seen: 4 }.next(Seen::Done), WritePoll::Announce { seen: 4 });
    assert_eq!(WritePoll::Unpark { seen: 1 }.next(Seen::Done), WritePoll::Acquire { seen: 1 });
}

#[test]
fn state_word_is_even_when_nobody_waits_for_the_write_lock() {
    let (_, waker) = task();
    let mut lock = RwLock::new(());
    let mut reading = lock.read();
    let mut first = lock.write();
    let mut second = lock.write();
    let held = read_now(&mut reading, &mut lock, &waker);
    assert!(matches!(first.poll(&mut lock, &waker), Poll::Pending));
    assert!(matches!(second.poll(&mut lock, &waker), Poll::Pending));
    assert_eq!(word(&mut lock), 3);
    first.drop(&mut lock);
    assert_eq!(word(&mut lock), 3);
    second.drop(&mut lock);
    assert_eq!(word(&mut lock), 2);
    held.drop(&mut lock);
    assert_eq!(word(&mut lock), 0);
}

#[test]
fn reader_sleeps_only_while_no_reader_may_enter() {
    let (reader_task, reader_waker) = task();
    let (_, waker) = task();
    let mut lock = RwLock::new(());
    let mut entering = lock.read();
    let mut sleeping = lock.read();
    let mut writing = lock.write();
    let held = read_now(&mut entering, &mut lock, &waker);
    assert!(matches!(writing.poll(&mut lock, &waker), Poll::Pending));
    assert!(matches!(sleeping.poll(&mut lock, &reader_waker), Poll::Pending));
    // a new reader would have to wait too
    assert_eq!(word(&mut lock), 3);
    let mut fresh = lock.read();
    assert!(matches!(fresh.poll(&mut lock, &waker), Poll::Pending));
    fresh.drop(&mut lock);
    wake_all(held.drop(&mut lock));
    assert_eq!((word(&mut lock), wakes(&reader_task)), (1, 0));
    let guard = write_now(&mut writing, &mut lock, &waker);
    wake_all(guard.drop(&mut lock));
    assert_eq!((word(&mut lock), wakes(&reader_task)), (0, 1));
    read_now(&mut sleeping, &mut lock, &reader_waker);
}

#[test]
fn sleeping_writer_keeps_the_state_odd_when_a_notified_one_is_dropped() {
    let (first_task, first_waker) = task();
    let (second_task, second_waker) = task();
    let (_, waker) = task();
    let mut lock = RwLock::new(());
    let mut reading = lock.read();
    let mut first = lock.write();
    let mut second = lock.write();
    let held = read_now(&mut reading, &mut lock, &waker);
    assert!(matches!(first.poll(&mut lock, &first_waker), Poll::Pending));
    assert!(matches!(second.poll(&mut lock, &second_waker), Poll::Pending));
    wake_all(held.drop(&mut lock));
    assert_eq!(wakes(&first_task) + wakes(&second_task), 1);
    let notified = if wakes(&first_task) == 1 { first } else { second };
    assert!(notified.drop(&mut lock).is_empty());
    assert_eq!(word(&mut lock), 1);
    let mut late = lock.read();
    assert!(matches!(late.poll(&mut lock, &waker), Poll::Pending));
}

#[test]
fn dropped_write_future_is_not_woken() {
    let (writer_task, writer_waker) = task();
    let (_, waker) = task();
    let mut lock = RwLock::new(());
    let mut holding = lock.write();
    let mut waiting = lock.write();
    let guard = write_now(&mut holding, &mut lock, &waker);
    holding.drop(&mut lock);
    assert!(matches!(waiting.poll(&mut lock, &writer_waker), Poll::Pending));
    wake_all(waiting.drop(&mut lock));
    wake_all(guard.drop(&mut lock));
    assert_eq!(word(&mut lock), 0);
    let mut again = lock.write();
    let guard = write_now(&mut again, &mut lock, &waker);
    wake_all(guard.drop(&mut lock));
    assert_eq!(wakes(&writer_task), 0);
}

#[test]
fn release_programs_run_in_order() {
    assert_eq!(ReadRelease::Subtract.next(Seen::Word(2)), ReadRelease::Done);
    assert_eq!(ReadRelease::Subtract.next(Seen::Word(5)), ReadRelease::Done);
    assert_eq!(ReadRelease::Subtract.next(Seen::Word(3)), ReadRelease::Take);
    assert_eq!(ReadRelease::Take.next(Seen::Found(true)), ReadRelease::Wake);
    assert_eq!(ReadRelease::Take.next(Seen::Found(false)), ReadRelease::Leave);
    assert_eq!(ReadRelease::Wake.next(Seen::Done), ReadRelease::Leave);
    assert_eq!(ReadRelease::Leave.op(), RwOp::LeaveWriters);

    let handing = WriteRelease::Take.next(Seen::Found(true));
    assert_eq!(handing, WriteRelease::Store { handed: true });
    assert_eq!(handing.op(), RwOp::Store { to: 1 });
    assert_eq!(handing.next(Seen::Done).next(Seen::Done), WriteRelease::Wake);
    let freeing = WriteRelease::Take.next(Seen::Found(false));
    assert_eq!(freeing.op(), RwOp::Store { to: 0 });
    assert_eq!(freeing.next(Seen::Done).next(Seen::Done), WriteRelease::Drain);
    assert_eq!(WriteRelease::Drain.next(Seen::Done), WriteRelease::Wake);
    assert_eq!(WriteRelease::Wake.next(Seen::Done), WriteRelease::Done);
}

#[test]
fn cancel_program_clears_what_it_finds() {
    assert_eq!(WriteCancel::Remove.next(Seen::Found(true)), WriteCancel::Leave { last: false });
    assert_eq!(WriteCancel::Leave { last: false }.next(Seen::Done), WriteCancel::Done);
    assert_eq!(WriteCancel::Remove.next(Seen::Found(false)), WriteCancel::Load);
    assert_eq!(WriteCancel::Load.next(Seen::Word(4)), WriteCancel::Leave { last: true });
    assert_eq!(WriteCancel::Load.next(Seen::Word(WRITE_LOCKED)), WriteCancel::Leave { last: true });
    assert_eq!(WriteCancel::Load.next(Seen::Word(5)), WriteCancel::Clear { seen: 5 });
    assert_eq!(WriteCancel::Clear { seen: 5 }.op(), RwOp::Exchange { from: 5, to: 4 });
    assert_eq!(WriteCancel::Clear { seen: 5 }.next(Seen::Word(3)), WriteCancel::Clear { seen: 3 });
    assert_eq!(WriteCancel::Clear { seen: 5 }.next(Seen::Swapped), WriteCancel::Leave { last: true });
    assert_eq!(WriteCancel::Leave { last: true }.next(Seen::Done), WriteCancel::Drain);
}

#[test]
fn waker_map_gives_each_waker_out_once() {
    let (first_task, first_waker) = task();
    let (second_task, second_waker) = task();
    let mut map = WakerMap::new();
    assert!(map.is_empty());
    assert!(map.take_any().is_none());
    map.register(3, &first_waker);
    map.register(9, &first_waker);
    map.register(9, &second_waker);
    assert!(!map.is_empty());
    assert!(map.remove(4).is_none());
    let (id, waker) = map.take_any().unwrap();
    waker.wake();
    let rest = map.drain();
    assert_eq!(rest.len(), 1);
    assert!(map.is_empty());
    wake_all(rest);
    assert!(id == 3 || id == 9);
    assert_eq!((wakes(&first_task), wakes(&second_task)), (1, 1));
    map.register(1, &first_waker);
    map.remove(1).unwrap().wake();
    assert_eq!(wakes(&first_task), 2);
}
