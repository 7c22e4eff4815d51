//! Tasks on an executor that share the locks.

use std::cell::{Cell, RefCell};
use std::future::Future;
use std::pin::Pin;
use std::rc::Rc;
use std::task::{Context, Poll as TaskPoll, Waker};

use async_locks::condvar::CondvarWaitFuture;
use async_locks::mutex::{LockFuture, MutexGuard};
use async_locks::rwlock::{ReadGuard, ReadLockFuture, WriteGuard, WriteLockFuture};
use async_locks::semaphore::{AcquireFuture, ReleaseFuture};
use async_locks::{Condvar, Mutex, Poll, RwLock, Semaphore};

fn wake_all(wakers: Vec<Waker>) {
    for waker in wakers {
        waker.wake();
    }
}

fn wake_one(waker: Option<Waker>) {
    if let Some(waker) = waker {
        waker.wake();
    }
}

// ---- the mutex and the condition variable as futures ----

struct Locking<T> {
    mutex: Rc<RefCell<Mutex<T>>>,
    future: Option<LockFuture>,
}

struct Locked<T> {
    mutex: Rc<RefCell<Mutex<T>>>,
    guard: Option<MutexGuard>,
}

fn lock<T>(mutex: &Rc<RefCell<Mutex<T>>>) -> Locking<T> {
    let future = mutex.borrow_mut().lock();
    Locking { mutex: Rc::clone(mutex), future: Some(future) }
}

impl<T> Unpin for Locking<T> {}

impl<T> Future for Locking<T> {
    type Output = Locked<T>;

    fn poll(mut self: Pin<&mut Self>, cx: &mut Context<'_>) -> TaskPoll<Locked<T>> {
        let mutex = Rc::clone(&self.mutex);
        let future = self.future.as_mut().unwrap();
        let answer = future.poll(&mut mutex.borrow_mut(), cx.waker());
        match answer {
            Poll::Ready(guard) => {
                TaskPoll::Ready(Locked { mutex: Rc::clone(&mutex), guard: Some(guard) })
            }
            Poll::Pending => TaskPoll::Pending,
        }
    }
}

impl<T> Drop for Locking<T> {
    fn drop(&mut self) {
        let future = self.future.take().unwrap();
        future.drop(&mut self.mutex.borrow_mut());
    }
}

impl<T: Copy> Locked<T> {
    fn get(&self) -> T {
        *self.guard.as_ref().unwrap().deref(&self.mutex.borrow())
    }

    fn set(&mut self, value: T) {
        let mut mutex = self.mutex.borrow_mut();
        *self.guard.as_mut().unwrap().deref_mut(&mut mutex) = value;
    }
}

impl<T> Drop for Locked<T> {
    fn drop(&mut self) {
        if let Some(guard) = self.guard.take() {
            let waker = guard.drop(&mut self.mutex.borrow_mut());
            wake_one(waker);
        }
    }
}

struct Waiting<T> {
    cv: Rc<RefCell<Condvar>>,
    mutex: Rc<RefCell<Mutex<T>>>,
    future: Option<CondvarWaitFuture>,
}

fn wait<T>(cv: &Rc<RefCell<Condvar>>, mut locked: Locked<T>) -> Waiting<T> {
    let guard = locked.guard.take().unwrap();
    let future = cv.borrow_mut().wait(guard);
    Waiting { cv: Rc::clone(cv), mutex: Rc::clone(&locked.mutex), future: Some(future) }
}

impl<T> Unpin for Waiting<T> {}

impl<T> Future for Waiting<T> {
    type Output = Locked<T>;

    fn poll(mut self: Pin<&mut Self>, cx: &mut Context<'_>) -> TaskPoll<Locked<T>> {
        let cv = Rc::clone(&self.cv);
        let mutex = Rc::clone(&self.mutex);
        let future = self.future.as_mut().unwrap();
        let (answer, woken) =
            future.poll(&mut cv.borrow_mut(), &mut mutex.borrow_mut(), cx.waker());
        wake_one(woken);
        match answer {
            Poll::Ready(guard) => {
                TaskPoll::Ready(Locked { mutex: Rc::clone(&mutex), guard: Some(guard) })
            }
            Poll::Pending => TaskPoll::Pending,
        }
    }
}

impl<T> Drop for Waiting<T> {
    fn drop(&mut self) {
        let future = self.future.take().unwrap();
        let woken = future.drop(&mut self.cv.borrow_mut(), &mut self.mutex.borrow_mut());
        wake_one(woken);
    }
}

// ---- the reader-writer lock as futures ----

struct Reading {
    lock: Rc<RefCell<RwLock<u32>>>,
    future: Option<ReadLockFuture>,
}

struct Read {
    lock: Rc<RefCell<RwLock<u32>>>,
    guard: Option<ReadGuard>,
}

impl Unpin for Reading {}

fn read(lock: &Rc<RefCell<RwLock<u32>>>) -> Reading {
    let future = lock.borrow_mut().read();
    Reading { lock: Rc::clone(lock), future: Some(future) }
}

impl Future for Reading {
    type Output = Read;

    fn poll(mut self: Pin<&mut Self>, cx: &mut Context<'_>) -> TaskPoll<Read> {
        let lock = Rc::clone(&self.lock);
        let future = self.future.as_mut().unwrap();
        let answer = future.poll(&mut lock.borrow_mut(), cx.waker());
        match answer {
            Poll::Ready(guard) => {
                TaskPoll::Ready(Read { lock: Rc::clone(&lock), guard: Some(guard) })
            }
            Poll::Pending => TaskPoll::Pending,
        }
    }
}

impl Drop for Reading {
    fn drop(&mut self) {
        let future = self.future.take().unwrap();
        future.drop(&mut self.lock.borrow_mut());
    }
}

impl Read {
    fn get(&self) -> u32 {
        *self.guard.as_ref().unwrap().deref(&self.lock.borrow())
    }
}

impl Drop for Read {
    fn drop(&mut self) {
        let guard = self.guard.take().unwrap();
        let wakers = guard.drop(&mut self.lock.borrow_mut());
        wake_all(wakers);
    }
}

struct Writing {
    lock: Rc<RefCell<RwLock<u32>>>,
    future: Option<WriteLockFuture>,
}

struct Written {
    lock: Rc<RefCell<RwLock<u32>>>,
    guard: Option<WriteGuard>,
}

impl Unpin for Writing {}

fn write(lock: &Rc<RefCell<RwLock<u32>>>) -> Writing {
    let future = lock.borrow_mut().write();
    Writing { lock: Rc::clone(lock), future: Some(future) }
}

impl Future for Writing {
    type Output = Written;

    fn poll(mut self: Pin<&mut Self>, cx: &mut Context<'_>) -> TaskPoll<Written> {
        let lock = Rc::clone(&self.lock);
        let future = self.future.as_mut().unwrap();
        let answer = future.poll(&mut lock.borrow_mut(), cx.waker());
        match answer {
            Poll::Ready(guard) => {
                TaskPoll::Ready(Written { lock: Rc::clone(&lock), guard: Some(guard) })
            }
            Poll::Pending => TaskPoll::Pending,
        }
    }
}

impl Drop for Writing {
    fn drop(&mut self) {
        let future = self.future.take().unwrap();
        let wakers = future.drop(&mut self.lock.borrow_mut());
        wake_all(wakers);
    }
}

impl Written {
    fn get(&self) -> u32 {
        *self.guard.as_ref().unwrap().deref(&self.lock.borrow())
    }

    fn set(&mut self, value: u32) {
        let mut lock = self.lock.borrow_mut();
        *self.guard.as_mut().unwrap().deref_mut(&mut lock) = value;
    }
}

impl Drop for Written {
    fn drop(&mut self) {
        let guard = self.guard.take().unwrap();
        let wakers = guard.drop(&mut self.lock.borrow_mut());
        wake_all(wakers);
    }
}

// ---- the semaphore as futures ----

struct Acquiring {
    semaphore: Rc<RefCell<Semaphore>>,
    future: Option<AcquireFuture>,
}

struct Releasing {
    semaphore: Rc<RefCell<Semaphore>>,
    future: Option<ReleaseFuture>,
}

impl Unpin for Acquiring {}
impl Unpin for Releasing {}

fn acquire(semaphore: &Rc<RefCell<Semaphore>>) -> Acquiring {
    let future = semaphore.borrow_mut().acquire();
    Acquiring { semaphore: Rc::clone(semaphore), future: Some(future) }
}

fn release(semaphore: &Rc<RefCell<Semaphore>>) -> Releasing {
    let future = semaphore.borrow_mut().release();
    Releasing { semaphore: Rc::clone(semaphore), future: Some(future) }
}

impl Future for Acquiring {
    type Output = ();

    fn poll(mut self: Pin<&mut Self>, cx: &mut Context<'_>) -> TaskPoll<()> {
        let semaphore = Rc::clone(&self.semaphore);
        let future = self.future.as_mut().unwrap();
        let (answer, wakers) = future.poll(&mut semaphore.borrow_mut(), cx.waker());
        wake_all(wakers);
        match answer {
            Poll::Ready(()) => TaskPoll::Ready(()),
            Poll::Pending => TaskPoll::Pending,
        }
    }
}

impl Drop for Acquiring {
    fn drop(&mut self) {
        let future = self.future.take().unwrap();
        future.drop(&mut self.semaphore.borrow_mut());
    }
}

impl Future for Releasing {
    type Output = ();

    fn poll(mut self: Pin<&mut Self>, cx: &mut Context<'_>) -> TaskPoll<()> {
        let semaphore = Rc::clone(&self.semaphore);
        let future = self.future.as_mut().unwrap();
        let (answer, wakers) = future.poll(&mut semaphore.borrow_mut(), cx.waker());
        wake_all(wakers);
        match answer {
            Poll::Ready(()) => TaskPoll::Ready(()),
            Poll::Pending => TaskPoll::Pending,
        }
    }
}

impl Drop for Releasing {
    fn drop(&mut self) {
        let future = self.future.take().unwrap();
        future.drop(&mut self.semaphore.borrow_mut());
    }
}

// ---- the tests ----

// Tests that notify_one wakes exactly one waiter at a time.
// Workers each consume one "token" (counter decrement).
// Notifier adds one token and signals once per worker.
#[test]
fn condvar_notify_one() {
    let ex = Rc::new(smol::LocalExecutor::new());
    let cv = Rc::new(RefCell::new(Condvar::new()));
    let mutex = Rc::new(RefCell::new(Mutex::new(0usize)));
    let completed = Rc::new(Cell::new(0usize));
    let num_workers = 4;

    let run = Rc::clone(&ex);
    smol::block_on(run.run(async move {
        let workers: Vec<_> = (0..num_workers)
            .map(|id| {
                let cv = Rc::clone(&cv);
                let mutex = Rc::clone(&mutex);
                let completed = Rc::clone(&completed);
                ex.spawn(async move {
                    let mut guard = lock(&mutex).await;
                    while guard.get() == 0 {
                        println!("[{id}] going to sleep");
                        guard = wait(&cv, guard).await;
                    }
                    println!("[{id}] woken up!");
                    let tokens = guard.get();
                    guard.set(tokens - 1);
                    drop(guard);
                    completed.set(completed.get() + 1);
                })
            })
            .collect();

        for _ in 0..num_workers {
            let mut guard = lock(&mutex).await;
            let tokens = guard.get();
            guard.set(tokens + 1);
            drop(guard);
            println!("Waking one worker up!");
            let woken = cv.borrow_mut().notify_one();
            wake_one(woken);
            smol::future::yield_now().await;
        }

        futures::future::join_all(workers).await;
        assert_eq!(completed.get(), num_workers);
        assert_eq!(lock(&mutex).await.get(), 0); // all tokens consumed
    }));
}

// Tests that notify_all wakes every waiter in one shot.
#[test]
fn condvar_notify_all() {
    let ex = Rc::new(smol::LocalExecutor::new());
    let cv = Rc::new(RefCell::new(Condvar::new()));
    let mutex = Rc::new(RefCell::new(Mutex::new(false)));
    let completed = Rc::new(Cell::new(0usize));
    let num_workers = 4;

    let run = Rc::clone(&ex);
    smol::block_on(run.run(async move {
        let workers: Vec<_> = (0..num_workers)
            .map(|id| {
                let cv = Rc::clone(&cv);
                let mutex = Rc::clone(&mutex);
                let completed = Rc::clone(&completed);
                ex.spawn(async move {
                    let mut guard = lock(&mutex).await;
                    while guard.get() == false {
                        println!("[{id}] going to sleep");
                        guard = wait(&cv, guard).await;
                    }
                    println!("[{id}] woken up!");
                    drop(guard);
                    completed.set(completed.get() + 1);
                })
            })
            .collect();

        smol::future::yield_now().await; // let workers reach cv.wait

        let mut guard = lock(&mutex).await;
        guard.set(true);
        drop(guard);
        println!("Waking everyone up!");
        let wakers = cv.borrow_mut().notify_all();
        wake_all(wakers);

        futures::future::join_all(workers).await;
        assert_eq!(completed.get(), num_workers);
    }));
}

#[test]
fn test_async_mutex_contended() {
    let num_tasks = 5;
    let increments_per_task = 5;

    let mutex = Rc::new(RefCell::new(Mutex::new(0usize)));
    let completed = Rc::new(Cell::new(0usize));

    let ex = smol::LocalExecutor::new();

    smol::block_on(ex.run(async {
        let tasks: Vec<_> = (0..num_tasks)
            .map(|id| {
                let mutex = Rc::clone(&mutex);
                let completed = Rc::clone(&completed);
                ex.spawn(async move {
                    for _ in 0..increments_per_task {
                        let mut guard = lock(&mutex).await;
                        let counter = guard.get();
                        // hold the lock across a yield, so that the others contend
                        smol::future::yield_now().await;
                        guard.set(counter + 1);
                        println!("[{id}] counter = {}", guard.get());
                        drop(guard);
                        smol::future::yield_now().await;
                    }
                    completed.set(completed.get() + 1);
                    println!("[task {id}] finished");
                })
            })
            .collect();

        futures::future::join_all(tasks).await;
    }));

    let final_count = smol::block_on(lock(&mutex)).get();
    assert_eq!(final_count, num_tasks * increments_per_task);
    assert_eq!(completed.get(), num_tasks);
    println!("final counter value: {final_count}");
}

#[test]
fn test_async_rwlock() {
    let shared = Rc::new(RefCell::new(RwLock::new(0u32)));
    let num_writers = 3;
    let num_readers = 5;
    let writes_per_writer = 3;
    let reads_per_reader = 3;

    let ex = smol::LocalExecutor::new();

    smol::block_on(ex.run(async {
        let write_tasks: Vec<_> = (0..num_writers)
            .map(|id| {
                let shared = Rc::clone(&shared);
                ex.spawn(async move {
                    for _ in 0..writes_per_writer {
                        let mut guard = write(&shared).await;
                        let value = guard.get();
                        smol::future::yield_now().await;
                        guard.set(value + 1);
                        println!("[W{id}] wrote, value is now {}", guard.get());
                        drop(guard);
                        smol::future::yield_now().await;
                    }
                })
            })
            .collect();

        let read_tasks: Vec<_> = (0..num_readers)
            .map(|id| {
                let shared = Rc::clone(&shared);
                ex.spawn(async move {
                    for _ in 0..reads_per_reader {
                        let guard = read(&shared).await;
                        let value = guard.get();
                        smol::future::yield_now().await;
                        assert_eq!(guard.get(), value);
                        println!("[R{id}] read value: {}", guard.get());
                        drop(guard);
                        smol::future::yield_now().await;
                    }
                })
            })
            .collect();

        let all_tasks: Vec<_> = vec![write_tasks, read_tasks].into_iter().flatten().collect();
        futures::future::join_all(all_tasks).await;

        let final_val = read(&shared).await.get();
        assert_eq!(final_val, num_writers * writes_per_writer);
    }));
}

#[test]
fn test_semaphore() {
    let max_permits = 3;
    let num_tasks = 12;

    let sem = Rc::new(RefCell::new(Semaphore::new(max_permits)));
    let peak = Rc::new(Cell::new(0usize));
    let inside = Rc::new(Cell::new(0usize));
    let completed = Rc::new(Cell::new(0usize));

    let ex = smol::LocalExecutor::new();

    smol::block_on(ex.run(async {
        let tasks: Vec<_> = (0..num_tasks)
            .map(|id| {
                let sem = Rc::clone(&sem);
                let peak = Rc::clone(&peak);
                let inside = Rc::clone(&inside);
                let completed = Rc::clone(&completed);
                ex.spawn(async move {
                    acquire(&sem).await;

                    let current = inside.get() + 1;
                    inside.set(current);
                    peak.set(peak.get().max(current));
                    assert!(current <= max_permits, "too many inside: {current}");
                    println!("[{id}] acquired permit, concurrency now: {current}");

                    smol::future::yield_now().await; // hold the permit across a yield

                    inside.set(inside.get() - 1);
                    release(&sem).await;
                    let done = completed.get() + 1;
                    completed.set(done);
                    println!("[{id}] released permit, tasks completed: {done}");
                })
            })
            .collect();

        futures::future::join_all(tasks).await;

        assert_eq!(completed.get(), num_tasks);
        assert!(peak.get() > 1, "peak concurrency should exceed 1");
        assert!(peak.get() <= max_permits);
        println!("peak concurrency: {}/{max_permits}", peak.get());
    }));
}
