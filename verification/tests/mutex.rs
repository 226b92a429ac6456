use mini_runtime::mini_mutex::{LockPoll, SimpleMutex};
use std::sync::Arc;
use std::task::{Wake, Waker};

struct Tag(u32);

impl Wake for Tag {
    fn wake(self: Arc<Self>) {}
}

fn waker(tag: u32) -> (Arc<Tag>, Waker) {
    let t = Arc::new(Tag(tag));
    (t.clone(), Waker::from(t))
}

#[test]
fn lock_on_free_mutex_is_ready() {
    let mut m = SimpleMutex::new();
    assert_eq!(m.lock().poll(Waker::noop().clone()), LockPoll::Ready);
}

#[test]
fn lock_is_exclusive_until_unlock() {
    let mut m = SimpleMutex::new();
    assert_eq!(m.lock().poll(Waker::noop().clone()), LockPoll::Ready);
    assert_eq!(m.lock().poll(Waker::noop().clone()), LockPoll::Pending);
    assert_eq!(m.lock().poll(Waker::noop().clone()), LockPoll::Pending);
    assert!(m.unlock().is_some());
    assert_eq!(m.lock().poll(Waker::noop().clone()), LockPoll::Ready);
}

#[test]
fn unlock_without_waiters_wakes_nobody() {
    let mut m = SimpleMutex::new();
    assert_eq!(m.lock().poll(Waker::noop().clone()), LockPoll::Ready);
    assert!(m.unlock().is_none());
    assert!(m.unlock().is_none());
}

#[test]
fn unlock_wakes_the_latest_waiter_first() {
    let mut m = SimpleMutex::new();
    let (_a, wa) = waker(1);
    let (_b, wb) = waker(2);
    assert_eq!(m.lock().poll(Waker::noop().clone()), LockPoll::Ready);
    assert_eq!(m.lock().poll(wa.clone()), LockPoll::Pending);
    assert_eq!(m.lock().poll(wb.clone()), LockPoll::Pending);
    let first = m.unlock().unwrap();
    assert!(first.will_wake(&wb));
    assert_eq!(m.lock().poll(Waker::noop().clone()), LockPoll::Ready);
    let second = m.unlock().unwrap();
    assert!(second.will_wake(&wa));
    assert!(m.unlock().is_none());
}
