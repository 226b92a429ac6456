use mini_runtime::io::epoll::{EpollRequest, Event, MiniEpoll};
use std::sync::Arc;
use std::task::{Wake, Waker};

struct Tag;

impl Wake for Tag {
    fn wake(self: Arc<Self>) {}
}

#[test]
fn event_masks_are_one_shot() {
    assert_eq!(Event::Read.to_epoll(), libc::EPOLLIN | libc::EPOLLONESHOT);
    assert_eq!(Event::Write.to_epoll(), libc::EPOLLOUT | libc::EPOLLONESHOT);
    assert_eq!(Event::Read.to_epoll(), 0x4000_0001);
    assert_eq!(Event::Write.to_epoll(), 0x4000_0004);
}

#[test]
fn first_registration_adds_then_modifies() {
    let mut e = MiniEpoll::new(12);
    assert_eq!(e.epoll_fd(), 12);
    let r = e.accept(7, Waker::noop().clone(), Event::Read);
    assert_eq!(
        r,
        EpollRequest { op: libc::EPOLL_CTL_ADD, fd: 7, events: 0x4000_0001, data: 7 }
    );
    let r = e.accept(7, Waker::noop().clone(), Event::Write);
    assert_eq!(
        r,
        EpollRequest { op: libc::EPOLL_CTL_MOD, fd: 7, events: 0x4000_0004, data: 7 }
    );
    let r = e.accept(8, Waker::noop().clone(), Event::Write);
    assert_eq!(r.op, libc::EPOLL_CTL_ADD);
}

#[test]
fn events_find_the_latest_waker() {
    let mut e = MiniEpoll::new(3);
    let t = Arc::new(Tag);
    let w = Waker::from(t);
    assert!(e.waker_for(5).is_none());
    e.accept(5, Waker::noop().clone(), Event::Read);
    e.accept(5, w.clone(), Event::Read);
    assert!(e.waker_for(5).unwrap().will_wake(&w));
    assert!(e.waker_for(6).is_none());
}

#[test]
fn event_data_is_truncated_to_a_descriptor() {
    let mut e = MiniEpoll::new(3);
    let r = e.accept(-1, Waker::noop().clone(), Event::Read);
    assert_eq!(r.data, u64::MAX);
    assert!(e.waker_for(u64::MAX).is_some());
    assert!(e.waker_for(0xFFFF_FFFF).is_some());
    e.accept(4, Waker::noop().clone(), Event::Read);
    assert!(e.waker_for((1u64 << 32) + 4).is_some());
}
