use mini_runtime::io::timer::{sleep_spec, TimerAwaiter, TimerSpec};
use mini_runtime::io::epoll::Event;
use mini_runtime::io::PollStep;

#[test]
fn sleep_keeps_whole_seconds() {
    assert_eq!(
        sleep_spec(1500),
        TimerSpec { interval_sec: 0, interval_nsec: 0, value_sec: 1, value_nsec: 0 }
    );
    assert_eq!(sleep_spec(999).value_sec, 0);
    assert_eq!(sleep_spec(10_000).value_sec, 10);
    assert_eq!(sleep_spec(0).value_sec, 0);
}

#[test]
fn sleep_takes_the_millis_as_i64() {
    assert_eq!(sleep_spec((1u128 << 64) + 5000).value_sec, 5);
    assert_eq!(sleep_spec(u64::MAX as u128).value_sec, 0);
    assert_eq!(sleep_spec(u64::MAX as u128 - 1999).value_sec, -2);
}

#[test]
fn timer_registers_once_then_completes() {
    let mut t = TimerAwaiter::new(9);
    assert_eq!(t.poll(), PollStep::Register(Event::Read));
    assert_eq!(t.poll(), PollStep::Ready(()));
    assert_eq!(t.poll(), PollStep::Ready(()));
    assert_eq!(t.timer_fd, 9);
}
