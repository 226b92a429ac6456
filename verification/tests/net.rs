use mini_runtime::io::epoll::Event;
use mini_runtime::io::net::{listener, reader, writer};
use mini_runtime::io::{IoOutcome, PollStep};
use mini_runtime::net::{accept_step, read_step, write_step};

#[test]
fn reads_and_writes_wait_only_when_they_would_block() {
    assert_eq!(reader::poll_step(IoOutcome::Done(3)), PollStep::Ready(IoOutcome::Done(3)));
    assert_eq!(reader::poll_step(IoOutcome::Done(0)), PollStep::Ready(IoOutcome::Done(0)));
    assert_eq!(reader::poll_step(IoOutcome::Failed), PollStep::Ready(IoOutcome::Failed));
    assert_eq!(reader::poll_step(IoOutcome::WouldBlock), PollStep::Register(Event::Read));
    assert_eq!(writer::poll_step(IoOutcome::Done(8)), PollStep::Ready(IoOutcome::Done(8)));
    assert_eq!(writer::poll_step(IoOutcome::Failed), PollStep::Ready(IoOutcome::Failed));
    assert_eq!(writer::poll_step(IoOutcome::WouldBlock), PollStep::Register(Event::Write));
}

#[test]
fn accept_registers_on_every_failure() {
    assert_eq!(listener::poll_step(true), PollStep::Ready(()));
    assert_eq!(listener::poll_step(false), PollStep::Register(Event::Read));
}

#[test]
fn write_registers_at_most_once() {
    let mut accepted = false;
    assert_eq!(write_step(&mut accepted, IoOutcome::Done(1)), PollStep::Ready(()));
    assert!(!accepted);
    assert_eq!(write_step(&mut accepted, IoOutcome::WouldBlock), PollStep::Register(Event::Write));
    assert!(accepted);
    assert_eq!(write_step(&mut accepted, IoOutcome::WouldBlock), PollStep::Pending);
    assert_eq!(write_step(&mut accepted, IoOutcome::Done(4)), PollStep::Ready(()));
    assert!(accepted);
}

#[test]
fn read_registers_on_every_failure() {
    let mut accepted = false;
    assert_eq!(read_step(&mut accepted, IoOutcome::WouldBlock), PollStep::Register(Event::Read));
    assert_eq!(read_step(&mut accepted, IoOutcome::Failed), PollStep::Register(Event::Read));
    assert!(accepted);
    assert_eq!(read_step(&mut accepted, IoOutcome::Done(2)), PollStep::Ready(()));
}

#[test]
fn accept_with_flag_registers_at_most_once() {
    let mut accepted = false;
    assert_eq!(accept_step(&mut accepted, false), PollStep::Register(Event::Read));
    assert_eq!(accept_step(&mut accepted, false), PollStep::Pending);
    assert_eq!(accept_step(&mut accepted, true), PollStep::Ready(()));
    assert!(accepted);
}

#[test]
fn spawn_does_nothing() {
    mini_runtime::executor::spawn();
}
