pub mod epoll;
pub mod net;
pub mod timer;

use vstd::prelude::*;
use crate::io::epoll::Event;

verus! {

/// What a poll of an I/O future does next: finish with a value, register
/// its descriptor for an event and wait, or wait without registering again.
#[derive(PartialEq, Eq, Structural, Debug)]
pub enum PollStep<T> {
    Ready(T),
    Register(Event),
    Pending,
}

/// The outcome of one non-blocking read or write attempt: the number of
/// bytes moved, "would block", or any other failure.
#[derive(PartialEq, Eq, Structural, Debug, Clone, Copy)]
pub enum IoOutcome {
    Done(usize),
    WouldBlock,
    Failed,
}

} // verus!
