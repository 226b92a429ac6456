use crate::io::epoll::Event;
use crate::io::{IoOutcome, PollStep};
use vstd::prelude::*;

verus! {

/// One poll of a write: a write that moved bytes or failed finishes with that
/// outcome; a write that would block registers the stream for writing.
pub fn poll_step(outcome: IoOutcome) -> (step: PollStep<IoOutcome>)
    ensures
        outcome == IoOutcome::WouldBlock ==> step == PollStep::<IoOutcome>::Register(Event::Write),
        outcome != IoOutcome::WouldBlock ==> step == PollStep::Ready(outcome),
{
    match outcome {
        IoOutcome::WouldBlock => PollStep::Register(Event::Write),
        _ => PollStep::Ready(outcome),
    }
}

} // verus!
