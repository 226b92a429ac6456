use crate::io::epoll::Event;
use crate::io::{IoOutcome, PollStep};
use vstd::prelude::*;

verus! {

/// One poll of a read: a read that moved bytes or failed finishes with that
/// outcome; a read that would block registers the stream for reading.
pub fn poll_step(outcome: IoOutcome) -> (step: PollStep<IoOutcome>)
    ensures
        outcome == IoOutcome::WouldBlock ==> step == PollStep::<IoOutcome>::Register(Event::Read),
        outcome != IoOutcome::WouldBlock ==> step == PollStep::Ready(outcome),
{
    match outcome {
        IoOutcome::WouldBlock => PollStep::Register(Event::Read),
        _ => PollStep::Ready(outcome),
    }
}

} // verus!
