use crate::io::epoll::Event;
use crate::io::PollStep;
use vstd::prelude::*;

verus! {

/// One poll of an accept: a connection that was accepted finishes the
/// future; any failure registers the listener for reading.
pub fn poll_step(accepted: bool) -> (step: PollStep<()>)
    ensures
        accepted ==> step == PollStep::Ready(()),
        !accepted ==> step == PollStep::<()>::Register(Event::Read),
{
    if accepted {
        PollStep::Ready(())
    } else {
        PollStep::Register(Event::Read)
    }
}

} // verus!
