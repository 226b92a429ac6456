use crate::io::epoll::Event;
use crate::io::{IoOutcome, PollStep};
use vstd::prelude::*;

verus! {

// Polling steps of the socket futures that register their descriptor at
// most once: `accepted` records that the descriptor was registered.

/// One poll of a write. A write that moved bytes completes; one that would
/// block registers the stream for writing the first time and afterwards just
/// waits. Any other failure is not handled here: the caller reports it.
pub fn write_step(accepted: &mut bool, outcome: IoOutcome) -> (step: PollStep<()>)
    requires
        outcome != IoOutcome::Failed,
    ensures
        (*final(accepted), step) == write_model(*old(accepted), outcome),
        outcome is Done ==> step == PollStep::Ready(()) && *final(accepted) == *old(accepted),
        outcome == IoOutcome::WouldBlock && *old(accepted) ==> step == PollStep::<()>::Pending
            && *final(accepted),
        outcome == IoOutcome::WouldBlock && !*old(accepted) ==> step
            == PollStep::<()>::Register(Event::Write) && *final(accepted),
{
    match outcome {
        IoOutcome::Done(_) => PollStep::Ready(()),
        _ => {
            if *accepted {
                return PollStep::Pending;
            }
            *accepted = true;
            PollStep::Register(Event::Write)
        },
    }
}

/// One poll of a read. A read that moved bytes completes; any failure,
/// "would block" included, registers the stream for reading again.
pub fn read_step(accepted: &mut bool, outcome: IoOutcome) -> (step: PollStep<()>)
    ensures
        outcome is Done ==> step == PollStep::Ready(()) && *final(accepted) == *old(accepted),
        !(outcome is Done) ==> step == PollStep::<()>::Register(Event::Read) && *final(accepted),
{
    match outcome {
        IoOutcome::Done(_) => PollStep::Ready(()),
        _ => {
            *accepted = true;
            PollStep::Register(Event::Read)
        },
    }
}

/// One poll of an accept. An accepted connection completes; a failure
/// registers the listener for reading the first time and afterwards just
/// waits.
pub fn accept_step(accepted: &mut bool, ok: bool) -> (step: PollStep<()>)
    ensures
        (*final(accepted), step) == accept_model(*old(accepted), ok),
        ok ==> step == PollStep::Ready(()) && *final(accepted) == *old(accepted),
        !ok && *old(accepted) ==> step == PollStep::<()>::Pending && *final(accepted),
        !ok && !*old(accepted) ==> step == PollStep::<()>::Register(Event::Read)
            && *final(accepted),
{
    if ok {
        return PollStep::Ready(());
    }
    if *accepted {
        return PollStep::Pending;
    }
    *accepted = true;
    PollStep::Register(Event::Read)
}

/// One poll of a write, from the registration flag and the outcome of the
/// attempt: the new flag and the step.
pub open spec fn write_model(accepted: bool, outcome: IoOutcome) -> (bool, PollStep<()>) {
    if outcome is Done {
        (accepted, PollStep::Ready(()))
    } else if accepted {
        (true, PollStep::Pending)
    } else {
        (true, PollStep::Register(Event::Write))
    }
}

/// One poll of an accept, from the registration flag and whether a
/// connection was accepted: the new flag and the step.
pub open spec fn accept_model(accepted: bool, ok: bool) -> (bool, PollStep<()>) {
    if ok {
        (accepted, PollStep::Ready(()))
    } else if accepted {
        (true, PollStep::Pending)
    } else {
        (true, PollStep::Register(Event::Read))
    }
}

/// How many of `steps` register a descriptor.
pub open spec fn registrations(steps: Seq<PollStep<()>>) -> nat
    decreases steps.len(),
{
    if steps.len() == 0 {
        0
    } else {
        registrations(steps.drop_last()) + if steps.last() is Register {
            1nat
        } else {
            0nat
        }
    }
}

/// The steps of successive write polls with the given outcomes.
pub open spec fn write_run(accepted: bool, outcomes: Seq<IoOutcome>) -> Seq<PollStep<()>>
    decreases outcomes.len(),
{
    if outcomes.len() == 0 {
        Seq::empty()
    } else {
        let (next, step) = write_model(accepted, outcomes[0]);
        seq![step] + write_run(next, outcomes.drop_first())
    }
}

/// The steps of successive accept polls with the given results.
pub open spec fn accept_run(accepted: bool, oks: Seq<bool>) -> Seq<PollStep<()>>
    decreases oks.len(),
{
    if oks.len() == 0 {
        Seq::empty()
    } else {
        let (next, step) = accept_model(accepted, oks[0]);
        seq![step] + accept_run(next, oks.drop_first())
    }
}

proof fn lemma_registrations_prepend(step: PollStep<()>, rest: Seq<PollStep<()>>)
    ensures
        registrations(seq![step] + rest) == registrations(rest) + if step is Register {
            1nat
        } else {
            0nat
        },
    decreases rest.len(),
{
    if rest.len() == 0 {
        assert(seq![step] + rest =~= seq![step]);
        assert(seq![step].drop_last() =~= Seq::<PollStep<()>>::empty());
        assert(registrations(Seq::<PollStep<()>>::empty()) == 0);
        assert(seq![step].last() == step);
    } else {
        lemma_registrations_prepend(step, rest.drop_last());
        assert((seq![step] + rest).drop_last() =~= seq![step] + rest.drop_last());
        assert((seq![step] + rest).last() == rest.last());
    }
}

/// A stream registers for writing at most once over any run of polls, and
/// never once it has registered.
pub proof fn lemma_write_registers_at_most_once(accepted: bool, outcomes: Seq<IoOutcome>)
    ensures
        registrations(write_run(accepted, outcomes)) <= if accepted { 0nat } else { 1nat },
    decreases outcomes.len(),
{
    if outcomes.len() > 0 {
        let (next, step) = write_model(accepted, outcomes[0]);
        lemma_write_registers_at_most_once(next, outcomes.drop_first());
        lemma_registrations_prepend(step, write_run(next, outcomes.drop_first()));
    }
}

/// A listener registers for reading at most once over any run of polls, and
/// never once it has registered.
pub proof fn lemma_accept_registers_at_most_once(accepted: bool, oks: Seq<bool>)
    ensures
        registrations(accept_run(accepted, oks)) <= if accepted { 0nat } else { 1nat },
    decreases oks.len(),
{
    if oks.len() > 0 {
        let (next, step) = accept_model(accepted, oks[0]);
        lemma_accept_registers_at_most_once(next, oks.drop_first());
        lemma_registrations_prepend(step, accept_run(next, oks.drop_first()));
    }
}

} // verus!
