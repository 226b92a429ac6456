use crate::io::epoll::Event;
use crate::io::PollStep;
use vstd::prelude::*;

verus! {

/// Division rounding toward zero, for a positive divisor.
pub open spec fn div_toward_zero(a: int, d: int) -> int {
    if a >= 0 {
        a / d
    } else {
        -((-a) / d)
    }
}

/// The settings of a one-shot timer: no repeat interval, and a first expiry
/// after `value_sec` seconds and `value_nsec` nanoseconds.
#[derive(PartialEq, Eq, Structural, Debug, Clone, Copy)]
pub struct TimerSpec {
    pub interval_sec: i64,
    pub interval_nsec: i64,
    pub value_sec: i64,
    pub value_nsec: i64,
}

/// The timer settings for a sleep of `millis` milliseconds: whole seconds
/// only, the milliseconds count taken as an `i64` and divided by 1000.
pub fn sleep_spec(millis: u128) -> (s: TimerSpec)
    ensures
        s.interval_sec == 0,
        s.interval_nsec == 0,
        s.value_sec == div_toward_zero((millis as i64) as int, 1000),
        s.value_nsec == 0,
{
    TimerSpec { interval_sec: 0, interval_nsec: 0, value_sec: (millis as i64) / 1000, value_nsec: 0 }
}

/// A sleep in progress on the timer descriptor `timer_fd`.
pub struct TimerAwaiter {
    pub timer_fd: i32,
    pub first_time: bool,
}

impl TimerAwaiter {
    /// A sleep on `timer_fd` that has not been polled yet.
    pub fn new(timer_fd: i32) -> (t: Self)
        ensures
            t.timer_fd == timer_fd,
            t.first_time,
    {
        TimerAwaiter { timer_fd, first_time: true }
    }

    /// The first poll registers the timer descriptor for reading and waits;
    /// every later poll, which comes once the timer has fired, completes.
    pub fn poll(&mut self) -> (step: PollStep<()>)
        ensures
            final(self).timer_fd == old(self).timer_fd,
            (final(self).first_time, step) == timer_step(old(self).first_time),
    {
        if !self.first_time {
            return PollStep::Ready(());
        }
        self.first_time = false;
        PollStep::Register(Event::Read)
    }
}

/// One poll of a sleep, from whether it is the first poll: whether the next
/// one is, and what this one does.
pub open spec fn timer_step(first_time: bool) -> (bool, PollStep<()>) {
    if first_time {
        (false, PollStep::Register(Event::Read))
    } else {
        (false, PollStep::Ready(()))
    }
}

/// The results of `n` polls of a sleep, from whether the next is its first.
pub open spec fn timer_polls(first_time: bool, n: nat) -> Seq<PollStep<()>>
    decreases n,
{
    if n == 0 {
        Seq::empty()
    } else {
        let (next, step) = timer_step(first_time);
        seq![step] + timer_polls(next, (n - 1) as nat)
    }
}

/// A sleep registers its timer exactly once, on its first poll, and every
/// later poll completes.
pub proof fn lemma_timer_registers_once(n: nat)
    ensures
        forall|i: int|
            0 <= i < n ==> #[trigger] timer_polls(true, n)[i] == if i == 0 {
                PollStep::<()>::Register(Event::Read)
            } else {
                PollStep::Ready(())
            },
    decreases n,
{
    if n > 0 {
        lemma_later_polls_complete((n - 1) as nat);
        assert(timer_polls(true, n) == seq![PollStep::<()>::Register(Event::Read)] + timer_polls(
            false,
            (n - 1) as nat,
        ));
    }
}

proof fn lemma_later_polls_complete(n: nat)
    ensures
        timer_polls(false, n).len() == n,
        forall|i: int| 0 <= i < n ==> #[trigger] timer_polls(false, n)[i] == PollStep::Ready(()),
    decreases n,
{
    if n > 0 {
        lemma_later_polls_complete((n - 1) as nat);
    }
}

} // verus!
