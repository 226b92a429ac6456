use std::task::Waker;
use vstd::prelude::*;

verus! {

/// Wakers are carried through the mutex as opaque values; nothing of their
/// contents is read here.
#[verifier::external_type_specification]
#[verifier::external_body]
pub struct ExWaker(Waker);

/// Outcome of polling a lock request.
#[derive(PartialEq, Eq, Structural, Debug, Clone, Copy)]
pub enum LockPoll {
    /// The lock was free and now belongs to the caller.
    Ready,
    /// The lock is held; the caller's waker was queued.
    Pending,
}

/// An asynchronous mutex: `ready` is 0 when the lock is free and 1 when it
/// is held, and `buf` holds the wakers of the tasks waiting for it.
pub struct SimpleMutex {
    ready: u64,
    buf: Vec<Waker>,
}

/// A request for the lock, made by `SimpleMutex::lock` and settled by `poll`.
pub struct Awaiter<'a> {
    pub mutex: &'a mut SimpleMutex,
}

/// Abstract state of a mutex: whether it is held, and the queued wakers in
/// the order in which they were queued.
pub type MutexState = (bool, Seq<Waker>);

/// One poll of a lock request with waker `w`.
pub open spec fn lock_step(s: MutexState, w: Waker) -> (MutexState, LockPoll) {
    if !s.0 {
        ((true, s.1), LockPoll::Ready)
    } else {
        ((true, s.1.push(w)), LockPoll::Pending)
    }
}

/// Releasing the lock: it becomes free and the most recently queued waker,
/// if any, leaves the queue to be woken.
pub open spec fn unlock_step(s: MutexState) -> (MutexState, Option<Waker>) {
    if s.1.len() == 0 {
        ((false, s.1), None)
    } else {
        ((false, s.1.drop_last()), Some(s.1.last()))
    }
}

impl View for SimpleMutex {
    type V = MutexState;

    closed spec fn view(&self) -> MutexState {
        (self.ready != 0, self.buf@)
    }
}

impl SimpleMutex {
    /// A free mutex with no waiters.
    pub fn new() -> (m: Self)
        ensures
            m@ == (false, Seq::<Waker>::empty()),
    {
        SimpleMutex { ready: 0, buf: Vec::new() }
    }

    /// Starts a request for the lock; the mutex is changed only through the
    /// returned request.
    pub fn lock(&mut self) -> (a: Awaiter<'_>)
        ensures
            *a.mutex == *old(self),
            *final(self) == *final(a.mutex),
    {
        Awaiter { mutex: self }
    }

    /// Releases the lock and hands back the waker to wake, the one queued
    /// last.
    pub fn unlock(&mut self) -> (woken: Option<Waker>)
        ensures
            (final(self)@, woken) == unlock_step(old(self)@),
    {
        self.ready = 0;
        self.buf.pop()
    }
}

impl<'a> Awaiter<'a> {
    /// Tries to take the lock: takes it when it is free, and otherwise queues
    /// `waker` to be woken by a later `unlock`.
    pub fn poll(self, waker: Waker) -> (r: LockPoll)
        ensures
            (final(self.mutex)@, r) == lock_step(old(self.mutex)@, waker),
            !old(self.mutex)@.0 ==> r == LockPoll::Ready && final(self.mutex)@ == (
                true,
                old(self.mutex)@.1,
            ),
            old(self.mutex)@.0 ==> r == LockPoll::Pending && final(self.mutex)@ == (
                true,
                old(self.mutex)@.1.push(waker),
            ),
    {
        let was = self.mutex.swap_ready(1);
        if was == 0 {
            return LockPoll::Ready;
        }
        let again = self.mutex.swap_ready(1);
        if again == 0 {
            return LockPoll::Ready;
        }
        self.mutex.buf.push(waker);
        LockPoll::Pending
    }
}

impl SimpleMutex {
    fn swap_ready(&mut self, v: u64) -> (prev: u64)
        ensures
            prev == old(self).ready,
            final(self).ready == v,
            final(self).buf == old(self).buf,
    {
        let prev = self.ready;
        self.ready = v;
        prev
    }
}

/// Once a request has taken the lock, every further request fails until the
/// lock is released.
pub proof fn lemma_lock_is_exclusive(s: MutexState, w1: Waker, w2: Waker)
    requires
        lock_step(s, w1).1 == LockPoll::Ready,
    ensures
        lock_step(lock_step(s, w1).0, w2).1 == LockPoll::Pending,
{
}

/// After a release, the next request takes the lock.
pub proof fn lemma_unlock_frees(s: MutexState, w: Waker)
    ensures
        lock_step(unlock_step(s).0, w).1 == LockPoll::Ready,
{
}

/// A request that waits on a held lock is the one woken by the next release.
pub proof fn lemma_waiter_is_woken(s: MutexState, w: Waker)
    requires
        s.0,
    ensures
        lock_step(s, w).1 == LockPoll::Pending,
        unlock_step(lock_step(s, w).0).1 == Some(w),
        unlock_step(lock_step(s, w).0).0 == (false, s.1),
{
}

/// A request never loses a queued waker: the queue only grows while the
/// lock is held, and each release removes exactly one waker, which it hands
/// back to be woken; a release leaves no waiter asleep unless the queue is
/// empty.
pub proof fn lemma_waiters_accounted(s: MutexState, w: Waker)
    ensures
        lock_step(s, w).0.1.len() == s.1.len() + if s.0 { 1int } else { 0int },
        s.1.len() > 0 ==> unlock_step(s).0.1.len() == s.1.len() - 1,
        s.1.len() > 0 ==> unlock_step(s).1 == Some(s.1.last()),
        s.1.len() == 0 ==> unlock_step(s).1 == None::<Waker>,
{
}

/// A waiter queued while the lock is held is woken by a later release, once
/// every waiter queued after it has been woken: the releases hand back the
/// queued wakers newest first, each once.
pub proof fn lemma_every_waiter_is_woken(s: MutexState, k: nat)
    requires
        k <= s.1.len(),
    ensures
        unlock_n(s, k).1.len() == k,
        forall|i: int|
            0 <= i < k ==> #[trigger] unlock_n(s, k).1[i] == Some(s.1[s.1.len() - 1 - i]),
        unlock_n(s, k).0.1 == s.1.take(s.1.len() - k),
        k > 0 ==> !unlock_n(s, k).0.0,
    decreases k,
{
    if k > 0 {
        lemma_every_waiter_is_woken(unlock_step(s).0, (k - 1) as nat);
        assert(unlock_step(s).0.1.take(unlock_step(s).0.1.len() - (k - 1)) =~= s.1.take(
            s.1.len() - k,
        ));
        assert forall|i: int| 0 <= i < k implies #[trigger] unlock_n(s, k).1[i] == Some(
            s.1[s.1.len() - 1 - i],
        ) by {
            let rest = unlock_n(unlock_step(s).0, (k - 1) as nat);
            assert(unlock_n(s, k).1 == seq![unlock_step(s).1] + rest.1);
            if i > 0 {
                assert(rest.1[i - 1] == Some(unlock_step(s).0.1[unlock_step(s).0.1.len() - 1 - (i - 1)]));
            }
        }
    } else {
        assert(s.1.take(s.1.len() as int) =~= s.1);
    }
}

/// `k` releases in a row: the resulting state and the wakers handed back.
pub open spec fn unlock_n(s: MutexState, k: nat) -> (MutexState, Seq<Option<Waker>>)
    decreases k,
{
    if k == 0 {
        (s, Seq::empty())
    } else {
        let (next, w) = unlock_step(s);
        let (last, ws) = unlock_n(next, (k - 1) as nat);
        (last, seq![w] + ws)
    }
}

/// A poll of a held lock leaves it held: it returns `Pending`, and the
/// waker joins the end of the queue with every earlier waiter kept.
pub proof fn lemma_held_lock_stays_held(s: MutexState, w: Waker)
    requires
        s.0,
    ensures
        lock_step(s, w).1 == LockPoll::Pending,
        lock_step(s, w).0.0,
        lock_step(s, w).0.1 == s.1.push(w),
{
}

/// Polls in a row, each with the next waker of `ws`: the states they pass
/// through and what they return.
pub open spec fn poll_all(s: MutexState, ws: Seq<Waker>) -> (MutexState, Seq<LockPoll>)
    decreases ws.len(),
{
    if ws.len() == 0 {
        (s, Seq::empty())
    } else {
        let (next, r) = lock_step(s, ws[0]);
        let (last, rs) = poll_all(next, ws.drop_first());
        (last, seq![r] + rs)
    }
}

/// Mutual exclusion over any run of requests with no release between them:
/// on a held lock every one of them is `Pending`, the lock stays held, and
/// their wakers are queued in order behind the earlier waiters.
pub proof fn lemma_requests_wait_until_unlock(s: MutexState, ws: Seq<Waker>)
    requires
        s.0,
    ensures
        poll_all(s, ws).0 == (true, s.1 + ws),
        poll_all(s, ws).1.len() == ws.len(),
        forall|i: int| 0 <= i < ws.len() ==> #[trigger] poll_all(s, ws).1[i] == LockPoll::Pending,
    decreases ws.len(),
{
    if ws.len() == 0 {
        assert(s.1 + ws =~= s.1);
    } else {
        lemma_held_lock_stays_held(s, ws[0]);
        let next = lock_step(s, ws[0]).0;
        lemma_requests_wait_until_unlock(next, ws.drop_first());
        assert(next.1 + ws.drop_first() =~= s.1 + ws);
        let rest = poll_all(next, ws.drop_first());
        assert(poll_all(s, ws).1 == seq![LockPoll::Pending] + rest.1);
        assert forall|i: int| 0 <= i < ws.len() implies #[trigger] poll_all(s, ws).1[i]
            == LockPoll::Pending by {
            if i > 0 {
                assert(poll_all(s, ws).1[i] == rest.1[i - 1]);
            }
        }
    }
}

/// Taking a free lock leaves the queued waiters as they were: the taker's
/// waker is not queued and no waiter is dropped.
pub proof fn lemma_taking_free_lock_keeps_waiters(s: MutexState, w: Waker)
    requires
        !s.0,
    ensures
        lock_step(s, w).1 == LockPoll::Ready,
        lock_step(s, w).0 == (true, s.1),
{
}

/// Every waiter queued behind a holder is woken: after the holder takes a
/// free lock and then releases it as many times as there are waiters, the
/// releases hand back all the waiters that were queued, newest first.
pub proof fn lemma_no_lost_wakeup(s: MutexState, w: Waker)
    requires
        !s.0,
    ensures
        unlock_n(lock_step(s, w).0, s.1.len()).1.len() == s.1.len(),
        forall|i: int|
            0 <= i < s.1.len() ==> #[trigger] unlock_n(lock_step(s, w).0, s.1.len()).1[i] == Some(
                s.1[s.1.len() - 1 - i],
            ),
{
    lemma_taking_free_lock_keeps_waiters(s, w);
    lemma_every_waiter_is_woken(lock_step(s, w).0, s.1.len());
}

} // verus!
