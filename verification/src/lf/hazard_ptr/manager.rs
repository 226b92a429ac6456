use crate::lf::hazard_ptr::mutator::Mutator;
use crate::lf::hazard_ptr::stack::LockFreeStack;
use crate::lf::hazard_ptr::thread_state::ThreadState;
use crate::lf::hazard_ptr::MAX_HAZARD_PTRS;
use vstd::prelude::*;

verus! {

/// A hazard-pointer domain: the records of the registered threads, the
/// stack of their positions that a reclamation pass walks, a flag that is
/// set while some thread reclaims, and the size that scales the reclamation
/// threshold.
pub struct Manager {
    pub thread_states: Vec<ThreadState>,
    pub thread_state_stack: LockFreeStack<usize>,
    pub is_retiring: bool,
    pub size: usize,
}

impl Manager {
    /// The records form a well-linked stack and the reclamation threshold
    /// fits in a `usize`.
    pub open spec fn wf(&self) -> bool {
        &&& self.thread_state_stack.wf()
        &&& self.size * MAX_HAZARD_PTRS <= usize::MAX
    }

    /// The record of the thread at position `i`.
    pub open spec fn state(&self, i: int) -> ThreadState {
        self.thread_states@[i]
    }

    /// The number of registered threads.
    pub open spec fn threads(&self) -> nat {
        self.thread_states@.len()
    }

    /// No reclamation is running, the threshold is zero and no thread holds
    /// a retired address: the state between two operations of a structure
    /// that retires through this domain.
    pub open spec fn is_quiescent(&self) -> bool {
        &&& !self.is_retiring
        &&& self.size == 0
        &&& forall|i: int|
            0 <= i < self.threads() ==> (#[trigger] self.state(i)).retired_ptrs@.len() == 0
    }

    /// A domain with no registered thread.
    pub fn new() -> (m: Self)
        ensures
            m.wf(),
            m.is_quiescent(),
            m.threads() == 0,
            m.thread_states@ == Seq::<ThreadState>::empty(),
            m.thread_state_stack@ == Seq::<usize>::empty(),
            !m.is_retiring,
            m.size == 0,
    {
        Manager {
            thread_states: Vec::new(),
            thread_state_stack: LockFreeStack::new(),
            is_retiring: false,
            size: 0,
        }
    }

    /// The calling thread's handle. `registered` is the position of the
    /// thread's record when it has one; otherwise a fresh record is created
    /// and its position pushed on the stack.
    pub fn make_mutator(&mut self, registered: Option<usize>) -> (m: Mutator)
        requires
            old(self).wf(),
            registered matches Some(i) ==> i < old(self).threads(),
        ensures
            final(self).wf(),
            final(self).is_retiring == old(self).is_retiring,
            final(self).size == old(self).size,
            m.thread < final(self).threads(),
            match registered {
                Some(i) => {
                    &&& m.thread == i
                    &&& final(self).thread_states@ == old(self).thread_states@
                    &&& final(self).thread_state_stack@ == old(self).thread_state_stack@
                },
                None => {
                    &&& m.thread == old(self).threads()
                    &&& final(self).thread_state_stack@ == old(
                        self,
                    ).thread_state_stack@.push(m.thread)
                    &&& final(self).threads() == old(self).threads() + 1
                    &&& forall|j: int|
                        0 <= j < old(self).threads() ==> final(self).state(j) == old(self).state(j)
                    &&& forall|k: int|
                        0 <= k < MAX_HAZARD_PTRS ==> final(self).state(m.thread as int).slots@[k]
                            == None::<usize>
                    &&& final(self).state(m.thread as int).retired_ptrs@.len() == 0
                },
            },
    {
        let thread = match registered {
            Some(i) => i,
            None => {
                let n = self.thread_states.len();
                self.thread_states.push(ThreadState::default());
                self.thread_state_stack.push(n);
                n
            },
        };
        Mutator::new(thread)
    }
}

} // verus!
