use crate::lf::hazard_ptr::thread_state::ThreadState;
use crate::lf::hazard_ptr::MAX_HAZARD_PTRS;
use vstd::prelude::*;

verus! {

/// A handle on one hazard slot of a thread's record.
pub struct PtrGuard {
    pub slot: usize,
}

impl PtrGuard {
    /// Publishes the address held in `shared` in this slot and returns it:
    /// from then on the address is marked as in use by this thread.
    pub fn protect(&self, state: &mut ThreadState, shared: Option<usize>) -> (v: Option<usize>)
        requires
            self.slot < MAX_HAZARD_PTRS,
        ensures
            v == shared,
            final(state).slots@ == old(state).slots@.update(self.slot as int, shared),
            final(state).retired_ptrs == old(state).retired_ptrs,
    {
        let v = shared;
        state.slots[self.slot] = v;
        v
    }

    /// Empties this slot.
    pub fn reset(&self, state: &mut ThreadState)
        requires
            self.slot < MAX_HAZARD_PTRS,
        ensures
            final(state).slots@ == old(state).slots@.update(self.slot as int, None),
            final(state).retired_ptrs == old(state).retired_ptrs,
    {
        state.slots[self.slot] = None;
    }
}

} // verus!
