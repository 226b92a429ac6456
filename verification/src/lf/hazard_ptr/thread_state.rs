use crate::lf::hazard_ptr::MAX_HAZARD_PTRS;
use vstd::prelude::*;

verus! {

/// The hazard-pointer record of one thread: the addresses it is about to
/// read (`None` for an empty slot) and the addresses it has retired and not
/// yet reclaimed.
pub struct ThreadState {
    pub slots: [Option<usize>; MAX_HAZARD_PTRS],
    pub retired_ptrs: Vec<usize>,
}

impl Default for ThreadState {
    /// A record with every slot empty and nothing retired.
    fn default() -> (s: Self)
        ensures
            forall|i: int| 0 <= i < MAX_HAZARD_PTRS ==> s.slots@[i] == None::<usize>,
            s.retired_ptrs@ == Seq::<usize>::empty(),
    {
        ThreadState { slots: [None, None], retired_ptrs: Vec::new() }
    }
}

} // verus!
