pub mod guard;
pub mod manager;
pub mod mutator;
pub mod stack;
pub mod thread_state;

use vstd::prelude::*;

verus! {

/// The number of hazard slots of each thread.
pub const MAX_HAZARD_PTRS: usize = 2;

} // verus!
