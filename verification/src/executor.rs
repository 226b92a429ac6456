use vstd::prelude::*;

verus! {

/// Spawning entry point of the executor; it does nothing.
pub fn spawn() {
}

} // verus!
