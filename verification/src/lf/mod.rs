pub mod hazard_ptr;
pub mod queue;
