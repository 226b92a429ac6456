use mini_runtime::lf::hazard_ptr::guard::PtrGuard;
use mini_runtime::lf::hazard_ptr::manager::Manager;
use mini_runtime::lf::hazard_ptr::mutator::Mutator;
use mini_runtime::lf::hazard_ptr::thread_state::ThreadState;
use mini_runtime::lf::hazard_ptr::MAX_HAZARD_PTRS;

#[test]
fn thread_state_starts_empty() {
    let s = ThreadState::default();
    assert_eq!(s.slots.len(), MAX_HAZARD_PTRS);
    assert!(s.slots.iter().all(|x| x.is_none()));
    assert!(s.retired_ptrs.is_empty());
}

#[test]
fn guard_protects_and_resets_its_slot() {
    let mut s = ThreadState::default();
    let g = PtrGuard { slot: 1 };
    assert_eq!(g.protect(&mut s, Some(42)), Some(42));
    assert_eq!(s.slots, [None, Some(42)]);
    assert_eq!(g.protect(&mut s, None), None);
    assert_eq!(s.slots, [None, None]);
    g.protect(&mut s, Some(7));
    g.reset(&mut s);
    assert_eq!(s.slots, [None, None]);
}

#[test]
fn make_mutator_registers_once() {
    let mut m = Manager::new();
    let a = m.make_mutator(None);
    assert_eq!(a.thread, 0);
    assert_eq!(m.thread_states.len(), 1);
    assert_eq!(m.thread_state_stack.len(), 1);
    let b = m.make_mutator(Some(0));
    assert_eq!(b.thread, 0);
    assert_eq!(m.thread_states.len(), 1);
    let c = m.make_mutator(None);
    assert_eq!(c.thread, 1);
    assert_eq!(m.thread_states.len(), 2);
    assert_eq!(m.thread_state_stack.len(), 2);
    assert_eq!(*m.thread_state_stack.get(1), 1);
}

#[test]
fn get_hazard_ptr_names_the_slot() {
    let mu = Mutator::new(3);
    assert_eq!(mu.thread, 3);
    assert_eq!(mu.get_hazard_ptr(1).slot, 1);
}

#[test]
fn retire_reclaims_everything_even_protected_addresses() {
    let mut m = Manager::new();
    let mu = m.make_mutator(None);
    let other = m.make_mutator(None);
    // Another thread publishes the address that is retired.
    other.get_hazard_ptr(0).protect(&mut m.thread_states[other.thread], Some(9));
    assert_eq!(mu.retire(&mut m, 9), vec![9]);
    assert!(m.thread_states[0].retired_ptrs.is_empty());
    assert!(!m.is_retiring);
}

#[test]
fn retire_waits_for_the_threshold() {
    let mut m = Manager::new();
    m.size = 1;
    let mu = m.make_mutator(None);
    assert_eq!(mu.retire(&mut m, 4), Vec::<usize>::new());
    assert_eq!(m.thread_states[0].retired_ptrs, vec![4]);
    assert_eq!(mu.retire(&mut m, 5), vec![4, 5]);
    assert!(m.thread_states[0].retired_ptrs.is_empty());
}

#[test]
fn retire_during_a_pass_only_records() {
    let mut m = Manager::new();
    let mu = m.make_mutator(None);
    m.is_retiring = true;
    assert_eq!(mu.retire(&mut m, 8), Vec::<usize>::new());
    assert_eq!(m.thread_states[0].retired_ptrs, vec![8]);
    assert!(m.is_retiring);
}

#[test]
fn a_reclamation_pass_takes_the_top_record_off_the_stack() {
    let mut m = Manager::new();
    let a = m.make_mutator(None);
    let _b = m.make_mutator(None);
    assert_eq!(a.retire(&mut m, 1), vec![1]);
    assert_eq!(m.thread_state_stack.len(), 1);
    assert_eq!(*m.thread_state_stack.get(0), 0);
    assert_eq!(a.retire(&mut m, 2), vec![2]);
    assert_eq!(m.thread_state_stack.len(), 0);
    assert_eq!(a.retire(&mut m, 3), vec![3]);
    assert_eq!(m.thread_states.len(), 2);
}
