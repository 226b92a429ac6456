use mini_runtime::lf::hazard_ptr::stack::LockFreeStack;

#[test]
fn stack_is_last_in_first_out() {
    let mut s = LockFreeStack::new();
    s.push(1u32);
    s.push(2);
    s.push(3);
    assert_eq!(s.len(), 3);
    assert_eq!(s.try_pop().map(|n| n.value), Some(3));
    assert_eq!(s.try_pop().map(|n| n.value), Some(2));
    s.push(4);
    assert_eq!(s.try_pop().map(|n| n.value), Some(4));
    assert_eq!(s.try_pop().map(|n| n.value), Some(1));
    assert!(s.try_pop().is_none());
    assert_eq!(s.len(), 0);
}

#[test]
fn popped_node_links_to_the_new_top() {
    let mut s = LockFreeStack::new();
    s.push('a');
    s.push('b');
    let top = s.try_pop().unwrap();
    assert_eq!(top.value, 'b');
    assert_eq!(top.next, Some(0));
    let last = s.try_pop().unwrap();
    assert_eq!(last.value, 'a');
    assert_eq!(last.next, None);
}

#[test]
fn stack_positions_count_from_the_bottom() {
    let mut s = LockFreeStack::new();
    s.push(5i64);
    s.push(6);
    s.push(7);
    assert_eq!(*s.get(0), 5);
    assert_eq!(*s.get(2), 7);
    assert_eq!(s.next_of(2), Some(1));
    assert_eq!(s.next_of(1), Some(0));
    assert_eq!(s.next_of(0), None);
}

#[test]
fn pop_from_new_stack_is_none() {
    let mut s: LockFreeStack<u8> = LockFreeStack::new();
    assert!(s.try_pop().is_none());
}
