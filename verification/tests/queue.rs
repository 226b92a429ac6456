use mini_runtime::lf::queue::LockFreeQueue;
use std::collections::HashSet;

#[test]
pub fn simple() {
    let mut q = LockFreeQueue::new();
    for x in 0..100 {
        q.push(x);
    }
    let mut hash_set = HashSet::new();
    while let Some(v) = q.try_pop() {
        assert_eq!(hash_set.contains(&v), false);
        hash_set.insert(v);
    }

    assert_eq!(hash_set.len(), 100);

    assert_eq!(q.try_pop(), None);
}

#[test]
fn queue_is_first_in_first_out() {
    let mut q = LockFreeQueue::new();
    q.push(10u64);
    q.push(20);
    q.push(30);
    assert_eq!(q.try_pop(), Some(10));
    q.push(40);
    assert_eq!(q.try_pop(), Some(20));
    assert_eq!(q.try_pop(), Some(30));
    assert_eq!(q.try_pop(), Some(40));
    assert_eq!(q.try_pop(), None);
}

#[test]
fn pop_from_new_queue_is_none() {
    let mut q: LockFreeQueue<String> = LockFreeQueue::new();
    assert_eq!(q.try_pop(), None);
    assert_eq!(q.try_pop(), None);
}

#[test]
fn queue_reuses_reclaimed_cells_without_mixing_values() {
    let mut q = LockFreeQueue::new();
    for round in 0..50u32 {
        q.push(round * 2);
        q.push(round * 2 + 1);
        assert_eq!(q.try_pop(), Some(round * 2));
        assert_eq!(q.try_pop(), Some(round * 2 + 1));
        assert_eq!(q.try_pop(), None);
    }
}

#[test]
fn queue_moves_owned_values() {
    let mut q = LockFreeQueue::new();
    q.push(String::from("a"));
    q.push(String::from("b"));
    assert_eq!(q.try_pop().as_deref(), Some("a"));
    q.push(String::from("c"));
    assert_eq!(q.try_pop().as_deref(), Some("b"));
    assert_eq!(q.try_pop().as_deref(), Some("c"));
    assert_eq!(q.try_pop(), None);
}
