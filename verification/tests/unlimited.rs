use deadqueue::unlimited::Queue;

#[test]
fn unlimited_test_basics() {
    let mut queue = Queue::from(vec![1, 2, 3, 4, 5]);
    for _ in 0..5 {
        assert!(queue.try_pop().is_some());
    }
    assert!(queue.try_pop().is_none());
}

#[test]
fn unlimited_test_available() {
    let mut queue = Queue::new();
    assert_eq!(queue.len(), 0);
    queue.push(1);
    assert_eq!(queue.len(), 1);
    assert_eq!(queue.available(), 1);
    assert!(queue.try_pop().is_some());
    assert_eq!(queue.len(), 0);
    assert_eq!(queue.available(), 0);
}

#[test]
fn test_pop() {
    let mut queue = Queue::from(vec![1, 2, 3, 4, 5]);
    for i in 0..5 {
        assert_eq!(queue.len(), 5 - i);
        queue.pop();
    }
    assert_eq!(queue.len(), 0);
    assert_eq!(queue.available(), 0);
}

#[test]
fn unlimited_test_parallel() {
    let mut queue = Queue::new();
    for i in 0..10000u64 {
        queue.push(i);
    }
    assert_eq!(queue.len(), 10000);
    assert_eq!(queue.available(), 10000);
    for _ in 0..100 {
        for _ in 0..100 {
            queue.pop();
        }
    }
    assert_eq!(queue.len(), 0);
    assert_eq!(queue.available(), 0);
}

#[test]
fn unlimited_test_parallel_available() {
    let mut queue = Queue::new();
    let first = queue.pop_park();
    let second = queue.pop_park();
    assert_eq!(queue.len(), 0);
    assert_eq!(queue.available(), -2);
    queue.push(0);
    queue.push(1);
    assert_eq!(queue.pop_finish(first), 0);
    assert_eq!(queue.pop_finish(second), 1);
    assert_eq!(queue.len(), 0);
    assert_eq!(queue.available(), 0);
}

#[test]
fn unlimited_test_empty() {
    let mut queue = Queue::new();
    for i in 0..100u64 {
        queue.push(i);
    }
    assert!(!queue.is_empty());
    let _watch_empty = queue.subscribe_empty();
    for _ in 0..100 {
        queue.pop();
    }
    assert_eq!(queue.len(), 0);
    assert!(queue.is_empty());
}

#[test]
fn unlimited_test_empty_deadlock() {
    let mut queue = Queue::new();
    for _ in 0..2 {
        queue.push(0);
    }
    assert!(!queue.is_empty());
    let _watch_empty = queue.subscribe_empty();
    queue.push(0);
    for _ in 0..3 {
        queue.pop();
    }
    assert_eq!(queue.len(), 0);
}

#[test]
fn unlimited_push_never_fails() {
    let mut queue = Queue::new();
    for i in 0..1000u64 {
        queue.push(i);
        assert_eq!(queue.len() as u64, i + 1);
    }
    for i in 0..1000u64 {
        assert_eq!(queue.try_pop(), Some(i));
    }
    assert_eq!(queue.try_pop(), None);
}

#[test]
fn unlimited_pop_cancel_restores_available() {
    let mut queue = Queue::new();
    let waiter = queue.pop_park();
    assert_eq!(queue.available(), -1);
    queue.pop_cancel(waiter);
    assert_eq!(queue.available(), 0);
    queue.push(5);
    assert_eq!(queue.try_pop(), Some(5));
}

#[test]
fn unlimited_default_is_empty() {
    let mut queue = Queue::default();
    assert_eq!(queue.len(), 0);
    assert!(queue.is_empty());
    assert_eq!(queue.available(), 0);
    assert!(queue.try_pop().is_none());
}
