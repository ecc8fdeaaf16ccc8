use deadqueue::limited::Queue;

#[test]
fn limited_test_basics() {
    let mut queue = Queue::new(2);
    assert_eq!(queue.len(), 0);
    assert!(queue.try_push(1).is_ok());
    assert_eq!(queue.len(), 1);
    assert!(queue.try_push(2).is_ok());
    assert_eq!(queue.len(), 2);
    assert!(queue.try_push(3).is_err());
    assert_eq!(queue.len(), 2);
    assert!(queue.try_pop().is_some());
    assert_eq!(queue.len(), 1);
    assert!(queue.try_push(3).is_ok());
    assert_eq!(queue.len(), 2);
}

#[test]
fn limited_test_available() {
    let mut queue = Queue::new(2);
    assert_eq!(queue.len(), 0);
    assert!(queue.try_push(1).is_ok());
    assert_eq!(queue.len(), 1);
    assert_eq!(queue.available(), 1);
    assert!(queue.try_pop().is_some());
    assert_eq!(queue.len(), 0);
    assert_eq!(queue.available(), 0);
}

#[test]
fn limited_test_parallel() {
    let mut queue = Queue::new(100);
    let mut popped: usize = 0;
    for i in 0..10000u64 {
        while queue.try_push(i).is_err() {
            assert!(queue.try_pop().is_some());
            popped += 1;
        }
    }
    while queue.try_pop().is_some() {
        popped += 1;
    }
    assert_eq!(popped, 10000);
    assert_eq!(queue.len(), 0);
}

#[test]
fn limited_test_parallel_available() {
    let mut queue = Queue::new(2);
    let first = queue.pop_park();
    let second = queue.pop_park();
    assert_eq!(queue.len(), 0);
    assert_eq!(queue.available(), -2);
    queue.push(0);
    queue.push(1);
    assert_eq!(queue.pop_finish(first), 0);
    assert_eq!(queue.pop_finish(second), 1);
    assert_eq!(queue.len(), 0);
    assert_eq!(queue.available(), 0);
}

#[test]
fn limited_test_full() {
    let mut queue = Queue::new(100);
    let _watch_full = queue.subscribe_full();
    assert_ne!(queue.capacity(), queue.len());
    for i in 0..100u64 {
        queue.push(i);
    }
    assert_eq!(queue.len(), 100);
    assert!(queue.is_full());
}

#[test]
fn limited_test_empty() {
    let mut queue = Queue::new(100);
    for i in 0..100u64 {
        queue.push(i);
    }
    assert!(!queue.is_empty());
    let _watch_empty = queue.subscribe_empty();
    for _ in 0..100 {
        queue.pop();
    }
    assert_eq!(queue.len(), 0);
    assert!(queue.is_empty());
}

#[test]
fn limited_test_full_deadlock() {
    let mut queue = Queue::new(2);
    assert_ne!(queue.capacity(), queue.len());
    let _watch_full = queue.subscribe_full();
    queue.push(0);
    queue.pop();
    for _ in 0..2 {
        queue.push(0);
    }
    assert_eq!(queue.len(), 2);
    assert!(queue.is_full());
}

#[test]
fn limited_test_empty_deadlock() {
    let mut queue = Queue::new(3);
    for _ in 0..2 {
        queue.push(0);
    }
    assert!(!queue.is_empty());
    let _watch_empty = queue.subscribe_empty();
    queue.push(0);
    for _ in 0..3 {
        queue.pop();
    }
    assert_eq!(queue.len(), 0);
}

#[test]
fn limited_from_round_trip() {
    let mut queue = Queue::from(vec![10, 20, 30]);
    assert_eq!(queue.len(), 3);
    assert_eq!(queue.capacity(), 3);
    assert!(queue.is_full());
    assert_eq!(queue.available(), 3);
    assert_eq!(queue.try_pop(), Some(10));
    assert_eq!(queue.try_pop(), Some(20));
    assert_eq!(queue.try_pop(), Some(30));
    assert_eq!(queue.try_pop(), None);
    assert_eq!(queue.available(), 0);
}

#[test]
fn limited_producer_backpressure_fifo() {
    let mut queue = Queue::new(1);
    queue.push(7);
    let first = queue.push_park(8);
    let second = queue.push_park(9);
    assert_eq!(queue.try_push(10), Err(10));
    assert_eq!(queue.pop(), 7);
    queue.push_finish(first);
    assert_eq!(queue.pop(), 8);
    queue.push_finish(second);
    assert_eq!(queue.pop(), 9);
    assert_eq!(queue.len(), 0);
}

#[test]
fn limited_push_cancel_returns_item() {
    let mut queue = Queue::new(1);
    queue.push(1);
    let waiter = queue.push_park(2);
    let item = queue.push_cancel(waiter);
    assert_eq!(item, 2);
    assert_eq!(queue.len(), 1);
    assert_eq!(queue.pop(), 1);
    assert!(queue.try_push(3).is_ok());
}

#[test]
fn limited_pop_cancel_restores_available() {
    let mut queue = Queue::new(2);
    let waiter = queue.pop_park();
    assert_eq!(queue.available(), -1);
    queue.pop_cancel(waiter);
    assert_eq!(queue.available(), 0);
    assert!(queue.try_push(5).is_ok());
    assert_eq!(queue.try_pop(), Some(5));
}

#[test]
fn limited_balanced_batch_restores_available() {
    let mut queue = Queue::new(8);
    queue.push(100);
    let start = queue.available();
    for i in 0..5u64 {
        queue.push(i);
    }
    for _ in 0..5 {
        assert!(queue.try_pop().is_some());
    }
    assert_eq!(queue.available(), start);
}

#[test]
fn limited_pop_cancel_keeps_order() {
    let mut queue = Queue::new(4);
    let first = queue.pop_park();
    let second = queue.pop_park();
    let third = queue.pop_park();
    assert_eq!(queue.available(), -3);
    queue.pop_cancel(second);
    assert_eq!(queue.available(), -2);
    queue.push(10);
    queue.push(11);
    assert_eq!(queue.pop_finish(first), 10);
    assert_eq!(queue.pop_finish(third), 11);
    assert_eq!(queue.available(), 0);
}
