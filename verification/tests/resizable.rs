use deadqueue::resizable::Queue;

#[test]
fn resizable_test_basics() {
    let mut queue = Queue::new(2);
    assert_eq!(queue.len(), 0);
    assert!(queue.try_push(1).is_ok());
    assert_eq!(queue.len(), 1);
    assert!(queue.try_push(2).is_ok());
    assert_eq!(queue.len(), 2);
    assert!(queue.try_push(3).is_err());
    assert_eq!(queue.len(), 2);
    assert!(queue.try_pop().is_some());
    assert_eq!(queue.len(), 1);
    assert!(queue.try_push(3).is_ok());
    assert_eq!(queue.len(), 2);
}

#[test]
fn resizable_test_parallel() {
    let mut queue = Queue::new(10);
    let mut popped: usize = 0;
    for i in 0..10000u64 {
        while queue.try_push(i).is_err() {
            assert!(queue.try_pop().is_some());
            popped += 1;
        }
    }
    while queue.try_pop().is_some() {
        popped += 1;
    }
    assert_eq!(popped, 10000);
    assert_eq!(queue.len(), 0);
}

#[test]
fn resizable_test_full() {
    let mut queue = Queue::new(100);
    let _watch_full = queue.subscribe_full();
    assert_ne!(queue.capacity(), queue.len());
    for i in 0..100u64 {
        queue.push(i);
    }
    assert_eq!(queue.len(), 100);
    assert!(queue.is_full());
}

#[test]
fn resizable_test_empty() {
    let mut queue = Queue::new(100);
    for i in 0..100u64 {
        queue.push(i);
    }
    assert!(!queue.is_empty());
    let _watch_empty = queue.subscribe_empty();
    for _ in 0..100 {
        queue.pop();
    }
    assert_eq!(queue.len(), 0);
    assert!(queue.is_empty());
}

#[test]
fn resizable_test_full_deadlock() {
    let mut queue = Queue::new(2);
    assert_ne!(queue.capacity(), queue.len());
    let _watch_full = queue.subscribe_full();
    queue.push(0);
    queue.pop();
    for _ in 0..2 {
        queue.push(0);
    }
    assert_eq!(queue.len(), 2);
    assert!(queue.is_full());
}

#[test]
fn resizable_test_empty_deadlock() {
    let mut queue = Queue::new(3);
    for _ in 0..2 {
        queue.push(0);
    }
    assert!(!queue.is_empty());
    let _watch_empty = queue.subscribe_empty();
    queue.push(0);
    for _ in 0..3 {
        queue.pop();
    }
    assert_eq!(queue.len(), 0);
}

#[test]
fn test_resize_enlarge() {
    let mut queue = Queue::new(0);
    queue.resize(1);
    assert_eq!(queue.capacity(), 1);
}

#[test]
fn test_resize_shrink() {
    let mut queue = Queue::new(2);
    queue.try_push(0).unwrap();
    queue.resize(1);
    assert_eq!(queue.capacity(), 1);
    assert_eq!(queue.len(), 1);
    assert_eq!(queue.try_push(42), Err(42));
    queue.resize(0);
    assert_eq!(queue.capacity(), 0);
    assert_eq!(queue.len(), 0);
    assert_eq!(queue.try_push(42), Err(42));
}

#[test]
fn test_is_full_basic() {
    let mut queue = Queue::new(2);
    assert!(!queue.is_full(), "Should be empty at construction");
    queue.push(1);
    assert!(
        !queue.is_full(),
        "Should not be full a one less than capacity"
    );
    queue.push(2);
    assert!(queue.is_full(), "Should now be full");
    let _ = queue.pop();
    assert!(!queue.is_full(), "Should no longer be full after pop");
}

#[test]
fn resizable_shrink_drains_oldest() {
    let mut queue = Queue::from(vec![1, 2, 3]);
    assert_eq!(queue.capacity(), 3);
    assert_eq!(queue.available(), 3);
    queue.resize(1);
    assert_eq!(queue.capacity(), 1);
    assert_eq!(queue.len(), 1);
    assert_eq!(queue.available(), 1);
    assert_eq!(queue.try_pop(), Some(3));
    assert_eq!(queue.try_pop(), None);
}

#[test]
fn resizable_grow_keeps_items() {
    let mut queue = Queue::new(1);
    queue.push(9);
    assert!(queue.try_push(10).is_err());
    queue.resize(3);
    assert_eq!(queue.capacity(), 3);
    assert_eq!(queue.len(), 1);
    assert!(queue.try_push(10).is_ok());
    assert!(queue.try_push(11).is_ok());
    assert!(queue.try_push(12).is_err());
    assert_eq!(queue.pop(), 9);
}

#[test]
fn resizable_parked_consumers_available() {
    let mut queue = Queue::new(2);
    let first = queue.pop_park();
    let second = queue.pop_park();
    assert_eq!(queue.len(), 0);
    assert_eq!(queue.available(), -2);
    queue.push(0);
    queue.push(1);
    assert_eq!(queue.pop_finish(first), 0);
    assert_eq!(queue.pop_finish(second), 1);
    assert_eq!(queue.len(), 0);
    assert_eq!(queue.available(), 0);
}

#[test]
fn resizable_pop_cancel_restores_available() {
    let mut queue = Queue::new(2);
    let waiter = queue.pop_park();
    assert_eq!(queue.available(), -1);
    queue.pop_cancel(waiter);
    assert_eq!(queue.available(), 0);
    assert!(queue.try_push(5).is_ok());
    assert_eq!(queue.try_pop(), Some(5));
}
