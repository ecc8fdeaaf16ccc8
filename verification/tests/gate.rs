use deadqueue::gate::Gate;

#[test]
fn gate_try_take_and_give() {
    let mut gate = Gate::new(2);
    assert_eq!(gate.permits(), 2);
    assert!(gate.try_take());
    assert!(gate.try_take());
    assert!(!gate.try_take());
    assert_eq!(gate.permits(), 0);
    gate.give(3);
    assert_eq!(gate.permits(), 3);
}

#[test]
fn gate_waiters_served_in_order() {
    let mut gate = Gate::new(0);
    let first = gate.park();
    let second = gate.park();
    assert_eq!(gate.waiters(), 2);
    assert!(!gate.try_take());
    gate.give(2);
    gate.claim(first);
    assert_eq!(gate.waiters(), 1);
    gate.claim(second);
    assert_eq!(gate.waiters(), 0);
    assert_eq!(gate.permits(), 0);
}

#[test]
fn gate_cancel_keeps_permits() {
    let mut gate = Gate::new(0);
    let waiter = gate.park();
    assert_eq!(gate.waiters(), 1);
    gate.cancel(waiter);
    assert_eq!(gate.waiters(), 0);
    assert_eq!(gate.permits(), 0);
}
