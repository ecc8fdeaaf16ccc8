use deadqueue::atomic::Available;

#[test]
fn counter_add_sub_get() {
    let mut counter = Available::new(0);
    assert_eq!(counter.get(), 0);
    assert_eq!(counter.add(), 1);
    assert_eq!(counter.add(), 2);
    assert_eq!(counter.get(), 2);
    let (txn, value) = counter.sub();
    assert_eq!(value, 1);
    txn.commit();
    assert_eq!(counter.get(), 1);
}

#[test]
fn counter_sub_rollback_restores() {
    let mut counter = Available::new(3);
    let (txn, value) = counter.sub();
    assert_eq!(value, 2);
    assert_eq!(counter.get(), 2);
    txn.rollback(&mut counter);
    assert_eq!(counter.get(), 3);
}

#[test]
fn counter_goes_negative() {
    let mut counter = Available::new(0);
    let (txn_a, first) = counter.sub();
    let (txn_b, second) = counter.sub();
    assert_eq!(first, -1);
    assert_eq!(second, -2);
    assert_eq!(counter.get(), -2);
    txn_a.commit();
    txn_b.rollback(&mut counter);
    assert_eq!(counter.get(), -1);
}
