//! Signed availability counter with a transactional decrement.

use vstd::prelude::*;

verus! {

/// Signed counter holding the number of items present minus the number of
/// consumers currently parked waiting for an item.
///
/// A consumer lowers the counter *before* it parks, so a negative reading
/// exposes the number of waiting consumers. Because a parked consumer may be
/// cancelled, the decrement is transactional: [`Available::sub`] hands back a
/// [`TransactionSub`] reservation that is either committed (the consumer got
/// an item) or rolled back (the consumer gave up), restoring the counter.
pub struct Available {
    count: isize,
}

impl Available {
    /// The current counter value.
    pub closed spec fn value(&self) -> int {
        self.count as int
    }

    /// Create a counter holding `value`.
    pub fn new(value: isize) -> (r: Available)
        ensures
            r.value() == value,
    {
        Available { count: value }
    }

    /// Transactional decrement: lower the counter by one and return the
    /// post-decrement value together with a reservation that must later be
    /// committed or rolled back.
    pub fn sub(&mut self) -> (r: (TransactionSub, isize))
        requires
            old(self).value() > isize::MIN,
        ensures
            final(self).value() == old(self).value() - 1,
            r.1 == final(self).value(),
    {
        self.count = self.count - 1;
        (TransactionSub {}, self.count)
    }

    /// Increment the counter; returns the post-increment value.
    pub fn add(&mut self) -> (r: isize)
        requires
            old(self).value() < isize::MAX,
        ensures
            final(self).value() == old(self).value() + 1,
            r == final(self).value(),
    {
        self.count = self.count + 1;
        self.count
    }

    /// Read the counter.
    pub fn get(&self) -> (r: isize)
        ensures
            r == self.value(),
    {
        self.count
    }
}

/// Reservation for one pending decrement of an [`Available`] counter.
///
/// Exactly one of two things must happen to it: [`TransactionSub::commit`]
/// makes the decrement permanent, and [`TransactionSub::rollback`] undoes it
/// on the counter it was taken from. Rolling back is the cancellation path of
/// a consumer that reserved an item but never received one.
#[must_use]
pub struct TransactionSub {}

impl TransactionSub {
    /// Acknowledge that the decrement is permanent.
    pub fn commit(self) {
    }

    /// Undo the decrement: restore the counter by one.
    pub fn rollback(self, counter: &mut Available)
        requires
            old(counter).value() < isize::MAX,
        ensures
            final(counter).value() == old(counter).value() + 1,
    {
        let _ = counter.add();
    }
}

} // verus!
