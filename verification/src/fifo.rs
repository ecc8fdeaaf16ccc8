//! Trusted interface to the lock-free FIFO containers of `crossbeam_queue`.
//!
//! The queues own their backing FIFOs exclusively, so every mutating wrapper
//! takes the FIFO by `&mut` and states the plain sequential effect that the
//! container documents: `push` appends at the tail, `pop` removes the head.
//! What a FIFO holds is named by the uninterpreted functions below; the
//! wrappers' contracts are the only source of facts about those names.

use vstd::prelude::*;

use crossbeam_queue::ArrayQueue;
use crossbeam_queue::SegQueue;

verus! {

#[verifier::external_type_specification]
#[verifier::external_body]
#[verifier::reject_recursive_types(T)]
pub struct ExSegQueue<T>(SegQueue<T>);

#[verifier::external_type_specification]
#[verifier::external_body]
#[verifier::reject_recursive_types(T)]
pub struct ExArrayQueue<T>(ArrayQueue<T>);

/// The items an unbounded FIFO holds, head first.
pub uninterp spec fn seg_items(q: SegQueue<u64>) -> Seq<u64>;

/// The items a bounded ring FIFO holds, head first.
pub uninterp spec fn ring_items(q: ArrayQueue<u64>) -> Seq<u64>;

/// The capacity a bounded ring FIFO was created with.
pub uninterp spec fn ring_cap(q: ArrayQueue<u64>) -> nat;

/// Relies on `crossbeam_queue::SegQueue::new`: creates an empty FIFO.
#[verifier::external_body]
pub(crate) fn seg_new() -> (q: SegQueue<u64>)
    ensures
        seg_items(q) == Seq::<u64>::empty(),
{
    SegQueue::new()
}

/// Relies on `crossbeam_queue::SegQueue::push`: appends at the tail; never
/// fails and never blocks.
#[verifier::external_body]
pub(crate) fn seg_push(q: &mut SegQueue<u64>, value: u64)
    ensures
        seg_items(*final(q)) == seg_items(*old(q)).push(value),
{
    q.push(value);
}

/// Relies on `crossbeam_queue::SegQueue::pop`: removes and returns the head,
/// or `None` when the FIFO is empty.
#[verifier::external_body]
pub(crate) fn seg_pop(q: &mut SegQueue<u64>) -> (r: Option<u64>)
    ensures
        seg_items(*old(q)).len() > 0 ==> r == Some(seg_items(*old(q))[0]) && seg_items(
            *final(q),
        ) == seg_items(*old(q)).drop_first(),
        seg_items(*old(q)).len() == 0 ==> r is None && seg_items(*final(q)) == seg_items(*old(q)),
{
    q.pop()
}

/// Relies on `crossbeam_queue::SegQueue::len`: the number of items held.
#[verifier::external_body]
pub(crate) fn seg_len(q: &SegQueue<u64>) -> (n: usize)
    ensures
        n == seg_items(*q).len(),
{
    q.len()
}

/// Relies on `crossbeam_queue::SegQueue::is_empty`.
#[verifier::external_body]
pub(crate) fn seg_is_empty(q: &SegQueue<u64>) -> (r: bool)
    ensures
        r == (seg_items(*q).len() == 0),
{
    q.is_empty()
}

/// Relies on `crossbeam_queue::ArrayQueue::new`: creates an empty FIFO of the
/// given capacity. Panics on capacity zero, which the precondition excludes.
#[verifier::external_body]
pub(crate) fn ring_new(cap: usize) -> (q: ArrayQueue<u64>)
    requires
        1 <= cap <= isize::MAX,
    ensures
        ring_items(q) == Seq::<u64>::empty(),
        ring_cap(q) == cap,
{
    ArrayQueue::new(cap)
}

/// Relies on `crossbeam_queue::ArrayQueue::push`: appends at the tail when a
/// slot is free, and otherwise returns the rejected value unchanged.
#[verifier::external_body]
pub(crate) fn ring_push(q: &mut ArrayQueue<u64>, value: u64) -> (r: Result<(), u64>)
    ensures
        ring_cap(*final(q)) == ring_cap(*old(q)),
        ring_items(*old(q)).len() < ring_cap(*old(q)) ==> r is Ok && ring_items(*final(q))
            == ring_items(*old(q)).push(value),
        ring_items(*old(q)).len() >= ring_cap(*old(q)) ==> r is Err && r->Err_0 == value
            && ring_items(*final(q)) == ring_items(*old(q)),
{
    q.push(value)
}

/// Relies on `crossbeam_queue::ArrayQueue::pop`: removes and returns the
/// head, or `None` when the FIFO is empty.
#[verifier::external_body]
pub(crate) fn ring_pop(q: &mut ArrayQueue<u64>) -> (r: Option<u64>)
    ensures
        ring_cap(*final(q)) == ring_cap(*old(q)),
        ring_items(*old(q)).len() > 0 ==> r == Some(ring_items(*old(q))[0]) && ring_items(
            *final(q),
        ) == ring_items(*old(q)).drop_first(),
        ring_items(*old(q)).len() == 0 ==> r is None && ring_items(*final(q)) == ring_items(
            *old(q),
        ),
{
    q.pop()
}

/// Relies on `crossbeam_queue::ArrayQueue::len`: the number of items held.
#[verifier::external_body]
pub(crate) fn ring_len(q: &ArrayQueue<u64>) -> (n: usize)
    ensures
        n == ring_items(*q).len(),
{
    q.len()
}

/// Relies on `crossbeam_queue::ArrayQueue::capacity`.
#[verifier::external_body]
pub(crate) fn ring_capacity(q: &ArrayQueue<u64>) -> (n: usize)
    ensures
        n == ring_cap(*q),
{
    q.capacity()
}

/// Relies on `crossbeam_queue::ArrayQueue::is_empty`.
#[verifier::external_body]
pub(crate) fn ring_is_empty(q: &ArrayQueue<u64>) -> (r: bool)
    ensures
        r == (ring_items(*q).len() == 0),
{
    q.is_empty()
}

/// Relies on `crossbeam_queue::ArrayQueue::is_full`.
#[verifier::external_body]
pub(crate) fn ring_is_full(q: &ArrayQueue<u64>) -> (r: bool)
    ensures
        r == (ring_items(*q).len() == ring_cap(*q)),
{
    q.is_full()
}

} // verus!
