//! Queue that is limited in size and supports resizing.
//!
//! An unlimited queue serves as backing store; a push gate initialized to
//! the initial capacity provides backpressure, and an explicit capacity
//! value can be grown or shrunk at runtime. Growing releases the new slots'
//! permits at once; shrinking walks the surplus capacity away slot by slot,
//! preferring to absorb vacant slots (push permits) and discarding stored
//! items from the head only when the queue is over the new capacity.
//! Empty-notification is delegated to the backing queue; the "became full"
//! notifier lives here.

use vstd::prelude::*;

use tokio::sync::watch;

use crate::gate::Gate;
use crate::gate::GateModel;
use crate::gate::PERMIT_LIMIT;
use crate::notify::new_notifier;
use crate::notify::notify;
use crate::notify::subscribe;
use crate::unlimited::PopWait;
use crate::unlimited::Queue as UnlimitedQueue;
use vstd::pervasive::unreached;

verus! {

/// Mathematical state of a resizable queue: the stored items (head first),
/// the current capacity, the push gate, the backing queue's pop gate, the
/// availability counter, and how many pushes and pops have completed since
/// construction (items present at construction count as pushes; items
/// drained by a shrink count as pops).
#[verifier::ext_equal]
pub ghost struct Model {
    pub items: Seq<u64>,
    pub capacity: nat,
    pub push: GateModel,
    pub pop: GateModel,
    pub available: int,
    pub pushed: nat,
    pub popped: nat,
}

impl Model {
    /// Steady-state invariant of the coordination layer: slot conservation
    /// (push permits equal vacant slots under the current capacity), one pop
    /// permit per stored item, and an availability counter equal to items
    /// present minus consumers parked.
    pub open spec fn inv(self) -> bool {
        &&& self.push.inv()
        &&& self.pop.inv()
        &&& self.capacity <= PERMIT_LIMIT
        &&& self.push.permits == self.capacity - self.items.len()
        &&& self.pop.permits == self.items.len()
        &&& self.available == self.items.len() - self.pop.waiting.len()
        &&& self.pop.waiting.len() <= isize::MAX
        &&& self.popped <= self.pushed
        &&& self.items.len() == self.pushed - self.popped
    }

    /// A `push` (or `try_push`) can complete right now: a slot is vacant and
    /// no earlier producer is parked.
    pub open spec fn can_push(self) -> bool {
        self.items.len() < self.capacity && self.push.waiting.len() == 0
    }

    /// A `pop` (or `try_pop`) can complete right now: an item is present and
    /// no earlier consumer is parked.
    pub open spec fn can_pop(self) -> bool {
        self.items.len() > 0 && self.pop.waiting.len() == 0
    }

    /// State after a completed push.
    pub open spec fn pushed_state(self, item: u64) -> Model {
        Model {
            items: self.items.push(item),
            capacity: self.capacity,
            push: GateModel {
                permits: (self.push.permits - 1) as nat,
                waiting: self.push.waiting,
                next_ticket: self.push.next_ticket,
            },
            pop: GateModel {
                permits: (self.pop.permits + 1) as nat,
                waiting: self.pop.waiting,
                next_ticket: self.pop.next_ticket,
            },
            available: self.available + 1,
            pushed: self.pushed + 1,
            popped: self.popped,
        }
    }

    /// State after a completed pop.
    pub open spec fn popped_state(self) -> Model {
        Model {
            items: self.items.drop_first(),
            capacity: self.capacity,
            push: GateModel {
                permits: (self.push.permits + 1) as nat,
                waiting: self.push.waiting,
                next_ticket: self.push.next_ticket,
            },
            pop: GateModel {
                permits: (self.pop.permits - 1) as nat,
                waiting: self.pop.waiting,
                next_ticket: self.pop.next_ticket,
            },
            available: self.available - 1,
            pushed: self.pushed,
            popped: self.popped + 1,
        }
    }

    /// How many stored items a resize to `target` must drain: the surplus
    /// over the new capacity, if any.
    pub open spec fn drop_count(self, target: nat) -> int {
        if self.items.len() > target {
            self.items.len() - target
        } else {
            0
        }
    }

    /// State after a completed resize to `target`: the capacity is `target`,
    /// surplus items have been drained from the head, and the push gate
    /// holds one permit per remaining vacant slot.
    pub open spec fn resized_state(self, target: nat) -> Model {
        Model {
            items: self.items.skip(self.drop_count(target)),
            capacity: target,
            push: GateModel {
                permits: (target - (self.items.len() - self.drop_count(target))) as nat,
                waiting: self.push.waiting,
                next_ticket: self.push.next_ticket,
            },
            pop: GateModel {
                permits: (self.items.len() - self.drop_count(target)) as nat,
                waiting: self.pop.waiting,
                next_ticket: self.pop.next_ticket,
            },
            available: self.available - self.drop_count(target),
            pushed: self.pushed,
            popped: (self.popped + self.drop_count(target)) as nat,
        }
    }
}

/// Queue that is limited in size and supports resizing.
pub struct Queue {
    backing: UnlimitedQueue,
    capacity: usize,
    push_gate: Gate,
    notifier_full: watch::Sender<()>,
}

impl View for Queue {
    type V = Model;

    closed spec fn view(&self) -> Model {
        Model {
            items: self.backing@.items,
            capacity: self.capacity as nat,
            push: self.push_gate@,
            pop: self.backing@.pop,
            available: self.backing@.available,
            pushed: self.backing@.pushed,
            popped: self.backing@.popped,
        }
    }
}

impl Queue {
    /// The private tie between the queue, its backing store and its gate.
    pub closed spec fn parts_ok(&self) -> bool {
        &&& self.backing.wf()
        &&& self.push_gate.wf()
    }

    /// The queue is well formed: backing store and gate are in step and the
    /// model invariant holds.
    pub open spec fn wf(&self) -> bool {
        &&& self.parts_ok()
        &&& self@.inv()
    }

    /// Create a new empty queue holding up to `max_size` items.
    pub fn new(max_size: usize) -> (q: Queue)
        requires
            max_size <= PERMIT_LIMIT,
        ensures
            q.wf(),
            q@ == (Model {
                items: Seq::<u64>::empty(),
                capacity: max_size as nat,
                push: (GateModel {
                    permits: max_size as nat,
                    waiting: Seq::<nat>::empty(),
                    next_ticket: 0,
                }),
                pop: (GateModel { permits: 0, waiting: Seq::<nat>::empty(), next_ticket: 0 }),
                available: 0,
                pushed: 0,
                popped: 0,
            }),
    {
        Queue {
            backing: UnlimitedQueue::new(),
            capacity: max_size,
            push_gate: Gate::new(max_size),
            notifier_full: new_notifier(),
        }
    }

    /// Create a queue pre-filled with `items`, in order; the capacity equals
    /// the item count, so the queue starts full.
    pub fn from(items: Vec<u64>) -> (q: Queue)
        requires
            items@.len() <= PERMIT_LIMIT,
        ensures
            q.wf(),
            q@ == (Model {
                items: items@,
                capacity: items@.len(),
                push: (GateModel { permits: 0, waiting: Seq::<nat>::empty(), next_ticket: 0 }),
                pop: (GateModel {
                    permits: items@.len(),
                    waiting: Seq::<nat>::empty(),
                    next_ticket: 0,
                }),
                available: items@.len() as int,
                pushed: items@.len(),
                popped: 0,
            }),
    {
        let n = items.len();
        Queue {
            backing: UnlimitedQueue::from(items),
            capacity: n,
            push_gate: Gate::new(0),
            notifier_full: new_notifier(),
        }
    }

    /// Enqueue an item: the non-waiting completion of `push`. It applies
    /// when a slot is vacant and no earlier producer is parked; otherwise
    /// the producer parks on the push gate.
    pub fn push(&mut self, item: u64)
        requires
            old(self).wf(),
            old(self)@.can_push(),
        ensures
            final(self).wf(),
            final(self)@ == old(self)@.pushed_state(item),
    {
        let taken = self.push_gate.try_take();
        if !taken {
            unreached::<()>();
        }
        self.push_into_backing(item);
    }

    /// Try to enqueue without waiting: succeeds exactly when a slot is
    /// vacant and no earlier producer is parked; on failure the rejected
    /// item comes back to the caller unchanged.
    pub fn try_push(&mut self, item: u64) -> (r: Result<(), u64>)
        requires
            old(self).wf(),
        ensures
            final(self).wf(),
            old(self)@.can_push() ==> r is Ok && final(self)@ == old(self)@.pushed_state(item),
            !old(self)@.can_push() ==> r is Err && r->Err_0 == item && final(self)@ == old(self)@,
            (final(self)@, r) == spec_try_push(old(self)@, item),
    {
        if self.push_gate.try_take() {
            self.push_into_backing(item);
            Ok(())
        } else {
            Err(item)
        }
    }

    /// Shared tail of a completed push: the push permit has already been
    /// consumed-without-release (the slot now belongs to the item).
    fn push_into_backing(&mut self, item: u64)
        requires
            old(self).backing.wf(),
            old(self).push_gate.wf(),
            old(self)@.capacity <= PERMIT_LIMIT,
            old(self)@.items.len() < old(self)@.capacity,
            old(self)@.push.permits == old(self)@.capacity - old(self)@.items.len() - 1,
        ensures
            final(self).wf(),
            final(self)@ == (Model {
                items: old(self)@.items.push(item),
                capacity: old(self)@.capacity,
                push: old(self)@.push,
                pop: (GateModel {
                    permits: (old(self)@.pop.permits + 1) as nat,
                    waiting: old(self)@.pop.waiting,
                    next_ticket: old(self)@.pop.next_ticket,
                }),
                available: old(self)@.available + 1,
                pushed: old(self)@.pushed + 1,
                popped: old(self)@.popped,
            }),
    {
        self.backing.push(item);
        let new_len = self.backing.available();
        let cap = self.capacity;
        if new_len >= cap as isize {
            notify(&self.notifier_full);
        }
    }

    /// Dequeue the head item: the non-waiting completion of `pop`. A vacant
    /// slot opens up, so one push permit is released.
    pub fn pop(&mut self) -> (item: u64)
        requires
            old(self).wf(),
            old(self)@.can_pop(),
        ensures
            final(self).wf(),
            item == old(self)@.items[0],
            final(self)@ == old(self)@.popped_state(),
    {
        let item = self.backing.pop();
        self.push_gate.give(1);
        item
    }

    /// Try to dequeue without waiting: succeeds exactly when an item is
    /// present and no earlier consumer is parked; a success releases one
    /// push permit.
    pub fn try_pop(&mut self) -> (r: Option<u64>)
        requires
            old(self).wf(),
        ensures
            final(self).wf(),
            old(self)@.can_pop() ==> r == Some(old(self)@.items[0]) && final(self)@ == old(
                self,
            )@.popped_state(),
            !old(self)@.can_pop() ==> r is None && final(self)@ == old(self)@,
            (final(self)@, r) == spec_try_pop(old(self)@),
    {
        match self.backing.try_pop() {
            Some(item) => {
                self.push_gate.give(1);
                Some(item)
            },
            None => None,
        }
    }

    /// Begin a `pop` that cannot complete now: delegate to the backing
    /// queue, whose availability counter records the parked consumer.
    pub fn pop_park(&mut self) -> (w: PopWait)
        requires
            old(self).wf(),
            !old(self)@.can_pop(),
            old(self)@.pop.waiting.len() < isize::MAX,
        ensures
            final(self).wf(),
            w@ == old(self)@.pop.next_ticket,
            final(self)@ == (Model {
                items: old(self)@.items,
                capacity: old(self)@.capacity,
                push: old(self)@.push,
                pop: (GateModel {
                    permits: old(self)@.pop.permits,
                    waiting: old(self)@.pop.waiting.push(old(self)@.pop.next_ticket),
                    next_ticket: old(self)@.pop.next_ticket + 1,
                }),
                available: old(self)@.available - 1,
                pushed: old(self)@.pushed,
                popped: old(self)@.popped,
            }),
    {
        self.backing.pop_park()
    }

    /// Complete a parked `pop` once an item is present and this waiter is
    /// the earliest registered one; one push permit is released.
    pub fn pop_finish(&mut self, w: PopWait) -> (item: u64)
        requires
            old(self).wf(),
            old(self)@.items.len() > 0,
            old(self)@.pop.waiting.len() > 0,
            w@ == old(self)@.pop.waiting[0],
        ensures
            final(self).wf(),
            item == old(self)@.items[0],
            final(self)@ == (Model {
                items: old(self)@.items.drop_first(),
                capacity: old(self)@.capacity,
                push: (GateModel {
                    permits: (old(self)@.push.permits + 1) as nat,
                    waiting: old(self)@.push.waiting,
                    next_ticket: old(self)@.push.next_ticket,
                }),
                pop: (GateModel {
                    permits: (old(self)@.pop.permits - 1) as nat,
                    waiting: old(self)@.pop.waiting.drop_first(),
                    next_ticket: old(self)@.pop.next_ticket,
                }),
                available: old(self)@.available,
                pushed: old(self)@.pushed,
                popped: old(self)@.popped + 1,
            }),
    {
        let item = self.backing.pop_finish(w);
        self.push_gate.give(1);
        item
    }

    /// Abandon a parked `pop`: the cancellation path. The availability
    /// reservation rolls back; no push permit is released because no item
    /// was taken.
    pub fn pop_cancel(&mut self, w: PopWait)
        requires
            old(self).wf(),
            old(self)@.pop.waiting.contains(w@),
        ensures
            final(self).wf(),
            final(self)@ == (Model {
                items: old(self)@.items,
                capacity: old(self)@.capacity,
                push: old(self)@.push,
                pop: (GateModel {
                    permits: old(self)@.pop.permits,
                    waiting: old(self)@.pop.waiting.remove(
                        old(self)@.pop.waiting.index_of(w@),
                    ),
                    next_ticket: old(self)@.pop.next_ticket,
                }),
                available: old(self)@.available + 1,
                pushed: old(self)@.pushed,
                popped: old(self)@.popped,
            }),
    {
        self.backing.pop_cancel(w)
    }

    /// Current capacity: the maximum number of items the queue can store
    /// until the next resize.
    pub fn capacity(&self) -> (n: usize)
        ensures
            n == self@.capacity,
    {
        self.capacity
    }

    /// Current number of items stored.
    pub fn len(&self) -> (n: usize)
        ensures
            n == self@.items.len(),
    {
        self.backing.len()
    }

    /// Whether the queue holds no items.
    pub fn is_empty(&self) -> (r: bool)
        ensures
            r == (self@.items.len() == 0),
    {
        self.backing.is_empty()
    }

    /// Whether the queue is at (or, mid-resize, above) capacity. Advisory:
    /// under a racing resize the reading may be stale; `try_push` is the
    /// precise mechanism.
    pub fn is_full(&self) -> (r: bool)
        ensures
            r == (self@.items.len() >= self@.capacity),
    {
        self.backing.len() >= self.capacity
    }

    /// Items present minus consumers parked; a negative reading exposes the
    /// number of consumers waiting inside `pop`.
    pub fn available(&self) -> (r: isize)
        ensures
            r == self@.available,
    {
        self.backing.available()
    }

    /// Subscribe to the "queue became full" edge notifier. The waiting half
    /// of `wait_full` belongs to the asynchronous shell: compare
    /// [`Queue::len`] with [`Queue::capacity`] eagerly first, then await a
    /// change on this receiver and re-check.
    pub fn subscribe_full(&self) -> watch::Receiver<()> {
        subscribe(&self.notifier_full)
    }

    /// Subscribe to the "queue became empty" edge notifier, which the
    /// backing queue rings. The waiting half of `wait_empty` belongs to the
    /// asynchronous shell: check [`Queue::is_empty`] eagerly first, then
    /// await a change on this receiver and re-check.
    pub fn subscribe_empty(&self) -> watch::Receiver<()> {
        self.backing.subscribe_empty()
    }

    /// Resize the queue to `target` capacity.
    ///
    /// Growing releases the new slots' push permits at once. Shrinking
    /// retires one slot per step: a vacant slot is absorbed by consuming a
    /// push permit, and only when no permit is free — the queue is at its
    /// current capacity — is a stored item drained from the head of the
    /// backing store (deliberately bypassing `pop`, which would release a
    /// push permit and undo the reclamation). Draining prefers permits, so
    /// items are only discarded when the queue is over the new capacity.
    ///
    /// This is the non-waiting completion of `resize`: with producers or
    /// consumers parked, a shrink may have to wait for them, which belongs
    /// to the asynchronous shell.
    pub fn resize(&mut self, target: usize)
        requires
            old(self).wf(),
            target <= PERMIT_LIMIT,
            old(self)@.push.waiting.len() == 0,
            old(self)@.pop.waiting.len() == 0,
        ensures
            final(self).wf(),
            final(self)@ == old(self)@.resized_state(target as nat),
    {
        let current = self.capacity;
        if target == current {
            proof {
                assert(old(self)@.items.skip(0) =~= old(self)@.items);
                assert(final(self)@ =~= old(self)@.resized_state(target as nat));
            }
        } else if target > current {
            let diff = target - current;
            self.push_gate.give(diff);
            self.capacity = target;
            proof {
                assert(old(self)@.items.skip(0) =~= old(self)@.items);
                assert(final(self)@ =~= old(self)@.resized_state(target as nat));
            }
        } else {
            proof {
                assert(old(self)@.items.skip(0) =~= old(self)@.items);
            }
            while self.capacity > target
                invariant
                    self.backing.wf(),
                    self.push_gate.wf(),
                    target <= self.capacity,
                    self@.capacity <= PERMIT_LIMIT,
                    self@.push.permits == self@.capacity - self@.items.len(),
                    self@.push.waiting == old(self)@.push.waiting,
                    self@.push.waiting.len() == 0,
                    self@.pop.waiting == old(self)@.pop.waiting,
                    self@.pop.waiting.len() == 0,
                    self@.push.next_ticket == old(self)@.push.next_ticket,
                    self@.pop.next_ticket == old(self)@.pop.next_ticket,
                    self@.items.len() <= old(self)@.items.len(),
                    self@.items == old(self)@.items.skip(
                        old(self)@.items.len() - self@.items.len(),
                    ),
                    self@.items.len() == old(self)@.items.len() || self@.items.len() >= target,
                    self@.popped == old(self)@.popped + (old(self)@.items.len()
                        - self@.items.len()),
                    self@.pushed == old(self)@.pushed,
                    self@.available == old(self)@.available - (old(self)@.items.len()
                        - self@.items.len()),
                decreases self.capacity,
            {
                if self.push_gate.try_take() {
                } else {
                    let ghost k = old(self)@.items.len() - self@.items.len();
                    let _discarded = self.backing.pop();
                    proof {
                        assert(old(self)@.items.skip(k).drop_first() =~= old(self)@.items.skip(
                            k + 1,
                        ));
                    }
                }
                self.capacity = self.capacity - 1;
            }
            if self.is_full() {
                notify(&self.notifier_full);
            }
            proof {
                assert(final(self)@ =~= old(self)@.resized_state(target as nat));
            }
        }
    }
}

/// Result and next state of `try_push`, as a pure function of the model.
pub open spec fn spec_try_push(m: Model, item: u64) -> (Model, Result<(), u64>) {
    if m.can_push() {
        (m.pushed_state(item), Ok(()))
    } else {
        (m, Err(item))
    }
}

/// Result and next state of `try_pop`, as a pure function of the model.
pub open spec fn spec_try_pop(m: Model) -> (Model, Option<u64>) {
    if m.can_pop() {
        (m.popped_state(), Some(m.items[0]))
    } else {
        (m, None)
    }
}

/// A resize never loses more than the surplus. Growing — or resizing to the
/// current size — keeps every stored item; shrinking keeps the newest
/// `target` items and discards only the oldest ones, so afterwards the
/// length is the smaller of the old length and the new capacity.
pub proof fn lemma_resize_effect(m: Model, target: nat)
    requires
        m.inv(),
    ensures
        m.resized_state(target).capacity == target,
        m.items.len() <= target ==> m.resized_state(target).items == m.items,
        m.items.len() > target ==> m.resized_state(target).items == m.items.skip(
            m.items.len() - target,
        ),
        m.resized_state(target).items.len() == if m.items.len() <= target {
            m.items.len() as int
        } else {
            target as int
        },
{
    assert(m.items.skip(0) =~= m.items);
}

/// Quiescence: with no consumer parked, the availability counter equals the
/// number of items stored, which in turn equals successful pushes minus
/// successful pops; push permits are the vacant slots under the current
/// capacity and pop permits the stored items.
pub proof fn lemma_quiescent(m: Model)
    requires
        m.inv(),
        m.pop.waiting.len() == 0,
    ensures
        m.available == m.items.len(),
        m.items.len() == m.pushed - m.popped,
        m.push.permits + m.items.len() == m.capacity,
        m.pop.permits == m.items.len(),
{
}

/// No push can succeed on a full queue: when the queue stores `capacity`
/// items, the push gate holds no permit, so neither `try_push` nor a
/// completing `push` is enabled until a pop or a growing resize returns a
/// permit.
pub proof fn lemma_no_push_when_full(m: Model)
    requires
        m.inv(),
        m.items.len() == m.capacity,
    ensures
        m.push.permits == 0,
        !m.can_push(),
{
}

/// At any instant the availability counter is at least the negation of the
/// number of consumers parked inside `pop`, and never exceeds the number of
/// items stored.
pub proof fn lemma_available_bounds(m: Model)
    requires
        m.inv(),
    ensures
        m.available >= -(m.pop.waiting.len() as int),
        m.available <= m.items.len(),
{
}

} // verus!
