//! Queue that is limited in size and does not support resizing.
//!
//! Backed by a fixed-capacity lock-free ring FIFO. Producers wait when the
//! queue is full (backpressure) and consumers wait when it is empty. The
//! coordination layer keeps two fair gates — the push gate holds one permit
//! per vacant slot, the pop gate one permit per stored item — a signed
//! availability counter, and two edge notifiers ("became full", "became
//! empty").
//!
//! Waiting itself belongs to the asynchronous shell: `push` and `pop` here
//! are the non-waiting completion steps, and producers or consumers that
//! cannot complete park explicitly (`push_park` / `pop_park`), to be resumed
//! in registration order or cancelled.

use vstd::prelude::*;

use crossbeam_queue::ArrayQueue;
use tokio::sync::watch;

use crate::atomic::Available;
use crate::atomic::TransactionSub;
use crate::fifo::ring_cap;
use crate::fifo::ring_capacity;
use crate::fifo::ring_is_empty;
use crate::fifo::ring_is_full;
use crate::fifo::ring_items;
use crate::fifo::ring_len;
use crate::fifo::ring_new;
use crate::fifo::ring_pop;
use crate::fifo::ring_push;
use crate::gate::Gate;
use crate::gate::GateModel;
use crate::gate::GateWaiter;
use crate::gate::PERMIT_LIMIT;
use crate::notify::new_notifier;
use crate::notify::notify;
use crate::notify::subscribe;
use vstd::pervasive::unreached;

verus! {

/// Mathematical state of a limited queue: the stored items (head first), the
/// fixed capacity, the two gates, the availability counter, and how many
/// pushes and pops have completed since construction (items present at
/// construction count as pushes).
#[verifier::ext_equal]
pub ghost struct Model {
    pub items: Seq<u64>,
    pub capacity: nat,
    pub push: GateModel,
    pub pop: GateModel,
    pub available: int,
    pub pushed: nat,
    pub popped: nat,
}

impl Model {
    /// Steady-state invariant of the coordination layer: slot conservation
    /// (push permits equal vacant slots), one pop permit per stored item,
    /// and an availability counter equal to items present minus consumers
    /// parked.
    pub open spec fn inv(self) -> bool {
        &&& self.push.inv()
        &&& self.pop.inv()
        &&& 1 <= self.capacity <= PERMIT_LIMIT
        &&& self.items.len() <= self.capacity
        &&& self.push.permits == self.capacity - self.items.len()
        &&& self.pop.permits == self.items.len()
        &&& self.available == self.items.len() - self.pop.waiting.len()
        &&& self.pop.waiting.len() <= isize::MAX
        &&& self.popped <= self.pushed
        &&& self.items.len() == self.pushed - self.popped
    }

    /// A `push` (or `try_push`) can complete right now: a slot is vacant and
    /// no earlier producer is parked.
    pub open spec fn can_push(self) -> bool {
        self.items.len() < self.capacity && self.push.waiting.len() == 0
    }

    /// A `pop` (or `try_pop`) can complete right now: an item is present and
    /// no earlier consumer is parked.
    pub open spec fn can_pop(self) -> bool {
        self.items.len() > 0 && self.pop.waiting.len() == 0
    }

    /// State after a completed push.
    pub open spec fn pushed_state(self, item: u64) -> Model {
        Model {
            items: self.items.push(item),
            capacity: self.capacity,
            push: GateModel {
                permits: (self.push.permits - 1) as nat,
                waiting: self.push.waiting,
                next_ticket: self.push.next_ticket,
            },
            pop: GateModel {
                permits: (self.pop.permits + 1) as nat,
                waiting: self.pop.waiting,
                next_ticket: self.pop.next_ticket,
            },
            available: self.available + 1,
            pushed: self.pushed + 1,
            popped: self.popped,
        }
    }

    /// State after a completed pop.
    pub open spec fn popped_state(self) -> Model {
        Model {
            items: self.items.drop_first(),
            capacity: self.capacity,
            push: GateModel {
                permits: (self.push.permits + 1) as nat,
                waiting: self.push.waiting,
                next_ticket: self.push.next_ticket,
            },
            pop: GateModel {
                permits: (self.pop.permits - 1) as nat,
                waiting: self.pop.waiting,
                next_ticket: self.pop.next_ticket,
            },
            available: self.available - 1,
            pushed: self.pushed,
            popped: self.popped + 1,
        }
    }
}

/// A consumer that began `pop`, could not complete immediately, and parked.
/// It owns the availability reservation (so `available` already counts it)
/// and a pop-gate ticket.
pub struct PopWait {
    txn: TransactionSub,
    waiter: GateWaiter,
    reserved: isize,
}

impl View for PopWait {
    type V = nat;

    closed spec fn view(&self) -> nat {
        self.waiter@
    }
}

/// A producer that began `push` on a full (or contended) queue and parked.
/// It still owns the item it wants to enqueue and a push-gate ticket.
pub struct PushWait {
    waiter: GateWaiter,
    item: u64,
}

impl PushWait {
    /// The push-gate ticket of this parked producer.
    pub closed spec fn ticket(&self) -> nat {
        self.waiter@
    }

    /// The item this producer wants to enqueue.
    pub closed spec fn stored(&self) -> u64 {
        self.item
    }
}

/// Queue that is limited in size and does not support resizing.
pub struct Queue {
    ring: ArrayQueue<u64>,
    push_gate: Gate,
    pop_gate: Gate,
    available: Available,
    notifier_full: watch::Sender<()>,
    notifier_empty: watch::Sender<()>,
    pushed: Ghost<nat>,
    popped: Ghost<nat>,
}

impl View for Queue {
    type V = Model;

    closed spec fn view(&self) -> Model {
        Model {
            items: ring_items(self.ring),
            capacity: ring_cap(self.ring),
            push: self.push_gate@,
            pop: self.pop_gate@,
            available: self.available.value(),
            pushed: self.pushed@,
            popped: self.popped@,
        }
    }
}

impl Queue {
    /// The private tie between the queue and its gates.
    pub closed spec fn gates_ok(&self) -> bool {
        &&& self.push_gate.wf()
        &&& self.pop_gate.wf()
    }

    /// The queue is well formed: both gates are in step with their
    /// semaphores and the model invariant holds.
    pub open spec fn wf(&self) -> bool {
        &&& self.gates_ok()
        &&& self@.inv()
    }

    /// Create a new empty queue holding up to `max_size` items.
    pub fn new(max_size: usize) -> (q: Queue)
        requires
            1 <= max_size <= PERMIT_LIMIT,
        ensures
            q.wf(),
            q@ == (Model {
                items: Seq::<u64>::empty(),
                capacity: max_size as nat,
                push: (GateModel {
                    permits: max_size as nat,
                    waiting: Seq::<nat>::empty(),
                    next_ticket: 0,
                }),
                pop: (GateModel { permits: 0, waiting: Seq::<nat>::empty(), next_ticket: 0 }),
                available: 0,
                pushed: 0,
                popped: 0,
            }),
    {
        Queue {
            ring: ring_new(max_size),
            push_gate: Gate::new(max_size),
            pop_gate: Gate::new(0),
            available: Available::new(0),
            notifier_full: new_notifier(),
            notifier_empty: new_notifier(),
            pushed: Ghost(0),
            popped: Ghost(0),
        }
    }

    /// Create a queue pre-filled with `items`, in order; the capacity equals
    /// the item count, so the queue starts full.
    pub fn from(items: Vec<u64>) -> (q: Queue)
        requires
            1 <= items@.len() <= PERMIT_LIMIT,
        ensures
            q.wf(),
            q@ == from_state(items@),
    {
        let n = items.len();
        let mut ring = ring_new(n);
        let mut i: usize = 0;
        while i < n
            invariant
                n == items@.len(),
                1 <= n <= PERMIT_LIMIT,
                i <= n,
                ring_cap(ring) == n,
                ring_items(ring) == items@.take(i as int),
            decreases n - i,
        {
            let pushed = ring_push(&mut ring, items[i]);
            proof {
                assert(items@.take(i + 1) =~= items@.take(i as int).push(items@[i as int]));
            }
            if pushed.is_err() {
                unreached::<()>();
            }
            i = i + 1;
        }
        proof {
            assert(items@.take(n as int) =~= items@);
        }
        Queue {
            ring,
            push_gate: Gate::new(0),
            pop_gate: Gate::new(n),
            available: Available::new(n as isize),
            notifier_full: new_notifier(),
            notifier_empty: new_notifier(),
            pushed: Ghost(n as nat),
            popped: Ghost(0),
        }
    }

    /// Enqueue an item: the non-waiting completion of `push`. It applies
    /// when a slot is vacant and no earlier producer is parked; otherwise
    /// the producer parks via [`Queue::push_park`].
    pub fn push(&mut self, item: u64)
        requires
            old(self).wf(),
            old(self)@.can_push(),
        ensures
            final(self).wf(),
            final(self)@ == old(self)@.pushed_state(item),
    {
        let taken = self.push_gate.try_take();
        if !taken {
            unreached::<()>();
        }
        self.enqueue(item);
    }

    /// Try to enqueue without waiting: succeeds exactly when a slot is
    /// vacant and no earlier producer is parked; on failure the rejected
    /// item comes back to the caller unchanged.
    pub fn try_push(&mut self, item: u64) -> (r: Result<(), u64>)
        requires
            old(self).wf(),
        ensures
            final(self).wf(),
            old(self)@.can_push() ==> r is Ok && final(self)@ == old(self)@.pushed_state(item),
            !old(self)@.can_push() ==> r is Err && r->Err_0 == item && final(self)@ == old(self)@,
            (final(self)@, r) == spec_try_push(old(self)@, item),
    {
        if self.push_gate.try_take() {
            self.enqueue(item);
            Ok(())
        } else {
            Err(item)
        }
    }

    /// Shared tail of a completed push: the push permit has already been
    /// consumed-without-release (the slot now belongs to the item).
    fn enqueue(&mut self, item: u64)
        requires
            old(self).wf_except_push_permit(),
            old(self)@.items.len() < old(self)@.capacity,
            old(self)@.push.permits == old(self)@.capacity - old(self)@.items.len() - 1,
        ensures
            final(self).wf(),
            final(self)@ == (Model {
                items: old(self)@.items.push(item),
                capacity: old(self)@.capacity,
                push: old(self)@.push,
                pop: (GateModel {
                    permits: (old(self)@.pop.permits + 1) as nat,
                    waiting: old(self)@.pop.waiting,
                    next_ticket: old(self)@.pop.next_ticket,
                }),
                available: old(self)@.available + 1,
                pushed: old(self)@.pushed + 1,
                popped: old(self)@.popped,
            }),
    {
        let new_len = self.available.add();
        let pushed = ring_push(&mut self.ring, item);
        if pushed.is_err() {
            unreached::<()>();
        }
        let cap = ring_capacity(&self.ring);
        if new_len >= cap as isize {
            notify(&self.notifier_full);
        }
        self.pop_gate.give(1);
        self.pushed = Ghost(self.pushed@ + 1);
    }

    /// Like [`Queue::wf`], but with one push permit already withdrawn and
    /// not yet turned into an item.
    spec fn wf_except_push_permit(&self) -> bool {
        &&& self.push_gate.wf()
        &&& self.pop_gate.wf()
        &&& self@.pop.inv()
        &&& 1 <= self@.capacity <= PERMIT_LIMIT
        &&& self@.items.len() <= self@.capacity
        &&& self@.pop.permits == self@.items.len()
        &&& self@.available == self@.items.len() - self@.pop.waiting.len()
        &&& self@.pop.waiting.len() <= isize::MAX
        &&& self@.popped <= self@.pushed
        &&& self@.items.len() == self@.pushed - self@.popped
    }

    /// Register a producer on the push gate: the beginning of a `push` that
    /// cannot complete now. The parked producer keeps its item; nothing else
    /// changes until it is finished or cancelled.
    pub fn push_park(&mut self, item: u64) -> (w: PushWait)
        requires
            old(self).wf(),
            !old(self)@.can_push(),
            old(self)@.push.waiting.len() < usize::MAX,
        ensures
            final(self).wf(),
            w.ticket() == old(self)@.push.next_ticket,
            w.stored() == item,
            final(self)@ == (Model {
                items: old(self)@.items,
                capacity: old(self)@.capacity,
                push: (GateModel {
                    permits: old(self)@.push.permits,
                    waiting: old(self)@.push.waiting.push(old(self)@.push.next_ticket),
                    next_ticket: old(self)@.push.next_ticket + 1,
                }),
                pop: old(self)@.pop,
                available: old(self)@.available,
                pushed: old(self)@.pushed,
                popped: old(self)@.popped,
            }),
    {
        let waiter = self.push_gate.park();
        PushWait { waiter, item }
    }

    /// Complete a parked `push` once a slot is vacant and this producer is
    /// the earliest registered one.
    pub fn push_finish(&mut self, w: PushWait)
        requires
            old(self).wf(),
            old(self)@.items.len() < old(self)@.capacity,
            old(self)@.push.waiting.len() > 0,
            w.ticket() == old(self)@.push.waiting[0],
        ensures
            final(self).wf(),
            final(self)@ == (Model {
                items: old(self)@.items.push(w.stored()),
                capacity: old(self)@.capacity,
                push: (GateModel {
                    permits: (old(self)@.push.permits - 1) as nat,
                    waiting: old(self)@.push.waiting.drop_first(),
                    next_ticket: old(self)@.push.next_ticket,
                }),
                pop: (GateModel {
                    permits: (old(self)@.pop.permits + 1) as nat,
                    waiting: old(self)@.pop.waiting,
                    next_ticket: old(self)@.pop.next_ticket,
                }),
                available: old(self)@.available + 1,
                pushed: old(self)@.pushed + 1,
                popped: old(self)@.popped,
            }),
    {
        let PushWait { waiter, item } = w;
        self.push_gate.claim(waiter);
        self.enqueue(item);
    }

    /// Abandon a parked `push`: the cancellation path. The item comes back
    /// to the caller; capacity accounting is unchanged.
    pub fn push_cancel(&mut self, w: PushWait) -> (item: u64)
        requires
            old(self).wf(),
            old(self)@.push.waiting.contains(w.ticket()),
        ensures
            final(self).wf(),
            item == w.stored(),
            final(self)@ == (Model {
                items: old(self)@.items,
                capacity: old(self)@.capacity,
                push: (GateModel {
                    permits: old(self)@.push.permits,
                    waiting: old(self)@.push.waiting.remove(
                        old(self)@.push.waiting.index_of(w.ticket()),
                    ),
                    next_ticket: old(self)@.push.next_ticket,
                }),
                pop: old(self)@.pop,
                available: old(self)@.available,
                pushed: old(self)@.pushed,
                popped: old(self)@.popped,
            }),
    {
        let PushWait { waiter, item } = w;
        self.push_gate.cancel(waiter);
        item
    }

    /// Dequeue the head item: the non-waiting completion of `pop`. It
    /// applies when an item is present and no earlier consumer is parked;
    /// otherwise the consumer parks via [`Queue::pop_park`].
    pub fn pop(&mut self) -> (item: u64)
        requires
            old(self).wf(),
            old(self)@.can_pop(),
        ensures
            final(self).wf(),
            item == old(self)@.items[0],
            final(self)@ == old(self)@.popped_state(),
    {
        let (txn, new_len) = self.available.sub();
        let _took = self.pop_gate.try_take();
        let item = self.dequeue(txn, new_len);
        item
    }

    /// Try to dequeue without waiting: succeeds exactly when an item is
    /// present and no earlier consumer is parked. On failure the speculative
    /// availability reservation rolls back, so the counter is unchanged net.
    pub fn try_pop(&mut self) -> (r: Option<u64>)
        requires
            old(self).wf(),
        ensures
            final(self).wf(),
            old(self)@.can_pop() ==> r == Some(old(self)@.items[0]) && final(self)@ == old(
                self,
            )@.popped_state(),
            !old(self)@.can_pop() ==> r is None && final(self)@ == old(self)@,
            (final(self)@, r) == spec_try_pop(old(self)@),
    {
        let (txn, new_len) = self.available.sub();
        if self.pop_gate.try_take() {
            let item = self.dequeue(txn, new_len);
            Some(item)
        } else {
            txn.rollback(&mut self.available);
            None
        }
    }

    /// Shared tail of a completed pop: the pop permit has already been
    /// consumed-without-release (the item is gone, not the slot), and the
    /// availability decrement `txn` is pending with post-decrement value
    /// `new_len`.
    fn dequeue(&mut self, txn: TransactionSub, new_len: isize) -> (item: u64)
        requires
            old(self).wf_except_pop_permit(),
            old(self)@.items.len() > 0,
            old(self)@.pop.permits == old(self)@.items.len() - 1,
            old(self)@.available == old(self)@.items.len() - 1 - old(self)@.pop.waiting.len(),
        ensures
            final(self).wf(),
            item == old(self)@.items[0],
            final(self)@ == (Model {
                items: old(self)@.items.drop_first(),
                capacity: old(self)@.capacity,
                push: (GateModel {
                    permits: (old(self)@.push.permits + 1) as nat,
                    waiting: old(self)@.push.waiting,
                    next_ticket: old(self)@.push.next_ticket,
                }),
                pop: old(self)@.pop,
                available: old(self)@.available,
                pushed: old(self)@.pushed,
                popped: old(self)@.popped + 1,
            }),
    {
        let item = match ring_pop(&mut self.ring) {
            Some(v) => v,
            None => unreached(),
        };
        txn.commit();
        if new_len <= 0 {
            notify(&self.notifier_empty);
        }
        self.push_gate.give(1);
        self.popped = Ghost(self.popped@ + 1);
        item
    }

    /// Like [`Queue::wf`], but with one pop permit already withdrawn and the
    /// matching availability decrement still pending.
    spec fn wf_except_pop_permit(&self) -> bool {
        &&& self.push_gate.wf()
        &&& self.pop_gate.wf()
        &&& self@.push.inv()
        &&& 1 <= self@.capacity <= PERMIT_LIMIT
        &&& self@.items.len() <= self@.capacity
        &&& self@.push.permits == self@.capacity - self@.items.len()
        &&& self@.pop.waiting.len() <= isize::MAX
        &&& self@.popped <= self@.pushed
        &&& self@.items.len() == self@.pushed - self@.popped
    }

    /// Begin a `pop` that cannot complete now: lower the availability
    /// counter — so `available` counts this parked consumer — and register
    /// on the pop gate.
    pub fn pop_park(&mut self) -> (w: PopWait)
        requires
            old(self).wf(),
            !old(self)@.can_pop(),
            old(self)@.pop.waiting.len() < isize::MAX,
        ensures
            final(self).wf(),
            w@ == old(self)@.pop.next_ticket,
            final(self)@ == (Model {
                items: old(self)@.items,
                capacity: old(self)@.capacity,
                push: old(self)@.push,
                pop: (GateModel {
                    permits: old(self)@.pop.permits,
                    waiting: old(self)@.pop.waiting.push(old(self)@.pop.next_ticket),
                    next_ticket: old(self)@.pop.next_ticket + 1,
                }),
                available: old(self)@.available - 1,
                pushed: old(self)@.pushed,
                popped: old(self)@.popped,
            }),
    {
        let (txn, new_len) = self.available.sub();
        let waiter = self.pop_gate.park();
        PopWait { txn, waiter, reserved: new_len }
    }

    /// Complete a parked `pop` once an item is present and this waiter is
    /// the earliest registered one. The reservation taken at park time is
    /// committed, so `available` is unchanged by the completion itself.
    pub fn pop_finish(&mut self, w: PopWait) -> (item: u64)
        requires
            old(self).wf(),
            old(self)@.items.len() > 0,
            old(self)@.pop.waiting.len() > 0,
            w@ == old(self)@.pop.waiting[0],
        ensures
            final(self).wf(),
            item == old(self)@.items[0],
            final(self)@ == (Model {
                items: old(self)@.items.drop_first(),
                capacity: old(self)@.capacity,
                push: (GateModel {
                    permits: (old(self)@.push.permits + 1) as nat,
                    waiting: old(self)@.push.waiting,
                    next_ticket: old(self)@.push.next_ticket,
                }),
                pop: (GateModel {
                    permits: (old(self)@.pop.permits - 1) as nat,
                    waiting: old(self)@.pop.waiting.drop_first(),
                    next_ticket: old(self)@.pop.next_ticket,
                }),
                available: old(self)@.available,
                pushed: old(self)@.pushed,
                popped: old(self)@.popped + 1,
            }),
    {
        let PopWait { txn, waiter, reserved } = w;
        self.pop_gate.claim(waiter);
        let item = self.dequeue(txn, reserved);
        item
    }

    /// Abandon a parked `pop`: the cancellation path. The availability
    /// reservation rolls back, leaving the counter unchanged net; the ticket
    /// leaves its wait queue without consuming a permit.
    pub fn pop_cancel(&mut self, w: PopWait)
        requires
            old(self).wf(),
            old(self)@.pop.waiting.contains(w@),
        ensures
            final(self).wf(),
            final(self)@ == (Model {
                items: old(self)@.items,
                capacity: old(self)@.capacity,
                push: old(self)@.push,
                pop: (GateModel {
                    permits: old(self)@.pop.permits,
                    waiting: old(self)@.pop.waiting.remove(
                        old(self)@.pop.waiting.index_of(w@),
                    ),
                    next_ticket: old(self)@.pop.next_ticket,
                }),
                available: old(self)@.available + 1,
                pushed: old(self)@.pushed,
                popped: old(self)@.popped,
            }),
    {
        let PopWait { txn, waiter, reserved: _ } = w;
        self.pop_gate.cancel(waiter);
        txn.rollback(&mut self.available);
    }

    /// Capacity: the maximum number of items the queue can store.
    pub fn capacity(&self) -> (n: usize)
        ensures
            n == self@.capacity,
    {
        ring_capacity(&self.ring)
    }

    /// Current number of items stored.
    pub fn len(&self) -> (n: usize)
        ensures
            n == self@.items.len(),
    {
        ring_len(&self.ring)
    }

    /// Whether the queue holds no items.
    pub fn is_empty(&self) -> (r: bool)
        ensures
            r == (self@.items.len() == 0),
    {
        ring_is_empty(&self.ring)
    }

    /// Whether the queue is at capacity.
    pub fn is_full(&self) -> (r: bool)
        ensures
            r == (self@.items.len() == self@.capacity),
    {
        ring_is_full(&self.ring)
    }

    /// Items present minus consumers parked; a negative reading exposes the
    /// number of consumers waiting inside `pop`.
    pub fn available(&self) -> (r: isize)
        ensures
            r == self@.available,
    {
        self.available.get()
    }

    /// Subscribe to the "queue became full" edge notifier. The waiting half
    /// of `wait_full` belongs to the asynchronous shell: compare
    /// [`Queue::len`] with [`Queue::capacity`] eagerly first, then await a
    /// change on this receiver and re-check.
    pub fn subscribe_full(&self) -> watch::Receiver<()> {
        subscribe(&self.notifier_full)
    }

    /// Subscribe to the "queue became empty" edge notifier. The waiting half
    /// of `wait_empty` belongs to the asynchronous shell: check
    /// [`Queue::is_empty`] eagerly first, then await a change on this
    /// receiver and re-check.
    pub fn subscribe_empty(&self) -> watch::Receiver<()> {
        subscribe(&self.notifier_empty)
    }
}

/// The model of a queue freshly built from `items` (see [`Queue::from`]):
/// full at a capacity equal to the item count.
pub open spec fn from_state(items: Seq<u64>) -> Model {
    Model {
        items: items,
        capacity: items.len(),
        push: GateModel { permits: 0, waiting: Seq::empty(), next_ticket: 0 },
        pop: GateModel { permits: items.len(), waiting: Seq::empty(), next_ticket: 0 },
        available: items.len() as int,
        pushed: items.len(),
        popped: 0,
    }
}

/// Result and next state of `try_push`, as a pure function of the model.
pub open spec fn spec_try_push(m: Model, item: u64) -> (Model, Result<(), u64>) {
    if m.can_push() {
        (m.pushed_state(item), Ok(()))
    } else {
        (m, Err(item))
    }
}

/// Result and next state of `try_pop`, as a pure function of the model.
pub open spec fn spec_try_pop(m: Model) -> (Model, Option<u64>) {
    if m.can_pop() {
        (m.popped_state(), Some(m.items[0]))
    } else {
        (m, None)
    }
}

/// The model after `n` successive `try_pop` steps.
pub open spec fn pop_n(m: Model, n: nat) -> Model
    decreases n,
{
    if n == 0 {
        m
    } else {
        spec_try_pop(pop_n(m, (n - 1) as nat)).0
    }
}

/// The model after pushing every element of `xs`, in order.
pub open spec fn push_all(m: Model, xs: Seq<u64>) -> Model
    decreases xs.len(),
{
    if xs.len() == 0 {
        m
    } else {
        push_all(m, xs.drop_last()).pushed_state(xs.last())
    }
}

/// With no consumer parked, `n` `try_pop` steps all succeed while items
/// remain: they drain the `n` oldest items and lower `available` by `n`.
proof fn lemma_pop_n_state(m: Model, n: nat)
    requires
        m.inv(),
        m.pop.waiting.len() == 0,
        n <= m.items.len(),
    ensures
        pop_n(m, n).inv(),
        pop_n(m, n).items == m.items.skip(n as int),
        pop_n(m, n).capacity == m.capacity,
        pop_n(m, n).push.waiting == m.push.waiting,
        pop_n(m, n).pop.waiting == m.pop.waiting,
        pop_n(m, n).available == m.available - n,
        pop_n(m, n).pushed == m.pushed,
        pop_n(m, n).popped == m.popped + n,
    decreases n,
{
    if n == 0 {
        assert(m.items.skip(0) =~= m.items);
    } else {
        lemma_pop_n_state(m, (n - 1) as nat);
        let prev = pop_n(m, (n - 1) as nat);
        assert(prev.can_pop());
        assert(prev.items.drop_first() =~= m.items.skip(n as int));
    }
}

/// With no producer parked and room for all of `xs`, pushing `xs` appends
/// it to the stored items and raises `available` by `xs.len()`.
proof fn lemma_push_all_state(m: Model, xs: Seq<u64>)
    requires
        m.inv(),
        m.push.waiting.len() == 0,
        m.items.len() + xs.len() <= m.capacity,
    ensures
        push_all(m, xs).inv(),
        push_all(m, xs).items == m.items + xs,
        push_all(m, xs).capacity == m.capacity,
        push_all(m, xs).push.waiting == m.push.waiting,
        push_all(m, xs).pop.waiting == m.pop.waiting,
        push_all(m, xs).available == m.available + xs.len(),
        push_all(m, xs).pushed == m.pushed + xs.len(),
        push_all(m, xs).popped == m.popped,
    decreases xs.len(),
{
    if xs.len() == 0 {
        assert(m.items + xs =~= m.items);
    } else {
        lemma_push_all_state(m, xs.drop_last());
        let prev = push_all(m, xs.drop_last());
        assert(prev.can_push());
        assert((m.items + xs.drop_last()).push(xs.last()) =~= m.items + xs);
    }
}

/// Round trip: a queue built from `items` stores exactly `items`, hands
/// them back in order through `items.len()` successful `try_pop` steps, and
/// the next `try_pop` fails.
pub proof fn lemma_round_trip(items: Seq<u64>)
    requires
        1 <= items.len() <= PERMIT_LIMIT,
    ensures
        from_state(items).inv(),
        from_state(items).items == items,
        forall|k: nat|
            k < items.len() ==> #[trigger] spec_try_pop(pop_n(from_state(items), k)).1 == Some(
                items[k as int],
            ),
        spec_try_pop(pop_n(from_state(items), items.len())).1 is None,
{
    let m = from_state(items);
    assert(m.inv());
    assert forall|k: nat| k < items.len() implies #[trigger] spec_try_pop(
        pop_n(m, k),
    ).1 == Some(items[k as int]) by {
        lemma_pop_n_state(m, k);
        assert(pop_n(m, k).items == items.skip(k as int));
        assert(pop_n(m, k).can_pop());
        assert(items.skip(k as int)[0] == items[k as int]);
    }
    lemma_pop_n_state(m, items.len());
}

/// A balanced batch leaves `available` where it started: from a quiescent
/// state with room for `xs`, pushing all of `xs` and then popping the same
/// number of items returns the availability counter to its starting value,
/// the pops having drained the `xs.len()` oldest items.
pub proof fn lemma_balanced_batch(m: Model, xs: Seq<u64>)
    requires
        m.inv(),
        m.push.waiting.len() == 0,
        m.pop.waiting.len() == 0,
        m.items.len() + xs.len() <= m.capacity,
    ensures
        pop_n(push_all(m, xs), xs.len()).available == m.available,
        pop_n(push_all(m, xs), xs.len()).items == (m.items + xs).skip(xs.len() as int),
{
    lemma_push_all_state(m, xs);
    lemma_pop_n_state(push_all(m, xs), xs.len());
}

/// Quiescence: with no consumer parked, the availability counter equals the
/// number of items stored, which in turn equals successful pushes minus
/// successful pops; push permits are the vacant slots and pop permits the
/// stored items.
pub proof fn lemma_quiescent(m: Model)
    requires
        m.inv(),
        m.pop.waiting.len() == 0,
    ensures
        m.available == m.items.len(),
        m.items.len() == m.pushed - m.popped,
        m.push.permits + m.items.len() == m.capacity,
        m.pop.permits == m.items.len(),
{
}

/// No push can succeed on a full queue: when the queue stores `capacity`
/// items, the push gate holds no permit, so neither `try_push` nor a
/// completing `push` is enabled until a pop returns a permit.
pub proof fn lemma_no_push_when_full(m: Model)
    requires
        m.inv(),
        m.items.len() == m.capacity,
    ensures
        m.push.permits == 0,
        !m.can_push(),
{
}

/// At any instant the availability counter is at least the negation of the
/// number of consumers parked inside `pop`, and never exceeds the number of
/// items stored.
pub proof fn lemma_available_bounds(m: Model)
    requires
        m.inv(),
    ensures
        m.available >= -(m.pop.waiting.len() as int),
        m.available <= m.items.len(),
{
}

} // verus!
