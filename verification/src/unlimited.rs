//! Queue that is unlimited in size.
//!
//! Backed by an unbounded lock-free FIFO. Producers never wait and never
//! fail; consumers wait when the queue is empty. The queue keeps a signed
//! availability counter (items present minus consumers parked) and an edge
//! notifier that rings when the queue drains to empty.
//!
//! Waiting itself belongs to the asynchronous shell: `pop` here is the
//! non-waiting completion step, and a consumer that cannot complete parks
//! explicitly with [`Queue::pop_park`], to be resumed with
//! [`Queue::pop_finish`] or abandoned with [`Queue::pop_cancel`].

use vstd::prelude::*;

use crossbeam_queue::SegQueue;
use tokio::sync::watch;

use crate::atomic::Available;
use crate::atomic::TransactionSub;
use crate::fifo::seg_is_empty;
use crate::fifo::seg_items;
use crate::fifo::seg_len;
use crate::fifo::seg_new;
use crate::fifo::seg_pop;
use crate::fifo::seg_push;
use crate::gate::Gate;
use crate::gate::GateModel;
use crate::gate::GateWaiter;
use crate::gate::PERMIT_LIMIT;
use crate::notify::new_notifier;
use crate::notify::notify;
use crate::notify::subscribe;
use vstd::pervasive::unreached;

verus! {

/// Mathematical state of an unlimited queue: the stored items (head first),
/// the pop gate, the availability counter, and how many pushes and pops have
/// completed since construction (items present at construction count as
/// pushes).
#[verifier::ext_equal]
pub ghost struct Model {
    pub items: Seq<u64>,
    pub pop: GateModel,
    pub available: int,
    pub pushed: nat,
    pub popped: nat,
}

impl Model {
    /// Steady-state invariant of the coordination layer:
    /// the pop gate holds one permit per stored item, and the availability
    /// counter equals items present minus consumers parked.
    pub open spec fn inv(self) -> bool {
        &&& self.pop.inv()
        &&& self.pop.permits == self.items.len()
        &&& self.available == self.items.len() - self.pop.waiting.len()
        &&& self.pop.waiting.len() <= isize::MAX
        &&& self.popped <= self.pushed
        &&& self.items.len() == self.pushed - self.popped
    }
}

/// A consumer that began `pop`, could not complete immediately, and parked.
///
/// It owns the availability reservation (so `available` already counts it)
/// and a gate ticket. The asynchronous shell resumes it through
/// [`Queue::pop_finish`] or cancels it through [`Queue::pop_cancel`].
pub struct PopWait {
    txn: TransactionSub,
    waiter: GateWaiter,
    reserved: isize,
}

impl View for PopWait {
    type V = nat;

    closed spec fn view(&self) -> nat {
        self.waiter@
    }
}

/// Queue that is unlimited in size.
pub struct Queue {
    fifo: SegQueue<u64>,
    pop_gate: Gate,
    available: Available,
    notifier_empty: watch::Sender<()>,
    pushed: Ghost<nat>,
    popped: Ghost<nat>,
}

impl View for Queue {
    type V = Model;

    closed spec fn view(&self) -> Model {
        Model {
            items: seg_items(self.fifo),
            pop: self.pop_gate@,
            available: self.available.value(),
            pushed: self.pushed@,
            popped: self.popped@,
        }
    }
}

impl Queue {
    /// The private tie between the queue and its gate.
    pub closed spec fn gates_ok(&self) -> bool {
        self.pop_gate.wf()
    }

    /// The queue is well formed: its gate is in step with its semaphore and
    /// the model invariant holds.
    pub open spec fn wf(&self) -> bool {
        &&& self.gates_ok()
        &&& self@.inv()
    }

    /// Create a new empty queue.
    pub fn new() -> (q: Queue)
        ensures
            q.wf(),
            q@ == (Model {
                items: Seq::<u64>::empty(),
                pop: (GateModel { permits: 0, waiting: Seq::<nat>::empty(), next_ticket: 0 }),
                available: 0,
                pushed: 0,
                popped: 0,
            }),
    {
        Queue {
            fifo: seg_new(),
            pop_gate: Gate::new(0),
            available: Available::new(0),
            notifier_empty: new_notifier(),
            pushed: Ghost(0),
            popped: Ghost(0),
        }
    }

    /// Create a queue pre-filled with `items`, in order; the availability
    /// counter and the pop gate start at the item count.
    pub fn from(items: Vec<u64>) -> (q: Queue)
        requires
            items@.len() <= PERMIT_LIMIT,
        ensures
            q.wf(),
            q@ == from_state(items@),
    {
        let mut fifo = seg_new();
        let n = items.len();
        let mut i: usize = 0;
        while i < n
            invariant
                n == items@.len(),
                i <= n,
                seg_items(fifo) == items@.take(i as int),
            decreases n - i,
        {
            seg_push(&mut fifo, items[i]);
            proof {
                assert(items@.take(i + 1) =~= items@.take(i as int).push(items@[i as int]));
            }
            i = i + 1;
        }
        proof {
            assert(items@.take(n as int) =~= items@);
        }
        Queue {
            fifo,
            pop_gate: Gate::new(n),
            available: Available::new(n as isize),
            notifier_empty: new_notifier(),
            pushed: Ghost(n as nat),
            popped: Ghost(0),
        }
    }

    /// Enqueue an item. Producers never wait and never fail on an unlimited
    /// queue.
    pub fn push(&mut self, item: u64)
        requires
            old(self).wf(),
            old(self)@.items.len() < PERMIT_LIMIT,
        ensures
            final(self).wf(),
            final(self)@ == (Model {
                items: old(self)@.items.push(item),
                pop: (GateModel {
                    permits: (old(self)@.pop.permits + 1) as nat,
                    waiting: old(self)@.pop.waiting,
                    next_ticket: old(self)@.pop.next_ticket,
                }),
                available: old(self)@.available + 1,
                pushed: old(self)@.pushed + 1,
                popped: old(self)@.popped,
            }),
    {
        seg_push(&mut self.fifo, item);
        self.pop_gate.give(1);
        let _ = self.available.add();
        self.pushed = Ghost(self.pushed@ + 1);
    }

    /// Dequeue the head item: the non-waiting completion of `pop`. It
    /// applies when an item is present and no earlier consumer is parked;
    /// otherwise the consumer parks via [`Queue::pop_park`].
    pub fn pop(&mut self) -> (item: u64)
        requires
            old(self).wf(),
            old(self)@.items.len() > 0,
            old(self)@.pop.waiting.len() == 0,
        ensures
            final(self).wf(),
            item == old(self)@.items[0],
            final(self)@ == (Model {
                items: old(self)@.items.drop_first(),
                pop: (GateModel {
                    permits: (old(self)@.pop.permits - 1) as nat,
                    waiting: old(self)@.pop.waiting,
                    next_ticket: old(self)@.pop.next_ticket,
                }),
                available: old(self)@.available - 1,
                pushed: old(self)@.pushed,
                popped: old(self)@.popped + 1,
            }),
    {
        let (txn, new_len) = self.available.sub();
        let _took = self.pop_gate.try_take();
        let item = match seg_pop(&mut self.fifo) {
            Some(v) => v,
            None => unreached(),
        };
        txn.commit();
        if new_len <= 0 {
            notify(&self.notifier_empty);
        }
        self.popped = Ghost(self.popped@ + 1);
        item
    }

    /// Try to dequeue without waiting: succeeds exactly when an item is
    /// present and no earlier consumer is parked. On failure the speculative
    /// availability reservation rolls back, so the counter is unchanged net.
    pub fn try_pop(&mut self) -> (r: Option<u64>)
        requires
            old(self).wf(),
        ensures
            final(self).wf(),
            old(self)@.items.len() > 0 && old(self)@.pop.waiting.len() == 0 ==> r == Some(
                old(self)@.items[0],
            ) && final(self)@ == (Model {
                items: old(self)@.items.drop_first(),
                pop: (GateModel {
                    permits: (old(self)@.pop.permits - 1) as nat,
                    waiting: old(self)@.pop.waiting,
                    next_ticket: old(self)@.pop.next_ticket,
                }),
                available: old(self)@.available - 1,
                pushed: old(self)@.pushed,
                popped: old(self)@.popped + 1,
            }),
            !(old(self)@.items.len() > 0 && old(self)@.pop.waiting.len() == 0) ==> r is None
                && final(self)@ == old(self)@,
            (final(self)@, r) == spec_try_pop(old(self)@),
    {
        let (txn, new_len) = self.available.sub();
        if self.pop_gate.try_take() {
            let item = match seg_pop(&mut self.fifo) {
                Some(v) => v,
                None => unreached(),
            };
            txn.commit();
            if new_len <= 0 {
                notify(&self.notifier_empty);
            }
            self.popped = Ghost(self.popped@ + 1);
            Some(item)
        } else {
            txn.rollback(&mut self.available);
            None
        }
    }

    /// Begin a `pop` that cannot complete now: lower the availability
    /// counter — so `available` counts this parked consumer — and register
    /// on the pop gate.
    pub fn pop_park(&mut self) -> (w: PopWait)
        requires
            old(self).wf(),
            old(self)@.items.len() == 0 || old(self)@.pop.waiting.len() > 0,
            old(self)@.pop.waiting.len() < isize::MAX,
        ensures
            final(self).wf(),
            w@ == old(self)@.pop.next_ticket,
            final(self)@ == (Model {
                items: old(self)@.items,
                pop: (GateModel {
                    permits: old(self)@.pop.permits,
                    waiting: old(self)@.pop.waiting.push(old(self)@.pop.next_ticket),
                    next_ticket: old(self)@.pop.next_ticket + 1,
                }),
                available: old(self)@.available - 1,
                pushed: old(self)@.pushed,
                popped: old(self)@.popped,
            }),
    {
        let (txn, new_len) = self.available.sub();
        let waiter = self.pop_gate.park();
        PopWait { txn, waiter, reserved: new_len }
    }

    /// Complete a parked `pop` once an item is present and this waiter is
    /// the earliest registered one. The reservation taken at park time is
    /// committed, so `available` is unchanged by the completion itself.
    pub fn pop_finish(&mut self, w: PopWait) -> (item: u64)
        requires
            old(self).wf(),
            old(self)@.items.len() > 0,
            old(self)@.pop.waiting.len() > 0,
            w@ == old(self)@.pop.waiting[0],
        ensures
            final(self).wf(),
            item == old(self)@.items[0],
            final(self)@ == (Model {
                items: old(self)@.items.drop_first(),
                pop: (GateModel {
                    permits: (old(self)@.pop.permits - 1) as nat,
                    waiting: old(self)@.pop.waiting.drop_first(),
                    next_ticket: old(self)@.pop.next_ticket,
                }),
                available: old(self)@.available,
                pushed: old(self)@.pushed,
                popped: old(self)@.popped + 1,
            }),
    {
        let PopWait { txn, waiter, reserved } = w;
        self.pop_gate.claim(waiter);
        let item = match seg_pop(&mut self.fifo) {
            Some(v) => v,
            None => unreached(),
        };
        txn.commit();
        if reserved <= 0 {
            notify(&self.notifier_empty);
        }
        self.popped = Ghost(self.popped@ + 1);
        item
    }

    /// Abandon a parked `pop`: the cancellation path. The availability
    /// reservation rolls back, leaving the counter unchanged net; the ticket
    /// leaves its wait queue without consuming a permit.
    pub fn pop_cancel(&mut self, w: PopWait)
        requires
            old(self).wf(),
            old(self)@.pop.waiting.contains(w@),
        ensures
            final(self).wf(),
            final(self)@ == (Model {
                items: old(self)@.items,
                pop: (GateModel {
                    permits: old(self)@.pop.permits,
                    waiting: old(self)@.pop.waiting.remove(
                        old(self)@.pop.waiting.index_of(w@),
                    ),
                    next_ticket: old(self)@.pop.next_ticket,
                }),
                available: old(self)@.available + 1,
                pushed: old(self)@.pushed,
                popped: old(self)@.popped,
            }),
    {
        let PopWait { txn, waiter, reserved: _ } = w;
        self.pop_gate.cancel(waiter);
        txn.rollback(&mut self.available);
    }

    /// Current number of items stored.
    pub fn len(&self) -> (n: usize)
        ensures
            n == self@.items.len(),
    {
        seg_len(&self.fifo)
    }

    /// Whether the queue holds no items.
    pub fn is_empty(&self) -> (r: bool)
        ensures
            r == (self@.items.len() == 0),
    {
        seg_is_empty(&self.fifo)
    }

    /// Items present minus consumers parked; a negative reading exposes the
    /// number of consumers waiting inside `pop`.
    pub fn available(&self) -> (r: isize)
        ensures
            r == self@.available,
    {
        self.available.get()
    }

    /// Subscribe to the "queue became empty" edge notifier. The waiting half
    /// of `wait_empty` belongs to the asynchronous shell: check
    /// [`Queue::is_empty`] eagerly first, then await a change on this
    /// receiver and re-check.
    pub fn subscribe_empty(&self) -> watch::Receiver<()> {
        subscribe(&self.notifier_empty)
    }
}

impl Default for Queue {
    /// Same as [`Queue::new`].
    fn default() -> (q: Queue)
        ensures
            q.wf(),
            q@.items.len() == 0,
            q@.available == 0,
            q@.pop.waiting.len() == 0,
    {
        Queue::new()
    }
}

/// The model of a queue freshly built from `items` (see [`Queue::from`]).
pub open spec fn from_state(items: Seq<u64>) -> Model {
    Model {
        items: items,
        pop: GateModel { permits: items.len(), waiting: Seq::empty(), next_ticket: 0 },
        available: items.len() as int,
        pushed: items.len(),
        popped: 0,
    }
}

/// Result and next state of `try_pop`, as a pure function of the model.
pub open spec fn spec_try_pop(m: Model) -> (Model, Option<u64>) {
    if m.items.len() > 0 && m.pop.waiting.len() == 0 {
        (
            Model {
                items: m.items.drop_first(),
                pop: GateModel {
                    permits: (m.pop.permits - 1) as nat,
                    waiting: m.pop.waiting,
                    next_ticket: m.pop.next_ticket,
                },
                available: m.available - 1,
                pushed: m.pushed,
                popped: m.popped + 1,
            },
            Some(m.items[0]),
        )
    } else {
        (m, None)
    }
}

/// The model after `n` successive `try_pop` steps.
pub open spec fn pop_n(m: Model, n: nat) -> Model
    decreases n,
{
    if n == 0 {
        m
    } else {
        spec_try_pop(pop_n(m, (n - 1) as nat)).0
    }
}

/// With no consumer parked, `n` `try_pop` steps all succeed while items
/// remain: they drain the `n` oldest items and lower `available` by `n`.
proof fn lemma_pop_n_state(m: Model, n: nat)
    requires
        m.inv(),
        m.pop.waiting.len() == 0,
        n <= m.items.len(),
    ensures
        pop_n(m, n).inv(),
        pop_n(m, n).items == m.items.skip(n as int),
        pop_n(m, n).pop.waiting == m.pop.waiting,
        pop_n(m, n).available == m.available - n,
    decreases n,
{
    if n == 0 {
        assert(m.items.skip(0) =~= m.items);
    } else {
        lemma_pop_n_state(m, (n - 1) as nat);
        let prev = pop_n(m, (n - 1) as nat);
        assert(prev.items.len() > 0);
        assert(prev.items.drop_first() =~= m.items.skip(n as int));
    }
}

/// Round trip: a queue built from `items` stores exactly `items`, hands
/// them back in order through `items.len()` successful `try_pop` steps, and
/// the next `try_pop` fails.
pub proof fn lemma_round_trip(items: Seq<u64>)
    requires
        items.len() <= PERMIT_LIMIT,
    ensures
        from_state(items).inv(),
        from_state(items).items == items,
        forall|k: nat|
            k < items.len() ==> #[trigger] spec_try_pop(pop_n(from_state(items), k)).1 == Some(
                items[k as int],
            ),
        spec_try_pop(pop_n(from_state(items), items.len())).1 is None,
{
    let m = from_state(items);
    assert(m.inv());
    assert forall|k: nat| k < items.len() implies #[trigger] spec_try_pop(
        pop_n(m, k),
    ).1 == Some(items[k as int]) by {
        lemma_pop_n_state(m, k);
        assert(pop_n(m, k).items == items.skip(k as int));
        assert(items.skip(k as int)[0] == items[k as int]);
    }
    lemma_pop_n_state(m, items.len());
}

/// Quiescence: with no consumer parked, the availability counter equals the
/// number of items stored, which in turn equals successful pushes minus
/// successful pops, and the pop gate holds exactly one permit per item.
pub proof fn lemma_quiescent(m: Model)
    requires
        m.inv(),
        m.pop.waiting.len() == 0,
    ensures
        m.available == m.items.len(),
        m.items.len() == m.pushed - m.popped,
        m.pop.permits == m.items.len(),
{
}

/// At any instant the availability counter is at least the negation of the
/// number of consumers parked inside `pop`, and never exceeds the number of
/// items stored.
pub proof fn lemma_available_bounds(m: Model)
    requires
        m.inv(),
    ensures
        m.available >= -(m.pop.waiting.len() as int),
        m.available <= m.items.len(),
{
}

} // verus!
