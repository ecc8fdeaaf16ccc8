//! Fair permit gates built on `tokio::sync::Semaphore`.
//!
//! A gate guards admission to a resource: owning a permit means owning one
//! slot's worth of it. The semaphore itself is an external collaborator; this
//! module wraps it and adds the one thing the queues need to reason about on
//! top of raw permit counts: *fair waiting*. A task that cannot take a permit
//! immediately registers as a waiter and receives a ticket; tickets are
//! served strictly in registration order. In the sequential model a waiting
//! future is represented by an explicit [`GateWaiter`] value, and the
//! asynchronous shell decides when a waiter resumes.

use vstd::prelude::*;

use tokio::sync::Semaphore;

verus! {

#[verifier::external_type_specification]
#[verifier::external_body]
pub struct ExSemaphore(Semaphore);

/// The number of unassigned permits a semaphore currently holds.
pub uninterp spec fn sem_permits(sem: Semaphore) -> nat;

/// Whether a semaphore has been closed. Nothing here ever closes one; the
/// wrappers record that they preserve openness so that `try_acquire` can only
/// fail for want of permits.
pub uninterp spec fn sem_closed(sem: Semaphore) -> bool;

/// Upper bound this library places on permit counts, and so on queue
/// capacities: comfortably below `tokio::sync::Semaphore::MAX_PERMITS`
/// (`usize::MAX >> 3`) on 32- and 64-bit machines — see
/// [`lemma_permit_limit_is_sound`] — and below `isize::MAX`, so the signed
/// availability counter cannot overflow.
pub const PERMIT_LIMIT: usize = 0x1000_0000;

/// Relies on `tokio::sync::Semaphore::new`: creates an open semaphore with
/// exactly `permits` permits. Panics above the semaphore's own permit
/// bound, which the stricter precondition keeps out of reach.
#[verifier::external_body]
fn sem_new(permits: usize) -> (sem: Semaphore)
    requires
        permits <= PERMIT_LIMIT,
    ensures
        sem_permits(sem) == permits,
        !sem_closed(sem),
{
    Semaphore::new(permits)
}

/// Relies on `tokio::sync::Semaphore::available_permits`.
#[verifier::external_body]
fn sem_available(sem: &Semaphore) -> (n: usize)
    ensures
        n == sem_permits(*sem),
{
    sem.available_permits()
}

/// Relies on `tokio::sync::Semaphore::add_permits`: releases `n` permits.
/// Released permits are assigned to queued acquirers before they reach the
/// available count, but under `&mut` no borrow of the semaphore — hence no
/// queued acquire — can exist, so all `n` land in the available count.
/// Panics if the count would exceed the semaphore's own permit bound, which
/// the stricter precondition keeps out of reach.
#[verifier::external_body]
fn sem_add(sem: &mut Semaphore, n: usize)
    requires
        sem_permits(*old(sem)) + n <= PERMIT_LIMIT,
    ensures
        sem_permits(*final(sem)) == sem_permits(*old(sem)) + n,
        sem_closed(*final(sem)) == sem_closed(*old(sem)),
{
    sem.add_permits(n);
}

/// Relies on `tokio::sync::Semaphore::try_acquire` and
/// `SemaphorePermit::forget`: on an open semaphore, acquisition succeeds
/// exactly when the available count is positive, and forgetting the permit
/// consumes it without returning it, so the count drops by one. The permit
/// never escapes this call, so no later drop can quietly release it.
#[verifier::external_body]
fn sem_try_take(sem: &mut Semaphore) -> (r: bool)
    requires
        !sem_closed(*old(sem)),
    ensures
        r == (sem_permits(*old(sem)) > 0),
        r ==> sem_permits(*final(sem)) == sem_permits(*old(sem)) - 1,
        !r ==> sem_permits(*final(sem)) == sem_permits(*old(sem)),
        sem_closed(*final(sem)) == sem_closed(*old(sem)),
{
    match sem.try_acquire() {
        Ok(permit) => {
            permit.forget();
            true
        },
        Err(_) => false,
    }
}

/// Mathematical state of a gate: the free permit count, the tickets of the
/// waiters still parked (in registration order), and the next ticket to hand
/// out.
#[verifier::ext_equal]
pub ghost struct GateModel {
    pub permits: nat,
    pub waiting: Seq<nat>,
    pub next_ticket: nat,
}

impl GateModel {
    /// Well-formedness: tickets are below the issue counter and strictly
    /// increasing, so the earliest waiter is `waiting[0]`.
    pub open spec fn inv(self) -> bool {
        &&& self.permits <= PERMIT_LIMIT
        &&& forall|i: int| 0 <= i < self.waiting.len() ==> self.waiting[i] < self.next_ticket
        &&& forall|i: int, j: int|
            0 <= i < j < self.waiting.len() ==> self.waiting[i] < self.waiting[j]
    }
}

/// The permit cap stays below the largest permit count a tokio semaphore
/// tolerates, `usize::MAX >> 3`, so the trusted wrappers' preconditions
/// keep every call clear of the semaphore's panic bound.
pub proof fn lemma_permit_limit_is_sound()
    ensures
        PERMIT_LIMIT <= usize::MAX >> 3,
{
    vstd::bits::lemma_usize_shr_is_div(usize::MAX, 3);
    vstd::arithmetic::power2::lemma2_to64();
    assert(usize::MAX >= u32::MAX);
    assert(usize::MAX / 8 >= 0x1000_0000) by (nonlinear_arith)
        requires usize::MAX >= u32::MAX;
}

/// Changing the permit count alone cannot break a gate's well-formedness.
proof fn lemma_inv_same_waiting(a: GateModel, b: GateModel)
    requires
        a.inv(),
        b.waiting == a.waiting,
        b.next_ticket == a.next_ticket,
        b.permits <= PERMIT_LIMIT,
    ensures
        b.inv(),
{
    assert forall|i: int| 0 <= i < b.waiting.len() implies b.waiting[i] < b.next_ticket by {
        assert(a.waiting[i] < a.next_ticket);
    }
    assert forall|i: int, j: int| 0 <= i < j < b.waiting.len() implies b.waiting[i] < b.waiting[j] by {
        assert(a.waiting[i] < a.waiting[j]);
    }
}

/// A registered waiter of a [`Gate`], identified by its ticket.
pub struct GateWaiter {
    ticket: Ghost<nat>,
}

impl View for GateWaiter {
    type V = nat;

    closed spec fn view(&self) -> nat {
        self.ticket@
    }
}

/// A fair permit gate.
pub struct Gate {
    sem: Semaphore,
    waiter_count: usize,
    tickets: Ghost<Seq<nat>>,
    next_ticket: Ghost<nat>,
}

impl View for Gate {
    type V = GateModel;

    closed spec fn view(&self) -> GateModel {
        GateModel {
            permits: sem_permits(self.sem),
            waiting: self.tickets@,
            next_ticket: self.next_ticket@,
        }
    }
}

impl Gate {
    /// Private tie to the underlying semaphore: never closed, and
    /// the waiter count mirrors the ticket queue.
    pub closed spec fn sem_ok(&self) -> bool {
        &&& !sem_closed(self.sem)
        &&& self.waiter_count == self.tickets@.len()
    }

    /// Well-formedness: a valid model, in step with the semaphore.
    pub open spec fn wf(&self) -> bool {
        &&& self@.inv()
        &&& self.sem_ok()
    }

    /// Create a gate holding `permits` free permits and no waiters.
    pub fn new(permits: usize) -> (g: Gate)
        requires
            permits <= PERMIT_LIMIT,
        ensures
            g.wf(),
            g@ == (GateModel { permits: permits as nat, waiting: Seq::<nat>::empty(), next_ticket: 0 }),
    {
        Gate {
            sem: sem_new(permits),
            waiter_count: 0,
            tickets: Ghost(Seq::empty()),
            next_ticket: Ghost(0),
        }
    }

    /// The number of free permits (advisory).
    pub fn permits(&self) -> (n: usize)
        ensures
            n == self@.permits,
    {
        sem_available(&self.sem)
    }

    /// The number of parked waiters.
    pub fn waiters(&self) -> (n: usize)
        requires
            self.wf(),
        ensures
            n == self@.waiting.len(),
    {
        self.waiter_count
    }

    /// Non-blocking acquire-and-consume: takes one permit if one is free and
    /// no earlier waiter is queued ahead (fairness forbids overtaking).
    pub fn try_take(&mut self) -> (r: bool)
        requires
            old(self).wf(),
        ensures
            final(self).wf(),
            r == (old(self)@.permits > 0 && old(self)@.waiting.len() == 0),
            r ==> final(self)@ == (GateModel {
                permits: (old(self)@.permits - 1) as nat,
                waiting: old(self)@.waiting,
                next_ticket: old(self)@.next_ticket,
            }),
            !r ==> final(self)@ == old(self)@,
    {
        if self.waiter_count > 0 {
            false
        } else {
            sem_try_take(&mut self.sem)
        }
    }

    /// Release `n` permits.
    pub fn give(&mut self, n: usize)
        requires
            old(self).wf(),
            old(self)@.permits + n <= PERMIT_LIMIT,
        ensures
            final(self).wf(),
            final(self)@ == (GateModel {
                permits: (old(self)@.permits + n) as nat,
                waiting: old(self)@.waiting,
                next_ticket: old(self)@.next_ticket,
            }),
    {
        sem_add(&mut self.sem, n);
        proof {
            lemma_inv_same_waiting(old(self)@, self@);
        }
    }

    /// Register as a waiter. Allowed exactly when no permit would be served
    /// immediately: no free permit, or earlier waiters queued.
    pub fn park(&mut self) -> (w: GateWaiter)
        requires
            old(self).wf(),
            old(self)@.permits == 0 || old(self)@.waiting.len() > 0,
            old(self)@.waiting.len() < usize::MAX,
        ensures
            final(self).wf(),
            w@ == old(self)@.next_ticket,
            final(self)@ == (GateModel {
                permits: old(self)@.permits,
                waiting: old(self)@.waiting.push(old(self)@.next_ticket),
                next_ticket: old(self)@.next_ticket + 1,
            }),
    {
        let ghost t = self.next_ticket@;
        self.tickets = Ghost(self.tickets@.push(t));
        self.next_ticket = Ghost(t + 1);
        self.waiter_count = self.waiter_count + 1;
        GateWaiter { ticket: Ghost(t) }
    }

    /// Serve the earliest waiter: it takes one free permit and consumes it.
    pub fn claim(&mut self, w: GateWaiter)
        requires
            old(self).wf(),
            old(self)@.permits > 0,
            old(self)@.waiting.len() > 0,
            w@ == old(self)@.waiting[0],
        ensures
            final(self).wf(),
            final(self)@ == (GateModel {
                permits: (old(self)@.permits - 1) as nat,
                waiting: old(self)@.waiting.drop_first(),
                next_ticket: old(self)@.next_ticket,
            }),
    {
        let _took = sem_try_take(&mut self.sem);
        self.waiter_count = self.waiter_count - 1;
        self.tickets = Ghost(self.tickets@.drop_first());
    }

    /// Abandon a parked waiter without serving it: the cancellation path.
    /// Permits are untouched; the ticket simply leaves the queue.
    pub fn cancel(&mut self, w: GateWaiter)
        requires
            old(self).wf(),
            old(self)@.waiting.contains(w@),
        ensures
            final(self).wf(),
            final(self)@ == (GateModel {
                permits: old(self)@.permits,
                waiting: old(self)@.waiting.remove(old(self)@.waiting.index_of(w@)),
                next_ticket: old(self)@.next_ticket,
            }),
    {
        proof {
            let i = self.tickets@.index_of(w@);
            assert(0 <= i < self.tickets@.len());
        }
        self.waiter_count = self.waiter_count - 1;
        self.tickets = Ghost(self.tickets@.remove(self.tickets@.index_of(w@)));
        proof {
            lemma_remove_keeps_order(old(self).tickets@, old(self).tickets@.index_of(w@));
        }
    }
}

/// Removing one element of a strictly increasing sequence keeps it strictly
/// increasing and keeps every element.
proof fn lemma_remove_keeps_order(s: Seq<nat>, k: int)
    requires
        0 <= k < s.len(),
        forall|i: int, j: int| 0 <= i < j < s.len() ==> s[i] < s[j],
    ensures
        forall|i: int, j: int|
            0 <= i < j < s.remove(k).len() ==> s.remove(k)[i] < s.remove(k)[j],
        forall|i: int| 0 <= i < s.remove(k).len() ==> s.contains(s.remove(k)[i]),
{
    let r = s.remove(k);
    assert forall|i: int, j: int| 0 <= i < j < r.len() implies r[i] < r[j] by {
        let si = if i < k { i } else { i + 1 };
        let sj = if j < k { j } else { j + 1 };
        assert(r[i] == s[si]);
        assert(r[j] == s[sj]);
    }
    assert forall|i: int| 0 <= i < r.len() implies s.contains(r[i]) by {
        let si = if i < k { i } else { i + 1 };
        assert(r[i] == s[si]);
    }
}

/// Fairness of a gate: waiters are served strictly in registration order.
/// Tickets grow with registration time, and only the waiter holding the
/// earliest outstanding ticket — `waiting[0]` — can be served next; a waiter
/// registered after another one still parked can therefore not wake first.
pub proof fn lemma_gate_fairness(m: GateModel, earlier: nat, later: nat)
    requires
        m.inv(),
        m.waiting.contains(earlier),
        m.waiting.contains(later),
        earlier < later,
    ensures
        m.waiting[0] <= earlier,
        m.waiting[0] != later,
{
    let i = m.waiting.index_of(earlier);
    let j = m.waiting.index_of(later);
    assert(0 <= i < m.waiting.len());
    assert(0 <= j < m.waiting.len());
    if i > 0 {
        assert(m.waiting[0] < m.waiting[i]);
    }
    if j > 0 {
        assert(m.waiting[0] < m.waiting[j]);
    }
}

} // verus!
