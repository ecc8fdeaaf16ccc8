//! In-memory multi-producer / multi-consumer queues with backpressure,
//! introspection and live resizing.
//!
//! Three variants are provided, all sharing the same basic shape:
//!
//! - [`unlimited::Queue`]: unbounded, producers never wait.
//! - [`limited::Queue`]: fixed capacity, producers wait when the queue is full.
//! - [`resizable::Queue`]: bounded by a capacity that can be grown or shrunk
//!   at runtime.
//!
//! The queues are built from a lock-free FIFO (`crossbeam_queue`), fair permit
//! gates (`tokio::sync::Semaphore`) and edge notifiers (`tokio::sync::watch`).
//! The coordination layer on top of those pieces — the signed availability
//! counter with its transactional decrement, the permit accounting that ties
//! gate permits to vacant slots and stored items, waiter fairness, and the
//! resize protocol — is specified and verified here against a sequential
//! model of each queue. Suspension itself is the runtime's business: every
//! operation that would wait is split into a non-waiting completion step and
//! explicit park / finish / cancel steps, which an asynchronous shell drives.

pub mod atomic;
pub mod fifo;
pub mod gate;
pub mod limited;
pub mod notify;
pub mod resizable;
pub mod unlimited;
