//! Trusted interface to the edge notifiers (`tokio::sync::watch`).
//!
//! An edge notifier is a single-slot broadcast channel carrying only the fact
//! "something changed". Publishing overwrites any un-observed prior change,
//! and a receiver resolves the next time a change is published after it
//! subscribed. Waiters therefore always re-check the predicate they care
//! about; nothing about queue state can be learned from a notification, so
//! the wrappers claim nothing.

use vstd::prelude::*;

use tokio::sync::watch;

verus! {

#[verifier::external_type_specification]
#[verifier::external_body]
#[verifier::reject_recursive_types(T)]
pub struct ExWatchSender<T>(watch::Sender<T>);

#[verifier::external_type_specification]
#[verifier::external_body]
#[verifier::reject_recursive_types(T)]
pub struct ExWatchReceiver<T>(watch::Receiver<T>);

/// Relies on `tokio::sync::watch::channel`: creates a notifier with no
/// subscribers yet.
#[verifier::external_body]
pub(crate) fn new_notifier() -> watch::Sender<()> {
    let (sender, _receiver) = watch::channel(());
    sender
}

/// Relies on `tokio::sync::watch::Sender::send_replace`: publishes a change,
/// overwriting any un-observed prior one; never fails.
#[verifier::external_body]
pub(crate) fn notify(notifier: &watch::Sender<()>) {
    let _ = notifier.send_replace(());
}

/// Relies on `tokio::sync::watch::Sender::subscribe`: returns a receiver that
/// sees every change published after this call.
#[verifier::external_body]
pub(crate) fn subscribe(notifier: &watch::Sender<()>) -> watch::Receiver<()> {
    notifier.subscribe()
}

} // verus!
