//! The frame channel between a speaking source and the tracks that replay it.
//!
//! The channel itself is tokio's broadcast channel. Everything that reaches it
//! goes through the few functions of this module, none of which promises
//! anything about what other threads do to the channel.

use std::sync::Arc;
use vstd::prelude::*;

verus! {

/// tokio's `broadcast::Sender`, carried as an opaque value.
#[verifier::external_type_specification]
#[verifier::external_body]
#[verifier::reject_recursive_types(T)]
pub struct ExSender<T>(tokio::sync::broadcast::Sender<T>);

/// tokio's `broadcast::Receiver`, carried as an opaque value.
#[verifier::external_type_specification]
#[verifier::external_body]
#[verifier::reject_recursive_types(T)]
pub struct ExReceiver<T>(tokio::sync::broadcast::Receiver<T>);

/// What one non-blocking look at a subscription found.
#[derive(Debug)]
pub enum Polled {
    /// The next frame.
    Frame(Vec<u8>),
    /// Every sender is gone and nothing is left to read.
    Closed,
    /// This many frames were discarded before they could be read.
    Lagged(u64),
    /// Nothing has arrived yet.
    Empty,
}

/// Calls `tokio::sync::broadcast::channel` and keeps the sending half; the
/// receiving half it is created with is dropped at once. tokio panics on a
/// capacity of zero or above `usize::MAX / 2`, which the precondition leaves
/// out. Nothing is claimed of the sender.
#[verifier::external_body]
pub(crate) fn open_channel(depth: usize) -> (tx: tokio::sync::broadcast::Sender<Arc<[u8]>>)
    requires
        0 < depth <= usize::MAX / 2,
{
    tokio::sync::broadcast::channel(depth).0
}

/// Calls `Sender::receiver_count`. The number depends on what subscribers
/// exist at that instant, so nothing is claimed of it.
#[verifier::external_body]
pub(crate) fn listener_count(tx: &tokio::sync::broadcast::Sender<Arc<[u8]>>) -> (count: usize) {
    tx.receiver_count()
}

/// Calls `Sender::send` with a copy of `frame`. Gives the number of
/// subscribers the frame was queued for, or nothing where there was none.
/// Nothing is claimed of the result.
#[verifier::external_body]
pub(crate) fn publish(tx: &tokio::sync::broadcast::Sender<Arc<[u8]>>, frame: &Vec<u8>) -> (queued: Option<usize>) {
    tx.send(Arc::from(frame.as_slice())).ok()
}

/// Calls `Sender::subscribe`. Nothing is claimed of the new receiver.
#[verifier::external_body]
pub(crate) fn subscribe_to(tx: &tokio::sync::broadcast::Sender<Arc<[u8]>>) -> (rx: tokio::sync::broadcast::Receiver<Arc<[u8]>>) {
    tx.subscribe()
}

/// Calls `Receiver::try_recv` and tells its four outcomes apart, copying a
/// received frame into a vector. Which outcome comes depends on the senders,
/// so nothing is claimed of the result.
#[verifier::external_body]
pub(crate) fn poll(rx: &mut tokio::sync::broadcast::Receiver<Arc<[u8]>>) -> (polled: Polled) {
    match rx.try_recv() {
        Ok(frame) => Polled::Frame(frame.to_vec()),
        Err(tokio::sync::broadcast::error::TryRecvError::Closed) => Polled::Closed,
        Err(tokio::sync::broadcast::error::TryRecvError::Lagged(missed)) => Polled::Lagged(missed),
        Err(tokio::sync::broadcast::error::TryRecvError::Empty) => Polled::Empty,
    }
}

} // verus!
