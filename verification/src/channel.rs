//! Channels between control code, the renderer and the collector, kept by the
//! `flume` crate.
//!
//! What a send or a receive yields depends on what the other side of the
//! channel does at the same time, so the functions below promise nothing
//! about it. Callers state what holds for every outcome.

use flume::{Receiver, Sender, TrySendError};
use vstd::prelude::*;

verus! {

/// `flume::Sender`, taken as it is: nothing inside it is visible here.
#[verifier::external_type_specification]
#[verifier::external_body]
#[verifier::reject_recursive_types(T)]
pub struct ExSender<T>(Sender<T>);

/// `flume::Receiver`, taken as it is: nothing inside it is visible here.
#[verifier::external_type_specification]
#[verifier::external_body]
#[verifier::reject_recursive_types(T)]
pub struct ExReceiver<T>(Receiver<T>);

/// A value that a channel did not take, and why not.
pub enum Rejected<T> {
    /// The channel held as many values as it can.
    Full(T),
    /// Nobody is left to receive.
    Disconnected(T),
}

/// `flume::bounded`: the two ends of a new channel that holds at most
/// `capacity` values.
#[verifier::external_body]
pub(crate) fn channel_bounded<T>(capacity: usize) -> (ends: (Sender<T>, Receiver<T>)) {
    flume::bounded(capacity)
}

/// `Sender::try_send`: hands `message` to the channel without waiting. A
/// message that the channel does not take comes back with the reason.
#[verifier::external_body]
pub(crate) fn channel_try_send<T>(sender: &Sender<T>, message: T) -> (outcome: Result<(), Rejected<T>>) {
    match sender.try_send(message) {
        Ok(()) => Ok(()),
        Err(TrySendError::Full(message)) => Err(Rejected::Full(message)),
        Err(TrySendError::Disconnected(message)) => Err(Rejected::Disconnected(message)),
    }
}

/// `Receiver::try_recv`: the value at the head of the channel, if one is
/// there, without waiting.
#[verifier::external_body]
pub(crate) fn channel_try_recv<T>(receiver: &Receiver<T>) -> (message: Option<T>) {
    receiver.try_recv().ok()
}

/// `Receiver::len`: how many values were in the channel when it was asked.
#[verifier::external_body]
pub(crate) fn channel_len<T>(receiver: &Receiver<T>) -> (len: usize) {
    receiver.len()
}

/// `std::mem::forget`: gives the value up without running its destructor.
#[verifier::external_body]
pub(crate) fn forget<T>(value: T) {
    std::mem::forget(value)
}

} // verus!
