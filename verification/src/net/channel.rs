//! The queues and signals that carry values between tasks.
//!
//! The queues are those of `async-channel`, the status signal is tokio's
//! `watch`. Both are shared with other tasks, so nothing that is said here
//! fixes what a queue holds: each item states what holds whichever way the
//! call went.

use vstd::prelude::*;
use crate::net::connection::P2PConnectionStatus;

verus! {

/// The sending end of an `async-channel` queue.
#[verifier::external_type_specification]
#[verifier::external_body]
#[verifier::reject_recursive_types(T)]
pub struct ExChannelSender<T>(async_channel::Sender<T>);

/// The receiving end of an `async-channel` queue.
#[verifier::external_type_specification]
#[verifier::external_body]
#[verifier::reject_recursive_types(T)]
pub struct ExChannelReceiver<T>(async_channel::Receiver<T>);

/// The sending end of a tokio `watch` signal.
#[verifier::external_type_specification]
#[verifier::external_body]
#[verifier::reject_recursive_types(T)]
pub struct ExWatchSender<T>(tokio::sync::watch::Sender<T>);

/// `Clone` of `async_channel::Sender`: one more sending end of the same
/// queue. Nothing is claimed of it. (The outside function stops the process
/// once more than half of `usize::MAX` ends of one queue exist.)
pub assume_specification<T>[ <async_channel::Sender<T> as Clone>::clone ](
    sender: &async_channel::Sender<T>,
) -> (other: async_channel::Sender<T>)
;

/// `Clone` of `async_channel::Receiver`: one more receiving end of the same
/// queue. Nothing is claimed of it. (The outside function stops the process
/// once more than half of `usize::MAX` ends of one queue exist.)
pub assume_specification<T>[ <async_channel::Receiver<T> as Clone>::clone ](
    receiver: &async_channel::Receiver<T>,
) -> (other: async_channel::Receiver<T>)
;

/// How an attempt to enqueue without waiting went.
#[derive(Clone, Copy, Debug, PartialEq, Eq, Structural)]
pub enum TrySendOutcome {
    /// The queue took the message.
    Queued,
    /// The queue was full; the message is gone.
    Full,
    /// The queue was closed; the message is gone.
    Closed,
}

/// A queue that holds a limited number of messages: its two ends, and the
/// number of messages that it was made to hold.
#[verifier::reject_recursive_types(T)]
pub struct BoundedQueue<T> {
    /// The end that puts messages in.
    pub sender: async_channel::Sender<T>,
    /// The end that takes messages out.
    pub receiver: async_channel::Receiver<T>,
    /// How many messages the queue holds at most.
    pub capacity: usize,
}

/// `async_channel::bounded`: a new queue that holds at most `capacity`
/// messages, as its two ends, with the capacity that it was made with
/// beside them. The outside function panics on a capacity of zero, and
/// allocates room for `capacity` messages at once; the precondition leaves
/// out zero and whatever is larger than the queues of this library. Of the
/// ends nothing is claimed; the number is the one handed to the call.
#[verifier::external_body]
pub(crate) fn bounded_queue<T>(capacity: usize) -> (queue: BoundedQueue<T>)
    requires
        0 < capacity <= 1024,
    ensures
        queue.capacity == capacity,
{
    let (sender, receiver) = async_channel::bounded(capacity);
    BoundedQueue { sender, receiver, capacity }
}

/// `async_channel::Sender::try_send`: enqueues `message` if the queue has
/// room and is open, and returns at once either way. Which of the three
/// outcomes comes back depends on the other tasks, so nothing is claimed.
#[verifier::external_body]
pub(crate) fn channel_try_send<T>(
    sender: &async_channel::Sender<T>,
    message: T,
) -> (outcome: TrySendOutcome) {
    match sender.try_send(message) {
        Ok(()) => TrySendOutcome::Queued,
        Err(async_channel::TrySendError::Full(_)) => TrySendOutcome::Full,
        Err(async_channel::TrySendError::Closed(_)) => TrySendOutcome::Closed,
    }
}

/// `tokio::sync::watch::Sender::send`: makes `status` the value that the
/// receivers of the signal see, unless no receiver is left. The outcome is
/// dropped, and nothing is claimed.
#[verifier::external_body]
pub(crate) fn publish_status(
    channel: &tokio::sync::watch::Sender<P2PConnectionStatus>,
    status: P2PConnectionStatus,
) {
    channel.send(status).ok();
}

} // verus!
