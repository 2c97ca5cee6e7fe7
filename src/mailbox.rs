//! The bounded queues between tasks: tokio's multi-producer channel.

use vstd::prelude::*;

verus! {

#[verifier::external_type_specification]
#[verifier::external_body]
#[verifier::reject_recursive_types(T)]
pub struct ExSender<T>(tokio::sync::mpsc::Sender<T>);

#[verifier::external_type_specification]
#[verifier::external_body]
#[verifier::reject_recursive_types(T)]
pub struct ExReceiver<T>(tokio::sync::mpsc::Receiver<T>);

/// Capacity of every inbox and outbound queue.
pub const QUEUE_CAPACITY: usize = 128;

/// Relies on `tokio::sync::mpsc::channel`: a bounded queue of the given
/// capacity. tokio panics on a capacity of zero, or above the most permits
/// its semaphore holds (`usize::MAX >> 3`, which is `2^29 - 1` on 32-bit
/// targets and more on wider ones).
#[verifier::external_body]
pub(crate) fn bounded_queue<T>(capacity: usize) -> (r: (tokio::sync::mpsc::Sender<T>, tokio::sync::mpsc::Receiver<T>))
    requires
        capacity > 0,
        capacity <= 0x1fff_ffff,
{
    tokio::sync::mpsc::channel(capacity)
}

/// Relies on `Sender::clone`: another handle onto the same queue.
pub assume_specification<T>[ <tokio::sync::mpsc::Sender<T> as std::clone::Clone>::clone ](
    tx: &tokio::sync::mpsc::Sender<T>,
) -> tokio::sync::mpsc::Sender<T>;

} // verus!
