use crate::error::MatrixClientError;
use tokio::sync::mpsc::error::SendError;
use tokio::sync::mpsc::UnboundedSender;
use vstd::prelude::*;

verus! {

#[verifier::external_type_specification]
#[verifier::external_body]
#[verifier::reject_recursive_types(T)]
pub struct ExUnboundedSender<T>(UnboundedSender<T>);

#[verifier::external_type_specification]
#[verifier::external_body]
#[verifier::reject_recursive_types(T)]
pub struct ExSendError<T>(SendError<T>);

/// Relies on tokio's `UnboundedSender::send`: it never blocks, and fails only
/// when the receiving half is closed. Whether it fails depends on the
/// receiver, so nothing is promised of the result.
pub assume_specification<T>[ UnboundedSender::<T>::send ](
    sender: &UnboundedSender<T>,
    message: T,
) -> Result<(), SendError<T>>;

/// Hands `message` to the dispatcher without blocking. The one error is
/// `ChannelClosed`, when the dispatcher has already stopped; the producer
/// never panics.
pub fn enqueue(queue: &UnboundedSender<String>, message: String) -> (r: Result<(), MatrixClientError>)
    ensures
        r is Ok || r == Err::<(), MatrixClientError>(MatrixClientError::ChannelClosed),
{
    match queue.send(message) {
        Ok(()) => Ok(()),
        Err(_) => Err(MatrixClientError::ChannelClosed),
    }
}

} // verus!
