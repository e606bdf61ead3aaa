//! The one-shot channels over which a subsystem is asked back and handed on.
//!
//! The channels are tokio's. Nothing in this file is proved: it states what
//! the rest of the crate takes for granted about them.

use tokio::sync::oneshot::{Receiver, Sender};
use vstd::prelude::*;

verus! {

/// The sending half of tokio's one-shot channel, carried as an opaque value.
#[verifier::external_type_specification]
#[verifier::external_body]
#[verifier::reject_recursive_types(T)]
pub struct ExSender<T>(Sender<T>);

/// The receiving half of tokio's one-shot channel, carried as an opaque value.
#[verifier::external_type_specification]
#[verifier::external_body]
#[verifier::reject_recursive_types(T)]
pub struct ExReceiver<T>(Receiver<T>);

/// What awaiting the receiving half yields when the sending half was dropped
/// with nothing sent.
#[verifier::external_type_specification]
#[verifier::external_body]
pub struct ExRecvError(tokio::sync::oneshot::error::RecvError);

/// `tokio::sync::oneshot::channel` makes the two halves of a new channel.
/// Nothing is claimed about them.
pub assume_specification<T>[ tokio::sync::oneshot::channel::<T> ]() -> (ends: (
    Sender<T>,
    Receiver<T>,
));

/// `tokio::sync::oneshot::Sender::send` either passes the value to the channel
/// or, when the receiving half is gone, gives the same value back in `Err`.
/// Whether the receiving half is gone is not known here, so either may happen.
pub assume_specification<T>[ tokio::sync::oneshot::Sender::<T>::send ](
    sender: Sender<T>,
    t: T,
) -> (refused: Result<(), T>)
    ensures
        refused matches Err(back) ==> back == t,
;

} // verus!
