//! How one command on one subsystem ends.
//!
//! A command that has claimed a subsystem runs while it listens for a recall.
//! Whichever comes first settles the call: the command's own end, or a more
//! urgent claimant asking for the subsystem.

use tokio::sync::oneshot::Sender;
use vstd::prelude::*;

verus! {

/// How the race between a command and its recall listener ended.
#[verifier::reject_recursive_types(T)]
pub enum Outcome<O, T> {
    /// The command ran to its end and produced this.
    Completed(O),
    /// A more urgent claimant asked first. The subsystem goes where the
    /// sender leads.
    Recalled(Sender<T>),
}

/// What is left to do, and to report, once the race has ended.
pub enum Settled<O, T> {
    /// The command ran to its end: the subsystem is to be put back at rest,
    /// and the call reports the result.
    Finished { result: O, payload: T },
    /// The subsystem was sent to the claimant and the call reports nothing.
    /// Should the claimant have gone away, the subsystem is here and not lost.
    Preempted { undelivered: Option<T> },
}

/// Sends a subsystem, as it is now, to the claimant that asked for it.
///
/// Yields nothing when the channel took it, and the subsystem itself when the
/// claimant no longer listens.
pub fn hand_over<T>(claimant: Sender<T>, payload: T) -> (undelivered: Option<T>)
    ensures
        undelivered matches Some(back) ==> back == payload,
{
    left_in_hand(claimant.send(payload))
}

/// Settles a call once its race has ended.
///
/// A command that ran to its end keeps its result, and the subsystem comes
/// back to be put at rest. A recalled command is given up: the subsystem goes
/// to the claimant in the state the command left it in, and no result is
/// made up for the call.
pub fn settle<O, T>(outcome: Outcome<O, T>, payload: T) -> (end: Settled<O, T>)
    ensures
        outcome matches Outcome::Completed(result) ==> end == (Settled::Finished {
            result,
            payload,
        }),
        outcome is Recalled ==> end is Preempted,
        end matches Settled::Preempted { undelivered: Some(back) } ==> back == payload,
{
    match outcome {
        Outcome::Completed(result) => Settled::Finished { result, payload },
        Outcome::Recalled(claimant) => Settled::Preempted {
            undelivered: hand_over(claimant, payload),
        },
    }
}

/// What the sender of a value still has once the channel has answered:
/// nothing when the channel took the value, and the value itself when the
/// channel gave it back.
pub fn left_in_hand<T>(sent: Result<(), T>) -> (undelivered: Option<T>)
    ensures
        sent is Ok ==> undelivered is None,
        sent matches Err(back) ==> undelivered == Some(back),
{
    match sent {
        Ok(_) => None,
        Err(back) => Some(back),
    }
}

} // verus!
