//! The holder state of one subsystem.

use crate::priority::{admits, Priority};
use tokio::sync::oneshot::{Receiver, Sender};
use vstd::prelude::*;

verus! {

/// Where a subsystem is: at rest in its slot, or out with a command.
#[verifier::reject_recursive_types(T)]
pub enum MaybeReferred<T> {
    /// The subsystem is here and free for a command of any priority.
    Owned(T),
    /// The subsystem is out with a command of the given priority. Through the
    /// sender a more urgent command asks that command to give it up, and says
    /// where to send it.
    Referred(Priority, Sender<Sender<T>>),
}

/// What a successful claim puts in the claimant's hands.
#[verifier::reject_recursive_types(T)]
pub enum Claim<T> {
    /// The subsystem itself: it was at rest.
    Ready(T),
    /// The place where the subsystem will arrive once the command that has it
    /// lets go.
    Pending(Receiver<T>),
}

impl<T> MaybeReferred<T> {
    /// The priority of the command that the subsystem is out with, if any.
    pub open spec fn registered(self) -> Option<Priority> {
        match self {
            MaybeReferred::Owned(_) => None,
            MaybeReferred::Referred(p, _) => Some(p),
        }
    }

    /// Whether a claim at `priority` is let through: always when the
    /// subsystem is at rest, and otherwise only when it is strictly more
    /// urgent than the command that has the subsystem.
    pub open spec fn admits(self, priority: Priority) -> bool {
        admits(self.registered(), priority)
    }

    /// The state that a claim at `priority` leaves behind: the claimant's
    /// registration when it is let through, the state as it was when not.
    pub open spec fn after_claim(self, priority: Priority, take_back: Sender<Sender<T>>) -> Self {
        if self.admits(priority) {
            MaybeReferred::Referred(priority, take_back)
        } else {
            self
        }
    }

    /// Wraps a subsystem: it starts at rest.
    pub fn new(payload: T) -> (slot: Self)
        ensures
            slot == MaybeReferred::Owned(payload),
    {
        MaybeReferred::Owned(payload)
    }

    /// Reads the priority of the command that the subsystem is out with.
    pub fn holder_priority(&self) -> (found: Option<Priority>)
        ensures
            found == self.registered(),
    {
        match self {
            MaybeReferred::Owned(_) => None,
            MaybeReferred::Referred(p, _) => Some(*p),
        }
    }

    /// Decides whether a claim at `priority` would be let through. The state
    /// stays as it is.
    pub fn can_take(&mut self, priority: Priority) -> (ok: bool)
        ensures
            ok == old(self).admits(priority),
            *final(self) == *old(self),
    {
        match self {
            MaybeReferred::Owned(_) => true,
            MaybeReferred::Referred(p, _) => *p < priority,
        }
    }

    /// Registers a claim at `priority`, if it is let through, in place of
    /// whatever was there, and yields what was there: the subsystem at rest,
    /// or the registration of the command that is now asked to give way. A
    /// claim that is not let through changes nothing and yields `None`.
    pub fn displace(&mut self, priority: Priority, take_back: Sender<Sender<T>>) -> (before: Option<
        MaybeReferred<T>,
    >)
        ensures
            *final(self) == old(self).after_claim(priority, take_back),
            before == if old(self).admits(priority) {
                Some(*old(self))
            } else {
                None
            },
    {
        if self.can_take(priority) {
            let mut before = MaybeReferred::Referred(priority, take_back);
            std::mem::swap(self, &mut before);
            Some(before)
        } else {
            None
        }
    }

    /// Claims the subsystem for a command at `priority` that listens on the
    /// other end of `take_back`.
    ///
    /// A claim that is not let through changes nothing and yields `None`.
    /// One that is let through registers the claimant. It then yields the
    /// subsystem at once if it was at rest; if it was out, the command that
    /// has it is asked to send it, and the claim yields the place where it
    /// will arrive.
    pub fn try_take(&mut self, priority: Priority, take_back: Sender<Sender<T>>) -> (claim: Option<
        Claim<T>,
    >)
        ensures
            *final(self) == old(self).after_claim(priority, take_back),
            claim is Some <==> old(self).admits(priority),
            *old(self) matches MaybeReferred::Owned(payload) ==> claim == Some(
                Claim::Ready(payload),
            ),
            *old(self) is Referred && old(self).admits(priority) ==> claim matches Some(
                Claim::Pending(_),
            ),
    {
        match self.displace(priority, take_back) {
            None => None,
            Some(MaybeReferred::Owned(payload)) => Some(Claim::Ready(payload)),
            Some(MaybeReferred::Referred(_, taker)) => Some(Claim::Pending(ask_back(taker))),
        }
    }

    /// Puts the subsystem back at rest, whatever the state was.
    pub fn restore(&mut self, payload: T)
        ensures
            *final(self) == MaybeReferred::Owned(payload),
    {
        *self = MaybeReferred::Owned(payload);
    }
}

/// Asks the command that listens on the other end of `taker` to give the
/// subsystem up, and yields the place where it will arrive. A command that
/// no longer listens sends nothing, and nothing will arrive there.
fn ask_back<T>(taker: Sender<Sender<T>>) -> Receiver<T> {
    request_return(taker, tokio::sync::oneshot::channel())
}

/// Sends the giving end of a return channel to the command that listens on
/// the other end of `taker`, and yields the receiving end of that same
/// channel: the place where the subsystem will arrive.
pub fn request_return<T>(taker: Sender<Sender<T>>, ends: (Sender<T>, Receiver<T>)) -> (arrive:
    Receiver<T>)
    ensures
        arrive == ends.1,
{
    let (give, arrive) = ends;
    let _ = taker.send(give);
    arrive
}

} // verus!
