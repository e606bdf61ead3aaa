//! The priority of a command, and the one rule by which claims are decided.

use core::cmp::Ordering;
use vstd::prelude::*;
use vstd::std_specs::cmp::PartialOrdSpecImpl;

verus! {

/// How urgently a command wants a subsystem. A larger number is more urgent.
#[derive(Debug, Clone, Copy, PartialEq, Eq, Structural, Ord)]
pub struct Priority(pub usize);

impl PartialOrdSpecImpl for Priority {
    open spec fn obeys_partial_cmp_spec() -> bool {
        true
    }

    open spec fn partial_cmp_spec(&self, other: &Priority) -> Option<Ordering> {
        if self.0 < other.0 {
            Some(Ordering::Less)
        } else if self.0 == other.0 {
            Some(Ordering::Equal)
        } else {
            Some(Ordering::Greater)
        }
    }
}

impl PartialOrd for Priority {
    /// Priorities are ordered as their numbers are.
    fn partial_cmp(&self, other: &Priority) -> (order: Option<Ordering>) {
        if self.0 < other.0 {
            Some(Ordering::Less)
        } else if self.0 == other.0 {
            Some(Ordering::Equal)
        } else {
            Some(Ordering::Greater)
        }
    }
}

impl Priority {
    /// A claim at `self` takes a subsystem away from a command at `incumbent`
    /// only when it is strictly more urgent: a tie favours the incumbent.
    pub open spec fn outranks(self, incumbent: Priority) -> bool {
        self.0 > incumbent.0
    }
}

/// The rule for every claim, on one subsystem or on several: a subsystem at
/// rest (`None`) goes to any claimant, one that is out with a command only to
/// a claimant that outranks that command.
pub open spec fn admits(registered: Option<Priority>, priority: Priority) -> bool {
    match registered {
        None => true,
        Some(incumbent) => priority.outranks(incumbent),
    }
}

/// Decides a claim at `priority` on a subsystem whose holder, if it is out,
/// has the priority `registered`.
pub fn decide(registered: Option<Priority>, priority: Priority) -> (ok: bool)
    ensures
        ok == admits(registered, priority),
{
    match registered {
        None => true,
        Some(incumbent) => incumbent < priority,
    }
}

/// A claim never passes a command of the same or a higher priority.
pub proof fn lemma_incumbent_keeps_ties(incumbent: Priority, priority: Priority)
    requires
        priority.0 <= incumbent.0,
    ensures
        !admits(Some(incumbent), priority),
{
}

} // verus!
