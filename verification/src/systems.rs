//! Turning a record of subsystems into a record of shared, arbitrated ones.

use vstd::prelude::*;

verus! {

/// A record of subsystems that can be turned into a record of handles, one
/// for each subsystem, that commands can share.
pub trait Systems {
    /// The record of handles.
    type Shared;

    /// Wraps each subsystem in a handle of its own.
    fn shared(self) -> Self::Shared;
}

} // verus!
