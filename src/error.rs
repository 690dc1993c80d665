//! Failures that a shared chunk reports to its caller.

use vstd::prelude::*;

verus! {

/// Why a shared chunk refused to act on a handle.
#[derive(Debug, Clone, Copy, PartialEq, Eq, Structural)]
pub enum ArenaError {
    /// Releasing the handle would take the live-allocation count below zero:
    /// the handle cannot be one of this chunk's live allocations.
    CounterCorruption,
    /// The handle does not lie within the bytes this chunk handed out.
    UnknownHandle,
}

} // verus!
