//! The ways a mutation can fail.

use vstd::prelude::*;

verus! {

/// Why a mutation was refused. A refused mutation leaves the store as it was.
#[derive(Clone, Copy, Debug, PartialEq, Eq, Structural)]
pub enum SyncError {
    /// A required field of a create payload is missing or malformed.
    ValidationError,
    /// The target of an update or delete is not a live resource of its kind.
    NotFound,
    /// The version clock can issue no further stamp.
    ClockUnavailable,
    /// The payload refers to a parent that is not live, and the store checks
    /// references.
    ForeignKeyUnresolved,
    /// The store can assign no further id to resources of this kind.
    IdsExhausted,
}

} // verus!
