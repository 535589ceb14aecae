//! Typed failures the ranking core surfaces to its boundary.

use vstd::prelude::*;

verus! {

/// Why a request was rejected. Authentication and persistence failures
/// belong to the collaborators around the core; the core itself rejects
/// a request only for a missing referent or a malformed submission.
#[derive(Clone, Copy, Debug, PartialEq, Eq, Structural)]
pub enum RouteError {
    /// The submitting or requesting player is not registered.
    PlayerNotFound,
    /// The referenced song does not exist.
    SongNotFound,
    /// A numeric sequence field of the submission failed to parse.
    Validation,
    /// The store could not complete the write (row id space exhausted).
    Persistence,
}

} // verus!
