//! The failure a backing store may report.
use vstd::prelude::*;

verus! {

/// Why a backing store could not complete an operation.
///
/// The in-memory store never produces one; the type exists so that every
/// backing store reports failure in the same way.
#[derive(Debug, PartialEq, Eq)]
pub struct MapError {
    /// A description of the failure, for the caller to pass on.
    pub message: String,
}

} // verus!
