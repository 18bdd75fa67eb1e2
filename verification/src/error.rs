//! Error taxonomy of the persistence core.

use vstd::prelude::*;

verus! {

/// Errors returned by the stores and the migration engine.
///
/// `StorageError` is reserved for failures of the underlying persistent
/// store; the in-memory model verified here never produces one, but the
/// unverified shell maps real storage failures onto it.
#[derive(Clone, Copy, Debug, PartialEq, Eq, Structural)]
pub enum StoreError {
    /// Malformed input: empty name or label, or an ill-formed calendar date.
    ValidationError,
    /// The operation targets an id that does not exist.
    NotFoundError,
    /// An insert-only write hit an existing (account, date) pair.
    ConflictError,
    /// A failure of the underlying persistent store.
    StorageError,
}

} // verus!
