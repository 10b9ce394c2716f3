//! Error types surfaced by the batch tracking store and its builders.

use vstd::prelude::*;

verus! {

/// An error returned by a store operation.
#[derive(Debug, PartialEq, Eq)]
pub enum BatchTrackingStoreError {
    /// The operation required an existing batch, but the identifier did not
    /// resolve to one.  The store never creates a batch implicitly; the
    /// carried string names the identifier that failed to resolve.
    NotFoundError(String),
    /// A write would violate a storage invariant: a duplicate batch header or
    /// data change id, a receipt or status entry referencing a transaction
    /// outside its batch, or an unrecognized ledger status string.
    InternalError(String),
    /// A connection could not be leased from the pool in time.  The verified
    /// in-memory operations never produce this; a pool-owning facade does.
    ResourceTemporarilyUnavailableError(String),
}

/// An error returned by the builders of the tracking data types.
#[derive(Debug, PartialEq, Eq)]
pub enum BatchBuilderError {
    /// A required field was missing or malformed.
    MissingRequiredField(String),
}

} // verus!
