//! The ways in which a partial update, or a read, can be turned down.

use vstd::prelude::*;

verus! {

/// Why a request was not carried out.
#[derive(Debug, Clone, Copy, PartialEq, Eq, Structural)]
pub enum Error {
    /// A supplied field holds a value of the wrong shape. The request is
    /// rejected before the store is touched.
    MalformedField,
    /// No merge key came with the request. Rejected before the store is
    /// touched.
    KeyRequired,
    /// The pool, the transaction or the statement failed. Nothing of the
    /// request has been stored, so the caller may try again.
    StorageUnavailable,
    /// A read found no record under the key.
    NotFound,
}

impl Error {
    /// Whether the same request may succeed when it is sent again unchanged.
    pub open spec fn retryable(self) -> bool {
        self is StorageUnavailable
    }

    /// Tells whether the same request may succeed when it is sent again
    /// unchanged: only a storage failure is of that kind.
    pub fn is_retryable(&self) -> (retry: bool)
        ensures
            retry == self.retryable(),
    {
        match self {
            Error::StorageUnavailable => true,
            _ => false,
        }
    }
}

} // verus!
