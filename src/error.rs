//! The kinds of failure of the store and of the service.

use vstd::prelude::*;

verus! {

/// Why a service operation failed.
#[derive(Clone, Copy, Debug, PartialEq, Eq, Structural)]
pub enum ServiceError {
    /// No record holds the given short code.
    NotFound,
    /// A record with the given short code already exists.
    DuplicateCode,
    /// Any other failure of the store.
    StoreError,
}

/// Why a store primitive failed.
#[derive(Clone, Copy, Debug, PartialEq, Eq, Structural)]
pub enum StoreFault {
    /// An insert would repeat an existing short code.
    UniqueViolation,
    /// No row matches the given short code.
    NoSuchRow,
    /// Anything else: exhausted id space, counter overflow, connectivity.
    Other,
}

} // verus!
