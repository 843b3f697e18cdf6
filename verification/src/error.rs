//! Errors reported by persistence operations.

use vstd::prelude::*;

verus! {

/// Why a persistence operation could not complete.
#[derive(Clone, Copy, Debug, PartialEq, Eq, Structural)]
pub enum Error {
    /// The slot is absent in the store.  Expected, and recoverable only
    /// when an on-demand initializer exists for the pulled type.
    NotFound,
    /// Bytes are present but malformed for the requested type.  Treated
    /// like [`Error::NotFound`] when an initializer exists, otherwise
    /// fatal.
    DecodeFailure,
    /// The on-demand initializer itself cannot complete.  Always fatal.
    InitializerFailure,
}

impl Error {
    /// A short human-readable description of the error.
    pub fn message(&self) -> (s: &'static str)
        ensures
            s@ == match self {
                Error::NotFound => "storage entry was empty"@,
                Error::DecodeFailure => "could not properly decode storage entry"@,
                Error::InitializerFailure => "could not initialize storage entry"@,
            },
    {
        match self {
            Error::NotFound => "storage entry was empty",
            Error::DecodeFailure => "could not properly decode storage entry",
            Error::InitializerFailure => "could not initialize storage entry",
        }
    }
}

} // verus!
