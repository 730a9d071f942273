//! Error kinds of the store.
use vstd::prelude::*;

verus! {

/// What went wrong in a store operation.
#[derive(Debug, Clone, Copy, PartialEq, Eq, Structural)]
pub enum StoreError {
    /// The home directory could not be determined.
    PathResolution,
    /// A file or disk operation failed.
    Io,
    /// Creating tables or migrating the schema failed.
    Schema,
    /// A query could not be run.
    Query,
    /// None of the accepted timestamp encodings read the stored expiry.
    TimestampFormat,
    /// No credential is stored.
    NotFound,
}

} // verus!
