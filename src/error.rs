//! Failure kinds of a pipeline run.
use vstd::prelude::*;

verus! {

/// The remote operation that a failure belongs to.
#[derive(Clone, Copy, Debug, PartialEq, Eq)]
pub enum Operation {
    Embed,
    EnsureCollection,
    Upsert,
    Search,
}

/// Why a pipeline run stopped without its result.
#[derive(Clone, Debug, PartialEq, Eq)]
pub enum PipelineError {
    /// No provider credential is configured; raised before any request.
    MissingCredential,
    /// The credential cannot stand in an HTTP header; raised before any request.
    InvalidCredential,
    /// The service could not be reached (connection, DNS, timeout).
    Transport(Operation),
    /// The vector index answered with a non-success status; `body` is what it
    /// answered, for diagnostics.
    Rejected { operation: Operation, status: u16, body: String },
    /// The service answered, but not in the expected shape.
    Malformed(Operation),
    /// An embedding does not have the collection's dimension.
    DimensionMismatch { expected: usize, found: usize },
    /// The search found no stored vector.
    NoMatch,
}

/// A 2xx status.
pub open spec fn is_success(status: u16) -> bool {
    200 <= status <= 299
}

/// Whether `status` is a 2xx status.
pub fn status_ok(status: u16) -> (r: bool)
    ensures
        r == is_success(status),
{
    200 <= status && status <= 299
}

} // verus!
