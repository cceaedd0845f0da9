//! The vector index service: collection descriptors, points, and what its
//! answers mean.
use vstd::prelude::*;
use crate::error::{is_success, status_ok, Operation, PipelineError};

verus! {

/// How the index compares vectors.
#[derive(Clone, Copy, Debug, PartialEq, Eq)]
pub enum Distance {
    Cosine,
    Euclidean,
    Dot,
}

/// A named collection of vectors of one dimension.
pub struct CollectionSpec {
    pub name: String,
    pub vector_size: usize,
    pub distance: Distance,
}

impl CollectionSpec {
    /// A descriptor; the size must be positive.
    pub fn new(name: String, vector_size: usize, distance: Distance) -> (r: CollectionSpec)
        requires
            vector_size > 0,
        ensures
            r.name@ == name@,
            r.vector_size == vector_size,
            r.distance == distance,
    {
        CollectionSpec { name, vector_size, distance }
    }
}

/// One stored unit: an id, its embedding (as `f32` bit patterns) and the
/// text it came from, stored as the payload's `text`.
pub struct Point {
    pub id: u64,
    pub vector: Vec<u32>,
    pub text: String,
}

/// What the index service answered to a request.
pub enum ServiceReply {
    /// The service could not be reached.
    Unreachable,
    /// The service answered with this status and body.
    Answered { status: u16, body: String },
}

/// The outcome of `op` given the service's reply: success exactly on a 2xx
/// status.
pub open spec fn service_outcome(op: Operation, reply: ServiceReply) -> Result<(), PipelineError> {
    match reply {
        ServiceReply::Unreachable => Err(PipelineError::Transport(op)),
        ServiceReply::Answered { status, body } => if is_success(status) {
            Ok(())
        } else {
            Err(PipelineError::Rejected { operation: op, status, body })
        },
    }
}

/// Reads the index service's reply to `op`.
pub fn check_reply(op: Operation, reply: ServiceReply) -> (r: Result<(), PipelineError>)
    ensures
        r == service_outcome(op, reply),
{
    match reply {
        ServiceReply::Unreachable => Err(PipelineError::Transport(op)),
        ServiceReply::Answered { status, body } => if status_ok(status) {
            Ok(())
        } else {
            Err(PipelineError::Rejected { operation: op, status, body })
        },
    }
}

/// What the index service answered to a search.
pub enum SearchReply {
    /// The service could not be reached.
    Unreachable,
    /// The service answered with `status` and `body`; `ids` are the ids of
    /// the result list in `body`, best first, or `None` where it holds none.
    Answered { status: u16, body: String, ids: Option<Vec<u64>> },
}

/// The id of the best match in a search reply; an empty result list is
/// `NoMatch`.
pub fn top_match(reply: SearchReply) -> (r: Result<u64, PipelineError>)
    ensures
        match reply {
            SearchReply::Unreachable => r == Err::<u64, PipelineError>(
                PipelineError::Transport(Operation::Search),
            ),
            SearchReply::Answered { status, body, ids } => {
                if !is_success(status) {
                    r == Err::<u64, PipelineError>(
                        PipelineError::Rejected { operation: Operation::Search, status, body },
                    )
                } else if ids is None {
                    r == Err::<u64, PipelineError>(PipelineError::Malformed(Operation::Search))
                } else if ids->Some_0@.len() == 0 {
                    r == Err::<u64, PipelineError>(PipelineError::NoMatch)
                } else {
                    r == Ok::<u64, PipelineError>(ids->Some_0@[0])
                }
            },
        },
{
    match reply {
        SearchReply::Unreachable => Err(PipelineError::Transport(Operation::Search)),
        SearchReply::Answered { status, body, ids } => {
            if !status_ok(status) {
                return Err(PipelineError::Rejected { operation: Operation::Search, status, body });
            }
            match ids {
                None => Err(PipelineError::Malformed(Operation::Search)),
                Some(v) => if v.len() == 0 {
                    Err(PipelineError::NoMatch)
                } else {
                    Ok(v[0])
                },
            }
        },
    }
}

/// Ensure-collection can be repeated: any two successful answers give the
/// same outcome, success, so a second call with the same descriptor changes
/// nothing in the run.
pub proof fn lemma_ensure_collection_repeatable(first: ServiceReply, second: ServiceReply)
    requires
        first matches ServiceReply::Answered { status, .. } && is_success(status),
        second matches ServiceReply::Answered { status, .. } && is_success(status),
    ensures
        service_outcome(Operation::EnsureCollection, first) == Ok::<(), PipelineError>(()),
        service_outcome(Operation::EnsureCollection, second) == service_outcome(
            Operation::EnsureCollection,
            first,
        ),
{
}

} // verus!
