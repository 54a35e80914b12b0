//! Error taxonomy: store failures and lifecycle errors, with their HTTP
//! status mapping.

use vstd::prelude::*;

use crate::model::IndexerStatus;

verus! {

/// Failure modes of the indexer store.
#[derive(Clone, Copy, Debug, PartialEq, Eq, Structural)]
pub enum InfraError {
    /// No record with the requested key.
    NotFound,
    /// A uniqueness constraint on `table_name` was violated.
    AlreadyExists,
    /// Any other constraint violation.
    Backend,
}

/// Errors surfaced by the lifecycle coordinator.
#[derive(Clone, Debug, PartialEq)]
pub enum IndexerError {
    InternalServerError(String),
    InfraError(InfraError),
    /// The create request misses a required field or carries no script.
    FailedToBuildCreateIndexerRequest,
    /// The `indexer_type` field names no known sink variant.
    InvalidIndexerType(String),
    /// The operation is not legal from the record's current status.
    InvalidIndexerStatus(IndexerStatus),
    /// Signalling the child with this process id failed.
    FailedToStopIndexer(i64),
    /// Spawning the sink binary failed; carries the reason and the id.
    FailedToStartIndexer(String, String),
    /// The record holds no status server port.
    IndexerStatusServerPortNotFound,
    /// The status endpoint could not be reached.
    FailedToConnectStatusServer,
    /// The status endpoint answered the probe with an error.
    StatusRequestFailed(String),
}

impl IndexerError {
    /// The HTTP status under which the boundary renders this error:
    /// validation faults 400, unknown records 404, illegal transitions 409,
    /// probe failures 502, everything else 500.
    pub open spec fn http_status_spec(self) -> u16 {
        match self {
            IndexerError::FailedToBuildCreateIndexerRequest => 400,
            IndexerError::InvalidIndexerType(_) => 400,
            IndexerError::InvalidIndexerStatus(_) => 409,
            IndexerError::InfraError(e) => if e is NotFound {
                404
            } else {
                500
            },
            IndexerError::FailedToConnectStatusServer => 502,
            IndexerError::StatusRequestFailed(_) => 502,
            _ => 500,
        }
    }

    pub fn http_status(&self) -> (r: u16)
        ensures
            r == self.http_status_spec(),
    {
        match self {
            IndexerError::FailedToBuildCreateIndexerRequest => 400,
            IndexerError::InvalidIndexerType(_) => 400,
            IndexerError::InvalidIndexerStatus(_) => 409,
            IndexerError::InfraError(e) => match e {
                InfraError::NotFound => 404,
                _ => 500,
            },
            IndexerError::FailedToConnectStatusServer => 502,
            IndexerError::StatusRequestFailed(_) => 502,
            _ => 500,
        }
    }
}

} // verus!
