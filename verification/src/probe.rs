//! The status prober's decision logic: what one probe outcome means for the
//! create-time health check. The RPC itself happens outside the library;
//! each outcome is handed in as a plain value.

use vstd::prelude::*;

verus! {

/// The status code a healthy, serving child reports.
pub const HEALTHY_STATUS_CODE: i32 = 1;

/// How long the create-time probe polls before giving up.
pub const PROBE_DEADLINE_MILLIS: u64 = 10000;

/// How long the create-time probe waits between polls.
pub const PROBE_POLL_INTERVAL_MILLIS: u64 = 500;

/// What a child's status endpoint answers.
#[derive(Clone, Debug, PartialEq)]
pub struct IndexerServerStatus {
    pub status: i32,
    pub starting_block: Option<u64>,
    pub current_block: Option<u64>,
    pub head_block: Option<u64>,
    pub reason_: Option<String>,
}

impl IndexerServerStatus {
    /// A child is healthy exactly when it reports the serving status code.
    pub open spec fn healthy_spec(self) -> bool {
        self.status == HEALTHY_STATUS_CODE
    }

    pub fn is_healthy(&self) -> (r: bool)
        ensures
            r == self.healthy_spec(),
    {
        self.status == HEALTHY_STATUS_CODE
    }
}

/// One probe's outcome, as the transport reports it.
#[derive(Clone, Debug, PartialEq)]
pub enum ProbeOutcome {
    /// The endpoint answered.
    Response(IndexerServerStatus),
    /// The connection was refused: the child may still be binding its port.
    ConnectRefused,
    /// Any other transport or RPC failure.
    RpcError(String),
}

/// What the create-time probe loop does with one outcome.
#[derive(Clone, Copy, Debug, PartialEq, Eq, Structural)]
pub enum ProbeAction {
    /// The child is healthy: the create call succeeds.
    Accept,
    /// Poll again after the interval, while the deadline allows.
    Retry,
    /// Fail the record and surface the error.
    Fail,
}

/// The probe decision: a healthy answer accepts, a refused connection is
/// retried within the deadline, and an explicit unhealthy status or any
/// other RPC error is fatal for the create call.
pub open spec fn probe_step_spec(outcome: ProbeOutcome) -> ProbeAction {
    match outcome {
        ProbeOutcome::Response(s) => if s.healthy_spec() {
            ProbeAction::Accept
        } else {
            ProbeAction::Fail
        },
        ProbeOutcome::ConnectRefused => ProbeAction::Retry,
        ProbeOutcome::RpcError(_) => ProbeAction::Fail,
    }
}

pub fn probe_step(outcome: &ProbeOutcome) -> (r: ProbeAction)
    ensures
        r == probe_step_spec(*outcome),
{
    match outcome {
        ProbeOutcome::Response(s) => {
            if s.is_healthy() {
                ProbeAction::Accept
            } else {
                ProbeAction::Fail
            }
        },
        ProbeOutcome::ConnectRefused => ProbeAction::Retry,
        ProbeOutcome::RpcError(_) => ProbeAction::Fail,
    }
}

/// Whether the probe loop may poll once more.
pub fn within_probe_deadline(elapsed_millis: u64) -> (r: bool)
    ensures
        r == (elapsed_millis < PROBE_DEADLINE_MILLIS),
{
    elapsed_millis < PROBE_DEADLINE_MILLIS
}

} // verus!
