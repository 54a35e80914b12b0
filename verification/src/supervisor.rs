//! The process supervisor's policy: classify a child's exit and decide what
//! queue work follows. The supervisor owns no record state; watching the
//! child and publishing the message are done outside the library.

use vstd::prelude::*;

use crate::model::IndexerStatus;

verus! {

/// Consecutive failed start attempts before a record is failed for good.
pub const MAX_START_RETRIES: u32 = 5;

/// A child that ran at least this long before dying earns a fresh retry
/// budget.
pub const WORKING_THRESHOLD_MINUTES: u64 = 5;

/// The queue work one child exit produces.
#[derive(Clone, Copy, Debug, PartialEq, Eq, Structural)]
pub enum SupervisorAction {
    /// Publish a stop message so the coordinator reconciles the record.
    EnqueueStop { status: IndexerStatus },
    /// Publish a delayed start retry.
    RetryStart { attempt: u32, delay_seconds: u16 },
    /// Publish a fail message: the retry budget is spent.
    EnqueueFail,
}

/// The delay before a retry is delivered: half a minute per attempt, capped
/// at the fifteen minutes the queue supports.
pub open spec fn retry_delay_spec(attempt: u32) -> u16 {
    if attempt > 30 {
        900
    } else {
        (attempt * 30) as u16
    }
}

pub fn retry_delay(attempt: u32) -> (r: u16)
    ensures
        r == retry_delay_spec(attempt),
{
    if attempt > 30 {
        900
    } else {
        (attempt * 30) as u16
    }
}

/// The supervisor's exit classification:
/// a clean exit reconciles the record to `Stopped`; a child that died after
/// running past the working threshold retries on a fresh budget; a spent
/// budget fails the record; anything else retries with the next attempt.
pub open spec fn classify_exit_spec(success: bool, ran_minutes: u64, attempt: u32)
    -> SupervisorAction {
    if success {
        SupervisorAction::EnqueueStop { status: IndexerStatus::Stopped }
    } else if ran_minutes >= WORKING_THRESHOLD_MINUTES {
        SupervisorAction::RetryStart { attempt: 1, delay_seconds: retry_delay_spec(1) }
    } else if attempt >= MAX_START_RETRIES {
        SupervisorAction::EnqueueFail
    } else {
        SupervisorAction::RetryStart {
            attempt: (attempt + 1) as u32,
            delay_seconds: retry_delay_spec((attempt + 1) as u32),
        }
    }
}

/// Classify a child's exit. `success` is whether it exited with status
/// zero, `ran_minutes` how long it ran, `attempt` the attempt that started
/// it.
pub fn classify_exit(success: bool, ran_minutes: u64, attempt: u32) -> (r: SupervisorAction)
    ensures
        r == classify_exit_spec(success, ran_minutes, attempt),
{
    if success {
        SupervisorAction::EnqueueStop { status: IndexerStatus::Stopped }
    } else if ran_minutes >= WORKING_THRESHOLD_MINUTES {
        SupervisorAction::RetryStart { attempt: 1, delay_seconds: retry_delay(1) }
    } else if attempt >= MAX_START_RETRIES {
        SupervisorAction::EnqueueFail
    } else {
        SupervisorAction::RetryStart {
            attempt: attempt + 1,
            delay_seconds: retry_delay(attempt + 1),
        }
    }
}

/// Working-threshold reset: a child that ran at least
/// `WORKING_THRESHOLD_MINUTES` and then died schedules a retry with
/// attempt 1, whatever the previous attempt was.
pub proof fn lemma_working_threshold_reset(ran_minutes: u64, attempt: u32)
    requires
        ran_minutes >= WORKING_THRESHOLD_MINUTES,
    ensures
        classify_exit_spec(false, ran_minutes, attempt) == (SupervisorAction::RetryStart {
            attempt: 1u32,
            delay_seconds: retry_delay_spec(1),
        }),
{
}

/// The attempt number carried by the n-th start of a record whose child
/// exits immediately: the first start runs on attempt 1, and each early
/// failure enqueues the next attempt.
pub open spec fn early_exit_attempt(n: nat) -> nat
    decreases n,
{
    if n <= 1 {
        1
    } else {
        match classify_exit_spec(false, 0, early_exit_attempt((n - 1) as nat) as u32) {
            SupervisorAction::RetryStart { attempt, .. } => attempt as nat,
            _ => 0,
        }
    }
}

/// Retry bound: with a script that exits immediately, the n-th start runs
/// on attempt n; each of the first `MAX_START_RETRIES - 1` exits enqueues
/// exactly one start message, and the exit of attempt `MAX_START_RETRIES`
/// enqueues the one fail message, whose handler moves the `Running` record
/// to `FailedRunning`. So the record fails after exactly
/// `MAX_START_RETRIES` start attempts, one queue message each.
pub proof fn lemma_retry_bound(n: nat)
    requires
        1 <= n <= MAX_START_RETRIES,
    ensures
        early_exit_attempt(n) == n,
        n < MAX_START_RETRIES ==> classify_exit_spec(false, 0, early_exit_attempt(n) as u32)
            == (SupervisorAction::RetryStart {
            attempt: (n + 1) as u32,
            delay_seconds: retry_delay_spec((n + 1) as u32),
        }),
        n == MAX_START_RETRIES ==> classify_exit_spec(false, 0, early_exit_attempt(n) as u32)
            == SupervisorAction::EnqueueFail,
    decreases n,
{
    if n > 1 {
        lemma_retry_bound((n - 1) as nat);
    }
}

} // verus!
