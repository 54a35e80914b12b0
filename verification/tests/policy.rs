use indexer_service::model::IndexerStatus;
use indexer_service::probe::{
    probe_step, within_probe_deadline, IndexerServerStatus, ProbeAction, ProbeOutcome,
    PROBE_DEADLINE_MILLIS,
};
use indexer_service::registry::ChildRegistry;
use indexer_service::supervisor::{
    classify_exit, retry_delay, SupervisorAction, MAX_START_RETRIES, WORKING_THRESHOLD_MINUTES,
};

fn status_with(code: i32) -> IndexerServerStatus {
    IndexerServerStatus {
        status: code,
        starting_block: Some(1),
        current_block: Some(5),
        head_block: Some(9),
        reason_: None,
    }
}

#[test]
fn clean_exit_enqueues_stop() {
    assert_eq!(
        classify_exit(true, 0, 3),
        SupervisorAction::EnqueueStop { status: IndexerStatus::Stopped }
    );
}

#[test]
fn early_failure_retries_with_next_attempt() {
    for attempt in 1..MAX_START_RETRIES {
        match classify_exit(false, 0, attempt) {
            SupervisorAction::RetryStart { attempt: next, delay_seconds } => {
                assert_eq!(next, attempt + 1);
                assert_eq!(delay_seconds, retry_delay(attempt + 1));
            }
            other => panic!("unexpected action {:?}", other),
        }
    }
}

#[test]
fn exhausted_budget_enqueues_fail() {
    assert_eq!(classify_exit(false, 0, MAX_START_RETRIES), SupervisorAction::EnqueueFail);
    assert_eq!(classify_exit(false, 0, MAX_START_RETRIES + 7), SupervisorAction::EnqueueFail);
}

#[test]
fn working_threshold_resets_budget() {
    // a child that ran past the threshold and died retries on attempt 1,
    // whatever attempt started it
    for attempt in [1, 2, MAX_START_RETRIES, MAX_START_RETRIES + 3] {
        assert_eq!(
            classify_exit(false, WORKING_THRESHOLD_MINUTES, attempt),
            SupervisorAction::RetryStart { attempt: 1, delay_seconds: retry_delay(1) }
        );
    }
    // one minute short of the threshold does not reset
    assert_eq!(
        classify_exit(false, WORKING_THRESHOLD_MINUTES - 1, MAX_START_RETRIES),
        SupervisorAction::EnqueueFail
    );
}

#[test]
fn retry_delay_grows_and_caps() {
    assert_eq!(retry_delay(1), 30);
    assert_eq!(retry_delay(2), 60);
    assert_eq!(retry_delay(30), 900);
    assert_eq!(retry_delay(31), 900);
    assert_eq!(retry_delay(u32::MAX), 900);
}

#[test]
fn probe_accepts_healthy_status() {
    assert!(status_with(1).is_healthy());
    assert_eq!(
        probe_step(&ProbeOutcome::Response(status_with(1))),
        ProbeAction::Accept
    );
}

#[test]
fn probe_fails_unhealthy_status() {
    assert!(!status_with(0).is_healthy());
    assert_eq!(probe_step(&ProbeOutcome::Response(status_with(0))), ProbeAction::Fail);
}

#[test]
fn probe_retries_refused_connection() {
    assert_eq!(probe_step(&ProbeOutcome::ConnectRefused), ProbeAction::Retry);
}

#[test]
fn probe_fails_on_rpc_error() {
    assert_eq!(
        probe_step(&ProbeOutcome::RpcError("transport".to_string())),
        ProbeAction::Fail
    );
}

#[test]
fn probe_deadline_bounds() {
    assert!(within_probe_deadline(0));
    assert!(within_probe_deadline(PROBE_DEADLINE_MILLIS - 1));
    assert!(!within_probe_deadline(PROBE_DEADLINE_MILLIS));
}

#[test]
fn registry_holds_one_child_per_id() {
    let mut registry = ChildRegistry::new();
    assert!(registry.register(9, 100));
    // a second live child for the same id never enters the registry
    assert!(!registry.register(9, 200));
    assert_eq!(registry.pid_of(9), Some(100));

    assert!(registry.register(7, 300));
    assert_eq!(registry.pid_of(7), Some(300));

    assert!(registry.unregister(9));
    assert_eq!(registry.pid_of(9), None);
    assert!(!registry.unregister(9));
    // re-registering after exit is a fresh child
    assert!(registry.register(9, 400));
    assert_eq!(registry.pid_of(9), Some(400));
}
