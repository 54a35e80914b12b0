use indexer_service::errors::{IndexerError, InfraError};
use indexer_service::lifecycle::{
    create_indexer, create_indexer_fresh, delete_indexer, fail_indexer, record_started,
    start_all_indexers, start_indexer, stop_decision, stop_indexer, update_indexer_state,
    CreateIndexerRequest, StartDecision, StopSignalOutcome,
};
use indexer_service::model::{IndexerStatus, IndexerType};
use indexer_service::store::IndexerStore;
use indexer_service::supervisor::{classify_exit, SupervisorAction, MAX_START_RETRIES};

fn webhook_request() -> CreateIndexerRequest {
    CreateIndexerRequest {
        indexer_type: IndexerType::Webhook,
        target_url: Some("https://webhook.site/ex".to_string()),
        table_name: None,
        custom_connection_string: None,
        starting_block: None,
        indexer_id: None,
        data: vec![1, 2, 3],
        status_server_port: 1234,
    }
}

fn postgres_request(table: &str) -> CreateIndexerRequest {
    CreateIndexerRequest {
        indexer_type: IndexerType::Postgres,
        target_url: None,
        table_name: Some(table.to_string()),
        custom_connection_string: None,
        starting_block: None,
        indexer_id: None,
        data: vec![1, 2, 3],
        status_server_port: 4321,
    }
}

#[test]
fn create_webhook_indexer() {
    let mut store = IndexerStore::new();
    let created = create_indexer(&mut store, &webhook_request(), 9).unwrap();
    assert_eq!(created.id, 9);
    assert_eq!(created.status, IndexerStatus::Created);
    assert_eq!(created.indexer_type, IndexerType::Webhook);
    assert_eq!(created.process_id, None);
    assert_eq!(created.target_url, Some("https://webhook.site/ex".to_string()));
    assert_eq!(created.status_server_port, Some(1234));
    // persisted as returned
    assert_eq!(store.get(9).unwrap(), created);
}

#[test]
fn create_webhook_indexer_fails_no_target_url() {
    let mut store = IndexerStore::new();
    let mut req = webhook_request();
    req.target_url = None;
    let err = create_indexer(&mut store, &req, 9).unwrap_err();
    assert_eq!(err, IndexerError::FailedToBuildCreateIndexerRequest);
    assert_eq!(err.http_status(), 400);
}

#[test]
fn create_indexer_fails_no_script() {
    let mut store = IndexerStore::new();
    let mut req = webhook_request();
    req.data = vec![];
    assert_eq!(
        create_indexer(&mut store, &req, 9).unwrap_err(),
        IndexerError::FailedToBuildCreateIndexerRequest
    );
}

#[test]
fn create_postgres_indexer() {
    let mut store = IndexerStore::new();
    let created = create_indexer(&mut store, &postgres_request("test_table"), 3).unwrap();
    assert_eq!(created.indexer_type, IndexerType::Postgres);
    assert_eq!(created.table_name, Some("test_table".to_string()));
    // without an explicit indexer id, the table name stands in
    assert_eq!(created.indexer_id, Some("test_table".to_string()));
}

#[test]
fn create_postgres_indexer_fails_no_table_name() {
    let mut store = IndexerStore::new();
    let mut req = postgres_request("t");
    req.table_name = None;
    assert_eq!(
        create_indexer(&mut store, &req, 3).unwrap_err(),
        IndexerError::FailedToBuildCreateIndexerRequest
    );
}

#[test]
fn create_multiple_postgres_indexers() {
    // two Postgres indexers with the same table name: the second create is
    // refused by the uniqueness constraint and surfaces as a backend error
    let mut store = IndexerStore::new();
    create_indexer(&mut store, &postgres_request("foo"), 1).unwrap();
    let err = create_indexer(&mut store, &postgres_request("foo"), 2).unwrap_err();
    assert_eq!(err, IndexerError::InfraError(InfraError::AlreadyExists));
    assert_eq!(err.http_status(), 500);
    // a different table name passes
    create_indexer(&mut store, &postgres_request("bar"), 2).unwrap();
}

#[test]
fn create_indexer_fresh_draws_v4_id() {
    let mut store = IndexerStore::new();
    let created = create_indexer_fresh(&mut store, &webhook_request()).unwrap();
    // version nibble and variant bits of a fresh id
    assert_eq!(created.id & 0xf0000000000000000000, 0x40000000000000000000);
    assert_eq!(created.id & 0xc000000000000000, 0x8000000000000000);
    assert!(store.get(created.id).is_ok());
}

#[test]
fn start_indexer_records_pid() {
    let mut store = IndexerStore::new();
    create_indexer(&mut store, &webhook_request(), 9).unwrap();

    let (decision, record) = start_indexer(&store, 9, false).unwrap();
    assert_eq!(decision, StartDecision::Proceed);
    assert_eq!(record.status, IndexerStatus::Created);

    let started = record_started(&mut store, 9, 4242).unwrap();
    assert_eq!(started.status, IndexerStatus::Running);
    assert_eq!(started.process_id, Some(4242));
    assert_eq!(store.get(9).unwrap(), started);
}

#[test]
fn start_indexer_idempotent_on_live_child() {
    // a start against a Running record whose pid is alive is a no-op:
    // same state, same pid
    let mut store = IndexerStore::new();
    create_indexer(&mut store, &webhook_request(), 9).unwrap();
    record_started(&mut store, 9, 4242).unwrap();
    let before = store.get(9).unwrap();

    let (decision, record) = start_indexer(&store, 9, true).unwrap();
    assert_eq!(decision, StartDecision::AlreadyRunning);
    assert_eq!(record, before);
    assert_eq!(store.get(9).unwrap(), before);
}

#[test]
fn start_indexer_restarts_stale_record() {
    // a Running record whose child is gone proceeds to a fresh start
    let mut store = IndexerStore::new();
    create_indexer(&mut store, &webhook_request(), 9).unwrap();
    record_started(&mut store, 9, 4242).unwrap();

    let (decision, _) = start_indexer(&store, 9, false).unwrap();
    assert_eq!(decision, StartDecision::Proceed);
    let restarted = record_started(&mut store, 9, 4343).unwrap();
    assert_eq!(restarted.process_id, Some(4343));
}

#[test]
fn start_indexer_unknown_id() {
    let store = IndexerStore::new();
    let err = start_indexer(&store, 1, false).unwrap_err();
    assert_eq!(err, IndexerError::InfraError(InfraError::NotFound));
    assert_eq!(err.http_status(), 404);
}

#[test]
fn stop_indexer_terminates_child() {
    let mut store = IndexerStore::new();
    create_indexer(&mut store, &webhook_request(), 9).unwrap();
    record_started(&mut store, 9, 4242).unwrap();

    let record = store.get(9).unwrap();
    assert_eq!(stop_decision(&record).unwrap(), 4242);

    let status = stop_indexer(&mut store, 9, StopSignalOutcome::Terminated).unwrap();
    assert_eq!(status, IndexerStatus::Stopped);
    let stopped = store.get(9).unwrap();
    assert_eq!(stopped.status, IndexerStatus::Stopped);
    assert_eq!(stopped.process_id, None);
}

#[test]
fn stop_indexer_idempotent_after_external_kill() {
    // the child was killed externally; stop still succeeds and records
    // Stopped
    let mut store = IndexerStore::new();
    create_indexer(&mut store, &webhook_request(), 9).unwrap();
    record_started(&mut store, 9, 4242).unwrap();

    let status = stop_indexer(&mut store, 9, StopSignalOutcome::NotRunning).unwrap();
    assert_eq!(status, IndexerStatus::Stopped);
    assert_eq!(store.get(9).unwrap().status, IndexerStatus::Stopped);
}

#[test]
fn failed_stop_indexer() {
    // the signal could not be delivered: the record moves to
    // FailedStopping and keeps the pid
    let mut store = IndexerStore::new();
    create_indexer(&mut store, &webhook_request(), 9).unwrap();
    record_started(&mut store, 9, 100).unwrap();

    let status = stop_indexer(&mut store, 9, StopSignalOutcome::SignalFailed).unwrap();
    assert_eq!(status, IndexerStatus::FailedStopping);
    let record = store.get(9).unwrap();
    assert_eq!(record.status, IndexerStatus::FailedStopping);
    assert_eq!(record.process_id, Some(100));
}

#[test]
fn stop_indexer_requires_running() {
    let mut store = IndexerStore::new();
    create_indexer(&mut store, &webhook_request(), 9).unwrap();
    let err = stop_indexer(&mut store, 9, StopSignalOutcome::Terminated).unwrap_err();
    assert_eq!(err, IndexerError::InvalidIndexerStatus(IndexerStatus::Created));
    assert_eq!(err.http_status(), 409);
}

#[test]
fn failed_running_indexer() {
    // broken script: each early exit retries with the next attempt, one
    // queue message per attempt; the budget runs out after exactly
    // MAX_START_RETRIES attempts and the record fails with a null pid
    let mut store = IndexerStore::new();
    create_indexer(&mut store, &webhook_request(), 9).unwrap();

    let mut attempt: u32 = 1;
    let mut messages: u32 = 0;
    loop {
        let (decision, _) = start_indexer(&store, 9, false).unwrap();
        assert_eq!(decision, StartDecision::Proceed);
        record_started(&mut store, 9, 1000 + attempt as i64).unwrap();
        // the child exits immediately with a non-zero status
        match classify_exit(false, 0, attempt) {
            SupervisorAction::RetryStart { attempt: next, .. } => {
                messages += 1;
                assert_eq!(next, attempt + 1);
                attempt = next;
            }
            SupervisorAction::EnqueueFail => {
                messages += 1;
                break;
            }
            SupervisorAction::EnqueueStop { .. } => unreachable!(),
        }
    }
    assert_eq!(attempt, MAX_START_RETRIES);
    assert_eq!(messages, MAX_START_RETRIES);

    fail_indexer(&mut store, 9).unwrap();
    let record = store.get(9).unwrap();
    assert_eq!(record.status, IndexerStatus::FailedRunning);
    assert_eq!(record.process_id, None);
}

#[test]
fn fail_indexer_requires_running() {
    let mut store = IndexerStore::new();
    create_indexer(&mut store, &webhook_request(), 9).unwrap();
    assert_eq!(
        fail_indexer(&mut store, 9).unwrap_err(),
        IndexerError::InvalidIndexerStatus(IndexerStatus::Created)
    );
}

#[test]
fn create_probe_timeout_fails_record() {
    // working spawn but the probe never turns healthy: the coordinator
    // fails the record and the create call surfaces an internal error
    let mut store = IndexerStore::new();
    create_indexer(&mut store, &webhook_request(), 9).unwrap();
    record_started(&mut store, 9, 4242).unwrap();

    fail_indexer(&mut store, 9).unwrap();
    let record = store.get(9).unwrap();
    assert_eq!(record.status, IndexerStatus::FailedRunning);
    assert_eq!(record.process_id, None);
    let err = IndexerError::InternalServerError("Indexer failed to start within timeout".to_string());
    assert_eq!(err.http_status(), 500);
}

#[test]
fn delete_indexer_test_works_only_when_stopped() {
    let mut store = IndexerStore::new();
    create_indexer(&mut store, &webhook_request(), 9).unwrap();
    record_started(&mut store, 9, 4242).unwrap();
    stop_indexer(&mut store, 9, StopSignalOutcome::Terminated).unwrap();

    delete_indexer(&mut store, 9).unwrap();
    assert_eq!(store.get(9).unwrap_err(), InfraError::NotFound);
}

#[test]
fn test_delete_indexer_fail_if_not_stopped() {
    // delete against a Running record: refused with a state conflict, and
    // the record stays Running
    let mut store = IndexerStore::new();
    create_indexer(&mut store, &webhook_request(), 9).unwrap();
    record_started(&mut store, 9, 4242).unwrap();

    let err = delete_indexer(&mut store, 9).unwrap_err();
    assert_eq!(err, IndexerError::InvalidIndexerStatus(IndexerStatus::Running));
    assert_eq!(err.http_status(), 409);
    assert_eq!(store.get(9).unwrap().status, IndexerStatus::Running);
}

#[test]
fn reconcile_stopped_converges_under_redelivery() {
    // the stop queue delivers the exit outcome at least once, in any
    // number: the first delivery writes, every further one is a no-op,
    // and the terminal status is the message's status
    let mut store = IndexerStore::new();
    create_indexer(&mut store, &webhook_request(), 9).unwrap();
    record_started(&mut store, 9, 4242).unwrap();

    update_indexer_state(&mut store, 9, IndexerStatus::Stopped, false).unwrap();
    assert_eq!(store.get(9).unwrap().status, IndexerStatus::Stopped);

    // redeliveries of the same message are redundant no-ops
    update_indexer_state(&mut store, 9, IndexerStatus::Stopped, false).unwrap();
    update_indexer_state(&mut store, 9, IndexerStatus::Stopped, false).unwrap();
    let record = store.get(9).unwrap();
    assert_eq!(record.status, IndexerStatus::Stopped);
    assert_eq!(record.process_id, None);
}

#[test]
fn reconcile_stopped_rejects_conflicting_state() {
    let mut store = IndexerStore::new();
    create_indexer(&mut store, &webhook_request(), 9).unwrap();
    record_started(&mut store, 9, 4242).unwrap();
    update_indexer_state(&mut store, 9, IndexerStatus::Stopped, false).unwrap();

    // a message for a different stopped state than the record's is refused
    let err = update_indexer_state(&mut store, 9, IndexerStatus::FailedStopping, false).unwrap_err();
    assert_eq!(err, IndexerError::InvalidIndexerStatus(IndexerStatus::Stopped));
    assert_eq!(store.get(9).unwrap().status, IndexerStatus::Stopped);
}

#[test]
fn reconcile_stopped_requires_dead_child() {
    let mut store = IndexerStore::new();
    create_indexer(&mut store, &webhook_request(), 9).unwrap();
    record_started(&mut store, 9, 4242).unwrap();

    assert!(update_indexer_state(&mut store, 9, IndexerStatus::Stopped, true).is_err());
    assert_eq!(store.get(9).unwrap().status, IndexerStatus::Running);
}

#[test]
fn reconcile_rejects_non_stopped_target() {
    let mut store = IndexerStore::new();
    create_indexer(&mut store, &webhook_request(), 9).unwrap();
    assert_eq!(
        update_indexer_state(&mut store, 9, IndexerStatus::Running, false).unwrap_err(),
        IndexerError::InvalidIndexerStatus(IndexerStatus::Running)
    );
}

#[test]
fn startup_recovery_lists_running_records() {
    let mut store = IndexerStore::new();
    create_indexer(&mut store, &webhook_request(), 1).unwrap();
    create_indexer(&mut store, &postgres_request("foo"), 2).unwrap();
    record_started(&mut store, 2, 77).unwrap();

    let jobs = start_all_indexers(&store);
    assert_eq!(jobs.len(), 1);
    assert_eq!(jobs[0].id, 2);
    assert_eq!(jobs[0].attempt_no, 1);
}

#[test]
fn create_indexer_request_default() {
    let req = CreateIndexerRequest::default();
    assert!(matches!(req.indexer_type, IndexerType::Webhook));
    assert!(req.target_url.is_none());
    assert!(req.table_name.is_none());
    assert!(req.indexer_id.is_none());
    assert!(req.data.is_empty());
    assert_eq!(req.status_server_port, 1234);
}
