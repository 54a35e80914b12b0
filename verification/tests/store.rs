use indexer_service::errors::InfraError;
use indexer_service::model::{IndexerModel, IndexerStatus, IndexerType};
use indexer_service::store::{IndexerFilter, IndexerStore};

fn webhook_record(id: u128) -> IndexerModel {
    IndexerModel {
        id,
        status: IndexerStatus::Created,
        indexer_type: IndexerType::Webhook,
        process_id: None,
        target_url: Some("https://example.com".to_string()),
        table_name: None,
        status_server_port: Some(1234),
        custom_connection_string: None,
        starting_block: None,
        indexer_id: None,
    }
}

fn postgres_record(id: u128, table: &str) -> IndexerModel {
    IndexerModel {
        id,
        status: IndexerStatus::Created,
        indexer_type: IndexerType::Postgres,
        process_id: None,
        target_url: None,
        table_name: Some(table.to_string()),
        status_server_port: Some(1234),
        custom_connection_string: None,
        starting_block: None,
        indexer_id: Some(table.to_string()),
    }
}

#[test]
fn test_insert_indexer() {
    let mut store = IndexerStore::new();
    let id: u128 = 7;

    let inserted = store.insert(webhook_record(id)).unwrap();

    assert_eq!(inserted.id, id);
    assert_eq!(inserted.status, IndexerStatus::Created);
    assert_eq!(inserted.indexer_type, IndexerType::Webhook);
    assert_eq!(inserted.target_url, Some("https://example.com".to_string()));
    assert_eq!(inserted.process_id, None);
}

#[test]
fn test_get_indexer() {
    let mut store = IndexerStore::new();
    let id: u128 = 42;
    store.insert(webhook_record(id)).unwrap();

    let inserted = store.get(id).unwrap();

    assert_eq!(inserted.id, id);
    assert_eq!(inserted.status, IndexerStatus::Created);
    assert_eq!(inserted.indexer_type, IndexerType::Webhook);
    assert_eq!(inserted.target_url, Some("https://example.com".to_string()));
    assert_eq!(inserted.process_id, None);
}

#[test]
fn test_get_indexer_not_found() {
    let store = IndexerStore::new();
    assert_eq!(store.get(99).unwrap_err(), InfraError::NotFound);
}

#[test]
fn test_update_status() {
    let mut store = IndexerStore::new();
    let id: u128 = 1;
    store.insert(webhook_record(id)).unwrap();
    store.update_status_and_process_id(id, IndexerStatus::Running, 1234).unwrap();

    let updated = store.update_status(id, IndexerStatus::Stopped).unwrap();

    assert_eq!(updated.id, id);
    assert_eq!(updated.status, IndexerStatus::Stopped);
    // a stop transition nulls the pid in the same write
    assert_eq!(updated.process_id, None);

    // Running can only be established together with a pid
    assert_eq!(
        store.update_status(id, IndexerStatus::Running).unwrap_err(),
        InfraError::Backend
    );
}

#[test]
fn test_update_status_and_process_id() {
    let mut store = IndexerStore::new();
    let id: u128 = 1;
    store.insert(webhook_record(id)).unwrap();

    let updated = store
        .update_status_and_process_id(id, IndexerStatus::Running, 1234)
        .unwrap();

    assert_eq!(updated.id, id);
    assert_eq!(updated.status, IndexerStatus::Running);
    assert_eq!(updated.process_id, Some(1234));
}

#[test]
fn test_update_status_and_process_id_needs_process_status() {
    let mut store = IndexerStore::new();
    store.insert(webhook_record(1)).unwrap();
    assert_eq!(
        store
            .update_status_and_process_id(1, IndexerStatus::Stopped, 1234)
            .unwrap_err(),
        InfraError::Backend
    );
}

#[test]
fn test_get_all_indexers() {
    let mut store = IndexerStore::new();
    for id in 0..5u128 {
        store.insert(webhook_record(id)).unwrap();
    }
    store.insert(webhook_record(5)).unwrap();
    store.update_status_and_process_id(5, IndexerStatus::Running, 77).unwrap();

    let created = store.get_all(&IndexerFilter { status: Some(IndexerStatus::Created) });
    assert_eq!(created.len(), 5);

    let all = store.get_all(&IndexerFilter { status: None });
    assert_eq!(all.len(), 6);

    let running = store.get_all(&IndexerFilter { status: Some(IndexerStatus::Running) });
    assert_eq!(running.len(), 1);
    assert_eq!(running[0].id, 5);
}

#[test]
fn test_insert_duplicate_id_rejected() {
    let mut store = IndexerStore::new();
    store.insert(webhook_record(1)).unwrap();
    assert_eq!(store.insert(webhook_record(1)).unwrap_err(), InfraError::Backend);
}

#[test]
fn test_insert_duplicate_table_name_rejected() {
    let mut store = IndexerStore::new();
    store.insert(postgres_record(1, "foo")).unwrap();
    assert_eq!(
        store.insert(postgres_record(2, "foo")).unwrap_err(),
        InfraError::AlreadyExists
    );
    // a different table name is fine
    store.insert(postgres_record(3, "bar")).unwrap();
}

#[test]
fn test_insert_rejects_malformed_record() {
    let mut store = IndexerStore::new();
    let mut bad = webhook_record(1);
    bad.target_url = None;
    assert_eq!(store.insert(bad).unwrap_err(), InfraError::Backend);

    let mut bad_pid = webhook_record(2);
    bad_pid.process_id = Some(10);
    assert_eq!(store.insert(bad_pid).unwrap_err(), InfraError::Backend);
}

#[test]
fn test_get_by_table_name() {
    let mut store = IndexerStore::new();
    store.insert(postgres_record(1, "foo")).unwrap();

    let found = store.get_by_table_name(&"foo".to_string()).unwrap();
    assert_eq!(found.id, 1);
    assert_eq!(found.table_name, Some("foo".to_string()));

    assert_eq!(
        store.get_by_table_name(&"missing".to_string()).unwrap_err(),
        InfraError::NotFound
    );
}

#[test]
fn test_delete_record() {
    let mut store = IndexerStore::new();
    store.insert(webhook_record(1)).unwrap();
    store.delete(1).unwrap();
    assert_eq!(store.get(1).unwrap_err(), InfraError::NotFound);
    assert_eq!(store.delete(1).unwrap_err(), InfraError::NotFound);
}
