use indexer_service::errors::IndexerError;
use indexer_service::launcher::{
    binary_name, binary_path, get_s3_script_key, get_script_tmp_directory, start_args,
    starting_block_text, LauncherConfig,
};
use indexer_service::model::{IndexerModel, IndexerStatus, IndexerType};

const ID: u128 = 0x67e55044_10b1_426f_9247_bb680e5fe0c8;
const ID_TEXT: &str = "67e55044-10b1-426f-9247-bb680e5fe0c8";

fn config() -> LauncherConfig {
    LauncherConfig {
        binary_base_path: "/opt/sinks".to_string(),
        auth_token: "token".to_string(),
        redis_url: "redis://localhost".to_string(),
        default_postgres_connection: "postgres://default".to_string(),
        tmp_dir: "/tmp".to_string(),
    }
}

fn record(ty: IndexerType) -> IndexerModel {
    IndexerModel {
        id: ID,
        status: IndexerStatus::Created,
        indexer_type: ty,
        process_id: None,
        target_url: if matches!(ty, IndexerType::Webhook) {
            Some("https://webhook.site/ex".to_string())
        } else {
            None
        },
        table_name: if matches!(ty, IndexerType::Postgres) {
            Some("test_table".to_string())
        } else {
            None
        },
        status_server_port: Some(8080),
        custom_connection_string: None,
        starting_block: None,
        indexer_id: None,
    }
}

fn common_prefix() -> Vec<String> {
    vec![
        "run".to_string(),
        format!("/tmp/{}.js", ID_TEXT),
        "--auth-token".to_string(),
        "token".to_string(),
        "--persist-to-redis".to_string(),
        "redis://localhost".to_string(),
        "--sink-id".to_string(),
        ID_TEXT.to_string(),
        "--status-server-address".to_string(),
        "0.0.0.0:8080".to_string(),
        "--allow-env-from-env".to_string(),
        "STARTING_BLOCK".to_string(),
    ]
}

#[test]
fn binary_names_per_variant() {
    assert_eq!(binary_name(IndexerType::Webhook), "sink-webhook");
    assert_eq!(binary_name(IndexerType::Postgres), "sink-postgres");
    assert_eq!(binary_name(IndexerType::Console), "sink-console");
    assert_eq!(binary_path("/opt/sinks", IndexerType::Webhook), "/opt/sinks/sink-webhook");
}

#[test]
fn script_key_and_staging_path() {
    assert_eq!(get_s3_script_key(ID), format!("scripts/{}.js", ID_TEXT));
    assert_eq!(get_script_tmp_directory("/tmp", ID), format!("/tmp/{}.js", ID_TEXT));
}

#[test]
fn webhook_args_exact() {
    let args = start_args(&config(), &record(IndexerType::Webhook)).unwrap();
    let mut expected = common_prefix();
    expected.push("--target-url".to_string());
    expected.push("https://webhook.site/ex".to_string());
    assert_eq!(args, expected);
}

#[test]
fn postgres_args_use_default_connection() {
    let args = start_args(&config(), &record(IndexerType::Postgres)).unwrap();
    let mut expected = common_prefix();
    expected.push("--connection-string".to_string());
    expected.push("postgres://default".to_string());
    expected.push("--table-name".to_string());
    expected.push("test_table".to_string());
    assert_eq!(args, expected);
}

#[test]
fn postgres_args_prefer_custom_connection() {
    let mut rec = record(IndexerType::Postgres);
    rec.custom_connection_string = Some("postgres://custom".to_string());
    let args = start_args(&config(), &rec).unwrap();
    assert!(args.contains(&"postgres://custom".to_string()));
    assert!(!args.contains(&"postgres://default".to_string()));
}

#[test]
fn console_args_have_no_extras() {
    let args = start_args(&config(), &record(IndexerType::Console)).unwrap();
    assert_eq!(args, common_prefix());
}

#[test]
fn sink_id_prefers_external_id() {
    let mut rec = record(IndexerType::Console);
    rec.indexer_id = Some("my-sink".to_string());
    let args = start_args(&config(), &rec).unwrap();
    let pos = args.iter().position(|a| a == "--sink-id").unwrap();
    assert_eq!(args[pos + 1], "my-sink");
}

#[test]
fn starting_block_defaults_to_one() {
    let mut rec = record(IndexerType::Console);
    assert_eq!(starting_block_text(&rec), "1");
    rec.starting_block = Some(1234567);
    assert_eq!(starting_block_text(&rec), "1234567");
}

#[test]
fn missing_port_is_refused() {
    let mut rec = record(IndexerType::Console);
    rec.status_server_port = None;
    assert_eq!(
        start_args(&config(), &rec).unwrap_err(),
        IndexerError::IndexerStatusServerPortNotFound
    );
}
