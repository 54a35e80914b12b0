//! The sink launcher: resolves which binary a record's variant runs and
//! assembles the exact argument vector and environment the child is spawned
//! with. Spawning itself is process I/O and happens outside the library;
//! callers hand the resulting pid back to the coordinator.

use vstd::prelude::*;

use crate::errors::IndexerError;
use crate::model::{IndexerModel, IndexerType};
use crate::textfmt::{i32_to_string, i64_to_string, int_str, uuid_str, uuid_text};

verus! {

/// The starting block handed to a child whose record names none.
pub const DEFAULT_STARTING_BLOCK: i64 = 1;

/// Values the launcher needs from the process environment; the caller
/// resolves them once and passes them in.
pub struct LauncherConfig {
    pub binary_base_path: String,
    pub auth_token: String,
    pub redis_url: String,
    pub default_postgres_connection: String,
    pub tmp_dir: String,
}

/// The webhook sink variant.
pub struct WebhookIndexer;

/// The Postgres sink variant.
pub struct PostgresIndexer;

/// The console sink variant.
pub struct ConsoleIndexer;

pub open spec fn binary_name_spec(t: IndexerType) -> Seq<char> {
    match t {
        IndexerType::Webhook => "sink-webhook"@,
        IndexerType::Postgres => "sink-postgres"@,
        IndexerType::Console => "sink-console"@,
    }
}

/// The object-store key of a record's script blob.
pub open spec fn script_key_spec(id: u128) -> Seq<char> {
    "scripts/"@ + uuid_str(id) + ".js"@
}

/// The local path the script is staged to before a start.
pub open spec fn script_path_spec(tmp_dir: Seq<char>, id: u128) -> Seq<char> {
    tmp_dir + "/"@ + uuid_str(id) + ".js"@
}

/// The `--sink-id` value: the record's external id, or its own id rendered.
pub open spec fn sink_id_spec(m: IndexerModel) -> Seq<char> {
    if m.indexer_id is Some {
        m.indexer_id.unwrap()@
    } else {
        uuid_str(m.id)
    }
}

/// The starting block exported to the child.
pub open spec fn starting_block_spec(m: IndexerModel) -> int {
    if m.starting_block is Some {
        m.starting_block.unwrap() as int
    } else {
        DEFAULT_STARTING_BLOCK as int
    }
}

/// The full path of the sink binary for this variant.
pub open spec fn binary_path_spec(base: Seq<char>, t: IndexerType) -> Seq<char> {
    base + "/"@ + binary_name_spec(t)
}

/// The argument vector every sink variant accepts.
pub open spec fn common_args_spec(cfg: LauncherConfig, m: IndexerModel, port: i32) -> Seq<
    Seq<char>,
> {
    seq![
        "run"@,
        script_path_spec(cfg.tmp_dir@, m.id),
        "--auth-token"@,
        cfg.auth_token@,
        "--persist-to-redis"@,
        cfg.redis_url@,
        "--sink-id"@,
        sink_id_spec(m),
        "--status-server-address"@,
        "0.0.0.0:"@ + int_str(port as int),
        "--allow-env-from-env"@,
        "STARTING_BLOCK"@,
    ]
}

/// The variant-specific arguments appended after the common ones.
pub open spec fn extra_args_spec(cfg: LauncherConfig, m: IndexerModel) -> Seq<Seq<char>> {
    match m.indexer_type {
        IndexerType::Webhook => seq!["--target-url"@, m.target_url.unwrap()@],
        IndexerType::Postgres => seq![
            "--connection-string"@,
            if m.custom_connection_string is Some {
                m.custom_connection_string.unwrap()@
            } else {
                cfg.default_postgres_connection@
            },
            "--table-name"@,
            m.table_name.unwrap()@,
        ],
        IndexerType::Console => Seq::empty(),
    }
}

/// The complete argument vector for a spawn.
pub open spec fn start_args_spec(cfg: LauncherConfig, m: IndexerModel, port: i32) -> Seq<
    Seq<char>,
> {
    common_args_spec(cfg, m, port) + extra_args_spec(cfg, m)
}

/// The name of the sink binary a variant runs.
pub fn binary_name(t: IndexerType) -> (r: &'static str)
    ensures
        r@ == binary_name_spec(t),
{
    match t {
        IndexerType::Webhook => "sink-webhook",
        IndexerType::Postgres => "sink-postgres",
        IndexerType::Console => "sink-console",
    }
}

/// The object-store key of a record's script blob.
pub fn get_s3_script_key(id: u128) -> (r: String)
    ensures
        r@ == script_key_spec(id),
{
    let mut s = String::from_str("scripts/");
    let id_text = uuid_text(id);
    s.append(id_text.as_str());
    s.append(".js");
    proof {
        assert(s@ =~= script_key_spec(id));
    }
    s
}

/// The local path the script is staged to before a start.
pub fn get_script_tmp_directory(tmp_dir: &str, id: u128) -> (r: String)
    ensures
        r@ == script_path_spec(tmp_dir@, id),
{
    let mut s = String::from_str(tmp_dir);
    s.append("/");
    let id_text = uuid_text(id);
    s.append(id_text.as_str());
    s.append(".js");
    proof {
        assert(s@ =~= script_path_spec(tmp_dir@, id));
    }
    s
}

/// The full path of the sink binary for this variant.
pub fn binary_path(base: &str, t: IndexerType) -> (r: String)
    ensures
        r@ == binary_path_spec(base@, t),
{
    let mut s = String::from_str(base);
    s.append("/");
    s.append(binary_name(t));
    proof {
        assert(s@ =~= binary_path_spec(base@, t));
    }
    s
}

/// The `STARTING_BLOCK` value exported to the child.
pub fn starting_block_text(m: &IndexerModel) -> (r: String)
    ensures
        r@ == int_str(starting_block_spec(*m)),
{
    match m.starting_block {
        Some(b) => i64_to_string(b),
        None => i64_to_string(DEFAULT_STARTING_BLOCK),
    }
}

/// The complete argument vector of a spawn for this record. The record
/// carries no status server port exactly when this fails.
pub fn start_args(cfg: &LauncherConfig, m: &IndexerModel) -> (r: Result<Vec<String>, IndexerError>)
    requires
        m.wf(),
    ensures
        m.status_server_port is Some ==> r is Ok && r.unwrap().deep_view() == start_args_spec(
            *cfg,
            *m,
            m.status_server_port.unwrap(),
        ),
        m.status_server_port is None ==> r == Result::<Vec<String>, IndexerError>::Err(
            IndexerError::IndexerStatusServerPortNotFound,
        ),
{
    let port = match m.status_server_port {
        Some(p) => p,
        None => {
            return Err(IndexerError::IndexerStatusServerPortNotFound);
        },
    };
    let mut args: Vec<String> = Vec::new();
    args.push(String::from_str("run"));
    args.push(get_script_tmp_directory(cfg.tmp_dir.as_str(), m.id));
    args.push(String::from_str("--auth-token"));
    args.push(cfg.auth_token.clone());
    args.push(String::from_str("--persist-to-redis"));
    args.push(cfg.redis_url.clone());
    args.push(String::from_str("--sink-id"));
    match &m.indexer_id {
        Some(sink_id) => args.push(sink_id.clone()),
        None => args.push(uuid_text(m.id)),
    }
    args.push(String::from_str("--status-server-address"));
    let mut address = String::from_str("0.0.0.0:");
    let port_text = i32_to_string(port);
    address.append(port_text.as_str());
    args.push(address);
    args.push(String::from_str("--allow-env-from-env"));
    args.push(String::from_str("STARTING_BLOCK"));
    match m.indexer_type {
        IndexerType::Webhook => {
            args.push(String::from_str("--target-url"));
            match &m.target_url {
                Some(url) => args.push(url.clone()),
                None => {
                    proof {
                        assert(false);
                    }
                },
            }
        },
        IndexerType::Postgres => {
            args.push(String::from_str("--connection-string"));
            match &m.custom_connection_string {
                Some(conn) => args.push(conn.clone()),
                None => args.push(cfg.default_postgres_connection.clone()),
            }
            args.push(String::from_str("--table-name"));
            match &m.table_name {
                Some(table) => args.push(table.clone()),
                None => {
                    proof {
                        assert(false);
                    }
                },
            }
        },
        IndexerType::Console => {},
    }
    proof {
        assert(args.deep_view() =~= start_args_spec(*cfg, *m, port));
    }
    Ok(args)
}

impl WebhookIndexer {
    /// The arguments a webhook sink is started with.
    pub fn start_args(&self, cfg: &LauncherConfig, m: &IndexerModel) -> (r: Result<
        Vec<String>,
        IndexerError,
    >)
        requires
            m.wf(),
            m.indexer_type is Webhook,
        ensures
            m.status_server_port is Some ==> r is Ok && r.unwrap().deep_view()
                == start_args_spec(*cfg, *m, m.status_server_port.unwrap()),
            m.status_server_port is None ==> r is Err,
    {
        start_args(cfg, m)
    }
}

impl PostgresIndexer {
    /// The arguments a Postgres sink is started with.
    pub fn start_args(&self, cfg: &LauncherConfig, m: &IndexerModel) -> (r: Result<
        Vec<String>,
        IndexerError,
    >)
        requires
            m.wf(),
            m.indexer_type is Postgres,
        ensures
            m.status_server_port is Some ==> r is Ok && r.unwrap().deep_view()
                == start_args_spec(*cfg, *m, m.status_server_port.unwrap()),
            m.status_server_port is None ==> r is Err,
    {
        start_args(cfg, m)
    }
}

impl ConsoleIndexer {
    /// The arguments a console sink is started with.
    pub fn start_args(&self, cfg: &LauncherConfig, m: &IndexerModel) -> (r: Result<
        Vec<String>,
        IndexerError,
    >)
        requires
            m.wf(),
            m.indexer_type is Console,
        ensures
            m.status_server_port is Some ==> r is Ok && r.unwrap().deep_view()
                == start_args_spec(*cfg, *m, m.status_server_port.unwrap()),
            m.status_server_port is None ==> r is Err,
    {
        start_args(cfg, m)
    }
}

} // verus!
