//! The indexer record: the sole persisted aggregate, with its invariants.

use vstd::prelude::*;

verus! {

/// Lifecycle state of an indexer record.
#[derive(Clone, Copy, Debug, PartialEq, Eq, Structural)]
pub enum IndexerStatus {
    Created,
    Running,
    Stopped,
    FailedRunning,
    FailedStopping,
}

/// Which sink binary is spawned and which extra arguments it takes.
#[derive(Clone, Copy, Debug, PartialEq, Eq, Structural)]
pub enum IndexerType {
    Webhook,
    Postgres,
    Console,
}

/// One indexer record.
#[derive(Clone, Debug, PartialEq)]
pub struct IndexerModel {
    pub id: u128,
    pub status: IndexerStatus,
    pub indexer_type: IndexerType,
    pub process_id: Option<i64>,
    pub target_url: Option<String>,
    pub table_name: Option<String>,
    pub status_server_port: Option<i32>,
    pub custom_connection_string: Option<String>,
    pub starting_block: Option<i64>,
    pub indexer_id: Option<String>,
}

impl IndexerStatus {
    /// The statuses under which a record owns a live child process.
    pub open spec fn holds_process(self) -> bool {
        self is Running || self is FailedStopping
    }

    pub open spec fn name_spec(self) -> Seq<char> {
        match self {
            IndexerStatus::Created => "Created"@,
            IndexerStatus::Running => "Running"@,
            IndexerStatus::Stopped => "Stopped"@,
            IndexerStatus::FailedRunning => "FailedRunning"@,
            IndexerStatus::FailedStopping => "FailedStopping"@,
        }
    }

    /// The wire and database name of the status.
    pub fn name(self) -> (r: &'static str)
        ensures
            r@ == self.name_spec(),
    {
        match self {
            IndexerStatus::Created => "Created",
            IndexerStatus::Running => "Running",
            IndexerStatus::Stopped => "Stopped",
            IndexerStatus::FailedRunning => "FailedRunning",
            IndexerStatus::FailedStopping => "FailedStopping",
        }
    }

    pub open spec fn parse_spec(s: Seq<char>) -> Option<IndexerStatus> {
        if s == IndexerStatus::Created.name_spec() {
            Some(IndexerStatus::Created)
        } else if s == IndexerStatus::Running.name_spec() {
            Some(IndexerStatus::Running)
        } else if s == IndexerStatus::Stopped.name_spec() {
            Some(IndexerStatus::Stopped)
        } else if s == IndexerStatus::FailedRunning.name_spec() {
            Some(IndexerStatus::FailedRunning)
        } else if s == IndexerStatus::FailedStopping.name_spec() {
            Some(IndexerStatus::FailedStopping)
        } else {
            None
        }
    }

    /// Parse a status name; `None` on anything that `name` never produces.
    pub fn parse(s: &String) -> (r: Option<IndexerStatus>)
        ensures
            r == Self::parse_spec(s@),
    {
        if *s == String::from_str(IndexerStatus::Created.name()) {
            Some(IndexerStatus::Created)
        } else if *s == String::from_str(IndexerStatus::Running.name()) {
            Some(IndexerStatus::Running)
        } else if *s == String::from_str(IndexerStatus::Stopped.name()) {
            Some(IndexerStatus::Stopped)
        } else if *s == String::from_str(IndexerStatus::FailedRunning.name()) {
            Some(IndexerStatus::FailedRunning)
        } else if *s == String::from_str(IndexerStatus::FailedStopping.name()) {
            Some(IndexerStatus::FailedStopping)
        } else {
            None
        }
    }
}

/// Parsing a status name recovers the status: the five names are distinct.
pub proof fn lemma_status_parse_name(st: IndexerStatus)
    ensures
        IndexerStatus::parse_spec(st.name_spec()) == Some(st),
{
    reveal_strlit("Created");
    reveal_strlit("Running");
    reveal_strlit("Stopped");
    reveal_strlit("FailedRunning");
    reveal_strlit("FailedStopping");
    assert(("Created"@)[0] == 'C');
    assert(("Running"@)[0] == 'R');
    assert(("Stopped"@)[0] == 'S');
    assert(("Created"@).len() == 7);
    assert(("Running"@).len() == 7);
    assert(("Stopped"@).len() == 7);
    assert(("FailedRunning"@).len() == 13);
    assert(("FailedStopping"@).len() == 14);
    match st {
        IndexerStatus::Created => {
            assert(IndexerStatus::parse_spec(st.name_spec()) == Some(st));
        },
        IndexerStatus::Running => {
            assert(IndexerStatus::parse_spec(st.name_spec()) == Some(st));
        },
        IndexerStatus::Stopped => {
            assert(IndexerStatus::parse_spec(st.name_spec()) == Some(st));
        },
        IndexerStatus::FailedRunning => {
            assert(IndexerStatus::parse_spec(st.name_spec()) == Some(st));
        },
        IndexerStatus::FailedStopping => {
            assert(IndexerStatus::parse_spec(st.name_spec()) == Some(st));
        },
    }
}

/// Bounds on the length of a status name.
pub proof fn lemma_status_name_len(st: IndexerStatus)
    ensures
        7 <= st.name_spec().len() <= 14,
{
    reveal_strlit("Created");
    reveal_strlit("Running");
    reveal_strlit("Stopped");
    reveal_strlit("FailedRunning");
    reveal_strlit("FailedStopping");
}

impl IndexerType {
    pub open spec fn name_spec(self) -> Seq<char> {
        match self {
            IndexerType::Webhook => "Webhook"@,
            IndexerType::Postgres => "Postgres"@,
            IndexerType::Console => "Console"@,
        }
    }

    /// The wire and database name of the type.
    pub fn name(self) -> (r: &'static str)
        ensures
            r@ == self.name_spec(),
    {
        match self {
            IndexerType::Webhook => "Webhook",
            IndexerType::Postgres => "Postgres",
            IndexerType::Console => "Console",
        }
    }

    pub open spec fn parse_spec(s: Seq<char>) -> Option<IndexerType> {
        if s == IndexerType::Webhook.name_spec() {
            Some(IndexerType::Webhook)
        } else if s == IndexerType::Postgres.name_spec() {
            Some(IndexerType::Postgres)
        } else if s == IndexerType::Console.name_spec() {
            Some(IndexerType::Console)
        } else {
            None
        }
    }

    /// Parse a type name; `None` on anything that `name` never produces.
    pub fn parse(s: &String) -> (r: Option<IndexerType>)
        ensures
            r == Self::parse_spec(s@),
    {
        if *s == String::from_str(IndexerType::Webhook.name()) {
            Some(IndexerType::Webhook)
        } else if *s == String::from_str(IndexerType::Postgres.name()) {
            Some(IndexerType::Postgres)
        } else if *s == String::from_str(IndexerType::Console.name()) {
            Some(IndexerType::Console)
        } else {
            None
        }
    }
}

impl IndexerModel {
    /// Record invariant: a process id is held exactly under `Running` or
    /// `FailedStopping`, and the variant-specific required fields are set.
    pub open spec fn wf(self) -> bool {
        &&& self.process_id is Some <==> self.status.holds_process()
        &&& self.indexer_type is Webhook ==> self.target_url is Some
        &&& self.indexer_type is Postgres ==> self.table_name is Some
    }

    /// A field-by-field copy whose result is known equal to the copied value.
    pub fn duplicate(&self) -> (r: IndexerModel)
        ensures
            r == *self,
    {
        IndexerModel {
            id: self.id,
            status: self.status,
            indexer_type: self.indexer_type,
            process_id: self.process_id,
            target_url: clone_opt_string(&self.target_url),
            table_name: clone_opt_string(&self.table_name),
            status_server_port: self.status_server_port,
            custom_connection_string: clone_opt_string(&self.custom_connection_string),
            starting_block: self.starting_block,
            indexer_id: clone_opt_string(&self.indexer_id),
        }
    }
}

/// Copy an optional string, keeping its value.
pub fn clone_opt_string(s: &Option<String>) -> (r: Option<String>)
    ensures
        r == *s,
{
    match s {
        Some(v) => Some(v.clone()),
        None => None,
    }
}

} // verus!
