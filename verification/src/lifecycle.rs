//! The lifecycle coordinator: the canonical state machine over indexer
//! records. Every entry point reads the current record, decides whether the
//! transition is legal, and applies it as one atomic store write. The
//! process work around these decisions (spawning, signalling, probing) is
//! I/O and happens outside the library; its outcome is handed in as a plain
//! value, and each function states what holds for every such outcome.

use vstd::prelude::*;

use crate::errors::{IndexerError, InfraError};
use crate::model::{IndexerModel, IndexerStatus, IndexerType};
use crate::queue::StartIndexerRequest;
use crate::store::{
    contains_id, filtered, id_index, lemma_contains_id, record_of,
    table_conflict, with_status, with_status_and_pid, IndexerFilter, IndexerStore,
};

verus! {

/// What the start handler does with a record.
#[derive(Clone, Copy, Debug, PartialEq, Eq, Structural)]
pub enum StartDecision {
    /// The record is `Running` and its child is alive: starting is a no-op.
    AlreadyRunning,
    /// Stage the script, spawn the sink, and record the new pid.
    Proceed,
}

/// How signalling the child of a stopping record went.
#[derive(Clone, Copy, Debug, PartialEq, Eq, Structural)]
pub enum StopSignalOutcome {
    /// The child was signalled and terminated.
    Terminated,
    /// The child was already gone; stopping still succeeds.
    NotRunning,
    /// The signal could not be delivered.
    SignalFailed,
}

/// The start decision for a record in this status. `pid_alive` reports
/// whether the recorded pid is a live, non-zombie process; it matters only
/// for `Running` records: a stale `Running` record (dead or zombie child)
/// proceeds to a fresh start.
pub open spec fn start_decision_spec(st: IndexerStatus, pid_alive: bool) -> Option<StartDecision> {
    match st {
        IndexerStatus::Created => Some(StartDecision::Proceed),
        IndexerStatus::Stopped => Some(StartDecision::Proceed),
        IndexerStatus::FailedRunning => Some(StartDecision::Proceed),
        IndexerStatus::Running => if pid_alive {
            Some(StartDecision::AlreadyRunning)
        } else {
            Some(StartDecision::Proceed)
        },
        IndexerStatus::FailedStopping => None,
    }
}

/// The status a stop records for each signal outcome: an already-dead child
/// still counts as stopped.
pub open spec fn stop_status_spec(outcome: StopSignalOutcome) -> IndexerStatus {
    match outcome {
        StopSignalOutcome::SignalFailed => IndexerStatus::FailedStopping,
        _ => IndexerStatus::Stopped,
    }
}

/// Start idempotence: a start against a `Running` record whose pid is alive
/// decides `AlreadyRunning`, and the handler then makes no store write (the
/// reading half takes the store by shared reference; only `record_started`
/// mutates it, which the protocol reaches only on `Proceed`). State and pid
/// stay as they were.
pub proof fn lemma_start_idempotent(s: Seq<IndexerModel>, id: u128)
    requires
        contains_id(s, id),
        record_of(s, id).status is Running,
    ensures
        start_decision_spec(record_of(s, id).status, true) == Some(StartDecision::AlreadyRunning),
{
}

/// The reading half of the start handler: look the record up and decide.
/// Fails with `NotFound` on an unknown id and refuses a record that is
/// `FailedStopping`. On `Proceed` the caller stages the script, spawns the
/// sink, and hands the new pid to `record_started`.
pub fn start_indexer(store: &IndexerStore, id: u128, pid_alive: bool) -> (r: Result<
    (StartDecision, IndexerModel),
    IndexerError,
>)
    requires
        store.inv(),
    ensures
        !contains_id(store@, id) ==> r == Result::<(StartDecision, IndexerModel), IndexerError>::Err(
            IndexerError::InfraError(InfraError::NotFound),
        ),
        contains_id(store@, id) && record_of(store@, id).status is FailedStopping ==> r
            == Result::<(StartDecision, IndexerModel), IndexerError>::Err(
            IndexerError::InvalidIndexerStatus(IndexerStatus::FailedStopping),
        ),
        contains_id(store@, id) && !(record_of(store@, id).status is FailedStopping) ==> r is Ok
            && Some(r.unwrap().0) == start_decision_spec(record_of(store@, id).status, pid_alive)
            && r.unwrap().1 == record_of(store@, id),
{
    let record = match store.get(id) {
        Ok(m) => m,
        Err(_) => {
            return Err(IndexerError::InfraError(InfraError::NotFound));
        },
    };
    match record.status {
        IndexerStatus::Running => {
            if pid_alive {
                Ok((StartDecision::AlreadyRunning, record))
            } else {
                Ok((StartDecision::Proceed, record))
            }
        },
        IndexerStatus::FailedStopping => Err(
            IndexerError::InvalidIndexerStatus(IndexerStatus::FailedStopping),
        ),
        _ => Ok((StartDecision::Proceed, record)),
    }
}

/// The writing half of the start handler: record the freshly spawned child,
/// setting status and pid in the same atomic write — the linearization
/// point that gives the child authority over the record.
pub fn record_started(store: &mut IndexerStore, id: u128, pid: i64) -> (r: Result<
    IndexerModel,
    IndexerError,
>)
    requires
        old(store).inv(),
    ensures
        final(store).inv(),
        !contains_id(old(store)@, id) ==> r == Result::<IndexerModel, IndexerError>::Err(
            IndexerError::InfraError(InfraError::NotFound),
        ) && final(store)@ == old(store)@,
        contains_id(old(store)@, id) ==> r == Result::<IndexerModel, IndexerError>::Ok(
            with_status_and_pid(record_of(old(store)@, id), IndexerStatus::Running, pid),
        ) && final(store)@ == old(store)@.update(
            id_index(old(store)@, id),
            with_status_and_pid(record_of(old(store)@, id), IndexerStatus::Running, pid),
        ),
{
    match store.update_status_and_process_id(id, IndexerStatus::Running, pid) {
        Ok(m) => Ok(m),
        Err(e) => {
            proof {
                assert(e == InfraError::NotFound);
            }
            Err(IndexerError::InfraError(e))
        },
    }
}

/// Which pid a stop signals: the record must be `Running`, and a `Running`
/// record always holds a pid (the record invariant).
pub fn stop_decision(m: &IndexerModel) -> (r: Result<i64, IndexerError>)
    requires
        m.wf(),
    ensures
        m.status is Running ==> r is Ok && Some(r.unwrap()) == m.process_id,
        !(m.status is Running) ==> r == Result::<i64, IndexerError>::Err(
            IndexerError::InvalidIndexerStatus(m.status),
        ),
{
    match m.status {
        IndexerStatus::Running => {
            match m.process_id {
                Some(pid) => Ok(pid),
                None => {
                    proof {
                        assert(false);
                    }
                    Err(IndexerError::InvalidIndexerStatus(m.status))
                },
            }
        },
        _ => Err(IndexerError::InvalidIndexerStatus(m.status)),
    }
}

/// The writing half of the stop handler: record the signal's outcome. Legal
/// only while the record is `Running`; termination and an already-dead
/// child both record `Stopped` (stop is idempotent against a child that
/// died on its own), a failed signal records `FailedStopping`, which keeps
/// the pid.
pub fn stop_indexer(store: &mut IndexerStore, id: u128, outcome: StopSignalOutcome) -> (r: Result<
    IndexerStatus,
    IndexerError,
>)
    requires
        old(store).inv(),
    ensures
        final(store).inv(),
        !contains_id(old(store)@, id) ==> r == Result::<IndexerStatus, IndexerError>::Err(
            IndexerError::InfraError(InfraError::NotFound),
        ) && final(store)@ == old(store)@,
        contains_id(old(store)@, id) && !(record_of(old(store)@, id).status is Running) ==> r
            == Result::<IndexerStatus, IndexerError>::Err(
            IndexerError::InvalidIndexerStatus(record_of(old(store)@, id).status),
        ) && final(store)@ == old(store)@,
        contains_id(old(store)@, id) && record_of(old(store)@, id).status is Running ==> r
            == Result::<IndexerStatus, IndexerError>::Ok(stop_status_spec(outcome))
            && final(store)@ == old(store)@.update(
            id_index(old(store)@, id),
            with_status(record_of(old(store)@, id), stop_status_spec(outcome)),
        ),
{
    let record = match store.get(id) {
        Ok(m) => m,
        Err(_) => {
            return Err(IndexerError::InfraError(InfraError::NotFound));
        },
    };
    if !matches!(record.status, IndexerStatus::Running) {
        return Err(IndexerError::InvalidIndexerStatus(record.status));
    }
    let new_status = match outcome {
        StopSignalOutcome::SignalFailed => IndexerStatus::FailedStopping,
        _ => IndexerStatus::Stopped,
    };
    match store.update_status(id, new_status) {
        Ok(_) => Ok(new_status),
        Err(_) => {
            proof {
                assert(false);
            }
            Err(IndexerError::InfraError(InfraError::Backend))
        },
    }
}

/// Mark a record as having failed while running. Legal only from `Running`;
/// nulls the pid in the same write.
pub fn fail_indexer(store: &mut IndexerStore, id: u128) -> (r: Result<(), IndexerError>)
    requires
        old(store).inv(),
    ensures
        final(store).inv(),
        !contains_id(old(store)@, id) ==> r == Result::<(), IndexerError>::Err(
            IndexerError::InfraError(InfraError::NotFound),
        ) && final(store)@ == old(store)@,
        contains_id(old(store)@, id) && !(record_of(old(store)@, id).status is Running) ==> r
            == Result::<(), IndexerError>::Err(
            IndexerError::InvalidIndexerStatus(record_of(old(store)@, id).status),
        ) && final(store)@ == old(store)@,
        contains_id(old(store)@, id) && record_of(old(store)@, id).status is Running ==> r
            == Result::<(), IndexerError>::Ok(()) && final(store)@ == old(store)@.update(
            id_index(old(store)@, id),
            with_status(record_of(old(store)@, id), IndexerStatus::FailedRunning),
        ),
{
    let record = match store.get(id) {
        Ok(m) => m,
        Err(_) => {
            return Err(IndexerError::InfraError(InfraError::NotFound));
        },
    };
    if !matches!(record.status, IndexerStatus::Running) {
        return Err(IndexerError::InvalidIndexerStatus(record.status));
    }
    match store.update_status(id, IndexerStatus::FailedRunning) {
        Ok(_) => Ok(()),
        Err(_) => {
            proof {
                assert(false);
            }
            Err(IndexerError::InfraError(InfraError::Backend))
        },
    }
}

/// What one delivery of a stop-queue message does to the stored records:
/// a write happens only for a `Running` record whose child is gone;
/// everything else leaves the store as it was.
pub open spec fn reconcile_step(
    s: Seq<IndexerModel>,
    id: u128,
    new_status: IndexerStatus,
    child_running: bool,
) -> Seq<IndexerModel> {
    if (new_status is Stopped || new_status is FailedStopping) && contains_id(s, id) && record_of(
        s,
        id,
    ).status is Running && !child_running {
        s.update(id_index(s, id), with_status(record_of(s, id), new_status))
    } else {
        s
    }
}

/// The stop-queue handler: reconcile a record to a stopped state reported
/// by the supervisor. Legal from `Running` (the child must be gone), and
/// from `Stopped`/`FailedStopping` only as the redundant redelivery of the
/// same message, which is a no-op.
pub fn update_indexer_state(
    store: &mut IndexerStore,
    id: u128,
    new_status: IndexerStatus,
    child_running: bool,
) -> (r: Result<(), IndexerError>)
    requires
        old(store).inv(),
    ensures
        final(store).inv(),
        final(store)@ == reconcile_step(old(store)@, id, new_status, child_running),
        !(new_status is Stopped || new_status is FailedStopping) ==> r == Result::<
            (),
            IndexerError,
        >::Err(IndexerError::InvalidIndexerStatus(new_status)),
        (new_status is Stopped || new_status is FailedStopping) && !contains_id(old(store)@, id)
            ==> r == Result::<(), IndexerError>::Err(
            IndexerError::InfraError(InfraError::NotFound),
        ),
        (new_status is Stopped || new_status is FailedStopping) && contains_id(old(store)@, id)
            ==> {
            let current = record_of(old(store)@, id).status;
            match current {
                IndexerStatus::Running => if child_running {
                    r matches Result::<(), IndexerError>::Err(
                        IndexerError::InternalServerError(m),
                    ) && m@ == "Cannot set indexer to stopped if it's still running"@
                } else {
                    r == Result::<(), IndexerError>::Ok(())
                },
                IndexerStatus::Stopped => r == (if current == new_status {
                    Result::<(), IndexerError>::Ok(())
                } else {
                    Result::<(), IndexerError>::Err(IndexerError::InvalidIndexerStatus(current))
                }),
                IndexerStatus::FailedStopping => r == (if current == new_status {
                    Result::<(), IndexerError>::Ok(())
                } else {
                    Result::<(), IndexerError>::Err(IndexerError::InvalidIndexerStatus(current))
                }),
                _ => r == Result::<(), IndexerError>::Err(
                    IndexerError::InvalidIndexerStatus(current),
                ),
            }
        },
{
    if !matches!(new_status, IndexerStatus::Stopped | IndexerStatus::FailedStopping) {
        return Err(IndexerError::InvalidIndexerStatus(new_status));
    }
    let record = match store.get(id) {
        Ok(m) => m,
        Err(_) => {
            return Err(IndexerError::InfraError(InfraError::NotFound));
        },
    };
    match record.status {
        IndexerStatus::Running => {},
        IndexerStatus::Stopped => {
            return if matches!(new_status, IndexerStatus::Stopped) {
                Ok(())
            } else {
                Err(IndexerError::InvalidIndexerStatus(record.status))
            };
        },
        IndexerStatus::FailedStopping => {
            return if matches!(new_status, IndexerStatus::FailedStopping) {
                Ok(())
            } else {
                Err(IndexerError::InvalidIndexerStatus(record.status))
            };
        },
        _ => {
            return Err(IndexerError::InvalidIndexerStatus(record.status));
        },
    }
    if child_running {
        return Err(
            IndexerError::InternalServerError(
                String::from_str("Cannot set indexer to stopped if it's still running"),
            ),
        );
    }
    match store.update_status(id, new_status) {
        Ok(_) => Ok(()),
        Err(_) => {
            proof {
                assert(false);
            }
            Err(IndexerError::InfraError(InfraError::Backend))
        },
    }
}

/// Iterated redeliveries of one stop-queue message.
pub open spec fn reconcile_iter(
    s: Seq<IndexerModel>,
    id: u128,
    new_status: IndexerStatus,
    n: nat,
) -> Seq<IndexerModel>
    decreases n,
{
    if n == 0 {
        s
    } else {
        reconcile_step(reconcile_iter(s, id, new_status, (n - 1) as nat), id, new_status, false)
    }
}

/// Reconciliation convergence: however often the queue redelivers the stop
/// message carrying the last child-exit outcome, once the child is gone the
/// record's terminal status is that outcome, and every delivery after the
/// first changes nothing. (Scope: the record is still `Running`, or was
/// already reconciled to that same outcome; a record moved to a different
/// stopped state by another path keeps it.)
pub proof fn lemma_reconciliation_convergence(
    s: Seq<IndexerModel>,
    id: u128,
    st: IndexerStatus,
    n: nat,
)
    requires
        crate::store::ids_unique(s),
        contains_id(s, id),
        st is Stopped || st is FailedStopping,
        record_of(s, id).status is Running || record_of(s, id).status == st,
        n >= 1,
    ensures
        reconcile_iter(s, id, st, n) == reconcile_step(s, id, st, false),
        contains_id(reconcile_iter(s, id, st, n), id),
        record_of(reconcile_iter(s, id, st, n), id).status == st,
    decreases n,
{
    lemma_contains_id(s, id);
    let i = id_index(s, id);
    let s1 = reconcile_step(s, id, st, false);
    if record_of(s, id).status is Running {
        assert(s1 == s.update(i, with_status(record_of(s, id), st)));
        assert(s1[i].id == id);
        crate::store::lemma_id_index(s1, id, i);
        assert(record_of(s1, id).status == st);
        assert(crate::store::ids_unique(s1)) by {
            assert forall|p: int, q: int| 0 <= p < q < s1.len() implies s1[p].id != s1[q].id by {
                assert(s[p].id != s[q].id);
            }
        }
    } else {
        assert(s1 == s);
    }
    if n == 1 {
        assert(reconcile_iter(s, id, st, 1) == reconcile_step(reconcile_iter(s, id, st, 0), id, st, false));
        assert(reconcile_iter(s, id, st, 0) == s);
    } else {
        lemma_reconciliation_convergence(s, id, st, (n - 1) as nat);
        let prev = reconcile_iter(s, id, st, (n - 1) as nat);
        assert(prev == s1);
        assert(record_of(prev, id).status == st);
        assert(!(record_of(prev, id).status is Running));
        assert(reconcile_step(prev, id, st, false) == prev);
    }
}

/// The edges of the lifecycle state machine: the status changes the
/// coordinator is allowed to write. (`Running` to `Running` is the fresh
/// start over a stale record whose child died with the service; destroying
/// a `Stopped` record by delete is not a status change.)
pub open spec fn legal_transition(from: IndexerStatus, to: IndexerStatus) -> bool {
    ||| (from is Created && to is Running)
    ||| (from is Stopped && to is Running)
    ||| (from is FailedRunning && to is Running)
    ||| (from is Running && to is Running)
    ||| (from is Running && to is Stopped)
    ||| (from is Running && to is FailedStopping)
    ||| (from is Running && to is FailedRunning)
}

/// Every write the coordinator makes walks an edge of the state machine,
/// and no operation writes any other edge: a start proceeds only from the
/// startable statuses and writes `Running`; a stop writes the signal
/// outcome's status from `Running` only; a fail writes `FailedRunning` from
/// `Running` only; a reconcile delivery writes only the message's stopped
/// status, and only over `Running`. That each such write also preserves the
/// invariants of the stored records is the `inv` postcondition the store
/// operations carry.
pub proof fn lemma_transitions_legal(
    s: Seq<IndexerModel>,
    id: u128,
    pid_alive: bool,
    outcome: StopSignalOutcome,
    new_status: IndexerStatus,
    child_running: bool,
)
    requires
        contains_id(s, id),
    ensures
        start_decision_spec(record_of(s, id).status, pid_alive) == Some(StartDecision::Proceed)
            ==> legal_transition(record_of(s, id).status, IndexerStatus::Running),
        record_of(s, id).status is Running ==> legal_transition(
            IndexerStatus::Running,
            stop_status_spec(outcome),
        ),
        record_of(s, id).status is Running ==> legal_transition(
            IndexerStatus::Running,
            IndexerStatus::FailedRunning,
        ),
        reconcile_step(s, id, new_status, child_running) != s ==> record_of(s, id).status
            is Running && legal_transition(IndexerStatus::Running, new_status),
{
}

/// Remove a record. Legal only from `Stopped`.
pub fn delete_indexer(store: &mut IndexerStore, id: u128) -> (r: Result<(), IndexerError>)
    requires
        old(store).inv(),
    ensures
        final(store).inv(),
        !contains_id(old(store)@, id) ==> r == Result::<(), IndexerError>::Err(
            IndexerError::InfraError(InfraError::NotFound),
        ) && final(store)@ == old(store)@,
        contains_id(old(store)@, id) && !(record_of(old(store)@, id).status is Stopped) ==> r
            == Result::<(), IndexerError>::Err(
            IndexerError::InvalidIndexerStatus(record_of(old(store)@, id).status),
        ) && final(store)@ == old(store)@,
        contains_id(old(store)@, id) && record_of(old(store)@, id).status is Stopped ==> r
            == Result::<(), IndexerError>::Ok(()) && final(store)@ == old(store)@.remove(
            id_index(old(store)@, id),
        ),
{
    let record = match store.get(id) {
        Ok(m) => m,
        Err(_) => {
            return Err(IndexerError::InfraError(InfraError::NotFound));
        },
    };
    if !matches!(record.status, IndexerStatus::Stopped) {
        return Err(IndexerError::InvalidIndexerStatus(record.status));
    }
    match store.delete(id) {
        Ok(_) => Ok(()),
        Err(_) => {
            proof {
                assert(false);
            }
            Err(IndexerError::InfraError(InfraError::Backend))
        },
    }
}

/// The start jobs startup recovery publishes: one per `Running` record,
/// each with a fresh attempt budget.
pub open spec fn recovery_jobs_spec(s: Seq<IndexerModel>) -> Seq<StartIndexerRequest> {
    filtered(s, Some(IndexerStatus::Running)).map_values(
        |m: IndexerModel| StartIndexerRequest { id: m.id, attempt_no: 1 },
    )
}

/// At boot, list every record still marked `Running` and build the start
/// job that will reconcile it: the handler no-ops on a live child and
/// starts a fresh one otherwise.
pub fn start_all_indexers(store: &IndexerStore) -> (r: Vec<StartIndexerRequest>)
    ensures
        r@ == recovery_jobs_spec(store@),
{
    let running = store.get_all(
        &IndexerFilter { status: Some(IndexerStatus::Running) },
    );
    let mut jobs: Vec<StartIndexerRequest> = Vec::new();
    let mut i: usize = 0;
    while i < running.len()
        invariant
            0 <= i <= running.len(),
            running@ == filtered(store@, Some(IndexerStatus::Running)),
            jobs@.len() == i,
            forall|k: int|
                0 <= k < i ==> jobs@[k] == (StartIndexerRequest {
                    id: running@[k].id,
                    attempt_no: 1,
                }),
        decreases running.len() - i,
    {
        jobs.push(StartIndexerRequest { id: running[i].id, attempt_no: 1 });
        i += 1;
    }
    proof {
        assert(jobs@ =~= recovery_jobs_spec(store@));
    }
    jobs
}

/// A create request, as the HTTP boundary assembles it from the multipart
/// fields: the script bytes, the variant, its extra fields, and the status
/// server port the boundary allocated.
pub struct CreateIndexerRequest {
    pub indexer_type: IndexerType,
    pub target_url: Option<String>,
    pub table_name: Option<String>,
    pub custom_connection_string: Option<String>,
    pub starting_block: Option<i64>,
    pub indexer_id: Option<String>,
    pub data: Vec<u8>,
    pub status_server_port: i32,
}

impl Default for CreateIndexerRequest {
    /// An empty console-less default: a webhook request with no fields set
    /// and the fallback port.
    fn default() -> (r: Self)
        ensures
            r.indexer_type is Webhook,
            r.target_url is None,
            r.table_name is None,
            r.custom_connection_string is None,
            r.starting_block is None,
            r.indexer_id is None,
            r.data@ == Seq::<u8>::empty(),
            r.status_server_port == 1234,
    {
        CreateIndexerRequest {
            indexer_type: IndexerType::Webhook,
            target_url: None,
            table_name: None,
            custom_connection_string: None,
            starting_block: None,
            indexer_id: None,
            data: Vec::new(),
            status_server_port: 1234,
        }
    }
}

impl CreateIndexerRequest {
    /// A request can be processed when it carries a script and the fields
    /// its variant requires.
    pub open spec fn is_ready_spec(self) -> bool {
        &&& self.data@.len() > 0
        &&& self.indexer_type is Webhook ==> self.target_url is Some
        &&& self.indexer_type is Postgres ==> self.table_name is Some
    }

    /// Check if the request is ready to be processed.
    pub fn is_ready(&self) -> (r: bool)
        ensures
            r == self.is_ready_spec(),
    {
        if self.data.len() == 0 {
            return false;
        }
        match self.indexer_type {
            IndexerType::Postgres => self.table_name.is_some(),
            IndexerType::Webhook => self.target_url.is_some(),
            IndexerType::Console => true,
        }
    }

    /// The external id the child will run under: for Postgres requests
    /// without one, the table name stands in.
    pub open spec fn resolved_indexer_id(self) -> Option<String> {
        if self.indexer_type is Postgres && self.indexer_id is None {
            self.table_name
        } else {
            self.indexer_id
        }
    }
}

/// The record a valid create request persists under a fresh id.
pub open spec fn created_model_spec(req: CreateIndexerRequest, id: u128) -> IndexerModel {
    IndexerModel {
        id,
        status: IndexerStatus::Created,
        indexer_type: req.indexer_type,
        process_id: None,
        target_url: req.target_url,
        table_name: req.table_name,
        status_server_port: Some(req.status_server_port),
        custom_connection_string: req.custom_connection_string,
        starting_block: req.starting_block,
        indexer_id: req.resolved_indexer_id(),
    }
}

/// Persist a new indexer record from a create request. The caller allocated
/// the id and the status server port and uploads the script blob; on
/// success it starts the record inline and probes it. Rejects a request
/// missing its variant's required fields or a script, an id collision, and
/// a taken table name.
pub fn create_indexer(store: &mut IndexerStore, req: &CreateIndexerRequest, id: u128) -> (r:
    Result<IndexerModel, IndexerError>)
    requires
        old(store).inv(),
    ensures
        final(store).inv(),
        !req.is_ready_spec() ==> r == Result::<IndexerModel, IndexerError>::Err(
            IndexerError::FailedToBuildCreateIndexerRequest,
        ) && final(store)@ == old(store)@,
        req.is_ready_spec() && contains_id(old(store)@, id) ==> r == Result::<
            IndexerModel,
            IndexerError,
        >::Err(IndexerError::InfraError(InfraError::Backend)) && final(store)@ == old(store)@,
        req.is_ready_spec() && !contains_id(old(store)@, id) && table_conflict(
            old(store)@,
            req.table_name,
        ) ==> r == Result::<IndexerModel, IndexerError>::Err(
            IndexerError::InfraError(InfraError::AlreadyExists),
        ) && final(store)@ == old(store)@,
        req.is_ready_spec() && !contains_id(old(store)@, id) && !table_conflict(
            old(store)@,
            req.table_name,
        ) ==> r == Result::<IndexerModel, IndexerError>::Ok(created_model_spec(*req, id))
            && final(store)@ == old(store)@.push(created_model_spec(*req, id)),
{
    if !req.is_ready() {
        return Err(IndexerError::FailedToBuildCreateIndexerRequest);
    }
    let indexer_id = if matches!(req.indexer_type, IndexerType::Postgres)
        && req.indexer_id.is_none() {
        crate::model::clone_opt_string(&req.table_name)
    } else {
        crate::model::clone_opt_string(&req.indexer_id)
    };
    let model = IndexerModel {
        id,
        status: IndexerStatus::Created,
        indexer_type: req.indexer_type,
        process_id: None,
        target_url: crate::model::clone_opt_string(&req.target_url),
        table_name: crate::model::clone_opt_string(&req.table_name),
        status_server_port: Some(req.status_server_port),
        custom_connection_string: crate::model::clone_opt_string(&req.custom_connection_string),
        starting_block: req.starting_block,
        indexer_id,
    };
    proof {
        assert(model == created_model_spec(*req, id));
        assert(model.wf());
    }
    match store.insert(model) {
        Ok(created) => Ok(created),
        Err(e) => Err(IndexerError::InfraError(e)),
    }
}

/// Allocate a fresh random id and persist the create request under it.
/// What is stated holds whatever id came back: success persists exactly the
/// requested record under the drawn id, and a drawn id that collides with
/// an existing record surfaces as the backend error, like any other
/// constraint violation.
pub fn create_indexer_fresh(store: &mut IndexerStore, req: &CreateIndexerRequest) -> (r: Result<
    IndexerModel,
    IndexerError,
>)
    requires
        old(store).inv(),
    ensures
        final(store).inv(),
        !req.is_ready_spec() ==> r == Result::<IndexerModel, IndexerError>::Err(
            IndexerError::FailedToBuildCreateIndexerRequest,
        ),
        r is Ok ==> req.is_ready_spec() && r.unwrap() == created_model_spec(*req, r.unwrap().id)
            && final(store)@ == old(store)@.push(r.unwrap()),
        r is Err ==> final(store)@ == old(store)@,
{
    let id = crate::ids::fresh_id();
    create_indexer(store, req, id)
}

} // verus!
