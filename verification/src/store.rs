//! The indexer store: persists indexer records, enforces the uniqueness
//! constraints, and performs every mutation as a single atomic write.

use vstd::prelude::*;
use vstd::pervasive::VecAdditionalExecFns;

use crate::errors::InfraError;
use crate::model::{IndexerModel, IndexerStatus};

verus! {

/// Filter for listing records: keep those of this status, or all when `None`.
#[derive(Clone, Copy, Debug)]
pub struct IndexerFilter {
    pub status: Option<IndexerStatus>,
}

/// No two records share an id.
pub open spec fn ids_unique(s: Seq<IndexerModel>) -> bool {
    forall|i: int, j: int| 0 <= i < j < s.len() ==> s[i].id != s[j].id
}

/// `table_name`, where present, is unique across the stored records.
pub open spec fn table_names_unique(s: Seq<IndexerModel>) -> bool {
    forall|i: int, j: int|
        0 <= i < j < s.len() && s[i].table_name is Some && s[j].table_name is Some
            ==> s[i].table_name.unwrap()@ != s[j].table_name.unwrap()@
}

/// Every stored record satisfies the record invariant.
pub open spec fn all_wf(s: Seq<IndexerModel>) -> bool {
    forall|i: int| 0 <= i < s.len() ==> s[i].wf()
}

pub open spec fn contains_id(s: Seq<IndexerModel>, id: u128) -> bool {
    exists|i: int| 0 <= i < s.len() && s[i].id == id
}

pub open spec fn id_index(s: Seq<IndexerModel>, id: u128) -> int {
    choose|i: int| 0 <= i < s.len() && s[i].id == id
}

/// The record with the given id (meaningful only when `contains_id` holds).
pub open spec fn record_of(s: Seq<IndexerModel>, id: u128) -> IndexerModel {
    s[id_index(s, id)]
}

pub open spec fn contains_table(s: Seq<IndexerModel>, name: Seq<char>) -> bool {
    exists|i: int| 0 <= i < s.len() && s[i].table_name is Some && s[i].table_name.unwrap()@ == name
}

pub open spec fn table_index(s: Seq<IndexerModel>, name: Seq<char>) -> int {
    choose|i: int| 0 <= i < s.len() && s[i].table_name is Some && s[i].table_name.unwrap()@ == name
}

/// The record with the given table name (meaningful only when
/// `contains_table` holds).
pub open spec fn record_of_table(s: Seq<IndexerModel>, name: Seq<char>) -> IndexerModel {
    s[table_index(s, name)]
}

/// Whether inserting a record with this `table_name` would violate the
/// uniqueness constraint.
pub open spec fn table_conflict(s: Seq<IndexerModel>, name: Option<String>) -> bool {
    name is Some && contains_table(s, name.unwrap()@)
}

pub open spec fn matches_filter(m: IndexerModel, f: Option<IndexerStatus>) -> bool {
    f is Some ==> m.status == f.unwrap()
}

/// The subsequence of records that pass the filter, in store order.
pub open spec fn filtered(s: Seq<IndexerModel>, f: Option<IndexerStatus>) -> Seq<IndexerModel>
    decreases s.len(),
{
    if s.len() == 0 {
        Seq::empty()
    } else if matches_filter(s.last(), f) {
        filtered(s.drop_last(), f).push(s.last())
    } else {
        filtered(s.drop_last(), f)
    }
}

/// The record produced by a status-only update: the process id is kept
/// exactly where the new status still owns a process, and nulled otherwise.
pub open spec fn with_status(m: IndexerModel, st: IndexerStatus) -> IndexerModel {
    IndexerModel {
        status: st,
        process_id: if st.holds_process() {
            m.process_id
        } else {
            None
        },
        ..m
    }
}

/// The record produced by the atomic status-and-pid update.
pub open spec fn with_status_and_pid(m: IndexerModel, st: IndexerStatus, pid: i64) -> IndexerModel {
    IndexerModel { status: st, process_id: Some(pid), ..m }
}

/// In a store with unique ids, any index holding `id` is the id's index.
pub proof fn lemma_id_index(s: Seq<IndexerModel>, id: u128, i: int)
    requires
        ids_unique(s),
        0 <= i < s.len(),
        s[i].id == id,
    ensures
        contains_id(s, id),
        id_index(s, id) == i,
{
    assert(contains_id(s, id));
    let j = id_index(s, id);
    assert(0 <= j < s.len() && s[j].id == id);
    if i < j {
        assert(s[i].id != s[j].id);
    } else if j < i {
        assert(s[j].id != s[i].id);
    }
}

/// Elaborates the witness behind `contains_id`.
pub proof fn lemma_contains_id(s: Seq<IndexerModel>, id: u128)
    requires
        contains_id(s, id),
    ensures
        0 <= id_index(s, id) < s.len(),
        s[id_index(s, id)].id == id,
        record_of(s, id).id == id,
{
}

/// In a store with unique table names, any index holding `name` is the
/// name's index.
pub proof fn lemma_table_index(s: Seq<IndexerModel>, name: Seq<char>, i: int)
    requires
        table_names_unique(s),
        0 <= i < s.len(),
        s[i].table_name is Some,
        s[i].table_name.unwrap()@ == name,
    ensures
        contains_table(s, name),
        table_index(s, name) == i,
{
    assert(contains_table(s, name));
    let j = table_index(s, name);
    assert(0 <= j < s.len() && s[j].table_name is Some && s[j].table_name.unwrap()@ == name);
    if i < j {
        assert(s[i].table_name.unwrap()@ != s[j].table_name.unwrap()@);
    } else if j < i {
        assert(s[j].table_name.unwrap()@ != s[i].table_name.unwrap()@);
    }
}

/// A stored record holds a process id exactly while its status owns a
/// process: `process_id` is set if and only if the status is `Running` or
/// `FailedStopping`.
pub proof fn lemma_pid_iff_process_status(s: Seq<IndexerModel>, i: int)
    requires
        all_wf(s),
        0 <= i < s.len(),
    ensures
        s[i].process_id is Some <==> s[i].status.holds_process(),
{
}

/// `table_name`, where present, is unique across the stored (that is,
/// non-deleted) records: two records carrying the same name are the same
/// record.
pub proof fn lemma_table_name_unique(s: Seq<IndexerModel>, i: int, j: int)
    requires
        table_names_unique(s),
        0 <= i < s.len(),
        0 <= j < s.len(),
        s[i].table_name is Some,
        s[j].table_name is Some,
        s[i].table_name.unwrap()@ == s[j].table_name.unwrap()@,
    ensures
        i == j,
{
    if i < j {
        assert(s[i].table_name.unwrap()@ != s[j].table_name.unwrap()@);
    } else if j < i {
        assert(s[j].table_name.unwrap()@ != s[i].table_name.unwrap()@);
    }
}

/// The in-memory indexer store. Every mutation checks the record and store
/// invariants and refuses writes that would break them.
pub struct IndexerStore {
    records: Vec<IndexerModel>,
}

impl View for IndexerStore {
    type V = Seq<IndexerModel>;

    closed spec fn view(&self) -> Seq<IndexerModel> {
        self.records@
    }
}

impl IndexerStore {
    /// Store invariant: unique ids, unique table names, well-formed records.
    pub open spec fn inv(self) -> bool {
        &&& ids_unique(self@)
        &&& table_names_unique(self@)
        &&& all_wf(self@)
    }

    pub fn new() -> (r: IndexerStore)
        ensures
            r@ == Seq::<IndexerModel>::empty(),
            r.inv(),
    {
        IndexerStore { records: Vec::new() }
    }

    /// Index of the record with this id, if any.
    fn find(&self, id: u128) -> (r: Option<usize>)
        ensures
            match r {
                Some(i) => i < self@.len() && self@[i as int].id == id,
                None => !contains_id(self@, id),
            },
    {
        let mut i: usize = 0;
        while i < self.records.len()
            invariant
                i <= self.records.len(),
                forall|k: int| 0 <= k < i ==> self.records@[k].id != id,
            decreases self.records.len() - i,
        {
            if self.records[i].id == id {
                return Some(i);
            }
            i += 1;
        }
        None
    }

    /// Index of the record with this table name, if any.
    fn find_table(&self, name: &String) -> (r: Option<usize>)
        ensures
            match r {
                Some(i) => i < self@.len() && self@[i as int].table_name is Some
                    && self@[i as int].table_name.unwrap()@ == name@,
                None => !contains_table(self@, name@),
            },
    {
        let mut i: usize = 0;
        while i < self.records.len()
            invariant
                i <= self.records.len(),
                forall|k: int|
                    0 <= k < i ==> !(self.records@[k].table_name is Some
                        && self.records@[k].table_name.unwrap()@ == name@),
            decreases self.records.len() - i,
        {
            match &self.records[i].table_name {
                Some(t) => {
                    if *t == *name {
                        return Some(i);
                    }
                },
                None => {},
            }
            i += 1;
        }
        None
    }

    /// Insert a new record. Fails with `Backend` when the record breaks the
    /// record invariant or reuses an id, and with `AlreadyExists` when its
    /// table name is already taken.
    pub fn insert(&mut self, new_indexer: IndexerModel) -> (r: Result<IndexerModel, InfraError>)
        requires
            old(self).inv(),
        ensures
            final(self).inv(),
            !new_indexer.wf() ==> r == Result::<IndexerModel, InfraError>::Err(InfraError::Backend)
                && final(self)@ == old(self)@,
            new_indexer.wf() && contains_id(old(self)@, new_indexer.id) ==> r
                == Result::<IndexerModel, InfraError>::Err(InfraError::Backend) && final(self)@ == old(
                self,
            )@,
            new_indexer.wf() && !contains_id(old(self)@, new_indexer.id) && table_conflict(
                old(self)@,
                new_indexer.table_name,
            ) ==> r == Result::<IndexerModel, InfraError>::Err(InfraError::AlreadyExists) && final(self)@
                == old(self)@,
            new_indexer.wf() && !contains_id(old(self)@, new_indexer.id) && !table_conflict(
                old(self)@,
                new_indexer.table_name,
            ) ==> r == Result::<IndexerModel, InfraError>::Ok(new_indexer) && final(self)@ == old(
                self,
            )@.push(new_indexer),
    {
        if !record_is_wf(&new_indexer) {
            return Err(InfraError::Backend);
        }
        if self.find(new_indexer.id).is_some() {
            return Err(InfraError::Backend);
        }
        match &new_indexer.table_name {
            Some(t) => {
                if self.find_table(t).is_some() {
                    return Err(InfraError::AlreadyExists);
                }
            },
            None => {},
        }
        let created = new_indexer.duplicate();
        self.records.push(new_indexer);
        proof {
            let s = old(self)@;
            let s2 = self@;
            assert forall|i: int, j: int| 0 <= i < j < s2.len() implies s2[i].id != s2[j].id by {
                if j < s.len() {
                } else {
                    assert(s2[j] == new_indexer);
                    assert(s[i].id != new_indexer.id) by {
                        if s[i].id == new_indexer.id {
                            assert(contains_id(s, new_indexer.id));
                        }
                    }
                }
            }
            assert forall|i: int, j: int|
                0 <= i < j < s2.len() && s2[i].table_name is Some && s2[j].table_name
                    is Some implies s2[i].table_name.unwrap()@ != s2[j].table_name.unwrap()@ by {
                if j < s.len() {
                } else {
                    assert(s2[j] == new_indexer);
                    if s[i].table_name is Some && new_indexer.table_name is Some {
                        if s[i].table_name.unwrap()@ == new_indexer.table_name.unwrap()@ {
                            assert(contains_table(s, new_indexer.table_name.unwrap()@));
                        }
                    }
                }
            }
        }
        Ok(created)
    }

    /// Read the record with this id.
    pub fn get(&self, id: u128) -> (r: Result<IndexerModel, InfraError>)
        requires
            self.inv(),
        ensures
            r is Ok <==> contains_id(self@, id),
            r is Ok ==> r.unwrap() == record_of(self@, id) && r.unwrap().id == id
                && r.unwrap().wf(),
            r is Err ==> r.unwrap_err() == InfraError::NotFound,
    {
        match self.find(id) {
            Some(i) => {
                proof {
                    lemma_id_index(self@, id, i as int);
                }
                Ok(self.records[i].duplicate())
            },
            None => Err(InfraError::NotFound),
        }
    }

    /// Read the record with this table name.
    pub fn get_by_table_name(&self, name: &String) -> (r: Result<IndexerModel, InfraError>)
        requires
            self.inv(),
        ensures
            r is Ok <==> contains_table(self@, name@),
            r is Ok ==> r.unwrap() == record_of_table(self@, name@) && r.unwrap().wf(),
            r is Err ==> r.unwrap_err() == InfraError::NotFound,
    {
        match self.find_table(name) {
            Some(i) => {
                proof {
                    lemma_table_index(self@, name@, i as int);
                }
                Ok(self.records[i].duplicate())
            },
            None => Err(InfraError::NotFound),
        }
    }

    /// List the records that pass the filter, in store order.
    pub fn get_all(&self, filter: &IndexerFilter) -> (r: Vec<IndexerModel>)
        ensures
            r@ == filtered(self@, filter.status),
    {
        let mut out: Vec<IndexerModel> = Vec::new();
        let mut i: usize = 0;
        proof {
            assert(self@.take(0) =~= Seq::<IndexerModel>::empty());
        }
        while i < self.records.len()
            invariant
                i <= self.records.len(),
                out@ == filtered(self@.take(i as int), filter.status),
            decreases self.records.len() - i,
        {
            let rec = &self.records[i];
            let keep = match filter.status {
                Some(st) => rec.status == st,
                None => true,
            };
            if keep {
                out.push(rec.duplicate());
            }
            proof {
                let t1 = self@.take(i as int + 1);
                assert(t1.drop_last() =~= self@.take(i as int));
                assert(t1.last() == self@[i as int]);
            }
            i += 1;
        }
        proof {
            assert(self@.take(self@.len() as int) =~= self@);
        }
        out
    }

    /// Update only the status of the record with this id, as one atomic
    /// write. The process id is nulled whenever the new status does not own
    /// a process; `Running` is refused here (only the status-and-pid update
    /// may establish it), as is `FailedStopping` on a record holding no pid.
    pub fn update_status(&mut self, id: u128, status: IndexerStatus) -> (r: Result<
        IndexerModel,
        InfraError,
    >)
        requires
            old(self).inv(),
        ensures
            final(self).inv(),
            !contains_id(old(self)@, id) ==> r == Result::<IndexerModel, InfraError>::Err(
                InfraError::NotFound,
            ) && final(self)@ == old(self)@,
            contains_id(old(self)@, id) && status is Running ==> r == Result::<
                IndexerModel,
                InfraError,
            >::Err(InfraError::Backend) && final(self)@ == old(self)@,
            contains_id(old(self)@, id) && status is FailedStopping && record_of(
                old(self)@,
                id,
            ).process_id is None ==> r == Result::<IndexerModel, InfraError>::Err(
                InfraError::Backend,
            ) && final(self)@ == old(self)@,
            contains_id(old(self)@, id) && !(status is Running) && (status is FailedStopping
                ==> record_of(old(self)@, id).process_id is Some) ==> r == Result::<
                IndexerModel,
                InfraError,
            >::Ok(with_status(record_of(old(self)@, id), status)) && final(self)@ == old(self)@.update(
                id_index(old(self)@, id),
                with_status(record_of(old(self)@, id), status),
            ),
    {
        let i = match self.find(id) {
            Some(i) => i,
            None => {
                return Err(InfraError::NotFound);
            },
        };
        proof {
            lemma_id_index(self@, id, i as int);
        }
        if matches!(status, IndexerStatus::Running) {
            return Err(InfraError::Backend);
        }
        let rec = &self.records[i];
        if matches!(status, IndexerStatus::FailedStopping) && rec.process_id.is_none() {
            return Err(InfraError::Backend);
        }
        let updated = IndexerModel {
            status,
            process_id: if status_holds_process(status) {
                rec.process_id
            } else {
                None
            },
            ..rec.duplicate()
        };
        let result = updated.duplicate();
        self.records.set(i, updated);
        proof {
            lemma_update_keeps_inv(old(self)@, i as int, self@[i as int]);
        }
        Ok(result)
    }

    /// Atomically update status and process id together: the only operation
    /// that may set both, and the only way a record becomes `Running`.
    /// Refused when the new status owns no process.
    pub fn update_status_and_process_id(
        &mut self,
        id: u128,
        status: IndexerStatus,
        process_id: i64,
    ) -> (r: Result<IndexerModel, InfraError>)
        requires
            old(self).inv(),
        ensures
            final(self).inv(),
            !contains_id(old(self)@, id) ==> r == Result::<IndexerModel, InfraError>::Err(
                InfraError::NotFound,
            ) && final(self)@ == old(self)@,
            contains_id(old(self)@, id) && !status.holds_process() ==> r == Result::<
                IndexerModel,
                InfraError,
            >::Err(InfraError::Backend) && final(self)@ == old(self)@,
            contains_id(old(self)@, id) && status.holds_process() ==> r == Result::<
                IndexerModel,
                InfraError,
            >::Ok(with_status_and_pid(record_of(old(self)@, id), status, process_id)) && final(self)@
                == old(self)@.update(
                id_index(old(self)@, id),
                with_status_and_pid(record_of(old(self)@, id), status, process_id),
            ),
    {
        let i = match self.find(id) {
            Some(i) => i,
            None => {
                return Err(InfraError::NotFound);
            },
        };
        proof {
            lemma_id_index(self@, id, i as int);
        }
        if !status_holds_process(status) {
            return Err(InfraError::Backend);
        }
        let updated = IndexerModel {
            status,
            process_id: Some(process_id),
            ..self.records[i].duplicate()
        };
        let result = updated.duplicate();
        self.records.set(i, updated);
        proof {
            lemma_update_keeps_inv(old(self)@, i as int, self@[i as int]);
        }
        Ok(result)
    }

    /// Remove the record with this id.
    pub fn delete(&mut self, id: u128) -> (r: Result<(), InfraError>)
        requires
            old(self).inv(),
        ensures
            final(self).inv(),
            !contains_id(old(self)@, id) ==> r == Result::<(), InfraError>::Err(
                InfraError::NotFound,
            ) && final(self)@ == old(self)@,
            contains_id(old(self)@, id) ==> r == Result::<(), InfraError>::Ok(()) && final(self)@ == old(
                self,
            )@.remove(id_index(old(self)@, id)),
    {
        let i = match self.find(id) {
            Some(i) => i,
            None => {
                return Err(InfraError::NotFound);
            },
        };
        proof {
            lemma_id_index(self@, id, i as int);
        }
        self.records.remove(i);
        proof {
            lemma_remove_keeps_inv(old(self)@, i as int);
        }
        Ok(())
    }
}

/// Exec mirror of `IndexerStatus::holds_process`.
pub fn status_holds_process(st: IndexerStatus) -> (r: bool)
    ensures
        r == st.holds_process(),
{
    matches!(st, IndexerStatus::Running | IndexerStatus::FailedStopping)
}

/// Exec mirror of `IndexerModel::wf`.
pub fn record_is_wf(m: &IndexerModel) -> (r: bool)
    ensures
        r == m.wf(),
{
    let pid_ok = m.process_id.is_some() == status_holds_process(m.status);
    let url_ok = !matches!(m.indexer_type, crate::model::IndexerType::Webhook)
        || m.target_url.is_some();
    let table_ok = !matches!(m.indexer_type, crate::model::IndexerType::Postgres)
        || m.table_name.is_some();
    pid_ok && url_ok && table_ok
}

/// An in-place update that keeps id and table name preserves the store
/// invariant as long as the new record is well formed.
proof fn lemma_update_keeps_inv(s: Seq<IndexerModel>, i: int, m: IndexerModel)
    requires
        ids_unique(s),
        table_names_unique(s),
        all_wf(s),
        0 <= i < s.len(),
        m.id == s[i].id,
        m.table_name == s[i].table_name,
        m.wf(),
    ensures
        ids_unique(s.update(i, m)),
        table_names_unique(s.update(i, m)),
        all_wf(s.update(i, m)),
{
    let s2 = s.update(i, m);
    assert forall|p: int, q: int| 0 <= p < q < s2.len() implies s2[p].id != s2[q].id by {
        assert(s[p].id != s[q].id);
    }
    assert forall|p: int, q: int|
        0 <= p < q < s2.len() && s2[p].table_name is Some && s2[q].table_name
            is Some implies s2[p].table_name.unwrap()@ != s2[q].table_name.unwrap()@ by {
        assert(s[p].table_name == s2[p].table_name);
        assert(s[q].table_name == s2[q].table_name);
    }
}

/// Removing a record preserves the store invariant.
proof fn lemma_remove_keeps_inv(s: Seq<IndexerModel>, i: int)
    requires
        ids_unique(s),
        table_names_unique(s),
        all_wf(s),
        0 <= i < s.len(),
    ensures
        ids_unique(s.remove(i)),
        table_names_unique(s.remove(i)),
        all_wf(s.remove(i)),
{
    let s2 = s.remove(i);
    assert forall|p: int, q: int| 0 <= p < q < s2.len() implies s2[p].id != s2[q].id by {
        let p0 = if p < i {
            p
        } else {
            p + 1
        };
        let q0 = if q < i {
            q
        } else {
            q + 1
        };
        assert(s2[p] == s[p0] && s2[q] == s[q0]);
        assert(s[p0].id != s[q0].id);
    }
    assert forall|p: int, q: int|
        0 <= p < q < s2.len() && s2[p].table_name is Some && s2[q].table_name
            is Some implies s2[p].table_name.unwrap()@ != s2[q].table_name.unwrap()@ by {
        let p0 = if p < i {
            p
        } else {
            p + 1
        };
        let q0 = if q < i {
            q
        } else {
            q + 1
        };
        assert(s2[p] == s[p0] && s2[q] == s[q0]);
    }
    assert forall|p: int| 0 <= p < s2.len() implies s2[p].wf() by {
        let p0 = if p < i {
            p
        } else {
            p + 1
        };
        assert(s2[p] == s[p0]);
    }
}

} // verus!
