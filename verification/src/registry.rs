//! The supervisor's in-memory registry of live children: one entry per
//! record that currently owns a spawned process. Registration is
//! insert-if-absent, so at any instant at most one live child exists per
//! id.

use vstd::prelude::*;

verus! {

pub open spec fn reg_ids_unique(s: Seq<(u128, i64)>) -> bool {
    forall|i: int, j: int| 0 <= i < j < s.len() ==> s[i].0 != s[j].0
}

pub open spec fn reg_contains(s: Seq<(u128, i64)>, id: u128) -> bool {
    exists|i: int| 0 <= i < s.len() && s[i].0 == id
}

/// The live children, keyed by record id.
pub struct ChildRegistry {
    entries: Vec<(u128, i64)>,
}

impl View for ChildRegistry {
    type V = Seq<(u128, i64)>;

    closed spec fn view(&self) -> Seq<(u128, i64)> {
        self.entries@
    }
}

impl ChildRegistry {
    /// At most one live child per id.
    pub open spec fn inv(self) -> bool {
        reg_ids_unique(self@)
    }

    pub fn new() -> (r: ChildRegistry)
        ensures
            r@ == Seq::<(u128, i64)>::empty(),
            r.inv(),
    {
        ChildRegistry { entries: Vec::new() }
    }

    fn find(&self, id: u128) -> (r: Option<usize>)
        ensures
            match r {
                Some(i) => i < self@.len() && self@[i as int].0 == id,
                None => !reg_contains(self@, id),
            },
    {
        let mut i: usize = 0;
        while i < self.entries.len()
            invariant
                i <= self.entries.len(),
                forall|k: int| 0 <= k < i ==> self.entries@[k].0 != id,
            decreases self.entries.len() - i,
        {
            if self.entries[i].0 == id {
                return Some(i);
            }
            i += 1;
        }
        None
    }

    /// The pid of the id's live child, if one is registered.
    pub fn pid_of(&self, id: u128) -> (r: Option<i64>)
        ensures
            r is Some ==> exists|i: int|
                0 <= i < self@.len() && self@[i as int] == (id, r.unwrap()),
            r is None ==> !reg_contains(self@, id),
    {
        match self.find(id) {
            Some(i) => Some(self.entries[i].1),
            None => None,
        }
    }

    /// Register a freshly spawned child. Refused when the id already owns
    /// one: a second live child for the same record never enters the
    /// registry.
    pub fn register(&mut self, id: u128, pid: i64) -> (r: bool)
        requires
            old(self).inv(),
        ensures
            final(self).inv(),
            !reg_contains(old(self)@, id) ==> r && final(self)@ == old(self)@.push((id, pid)),
            reg_contains(old(self)@, id) ==> !r && final(self)@ == old(self)@,
    {
        if self.find(id).is_some() {
            return false;
        }
        self.entries.push((id, pid));
        proof {
            let s = old(self)@;
            let s2 = self@;
            assert forall|i: int, j: int| 0 <= i < j < s2.len() implies s2[i].0 != s2[j].0 by {
                if j < s.len() {
                } else {
                    assert(s2[j] == (id, pid));
                    if s[i].0 == id {
                        assert(reg_contains(s, id));
                    }
                }
            }
        }
        true
    }

    /// Drop the id's entry when its child exits. Reports whether one was
    /// registered.
    pub fn unregister(&mut self, id: u128) -> (r: bool)
        requires
            old(self).inv(),
        ensures
            final(self).inv(),
            !reg_contains(old(self)@, id) ==> !r && final(self)@ == old(self)@,
            reg_contains(old(self)@, id) ==> r && final(self)@.len() == old(self)@.len() - 1
                && !reg_contains(final(self)@, id),
    {
        let i = match self.find(id) {
            Some(i) => i,
            None => {
                return false;
            },
        };
        self.entries.remove(i);
        proof {
            let s = old(self)@;
            let s2 = self@;
            assert forall|p: int, q: int| 0 <= p < q < s2.len() implies s2[p].0 != s2[q].0 by {
                let p0 = if p < i as int {
                    p
                } else {
                    p + 1
                };
                let q0 = if q < i as int {
                    q
                } else {
                    q + 1
                };
                assert(s2[p] == s[p0] && s2[q] == s[q0]);
            }
            assert forall|k: int| 0 <= k < s2.len() implies s2[k].0 != id by {
                let k0 = if k < i as int {
                    k
                } else {
                    k + 1
                };
                assert(s2[k] == s[k0]);
                if s[k0].0 == id {
                    if k0 < i as int {
                        assert(s[k0].0 != s[i as int].0);
                    } else {
                        assert(s[i as int].0 != s[k0].0);
                    }
                }
            }
        }
        true
    }
}

/// At most one live child process exists per id at any instant: in a
/// registry kept under its invariant, two entries for one id are the same
/// entry.
pub proof fn lemma_one_child_per_id(s: Seq<(u128, i64)>, id: u128, i: int, j: int)
    requires
        reg_ids_unique(s),
        0 <= i < s.len(),
        0 <= j < s.len(),
        s[i].0 == id,
        s[j].0 == id,
    ensures
        i == j,
{
    if i < j {
        assert(s[i].0 != s[j].0);
    } else if j < i {
        assert(s[j].0 != s[i].0);
    }
}

} // verus!
