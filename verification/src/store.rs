//! Schedule records and the in-memory store with ownership-scoped,
//! conditional operations.
//!
//! Every mutating operation is conditioned on `(id, owner)` in one step, so
//! its outcome is decided by the store state alone: of two identical deletes
//! of the same record, whichever runs second finds nothing.

use vstd::prelude::*;

use crate::cron::spec_parse;
use crate::payload::Payload;
use crate::time::DateTime;
use crate::time::dt_lt;
use vstd::pervasive::VecAdditionalExecFns;

verus! {

/// A persisted recurring-notification job.
#[derive(Debug)]
pub struct Schedule {
    pub id: i64,
    pub owner_user_id: String,
    pub owner_audience: String,
    pub display_name: String,
    pub push_destination: String,
    pub recurrence_pattern: String,
    pub payload: Payload,
    pub last_execution: DateTime,
    pub next_execution: DateTime,
    pub created_at: DateTime,
    pub updated_at: DateTime,
}

impl Clone for Schedule {
    fn clone(&self) -> (res: Self)
        ensures
            res == *self,
    {
        Schedule {
            id: self.id,
            owner_user_id: self.owner_user_id.clone(),
            owner_audience: self.owner_audience.clone(),
            display_name: self.display_name.clone(),
            push_destination: self.push_destination.clone(),
            recurrence_pattern: self.recurrence_pattern.clone(),
            payload: self.payload.clone(),
            last_execution: self.last_execution,
            next_execution: self.next_execution,
            created_at: self.created_at,
            updated_at: self.updated_at,
        }
    }
}

impl Schedule {
    /// A record as the store keeps it: object payload, parsable pattern,
    /// well-formed instants, and a next execution strictly after the time
    /// base that produced it.
    pub open spec fn wf(self) -> bool {
        &&& self.payload.is_object()
        &&& spec_parse(self.recurrence_pattern@) is Some
        &&& self.created_at.wf()
        &&& self.updated_at.wf()
        &&& self.last_execution.wf()
        &&& self.next_execution.wf()
        &&& dt_lt(self.updated_at, self.next_execution)
    }

    /// Whether the record belongs to the given (user, audience) identity.
    pub open spec fn owned_by(self, user: Seq<char>, aud: Seq<char>) -> bool {
        self.owner_user_id@ == user && self.owner_audience@ == aud
    }
}

/// No two records share an id.
pub open spec fn distinct_ids(s: Seq<Schedule>) -> bool {
    forall|i: int, j: int| 0 <= i < j < s.len() ==> s[i].id != s[j].id
}

/// Whether some record has the given id and owner.
pub open spec fn contains_owned(s: Seq<Schedule>, id: int, user: Seq<char>, aud: Seq<char>) -> bool {
    exists|i: int| 0 <= i < s.len() && s[i].id == id && s[i].owned_by(user, aud)
}

/// The records owned by an identity, in store order.
pub open spec fn owned_seq(s: Seq<Schedule>, user: Seq<char>, aud: Seq<char>) -> Seq<Schedule>
    decreases s.len(),
{
    if s.len() == 0 {
        Seq::empty()
    } else {
        let pre = owned_seq(s.drop_last(), user, aud);
        if s.last().owned_by(user, aud) {
            pre.push(s.last())
        } else {
            pre
        }
    }
}

/// The in-memory schedule store.
#[derive(Debug)]
pub struct ScheduleStore {
    pub records: Vec<Schedule>,
    pub next_id: i64,
}

impl ScheduleStore {
    /// Store invariant: ids are positive, below the allocator, and distinct,
    /// and every record is well-formed.
    pub open spec fn inv(self) -> bool {
        &&& 1 <= self.next_id
        &&& forall|i: int|
            0 <= i < self.records@.len() ==> (#[trigger] self.records@[i]).wf() && 0
                < self.records@[i].id < self.next_id
        &&& distinct_ids(self.records@)
    }

    /// An empty store.
    pub fn new() -> (s: Self)
        ensures
            s.inv(),
            s.records@ == Seq::<Schedule>::empty(),
            s.next_id == 1,
    {
        ScheduleStore { records: Vec::new(), next_id: 1 }
    }

    /// The position of the record with the given id and owner, if any.
    pub fn find_owned(&self, id: i64, user: &String, aud: &String) -> (r: Option<usize>)
        ensures
            match r {
                Some(i) => i < self.records@.len() && self.records@[i as int].id == id
                    && self.records@[i as int].owned_by(user@, aud@),
                None => !contains_owned(self.records@, id as int, user@, aud@),
            },
    {
        let mut i: usize = 0;
        while i < self.records.len()
            invariant
                i <= self.records@.len(),
                forall|j: int|
                    0 <= j < i ==> !((#[trigger] self.records@[j]).id == id && self.records@[j].owned_by(
                        user@,
                        aud@,
                    )),
            decreases self.records@.len() - i,
        {
            if self.records[i].id == id && self.records[i].owner_user_id == *user
                && self.records[i].owner_audience == *aud {
                return Some(i);
            }
            i = i + 1;
        }
        None
    }

    /// Appends a new record under a fresh id; `None` when the id space is
    /// exhausted.
    pub fn insert(&mut self, rec: Schedule) -> (r: Option<Schedule>)
        requires
            old(self).inv(),
            rec.wf(),
        ensures
            final(self).inv(),
            match r {
                Some(stored) => {
                    &&& stored == (Schedule {
                        id: old(self).next_id,
                        owner_user_id: rec.owner_user_id,
                        owner_audience: rec.owner_audience,
                        display_name: rec.display_name,
                        push_destination: rec.push_destination,
                        recurrence_pattern: rec.recurrence_pattern,
                        payload: rec.payload,
                        last_execution: rec.last_execution,
                        next_execution: rec.next_execution,
                        created_at: rec.created_at,
                        updated_at: rec.updated_at,
                    })
                    &&& final(self).records@ == old(self).records@.push(stored)
                    &&& final(self).next_id == old(self).next_id + 1
                },
                None => *final(self) == *old(self) && old(self).next_id == i64::MAX,
            },
    {
        if self.next_id == i64::MAX {
            return None;
        }
        let id = self.next_id;
        let stored = Schedule {
            id,
            owner_user_id: rec.owner_user_id,
            owner_audience: rec.owner_audience,
            display_name: rec.display_name,
            push_destination: rec.push_destination,
            recurrence_pattern: rec.recurrence_pattern,
            payload: rec.payload,
            last_execution: rec.last_execution,
            next_execution: rec.next_execution,
            created_at: rec.created_at,
            updated_at: rec.updated_at,
        };
        let out = stored.clone();
        self.records.push(stored);
        self.next_id = id + 1;
        Some(out)
    }

    /// The caller's records, in store order.
    pub fn list_owned(&self, user: &String, aud: &String) -> (r: Vec<Schedule>)
        ensures
            r@ == owned_seq(self.records@, user@, aud@),
    {
        let mut out: Vec<Schedule> = Vec::new();
        let mut i: usize = 0;
        while i < self.records.len()
            invariant
                i <= self.records@.len(),
                out@ == owned_seq(self.records@.subrange(0, i as int), user@, aud@),
            decreases self.records@.len() - i,
        {
            if self.records[i].owner_user_id == *user && self.records[i].owner_audience == *aud {
                out.push(self.records[i].clone());
            }
            proof {
                let sub1 = self.records@.subrange(0, i + 1);
                assert(sub1.drop_last() =~= self.records@.subrange(0, i as int));
                assert(sub1.last() == self.records@[i as int]);
            }
            i = i + 1;
        }
        proof {
            assert(self.records@.subrange(0, self.records@.len() as int) =~= self.records@);
        }
        out
    }

    /// Removes the record with the given id and owner in one conditional
    /// step, returning its final state; `None` when no record matches.
    pub fn delete_owned(&mut self, id: i64, user: &String, aud: &String) -> (r: Option<Schedule>)
        requires
            old(self).inv(),
        ensures
            final(self).inv(),
            final(self).next_id == old(self).next_id,
            match r {
                Some(rec) => exists|i: int|
                    0 <= i < old(self).records@.len() && old(self).records@[i] == rec && rec.id
                        == id && rec.owned_by(user@, aud@) && final(self).records@ == old(
                        self,
                    ).records@.remove(i),
                None => *final(self) == *old(self) && !contains_owned(
                    old(self).records@,
                    id as int,
                    user@,
                    aud@,
                ),
            },
    {
        match self.find_owned(id, user, aud) {
            None => None,
            Some(i) => {
                let rec = self.records.remove(i);
                proof {
                    assert(final(self).records@ == old(self).records@.remove(i as int));
                    assert forall|a: int, b: int|
                        0 <= a < b < self.records@.len() implies self.records@[a].id
                        != self.records@[b].id by {
                        assert(self.records@[a] == if a < i as int {
                            old(self).records@[a]
                        } else {
                            old(self).records@[a + 1]
                        });
                        assert(self.records@[b] == if b < i as int {
                            old(self).records@[b]
                        } else {
                            old(self).records@[b + 1]
                        });
                    }
                }
                Some(rec)
            },
        }
    }

    /// Replaces the user-settable fields of the record with the given id and
    /// owner in one conditional step, returning its new state; `None` when no
    /// record matches. The id, owner fields, creation instant, and last
    /// execution stay as they were.
    pub fn update_owned(
        &mut self,
        id: i64,
        user: &String,
        aud: &String,
        display_name: String,
        push_destination: String,
        recurrence_pattern: String,
        payload: Payload,
        next_execution: DateTime,
        now: DateTime,
    ) -> (r: Option<Schedule>)
        requires
            old(self).inv(),
            payload.is_object(),
            spec_parse(recurrence_pattern@) is Some,
            now.wf(),
            next_execution.wf(),
            dt_lt(now, next_execution),
        ensures
            final(self).inv(),
            final(self).next_id == old(self).next_id,
            match r {
                Some(rec) => exists|i: int|
                    0 <= i < old(self).records@.len() && (#[trigger] old(self).records@[i]).id == id
                        && old(self).records@[i].owned_by(user@, aud@) && rec == (Schedule {
                        id: old(self).records@[i].id,
                        owner_user_id: old(self).records@[i].owner_user_id,
                        owner_audience: old(self).records@[i].owner_audience,
                        display_name: display_name,
                        push_destination: push_destination,
                        recurrence_pattern: recurrence_pattern,
                        payload: payload,
                        last_execution: old(self).records@[i].last_execution,
                        next_execution: next_execution,
                        created_at: old(self).records@[i].created_at,
                        updated_at: now,
                    }) && final(self).records@ == old(self).records@.update(i, rec),
                None => *final(self) == *old(self) && !contains_owned(
                    old(self).records@,
                    id as int,
                    user@,
                    aud@,
                ),
            },
    {
        match self.find_owned(id, user, aud) {
            None => None,
            Some(i) => {
                let rec = Schedule {
                    id: self.records[i].id,
                    owner_user_id: self.records[i].owner_user_id.clone(),
                    owner_audience: self.records[i].owner_audience.clone(),
                    display_name,
                    push_destination,
                    recurrence_pattern,
                    payload,
                    last_execution: self.records[i].last_execution,
                    next_execution,
                    created_at: self.records[i].created_at,
                    updated_at: now,
                };
                let out = rec.clone();
                self.records.set(i, rec);
                proof {
                    assert forall|a: int, b: int|
                        0 <= a < b < self.records@.len() implies self.records@[a].id
                        != self.records@[b].id by {}
                }
                Some(out)
            },
        }
    }
}

/// Law: once the record with an id is removed, no record with that id — of
/// any owner — remains, so a second conditional delete of the same id finds
/// nothing.
pub proof fn lemma_delete_is_exclusive(
    s: Seq<Schedule>,
    i: int,
    id: int,
    user: Seq<char>,
    aud: Seq<char>,
)
    requires
        distinct_ids(s),
        0 <= i < s.len(),
        s[i].id == id,
    ensures
        !contains_owned(s.remove(i), id, user, aud),
{
    assert forall|j: int| 0 <= j < s.remove(i).len() implies (#[trigger] s.remove(i)[j]).id != id by {
        if j < i {
            assert(s.remove(i)[j] == s[j]);
        } else {
            assert(s.remove(i)[j] == s[j + 1]);
        }
    }
}

/// Law: a record owned by one identity is invisible to the ownership-scoped
/// lookup of any other identity — exactly as if the id did not exist.
pub proof fn lemma_foreign_owner_sees_nothing(
    s: Seq<Schedule>,
    id: int,
    user_a: Seq<char>,
    aud_a: Seq<char>,
    user_b: Seq<char>,
    aud_b: Seq<char>,
)
    requires
        distinct_ids(s),
        contains_owned(s, id, user_a, aud_a),
        user_a != user_b || aud_a != aud_b,
    ensures
        !contains_owned(s, id, user_b, aud_b),
{
    let i = choose|i: int| 0 <= i < s.len() && s[i].id == id && s[i].owned_by(user_a, aud_a);
    assert forall|j: int|
        0 <= j < s.len() implies !((#[trigger] s[j]).id == id && s[j].owned_by(user_b, aud_b)) by {
        if s[j].id == id {
            if j < i {
                assert(s[j].id != s[i].id);
            } else if j > i {
                assert(s[i].id != s[j].id);
            }
        }
    }
}

} // verus!
