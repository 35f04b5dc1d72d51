//! The schedule service: the four operations over the store, each gated by
//! identity verification and payload/pattern validation.
//!
//! Every operation first verifies the caller's identity; ownership fields of
//! a stored record come from the verified identity alone, never from the
//! request body. A lookup that misses and a record owned by someone else are
//! reported identically, as `NotFound`.

use vstd::prelude::*;

use crate::cron::decode_cron;
use crate::cron::spec_decode;
use crate::identity::Identity;
use crate::identity::auth_ok;
use crate::identity::verify_identity;
use crate::payload::Payload;
use crate::store::Schedule;
use crate::store::ScheduleStore;
use crate::store::contains_owned;
use crate::store::owned_seq;
use crate::time::DateTime;

verus! {

/// The failure kinds of the service.
#[derive(Clone, Copy, Debug, PartialEq, Eq, Structural)]
pub enum ServiceError {
    /// Missing, malformed, unverifiable credential, or unrecognized audience.
    Auth,
    /// Payload not object-rooted, or recurrence pattern with no decodable
    /// next occurrence.
    Validation,
    /// No record with this id and owner.
    NotFound,
    /// A failure of the store unrelated to the request.
    Internal,
}

/// A request body for creating or updating a schedule. The owner fields
/// mirror what a transport body may carry; the service ignores them.
#[derive(Debug)]
pub struct ScheduleRequest {
    pub display_name: String,
    pub push_destination: String,
    pub recurrence_pattern: String,
    pub payload: Payload,
    pub owner_user_id: String,
    pub owner_audience: String,
}

/// The record `create` stores for identity `ident`, request `req`, fresh id
/// `id`, creation instant `now` and next occurrence `next`.
pub open spec fn created_record(
    ident: Identity,
    req: ScheduleRequest,
    id: i64,
    now: DateTime,
    next: DateTime,
) -> Schedule {
    Schedule {
        id: id,
        owner_user_id: ident.user_id,
        owner_audience: ident.audience,
        display_name: req.display_name,
        push_destination: req.push_destination,
        recurrence_pattern: req.recurrence_pattern,
        payload: req.payload,
        last_execution: now,
        next_execution: next,
        created_at: now,
        updated_at: now,
    }
}

/// The record `update` leaves in place of `prev` for request `req`, update
/// instant `now` and next occurrence `next`: id, owner, creation instant and
/// last execution stay.
pub open spec fn updated_record(
    prev: Schedule,
    req: ScheduleRequest,
    now: DateTime,
    next: DateTime,
) -> Schedule {
    Schedule {
        id: prev.id,
        owner_user_id: prev.owner_user_id,
        owner_audience: prev.owner_audience,
        display_name: req.display_name,
        push_destination: req.push_destination,
        recurrence_pattern: req.recurrence_pattern,
        payload: req.payload,
        last_execution: prev.last_execution,
        next_execution: next,
        created_at: prev.created_at,
        updated_at: now,
    }
}

/// The schedule service, configured with the audience allow-list.
pub struct FirebaseMessaging {
    pub projects: Vec<String>,
}

impl FirebaseMessaging {
    /// A service recognizing the given audiences.
    pub fn new(projects: Vec<String>) -> (s: Self)
        ensures
            s.projects == projects,
    {
        FirebaseMessaging { projects }
    }

    /// Creates a schedule owned by the verified identity; returns the stored
    /// record.
    pub fn create_schedule(
        &self,
        store: &mut ScheduleStore,
        header: &Option<String>,
        verdict: &Option<Identity>,
        now: DateTime,
        req: &ScheduleRequest,
    ) -> (r: Result<Schedule, ServiceError>)
        requires
            old(store).inv(),
            now.wf(),
        ensures
            final(store).inv(),
            !auth_ok(self.projects@, *header, *verdict) ==> r == Err::<Schedule, ServiceError>(
                ServiceError::Auth,
            ) && *final(store) == *old(store),
            auth_ok(self.projects@, *header, *verdict) && !req.payload.is_object() ==> r
                == Err::<Schedule, ServiceError>(ServiceError::Validation) && *final(store) == *old(store),
            auth_ok(self.projects@, *header, *verdict) && req.payload.is_object() && spec_decode(
                req.recurrence_pattern@,
                now,
            ) is None ==> r == Err::<Schedule, ServiceError>(ServiceError::Validation) && *final(store) == *old(store),
            auth_ok(self.projects@, *header, *verdict) && req.payload.is_object() ==> (
            spec_decode(
                req.recurrence_pattern@,
                now,
            ) matches Some(next) ==> {
                if old(store).next_id == i64::MAX {
                    r == Err::<Schedule, ServiceError>(ServiceError::Internal) && *final(store)
                        == *old(store)
                } else {
                    let rec = created_record((*verdict)->0, *req, old(store).next_id, now, next);
                    &&& r == Ok::<Schedule, ServiceError>(rec)
                    &&& final(store).records@ == old(store).records@.push(rec)
                    &&& final(store).next_id == old(store).next_id + 1
                }
            }),
    {
        if !verify_identity(&self.projects, header, verdict) {
            return Err(ServiceError::Auth);
        }
        if !req.payload.check_object() {
            return Err(ServiceError::Validation);
        }
        let next = match decode_cron(req.recurrence_pattern.as_str(), &now) {
            None => { return Err(ServiceError::Validation); },
            Some(t) => t,
        };
        let ident = match verdict {
            None => { return Err(ServiceError::Auth); },
            Some(c) => c,
        };
        let rec = Schedule {
            id: 0,
            owner_user_id: ident.user_id.clone(),
            owner_audience: ident.audience.clone(),
            display_name: req.display_name.clone(),
            push_destination: req.push_destination.clone(),
            recurrence_pattern: req.recurrence_pattern.clone(),
            payload: req.payload.clone(),
            last_execution: now,
            next_execution: next,
            created_at: now,
            updated_at: now,
        };
        match store.insert(rec) {
            None => Err(ServiceError::Internal),
            Some(stored) => Ok(stored),
        }
    }

    /// The caller's schedules, in store order.
    pub fn find_all_schedules(
        &self,
        store: &ScheduleStore,
        header: &Option<String>,
        verdict: &Option<Identity>,
    ) -> (r: Result<Vec<Schedule>, ServiceError>)
        ensures
            !auth_ok(self.projects@, *header, *verdict) ==> r == Err::<Vec<Schedule>, ServiceError>(
                ServiceError::Auth,
            ),
            auth_ok(self.projects@, *header, *verdict) ==> (r matches Ok(v) && v@ == owned_seq(
                store.records@,
                (*verdict)->0.user_id@,
                (*verdict)->0.audience@,
            )),
    {
        if !verify_identity(&self.projects, header, verdict) {
            return Err(ServiceError::Auth);
        }
        match verdict {
            None => Err(ServiceError::Auth),
            Some(c) => Ok(store.list_owned(&c.user_id, &c.audience)),
        }
    }

    /// Updates the schedule with the given id if the verified identity owns
    /// it; returns the record's new state.
    pub fn update_schedule(
        &self,
        store: &mut ScheduleStore,
        header: &Option<String>,
        verdict: &Option<Identity>,
        id: i64,
        now: DateTime,
        req: &ScheduleRequest,
    ) -> (r: Result<Schedule, ServiceError>)
        requires
            old(store).inv(),
            now.wf(),
        ensures
            final(store).inv(),
            final(store).next_id == old(store).next_id,
            !auth_ok(self.projects@, *header, *verdict) ==> r == Err::<Schedule, ServiceError>(
                ServiceError::Auth,
            ) && *final(store) == *old(store),
            auth_ok(self.projects@, *header, *verdict) && !contains_owned(
                old(store).records@,
                id as int,
                (*verdict)->0.user_id@,
                (*verdict)->0.audience@,
            ) ==> r == Err::<Schedule, ServiceError>(ServiceError::NotFound) && *final(store)
                == *old(store),
            auth_ok(self.projects@, *header, *verdict) && contains_owned(
                old(store).records@,
                id as int,
                (*verdict)->0.user_id@,
                (*verdict)->0.audience@,
            ) && !req.payload.is_object() ==> r == Err::<Schedule, ServiceError>(
                ServiceError::Validation,
            ) && *final(store) == *old(store),
            auth_ok(self.projects@, *header, *verdict) && contains_owned(
                old(store).records@,
                id as int,
                (*verdict)->0.user_id@,
                (*verdict)->0.audience@,
            ) && req.payload.is_object() && spec_decode(req.recurrence_pattern@, now) is None ==> r
                == Err::<Schedule, ServiceError>(ServiceError::Validation) && *final(store) == *old(store),
            auth_ok(self.projects@, *header, *verdict) && contains_owned(
                old(store).records@,
                id as int,
                (*verdict)->0.user_id@,
                (*verdict)->0.audience@,
            ) && req.payload.is_object() ==> (spec_decode(req.recurrence_pattern@, now) matches Some(
                next,
            ) ==> (r matches Ok(rec) && exists|i: int|
                {
                    &&& 0 <= i < old(store).records@.len()
                    &&& (#[trigger] old(store).records@[i]).id == id
                    &&& old(store).records@[i].owned_by(
                        (*verdict)->0.user_id@,
                        (*verdict)->0.audience@,
                    )
                    &&& rec == updated_record(old(store).records@[i], *req, now, next)
                    &&& final(store).records@ == old(store).records@.update(i, rec)
                })),
    {
        if !verify_identity(&self.projects, header, verdict) {
            return Err(ServiceError::Auth);
        }
        let ident = match verdict {
            None => { return Err(ServiceError::Auth); },
            Some(c) => c,
        };
        match store.find_owned(id, &ident.user_id, &ident.audience) {
            None => { return Err(ServiceError::NotFound); },
            Some(_) => {},
        }
        if !req.payload.check_object() {
            return Err(ServiceError::Validation);
        }
        let next = match decode_cron(req.recurrence_pattern.as_str(), &now) {
            None => { return Err(ServiceError::Validation); },
            Some(t) => t,
        };
        match store.update_owned(
            id,
            &ident.user_id,
            &ident.audience,
            req.display_name.clone(),
            req.push_destination.clone(),
            req.recurrence_pattern.clone(),
            req.payload.clone(),
            next,
            now,
        ) {
            None => Err(ServiceError::NotFound),
            Some(rec) => Ok(rec),
        }
    }

    /// Deletes the schedule with the given id if the verified identity owns
    /// it; returns the removed record.
    pub fn delete_schedule(
        &self,
        store: &mut ScheduleStore,
        header: &Option<String>,
        verdict: &Option<Identity>,
        id: i64,
    ) -> (r: Result<Schedule, ServiceError>)
        requires
            old(store).inv(),
        ensures
            final(store).inv(),
            final(store).next_id == old(store).next_id,
            !auth_ok(self.projects@, *header, *verdict) ==> r == Err::<Schedule, ServiceError>(
                ServiceError::Auth,
            ) && *final(store) == *old(store),
            auth_ok(self.projects@, *header, *verdict) && !contains_owned(
                old(store).records@,
                id as int,
                (*verdict)->0.user_id@,
                (*verdict)->0.audience@,
            ) ==> r == Err::<Schedule, ServiceError>(ServiceError::NotFound) && *final(store)
                == *old(store),
            auth_ok(self.projects@, *header, *verdict) && contains_owned(
                old(store).records@,
                id as int,
                (*verdict)->0.user_id@,
                (*verdict)->0.audience@,
            ) ==> (r matches Ok(rec) && exists|i: int|
                {
                    &&& 0 <= i < old(store).records@.len()
                    &&& old(store).records@[i] == rec
                    &&& rec.id == id
                    &&& rec.owned_by((*verdict)->0.user_id@, (*verdict)->0.audience@)
                    &&& final(store).records@ == old(store).records@.remove(i)
                }),
    {
        if !verify_identity(&self.projects, header, verdict) {
            return Err(ServiceError::Auth);
        }
        let ident = match verdict {
            None => { return Err(ServiceError::Auth); },
            Some(c) => c,
        };
        match store.delete_owned(id, &ident.user_id, &ident.audience) {
            None => Err(ServiceError::NotFound),
            Some(rec) => Ok(rec),
        }
    }
}

} // verus!
