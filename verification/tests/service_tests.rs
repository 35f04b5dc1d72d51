use fcm_scheduler::clock::narrow_clock;
use fcm_scheduler::identity::Identity;
use fcm_scheduler::identity::parse_bearer;
use fcm_scheduler::payload::JsonKind;
use fcm_scheduler::payload::Payload;
use fcm_scheduler::service::FirebaseMessaging;
use fcm_scheduler::service::ScheduleRequest;
use fcm_scheduler::service::ServiceError;
use fcm_scheduler::store::ScheduleStore;
use fcm_scheduler::time::DateTime;

fn dt(year: i32, month: u8, day: u8, hour: u8, minute: u8) -> DateTime {
    DateTime { year, month, day, hour, minute }
}

fn service() -> FirebaseMessaging {
    FirebaseMessaging::new(vec!["P1".to_string()])
}

fn header() -> Option<String> {
    Some("Bearer sometoken".to_string())
}

fn verdict(user: &str, aud: &str) -> Option<Identity> {
    Some(Identity { user_id: user.to_string(), audience: aud.to_string() })
}

fn object_payload(raw: &str) -> Payload {
    Payload { kind: JsonKind::Object, raw: raw.to_string() }
}

fn request(pattern: &str, payload: Payload) -> ScheduleRequest {
    ScheduleRequest {
        display_name: "daily reminder".to_string(),
        push_destination: "token-123".to_string(),
        recurrence_pattern: pattern.to_string(),
        payload,
        owner_user_id: String::new(),
        owner_audience: String::new(),
    }
}

#[test]
fn create_stores_record() {
    let svc = service();
    let mut store = ScheduleStore::new();
    let now = dt(2024, 1, 15, 10, 30);
    let req = request("0 9 * * *", object_payload("{\"title\":\"hi\"}"));
    let rec = svc
        .create_schedule(&mut store, &header(), &verdict("U1", "P1"), now, &req)
        .unwrap();
    assert_eq!(rec.id, 1);
    assert_eq!(rec.owner_user_id, "U1");
    assert_eq!(rec.owner_audience, "P1");
    assert_eq!(rec.display_name, "daily reminder");
    assert_eq!(rec.created_at, now);
    assert_eq!(rec.updated_at, now);
    assert_eq!(rec.last_execution, now);
    assert_eq!(rec.next_execution, dt(2024, 1, 16, 9, 0));
}

#[test]
fn create_ignores_claimed_owner_fields() {
    let svc = service();
    let mut store = ScheduleStore::new();
    let now = dt(2024, 1, 15, 10, 30);
    let mut req = request("0 9 * * *", object_payload("{}"));
    req.owner_user_id = "SOMEONE_ELSE".to_string();
    req.owner_audience = "OTHER_PROJECT".to_string();
    let rec = svc
        .create_schedule(&mut store, &header(), &verdict("U1", "P1"), now, &req)
        .unwrap();
    assert_eq!(rec.owner_user_id, "U1");
    assert_eq!(rec.owner_audience, "P1");
}

#[test]
fn missing_or_malformed_credential_rejected() {
    let svc = service();
    let mut store = ScheduleStore::new();
    let now = dt(2024, 1, 15, 10, 30);
    let req = request("0 9 * * *", object_payload("{}"));
    let v = verdict("U1", "P1");

    let r = svc.create_schedule(&mut store, &None, &v, now, &req);
    assert_eq!(r.unwrap_err(), ServiceError::Auth);

    let bad = Some("bearer lowercase".to_string());
    let r = svc.create_schedule(&mut store, &bad, &v, now, &req);
    assert_eq!(r.unwrap_err(), ServiceError::Auth);

    let empty_token = Some("Bearer ".to_string());
    let r = svc.create_schedule(&mut store, &empty_token, &v, now, &req);
    assert_eq!(r.unwrap_err(), ServiceError::Auth);
}

#[test]
fn unverified_credential_rejected() {
    let svc = service();
    let mut store = ScheduleStore::new();
    let now = dt(2024, 1, 15, 10, 30);
    let req = request("0 9 * * *", object_payload("{}"));
    let r = svc.create_schedule(&mut store, &header(), &None, now, &req);
    assert_eq!(r.unwrap_err(), ServiceError::Auth);
}

#[test]
fn unrecognized_audience_rejected() {
    let svc = service();
    let mut store = ScheduleStore::new();
    let now = dt(2024, 1, 15, 10, 30);
    let req = request("0 9 * * *", object_payload("{}"));
    let r = svc.create_schedule(&mut store, &header(), &verdict("U1", "P9"), now, &req);
    assert_eq!(r.unwrap_err(), ServiceError::Auth);
}

#[test]
fn non_object_payloads_rejected() {
    let svc = service();
    let mut store = ScheduleStore::new();
    let now = dt(2024, 1, 15, 10, 30);
    let v = verdict("U1", "P1");

    let cases = [
        (JsonKind::Array, "[]"),
        (JsonKind::Null, "null"),
        (JsonKind::Text, "\"string\""),
        (JsonKind::Number, "42"),
    ];
    for (kind, raw) in cases {
        let req = request("0 9 * * *", Payload { kind, raw: raw.to_string() });
        let r = svc.create_schedule(&mut store, &header(), &v, now, &req);
        assert_eq!(r.unwrap_err(), ServiceError::Validation);
    }

    // Object payloads are accepted, empty or not.
    let req = request("0 9 * * *", object_payload("{}"));
    assert!(svc.create_schedule(&mut store, &header(), &v, now, &req).is_ok());
    let req = request("0 9 * * *", object_payload("{\"k\":1}"));
    assert!(svc.create_schedule(&mut store, &header(), &v, now, &req).is_ok());
}

#[test]
fn non_object_payloads_rejected_by_update() {
    let svc = service();
    let mut store = ScheduleStore::new();
    let now = dt(2024, 1, 15, 10, 30);
    let v = verdict("U1", "P1");
    let req = request("0 9 * * *", object_payload("{}"));
    let rec = svc.create_schedule(&mut store, &header(), &v, now, &req).unwrap();

    for (kind, raw) in [
        (JsonKind::Array, "[]"),
        (JsonKind::Null, "null"),
        (JsonKind::Text, "\"string\""),
        (JsonKind::Number, "42"),
    ] {
        let bad = request("0 9 * * *", Payload { kind, raw: raw.to_string() });
        let r = svc.update_schedule(&mut store, &header(), &v, rec.id, now, &bad);
        assert_eq!(r.unwrap_err(), ServiceError::Validation);
    }
}

#[test]
fn invalid_pattern_rejected() {
    let svc = service();
    let mut store = ScheduleStore::new();
    let now = dt(2024, 1, 15, 10, 30);
    let v = verdict("U1", "P1");
    let req = request("61 9 * * *", object_payload("{}"));
    let r = svc.create_schedule(&mut store, &header(), &v, now, &req);
    assert_eq!(r.unwrap_err(), ServiceError::Validation);

    let req = request("0 0 30 2 *", object_payload("{}"));
    let r = svc.create_schedule(&mut store, &header(), &v, now, &req);
    assert_eq!(r.unwrap_err(), ServiceError::Validation);
}

#[test]
fn foreign_owner_sees_not_found() {
    let svc = service();
    let mut store = ScheduleStore::new();
    let now = dt(2024, 1, 15, 10, 30);
    let owner = verdict("UA", "P1");
    let other = verdict("UB", "P1");
    let req = request("0 9 * * *", object_payload("{}"));
    let rec = svc.create_schedule(&mut store, &header(), &owner, now, &req).unwrap();

    // The other user's update and delete report NotFound, exactly as for an
    // id that does not exist.
    let r = svc.update_schedule(&mut store, &header(), &other, rec.id, now, &req);
    assert_eq!(r.unwrap_err(), ServiceError::NotFound);
    let r = svc.delete_schedule(&mut store, &header(), &other, rec.id);
    assert_eq!(r.unwrap_err(), ServiceError::NotFound);
    let r = svc.delete_schedule(&mut store, &header(), &other, 9999);
    assert_eq!(r.unwrap_err(), ServiceError::NotFound);

    // The record is still there for its owner.
    let listed = svc.find_all_schedules(&store, &header(), &owner).unwrap();
    assert_eq!(listed.len(), 1);
}

#[test]
fn second_delete_fails() {
    let svc = service();
    let mut store = ScheduleStore::new();
    let now = dt(2024, 1, 15, 10, 30);
    let v = verdict("U1", "P1");
    let req = request("0 9 * * *", object_payload("{}"));
    let rec = svc.create_schedule(&mut store, &header(), &v, now, &req).unwrap();

    let first = svc.delete_schedule(&mut store, &header(), &v, rec.id);
    assert_eq!(first.unwrap().id, rec.id);
    let second = svc.delete_schedule(&mut store, &header(), &v, rec.id);
    assert_eq!(second.unwrap_err(), ServiceError::NotFound);
}

#[test]
fn update_preserves_identity_and_creation() {
    let svc = service();
    let mut store = ScheduleStore::new();
    let created = dt(2024, 1, 15, 10, 30);
    let later = dt(2024, 3, 2, 8, 15);
    let v = verdict("U1", "P1");
    let req = request("0 9 * * *", object_payload("{\"a\":1}"));
    let rec = svc.create_schedule(&mut store, &header(), &v, created, &req).unwrap();

    let mut req2 = request("30 6 * * *", object_payload("{\"b\":2}"));
    req2.display_name = "new name".to_string();
    let upd = svc
        .update_schedule(&mut store, &header(), &v, rec.id, later, &req2)
        .unwrap();
    assert_eq!(upd.id, rec.id);
    assert_eq!(upd.owner_user_id, "U1");
    assert_eq!(upd.owner_audience, "P1");
    assert_eq!(upd.created_at, created);
    assert_eq!(upd.last_execution, created);
    assert_eq!(upd.updated_at, later);
    assert_eq!(upd.display_name, "new name");
    assert_eq!(upd.recurrence_pattern, "30 6 * * *");
    assert_eq!(upd.next_execution, dt(2024, 3, 3, 6, 30));
}

#[test]
fn full_scenario() {
    let svc = service();
    let mut store = ScheduleStore::new();
    let now = dt(2024, 1, 15, 10, 30);
    let u1 = verdict("U1", "P1");
    let u2 = verdict("U2", "P1");

    // U1 creates a daily 09:00 schedule.
    let req = request("0 9 * * *", object_payload("{\"title\":\"hi\"}"));
    let rec = svc.create_schedule(&mut store, &header(), &u1, now, &req).unwrap();
    assert_eq!(rec.next_execution, dt(2024, 1, 16, 9, 0));

    // U1 sees exactly one record; U2 sees none.
    let mine = svc.find_all_schedules(&store, &header(), &u1).unwrap();
    assert_eq!(mine.len(), 1);
    assert_eq!(mine[0].id, rec.id);
    assert_eq!(mine[0].next_execution, dt(2024, 1, 16, 9, 0));
    let theirs = svc.find_all_schedules(&store, &header(), &u2).unwrap();
    assert!(theirs.is_empty());

    // U1 switches to an hourly pattern; the next execution lands within one
    // hour of the update instant.
    let hourly = request("0 * * * *", object_payload("{\"title\":\"hi\"}"));
    let upd = svc
        .update_schedule(&mut store, &header(), &u1, rec.id, now, &hourly)
        .unwrap();
    assert_eq!(upd.next_execution, dt(2024, 1, 15, 11, 0));
    let gap = upd.next_execution.dt_index_exec() - upd.updated_at.dt_index_exec();
    assert!(gap >= 1 && gap <= 60);

    // U1 deletes; nothing is left.
    let gone = svc.delete_schedule(&mut store, &header(), &u1, rec.id).unwrap();
    assert_eq!(gone.id, rec.id);
    let empty = svc.find_all_schedules(&store, &header(), &u1).unwrap();
    assert!(empty.is_empty());
}

#[test]
fn bearer_framing() {
    assert!(parse_bearer(&None).is_none());
    assert!(parse_bearer(&Some("".to_string())).is_none());
    assert!(parse_bearer(&Some("Bearer".to_string())).is_none());
    assert!(parse_bearer(&Some("Bearer ".to_string())).is_none());
    assert!(parse_bearer(&Some("Token abc".to_string())).is_none());
    assert_eq!(parse_bearer(&Some("Bearer abc".to_string())).unwrap(), "abc");
}

#[test]
fn clock_narrowing() {
    assert!(narrow_clock(0, 1, 1, 0, 0).is_none());
    assert!(narrow_clock(10000, 1, 1, 0, 0).is_none());
    let t = narrow_clock(2024, 1, 15, 10, 30).unwrap();
    assert_eq!(t, dt(2024, 1, 15, 10, 30));
}

#[test]
fn clock_reports_well_formed_instant() {
    let now = fcm_scheduler::clock::current_time().unwrap();
    assert!(now.check_wf());
    assert!(now.year >= 2024);
}
