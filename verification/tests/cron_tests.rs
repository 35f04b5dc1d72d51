use fcm_scheduler::cron::decode_cron;
use fcm_scheduler::cron::parse_cron;
use fcm_scheduler::time::DateTime;
use fcm_scheduler::time::dt_before;
use fcm_scheduler::time::succ_exec;

fn dt(year: i32, month: u8, day: u8, hour: u8, minute: u8) -> DateTime {
    DateTime { year, month, day, hour, minute }
}

#[test]
fn daily_at_nine() {
    let reference = dt(2024, 1, 15, 10, 30);
    let next = decode_cron("0 9 * * *", &reference).unwrap();
    assert_eq!(next, dt(2024, 1, 16, 9, 0));
}

#[test]
fn hourly() {
    let reference = dt(2024, 1, 15, 10, 30);
    let next = decode_cron("0 * * * *", &reference).unwrap();
    assert_eq!(next, dt(2024, 1, 15, 11, 0));
}

#[test]
fn strictly_after_reference() {
    // The reference itself satisfies the pattern; the result must be later.
    let reference = dt(2024, 1, 15, 10, 30);
    let next = decode_cron("30 10 * * *", &reference).unwrap();
    assert_eq!(next, dt(2024, 1, 16, 10, 30));
    assert!(dt_before(&reference, &next));
}

#[test]
fn weekday_field() {
    // 2024-01-15 is a Monday; the next Sunday is 2024-01-21.
    let reference = dt(2024, 1, 15, 10, 30);
    let next = decode_cron("0 9 * * 0", &reference).unwrap();
    assert_eq!(next, dt(2024, 1, 21, 9, 0));
}

#[test]
fn leap_day() {
    let reference = dt(2023, 3, 1, 0, 0);
    let next = decode_cron("0 0 29 2 *", &reference).unwrap();
    assert_eq!(next, dt(2024, 2, 29, 0, 0));
}

#[test]
fn list_and_range_fields() {
    let reference = dt(2024, 1, 15, 10, 0);
    let next = decode_cron("0 9,18 * * *", &reference).unwrap();
    assert_eq!(next, dt(2024, 1, 15, 18, 0));

    let reference = dt(2024, 1, 15, 0, 0);
    let next = decode_cron("0-5 12 * * *", &reference).unwrap();
    assert_eq!(next, dt(2024, 1, 15, 12, 0));
}

#[test]
fn month_rollover() {
    let reference = dt(2024, 12, 31, 23, 59);
    let next = decode_cron("0 0 1 1 *", &reference).unwrap();
    assert_eq!(next, dt(2025, 1, 1, 0, 0));
}

#[test]
fn deterministic() {
    let reference = dt(2024, 6, 1, 7, 45);
    let a = decode_cron("15 8 * * 1-5", &reference);
    let b = decode_cron("15 8 * * 1-5", &reference);
    assert_eq!(a, b);
    assert!(a.is_some());
}

#[test]
fn empty_pattern_rejected() {
    let reference = dt(2024, 1, 15, 10, 30);
    assert!(decode_cron("", &reference).is_none());
    assert!(parse_cron("").is_none());
}

#[test]
fn out_of_range_fields_rejected() {
    let reference = dt(2024, 1, 15, 10, 30);
    assert!(decode_cron("60 0 * * *", &reference).is_none());
    assert!(decode_cron("0 24 * * *", &reference).is_none());
    assert!(decode_cron("0 0 0 * *", &reference).is_none());
    assert!(decode_cron("0 0 32 * *", &reference).is_none());
    assert!(decode_cron("0 0 * 13 *", &reference).is_none());
    assert!(decode_cron("0 0 * 0 *", &reference).is_none());
    assert!(decode_cron("0 0 * * 7", &reference).is_none());
}

#[test]
fn malformed_patterns_rejected() {
    let reference = dt(2024, 1, 15, 10, 30);
    assert!(decode_cron("a b c d e", &reference).is_none());
    assert!(decode_cron("0 9 * *", &reference).is_none());
    assert!(decode_cron("0 9 * * * *", &reference).is_none());
    assert!(decode_cron("5-3 * * * *", &reference).is_none());
    assert!(decode_cron("1- * * * *", &reference).is_none());
    assert!(decode_cron(",1 * * * *", &reference).is_none());
    assert!(decode_cron("0  9 * * *", &reference).is_none());
    assert!(decode_cron(" 0 9 * * *", &reference).is_none());
    assert!(decode_cron("0 9 * * * ", &reference).is_none());
    assert!(decode_cron("10000 * * * *", &reference).is_none());
}

#[test]
fn unsatisfiable_february_date_rejected() {
    let reference = dt(2024, 1, 15, 10, 30);
    assert!(decode_cron("0 0 30 2 *", &reference).is_none());
}

#[test]
fn unsatisfiable_april_date_rejected() {
    let reference = dt(2024, 1, 15, 10, 30);
    assert!(decode_cron("0 0 31 4 *", &reference).is_none());
}

#[test]
fn sparse_date_weekday_combination_found() {
    // July 4th falls on a Thursday in 2030 and then not again until 2041;
    // the search horizon must reach across the gap.
    let reference = dt(2030, 7, 5, 0, 0);
    let next = decode_cron("0 9 4 7 4", &reference).unwrap();
    assert_eq!(next, dt(2041, 7, 4, 9, 0));
}

#[test]
fn parse_accepts_good_patterns() {
    assert!(parse_cron("0 9 * * *").is_some());
    assert!(parse_cron("59 23 31 12 6").is_some());
    assert!(parse_cron("0,15,30,45 * * * *").is_some());
    // Leading zeros name the same value.
    assert!(parse_cron("007 * * * *").is_some());
}

#[test]
fn successor_carries() {
    assert_eq!(succ_exec(&dt(2024, 2, 28, 23, 59)).unwrap(), dt(2024, 2, 29, 0, 0));
    assert_eq!(succ_exec(&dt(2023, 2, 28, 23, 59)).unwrap(), dt(2023, 3, 1, 0, 0));
    assert_eq!(succ_exec(&dt(2024, 12, 31, 23, 59)).unwrap(), dt(2025, 1, 1, 0, 0));
    assert!(succ_exec(&dt(9999, 12, 31, 23, 59)).is_none());
}

#[test]
fn known_weekdays() {
    // 1970-01-01 was a Thursday, 2000-01-01 a Saturday, 2024-01-15 a Monday.
    assert_eq!(dt(1970, 1, 1, 0, 0).weekday_exec(), 4);
    assert_eq!(dt(2000, 1, 1, 0, 0).weekday_exec(), 6);
    assert_eq!(dt(2024, 1, 15, 0, 0).weekday_exec(), 1);
}
