//! The wall clock, read through chrono and narrowed to a well-formed
//! `DateTime`.

use vstd::prelude::*;

use chrono::Datelike;
use chrono::Timelike;

use crate::time::DateTime;
use crate::time::days_in_month;

verus! {

/// Relies on std::time::SystemTime::now (documented to measure time against
/// the Unix epoch) and on chrono::DateTime::from_timestamp together with the
/// chrono::Datelike / chrono::Timelike accessors of chrono::NaiveDateTime: a
/// NaiveDateTime always holds a real calendar date, so its month, day, hour
/// and minute lie in their calendar ranges; nothing is promised of the year.
/// A clock before the Unix epoch, or beyond chrono's representable range,
/// yields the year-zero reading, which the contract's silence on the year
/// covers; no input makes this wrapper panic.
#[verifier::external_body]
fn read_clock() -> (r: (i32, u8, u8, u8, u8))
    ensures
        1 <= r.1 <= 12,
        1 <= r.2 <= days_in_month(r.0 as int, r.1 as int),
        r.3 < 24,
        r.4 < 60,
{
    let secs = match std::time::SystemTime::now().duration_since(std::time::UNIX_EPOCH) {
        Ok(d) => d.as_secs() as i64,
        Err(_) => return (0, 1, 1, 0, 0),
    };
    let t = match chrono::DateTime::from_timestamp(secs, 0) {
        Some(t) => t.naive_utc(),
        None => return (0, 1, 1, 0, 0),
    };
    (t.year(), t.month() as u8, t.day() as u8, t.hour() as u8, t.minute() as u8)
}

/// Narrows a raw clock reading to a well-formed instant: exactly the
/// readings whose year lies in the supported range pass through, with every
/// field carried unchanged.
pub fn narrow_clock(year: i32, month: u8, day: u8, hour: u8, minute: u8) -> (r: Option<DateTime>)
    requires
        1 <= month <= 12,
        1 <= day <= days_in_month(year as int, month as int),
        hour < 24,
        minute < 60,
    ensures
        r is Some <==> 1 <= year <= 9999,
        r matches Some(t) ==> t == (DateTime { year, month, day, hour, minute }) && t.wf(),
{
    if 1 <= year && year <= 9999 {
        Some(DateTime { year, month, day, hour, minute })
    } else {
        None
    }
}

/// The current instant, or `None` when the clock reports a year outside the
/// supported range.
pub fn current_time() -> (r: Option<DateTime>)
    ensures
        r matches Some(t) ==> t.wf(),
{
    let (year, month, day, hour, minute) = read_clock();
    narrow_clock(year, month, day, hour, minute)
}

} // verus!
