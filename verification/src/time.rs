//! Calendar instants at minute granularity, with a verified Gregorian model.
//!
//! A `DateTime` is well-formed when it names a real calendar date in the
//! supported year range. The model assigns every well-formed instant a unique
//! integer index (`dt_index`), which orders instants and makes "the next
//! minute" a plain `+ 1`.

use vstd::prelude::*;

verus! {

/// A calendar instant at minute granularity.
#[derive(Clone, Copy, Debug, PartialEq, Eq, Structural)]
pub struct DateTime {
    pub year: i32,
    pub month: u8,
    pub day: u8,
    pub hour: u8,
    pub minute: u8,
}

/// Whether `y` is a leap year in the Gregorian calendar.
pub open spec fn is_leap_year(y: int) -> bool {
    (y % 4 == 0 && y % 100 != 0) || y % 400 == 0
}

/// Number of days in month `m` of year `y` (months numbered 1 to 12).
pub open spec fn days_in_month(y: int, m: int) -> int {
    if m == 2 {
        if is_leap_year(y) { 29 } else { 28 }
    } else if m == 4 || m == 6 || m == 9 || m == 11 {
        30
    } else {
        31
    }
}

/// Number of days in year `y`.
pub open spec fn year_length(y: int) -> int {
    if is_leap_year(y) { 366 } else { 365 }
}

/// Days in all years before `y`, counting from year 1.
pub open spec fn days_before_year(y: int) -> int
    decreases y,
{
    if y <= 1 { 0 } else { days_before_year(y - 1) + year_length(y - 1) }
}

/// Days in all months of year `y` before month `m`.
pub open spec fn days_before_month(y: int, m: int) -> int
    decreases m,
{
    if m <= 1 { 0 } else { days_before_month(y, m - 1) + days_in_month(y, m - 1) }
}

impl DateTime {
    /// A well-formed instant: a real calendar date in the supported year range.
    pub open spec fn wf(self) -> bool {
        &&& 1 <= self.year <= 9999
        &&& 1 <= self.month <= 12
        &&& 1 <= self.day <= days_in_month(self.year as int, self.month as int)
        &&& self.hour < 24
        &&& self.minute < 60
    }

    /// Days elapsed since year 1, January 1st (which has day number 0).
    pub open spec fn day_number(self) -> int {
        days_before_year(self.year as int) + days_before_month(
            self.year as int,
            self.month as int,
        ) + self.day - 1
    }

    /// Minutes elapsed since year 1, January 1st, 00:00. Orders instants and
    /// is injective on well-formed instants.
    pub open spec fn dt_index(self) -> int {
        self.day_number() * 1440 + self.hour * 60 + self.minute
    }

    /// Day of the week, with 0 = Sunday through 6 = Saturday.
    pub open spec fn weekday(self) -> int {
        (self.day_number() + 1) % 7
    }
}

/// `a` is strictly before `b`.
pub open spec fn dt_lt(a: DateTime, b: DateTime) -> bool {
    a.dt_index() < b.dt_index()
}

/// The instant one minute after `t`, or `None` at the end of the supported range.
pub open spec fn spec_succ(t: DateTime) -> Option<DateTime> {
    if t.minute < 59 {
        Some(
            DateTime {
                year: t.year,
                month: t.month,
                day: t.day,
                hour: t.hour,
                minute: (t.minute + 1) as u8,
            },
        )
    } else if t.hour < 23 {
        Some(DateTime { year: t.year, month: t.month, day: t.day, hour: (t.hour + 1) as u8, minute: 0 })
    } else if t.day < days_in_month(t.year as int, t.month as int) {
        Some(DateTime { year: t.year, month: t.month, day: (t.day + 1) as u8, hour: 0, minute: 0 })
    } else if t.month < 12 {
        Some(DateTime { year: t.year, month: (t.month + 1) as u8, day: 1, hour: 0, minute: 0 })
    } else if t.year < 9999 {
        Some(DateTime { year: (t.year + 1) as i32, month: 1, day: 1, hour: 0, minute: 0 })
    } else {
        None
    }
}

/// The months of a year account for exactly its length.
pub proof fn lemma_year_total(y: int)
    ensures
        days_before_month(y, 13) == year_length(y),
{
    reveal_with_fuel(days_before_month, 14);
}

/// `days_before_month` grows with the month.
pub proof fn lemma_dbm_monotone(y: int, m1: int, m2: int)
    requires
        1 <= m1 <= m2 <= 13,
    ensures
        days_before_month(y, m1) <= days_before_month(y, m2),
    decreases m2 - m1,
{
    if m1 < m2 {
        lemma_dbm_monotone(y, m1, m2 - 1);
    }
}

/// `days_before_year` grows with the year, boundedly.
pub proof fn lemma_dby_bounds(y: int)
    requires
        1 <= y,
    ensures
        365 * (y - 1) <= days_before_year(y) <= 366 * (y - 1),
    decreases y,
{
    if y > 1 {
        lemma_dby_bounds(y - 1);
    }
}

/// A well-formed instant's day number lies within its year's days.
pub proof fn lemma_day_number_bounds(t: DateTime)
    requires
        t.wf(),
    ensures
        days_before_year(t.year as int) <= t.day_number(),
        t.day_number() < days_before_year(t.year as int + 1),
        0 <= t.day_number(),
{
    lemma_dbm_monotone(t.year as int, 1, t.month as int);
    lemma_dbm_monotone(t.year as int, t.month as int + 1, 13);
    lemma_year_total(t.year as int);
    assert(days_before_month(t.year as int, t.month as int + 1) == days_before_month(
        t.year as int,
        t.month as int,
    ) + days_in_month(t.year as int, t.month as int));
    lemma_dby_bounds(t.year as int);
}

/// Field-by-field (lexicographic) strict order on instants.
pub open spec fn lex_lt(a: DateTime, b: DateTime) -> bool {
    ||| a.year < b.year
    ||| (a.year == b.year && a.month < b.month)
    ||| (a.year == b.year && a.month == b.month && a.day < b.day)
    ||| (a.year == b.year && a.month == b.month && a.day == b.day && a.hour < b.hour)
    ||| (a.year == b.year && a.month == b.month && a.day == b.day && a.hour == b.hour && a.minute
        < b.minute)
}

/// The index respects the field order strictly.
pub proof fn lemma_index_strict_mono(a: DateTime, b: DateTime)
    requires
        a.wf(),
        b.wf(),
        lex_lt(a, b),
    ensures
        a.dt_index() < b.dt_index(),
{
    if a.year < b.year {
        lemma_day_number_bounds(a);
        lemma_day_number_bounds(b);
        lemma_dby_monotone(a.year as int + 1, b.year as int);
    } else if a.month < b.month {
        lemma_dbm_monotone(a.year as int, a.month as int + 1, b.month as int);
        assert(days_before_month(a.year as int, a.month as int + 1) == days_before_month(
            a.year as int,
            a.month as int,
        ) + days_in_month(a.year as int, a.month as int));
    }
}

/// `days_before_year` is monotone.
pub proof fn lemma_dby_monotone(y1: int, y2: int)
    requires
        y1 <= y2,
    ensures
        days_before_year(y1) <= days_before_year(y2),
    decreases y2 - y1,
{
    if y1 < y2 {
        lemma_dby_monotone(y1, y2 - 1);
    }
}

/// The index is injective on well-formed instants.
pub proof fn lemma_index_injective(a: DateTime, b: DateTime)
    requires
        a.wf(),
        b.wf(),
        a.dt_index() == b.dt_index(),
    ensures
        a == b,
{
    if a != b {
        if lex_lt(a, b) {
            lemma_index_strict_mono(a, b);
        } else {
            lemma_index_strict_mono(b, a);
        }
    }
}

/// The successor of a well-formed instant is the well-formed instant whose
/// index is one greater, and its weekday advances exactly when its date does.
pub proof fn lemma_succ(t: DateTime)
    requires
        t.wf(),
    ensures
        match spec_succ(t) {
            Some(u) => {
                &&& u.wf()
                &&& u.dt_index() == t.dt_index() + 1
                &&& u.day == t.day ==> u.weekday() == t.weekday()
                &&& u.day != t.day ==> u.weekday() == (t.weekday() + 1) % 7
            },
            None => t == (DateTime { year: 9999, month: 12, day: 31, hour: 23, minute: 59 }),
        },
{
    lemma_day_number_bounds(t);
    match spec_succ(t) {
        Some(u) => {
            if t.minute < 59 || t.hour < 23 {
            } else if t.day < days_in_month(t.year as int, t.month as int) {
            } else if t.month < 12 {
                assert(days_before_month(t.year as int, t.month as int + 1)
                    == days_before_month(t.year as int, t.month as int)
                        + days_in_month(t.year as int, t.month as int));
            } else if t.year < 9999 {
                lemma_year_total(t.year as int);
                assert(days_before_month(t.year as int, 13) == days_before_month(t.year as int, 12)
                    + days_in_month(t.year as int, 12));
            }
            if u.day_number() == t.day_number() + 1 {
                vstd::arithmetic::div_mod::lemma_add_mod_noop(t.day_number() + 1, 1, 7);
                vstd::arithmetic::div_mod::lemma_mod_twice(t.day_number() + 1, 7);
            }
        },
        None => {},
    }
}

/// Whether `y` is a leap year.
pub fn is_leap_year_exec(y: i32) -> (r: bool)
    requires
        1 <= y,
    ensures
        r == is_leap_year(y as int),
{
    (y % 4 == 0 && y % 100 != 0) || y % 400 == 0
}

/// Number of days in month `m` of year `y`.
pub fn days_in_month_exec(y: i32, m: u8) -> (r: u8)
    requires
        1 <= y,
        1 <= m <= 12,
    ensures
        r == days_in_month(y as int, m as int),
{
    if m == 2 {
        if is_leap_year_exec(y) { 29 } else { 28 }
    } else if m == 4 || m == 6 || m == 9 || m == 11 {
        30
    } else {
        31
    }
}

impl DateTime {
    /// Whether this instant is well-formed.
    pub fn check_wf(&self) -> (r: bool)
        ensures
            r == self.wf(),
    {
        1 <= self.year && self.year <= 9999 && 1 <= self.month && self.month <= 12 && 1 <= self.day
            && self.day <= days_in_month_exec(self.year, self.month) && self.hour < 24
            && self.minute < 60
    }

    /// Days elapsed since year 1, January 1st.
    pub fn day_number_exec(&self) -> (r: u32)
        requires
            self.wf(),
        ensures
            r == self.day_number(),
    {
        let mut acc: u32 = 0;
        let mut yy: i32 = 1;
        while yy < self.year
            invariant
                self.wf(),
                1 <= yy <= self.year,
                acc == days_before_year(yy as int),
            decreases self.year - yy,
        {
            proof {
                lemma_dby_bounds(yy as int + 1);
            }
            acc = acc + if is_leap_year_exec(yy) { 366 } else { 365 };
            yy = yy + 1;
        }
        let mut mm: u8 = 1;
        while mm < self.month
            invariant
                self.wf(),
                1 <= mm <= self.month,
                acc == days_before_year(self.year as int) + days_before_month(
                    self.year as int,
                    mm as int,
                ),
            decreases self.month - mm,
        {
            proof {
                lemma_dby_bounds(self.year as int);
                lemma_dbm_monotone(self.year as int, 1, mm as int + 1);
                lemma_dbm_monotone(self.year as int, mm as int + 1, 13);
                lemma_year_total(self.year as int);
            }
            acc = acc + days_in_month_exec(self.year, mm) as u32;
            mm = mm + 1;
        }
        proof {
            lemma_day_number_bounds(*self);
            lemma_dby_bounds(self.year as int + 1);
        }
        acc + self.day as u32 - 1
    }

    /// Minutes elapsed since year 1, January 1st, 00:00.
    pub fn dt_index_exec(&self) -> (r: u64)
        requires
            self.wf(),
        ensures
            r == self.dt_index(),
    {
        let dn = self.day_number_exec();
        dn as u64 * 1440 + self.hour as u64 * 60 + self.minute as u64
    }

    /// Day of the week, with 0 = Sunday through 6 = Saturday.
    pub fn weekday_exec(&self) -> (r: u8)
        requires
            self.wf(),
        ensures
            r == self.weekday(),
    {
        let dn = self.day_number_exec();
        proof {
            lemma_day_number_bounds(*self);
            lemma_dby_bounds(self.year as int + 1);
        }
        ((dn + 1) % 7) as u8
    }
}

/// Whether `a` is strictly before `b`.
pub fn dt_before(a: &DateTime, b: &DateTime) -> (r: bool)
    requires
        a.wf(),
        b.wf(),
    ensures
        r == dt_lt(*a, *b),
{
    a.dt_index_exec() < b.dt_index_exec()
}

/// The instant one minute after `t`, or `None` at the end of the supported range.
pub fn succ_exec(t: &DateTime) -> (r: Option<DateTime>)
    requires
        t.wf(),
    ensures
        r == spec_succ(*t),
{
    if t.minute < 59 {
        Some(DateTime { year: t.year, month: t.month, day: t.day, hour: t.hour, minute: t.minute + 1 })
    } else if t.hour < 23 {
        Some(DateTime { year: t.year, month: t.month, day: t.day, hour: t.hour + 1, minute: 0 })
    } else if t.day < days_in_month_exec(t.year, t.month) {
        Some(DateTime { year: t.year, month: t.month, day: t.day + 1, hour: 0, minute: 0 })
    } else if t.month < 12 {
        Some(DateTime { year: t.year, month: t.month + 1, day: 1, hour: 0, minute: 0 })
    } else if t.year < 9999 {
        Some(DateTime { year: t.year + 1, month: 1, day: 1, hour: 0, minute: 0 })
    } else {
        None
    }
}

} // verus!
