//! Cron-style recurrence patterns: grammar, parsing, and next-occurrence
//! search.
//!
//! A pattern holds five space-separated fields — minute, hour, day of month,
//! month, day of week — where each field is `*`, a value, a range `a-b`, or a
//! comma-separated list of values and ranges. Field ranges are minute 0-59,
//! hour 0-23, day 1-31, month 1-12, weekday 0-6 (0 = Sunday).
//!
//! `decode_cron` returns the earliest well-formed instant strictly after the
//! reference instant that satisfies the pattern, searching a bounded horizon
//! of minutes; a pattern with no occurrence in the horizon (such as a
//! nonexistent calendar date) yields `None`.

use vstd::prelude::*;

use crate::time::DateTime;
use crate::time::lemma_day_number_bounds;
use crate::time::lemma_index_injective;
use crate::time::lemma_succ;
use crate::time::spec_succ;
use crate::time::succ_exec;
use crate::time::dt_lt;

verus! {

/// How many minutes ahead of the reference the search looks: a little under
/// forty-two years. Over the Gregorian 400-year cycle the rarest satisfiable
/// field combination — February 29th on a fixed weekday — recurs within
/// 14609 days (just under forty years, 21036960 minutes), so every
/// satisfiable pattern has an occurrence inside the horizon; only
/// combinations naming no real calendar date (February 30th) exhaust it.
pub const SEARCH_LIMIT: u32 = 22_000_000;

/// The sets of admitted values of a parsed pattern, one membership sequence
/// per field, indexed by field value.
pub struct CronView {
    pub minutes: Seq<bool>,
    pub hours: Seq<bool>,
    pub days: Seq<bool>,
    pub months: Seq<bool>,
    pub weekdays: Seq<bool>,
}

impl CronView {
    /// Each membership sequence covers its field's value range.
    pub open spec fn wf(self) -> bool {
        &&& self.minutes.len() == 60
        &&& self.hours.len() == 24
        &&& self.days.len() == 32
        &&& self.months.len() == 13
        &&& self.weekdays.len() == 7
    }
}

/// A parsed recurrence pattern.
#[derive(Debug)]
pub struct CronPattern {
    pub minutes: Vec<bool>,
    pub hours: Vec<bool>,
    pub days: Vec<bool>,
    pub months: Vec<bool>,
    pub weekdays: Vec<bool>,
}

impl View for CronPattern {
    type V = CronView;

    open spec fn view(&self) -> CronView {
        CronView {
            minutes: self.minutes@,
            hours: self.hours@,
            days: self.days@,
            months: self.months@,
            weekdays: self.weekdays@,
        }
    }
}

/// Whether `c` is an ASCII decimal digit.
pub open spec fn is_digit(c: char) -> bool {
    48 <= c as u32 <= 57
}

/// The numeric value of an ASCII decimal digit.
pub open spec fn digit_val(c: char) -> int {
    c as u32 - 48
}

/// Reads a run of digits starting at `i`, accumulating onto `acc`; returns
/// the value and the position after the run. Stops early once the value
/// exceeds three digits, so a following digit marks an overlong number.
pub open spec fn scan_num(s: Seq<char>, i: int, acc: int) -> (int, int)
    decreases s.len() - i when 0 <= i <= s.len()
{
    if i < s.len() && is_digit(s[i]) && acc <= 999 {
        scan_num(s, i + 1, acc * 10 + digit_val(s[i]))
    } else {
        (acc, i)
    }
}

/// Bounds of `scan_num`: the end stays within the string and the value
/// within four digits.
pub proof fn lemma_scan_num_bounds(s: Seq<char>, i: int, acc: int)
    requires
        0 <= i <= s.len(),
        0 <= acc <= 9999,
    ensures
        i <= scan_num(s, i, acc).1 <= s.len(),
        0 <= scan_num(s, i, acc).0 <= 9999,
        i < s.len() && is_digit(s[i]) && acc <= 999 ==> i + 1 <= scan_num(s, i, acc).1,
    decreases s.len() - i,
{
    if i < s.len() && is_digit(s[i]) && acc <= 999 {
        lemma_scan_num_bounds(s, i + 1, acc * 10 + digit_val(s[i]));
    }
}

/// Parses a single list item — a value or a range `a-b` — at `i`, checking
/// the field bounds `lo..=hi`. Returns the admitted range and the position
/// after the item.
pub open spec fn parse_item(s: Seq<char>, i: int, lo: int, hi: int) -> Option<(int, int, int)> {
    if !(0 <= i < s.len() && is_digit(s[i])) {
        None
    } else {
        let (a, j) = scan_num(s, i, 0);
        if j < s.len() && is_digit(s[j]) {
            None
        } else if j < s.len() && s[j] == '-' {
            if !(j + 1 < s.len() && is_digit(s[j + 1])) {
                None
            } else {
                let (b, k) = scan_num(s, j + 1, 0);
                if k < s.len() && is_digit(s[k]) {
                    None
                } else if lo <= a && a <= b && b <= hi {
                    Some((a, b, k))
                } else {
                    None
                }
            }
        } else if lo <= a && a <= hi {
            Some((a, a, j))
        } else {
            None
        }
    }
}

/// Bounds of `parse_item`: a parsed item consumes at least one character and
/// stays within the field's range.
pub proof fn lemma_parse_item_bounds(s: Seq<char>, i: int, lo: int, hi: int)
    requires
        0 <= i <= s.len(),
    ensures
        match parse_item(s, i, lo, hi) {
            Some((a, b, j)) => i < j <= s.len() && lo <= a <= b <= hi,
            None => true,
        },
{
    if 0 <= i < s.len() && is_digit(s[i]) {
        lemma_scan_num_bounds(s, i, 0);
        let (a, j) = scan_num(s, i, 0);
        if j < s.len() && s[j] == '-' && j + 1 < s.len() && is_digit(s[j + 1]) {
            lemma_scan_num_bounds(s, j + 1, 0);
        }
    }
}

/// `sq` with every position in `a..=b` additionally admitted.
pub open spec fn mark_range(sq: Seq<bool>, a: int, b: int) -> Seq<bool> {
    Seq::new(sq.len(), |v: int| sq[v] || (a <= v <= b))
}

/// Parses a comma-separated list of items at `i`, admitting their values
/// into `sq`.
pub open spec fn parse_list(s: Seq<char>, i: int, lo: int, hi: int, sq: Seq<bool>) -> Option<
    (Seq<bool>, int),
>
    decreases s.len() - i when 0 <= i <= s.len() via parse_list_decreases
{
    match parse_item(s, i, lo, hi) {
        None => None,
        Some((a, b, j)) => {
            let sq2 = mark_range(sq, a, b);
            if j < s.len() && s[j] == ',' {
                parse_list(s, j + 1, lo, hi, sq2)
            } else {
                Some((sq2, j))
            }
        },
    }
}

#[via_fn]
proof fn parse_list_decreases(s: Seq<char>, i: int, lo: int, hi: int, sq: Seq<bool>) {
    lemma_parse_item_bounds(s, i, lo, hi);
}

/// Bounds of `parse_list`: the result keeps the membership sequence's length
/// and ends within the string.
pub proof fn lemma_parse_list_bounds(s: Seq<char>, i: int, lo: int, hi: int, sq: Seq<bool>)
    requires
        0 <= i <= s.len(),
    ensures
        match parse_list(s, i, lo, hi, sq) {
            Some((q, j)) => q.len() == sq.len() && i < j <= s.len(),
            None => true,
        },
    decreases s.len() - i,
{
    lemma_parse_item_bounds(s, i, lo, hi);
    match parse_item(s, i, lo, hi) {
        None => {},
        Some((a, b, j)) => {
            let sq2 = mark_range(sq, a, b);
            if j < s.len() && s[j] == ',' {
                lemma_parse_list_bounds(s, j + 1, lo, hi, sq2);
            }
        },
    }
}

/// Parses one field at `i`: `*` admits the whole range, otherwise a list of
/// items. `len` is the length of the field's membership sequence.
pub open spec fn parse_field(s: Seq<char>, i: int, lo: int, hi: int, len: nat) -> Option<
    (Seq<bool>, int),
> {
    if 0 <= i < s.len() && s[i] == '*' {
        Some((mark_range(Seq::new(len, |v: int| false), lo, hi), i + 1))
    } else {
        parse_list(s, i, lo, hi, Seq::new(len, |v: int| false))
    }
}

/// Bounds of `parse_field`.
pub proof fn lemma_parse_field_bounds(s: Seq<char>, i: int, lo: int, hi: int, len: nat)
    requires
        0 <= i <= s.len(),
    ensures
        match parse_field(s, i, lo, hi, len) {
            Some((q, j)) => q.len() == len && i < j <= s.len(),
            None => true,
        },
{
    if !(0 <= i < s.len() && s[i] == '*') {
        lemma_parse_list_bounds(s, i, lo, hi, Seq::new(len, |v: int| false));
    }
}

/// Parses a whole five-field pattern; the admitted sets of each field, or
/// `None` for a malformed pattern.
pub open spec fn spec_parse(s: Seq<char>) -> Option<CronView> {
    match parse_field(s, 0, 0, 59, 60) {
        None => None,
        Some((mins, i1)) => if !(i1 < s.len() && s[i1] == ' ') {
            None
        } else {
            match parse_field(s, i1 + 1, 0, 23, 24) {
                None => None,
                Some((hrs, i2)) => if !(i2 < s.len() && s[i2] == ' ') {
                    None
                } else {
                    match parse_field(s, i2 + 1, 1, 31, 32) {
                        None => None,
                        Some((dys, i3)) => if !(i3 < s.len() && s[i3] == ' ') {
                            None
                        } else {
                            match parse_field(s, i3 + 1, 1, 12, 13) {
                                None => None,
                                Some((mos, i4)) => if !(i4 < s.len() && s[i4] == ' ') {
                                    None
                                } else {
                                    match parse_field(s, i4 + 1, 0, 6, 7) {
                                        None => None,
                                        Some((wds, i5)) => if i5 == s.len() {
                                            Some(
                                                CronView {
                                                    minutes: mins,
                                                    hours: hrs,
                                                    days: dys,
                                                    months: mos,
                                                    weekdays: wds,
                                                },
                                            )
                                        } else {
                                            None
                                        },
                                    }
                                },
                            }
                        },
                    }
                },
            }
        },
    }
}

/// A parsed pattern's membership sequences have their fields' lengths.
pub proof fn lemma_spec_parse_wf(s: Seq<char>)
    ensures
        match spec_parse(s) {
            Some(v) => v.wf(),
            None => true,
        },
{
    lemma_parse_field_bounds(s, 0, 0, 59, 60);
    match parse_field(s, 0, 0, 59, 60) {
        None => {},
        Some((mins, i1)) => if i1 < s.len() && s[i1] == ' ' {
            lemma_parse_field_bounds(s, i1 + 1, 0, 23, 24);
            match parse_field(s, i1 + 1, 0, 23, 24) {
                None => {},
                Some((hrs, i2)) => if i2 < s.len() && s[i2] == ' ' {
                    lemma_parse_field_bounds(s, i2 + 1, 1, 31, 32);
                    match parse_field(s, i2 + 1, 1, 31, 32) {
                        None => {},
                        Some((dys, i3)) => if i3 < s.len() && s[i3] == ' ' {
                            lemma_parse_field_bounds(s, i3 + 1, 1, 12, 13);
                            match parse_field(s, i3 + 1, 1, 12, 13) {
                                None => {},
                                Some((mos, i4)) => if i4 < s.len() && s[i4] == ' ' {
                                    lemma_parse_field_bounds(s, i4 + 1, 0, 6, 7);
                                },
                            }
                        },
                    }
                },
            }
        },
    }
}

/// Whether instant `t` satisfies pattern `p` (all five fields admit it).
pub open spec fn pat_matches(p: CronView, t: DateTime) -> bool {
    &&& p.minutes[t.minute as int]
    &&& p.hours[t.hour as int]
    &&& p.days[t.day as int]
    &&& p.months[t.month as int]
    &&& p.weekdays[t.weekday()]
}

/// The first instant from `t` onward (inclusive) that satisfies `p`, looking
/// at most `fuel` instants ahead.
pub open spec fn spec_search(p: CronView, t: DateTime, fuel: nat) -> Option<DateTime>
    decreases fuel,
{
    if fuel == 0 {
        None
    } else if pat_matches(p, t) {
        Some(t)
    } else {
        match spec_succ(t) {
            None => None,
            Some(u) => spec_search(p, u, (fuel - 1) as nat),
        }
    }
}

/// What decoding a pattern against a reference instant yields: the earliest
/// satisfying instant strictly after the reference, within the search
/// horizon; `None` for malformed patterns and patterns with no occurrence.
pub open spec fn spec_decode(s: Seq<char>, reference: DateTime) -> Option<DateTime> {
    match spec_parse(s) {
        None => None,
        Some(p) => match spec_succ(reference) {
            None => None,
            Some(t0) => spec_search(p, t0, SEARCH_LIMIT as nat),
        },
    }
}

/// A successful search yields a well-formed instant that satisfies the
/// pattern, is not before the search start, and is the earliest such instant.
pub proof fn lemma_search_props(p: CronView, t: DateTime, fuel: nat)
    requires
        t.wf(),
    ensures
        match spec_search(p, t, fuel) {
            Some(u) => {
                &&& u.wf()
                &&& pat_matches(p, u)
                &&& t.dt_index() <= u.dt_index()
                &&& forall|v: DateTime|
                    v.wf() && t.dt_index() <= v.dt_index() < u.dt_index() ==> !pat_matches(p, v)
            },
            None => true,
        },
    decreases fuel,
{
    if fuel > 0 && !pat_matches(p, t) {
        lemma_succ(t);
        match spec_succ(t) {
            None => {},
            Some(t2) => {
                lemma_search_props(p, t2, (fuel - 1) as nat);
                match spec_search(p, t2, (fuel - 1) as nat) {
                    None => {},
                    Some(u) => {
                        assert forall|v: DateTime|
                            v.wf() && t.dt_index() <= v.dt_index() < u.dt_index() implies !pat_matches(
                            p,
                            v,
                        ) by {
                            if v.dt_index() == t.dt_index() {
                                lemma_index_injective(v, t);
                            }
                        }
                    },
                }
            },
        }
    }
}

/// Law: a decoded instant is strictly after the reference, satisfies the
/// pattern, and no well-formed instant between the two does.
pub proof fn lemma_decode_next(s: Seq<char>, reference: DateTime)
    requires
        reference.wf(),
    ensures
        match spec_decode(s, reference) {
            Some(t) => {
                &&& t.wf()
                &&& dt_lt(reference, t)
                &&& spec_parse(s) is Some
                &&& pat_matches(spec_parse(s)->Some_0, t)
                &&& forall|v: DateTime|
                    v.wf() && dt_lt(reference, v) && dt_lt(v, t) ==> !pat_matches(
                        spec_parse(s)->Some_0,
                        v,
                    )
            },
            None => true,
        },
{
    lemma_succ(reference);
    match spec_parse(s) {
        None => {},
        Some(p) => match spec_succ(reference) {
            None => {},
            Some(t0) => {
                lemma_search_props(p, t0, SEARCH_LIMIT as nat);
            },
        },
    }
}

/// Law: decoding is deterministic — any two results of decoding the same
/// pattern against the same reference are equal.
pub proof fn lemma_decode_deterministic(
    s: Seq<char>,
    reference: DateTime,
    r1: Option<DateTime>,
    r2: Option<DateTime>,
)
    requires
        r1 == spec_decode(s, reference),
        r2 == spec_decode(s, reference),
    ensures
        r1 == r2,
{
}

/// Law: a pattern that does not parse never decodes to an instant.
pub proof fn lemma_malformed_never_decodes(s: Seq<char>, reference: DateTime)
    requires
        spec_parse(s) is None,
    ensures
        spec_decode(s, reference) is None,
{
}

/// A vector of `n` entries, none admitted.
fn falses(n: usize) -> (r: Vec<bool>)
    ensures
        r@ == Seq::new(n as nat, |v: int| false),
{
    let mut v: Vec<bool> = Vec::new();
    let mut k: usize = 0;
    while k < n
        invariant
            k <= n,
            v@ == Seq::new(k as nat, |x: int| false),
        decreases n - k,
    {
        v.push(false);
        assert(v@ =~= Seq::new((k + 1) as nat, |x: int| false));
        k = k + 1;
    }
    v
}

/// Admits every position in `a..=b` of `sq`.
fn mark_range_exec(sq: Vec<bool>, a: usize, b: usize) -> (r: Vec<bool>)
    requires
        a <= b < sq.len(),
    ensures
        r@ == mark_range(sq@, a as int, b as int),
{
    let ghost orig = sq@;
    let mut v = sq;
    let mut k = a;
    while k <= b
        invariant
            a <= k <= b + 1,
            b < orig.len() <= usize::MAX,
            v@ == Seq::new(orig.len(), |x: int| orig[x] || (a <= x < k)),
        decreases b + 1 - k,
    {
        let old_bit = v[k];
        v.set(k, true);
        assert(v@ =~= Seq::new(orig.len(), |x: int| orig[x] || (a <= x < k + 1)));
        k = k + 1;
    }
    assert(v@ =~= mark_range(orig, a as int, b as int));
    v
}

/// Reads a run of digits starting at `i`.
fn scan_num_exec(s: &str, i: usize, acc: u32) -> (r: (u32, usize))
    requires
        i <= s@.len(),
        acc <= 9999,
    ensures
        r.0 == scan_num(s@, i as int, acc as int).0,
        r.1 == scan_num(s@, i as int, acc as int).1,
        r.1 <= s@.len(),
    decreases s@.len() - i,
{
    proof {
        lemma_scan_num_bounds(s@, i as int, acc as int);
    }
    if i < s.unicode_len() {
        let c = s.get_char(i);
        let cv = c as u32;
        if 48 <= cv && cv <= 57 && acc <= 999 {
            return scan_num_exec(s, i + 1, acc * 10 + (cv - 48));
        }
    }
    (acc, i)
}

/// Parses a single list item — a value or a range — at `i`.
fn parse_item_exec(s: &str, i: usize, lo: u32, hi: u32) -> (r: Option<(u32, u32, usize)>)
    requires
        i <= s@.len(),
        hi <= 59,
    ensures
        match r {
            Some((a, b, j)) => parse_item(s@, i as int, lo as int, hi as int) == Some(
                (a as int, b as int, j as int),
            ) && i < j <= s@.len() && lo <= a <= b <= hi,
            None => parse_item(s@, i as int, lo as int, hi as int) is None,
        },
{
    proof {
        lemma_parse_item_bounds(s@, i as int, lo as int, hi as int);
    }
    let n = s.unicode_len();
    if !(i < n && is_digit_exec(s.get_char(i))) {
        return None;
    }
    let (a, j) = scan_num_exec(s, i, 0);
    if j < n && is_digit_exec(s.get_char(j)) {
        return None;
    }
    if j < n && s.get_char(j) == '-' {
        if !(j + 1 < n && is_digit_exec(s.get_char(j + 1))) {
            return None;
        }
        let (b, k) = scan_num_exec(s, j + 1, 0);
        proof {
            lemma_scan_num_bounds(s@, j as int + 1, 0);
        }
        if k < n && is_digit_exec(s.get_char(k)) {
            return None;
        }
        if lo <= a && a <= b && b <= hi {
            return Some((a, b, k));
        }
        return None;
    }
    if lo <= a && a <= hi {
        return Some((a, a, j));
    }
    None
}

/// Whether `c` is an ASCII decimal digit.
fn is_digit_exec(c: char) -> (r: bool)
    ensures
        r == is_digit(c),
{
    let cv = c as u32;
    48 <= cv && cv <= 57
}

/// Parses a comma-separated list of items at `i`, admitting their values
/// into `sq`.
fn parse_list_exec(s: &str, i: usize, lo: u32, hi: u32, sq: Vec<bool>) -> (r: Option<
    (Vec<bool>, usize),
>)
    requires
        i <= s@.len(),
        hi <= 59,
        sq.len() == hi + 1,
    ensures
        match r {
            Some((q, j)) => parse_list(s@, i as int, lo as int, hi as int, sq@) == Some(
                (q@, j as int),
            ) && j <= s@.len() && q.len() == sq.len(),
            None => parse_list(s@, i as int, lo as int, hi as int, sq@) is None,
        },
    decreases s@.len() - i,
{
    let n = s.unicode_len();
    match parse_item_exec(s, i, lo, hi) {
        None => None,
        Some((a, b, j)) => {
            let sq2 = mark_range_exec(sq, a as usize, b as usize);
            if j < n && s.get_char(j) == ',' {
                parse_list_exec(s, j + 1, lo, hi, sq2)
            } else {
                Some((sq2, j))
            }
        },
    }
}

/// Parses one field at `i`.
fn parse_field_exec(s: &str, i: usize, lo: u32, hi: u32) -> (r: Option<(Vec<bool>, usize)>)
    requires
        i <= s@.len(),
        lo <= hi,
        hi <= 59,
    ensures
        match r {
            Some((q, j)) => parse_field(s@, i as int, lo as int, hi as int, (hi + 1) as nat)
                == Some((q@, j as int)) && j <= s@.len() && q.len() == hi + 1,
            None => parse_field(s@, i as int, lo as int, hi as int, (hi + 1) as nat) is None,
        },
{
    let n = s.unicode_len();
    let base = falses((hi + 1) as usize);
    if i < n && s.get_char(i) == '*' {
        let q = mark_range_exec(base, lo as usize, hi as usize);
        Some((q, i + 1))
    } else {
        parse_list_exec(s, i, lo, hi, base)
    }
}

/// Parses a whole five-field pattern.
pub fn parse_cron(s: &str) -> (r: Option<CronPattern>)
    ensures
        match r {
            Some(p) => spec_parse(s@) == Some(p@) && p@.wf(),
            None => spec_parse(s@) is None,
        },
{
    let n = s.unicode_len();
    let (mins, i1) = match parse_field_exec(s, 0, 0, 59) {
        None => { return None; },
        Some(x) => x,
    };
    if !(i1 < n && s.get_char(i1) == ' ') {
        return None;
    }
    let (hrs, i2) = match parse_field_exec(s, i1 + 1, 0, 23) {
        None => { return None; },
        Some(x) => x,
    };
    if !(i2 < n && s.get_char(i2) == ' ') {
        return None;
    }
    let (dys, i3) = match parse_field_exec(s, i2 + 1, 1, 31) {
        None => { return None; },
        Some(x) => x,
    };
    if !(i3 < n && s.get_char(i3) == ' ') {
        return None;
    }
    let (mos, i4) = match parse_field_exec(s, i3 + 1, 1, 12) {
        None => { return None; },
        Some(x) => x,
    };
    if !(i4 < n && s.get_char(i4) == ' ') {
        return None;
    }
    let (wds, i5) = match parse_field_exec(s, i4 + 1, 0, 6) {
        None => { return None; },
        Some(x) => x,
    };
    if i5 != n {
        return None;
    }
    Some(CronPattern { minutes: mins, hours: hrs, days: dys, months: mos, weekdays: wds })
}

/// Whether instant `t` satisfies pattern `p`, with `t`'s weekday supplied.
fn matches_exec(p: &CronPattern, t: &DateTime, dow: u8) -> (r: bool)
    requires
        p@.wf(),
        t.wf(),
        dow as int == t.weekday(),
    ensures
        r == pat_matches(p@, *t),
{
    proof {
        lemma_day_number_bounds(*t);
    }
    p.minutes[t.minute as usize] && p.hours[t.hour as usize] && p.days[t.day as usize]
        && p.months[t.month as usize] && p.weekdays[dow as usize]
}

/// Decodes `pattern` against `reference`: the earliest well-formed instant
/// strictly after `reference` that satisfies the pattern, or `None` when the
/// pattern is malformed or has no occurrence within the search horizon.
pub fn decode_cron(pattern: &str, reference: &DateTime) -> (r: Option<DateTime>)
    requires
        reference.wf(),
    ensures
        r == spec_decode(pattern@, *reference),
        r matches Some(t) ==> t.wf() && dt_lt(*reference, t),
{
    proof {
        lemma_decode_next(pattern@, *reference);
    }
    let p = match parse_cron(pattern) {
        None => { return None; },
        Some(p) => p,
    };
    proof {
        lemma_succ(*reference);
    }
    let mut cur = match succ_exec(reference) {
        None => { return None; },
        Some(c) => c,
    };
    let mut dow = cur.weekday_exec();
    let mut fuel: u32 = SEARCH_LIMIT;
    loop
        invariant
            p@.wf(),
            cur.wf(),
            dow as int == cur.weekday(),
            reference.wf(),
            spec_decode(pattern@, *reference) == spec_search(p@, cur, fuel as nat),
            spec_decode(pattern@, *reference) matches Some(t) ==> t.wf() && dt_lt(*reference, t),
        decreases fuel,
    {
        if fuel == 0 {
            return None;
        }
        if matches_exec(&p, &cur, dow) {
            return Some(cur);
        }
        proof {
            lemma_succ(cur);
        }
        let nxt = match succ_exec(&cur) {
            None => { return None; },
            Some(x) => x,
        };
        if nxt.day != cur.day {
            dow = (dow + 1) % 7;
        }
        cur = nxt;
        fuel = fuel - 1;
    }
}

} // verus!
