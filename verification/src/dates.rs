//! Proleptic Gregorian calendar arithmetic.
//!
//! A `Date` is a year/month/day triple; a `TimeOfDay` is a wall-clock time;
//! a `DateTime` combines the two.  All datetimes in this crate live in one
//! fixed UTC+2 offset, so a `DateTime` denotes a single instant and instants
//! are compared through `day_number`, the number of days since 1970-01-01.

use vstd::prelude::*;

verus! {

/// A calendar date in the proleptic Gregorian calendar.
#[derive(Clone, Copy, Debug, PartialEq, Eq, Structural)]
pub struct Date {
    pub year: i32,
    pub month: u8,
    pub day: u8,
}

/// A wall-clock time of day.
#[derive(Clone, Copy, Debug, PartialEq, Eq, Structural)]
pub struct TimeOfDay {
    pub hour: u8,
    pub minute: u8,
    pub second: u8,
}

/// An instant: a date together with a time of day, in the fixed offset.
#[derive(Clone, Copy, Debug, PartialEq, Eq, Structural)]
pub struct DateTime {
    pub date: Date,
    pub time: TimeOfDay,
}

pub open spec fn leap_year(y: int) -> bool {
    (y % 4 == 0 && y % 100 != 0) || y % 400 == 0
}

pub open spec fn days_in_month(y: int, m: int) -> int {
    if m == 2 {
        if leap_year(y) {
            29
        } else {
            28
        }
    } else if m == 4 || m == 6 || m == 9 || m == 11 {
        30
    } else {
        31
    }
}

impl Date {
    /// The date lies in the year range the library computes over and its
    /// month and day are in range.
    pub open spec fn in_range(self) -> bool {
        &&& 0 <= self.year <= 100000
        &&& 1 <= self.month <= 12
        &&& 1 <= self.day <= days_in_month(self.year as int, self.month as int)
    }

    /// An input date: in range, and far enough from the range ends that a
    /// generation window anchored at it stays in range.
    pub open spec fn valid(self) -> bool {
        self.in_range() && 1 <= self.year <= 9999
    }
}

/// Month re-indexed so that March is 0 and February is 11; with this
/// numbering a leap day only moves the boundary between one "march year"
/// and the next.
pub open spec fn month_index(m: int) -> int {
    if m >= 3 {
        m - 3
    } else {
        m + 9
    }
}

/// Days in a march-based year strictly before month `mp` (March = 0).
pub open spec fn days_before_month(mp: int) -> int {
    if mp == 0 {
        0
    } else if mp == 1 {
        31
    } else if mp == 2 {
        61
    } else if mp == 3 {
        92
    } else if mp == 4 {
        122
    } else if mp == 5 {
        153
    } else if mp == 6 {
        184
    } else if mp == 7 {
        214
    } else if mp == 8 {
        245
    } else if mp == 9 {
        275
    } else if mp == 10 {
        306
    } else {
        337
    }
}

/// The year a date belongs to when years are counted from March to
/// February, shifted by 400 so that all division operands stay positive.
pub open spec fn march_year_shifted(d: Date) -> int {
    if d.month <= 2 {
        d.year - 1 + 400
    } else {
        d.year + 400
    }
}

/// Days since 1970-01-01 (0 for the epoch itself, negative before it).
pub open spec fn day_number(d: Date) -> int {
    let y = march_year_shifted(d);
    365 * y + y / 4 - y / 100 + y / 400 + days_before_month(month_index(d.month as int)) + d.day
        - 1 - 865565
}

/// Seconds into the day of a time of day.
pub open spec fn seconds_of_day(t: TimeOfDay) -> int {
    t.hour * 3600 + t.minute * 60 + t.second
}

impl TimeOfDay {
    pub open spec fn wf(self) -> bool {
        self.hour < 24 && self.minute < 60 && self.second < 60
    }
}

/// Seconds since the epoch instant 1970-01-01T00:00:00 at the fixed offset.
pub open spec fn instant_seconds(dt: DateTime) -> int {
    day_number(dt.date) * 86400 + seconds_of_day(dt.time)
}

impl DateTime {
    pub open spec fn in_range(self) -> bool {
        self.date.in_range() && self.time.wf()
    }

    pub open spec fn valid(self) -> bool {
        self.date.valid() && self.time.wf()
    }
}

/// Computes `day_number` executably.
pub fn day_number_exec(d: &Date) -> (n: i64)
    requires
        d.in_range(),
    ensures
        n == day_number(*d),
{
    let y: i64 = if d.month <= 2 {
        d.year as i64 - 1 + 400
    } else {
        d.year as i64 + 400
    };
    let mp: i64 = if d.month >= 3 {
        d.month as i64 - 3
    } else {
        d.month as i64 + 9
    };
    let before: i64 = if mp == 0 {
        0
    } else if mp == 1 {
        31
    } else if mp == 2 {
        61
    } else if mp == 3 {
        92
    } else if mp == 4 {
        122
    } else if mp == 5 {
        153
    } else if mp == 6 {
        184
    } else if mp == 7 {
        214
    } else if mp == 8 {
        245
    } else if mp == 9 {
        275
    } else if mp == 10 {
        306
    } else {
        337
    };
    365 * y + y / 4 - y / 100 + y / 400 + before + d.day as i64 - 1 - 865565
}

/// How a positive integer's quotient by `k` grows when stepping from
/// `a - 1` to `a`: it rises exactly when `k` divides `a`.
proof fn lemma_div_step(a: int, k: int)
    requires
        k >= 1,
        a >= 1,
    ensures
        a / k - (a - 1) / k == if a % k == 0 {
            1int
        } else {
            0int
        },
{
    let q = (a - 1) / k;
    let r = (a - 1) % k;
    vstd::arithmetic::div_mod::lemma_fundamental_div_mod(a - 1, k);
    vstd::arithmetic::div_mod::lemma_mod_division_less_than_divisor(a - 1, k);
    if r + 1 == k {
        assert((q + 1) * k == q * k + k) by (nonlinear_arith);
        vstd::arithmetic::div_mod::lemma_fundamental_div_mod_converse(a, k, q + 1, 0);
    } else {
        vstd::arithmetic::div_mod::lemma_fundamental_div_mod_converse(a, k, q, r + 1);
    }
}

/// The calendar date immediately after `d`.
pub open spec fn next_day_spec(d: Date) -> Date {
    if d.day < days_in_month(d.year as int, d.month as int) {
        Date { year: d.year, month: d.month, day: (d.day + 1) as u8 }
    } else if d.month < 12 {
        Date { year: d.year, month: (d.month + 1) as u8, day: 1 }
    } else {
        Date { year: (d.year + 1) as i32, month: 1, day: 1 }
    }
}

/// The calendar date immediately before `d`.
pub open spec fn prev_day_spec(d: Date) -> Date {
    if d.day > 1 {
        Date { year: d.year, month: d.month, day: (d.day - 1) as u8 }
    } else if d.month > 1 {
        Date {
            year: d.year,
            month: (d.month - 1) as u8,
            day: days_in_month(d.year as int, d.month as int - 1) as u8,
        }
    } else {
        Date { year: (d.year - 1) as i32, month: 12, day: 31 }
    }
}

/// Stepping to the next day raises `day_number` by exactly one.
pub proof fn lemma_day_number_next(d: Date)
    requires
        d.in_range(),
    ensures
        d.year + 1 <= 100000 ==> next_day_spec(d).in_range(),
        day_number(next_day_spec(d)) == day_number(d) + 1,
{
    let y = d.year as int;
    if d.day < days_in_month(y, d.month as int) {
        // same month: only the day term moves
    } else if d.month == 2 {
        // February to March: the march-based year advances, so the
        // quotient terms absorb the leap day
        let a = y + 400;
        lemma_div_step(a, 4);
        lemma_div_step(a, 100);
        lemma_div_step(a, 400);
        vstd::arithmetic::div_mod::lemma_mod_multiples_vanish(100, y, 4);
        vstd::arithmetic::div_mod::lemma_mod_multiples_vanish(4, y, 100);
        vstd::arithmetic::div_mod::lemma_mod_multiples_vanish(1, y, 400);
        if y % 400 == 0 {
            vstd::arithmetic::div_mod::lemma_fundamental_div_mod(y, 400);
            assert(y == 100 * (4 * (y / 400)));
            vstd::arithmetic::div_mod::lemma_mod_multiples_basic(4 * (y / 400), 100);
            assert(y == 4 * (100 * (y / 400)));
            vstd::arithmetic::div_mod::lemma_mod_multiples_basic(100 * (y / 400), 4);
        }
        if y % 100 == 0 {
            vstd::arithmetic::div_mod::lemma_fundamental_div_mod(y, 100);
            assert(y == 4 * (25 * (y / 100)));
            vstd::arithmetic::div_mod::lemma_mod_multiples_basic(25 * (y / 100), 4);
        }
    } else {
        // month or year rollover away from February: the month table
        // differences equal the month lengths
    }
}

/// Stepping to the previous day is the inverse of `next_day_spec` and
/// lowers `day_number` by exactly one.
pub proof fn lemma_day_number_prev(d: Date)
    requires
        d.in_range(),
        d.year >= 1,
    ensures
        prev_day_spec(d).in_range(),
        next_day_spec(prev_day_spec(d)) == d,
        day_number(prev_day_spec(d)) == day_number(d) - 1,
{
    lemma_day_number_next(prev_day_spec(d));
}

/// Linear bounds on `day_number` in terms of the year, used to bound the
/// years reached while walking a window of days.
pub proof fn lemma_day_number_bounds(d: Date)
    requires
        d.in_range(),
    ensures
        364 * (d.year + 399) - 865565 <= day_number(d) <= 367 * (d.year + 400) + 367 - 865565,
{
    let y = march_year_shifted(d);
    vstd::arithmetic::div_mod::lemma_div_pos_is_pos(y, 4);
    vstd::arithmetic::div_mod::lemma_div_pos_is_pos(y, 100);
    vstd::arithmetic::div_mod::lemma_div_pos_is_pos(y, 400);
    vstd::arithmetic::div_mod::lemma_div_nonincreasing(y, 4);
    vstd::arithmetic::div_mod::lemma_div_nonincreasing(y, 100);
    vstd::arithmetic::div_mod::lemma_div_nonincreasing(y, 400);
}

/// Computes the calendar date immediately after `d`.
pub fn next_day(d: &Date) -> (r: Date)
    requires
        d.in_range(),
        d.year + 1 <= 100000,
    ensures
        r == next_day_spec(*d),
        r.in_range(),
        day_number(r) == day_number(*d) + 1,
{
    proof {
        lemma_day_number_next(*d);
    }
    let dim: u8 = days_in_month_exec(d.year, d.month);
    if d.day < dim {
        Date { year: d.year, month: d.month, day: d.day + 1 }
    } else if d.month < 12 {
        Date { year: d.year, month: d.month + 1, day: 1 }
    } else {
        Date { year: d.year + 1, month: 1, day: 1 }
    }
}

/// Computes the calendar date immediately before `d`.
pub fn prev_day(d: &Date) -> (r: Date)
    requires
        d.in_range(),
        d.year >= 1,
    ensures
        r == prev_day_spec(*d),
        r.in_range(),
        day_number(r) == day_number(*d) - 1,
{
    proof {
        lemma_day_number_prev(*d);
    }
    if d.day > 1 {
        Date { year: d.year, month: d.month, day: d.day - 1 }
    } else if d.month > 1 {
        Date { year: d.year, month: d.month - 1, day: days_in_month_exec(d.year, d.month - 1) }
    } else {
        Date { year: d.year - 1, month: 12, day: 31 }
    }
}

impl Date {
    /// Decides `in_range`.
    pub fn is_in_range(&self) -> (r: bool)
        ensures
            r == self.in_range(),
    {
        0 <= self.year && self.year <= 100000 && 1 <= self.month && self.month <= 12
            && 1 <= self.day && self.day <= days_in_month_exec(self.year, self.month)
    }

    /// Decides `valid`.
    pub fn is_valid(&self) -> (r: bool)
        ensures
            r == self.valid(),
    {
        self.is_in_range() && 1 <= self.year && self.year <= 9999
    }
}

impl TimeOfDay {
    /// Decides `wf`.
    pub fn is_wf(&self) -> (r: bool)
        ensures
            r == self.wf(),
    {
        self.hour < 24 && self.minute < 60 && self.second < 60
    }
}

impl DateTime {
    /// Decides `valid`.
    pub fn is_valid(&self) -> (r: bool)
        ensures
            r == self.valid(),
    {
        self.date.is_valid() && self.time.is_wf()
    }
}

/// Computes the length of a month.
pub fn days_in_month_exec(year: i32, month: u8) -> (r: u8)
    requires
        0 <= year <= 100000,
    ensures
        r == days_in_month(year as int, month as int),
{
    if month == 2 {
        if (year % 4 == 0 && year % 100 != 0) || year % 400 == 0 {
            29
        } else {
            28
        }
    } else if month == 4 || month == 6 || month == 9 || month == 11 {
        30
    } else {
        31
    }
}

/// Calendar order on dates: by year, then month, then day.
pub open spec fn date_lex_lt(a: Date, b: Date) -> bool {
    ||| a.year < b.year
    ||| (a.year == b.year && a.month < b.month)
    ||| (a.year == b.year && a.month == b.month && a.day < b.day)
}

/// Within one calendar year, `day_number` respects calendar order.
proof fn lemma_daynum_mono_same_year(a: Date, b: Date)
    requires
        a.in_range(),
        b.in_range(),
        a.year == b.year,
        date_lex_lt(a, b),
    ensures
        day_number(a) < day_number(b),
{
    let y = a.year as int;
    if a.month <= 2 && b.month >= 3 {
        // the march-based year steps between the two months; walk through
        // the end of February
        let feb_end = Date { year: a.year, month: 2, day: days_in_month(y, 2) as u8 };
        lemma_day_number_next(feb_end);
    }
}

/// `day_number` respects calendar order.
pub proof fn lemma_daynum_strict_mono(a: Date, b: Date)
    requires
        a.in_range(),
        b.in_range(),
        date_lex_lt(a, b),
    ensures
        day_number(a) < day_number(b),
    decreases b.year - a.year,
{
    if a.year == b.year {
        lemma_daynum_mono_same_year(a, b);
    } else {
        let year_end = Date { year: a.year, month: 12, day: 31 };
        let year_start = Date { year: (a.year + 1) as i32, month: 1, day: 1 };
        if a != year_end {
            lemma_daynum_mono_same_year(a, year_end);
        }
        lemma_day_number_next(year_end);
        if year_start.year == b.year {
            if year_start != b {
                lemma_daynum_mono_same_year(year_start, b);
            }
        } else {
            lemma_daynum_strict_mono(year_start, b);
        }
    }
}

/// Two in-range dates with the same `day_number` are the same date.
pub proof fn lemma_daynum_injective(a: Date, b: Date)
    requires
        a.in_range(),
        b.in_range(),
        day_number(a) == day_number(b),
    ensures
        a == b,
{
    if date_lex_lt(a, b) {
        lemma_daynum_strict_mono(a, b);
    } else if date_lex_lt(b, a) {
        lemma_daynum_strict_mono(b, a);
    }
}

/// Computes `seconds_of_day`.
pub fn seconds_of_day_exec(t: &TimeOfDay) -> (s: u32)
    requires
        t.wf(),
    ensures
        s == seconds_of_day(*t),
{
    t.hour as u32 * 3600 + t.minute as u32 * 60 + t.second as u32
}

/// The ISO weekday of a date: 1 for Monday through 7 for Sunday.
pub open spec fn weekday(d: Date) -> int {
    (day_number(d) + 3) % 7 + 1
}

/// Computes the ISO weekday.
pub fn weekday_exec(d: &Date) -> (w: u8)
    requires
        d.in_range(),
    ensures
        w == weekday(*d),
        1 <= w <= 7,
{
    proof {
        lemma_day_number_bounds(*d);
    }
    let dn: i64 = day_number_exec(d);
    // 720534 is a multiple of 7 plus 3, large enough to keep the
    // left-hand operand non-negative for every in-range date
    let shifted: i64 = dn + 720534;
    proof {
        vstd::arithmetic::div_mod::lemma_mod_multiples_vanish(102933, dn + 3, 7);
        vstd::arithmetic::div_mod::lemma_mod_division_less_than_divisor(dn + 3, 7);
    }
    (shifted % 7) as u8 + 1
}

/// Computes `instant_seconds`.
pub fn instant_seconds_exec(dt: &DateTime) -> (s: i64)
    requires
        dt.in_range(),
    ensures
        s == instant_seconds(*dt),
{
    proof {
        lemma_day_number_bounds(dt.date);
    }
    let dn: i64 = day_number_exec(&dt.date);
    dn * 86400 + (dt.time.hour as i64) * 3600 + (dt.time.minute as i64) * 60
        + dt.time.second as i64
}

/// The later of two instants; ties go to `b`, as the standard library's
/// `max` does.
pub open spec fn dt_max(a: DateTime, b: DateTime) -> DateTime {
    if instant_seconds(b) >= instant_seconds(a) {
        b
    } else {
        a
    }
}

/// The earlier of two instants; ties go to `a`, as the standard library's
/// `min` does.
pub open spec fn dt_min(a: DateTime, b: DateTime) -> DateTime {
    if instant_seconds(a) <= instant_seconds(b) {
        a
    } else {
        b
    }
}

/// Computes `dt_max`.
pub fn dt_max_exec(a: &DateTime, b: &DateTime) -> (r: DateTime)
    requires
        a.in_range(),
        b.in_range(),
    ensures
        r == dt_max(*a, *b),
{
    if instant_seconds_exec(b) >= instant_seconds_exec(a) {
        *b
    } else {
        *a
    }
}

/// Computes `dt_min`.
pub fn dt_min_exec(a: &DateTime, b: &DateTime) -> (r: DateTime)
    requires
        a.in_range(),
        b.in_range(),
    ensures
        r == dt_min(*a, *b),
{
    if instant_seconds_exec(a) <= instant_seconds_exec(b) {
        *a
    } else {
        *b
    }
}

} // verus!
