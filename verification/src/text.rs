//! String helpers and parsers for the fixed textual formats the schedules
//! use: `HH:MM` times of day, `YYYY-MM-DD` dates and `YYYY-MM-DDTHH:MM:SS`
//! timestamps.  Each parser is total and returns `None` exactly on the
//! strings its grammar rejects.

use vstd::prelude::*;
use vstd::string::StrSliceExecFns;

use crate::dates::Date;
use crate::dates::DateTime;
use crate::dates::TimeOfDay;
use crate::dates::days_in_month;
use crate::dates::days_in_month_exec;

verus! {

pub open spec fn is_digit(c: char) -> bool {
    48 <= c as u32 <= 57
}

pub open spec fn digit_val(c: char) -> int {
    c as u32 - 48
}

/// Decides whether two strings hold the same characters.
pub fn str_eq(a: &str, b: &str) -> (r: bool)
    ensures
        r == (a@ == b@),
{
    let n = a.unicode_len();
    if n != b.unicode_len() {
        return false;
    }
    let mut i: usize = 0;
    while i < n
        invariant
            n == a@.len(),
            n == b@.len(),
            i <= n,
            forall|j: int| 0 <= j < i ==> a@[j] == b@[j],
        decreases n - i,
    {
        if a.get_char(i) != b.get_char(i) {
            return false;
        }
        i += 1;
    }
    proof {
        assert(a@ =~= b@);
    }
    true
}

/// Reads the digit at position `i`, or `None` if that character is not a
/// digit.
fn digit_at(s: &str, i: usize) -> (r: Option<u8>)
    requires
        i < s@.len(),
    ensures
        r == if is_digit(s@[i as int]) {
            Some(digit_val(s@[i as int]) as u8)
        } else {
            None::<u8>
        },
{
    let u = s.get_char(i) as u32;
    if 48 <= u && u <= 57 {
        Some((u - 48) as u8)
    } else {
        None
    }
}

/// A two-digit number stands at `off`.
pub open spec fn two_digits_ok(s: Seq<char>, off: int) -> bool {
    is_digit(s[off]) && is_digit(s[off + 1])
}

pub open spec fn two_digits_val(s: Seq<char>, off: int) -> int {
    digit_val(s[off]) * 10 + digit_val(s[off + 1])
}

/// Reads the two-digit number at `off`.
fn two_digits_at(s: &str, off: usize) -> (r: Option<u8>)
    requires
        off + 2 <= s@.len(),
        off + 2 <= usize::MAX,
    ensures
        r == if two_digits_ok(s@, off as int) {
            Some(two_digits_val(s@, off as int) as u8)
        } else {
            None::<u8>
        },
{
    match (digit_at(s, off), digit_at(s, off + 1)) {
        (Some(a), Some(b)) => Some(a * 10 + b),
        _ => None,
    }
}

/// The grammar of a time of day: one or two hour digits, a colon, and
/// one or two minute digits, with hours below 24 and minutes below 60;
/// seconds are zero.  The hour is read greedily, so the colon follows
/// the first digit only when the second character is not a digit.
pub open spec fn parse_time_spec(s: Seq<char>) -> Option<TimeOfDay> {
    if s.len() < 3 || s.len() > 5 {
        None
    } else {
        let hour_part = if s[1] == ':' {
            if is_digit(s[0]) {
                Some((digit_val(s[0]), 2int))
            } else {
                None
            }
        } else if s.len() >= 4 && s[2] == ':' && two_digits_ok(s, 0) {
            Some((two_digits_val(s, 0), 3int))
        } else {
            None
        };
        match hour_part {
            None => None,
            Some((h, mpos)) => {
                let minute_part = if s.len() - mpos == 1 && is_digit(s[mpos]) {
                    Some(digit_val(s[mpos]))
                } else if s.len() - mpos == 2 && two_digits_ok(s, mpos) {
                    Some(two_digits_val(s, mpos))
                } else {
                    None
                };
                match minute_part {
                    None => None,
                    Some(m) => if h < 24 && m < 60 {
                        Some(TimeOfDay { hour: h as u8, minute: m as u8, second: 0 })
                    } else {
                        None
                    },
                }
            },
        }
    }
}

/// Parses a time of day such as `7:30` or `12:05`.
pub fn parse_time(s: &str) -> (r: Option<TimeOfDay>)
    ensures
        r == parse_time_spec(s@),
        r is Some ==> r->0.wf(),
{
    let n = s.unicode_len();
    if n < 3 || n > 5 {
        return None;
    }
    let (h, mpos) = if s.get_char(1) == ':' {
        match digit_at(s, 0) {
            Some(h) => (h, 2usize),
            None => {
                return None;
            },
        }
    } else if n >= 4 && s.get_char(2) == ':' {
        match two_digits_at(s, 0) {
            Some(h) => (h, 3usize),
            None => {
                return None;
            },
        }
    } else {
        return None;
    };
    let m = if n - mpos == 1 {
        match digit_at(s, mpos) {
            Some(m) => m,
            None => {
                return None;
            },
        }
    } else if n - mpos == 2 {
        match two_digits_at(s, mpos) {
            Some(m) => m,
            None => {
                return None;
            },
        }
    } else {
        return None;
    };
    if h < 24 && m < 60 {
        Some(TimeOfDay { hour: h, minute: m, second: 0 })
    } else {
        None
    }
}

/// A calendar date `YYYY-MM-DD` stands at `off`: four year digits, dashes,
/// and a month/day pair that exists in that year's calendar.
pub open spec fn date_fields_ok(s: Seq<char>, off: int) -> bool {
    &&& is_digit(s[off]) && is_digit(s[off + 1]) && is_digit(s[off + 2]) && is_digit(s[off + 3])
    &&& s[off + 4] == '-'
    &&& two_digits_ok(s, off + 5)
    &&& s[off + 7] == '-'
    &&& two_digits_ok(s, off + 8)
    &&& 1 <= two_digits_val(s, off + 5) <= 12
    &&& 1 <= two_digits_val(s, off + 8) <= days_in_month(
        date_year_val(s, off),
        two_digits_val(s, off + 5),
    )
}

pub open spec fn date_year_val(s: Seq<char>, off: int) -> int {
    digit_val(s[off]) * 1000 + digit_val(s[off + 1]) * 100 + digit_val(s[off + 2]) * 10
        + digit_val(s[off + 3])
}

pub open spec fn date_fields_val(s: Seq<char>, off: int) -> Date {
    Date {
        year: date_year_val(s, off) as i32,
        month: two_digits_val(s, off + 5) as u8,
        day: two_digits_val(s, off + 8) as u8,
    }
}

/// Reads the `YYYY-MM-DD` date prefix of `s`.
fn date_fields_at(s: &str) -> (r: Option<Date>)
    requires
        10 <= s@.len(),
    ensures
        r == if date_fields_ok(s@, 0) {
            Some(date_fields_val(s@, 0))
        } else {
            None::<Date>
        },
        r is Some ==> r->0.in_range() && 0 <= r->0.year <= 9999,
{
    if s.get_char(4) != '-' || s.get_char(7) != '-' {
        return None;
    }
    let y0 = digit_at(s, 0);
    let y1 = digit_at(s, 1);
    let y2 = digit_at(s, 2);
    let y3 = digit_at(s, 3);
    let (y0, y1, y2, y3) = match (y0, y1, y2, y3) {
        (Some(a), Some(b), Some(c), Some(d)) => (a, b, c, d),
        _ => {
            return None;
        },
    };
    let year: u32 = y0 as u32 * 1000 + y1 as u32 * 100 + y2 as u32 * 10 + y3 as u32;
    let month = match two_digits_at(s, 5) {
        Some(m) => m,
        None => {
            return None;
        },
    };
    let day = match two_digits_at(s, 8) {
        Some(d) => d,
        None => {
            return None;
        },
    };
    if 1 <= month && month <= 12 && 1 <= day && day <= days_in_month_exec(year as i32, month) {
        Some(Date { year: year as i32, month, day })
    } else {
        None
    }
}

/// The grammar of a date: exactly the zero-padded form `YYYY-MM-DD`,
/// with a four-digit year.  This library fixes the anchor-date grammar
/// to this one form.
pub open spec fn parse_date_spec(s: Seq<char>) -> Option<Date> {
    if s.len() == 10 && date_fields_ok(s, 0) {
        Some(date_fields_val(s, 0))
    } else {
        None
    }
}

/// Parses a date in the zero-padded form `YYYY-MM-DD`.
pub fn parse_date(s: &str) -> (r: Option<Date>)
    ensures
        r == parse_date_spec(s@),
        r is Some ==> r->0.in_range() && 0 <= r->0.year <= 9999,
{
    if s.unicode_len() != 10 {
        return None;
    }
    date_fields_at(s)
}

/// The grammar of a timestamp: exactly the zero-padded form
/// `YYYY-MM-DDTHH:MM:SS`, with a four-digit year and whole seconds (no
/// fractional or leap seconds).  This library fixes the curated
/// timestamp grammar to this one form; the fixed UTC+2 offset is
/// implicit.
pub open spec fn parse_datetime_spec(s: Seq<char>) -> Option<DateTime> {
    if s.len() == 19 && date_fields_ok(s, 0) && s[10] == 'T' && two_digits_ok(s, 11) && s[13]
        == ':' && two_digits_ok(s, 14) && s[16] == ':' && two_digits_ok(s, 17) {
        let h = two_digits_val(s, 11);
        let m = two_digits_val(s, 14);
        let sec = two_digits_val(s, 17);
        if h < 24 && m < 60 && sec < 60 {
            Some(
                DateTime {
                    date: date_fields_val(s, 0),
                    time: TimeOfDay { hour: h as u8, minute: m as u8, second: sec as u8 },
                },
            )
        } else {
            None
        }
    } else {
        None
    }
}

/// Parses a timestamp in the zero-padded form `YYYY-MM-DDTHH:MM:SS`.
pub fn parse_datetime(s: &str) -> (r: Option<DateTime>)
    ensures
        r == parse_datetime_spec(s@),
        r is Some ==> r->0.in_range() && 0 <= r->0.date.year <= 9999,
{
    if s.unicode_len() != 19 {
        return None;
    }
    if s.get_char(10) != 'T' || s.get_char(13) != ':' || s.get_char(16) != ':' {
        return None;
    }
    let date = match date_fields_at(s) {
        Some(d) => d,
        None => {
            return None;
        },
    };
    match (two_digits_at(s, 11), two_digits_at(s, 14), two_digits_at(s, 17)) {
        (Some(h), Some(m), Some(sec)) => {
            if h < 24 && m < 60 && sec < 60 {
                Some(DateTime { date, time: TimeOfDay { hour: h, minute: m, second: sec } })
            } else {
                None
            }
        },
        _ => None,
    }
}

} // verus!
