//! Recurring local schedules and the recurrence matcher: which calendar
//! dates a weekly, monthly or periodic rule falls on.

use vstd::prelude::*;

use crate::dates::Date;
use crate::dates::TimeOfDay;
use crate::dates::day_number;
use crate::dates::day_number_exec;
use crate::dates::days_in_month;
use crate::dates::weekday;
use crate::dates::weekday_exec;
use crate::errors::ConfigError;
use crate::text::parse_date;
use crate::text::parse_date_spec;
use crate::text::parse_time;
use crate::text::parse_time_spec;

verus! {

/// How often a recurring shedding row repeats.
#[derive(Clone, Copy, Debug, PartialEq, Eq, Structural)]
pub enum Recurrence {
    /// A weekly recurrence; days count Monday = 1 through Sunday = 7.
    Weekly,
    /// A monthly recurrence on a fixed date of the month.
    Monthly,
    /// A cycle of `period` days anchored at the calendar date `offset`.
    Periodic { offset: Date, period: u8 },
}

/// One row of a local schedule: a time window, a stage, and the
/// recurrence pattern with its 1-indexed day.
#[derive(Clone, Copy, Debug, PartialEq, Eq, Structural)]
pub struct RecurringShedding {
    /// Wall-clock time the outage starts.
    pub start_time: TimeOfDay,
    /// Wall-clock time the outage finishes (note the spelling); a finish
    /// earlier than the start means the window crosses midnight.
    pub finsh_time: TimeOfDay,
    /// The loadshedding stage; stage 0 rows mean "no shedding".
    pub stage: u8,
    /// How often this row repeats.
    pub recurrence: Recurrence,
    /// The 1-indexed day of the recurrence this row falls on.
    pub day_of_recurrence: u8,
}

impl Recurrence {
    /// The rule's day index is in bounds and a periodic anchor is a real
    /// date.
    pub open spec fn wf(self, day_of_recurrence: u8) -> bool {
        match self {
            Recurrence::Weekly => 1 <= day_of_recurrence <= 7,
            Recurrence::Monthly => 1 <= day_of_recurrence <= 31,
            Recurrence::Periodic { offset, period } => 1 <= day_of_recurrence <= period
                && offset.in_range(),
        }
    }
}

impl RecurringShedding {
    pub open spec fn wf(self) -> bool {
        &&& self.start_time.wf()
        &&& self.finsh_time.wf()
        &&& self.recurrence.wf(self.day_of_recurrence)
    }

    /// Decides `wf`.
    pub fn is_wf(&self) -> (r: bool)
        ensures
            r == self.wf(),
    {
        let rule_ok = match self.recurrence {
            Recurrence::Weekly => 1 <= self.day_of_recurrence && self.day_of_recurrence <= 7,
            Recurrence::Monthly => 1 <= self.day_of_recurrence && self.day_of_recurrence <= 31,
            Recurrence::Periodic { offset, period } => 1 <= self.day_of_recurrence
                && self.day_of_recurrence <= period && offset.is_in_range(),
        };
        self.start_time.is_wf() && self.finsh_time.is_wf() && rule_ok
    }

    /// The window's finish time of day is numerically earlier than its
    /// start, so the window spans into the next calendar day.
    pub open spec fn goes_over_midnight(self) -> bool {
        crate::dates::seconds_of_day(self.finsh_time) < crate::dates::seconds_of_day(
            self.start_time,
        )
    }
}

/// Remainder with the dividend's sign, as the hardware remainder operator
/// computes it.
pub open spec fn trunc_mod(a: int, b: int) -> int {
    if a >= 0 {
        a % b
    } else {
        -((-a) % b)
    }
}

/// Whether `date` is an occurrence day of the rule.
pub open spec fn spec_matches(rec: Recurrence, day_of_recurrence: u8, date: Date) -> bool {
    match rec {
        Recurrence::Weekly => weekday(date) == day_of_recurrence,
        Recurrence::Monthly => date.day == day_of_recurrence,
        Recurrence::Periodic { offset, period } => trunc_mod(
            day_number(date) - day_number(offset),
            period as int,
        ) == day_of_recurrence - 1,
    }
}

impl Recurrence {
    /// Decides whether `date` is an occurrence day of this rule: for
    /// weekly rules the ISO weekday equals the day index, for monthly
    /// rules the date of the month equals it (months without that date
    /// simply never match), and for periodic rules the day count since
    /// the anchor, reduced modulo the period, lands on the index.
    pub fn matches(&self, day_of_recurrence: u8, date: &Date) -> (r: bool)
        requires
            date.in_range(),
            self.wf(day_of_recurrence),
        ensures
            r == spec_matches(*self, day_of_recurrence, *date),
    {
        match self {
            Recurrence::Weekly => weekday_exec(date) == day_of_recurrence,
            Recurrence::Monthly => date.day == day_of_recurrence,
            Recurrence::Periodic { offset, period } => {
                let diff: i64 = day_number_exec(date) - day_number_exec(offset);
                let p = *period as i64;
                let rem: i64 = if diff >= 0 {
                    diff % p
                } else {
                    -((-diff) % p)
                };
                rem == day_of_recurrence as i64 - 1
            },
        }
    }
}

/// A monthly rule whose day exceeds the month's length never matches a
/// date in that month; in particular a rule for day 29 or later never
/// matches February outside leap years.
pub proof fn lemma_monthly_skips_short_months(day_of_recurrence: u8, date: Date)
    requires
        date.in_range(),
        day_of_recurrence > days_in_month(date.year as int, date.month as int),
    ensures
        !spec_matches(Recurrence::Monthly, day_of_recurrence, date),
{
}

/// Which shape of schedule table a CSV file holds, told apart by which
/// column is present.
#[derive(Clone, Copy, Debug, PartialEq, Eq, Structural)]
pub enum ScheduleKind {
    Monthly,
    Weekly,
    Periodic,
}

/// The kind of table the given header row announces.
pub open spec fn detect_schedule_kind_spec(headers: Seq<String>) -> Option<ScheduleKind> {
    if crate::postfilter::contains_name(headers, "date_of_month"@) {
        Some(ScheduleKind::Monthly)
    } else if crate::postfilter::contains_name(headers, "day_of_week"@) {
        Some(ScheduleKind::Weekly)
    } else if crate::postfilter::contains_name(headers, "day_of_20_day_cycle"@) {
        Some(ScheduleKind::Periodic)
    } else {
        None
    }
}

/// Tells which shape of schedule table a header row announces, or `None`
/// when no recognized column is present.
pub fn detect_schedule_kind(headers: &Vec<String>) -> (r: Option<ScheduleKind>)
    ensures
        r == detect_schedule_kind_spec(headers@),
{
    if crate::postfilter::contains_str(headers, "date_of_month") {
        Some(ScheduleKind::Monthly)
    } else if crate::postfilter::contains_str(headers, "day_of_week") {
        Some(ScheduleKind::Weekly)
    } else if crate::postfilter::contains_str(headers, "day_of_20_day_cycle") {
        Some(ScheduleKind::Periodic)
    } else {
        None
    }
}

/// The rows that actually shed: stage 0 means "no shedding" and is
/// dropped before use.
pub open spec fn nonzero_stage_spec(rows: Seq<RecurringShedding>) -> Seq<RecurringShedding>
    decreases rows.len(),
{
    if rows.len() == 0 {
        Seq::empty()
    } else {
        let rest = nonzero_stage_spec(rows.drop_last());
        if rows.last().stage != 0 {
            rest.push(rows.last())
        } else {
            rest
        }
    }
}

/// Drops the stage-0 rows.
pub fn filter_nonzero_stage(rows: &Vec<RecurringShedding>) -> (r: Vec<RecurringShedding>)
    ensures
        r@ == nonzero_stage_spec(rows@),
{
    let mut out: Vec<RecurringShedding> = Vec::new();
    let mut i: usize = 0;
    while i < rows.len()
        invariant
            0 <= i <= rows@.len(),
            out@ == nonzero_stage_spec(rows@.subrange(0, i as int)),
        decreases rows@.len() - i,
    {
        if rows[i].stage != 0 {
            out.push(rows[i]);
        }
        proof {
            assert(rows@.subrange(0, i as int + 1).drop_last() =~= rows@.subrange(0, i as int));
            assert(rows@.subrange(0, i as int + 1).last() == rows@[i as int]);
        }
        i += 1;
    }
    proof {
        assert(rows@.subrange(0, rows@.len() as int) =~= rows@);
    }
    out
}

/// A raw periodic schedule row, as read from a source table.
#[derive(Clone, Debug)]
pub struct RawPeriodicShedding {
    /// The time when the shedding starts, `HH:MM`.
    pub start_time: String,
    /// The time when the shedding finishes (note the spelling), `HH:MM`.
    pub finsh_time: String,
    /// The stage of loadshedding.
    pub stage: u8,
    /// The 1-indexed day of the cycle this row falls on.
    pub day_of_cycle: u8,
    /// The length of the cycle in days.
    pub period_of_cycle: u8,
    /// The date the cycle is anchored at, `YYYY-MM-DD`.
    pub start_of_cycle: String,
}

/// A raw weekly schedule row, as read from a source table.
#[derive(Clone, Debug)]
pub struct RawWeeklyShedding {
    /// The time when the shedding starts, `HH:MM`.
    pub start_time: String,
    /// The time when the shedding finishes (note the spelling), `HH:MM`.
    pub finsh_time: String,
    /// The stage of loadshedding.
    pub stage: u8,
    /// The day of the week, Monday = 1 through Sunday = 7.
    pub day_of_week: u8,
}

/// A raw monthly schedule row, as read from a source table.
#[derive(Clone, Debug)]
pub struct RawMonthlyShedding {
    /// The time when the shedding starts, `HH:MM`.
    pub start_time: String,
    /// The time when the shedding finishes (note the spelling), `HH:MM`.
    pub finsh_time: String,
    /// The stage of loadshedding.
    pub stage: u8,
    /// The date of the month this row falls on.
    pub date_of_month: u8,
}

impl RawPeriodicShedding {
    pub open spec fn to_shedding_spec(self) -> Result<RecurringShedding, ConfigError> {
        if !(1 <= self.day_of_cycle <= self.period_of_cycle) {
            Err(ConfigError::BadDayOfCycle)
        } else if parse_time_spec(self.start_time@) is None {
            Err(ConfigError::BadStartTime)
        } else if parse_time_spec(self.finsh_time@) is None {
            Err(ConfigError::BadFinshTime)
        } else if parse_date_spec(self.start_of_cycle@) is None {
            Err(ConfigError::BadCycleDate)
        } else {
            Ok(
                RecurringShedding {
                    start_time: parse_time_spec(self.start_time@)->0,
                    finsh_time: parse_time_spec(self.finsh_time@)->0,
                    stage: self.stage,
                    recurrence: Recurrence::Periodic {
                        offset: parse_date_spec(self.start_of_cycle@)->0,
                        period: self.period_of_cycle,
                    },
                    day_of_recurrence: self.day_of_cycle,
                },
            )
        }
    }

    /// Checks the row's invariant and parses its fields; any violation is
    /// a fatal configuration error.
    pub fn to_shedding(&self) -> (r: Result<RecurringShedding, ConfigError>)
        ensures
            r == self.to_shedding_spec(),
            r is Ok ==> r->Ok_0.wf(),
    {
        if !(1 <= self.day_of_cycle && self.day_of_cycle <= self.period_of_cycle) {
            return Err(ConfigError::BadDayOfCycle);
        }
        let start_time = match parse_time(self.start_time.as_str()) {
            Some(t) => t,
            None => {
                return Err(ConfigError::BadStartTime);
            },
        };
        let finsh_time = match parse_time(self.finsh_time.as_str()) {
            Some(t) => t,
            None => {
                return Err(ConfigError::BadFinshTime);
            },
        };
        let offset = match parse_date(self.start_of_cycle.as_str()) {
            Some(d) => d,
            None => {
                return Err(ConfigError::BadCycleDate);
            },
        };
        Ok(
            RecurringShedding {
                start_time,
                finsh_time,
                stage: self.stage,
                recurrence: Recurrence::Periodic { offset, period: self.period_of_cycle },
                day_of_recurrence: self.day_of_cycle,
            },
        )
    }
}

impl RawWeeklyShedding {
    pub open spec fn to_shedding_spec(self) -> Result<RecurringShedding, ConfigError> {
        if !(1 <= self.day_of_week <= 7) {
            Err(ConfigError::BadDayOfWeek)
        } else if parse_time_spec(self.start_time@) is None {
            Err(ConfigError::BadStartTime)
        } else if parse_time_spec(self.finsh_time@) is None {
            Err(ConfigError::BadFinshTime)
        } else {
            Ok(
                RecurringShedding {
                    start_time: parse_time_spec(self.start_time@)->0,
                    finsh_time: parse_time_spec(self.finsh_time@)->0,
                    stage: self.stage,
                    recurrence: Recurrence::Weekly,
                    day_of_recurrence: self.day_of_week,
                },
            )
        }
    }

    /// Checks the row's invariant and parses its fields; any violation is
    /// a fatal configuration error.
    pub fn to_shedding(&self) -> (r: Result<RecurringShedding, ConfigError>)
        ensures
            r == self.to_shedding_spec(),
            r is Ok ==> r->Ok_0.wf(),
    {
        if !(1 <= self.day_of_week && self.day_of_week <= 7) {
            return Err(ConfigError::BadDayOfWeek);
        }
        let start_time = match parse_time(self.start_time.as_str()) {
            Some(t) => t,
            None => {
                return Err(ConfigError::BadStartTime);
            },
        };
        let finsh_time = match parse_time(self.finsh_time.as_str()) {
            Some(t) => t,
            None => {
                return Err(ConfigError::BadFinshTime);
            },
        };
        Ok(
            RecurringShedding {
                start_time,
                finsh_time,
                stage: self.stage,
                recurrence: Recurrence::Weekly,
                day_of_recurrence: self.day_of_week,
            },
        )
    }
}

impl RawMonthlyShedding {
    pub open spec fn to_shedding_spec(self) -> Result<RecurringShedding, ConfigError> {
        if !(1 <= self.date_of_month <= 31) {
            Err(ConfigError::BadDateOfMonth)
        } else if parse_time_spec(self.start_time@) is None {
            Err(ConfigError::BadStartTime)
        } else if parse_time_spec(self.finsh_time@) is None {
            Err(ConfigError::BadFinshTime)
        } else {
            Ok(
                RecurringShedding {
                    start_time: parse_time_spec(self.start_time@)->0,
                    finsh_time: parse_time_spec(self.finsh_time@)->0,
                    stage: self.stage,
                    recurrence: Recurrence::Monthly,
                    day_of_recurrence: self.date_of_month,
                },
            )
        }
    }

    /// Checks the row's invariant and parses its fields; any violation is
    /// a fatal configuration error.
    pub fn to_shedding(&self) -> (r: Result<RecurringShedding, ConfigError>)
        ensures
            r == self.to_shedding_spec(),
            r is Ok ==> r->Ok_0.wf(),
    {
        if !(1 <= self.date_of_month && self.date_of_month <= 31) {
            return Err(ConfigError::BadDateOfMonth);
        }
        let start_time = match parse_time(self.start_time.as_str()) {
            Some(t) => t,
            None => {
                return Err(ConfigError::BadStartTime);
            },
        };
        let finsh_time = match parse_time(self.finsh_time.as_str()) {
            Some(t) => t,
            None => {
                return Err(ConfigError::BadFinshTime);
            },
        };
        Ok(
            RecurringShedding {
                start_time,
                finsh_time,
                stage: self.stage,
                recurrence: Recurrence::Monthly,
                day_of_recurrence: self.date_of_month,
            },
        )
    }
}

} // verus!
