//! The recurrence matcher and the interval generator on concrete
//! scenarios.

use eskom_calendar::Date;
use eskom_calendar::DateTime;
use eskom_calendar::Recurrence;
use eskom_calendar::TimeOfDay;
use eskom_calendar::gen_datetimes;

fn dt(year: i32, month: u8, day: u8, hour: u8, minute: u8) -> DateTime {
    DateTime {
        date: Date { year, month, day },
        time: TimeOfDay { hour, minute, second: 0 },
    }
}

fn tod(hour: u8, minute: u8) -> TimeOfDay {
    TimeOfDay { hour, minute, second: 0 }
}

fn midday_window(d: Date) -> (DateTime, DateTime) {
    (
        DateTime { date: d, time: tod(12, 0) },
        DateTime { date: d, time: tod(14, 0) },
    )
}

#[test]
fn test_weekly_matcher_on_known_weekdays() {
    // 2022-01-03 was a Monday
    let rule = Recurrence::Weekly;
    assert!(rule.matches(1, &Date { year: 2022, month: 1, day: 3 }));
    assert!(!rule.matches(2, &Date { year: 2022, month: 1, day: 3 }));
    // 2023-06-11 was a Sunday
    assert!(rule.matches(7, &Date { year: 2023, month: 6, day: 11 }));
    // the epoch was a Thursday
    assert!(rule.matches(4, &Date { year: 1970, month: 1, day: 1 }));
}

#[test]
fn test_monthly_matcher_skips_short_months() {
    let rule = Recurrence::Monthly;
    assert!(rule.matches(31, &Date { year: 2022, month: 1, day: 31 }));
    // no date in February 2022 matches a day-31 rule
    for day in 1..=28u8 {
        assert!(!rule.matches(31, &Date { year: 2022, month: 2, day }));
    }
    // day 29 never matches February outside leap years
    assert!(!rule.matches(29, &Date { year: 2023, month: 2, day: 28 }));
    assert!(rule.matches(29, &Date { year: 2024, month: 2, day: 29 }));
}

#[test]
fn test_periodic_matcher_cycle() {
    let rule = Recurrence::Periodic {
        offset: Date { year: 2023, month: 2, day: 18 },
        period: 19,
    };
    // day 19 of the cycle falls 18 days after the anchor
    assert!(rule.matches(19, &Date { year: 2023, month: 3, day: 8 }));
    assert!(rule.matches(19, &Date { year: 2023, month: 3, day: 27 }));
    assert!(!rule.matches(19, &Date { year: 2023, month: 3, day: 9 }));
    assert!(rule.matches(1, &Date { year: 2023, month: 2, day: 18 }));
}

// Periodic rule over a national window: occurrences every 19 days from
// 2023-03-08 on, at 12:00-14:00.  The last cycle day, 2023-06-11, starts
// at noon, after the window's 00:00 finish, so it is clipped away by the
// strict window bounds.
#[test]
fn test_periodic_scenario_strict_boundary() {
    let outages = gen_datetimes(
        &dt(2023, 2, 18, 0, 0),
        &dt(2023, 6, 11, 0, 0),
        19,
        Recurrence::Periodic { offset: Date { year: 2023, month: 2, day: 18 }, period: 19 },
        tod(12, 0),
        tod(14, 0),
    );
    let expected = vec![
        midday_window(Date { year: 2023, month: 3, day: 8 }),
        midday_window(Date { year: 2023, month: 3, day: 27 }),
        midday_window(Date { year: 2023, month: 4, day: 15 }),
        midday_window(Date { year: 2023, month: 5, day: 4 }),
        midday_window(Date { year: 2023, month: 5, day: 23 }),
    ];
    assert_eq!(outages, expected);
}

// The same rule with the window running to the end of 2023-06-11 also
// catches the occurrence on that day.
#[test]
fn test_periodic_scenario_full_last_day() {
    let outages = gen_datetimes(
        &dt(2023, 2, 18, 0, 0),
        &dt(2023, 6, 12, 0, 0),
        19,
        Recurrence::Periodic { offset: Date { year: 2023, month: 2, day: 18 }, period: 19 },
        tod(12, 0),
        tod(14, 0),
    );
    let expected = vec![
        midday_window(Date { year: 2023, month: 3, day: 8 }),
        midday_window(Date { year: 2023, month: 3, day: 27 }),
        midday_window(Date { year: 2023, month: 4, day: 15 }),
        midday_window(Date { year: 2023, month: 5, day: 4 }),
        midday_window(Date { year: 2023, month: 5, day: 23 }),
        midday_window(Date { year: 2023, month: 6, day: 11 }),
    ];
    assert_eq!(outages, expected);
}

// Weekly rule, day 1: every Monday of January 2022 at 12:00-14:00.
#[test]
fn test_weekly_scenario_mondays() {
    let outages = gen_datetimes(
        &dt(2022, 1, 1, 0, 0),
        &dt(2022, 2, 1, 0, 0),
        1,
        Recurrence::Weekly,
        tod(12, 0),
        tod(14, 0),
    );
    let expected = vec![
        midday_window(Date { year: 2022, month: 1, day: 3 }),
        midday_window(Date { year: 2022, month: 1, day: 10 }),
        midday_window(Date { year: 2022, month: 1, day: 17 }),
        midday_window(Date { year: 2022, month: 1, day: 24 }),
        midday_window(Date { year: 2022, month: 1, day: 31 }),
    ];
    assert_eq!(outages, expected);
}

// Monthly rule, day 31, over all of 2022: only the seven 31-day months
// produce an interval, and February, April, June, September and
// November never do.
#[test]
fn test_monthly_scenario_day_31() {
    let outages = gen_datetimes(
        &dt(2022, 1, 1, 0, 0),
        &dt(2023, 1, 1, 0, 0),
        31,
        Recurrence::Monthly,
        tod(12, 0),
        tod(14, 0),
    );
    let expected_months: Vec<u8> = vec![1, 3, 5, 7, 8, 10, 12];
    assert_eq!(outages.len(), 7);
    for (outage, month) in outages.iter().zip(expected_months.iter()) {
        assert_eq!(outage.0.date, Date { year: 2022, month: *month, day: 31 });
        assert_eq!(outage.0.time, tod(12, 0));
        assert_eq!(outage.1.time, tod(14, 0));
        assert_ne!(*month, 2);
    }
}

// A midnight-crossing local window: the generated interval's finish
// falls on the calendar day after its start.
#[test]
fn test_midnight_crossing_round_trip() {
    let outages = gen_datetimes(
        &dt(2023, 1, 1, 0, 0),
        &dt(2023, 1, 3, 0, 0),
        1,
        Recurrence::Monthly,
        tod(22, 0),
        tod(0, 30),
    );
    let expected = vec![
        (dt(2023, 1, 1, 22, 0), dt(2023, 1, 2, 0, 30)),
    ];
    assert_eq!(outages, expected);
}

// A midnight-crossing window starting the day before the national start
// still contributes its tail end, clipped to the window.
#[test]
fn test_midnight_crossing_before_window_start() {
    let outages = gen_datetimes(
        &dt(2023, 1, 2, 0, 0),
        &dt(2023, 1, 3, 0, 0),
        1,
        Recurrence::Monthly,
        tod(22, 0),
        tod(0, 30),
    );
    let expected = vec![
        (dt(2023, 1, 2, 0, 0), dt(2023, 1, 2, 0, 30)),
    ];
    assert_eq!(outages, expected);
}

// An interval that would start exactly at the national finish is
// excluded: boundary-touching results never appear.
#[test]
fn test_boundary_touching_interval_excluded() {
    let outages = gen_datetimes(
        &dt(2023, 1, 1, 0, 0),
        &dt(2023, 1, 2, 0, 0),
        2,
        Recurrence::Monthly,
        tod(0, 0),
        tod(1, 0),
    );
    assert!(outages.is_empty());
}
