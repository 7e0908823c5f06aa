//! Raw schedule rows parse into recurring sheddings, and bad rows are
//! rejected.

use eskom_calendar::ConfigError;
use eskom_calendar::Date;
use eskom_calendar::RawMonthlyShedding;
use eskom_calendar::RawPeriodicShedding;
use eskom_calendar::RawWeeklyShedding;
use eskom_calendar::Recurrence;
use eskom_calendar::RecurringShedding;
use eskom_calendar::TimeOfDay;

fn tod(hour: u8, minute: u8) -> TimeOfDay {
    TimeOfDay { hour, minute, second: 0 }
}

#[should_panic]
#[test]
fn test_periodic_too_high() {
    let raw_too_high = RawPeriodicShedding {
        start_time: "12:00".to_owned(),
        finsh_time: "14:30".to_owned(),
        stage: 1,
        day_of_cycle: 100,
        period_of_cycle: 19,
        start_of_cycle: "2023-01-01".to_owned(),
    };
    let _ = raw_too_high.to_shedding().unwrap();
}

#[test]
fn test_periodic() {
    let raw = RawPeriodicShedding {
        start_time: "12:00".to_owned(),
        finsh_time: "14:30".to_owned(),
        stage: 1,
        day_of_cycle: 1,
        period_of_cycle: 19,
        start_of_cycle: "2023-01-01".to_owned(),
    };
    let cooked = RecurringShedding {
        start_time: tod(12, 0),
        finsh_time: tod(14, 30),
        stage: 1,
        recurrence: Recurrence::Periodic {
            offset: Date { year: 2023, month: 1, day: 1 },
            period: 19,
        },
        day_of_recurrence: 1,
    };
    assert_eq!(raw.to_shedding().unwrap(), cooked);
}

#[should_panic]
#[test]
fn test_weekly_oob_too_high() {
    let raw_too_high = RawWeeklyShedding {
        start_time: "12:00".to_owned(),
        finsh_time: "14:30".to_owned(),
        stage: 1,
        day_of_week: 8,
    };
    let _ = raw_too_high.to_shedding().unwrap();
}

#[should_panic]
#[test]
fn test_weekly_oob_too_low() {
    let raw_too_low = RawWeeklyShedding {
        start_time: "12:00".to_owned(),
        finsh_time: "14:30".to_owned(),
        stage: 1,
        day_of_week: 0,
    };
    let _ = raw_too_low.to_shedding().unwrap();
}

#[test]
fn test_weekly() {
    let raw = RawWeeklyShedding {
        start_time: "12:00".to_owned(),
        finsh_time: "14:30".to_owned(),
        stage: 1,
        day_of_week: 1,
    };
    let cooked = RecurringShedding {
        start_time: tod(12, 0),
        finsh_time: tod(14, 30),
        stage: 1,
        recurrence: Recurrence::Weekly,
        day_of_recurrence: 1,
    };
    assert_eq!(raw.to_shedding().unwrap(), cooked);
}

#[should_panic]
#[test]
fn test_monthly_oob_too_high() {
    let raw = RawMonthlyShedding {
        start_time: "12:00".to_owned(),
        finsh_time: "14:30".to_owned(),
        stage: 1,
        date_of_month: 32,
    };
    let _ = raw.to_shedding().unwrap();
}

#[test]
fn test_monthly() {
    let raw = RawMonthlyShedding {
        start_time: "12:00".to_owned(),
        finsh_time: "14:30".to_owned(),
        stage: 1,
        date_of_month: 1,
    };
    let cooked = RecurringShedding {
        start_time: tod(12, 0),
        finsh_time: tod(14, 30),
        stage: 1,
        recurrence: Recurrence::Monthly,
        day_of_recurrence: 1,
    };
    assert_eq!(raw.to_shedding().unwrap(), cooked);
}

#[test]
fn test_bad_start_time_rejected() {
    let raw = RawWeeklyShedding {
        start_time: "12h00".to_owned(),
        finsh_time: "14:30".to_owned(),
        stage: 1,
        day_of_week: 1,
    };
    assert_eq!(raw.to_shedding().unwrap_err(), ConfigError::BadStartTime);
}

#[test]
fn test_bad_finsh_time_rejected() {
    let raw = RawWeeklyShedding {
        start_time: "12:00".to_owned(),
        finsh_time: "24:30".to_owned(),
        stage: 1,
        day_of_week: 1,
    };
    assert_eq!(raw.to_shedding().unwrap_err(), ConfigError::BadFinshTime);
}

#[test]
fn test_bad_cycle_date_rejected() {
    let raw = RawPeriodicShedding {
        start_time: "12:00".to_owned(),
        finsh_time: "14:30".to_owned(),
        stage: 1,
        day_of_cycle: 1,
        period_of_cycle: 19,
        start_of_cycle: "2023-02-29".to_owned(),
    };
    assert_eq!(raw.to_shedding().unwrap_err(), ConfigError::BadCycleDate);
}

#[test]
fn test_bad_day_of_cycle_rejected() {
    let raw = RawPeriodicShedding {
        start_time: "12:00".to_owned(),
        finsh_time: "14:30".to_owned(),
        stage: 1,
        day_of_cycle: 0,
        period_of_cycle: 19,
        start_of_cycle: "2023-01-01".to_owned(),
    };
    assert_eq!(raw.to_shedding().unwrap_err(), ConfigError::BadDayOfCycle);
}

#[test]
fn test_bad_day_of_week_rejected() {
    let raw = RawWeeklyShedding {
        start_time: "12:00".to_owned(),
        finsh_time: "14:30".to_owned(),
        stage: 1,
        day_of_week: 9,
    };
    assert_eq!(raw.to_shedding().unwrap_err(), ConfigError::BadDayOfWeek);
}

#[test]
fn test_bad_date_of_month_rejected() {
    let raw = RawMonthlyShedding {
        start_time: "12:00".to_owned(),
        finsh_time: "14:30".to_owned(),
        stage: 1,
        date_of_month: 0,
    };
    assert_eq!(raw.to_shedding().unwrap_err(), ConfigError::BadDateOfMonth);
}

#[test]
fn test_parse_time_rejects_out_of_range() {
    assert!(eskom_calendar::text::parse_time("12:60").is_none());
    assert!(eskom_calendar::text::parse_time("24:00").is_none());
    assert!(eskom_calendar::text::parse_time("1200").is_none());
    assert_eq!(eskom_calendar::text::parse_time("07:30"), Some(tod(7, 30)));
}

#[test]
fn test_parse_time_accepts_short_fields() {
    assert_eq!(eskom_calendar::text::parse_time("7:30"), Some(tod(7, 30)));
    assert_eq!(eskom_calendar::text::parse_time("12:5"), Some(tod(12, 5)));
    assert_eq!(eskom_calendar::text::parse_time("7:5"), Some(tod(7, 5)));
    assert!(eskom_calendar::text::parse_time("7:305").is_none());
}

#[test]
fn test_parse_date_rejects_bad_days() {
    assert!(eskom_calendar::text::parse_date("2023-02-29").is_none());
    assert_eq!(
        eskom_calendar::text::parse_date("2024-02-29"),
        Some(Date { year: 2024, month: 2, day: 29 })
    );
    assert!(eskom_calendar::text::parse_date("2023-13-01").is_none());
    assert!(eskom_calendar::text::parse_date("2023-04-31").is_none());
}
