//! The assembler end to end, the output orders, and the post-filters.

use eskom_calendar::Date;
use eskom_calendar::DateTime;
use eskom_calendar::ManuallyInputSchedule;
use eskom_calendar::PowerOutage;
use eskom_calendar::RawChange;
use eskom_calendar::RawWeeklyShedding;
use eskom_calendar::TimeOfDay;
use eskom_calendar::calculate_power_outages;
use eskom_calendar::outage::sorted_outages;
use eskom_calendar::postfilter::filter_expired_outages;
use eskom_calendar::postfilter::filter_short_outages;
use eskom_calendar::schedule::ScheduleKind;
use eskom_calendar::schedule::detect_schedule_kind;
use eskom_calendar::schedule::filter_nonzero_stage;

fn dt(year: i32, month: u8, day: u8, hour: u8, minute: u8) -> DateTime {
    DateTime {
        date: Date { year, month, day },
        time: TimeOfDay { hour, minute, second: 0 },
    }
}

fn monday_noon_schedule() -> (Vec<eskom_calendar::RecurringShedding>, ManuallyInputSchedule) {
    let shedding = RawWeeklyShedding {
        start_time: "12:00".to_owned(),
        finsh_time: "14:00".to_owned(),
        stage: 4,
        day_of_week: 1,
    }
    .to_shedding()
    .unwrap();
    let change = RawChange {
        start: "2022-01-01T00:00:00".to_string(),
        finsh: "2022-02-01T00:00:00".to_string(),
        stage: 4,
        source: "curated".to_string(),
        include_regex: None,
        exclude_regex: None,
        include_short: Some("coct".to_string()),
        exclude_short: None,
    }
    .to_change()
    .unwrap();
    let schedule = ManuallyInputSchedule { changes: vec![change], historical_changes: vec![] };
    (vec![shedding], schedule)
}

#[test]
fn test_calculate_power_outages_mondays() {
    let (sheddings, schedule) = monday_noon_schedule();
    let (outages, last_finsh) =
        calculate_power_outages("city-of-cape-town-area-10", &sheddings, &schedule);
    let mondays: Vec<u8> = vec![3, 10, 17, 24, 31];
    assert_eq!(outages.len(), 5);
    for (outage, day) in outages.iter().zip(mondays.iter()) {
        assert_eq!(outage.area_name, "city-of-cape-town-area-10");
        assert_eq!(outage.stage, 4);
        assert_eq!(outage.start, dt(2022, 1, *day, 12, 0));
        assert_eq!(outage.finsh, dt(2022, 1, *day, 14, 0));
        assert_eq!(outage.source, "curated");
    }
    assert_eq!(last_finsh, Some(dt(2022, 1, 31, 14, 0)));
}

#[test]
fn test_area_not_matching_yields_nothing() {
    let (sheddings, schedule) = monday_noon_schedule();
    let (outages, last_finsh) =
        calculate_power_outages("gauteng-tshwane-group-2", &sheddings, &schedule);
    assert!(outages.is_empty());
    assert_eq!(last_finsh, None);
}

#[test]
fn test_assembly_is_idempotent() {
    let (sheddings, schedule) = monday_noon_schedule();
    let (outages1, last1) =
        calculate_power_outages("city-of-cape-town-area-10", &sheddings, &schedule);
    let (outages2, last2) =
        calculate_power_outages("city-of-cape-town-area-10", &sheddings, &schedule);
    assert_eq!(outages1, outages2);
    assert_eq!(last1, last2);
}

fn outage(area: &str, stage: u8, start: DateTime, finsh: DateTime, source: &str) -> PowerOutage {
    PowerOutage {
        area_name: area.to_string(),
        stage,
        start,
        finsh,
        source: source.to_string(),
    }
}

#[test]
fn test_sorted_outages_full_key() {
    let a = outage("area-b", 2, dt(2022, 1, 1, 10, 0), dt(2022, 1, 1, 12, 0), "s1");
    let b = outage("area-a", 4, dt(2022, 1, 2, 10, 0), dt(2022, 1, 2, 12, 0), "s1");
    let c = outage("area-a", 2, dt(2022, 1, 1, 10, 0), dt(2022, 1, 1, 12, 0), "s2");
    let d = outage("area-a", 2, dt(2022, 1, 1, 10, 0), dt(2022, 1, 1, 12, 0), "s1");
    let sorted = sorted_outages(&vec![a.clone(), b.clone(), c.clone(), d.clone()], false);
    assert_eq!(sorted, vec![d, c, b, a]);
}

#[test]
fn test_sorted_outages_by_start_is_stable() {
    let a = outage("area-b", 2, dt(2022, 1, 1, 10, 0), dt(2022, 1, 1, 12, 0), "s1");
    let b = outage("area-a", 2, dt(2022, 1, 1, 10, 0), dt(2022, 1, 1, 12, 0), "s1");
    let c = outage("area-c", 2, dt(2022, 1, 1, 9, 0), dt(2022, 1, 1, 12, 0), "s1");
    let sorted = sorted_outages(&vec![a.clone(), b.clone(), c.clone()], true);
    // equal starts keep their original order
    assert_eq!(sorted, vec![c, a, b]);
}

#[test]
fn test_short_isolated_outage_dropped() {
    let short = outage("a", 2, dt(2022, 1, 1, 10, 0), dt(2022, 1, 1, 10, 30), "s");
    let long = outage("a", 2, dt(2022, 1, 2, 10, 0), dt(2022, 1, 2, 12, 0), "s");
    let kept = filter_short_outages(&vec![short, long.clone()], 1800, 60);
    assert_eq!(kept, vec![long]);
}

#[test]
fn test_short_contiguous_outage_kept() {
    let long = outage("a", 2, dt(2022, 1, 1, 8, 0), dt(2022, 1, 1, 10, 0), "s");
    let short = outage("a", 2, dt(2022, 1, 1, 10, 0), dt(2022, 1, 1, 10, 30), "s");
    let kept = filter_short_outages(&vec![long.clone(), short.clone()], 1800, 60);
    assert_eq!(kept, vec![long, short]);
}

#[test]
fn test_expired_area_outages_dropped() {
    let before = outage("gone", 2, dt(2023, 5, 24, 10, 0), dt(2023, 5, 24, 12, 0), "s");
    let after = outage("gone", 2, dt(2023, 5, 26, 10, 0), dt(2023, 5, 26, 12, 0), "s");
    let other = outage("alive", 2, dt(2023, 5, 26, 10, 0), dt(2023, 5, 26, 12, 0), "s");
    let expired = vec!["gone".to_string()];
    let cutover = dt(2023, 5, 25, 0, 0);
    let kept = filter_expired_outages(
        &vec![before.clone(), after, other.clone()],
        &expired,
        &cutover,
    );
    assert_eq!(kept, vec![before, other]);
}

#[test]
fn test_csv_header() {
    assert_eq!(PowerOutage::csv_header(), "area_name,start,finsh,stage,source");
}

#[test]
fn test_detect_schedule_kind() {
    let monthly = vec!["start_time".to_string(), "date_of_month".to_string()];
    assert_eq!(detect_schedule_kind(&monthly), Some(ScheduleKind::Monthly));
    let weekly = vec!["day_of_week".to_string()];
    assert_eq!(detect_schedule_kind(&weekly), Some(ScheduleKind::Weekly));
    let periodic = vec!["day_of_20_day_cycle".to_string()];
    assert_eq!(detect_schedule_kind(&periodic), Some(ScheduleKind::Periodic));
    let unknown = vec!["something_else".to_string()];
    assert_eq!(detect_schedule_kind(&unknown), None);
}

#[test]
fn test_filter_nonzero_stage() {
    let keep = RawWeeklyShedding {
        start_time: "12:00".to_owned(),
        finsh_time: "14:00".to_owned(),
        stage: 2,
        day_of_week: 1,
    }
    .to_shedding()
    .unwrap();
    let mut drop_me = keep;
    drop_me.stage = 0;
    let rows = vec![drop_me, keep, drop_me];
    assert_eq!(filter_nonzero_stage(&rows), vec![keep]);
}
