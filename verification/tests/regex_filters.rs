//! Shorthand expansion, the area filter, and the overlap validator.

use eskom_calendar::Change;
use eskom_calendar::RawChange;
use eskom_calendar::err_if_overlaps;
use regex::Regex;

fn cooked_with_regex(include_regex: &str, exclude_regex: &str) -> Change {
    Change {
        start: eskom_calendar::text::parse_datetime("2022-01-01T08:00:00").unwrap(),
        finsh: eskom_calendar::text::parse_datetime("2022-01-02T08:00:00").unwrap(),
        stage: 1,
        source: "Test source".to_string(),
        include_regex: Regex::new(include_regex).unwrap(),
        exclude_regex: Regex::new(exclude_regex).unwrap(),
    }
}

fn raw_with_regex(include_short: Option<String>, exclude_short: Option<String>) -> RawChange {
    RawChange {
        start: "2022-01-01T08:00:00".to_string(),
        finsh: "2022-01-02T08:00:00".to_string(),
        stage: 1,
        source: "Test source".to_string(),
        include_regex: None,
        exclude_regex: None,
        include_short,
        exclude_short,
    }
}

#[test]
fn test_regex() {
    let shorthand_to_longhand = vec![
        // City power
        ("citypower", r"city-power-\d{1,2}"),
        // Cape Town
        ("coct", r"city-of-cape-town(-area-\d{1,2})?"),
        ("capetown", r"city-of-cape-town(-area-\d{1,2})?"),
        ("CapEtOwN", r"city-of-cape-town(-area-\d{1,2})?"),
        ("cpt", r"city-of-cape-town(-area-\d{1,2})?"),
        ("coct", r"city-of-cape-town(-area-\d{1,2})?"),
        // Ekurhuleni
        ("ekurhuleni", r"gauteng-ekurhuleni-block-\d{1,2}"),
        // Eskom
        (
            "eskom",
            r"^(eskom)|(eastern-cape-)|(free-state-)|(kwazulu-natal-)|(limpopo-)|(mpumalanga-)|(north-west-)|(northern-cape-)|(western-cape-)",
        ),
        // Tshwane
        ("tshwane", r"gauteng-tshwane-group-\d{1,2}"),
    ];
    for incl in &shorthand_to_longhand {
        assert_eq!(
            raw_with_regex(Some(incl.0.to_string()), None).to_change().unwrap(),
            cooked_with_regex(incl.1, "matchnothing^")
        );
        let is_first = false;
        for excl in &shorthand_to_longhand {
            if is_first {
                assert_eq!(
                    raw_with_regex(None, Some(excl.0.to_string())).to_change().unwrap(),
                    cooked_with_regex(".*", excl.1)
                );
            }
            assert_eq!(
                raw_with_regex(Some(incl.0.to_string()), Some(excl.0.to_string()))
                    .to_change()
                    .unwrap(),
                cooked_with_regex(incl.1, excl.1)
            );
        }
    }
}

#[test]
fn test_explicit_regex_wins_over_shorthand() {
    let mut raw = raw_with_regex(Some("coct".to_string()), None);
    raw.include_regex = Some("western-cape-.*".to_string());
    let change = raw.to_change().unwrap();
    assert_eq!(change.include_regex.as_str(), "western-cape-.*");
}

#[test]
fn test_bad_timestamps_rejected() {
    let mut raw = raw_with_regex(None, None);
    raw.start = "2022-01-01 08:00:00".to_string();
    assert_eq!(raw.to_change().unwrap_err(), eskom_calendar::ConfigError::BadStart);
    let mut raw = raw_with_regex(None, None);
    raw.finsh = "2022-02-30T08:00:00".to_string();
    assert_eq!(raw.to_change().unwrap_err(), eskom_calendar::ConfigError::BadFinsh);
}

#[test]
fn test_invalid_patterns_are_fatal() {
    let mut raw = raw_with_regex(None, None);
    raw.include_regex = Some("foo(bar".to_string());
    assert_eq!(
        raw.to_change().unwrap_err(),
        eskom_calendar::ConfigError::BadIncludePattern
    );
    let mut raw = raw_with_regex(None, None);
    raw.exclude_regex = Some("foo(bar".to_string());
    assert_eq!(
        raw.to_change().unwrap_err(),
        eskom_calendar::ConfigError::BadExcludePattern
    );
}

#[test]
fn test_area_filter_applies() {
    let change = raw_with_regex(Some("coct".to_string()), None).to_change().unwrap();
    assert!(change.applies("city-of-cape-town-area-5"));
    assert!(change.applies("city-of-cape-town"));
    assert!(!change.applies("gauteng-tshwane-group-1"));

    let excluding = raw_with_regex(None, Some("tshwane".to_string())).to_change().unwrap();
    assert!(excluding.applies("city-of-cape-town-area-5"));
    assert!(!excluding.applies("gauteng-tshwane-group-1"));
}

fn overlapping_pair(include1: &str, include2: &str) -> (Change, Change) {
    let mut raw1 = raw_with_regex(None, None);
    raw1.include_regex = Some(include1.to_string());
    raw1.start = "2022-01-01T10:00:00".to_string();
    raw1.finsh = "2022-01-01T12:00:00".to_string();
    let mut raw2 = raw_with_regex(None, None);
    raw2.include_regex = Some(include2.to_string());
    raw2.start = "2022-01-01T11:00:00".to_string();
    raw2.finsh = "2022-01-01T13:00:00".to_string();
    (raw1.to_change().unwrap(), raw2.to_change().unwrap())
}

#[test]
fn test_overlapping_same_area_conflicts() {
    let (c1, c2) = overlapping_pair(".*", ".*");
    let changes = vec![c1, c2];
    let areas = vec!["western-cape-stellenbosch".to_string()];
    assert!(err_if_overlaps(&changes, &areas).is_err());
}

#[test]
fn test_disjoint_applicability_never_conflicts() {
    let (c1, c2) = overlapping_pair("western-cape-.*", "gauteng-.*");
    let changes = vec![c1, c2];
    let areas = vec!["western-cape-stellenbosch".to_string(), "gauteng-tshwane-group-1".to_string()];
    assert!(err_if_overlaps(&changes, &areas).is_ok());
}

#[test]
fn test_identical_changes_never_conflict() {
    let raw = raw_with_regex(Some("coct".to_string()), None);
    let c = raw.to_change().unwrap();
    let changes = vec![c.clone(), c];
    let areas = vec!["city-of-cape-town-area-5".to_string()];
    assert!(err_if_overlaps(&changes, &areas).is_ok());
}

#[test]
fn test_nonoverlapping_windows_pass() {
    let mut raw1 = raw_with_regex(None, None);
    raw1.start = "2022-01-01T10:00:00".to_string();
    raw1.finsh = "2022-01-01T12:00:00".to_string();
    let mut raw2 = raw_with_regex(None, None);
    raw2.start = "2022-01-01T12:00:00".to_string();
    raw2.finsh = "2022-01-01T14:00:00".to_string();
    let changes = vec![raw1.to_change().unwrap(), raw2.to_change().unwrap()];
    let areas = vec!["free-state-seretse".to_string()];
    assert!(err_if_overlaps(&changes, &areas).is_ok());
}
