use oil_cop::health::{
    age_secs, agent_health, bead_health, is_problem, parse_duration_secs, worst_of, DurationError,
    Thresholds, UnixTime,
};
use oil_cop::model::Health;

#[test]
fn parses_durations() {
    assert_eq!(parse_duration_secs("30m").unwrap(), 1800);
    assert_eq!(parse_duration_secs("1h").unwrap(), 3600);
    assert_eq!(parse_duration_secs("2h30m").unwrap(), 9000);
    assert_eq!(parse_duration_secs("45s").unwrap(), 45);
    assert_eq!(parse_duration_secs("90").unwrap(), 90);
    assert!(parse_duration_secs("").is_err());
    assert!(parse_duration_secs("30x").is_err());
}

#[test]
fn bead_health_stale_vs_healthy() {
    let t = Thresholds { stale_after_secs: 100 };
    assert_eq!(bead_health("in_progress", Some(50), &t), Health::Healthy);
    assert_eq!(bead_health("in_progress", Some(150), &t), Health::Stale);
    assert_eq!(bead_health("in_progress", None, &t), Health::Unknown);
    assert_eq!(bead_health("closed", Some(999999), &t), Health::Done);
}

#[test]
fn agent_health_priority() {
    let t = Thresholds { stale_after_secs: 100 };
    assert_eq!(agent_health(true, true, false, Some(10), &t), Health::Suspended);
    assert_eq!(agent_health(false, false, false, Some(10), &t), Health::Dead);
    assert_eq!(agent_health(true, false, false, Some(10), &t), Health::Healthy);
    assert_eq!(agent_health(true, false, false, Some(150), &t), Health::Stale);
    assert_eq!(agent_health(true, false, false, None, &t), Health::Idle);
    assert_eq!(agent_health(true, false, true, Some(10), &t), Health::Idle);
}

#[test]
fn worst_of_picks_dead_over_healthy() {
    let h = worst_of(&[Health::Healthy, Health::Dead, Health::Idle]);
    assert_eq!(h, Health::Dead);
}

#[test]
fn worst_of_an_empty_list_is_done() {
    assert_eq!(worst_of(&[]), Health::Done);
}

#[test]
fn worst_of_does_not_depend_on_order() {
    let a = [Health::Idle, Health::Stale, Health::Healthy, Health::Unknown];
    let b = [Health::Unknown, Health::Healthy, Health::Stale, Health::Idle];
    assert_eq!(worst_of(&a), worst_of(&b));
    assert_eq!(worst_of(&a), Health::Stale);
}

#[test]
fn duration_errors_name_what_went_wrong() {
    assert_eq!(parse_duration_secs("   "), Err(DurationError::Empty));
    assert_eq!(parse_duration_secs("30x"), Err(DurationError::UnknownUnit('x')));
    assert_eq!(parse_duration_secs("m"), Err(DurationError::MissingNumber('m')));
    assert_eq!(
        parse_duration_secs("1h30"),
        Err(DurationError::TrailingNumber("30".to_string()))
    );
    assert_eq!(
        parse_duration_secs("99999999999999999999s"),
        Err(DurationError::Overflow)
    );
    assert_eq!(parse_duration_secs("106751991167301d"), Err(DurationError::Overflow));
}

#[test]
fn duration_error_messages() {
    assert_eq!(DurationError::Empty.message(""), "empty duration");
    assert_eq!(
        DurationError::UnknownUnit('x').message("30x"),
        "unrecognized duration unit 'x' in '30x'"
    );
    assert_eq!(
        DurationError::MissingNumber('m').message("m"),
        "unit 'm' with no preceding number in 'm'"
    );
    assert_eq!(
        DurationError::TrailingNumber("30".to_string()).message("1h30"),
        "trailing number '30' with no unit in '1h30'"
    );
}

#[test]
fn durations_trim_and_sum_groups() {
    assert_eq!(parse_duration_secs("  1d2h3m4s  ").unwrap(), 86400 + 7200 + 180 + 4);
    assert_eq!(parse_duration_secs("0s").unwrap(), 0);
    assert_eq!(parse_duration_secs("1m1m").unwrap(), 120);
}

#[test]
fn age_is_seconds_since_the_timestamp() {
    // 2026-01-01T12:00:00Z
    let now = UnixTime::at(1767268800);
    assert_eq!(age_secs(Some("2026-01-01T11:55:00Z"), now), Some(300));
    assert_eq!(age_secs(Some("2026-01-01T13:00:00+02:00"), now), Some(3600));
    assert_eq!(age_secs(Some("not a time"), now), None);
    assert_eq!(age_secs(None, now), None);
}

#[test]
fn only_dead_and_stale_are_problems() {
    assert!(is_problem(Health::Dead));
    assert!(is_problem(Health::Stale));
    for h in [Health::Healthy, Health::Idle, Health::Suspended, Health::Done, Health::Unknown] {
        assert!(!is_problem(h));
    }
}

#[test]
fn bead_health_of_other_statuses() {
    let t = Thresholds::default();
    assert_eq!(t.stale_after_secs, 1800);
    assert_eq!(bead_health("open", Some(5), &t), Health::Idle);
    assert_eq!(bead_health("blocked", None, &t), Health::Idle);
}

#[test]
fn age_cuts_the_exact_difference_toward_zero() {
    // 2026-01-01T12:00:00Z
    let now = UnixTime::at(1_767_268_800);
    assert_eq!(age_secs(Some("2026-01-01T11:59:59.500Z"), now), Some(0));
    assert_eq!(age_secs(Some("2026-01-01T11:58:00.250Z"), now), Some(119));
    assert_eq!(age_secs(Some("2026-01-01T12:00:00.750Z"), now), Some(0));
    assert_eq!(age_secs(Some("2026-01-01T12:00:02.500Z"), now), Some(-2));
}

#[test]
fn age_counts_from_the_exact_instant() {
    // 2026-01-01T12:00:00.7Z
    let now = UnixTime { secs: 1_767_268_800, nanos: 700_000_000 };
    assert_eq!(age_secs(Some("2026-01-01T11:59:59.500Z"), now), Some(1));
    assert_eq!(age_secs(Some("2026-01-01T11:59:59.800Z"), now), Some(0));
    assert_eq!(age_secs(Some("2026-01-01T11:55:00Z"), now), Some(300));
}
