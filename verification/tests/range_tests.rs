use circuitdeck_backend::range::TimeRange;
use circuitdeck_backend::routes::RangeParams;
use circuitdeck_backend::error::ApiError;

#[test]
fn parses_supported_ranges() {
    assert_eq!(TimeRange::parse("1h"), Some(TimeRange::OneHour));
    assert_eq!(TimeRange::parse("6h"), Some(TimeRange::SixHours));
    assert_eq!(TimeRange::parse("24h"), Some(TimeRange::TwentyFourHours));
    assert_eq!(TimeRange::parse("7d"), Some(TimeRange::SevenDays));
    assert_eq!(TimeRange::parse("3w"), None);
    assert_eq!(TimeRange::parse(""), None);
    assert_eq!(TimeRange::parse("1H"), None);
}

#[test]
fn secs_match_ranges() {
    assert_eq!(TimeRange::OneHour.secs(), 3600);
    assert_eq!(TimeRange::SevenDays.secs(), 7 * 24 * 3600);
}

#[test]
fn steps_increase_with_range() {
    assert!(TimeRange::OneHour.step_secs() <= TimeRange::SevenDays.step_secs());
}

#[test]
fn canonical_text_round_trips() {
    for r in TimeRange::all() {
        assert_eq!(TimeRange::parse(r.as_str()), Some(r));
    }
    assert_eq!(TimeRange::TwentyFourHours.as_str(), "24h");
}

#[test]
fn selectors_wrap_the_text() {
    assert_eq!(TimeRange::OneHour.selector(), "[1h]");
    assert_eq!(TimeRange::SixHours.selector(), "[6h]");
    assert_eq!(TimeRange::TwentyFourHours.selector(), "[24h]");
    assert_eq!(TimeRange::SevenDays.selector(), "[7d]");
}

#[test]
fn all_is_ordered_by_length_and_steps_follow() {
    let all = TimeRange::all();
    assert_eq!(
        all,
        [TimeRange::OneHour, TimeRange::SixHours, TimeRange::TwentyFourHours, TimeRange::SevenDays]
    );
    for w in all.windows(2) {
        assert!(w[0].secs() < w[1].secs());
        assert!(w[0].step_secs() <= w[1].step_secs());
    }
    assert_eq!(TimeRange::SixHours.secs(), 21600);
    assert_eq!(TimeRange::TwentyFourHours.secs(), 86400);
    assert_eq!(TimeRange::SixHours.step_secs(), 120);
    assert_eq!(TimeRange::TwentyFourHours.step_secs(), 300);
    assert_eq!(TimeRange::SevenDays.step_secs(), 1800);
    assert_eq!(TimeRange::OneHour.step_secs(), 30);
}

#[test]
fn range_param_defaults_to_one_hour() {
    let p = RangeParams { range: None };
    assert!(matches!(p.parse_range(), Ok(TimeRange::OneHour)));
    let p = RangeParams { range: Some("7d".to_string()) };
    assert!(matches!(p.parse_range(), Ok(TimeRange::SevenDays)));
}

#[test]
fn range_param_rejects_unknown_text() {
    let p = RangeParams { range: Some("3w".to_string()) };
    match p.parse_range() {
        Err(ApiError::InvalidTimeRange(s)) => assert_eq!(s, "3w"),
        _ => panic!("expected an invalid range error"),
    }
}
