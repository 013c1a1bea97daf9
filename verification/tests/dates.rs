use articles::date::{normalize, parse_date, ArticleDate, ReferenceZone};
use articles::errors::ArticleError;

fn zone(name: &str) -> ReferenceZone {
    ReferenceZone::new(String::from(name)).expect("zone is in the timezone table")
}

#[test]
fn parses_a_plain_date() {
    let d = parse_date("2024-03-01").expect("valid date");
    assert_eq!((d.year, d.month, d.day), (2024, 3, 1));
}

#[test]
fn rejects_wrong_shapes() {
    assert!(parse_date("2024-3-01").is_none());
    assert!(parse_date("2024/03/01").is_none());
    assert!(parse_date("24-03-01").is_none());
    assert!(parse_date("2024-03-01 ").is_none());
    assert!(parse_date("yyyy-mm-dd").is_none());
}

#[test]
fn rejects_impossible_dates() {
    assert!(parse_date("2024-13-01").is_none());
    assert!(parse_date("2024-00-10").is_none());
    assert!(parse_date("2024-04-31").is_none());
    assert!(parse_date("2024-01-00").is_none());
}

#[test]
fn leap_years_have_february_29() {
    assert!(parse_date("2024-02-29").is_some());
    assert!(parse_date("2023-02-29").is_none());
    assert!(parse_date("2000-02-29").is_some());
    assert!(parse_date("1900-02-29").is_none());
}

#[test]
fn formats_with_zero_padding() {
    let d = ArticleDate::new(987, 4, 5).expect("valid date");
    assert_eq!(d.format(), "0987-04-05");
}

#[test]
fn format_then_parse_is_identity() {
    let d = ArticleDate::new(2024, 12, 31).expect("valid date");
    let p = parse_date(d.format().as_str()).expect("formatted date parses");
    assert_eq!(d, p);
}

#[test]
fn unknown_zone_is_rejected() {
    assert!(ReferenceZone::new(String::from("Nowhere/Nope")).is_none());
}

#[test]
fn ordinary_date_normalizes_in_pacific() {
    let z = zone("US/Pacific");
    let d = normalize("2024-03-01", &z).expect("ordinary date");
    assert_eq!((d.year, d.month, d.day), (2024, 3, 1));
}

#[test]
fn pacific_transition_dates_keep_their_midnight() {
    // the Pacific zone shifts at 02:00, so midnight itself always exists
    let z = zone("US/Pacific");
    assert!(normalize("2024-03-10", &z).is_ok());
    assert!(normalize("2024-11-03", &z).is_ok());
}

#[test]
fn spring_forward_gap_at_midnight_is_rejected() {
    // Chile's spring-forward skips midnight itself: 2022-09-11 00:00 does
    // not exist in America/Santiago
    let z = zone("America/Santiago");
    let r = normalize("2022-09-11", &z);
    assert!(matches!(r, Err(ArticleError::AmbiguousLocalTime)));
    assert!(normalize("2022-09-12", &z).is_ok());
}

#[test]
fn bad_shape_beats_zone_resolution() {
    let z = zone("US/Pacific");
    let r = normalize("01-03-2024", &z);
    assert!(matches!(r, Err(ArticleError::InvalidDateFormat)));
}
