use chrono::{Datelike, TimeZone, Utc};
use dtrpg_ui::datetime::{
    epoch_to_rfc3339, format_absolute, format_absolute_fixed, format_relative, format_relative_since,
    parse_rfc3339_to_epoch,
};

fn now() -> i64 {
    Utc::now().timestamp()
}

/// A timestamp `n` whole calendar months before now, at noon on the first of
/// the target month.
fn months_ago_anchored(n: u32) -> i64 {
    let now = Utc::now();
    let total = i64::from(now.year()) * 12 + i64::from(now.month()) - 1 - i64::from(n);
    let target_year = total.div_euclid(12) as i32;
    let target_month = total.rem_euclid(12) as u32 + 1;
    Utc.with_ymd_and_hms(target_year, target_month, 1, 12, 0, 0)
        .single()
        .map_or(0, |dt| dt.timestamp())
}

#[test]
fn absolute_epoch_zero() {
    assert_eq!(format_absolute_fixed(0), "January 1, 1970 at 12:00 AM");
}

#[test]
fn absolute_known_date() {
    assert_eq!(format_absolute_fixed(1_704_469_320), "January 5, 2024 at 3:42 PM");
}

#[test]
fn absolute_is_never_empty() {
    assert!(!format_absolute(0).is_empty());
    assert!(!format_absolute(1_704_469_320).is_empty());
}

#[test]
fn absolute_noon_midnight_and_negative_times() {
    assert_eq!(format_absolute_fixed(43_200), "January 1, 1970 at 12:00 PM");
    assert_eq!(format_absolute_fixed(-60), "December 31, 1969 at 11:59 PM");
    assert_eq!(format_absolute_fixed(951_782_400), "February 29, 2000 at 12:00 AM");
}

#[test]
fn absolute_out_of_range_uses_earliest_instant() {
    assert_eq!(format_absolute_fixed(i64::MIN), format_absolute_fixed(-8_334_601_228_800));
    assert_eq!(format_absolute_fixed(i64::MIN), "January 1, -262143 at 12:00 AM");
    assert_eq!(format_absolute(i64::MAX), "January 1, -262143 at 12:00 AM");
}

#[test]
fn just_now_at_59s() {
    assert_eq!(format_relative(now() - 59), "just now");
}

#[test]
fn minutes_at_60s() {
    assert_eq!(format_relative(now() - 60), "a minute ago");
}

#[test]
fn minutes_at_59m() {
    assert_eq!(format_relative(now() - 59 * 60), "59 minutes ago");
}

#[test]
fn hours_at_1h() {
    assert_eq!(format_relative(now() - 3_600), "an hour ago");
}

#[test]
fn hours_at_23h() {
    assert_eq!(format_relative(now() - 23 * 3_600), "23 hours ago");
}

#[test]
fn yesterday_at_24h() {
    assert_eq!(format_relative(now() - 24 * 3_600), "yesterday");
}

#[test]
fn yesterday_at_47h() {
    assert_eq!(format_relative(now() - 47 * 3_600), "yesterday");
}

#[test]
fn days_at_48h() {
    assert_eq!(format_relative(now() - 48 * 3_600), "2 days ago");
}

#[test]
fn days_at_6d() {
    assert_eq!(format_relative(now() - 6 * 86_400), "6 days ago");
}

#[test]
fn weeks_at_7d() {
    assert_eq!(format_relative(now() - 7 * 86_400), "a week ago");
}

#[test]
fn weeks_at_29d() {
    assert_eq!(format_relative(now() - 29 * 86_400), "4 weeks ago");
}

#[test]
fn months_at_1_month() {
    let ts = months_ago_anchored(1);
    assert_eq!(format_relative(ts), "a month ago");
}

#[test]
fn months_at_roughly_5_months() {
    let ts = months_ago_anchored(5);
    assert_eq!(format_relative(ts), "5 months ago");
}

#[test]
fn months_at_11_months() {
    let ts = months_ago_anchored(11);
    assert_eq!(format_relative(ts), "11 months ago");
}

#[test]
fn years_at_12_months() {
    let ts = months_ago_anchored(12);
    assert_eq!(format_relative(ts), "a year ago");
}

#[test]
fn years_at_25_months() {
    let ts = months_ago_anchored(25);
    assert_eq!(format_relative(ts), "2 years ago");
}

#[test]
fn relative_labels_against_a_fixed_now() {
    let now = 1_704_469_320;
    assert_eq!(format_relative_since(now, now), "just now");
    assert_eq!(format_relative_since(now + 500, now), "just now");
    assert_eq!(format_relative_since(now - 120, now), "2 minutes ago");
    assert_eq!(format_relative_since(now - 2 * 3_600, now), "2 hours ago");
    assert_eq!(format_relative_since(now - 14 * 86_400, now), "2 weeks ago");
}

#[test]
fn parses_rfc3339_with_negative_offset() {
    assert_eq!(parse_rfc3339_to_epoch("2024-07-16T10:45:52-05:00"), Some(1_721_144_752));
}

#[test]
fn parses_rfc3339_with_positive_offset() {
    assert_eq!(parse_rfc3339_to_epoch("2024-07-17T00:45:52+09:00"), Some(1_721_144_752));
}

#[test]
fn parses_rfc3339_with_z_suffix() {
    assert_eq!(parse_rfc3339_to_epoch("2024-01-05T15:42:00Z"), Some(1_704_469_320));
}

#[test]
fn parses_rfc3339_epoch_zero() {
    assert_eq!(parse_rfc3339_to_epoch("1970-01-01T00:00:00Z"), Some(0));
}

#[test]
fn rejects_malformed_rfc3339() {
    assert_eq!(parse_rfc3339_to_epoch("not-a-date"), None);
    assert_eq!(parse_rfc3339_to_epoch("2024-13-05T15:42:00Z"), None);
    assert_eq!(parse_rfc3339_to_epoch(""), None);
}

#[test]
fn rfc3339_round_trips() {
    let text = epoch_to_rfc3339(1_721_144_752).unwrap();
    assert_eq!(text, "2024-07-16T15:45:52+00:00");
    assert_eq!(parse_rfc3339_to_epoch(&text), Some(1_721_144_752));
    assert_eq!(epoch_to_rfc3339(i64::MAX), None);
}
