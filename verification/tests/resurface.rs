use chrono::{DateTime, TimeZone, Utc};
use dropnote::resurface::format_elapsed;

fn t(year: i32, month: u32, day: u32) -> DateTime<Utc> {
    Utc.with_ymd_and_hms(year, month, day, 0, 0, 0).unwrap()
}

fn ms(d: DateTime<Utc>) -> i64 {
    d.timestamp_millis()
}

#[test]
fn months_and_years() {
    let now = t(2026, 5, 11);
    assert_eq!(format_elapsed(ms(t(2026, 1, 11)), ms(now)), "4ヶ月前");
    assert_eq!(format_elapsed(ms(t(2025, 5, 11)), ms(now)), "1年前");
}

#[test]
fn weeks_and_days() {
    let now = t(2026, 5, 11);
    assert_eq!(format_elapsed(ms(t(2026, 4, 27)), ms(now)), "2週間前");
    assert_eq!(format_elapsed(ms(t(2026, 5, 8)), ms(now)), "3日前");
}

#[test]
fn freshly_made() {
    let now = t(2026, 5, 11);
    assert_eq!(format_elapsed(ms(now), ms(now)), "たった今");
}

#[test]
fn hours_minutes_and_clock_skew() {
    let now = ms(t(2026, 5, 11));
    assert_eq!(format_elapsed(now - 3 * 3_600_000 - 59_999, now), "3時間前");
    assert_eq!(format_elapsed(now - 59 * 60_000, now), "59分前");
    assert_eq!(format_elapsed(now - 59_999, now), "たった今");
    assert_eq!(format_elapsed(now + 1, now), "たった今");
    assert_eq!(format_elapsed(now - 86_400_000 + 1, now), "23時間前");
    assert_eq!(format_elapsed(now - 86_400_000, now), "1日前");
}

#[test]
fn long_spans() {
    let now = ms(t(2026, 5, 11));
    assert_eq!(format_elapsed(now - 364 * 86_400_000, now), "12ヶ月前");
    assert_eq!(format_elapsed(now - 730 * 86_400_000, now), "2年前");
    assert_eq!(format_elapsed(i64::MIN, i64::MAX), "584942417年前");
}
