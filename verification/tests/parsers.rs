use yxhoo_transit::datetime::{parse_hhmm, time_on_date_with_rollover, DateTimeMinute};
use yxhoo_transit::parser::{
    infer_mode, parse_distance_mm, parse_ja_duration_minutes, parse_u32_loose,
};

fn dt(year: i32, month: u32, day: u32, hour: u32, minute: u32) -> DateTimeMinute {
    DateTimeMinute { year, month, day, hour, minute, offset_minutes: 540 }
}

#[test]
fn test_duration_parser() {
    assert_eq!(parse_ja_duration_minutes("1時間2分"), Some(62));
    assert_eq!(parse_ja_duration_minutes("4分"), Some(4));
    assert_eq!(parse_ja_duration_minutes("3時間"), Some(180));
    assert_eq!(parse_ja_duration_minutes("約10時間30分"), Some(630));
    assert_eq!(parse_ja_duration_minutes("1時間分"), Some(60));
    assert_eq!(parse_ja_duration_minutes("unparsable"), None);
    assert_eq!(parse_ja_duration_minutes(""), None);
    assert_eq!(parse_ja_duration_minutes("時間"), None);
}

#[test]
fn test_distance_parser() {
    assert_eq!(parse_distance_mm("12.3km"), Some(12_300_000));
    assert_eq!(parse_distance_mm("500m"), Some(500_000));
    assert_eq!(parse_distance_mm("12km"), Some(12_000_000));
    assert_eq!(parse_distance_mm("1,234km"), Some(1_234_000_000));
    assert_eq!(parse_distance_mm("4.5 km"), Some(4_500_000));
    assert_eq!(parse_distance_mm("0.5m"), Some(500));
    assert_eq!(parse_distance_mm("12.3"), None);
    assert_eq!(parse_distance_mm("km"), None);
    assert_eq!(parse_distance_mm("12.3mi"), None);
    assert_eq!(parse_distance_mm(""), None);
}

#[test]
fn test_u32_loose_parser() {
    assert_eq!(parse_u32_loose("3回"), Some(3));
    assert_eq!(parse_u32_loose("1,234円"), Some(1234));
    assert_eq!(parse_u32_loose("12a34"), Some(1234));
    assert_eq!(parse_u32_loose(""), None);
    assert_eq!(parse_u32_loose("abc"), None);
    assert_eq!(parse_u32_loose("99999999999999999999"), None);
}

#[test]
fn test_hhmm_parser() {
    assert_eq!(parse_hhmm("08:50"), Some((8, 50)));
    assert_eq!(parse_hhmm("8:5"), Some((8, 5)));
    assert_eq!(parse_hhmm(" 08 : 50 "), Some((8, 50)));
    assert_eq!(parse_hhmm("08:50:00"), None);
    assert_eq!(parse_hhmm("24:00"), None);
    assert_eq!(parse_hhmm("10:60"), None);
    assert_eq!(parse_hhmm("0850"), None);
    assert_eq!(parse_hhmm(""), None);
}

#[test]
fn test_infer_mode() {
    assert_eq!(infer_mode(Some("徒歩")), "walk");
    assert_eq!(infer_mode(Some("高速バス")), "bus");
    assert_eq!(infer_mode(Some("連絡バス")), "bus");
    assert_eq!(infer_mode(Some("空路")), "flight");
    assert_eq!(infer_mode(Some("フライト")), "flight");
    assert_eq!(infer_mode(Some("飛行機")), "flight");
    assert_eq!(infer_mode(Some("フェリー")), "ferry");
    assert_eq!(infer_mode(Some("高速船")), "bus");
    assert_eq!(infer_mode(Some("船")), "ferry");
    assert_eq!(infer_mode(Some("東海道新幹線")), "rail");
    assert_eq!(infer_mode(None), "unknown");
}

#[test]
fn test_rollover_same_day() {
    let base = dt(2025, 12, 18, 0, 0);
    let first = time_on_date_with_rollover(&base, "08:50", None).unwrap();
    assert_eq!(first, dt(2025, 12, 18, 8, 50));
    let second = time_on_date_with_rollover(&base, "08:55", Some(first)).unwrap();
    assert_eq!(second, dt(2025, 12, 18, 8, 55));
}

#[test]
fn test_rollover_crosses_midnight() {
    let base = dt(2025, 12, 18, 0, 0);
    let last = dt(2025, 12, 18, 8, 55);
    let rolled = time_on_date_with_rollover(&base, "08:40", Some(last)).unwrap();
    assert_eq!(rolled, dt(2025, 12, 19, 8, 40));
}

#[test]
fn test_rollover_across_year_end() {
    let base = dt(2025, 12, 31, 0, 0);
    let last = dt(2025, 12, 31, 23, 50);
    let rolled = time_on_date_with_rollover(&base, "00:10", Some(last)).unwrap();
    assert_eq!(rolled, dt(2026, 1, 1, 0, 10));
}

#[test]
fn test_rollover_unparsable_time() {
    let base = dt(2025, 12, 18, 0, 0);
    assert_eq!(time_on_date_with_rollover(&base, "soon", None), None);
}
