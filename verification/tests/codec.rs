use yxhoo_transit::datetime::{decode, encode, CodecError, DateTimeMinute};

fn dt(year: i32, month: u32, day: u32, hour: u32, minute: u32, offset_minutes: i32) -> DateTimeMinute {
    DateTimeMinute { year, month, day, hour, minute, offset_minutes }
}

#[test]
fn test_serialize_deserialize() {
    let x = dt(2025, 12, 18, 9, 30, 9 * 60);
    let encoded = encode(&x);
    assert_eq!(encoded, "2025-12-18T09:30+09:00");
    let decoded = decode(&encoded).unwrap();
    assert_eq!(decoded, x);
    // seconds are truncated to the minute
    let with_seconds = decode("2025-12-18T09:30:45+09:00").unwrap();
    assert_eq!(with_seconds, x);
}

#[test]
fn test_deserialize_various_formats() {
    let cases = vec![
        ("2025-12-18+09:00", "2025-12-18T00:00+09:00"),
        ("2025-12-18T09:30+09:00", "2025-12-18T09:30+09:00"),
        ("2025-12-18T09:30Z", "2025-12-18T09:30+00:00"),
    ];
    for (input, expected) in cases {
        let got = decode(input).unwrap();
        let expected_dt = decode(expected).unwrap();
        assert_eq!(got, expected_dt, "Failed on input: {}", input);
        assert_eq!(encode(&got), expected, "Failed on input: {}", input);
    }

    let fail_cases = vec![
        "2025/12/18",
        "2025-12-18T09-30",
        "2025-12-18 09:30",
        "2025-12-18T09:30:61",
        "2025-12-18",
        "2025-12-18T09:30",
        "2025-12-18T09:30:45",
        "2025-12-19T10:35",
        "invalid-string",
    ];
    for input in fail_cases {
        assert!(decode(input).is_err(), "Expected failure on input: {}", input);
    }
}

#[test]
fn test_round_trip_samples() {
    let samples = vec![
        dt(2024, 2, 29, 23, 59, 540),
        dt(0, 1, 1, 0, 0, 0),
        dt(9999, 12, 31, 23, 59, -1439),
        dt(1987, 6, 5, 4, 3, -330),
    ];
    for x in samples {
        let decoded = decode(&encode(&x)).unwrap();
        assert_eq!(decoded, x);
    }
}

#[test]
fn test_date_only_equals_midnight() {
    let a = decode("2025-12-18+09:00").unwrap();
    let b = decode("2025-12-18T00:00+09:00").unwrap();
    assert_eq!(a, b);
}

#[test]
fn test_z_suffix_equals_utc_offset() {
    let a = decode("2025-12-18T09:30Z").unwrap();
    let b = decode("2025-12-18T09:30+00:00").unwrap();
    assert_eq!(a, b);
    let c = decode("2031-01-02Z");
    let d = decode("2031-01-02+00:00");
    assert_eq!(c, d);
}

#[test]
fn test_error_variants() {
    assert_eq!(decode("2025-12-18"), Err(CodecError::TimezoneRequired));
    assert_eq!(decode("2025-12-18T09:30"), Err(CodecError::TimezoneRequired));
    // an offset in place but an impossible calendar date
    assert_eq!(decode("2025-13-01+09:00"), Err(CodecError::InvalidFormat));
    assert_eq!(decode("2025-02-30+09:00"), Err(CodecError::InvalidFormat));
    assert_eq!(
        CodecError::TimezoneRequired.as_str(),
        "timezone is required"
    );
}

#[test]
fn test_calendar_validity() {
    assert!(decode("2024-02-29T00:00+09:00").is_ok());
    assert!(decode("2025-02-29T00:00+09:00").is_err());
    assert!(decode("1900-02-29T00:00+09:00").is_err());
    assert!(decode("2000-02-29T00:00+09:00").is_ok());
    assert!(decode("2025-04-31T00:00+09:00").is_err());
    assert!(decode("2025-12-18T24:00+09:00").is_err());
    assert!(decode("2025-12-18T10:60+09:00").is_err());
    assert!(decode("2025-12-18T10:00+24:00").is_err());
}
