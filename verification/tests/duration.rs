use epd_photoframe_server::duration::{checked_span, is_readable, parse_duration, read_duration};
use epd_photoframe_server::time::TimeDelta;

fn secs(n: i64) -> TimeDelta {
    TimeDelta::new(n, 0).unwrap()
}

#[test]
fn durations() {
    assert_eq!(parse_duration("30s").unwrap(), secs(30));
    assert_eq!(parse_duration("15m").unwrap(), secs(900));
    assert_eq!(parse_duration("1h 30m").unwrap(), secs(5400));
    assert_eq!(parse_duration("1h").unwrap(), secs(3600));
    assert_eq!(parse_duration("1s 5ms").unwrap(), TimeDelta::new(1, 5_000_000).unwrap());
}

#[test]
fn bad_durations_are_rejected_in_the_parsers_words() {
    for text in ["", "x", "5", "5 parsecs", "99999999999999999999999y"] {
        assert!(is_readable(text));
        let e = humantime::parse_duration(text).unwrap_err();
        assert_eq!(parse_duration(text).unwrap_err(), e.to_string());
    }
}

#[test]
fn too_long_durations_are_rejected() {
    let text = "9223372036854776s";
    assert!(is_readable(text));
    assert_eq!(
        parse_duration(text).unwrap_err(),
        "duration `9223372036854776s` exceeds chrono representable range (max ~292M years)"
    );
    assert_eq!(parse_duration("9223372036854775s").unwrap(), secs(9_223_372_036_854_775));
    let limit = chrono::Duration::MAX;
    assert_eq!(limit.num_seconds(), 9_223_372_036_854_775);
    assert_eq!(limit.subsec_nanos(), 807_000_000);
    let top = checked_span("x", Ok((9_223_372_036_854_775, 807_000_000))).unwrap();
    assert_eq!(top.subsec_nanos(), 807_000_000);
    assert!(checked_span("x", Ok((9_223_372_036_854_775, 807_000_001))).is_err());
    assert!(checked_span("x", Ok((u64::MAX, 0))).is_err());
    assert_eq!(checked_span("x", Err("why".to_string())).unwrap_err(), "why");
}

#[test]
fn what_can_be_read() {
    assert!(is_readable("999999999999ms"));
    assert!(is_readable("1s 0000000000000000000001ms"));
    assert!(is_readable("100000000000.5s"));
    assert!(is_readable("18446744073709551615ns 18446744073709551615us"));
    assert!(is_readable("18446744073709551615s"));
    assert!(is_readable("18446744073709551615.5s"));
    assert!(is_readable("18446744073709551616s 1ms"));
    assert!(is_readable("18446744073709551615s 1s 5ms"));
    assert!(is_readable("18446744073709551615s 1001ms"));
    assert!(is_readable("600000000000y1ns"));
    assert!(is_readable("9 9 9 s 1 ms"));
    assert!(!is_readable("307445734561825860m15s1000ms"));
    assert!(!is_readable("18446744073709551615s 500ms 500ms"));
    assert!(!is_readable("18446744073709551615.5s 500ms"));
    assert!(!is_readable("3 0 7445734561825860 minutes 15secs 1000 millis"));
    for (unit, n) in [
        ("nanos", 1_000_000_000u64),
        ("nsec", 1_000_000_000),
        ("ns", 1_000_000_000),
        ("usec", 1_000_000),
        ("us", 1_000_000),
        ("µs", 1_000_000),
        ("millis", 1_000),
        ("msec", 1_000),
        ("ms", 1_000),
    ] {
        assert!(!is_readable(&format!("18446744073709551615s {n}{unit}")));
        assert!(is_readable(&format!("18446744073709551615s {}{unit}", n + 1)));
        assert!(is_readable(&format!("18446744073709551615s {}{unit}", n - 1)));
    }
}

#[test]
fn readable_durations_are_read_by_the_parser() {
    for text in [
        "18446744073709551614s 999ms",
        "18446744073709551614s 500ms 500ms",
        "307445734561825860m14s1000ms",
        "584542046090y 1000ms",
        "18446744073709551615.999999999s",
        "18446744073709551614.5s 500ms",
        "600000000000y1ns",
        "18446744073709551616s 1ms",
        "18446744073709551615s 1s 5ms",
        "18446744073709551615s 1001ms",
        "2months 1M 1week 3wks 2d 4hr 5min 6sec 7usec",
    ] {
        let span = humantime::parse_duration(text)
            .map(|d| (d.as_secs(), d.subsec_nanos()))
            .map_err(|e| e.to_string());
        assert_eq!(read_duration(text), Some(checked_span(text, span)), "{text}");
    }
    let overflow = humantime::DurationError::NumberOverflow.to_string();
    assert_eq!(read_duration("600000000000y1ns"), Some(Err(overflow)));
    assert_eq!(read_duration("1h 30m"), Some(Ok(secs(5400))));
}

#[test]
fn what_the_parser_cannot_take_is_not_handed_to_it() {
    assert_eq!(read_duration("307445734561825860m15s1000ms"), None);
}
