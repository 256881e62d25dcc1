use chrono::Utc;
use epd_photoframe_server::time::{DateTime, TimeDelta, MAX_SECS, MIN_SECS, NANOS_PER_SEC};

#[test]
fn range_of_instants() {
    let min = chrono::DateTime::<Utc>::MIN_UTC;
    let max = chrono::DateTime::<Utc>::MAX_UTC;
    assert_eq!(min.timestamp(), MIN_SECS);
    assert_eq!(max.timestamp(), MAX_SECS);
    assert_eq!(min.timestamp_subsec_nanos(), 0);
    assert_eq!(max.timestamp_subsec_nanos(), NANOS_PER_SEC - 1);
    assert!(DateTime::new(MIN_SECS, 0).is_some());
    assert!(DateTime::new(MIN_SECS - 1, 0).is_none());
    assert!(DateTime::new(MAX_SECS, 999_999_999).is_some());
    assert!(DateTime::new(MAX_SECS + 1, 0).is_none());
    assert!(DateTime::new(0, NANOS_PER_SEC).is_none());
    assert!(chrono::DateTime::from_timestamp(MAX_SECS, 999_999_999).is_some());
    assert!(chrono::DateTime::from_timestamp(MIN_SECS, 0).is_some());
    assert_eq!(DateTime::min_utc().timestamp(), MIN_SECS);
}

#[test]
fn arithmetic_agrees_with_calendar_arithmetic() {
    let instants = [(0, 0), (5, 999_999_999), (-7, 1), (1_777_000_000, 500_000_000)];
    let spans = [(0, 0), (1, 1), (-1, 999_999_999), (86_400, 0), (-3, 500_000_000)];
    for (s, n) in instants {
        let own = DateTime::new(s, n).unwrap();
        let other = chrono::DateTime::from_timestamp(s, n).unwrap();
        for (ds, dn) in spans {
            let d = chrono::Duration::new(ds, dn).unwrap();
            let td = TimeDelta::new(ds, dn).unwrap();
            let sum = other + d;
            let own_sum = own.plus(td);
            assert_eq!(own_sum.timestamp(), sum.timestamp());
            assert_eq!(own_sum.timestamp_subsec_nanos(), sum.timestamp_subsec_nanos());
            assert_eq!(own_sum.signed_duration_since(own), td);
            assert_eq!(td.num_seconds(), d.num_seconds());
            assert_eq!(td.subsec_nanos(), d.subsec_nanos());
        }
    }
}

#[test]
fn sums_out_of_range_do_not_exist() {
    let last = DateTime::new(MAX_SECS, 999_999_999).unwrap();
    assert_eq!(last.checked_add(TimeDelta::new(0, 1).unwrap()), None);
    assert_eq!(DateTime::min_utc().checked_add(TimeDelta::new(-1, 0).unwrap()), None);
    assert_eq!(last.checked_add(TimeDelta::zero()), Some(last));
}

#[test]
fn order_of_instants() {
    let a = DateTime::new(3, 5).unwrap();
    let b = DateTime::new(3, 6).unwrap();
    assert!(a.is_before(b) && !b.is_before(a) && !a.is_before(a));
    assert_eq!(a.max(b), b);
    assert_eq!(a.min(b), a);
    assert!(a < b);
}

#[test]
fn range_of_spans() {
    assert!(TimeDelta::new(9_223_372_036_854_775, 807_000_000).is_some());
    assert!(TimeDelta::new(9_223_372_036_854_775, 807_000_001).is_none());
    assert!(TimeDelta::new(-9_223_372_036_854_776, 193_000_000).is_some());
    assert!(TimeDelta::new(-9_223_372_036_854_776, 192_999_999).is_none());
    assert!(TimeDelta::new(i64::MIN, 0).is_none());
    assert!(TimeDelta::from_std(u64::MAX, 0).is_none());
    assert_eq!(TimeDelta::from_std(7, 9), TimeDelta::new(7, 9));
}
