use std::str::FromStr;

use chrono::TimeZone;
use epd_photoframe_server::locale::IsoDate;
use epd_photoframe_server::schedule::{listed_trigger, pick_trigger, Rotate, Timezone};
use epd_photoframe_server::time::DateTime;

/// Reads a schedule from a TOML table with one entry.
fn rotate(text: &str) -> Result<Rotate, String> {
    let table: toml::Table = toml::from_str(text).unwrap();
    let (key, value) = table.iter().next().unwrap();
    Rotate::from_entry(key, value.as_str().unwrap())
}

fn own(t: chrono::DateTime<chrono::Utc>) -> DateTime {
    DateTime::new(t.timestamp(), t.timestamp_subsec_nanos()).unwrap()
}

fn local(y: i32, mo: u32, d: u32, h: u32, mi: u32) -> DateTime {
    let tz: chrono_tz::Tz = "Europe/Amsterdam".parse().unwrap();
    own(tz.with_ymd_and_hms(y, mo, d, h, mi, 0).unwrap().with_timezone(&chrono::Utc))
}

fn amsterdam() -> Timezone {
    Timezone::parse("Europe/Amsterdam").unwrap()
}

#[test]
fn rotate_deserialises_cron_variant() {
    let r = rotate(r#"cron = "0 0 2,14 * * *""#).unwrap();
    assert!(matches!(r, Rotate::Cron(_)));
}

#[test]
fn rotate_deserialises_natural_variant() {
    let r = rotate(r#"natural = "at 2 AM and 2 PM""#).unwrap();
    assert!(matches!(r, Rotate::Natural(_)));
}

#[test]
fn rotate_rejects_unknown_key() {
    let r = rotate(r#"regex = "xyz""#);
    assert!(r.is_err());
    assert_eq!(r.unwrap_err(), "unknown variant `regex`, expected `cron` or `natural`");
}

#[test]
fn rotate_rejects_invalid_cron() {
    let r = rotate(r#"cron = "not a schedule""#);
    assert!(r.is_err());
    let e = cron::Schedule::from_str("not a schedule").unwrap_err();
    assert_eq!(r.unwrap_err(), format!("invalid cron `not a schedule`: {e}"));
}

#[test]
fn rotate_rejects_invalid_phrases() {
    let e = cron_lingo::Schedule::from_str("now and then").unwrap_err();
    assert_eq!(
        rotate(r#"natural = "now and then""#).unwrap_err(),
        format!("invalid natural-language schedule `now and then`: {e:?}")
    );
}

#[test]
fn time_zones_go_by_their_iana_names() {
    assert_eq!(amsterdam().name(), "Europe/Amsterdam");
    let e = chrono_tz::Tz::from_str("Mars/Olympus").unwrap_err();
    assert_eq!(
        Timezone::parse("Mars/Olympus").unwrap_err(),
        format!("invalid IANA timezone `Mars/Olympus`: {e}")
    );
    assert_eq!(
        Timezone::of_system("Mars/Olympus").unwrap_err(),
        format!("system timezone `Mars/Olympus` is not a known IANA name: {e}")
    );
    assert_eq!(Timezone::of_system("UTC").unwrap().name(), "UTC");
}

#[test]
fn cron_triggers_are_read_in_the_zone() {
    let r = rotate(r#"cron = "0 0 2,14 * * *""#).unwrap();
    let tz = amsterdam();
    assert_eq!(r.next_after(local(2026, 4, 20, 12, 0), &tz), Some(local(2026, 4, 20, 14, 0)));
    assert_eq!(r.next_after(local(2026, 4, 20, 14, 0), &tz), Some(local(2026, 4, 21, 2, 0)));
    assert_eq!(r.next_after(local(2026, 4, 20, 15, 0), &tz), Some(local(2026, 4, 21, 2, 0)));
    let utc = Timezone::parse("UTC").unwrap();
    assert_eq!(r.next_after(local(2026, 4, 20, 12, 0), &utc), Some(local(2026, 4, 20, 16, 0)));
}

#[test]
fn cron_triggers_run_out() {
    let r = rotate(r#"cron = "0 0 2 1 1 * 2020""#).unwrap();
    assert_eq!(r.next_after(local(2026, 4, 20, 12, 0), &amsterdam()), None);
}

#[test]
fn cron_triggers_come_strictly_later_in_a_repeated_hour() {
    let r = rotate(r#"cron = "0 30 2 * * *""#).unwrap();
    let start = DateTime::new(1_792_886_400, 0).unwrap();
    let mut t = start;
    for _ in 0..96 {
        if let Some(n) = r.next_after(t, &amsterdam()) {
            assert!(t.is_before(n));
        }
        t = DateTime::new(t.timestamp() + 900, 1).unwrap();
    }
}

#[test]
fn natural_schedules_count_from_the_clock() {
    let r = rotate(r#"natural = "at 2 AM and 2 PM""#).unwrap();
    let now = own(chrono::Utc::now());
    let next = r.next_after(now, &amsterdam()).unwrap();
    assert!(now.is_before(next));
    assert!(next.timestamp() - now.timestamp() <= 12 * 3600 + 1);
    assert_eq!(next.timestamp() % 3600, 0);
}

#[test]
fn natural_schedules_use_the_offset_of_the_zone() {
    let r = rotate(r#"natural = "at 2 AM""#).unwrap();
    let now = chrono::Utc::now();
    let zone: chrono_tz::Tz = "Asia/Tokyo".parse().unwrap();
    let next = r.next_after(own(now), &Timezone::parse("Asia/Tokyo").unwrap()).unwrap();
    let there = chrono::DateTime::from_timestamp(next.timestamp(), 0).unwrap().with_timezone(&zone);
    assert_eq!(there.format("%H:%M:%S").to_string(), "02:00:00");
}

#[test]
fn the_first_later_trigger_is_picked() {
    let t = |s: i64| DateTime::new(s, 0).unwrap();
    assert_eq!(pick_trigger(t(10), Some(t(11)), Some(t(12))), Some(t(11)));
    assert_eq!(pick_trigger(t(10), Some(t(10)), Some(t(12))), Some(t(12)));
    assert_eq!(pick_trigger(t(10), Some(t(9)), Some(t(10))), None);
    assert_eq!(pick_trigger(t(10), Some(t(9)), None), None);
    assert_eq!(pick_trigger(t(10), None, Some(t(12))), None);
}

#[test]
fn listed_triggers_are_instants() {
    assert_eq!(listed_trigger(Some((5, 7))), DateTime::new(5, 7));
    assert_eq!(listed_trigger(Some((i64::MAX, 0))), None);
    assert_eq!(listed_trigger(None), None);
}

#[test]
fn dates_are_those_of_the_zone() {
    let zone = amsterdam();
    assert_eq!(zone.local_date(local(2026, 5, 5, 0, 30)), IsoDate::new(2026, 5, 5));
    assert_eq!(zone.local_date(local(2026, 5, 5, 23, 59)), IsoDate::new(2026, 5, 5));
    let utc = Timezone::parse("UTC").unwrap();
    assert_eq!(utc.local_date(local(2026, 5, 5, 0, 30)), IsoDate::new(2026, 5, 4));
    let tokyo = Timezone::parse("Asia/Tokyo").unwrap();
    assert_eq!(tokyo.local_date(local(2024, 2, 28, 18, 0)), IsoDate::new(2024, 2, 29));
    assert_eq!(utc.local_date(DateTime::new(-1, 0).unwrap()), IsoDate::new(1969, 12, 31));
    assert_eq!(utc.local_date(DateTime::min_utc()), None);
}
