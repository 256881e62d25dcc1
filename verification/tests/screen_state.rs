use std::collections::HashSet;

use chrono::{Duration, TimeZone, Utc};
use chrono_tz::Tz;
use epd_photoframe_server::config::ScreenConfig;
use epd_photoframe_server::locale::default_locale;
use epd_photoframe_server::schedule::{Rotate, Timezone};
use epd_photoframe_server::screen_state::{
    calculate_error_refresh_time, resolve_index, seconds_until, ScreenState,
};
use epd_photoframe_server::time::{DateTime, TimeDelta};
use rand::seq::SliceRandom;
use rand::SeedableRng;

fn tz() -> Tz {
    "Europe/Amsterdam".parse().unwrap()
}

fn own(t: chrono::DateTime<Utc>) -> DateTime {
    DateTime::new(t.timestamp(), t.timestamp_subsec_nanos()).unwrap()
}

fn span(d: Duration) -> TimeDelta {
    TimeDelta::new(d.num_seconds(), d.subsec_nanos() as u32).unwrap()
}

fn local(y: i32, mo: u32, d: u32, h: u32) -> DateTime {
    own(tz().with_ymd_and_hms(y, mo, d, h, 0, 0).unwrap().with_timezone(&Utc))
}

fn config(cron: Option<&str>) -> ScreenConfig {
    let mut cfg = ScreenConfig::new(
        "x".to_string(),
        800,
        480,
        "https://example.com".to_string(),
        Timezone::parse("Europe/Amsterdam").unwrap(),
        default_locale().unwrap(),
    );
    cfg.rotate = cron.map(|c| Rotate::from_entry("cron", c).unwrap());
    cfg
}

#[test]
fn resolve_index_is_a_permutation() {
    let seen: HashSet<usize> = (0..10).map(|c| resolve_index(42, c, 10)).collect();
    assert_eq!(seen.len(), 10);
}

#[test]
fn resolve_index_wraps_negative_cursor() {
    assert_eq!(resolve_index(42, -1, 5), resolve_index(42, 4, 5));
}

#[test]
fn next_scheduled_rotation_returns_cached_future_trigger() {
    let cfg = config(Some("0 0 2 * * *"));
    let start = local(2026, 4, 20, 12);
    let mut s = ScreenState::new(&cfg);
    s.maybe_rotate(start);
    let expected = local(2026, 4, 21, 2);
    assert_eq!(s.next_scheduled_rotation(start), Some(expected));
}

#[test]
fn next_scheduled_rotation_returns_now_when_uninitialised() {
    let cfg = config(Some("0 0 2 * * *"));
    let s = ScreenState::new(&cfg);
    let now = own(Utc::now());
    assert_eq!(s.next_scheduled_rotation(now), Some(now));
}

#[test]
fn next_scheduled_rotation_none_after_first_rotate_without_schedule() {
    let cfg = config(None);
    let mut s = ScreenState::new(&cfg);
    s.maybe_rotate(own(Utc::now()));
    assert!(s.next_scheduled_rotation(own(Utc::now())).is_none());
}

#[test]
fn first_call_always_rotates() {
    let cfg = config(Some("0 0 2 * * *"));
    let mut s = ScreenState::new(&cfg);
    assert_eq!(s.seed(), 0);
    assert_eq!(s.next_rotation(), Some(DateTime::min_utc()));
    let rotated = s.maybe_rotate(own(Utc::now()));
    assert!(rotated);
    assert_ne!(s.seed(), 0);
    assert!(s.next_rotation().is_some_and(|t| t > own(Utc::now())));
}

#[test]
fn first_call_rotates_even_without_schedule() {
    let cfg = config(None);
    let mut s = ScreenState::new(&cfg);
    let rotated = s.maybe_rotate(own(Utc::now()));
    assert!(rotated);
    assert_eq!(s.next_rotation(), None);
}

#[test]
fn cron_rotate_fires_after_next() {
    let cfg = config(Some("0 0 2 * * *"));
    let start = local(2026, 4, 20, 12);
    let mut s = ScreenState::new(&cfg);
    s.maybe_rotate(start);
    let seed_before = s.seed();
    s.advance(3);
    let later = local(2026, 4, 21, 3);
    let rotated = s.maybe_rotate(later);
    assert!(rotated);
    assert_eq!(s.cursor(), 0);
    assert_ne!(s.seed(), seed_before);
    assert!(s.next_rotation().is_some_and(|t| t > later));
}

#[test]
fn cron_rotate_noop_before_next() {
    let cfg = config(Some("0 0 2 * * *"));
    let start = local(2026, 4, 21, 3);
    let mut s = ScreenState::new(&cfg);
    s.maybe_rotate(start);
    s.advance(5);
    let snap = (s.seed(), s.cursor(), s.next_rotation());
    let now = start.plus(span(Duration::hours(10)));
    let rotated = s.maybe_rotate(now);
    assert!(!rotated);
    assert_eq!((s.seed(), s.cursor(), s.next_rotation()), snap);
}

#[test]
fn no_schedule_means_no_rotation_after_init() {
    let cfg = config(None);
    let mut s = ScreenState::new(&cfg);
    s.maybe_rotate(own(Utc::now()));
    s.advance(7);
    let snap = (s.seed(), s.cursor(), s.next_rotation());
    let rotated = s.maybe_rotate(own(Utc::now() + Duration::days(365)));
    assert!(!rotated);
    assert_eq!((s.seed(), s.cursor(), s.next_rotation()), snap);
}

#[test]
fn seconds_until_rounds_up() {
    let now = own(Utc::now());
    let ms = |n: i64| now.plus(TimeDelta::new(n / 1000, (n % 1000) as u32 * 1_000_000).unwrap());
    assert_eq!(seconds_until(now, now), 0);
    assert_eq!(seconds_until(ms(1), now), 1);
    assert_eq!(seconds_until(ms(1000), now), 1);
    assert_eq!(seconds_until(ms(1001), now), 2);
    assert_eq!(seconds_until(now.plus(TimeDelta::new(-5, 0).unwrap()), now), 0);
}

#[test]
fn calculate_error_refresh_time_no_schedule_uses_base() {
    let now = own(Utc::now());
    let t = calculate_error_refresh_time(span(Duration::hours(1)), TimeDelta::zero(), None, now);
    assert_eq!(t, now.plus(span(Duration::hours(1))));
}

#[test]
fn calculate_error_refresh_time_clamps_to_wake_target_when_sooner() {
    let now = own(Utc::now());
    let next_rotation = now.plus(span(Duration::minutes(10)));
    let t = calculate_error_refresh_time(
        span(Duration::hours(1)),
        span(Duration::minutes(5)),
        Some(next_rotation),
        now,
    );
    assert_eq!(t, next_rotation.plus(span(Duration::minutes(5))));
}

#[test]
fn calculate_error_refresh_time_uses_base_when_wake_target_is_later() {
    let now = own(Utc::now());
    let next_rotation = now.plus(span(Duration::hours(6)));
    let t = calculate_error_refresh_time(
        span(Duration::hours(1)),
        TimeDelta::zero(),
        Some(next_rotation),
        now,
    );
    assert_eq!(t, now.plus(span(Duration::hours(1))));
}

#[test]
fn shuffle_is_that_of_the_seeded_generator() {
    let mut order: Vec<usize> = (0..20).collect();
    order.shuffle(&mut rand::rngs::StdRng::seed_from_u64(7));
    let ours: Vec<usize> = (0..20).map(|c| resolve_index(7, c, 20)).collect();
    assert_eq!(ours, order);
    assert_ne!(ours, (0..20).collect::<Vec<usize>>());
}

#[test]
fn a_round_shows_each_photo_once_and_repeats() {
    for start in [-13i64, 0, 5] {
        let round: Vec<usize> = (start..start + 6).map(|c| resolve_index(3, c, 6)).collect();
        let mut sorted = round.clone();
        sorted.sort();
        assert_eq!(sorted, vec![0, 1, 2, 3, 4, 5]);
        let again: Vec<usize> = (start + 6..start + 12).map(|c| resolve_index(3, c, 6)).collect();
        assert_eq!(round, again);
    }
    assert_eq!(resolve_index(1, i64::MIN, 1), 0);
}

fn rotated_state(seed: u64) -> ScreenState {
    let mut s = ScreenState::new(&config(None));
    s.rotate_to(seed, None);
    s
}

#[test]
fn plain_polling_keeps_the_photo() {
    let mut s = rotated_state(5);
    let now = own(Utc::now());
    let first = s.pick_index(now, 0, false, &[3], 8);
    assert_eq!(first, resolve_index(5, 0, 8));
    assert_eq!(s.pick_index(now, 0, false, &[3], 8), first);
    assert_eq!(s.cursor(), 0);
}

#[test]
fn steps_move_through_the_album_and_back() {
    let mut s = rotated_state(5);
    let now = own(Utc::now());
    let first = s.pick_index(now, 0, false, &[], 8);
    assert_eq!(s.pick_index(now, 1, false, &[], 8), resolve_index(5, 1, 8));
    assert_eq!(s.pick_index(now, -1, false, &[], 8), first);
    assert_eq!(s.pick_index(now, -1, false, &[], 8), resolve_index(5, 7, 8));
}

#[test]
fn actions_snap_to_a_new_photo_and_stay_there() {
    for wanted in 0..8usize {
        let mut s = rotated_state(5);
        let now = own(Utc::now());
        assert_eq!(s.pick_index(now, 0, true, &[wanted], 8), wanted);
        let place = s.cursor();
        assert!((0..8).contains(&place));
        assert_eq!(s.pick_index(now, 0, false, &[], 8), wanted);
        assert_eq!(s.pick_index(now, 0, true, &[wanted], 8), wanted);
        assert_eq!(s.cursor(), place);
    }
}

#[test]
fn snapping_takes_the_nearest_new_photo() {
    let mut s = rotated_state(5);
    let new = [resolve_index(5, 3, 8), resolve_index(5, 6, 8)];
    assert_eq!(s.pick_index(own(Utc::now()), 1, false, &new, 8), new[0]);
    assert_eq!(s.cursor(), 3);
    let mut s = rotated_state(5);
    s.advance(4);
    s.snap(&new, 8);
    assert_eq!(s.cursor(), 6);
    s.snap(&[99], 8);
    assert_eq!(s.cursor(), 6);
}

#[test]
fn a_rotation_snaps_as_well() {
    let mut s = ScreenState::new(&config(None));
    assert_eq!(s.pick_index(own(Utc::now()), 0, false, &[2], 9), 2);
}

#[test]
fn waiting_for_the_seconds_until_reaches_the_target() {
    let now = DateTime::new(100, 500_000_000).unwrap();
    for (secs, nanos) in [(100, 500_000_001), (101, 499_999_999), (101, 500_000_000), (250, 0)] {
        let target = DateTime::new(secs, nanos).unwrap();
        let wait = seconds_until(target, now) as i64;
        let arrival = now.plus(TimeDelta::new(wait, 0).unwrap());
        assert!(!arrival.is_before(target));
        let early = now.plus(TimeDelta::new(wait - 1, 0).unwrap());
        assert!(early.is_before(target));
    }
}
