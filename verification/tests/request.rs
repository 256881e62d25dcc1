use epd_photoframe_server::background::{Canvas, RgbImage};
use epd_photoframe_server::color::{BackgroundMethod, ColorConfig};
use epd_photoframe_server::config::{Publish, PublishSet, ScreenConfig};
use epd_photoframe_server::device::{PowerState, SensorState};
use epd_photoframe_server::locale::default_locale;
use epd_photoframe_server::mqtt::Publisher;
use epd_photoframe_server::request::{
    answer, compose, error_response_with_refresh, find_screen, is_degraded, pick_photo,
    refresh_target, reply_without_screen, set_refresh_header, Action, Body, Command, EncodePngError, Event, Exchange,
    Reply, ScreenQuery, Stage,
};
use epd_photoframe_server::schedule::{Rotate, Timezone};
use epd_photoframe_server::screen_state::{resolve_index, ScreenState};
use epd_photoframe_server::time::{DateTime, TimeDelta, MAX_SECS};

fn screen(name: &str) -> ScreenConfig {
    ScreenConfig::new(
        name.to_string(),
        8,
        4,
        "https://example.com".to_string(),
        Timezone::parse("UTC").unwrap(),
        default_locale().unwrap(),
    )
}

fn query(action: Option<Action>) -> ScreenQuery {
    ScreenQuery {
        action,
        battery_mv: Some(3700),
        battery_pct: Some(42),
        temperature_c: Some("20.5".to_string()),
        humidity_pct: None,
        power: Some(PowerState::Full),
    }
}

fn at(secs: i64) -> DateTime {
    DateTime::new(secs, 0).unwrap()
}

fn minutes(n: i64) -> TimeDelta {
    TimeDelta::new(n * 60, 0).unwrap()
}

fn photo(width: u32, height: u32) -> RgbImage {
    RgbImage::from_raw(width, height, vec![50; (width * height * 3) as usize]).unwrap()
}

fn text(r: &Reply) -> &str {
    match &r.body {
        Body::Text(t) => t,
        Body::Png(_) => panic!("expected a text"),
    }
}

#[test]
fn every_action_drops_the_cached_album() {
    assert!(!query(None).refresh_album());
    assert!(query(Some(Action::Refresh)).refresh_album());
    assert!(query(Some(Action::Next)).refresh_album());
    assert!(query(Some(Action::Previous)).refresh_album());
}

#[test]
fn actions_step_through_the_album() {
    assert_eq!(query(None).cursor_advance(), 0);
    assert_eq!(query(Some(Action::Refresh)).cursor_advance(), 0);
    assert_eq!(query(Some(Action::Next)).cursor_advance(), 1);
    assert_eq!(query(Some(Action::Previous)).cursor_advance(), -1);
}

#[test]
fn readings_come_with_the_query() {
    let s = query(None).sensors();
    assert_eq!((s.battery_mv, s.battery_pct, s.power), (Some(3700), Some(42), Some(PowerState::Full)));
    assert_eq!((s.temperature_c, s.humidity_pct), (Some("20.5".to_string()), None));
}

#[test]
fn screens_are_found_by_name() {
    let screens = vec![screen("a"), screen("b"), screen("a")];
    assert!(matches!(find_screen(&screens, "b", "/screen/b"), Ok(1)));
    assert!(matches!(find_screen(&screens, "a", "/screen/a"), Ok(2)));
    let reply = find_screen(&screens, "c", "/screen/c").unwrap_err();
    assert_eq!(reply.status, 404);
    assert_eq!(text(&reply), "screen `c` not found");
    assert_eq!(reply.refresh.unwrap(), "3600; url=/screen/c");
}

#[test]
fn bad_requests_are_answered() {
    let r = reply_without_screen(400, "bad query".to_string(), "/screen/x");
    assert_eq!((r.status, text(&r)), (400, "bad query"));
    assert_eq!(r.refresh.unwrap(), "3600; url=/screen/x");
}

#[test]
fn picking_a_photo_tells_the_next_rotation() {
    let mut cfg = screen("x");
    cfg.rotate = Some(Rotate::from_entry("cron", "0 0 2 * * *").unwrap());
    let mut state = ScreenState::new(&cfg);
    let now = at(1_777_000_000);
    let (first, next) = pick_photo(&mut state, &query(None), now, &[], 7);
    assert_eq!(first, resolve_index(state.seed(), 0, 7));
    assert_eq!(next, state.next_rotation());
    assert_eq!(next, Some(at(1_777_082_400)));
    let (second, again) = pick_photo(&mut state, &query(Some(Action::Next)), now, &[], 7);
    assert_eq!(second, resolve_index(state.seed(), 1, 7));
    assert_eq!(again, next);
    let (back, _) = pick_photo(&mut state, &query(Some(Action::Previous)), now, &[], 7);
    assert_eq!(back, first);
    let (fresh, _) = pick_photo(&mut state, &query(Some(Action::Refresh)), now, &[4], 7);
    assert_eq!(fresh, 4);
}

#[test]
fn photo_is_composed() {
    let c = compose(Ok(photo(4, 4)), &screen("x")).map_err(|_| ()).unwrap();
    assert!(c.failure.is_none());
    assert_eq!(c.canvas.pixel(0, 0), Some((255, 255, 255, 255)));
    assert_eq!(c.canvas.pixel(2, 0), Some((50, 50, 50, 255)));
}

#[test]
fn failures_leave_room_for_a_text() {
    let mut cfg = screen("x");
    cfg.background = BackgroundMethod::Solid(ColorConfig::rgb(1, 2, 3));
    let c = compose(Err("no album".to_string()), &cfg).map_err(|_| ()).unwrap();
    let f = c.failure.unwrap();
    assert_eq!(f.detail, "no album");
    assert_eq!(f.text, ColorConfig::rgb(254, 253, 252));
    assert_eq!(c.canvas.pixel(7, 3), Some((1, 2, 3, 255)));
    let c = compose(Ok(photo(9, 4)), &cfg).map_err(|_| ()).unwrap();
    assert_eq!(
        c.failure.unwrap().detail,
        "returned image 9×4 is larger than requested 8×4"
    );
}

#[test]
fn screens_without_pixels_fail_for_good() {
    let mut cfg = screen("x");
    cfg.width = 0;
    for fetched in [Ok(photo(0, 0)), Err("x".to_string())] {
        let e = compose(fetched, &cfg).map(|_| ()).unwrap_err();
        assert_eq!(e, "placeholder failed: failed to allocate 0x4 pixmap");
    }
}

#[test]
fn missing_parts_degrade() {
    assert!(!is_degraded(false, &vec![]));
    assert!(!is_degraded(false, &vec![false, false]));
    assert!(is_degraded(false, &vec![false, true]));
    assert!(is_degraded(true, &vec![false]));
}

#[test]
fn complete_pictures_wait_for_the_rotation() {
    let mut cfg = screen("x");
    cfg.wake_delay = minutes(5);
    let now = at(1000);
    assert_eq!(refresh_target(false, &cfg, Some(at(5000)), now), Some(at(5300)));
    assert_eq!(refresh_target(false, &cfg, None, now), None);
    assert_eq!(refresh_target(true, &cfg, None, now), Some(at(4600)));
    assert_eq!(refresh_target(true, &cfg, Some(at(2000)), now), Some(at(2300)));
    assert_eq!(refresh_target(true, &cfg, Some(at(9000)), now), Some(at(4600)));
}

#[test]
fn refresh_header_holds_seconds_and_path() {
    let now = DateTime::new(10, 1).unwrap();
    assert_eq!(set_refresh_header(at(20), now, "/screen/x").unwrap(), "10; url=/screen/x");
    assert_eq!(set_refresh_header(at(5), now, "/screen/x").unwrap(), "0; url=/screen/x");
    assert_eq!(set_refresh_header(at(20), now, "/a\nb"), None);
    for n in 0..=300u32 {
        let c = char::from_u32(n).unwrap();
        let path = format!("/{c}");
        let header = axum::http::HeaderValue::from_str(&path);
        assert_eq!(set_refresh_header(at(20), now, &path).is_some(), header.is_ok(), "{n}");
        assert_eq!(header.is_ok(), n == 9 || (n >= 32 && n != 127));
    }
}

#[test]
fn hard_failures_are_answered() {
    let cfg = screen("x");
    let r = error_response_with_refresh("boom".to_string(), &cfg, None, at(0), "/screen/x");
    assert_eq!(r.status, 500);
    assert_eq!(text(&r), "boom");
    assert_eq!(r.refresh.unwrap(), "3600; url=/screen/x");
    let e = Err(EncodePngError::Pipeline("bad".to_string()));
    let r = answer(e, false, &cfg, Some(at(60)), at(0), "/p");
    assert_eq!((r.status, text(&r)), (500, "dither failed: bad"));
    assert_eq!(r.refresh.unwrap(), "60; url=/p");
    let e = Err(EncodePngError::Task("bad".to_string()));
    let r = answer(e, false, &cfg, None, at(0), "/p");
    assert_eq!((r.status, text(&r)), (500, "dither task panicked: bad"));
    assert_eq!(r.refresh.unwrap(), "3600; url=/p");
}

#[test]
fn pictures_are_answered() {
    let cfg = screen("x");
    let r = answer(Ok(vec![1, 2]), false, &cfg, Some(at(60)), at(0), "/p");
    assert_eq!(r.status, 200);
    assert!(matches!(&r.body, Body::Png(b) if b == &vec![1, 2]));
    assert_eq!(r.refresh.unwrap(), "60; url=/p");
    let r = answer(Ok(vec![]), false, &cfg, None, at(0), "/p");
    assert_eq!((r.status, r.refresh.unwrap().as_str()), (200, "3600; url=/p"));
    let r = answer(Ok(vec![]), true, &cfg, None, at(0), "/p");
    assert_eq!((r.status, r.refresh.unwrap().as_str()), (200, "3600; url=/p"));
}

fn at_stage(stage: Stage, now: DateTime, next: Option<DateTime>, degraded: bool) -> Exchange {
    Exchange { stage, now, next_rotation: next, degraded }
}

#[test]
fn a_step_needs_the_moments_that_it_uses() {
    let mut cfg = screen("x");
    let done = || Event::Encoded(Ok(vec![]));
    let last = at(MAX_SECS);
    assert!(at_stage(Stage::Encoding, at(0), None, false).can_step(&done(), &cfg));
    assert!(at_stage(Stage::Encoding, last, None, false).can_step(&done(), &cfg));
    assert!(!at_stage(Stage::Encoding, last, None, true).can_step(&done(), &cfg));
    assert_eq!(answer(Ok(vec![]), false, &cfg, None, last, "/p").refresh.unwrap(), "3600; url=/p");
    assert!(at_stage(Stage::Encoding, last, Some(last), false).can_step(&done(), &cfg));
    assert!(!at_stage(Stage::Encoding, last, Some(last), true).can_step(&done(), &cfg));
    let failed = Event::Encoded(Err(EncodePngError::Task("x".to_string())));
    assert!(!at_stage(Stage::Encoding, last, Some(last), false).can_step(&failed, &cfg));
    let fetched = || Event::Fetched(Err("x".to_string()));
    assert!(at_stage(Stage::Fetching, last, None, false).can_step(&fetched(), &cfg));
    cfg.wake_delay = minutes(1);
    assert!(!at_stage(Stage::Encoding, at(0), Some(last), false).can_step(&done(), &cfg));
    cfg.width = 0;
    assert!(!at_stage(Stage::Fetching, last, None, false).can_step(&fetched(), &cfg));
    assert!(at_stage(Stage::Fetching, at(0), None, false).can_step(&fetched(), &cfg));
}

#[test]
fn a_step_needs_the_right_stage_and_room() {
    let mut cfg = screen("x");
    let x = Exchange::new(at(0));
    assert!(x.can_step(&Event::Picked(None), &cfg));
    assert!(!x.can_step(&Event::Drawn(vec![]), &cfg));
    assert!(!x.can_step(&Event::Encoded(Ok(vec![])), &cfg));
    assert!(at_stage(Stage::Drawing, at(0), None, false).can_step(&Event::Drawn(vec![]), &cfg));
    cfg.background = BackgroundMethod::Blur;
    assert!(x.can_step(&Event::Fetched(Ok(photo(1, 1))), &cfg));
    cfg.width = 8_388_609;
    assert!(!x.can_step(&Event::Fetched(Ok(photo(1, 1))), &cfg));
    assert!(x.can_step(&Event::Fetched(Err("x".to_string())), &cfg));
    cfg.width = u32::MAX;
    cfg.height = u32::MAX;
    assert!(x.can_step(&Event::Fetched(Ok(photo(1, 1))), &cfg));
}

#[test]
fn device_that_waits_finds_the_rotation_due() {
    let mut cfg = screen("x");
    cfg.rotate = Some(Rotate::from_entry("cron", "0 0 2 * * *").unwrap());
    let mut state = ScreenState::new(&cfg);
    let now = DateTime::new(1_777_000_000, 7).unwrap();
    let (_, next) = pick_photo(&mut state, &query(None), now, &[], 3);
    let r = answer(Ok(vec![]), false, &cfg, next, now, "/p");
    let header = r.refresh.unwrap();
    let secs: i64 = header.split(';').next().unwrap().parse().unwrap();
    let later = now.plus(TimeDelta::new(secs, 0).unwrap());
    assert!(state.maybe_rotate(later));
}

fn canvas_of(c: Command) -> Canvas {
    match c {
        Command::Draw(c) => c.canvas,
        _ => panic!("expected a picture"),
    }
}

fn reply_of(c: Command) -> Reply {
    match c {
        Command::Send(_, r) => r,
        _ => panic!("expected a reply"),
    }
}

#[test]
fn course_of_a_request() {
    let mut cfg = screen("living-room");
    cfg.publish = PublishSet::from_entries(&vec![Publish::Battery]);
    let sensors = query(None).sensors();
    let publisher = Some(Publisher { state_prefix: "p".to_string() });
    let x = Exchange::new(at(100));
    assert_eq!(x.stage, Stage::Fetching);
    let (x, c) = x.step(Event::Picked(Some(at(700))), &cfg, &publisher, &sensors, "/s");
    assert!(matches!(c, Command::Wait));
    let (x, c) = x.step(Event::Fetched(Ok(photo(8, 4))), &cfg, &publisher, &sensors, "/s");
    assert_eq!((x.stage, x.degraded), (Stage::Drawing, false));
    assert_eq!(canvas_of(c).pixel(0, 0), Some((50, 50, 50, 255)));
    let (x, c) = x.step(Event::Drawn(vec![false]), &cfg, &publisher, &sensors, "/s");
    assert_eq!((x.stage, x.degraded), (Stage::Encoding, false));
    match c {
        Command::Encode(ms) => {
            let topics: Vec<&str> = ms.iter().map(|m| m.topic.as_str()).collect();
            assert_eq!(topics, vec!["p/living-room/battery_mv", "p/living-room/battery_pct"]);
        }
        _ => panic!("expected to encode"),
    }
    let (x, c) = x.step(Event::Encoded(Ok(vec![9])), &cfg, &publisher, &sensors, "/s");
    assert_eq!(x.stage, Stage::Replied);
    assert!(matches!(&c, Command::Send(ms, _) if ms.is_empty()));
    assert_eq!(reply_of(c).refresh.unwrap(), "600; url=/s");
}

#[test]
fn course_of_a_failing_request() {
    let cfg = screen("x");
    let sensors = SensorState::default();
    let x = Exchange::new(at(100));
    let (x, _) = x.step(Event::Fetched(Err("down".to_string())), &cfg, &None, &sensors, "/s");
    assert!(x.degraded);
    let (x, c) = x.step(Event::Drawn(vec![]), &cfg, &None, &sensors, "/s");
    assert!(matches!(c, Command::Encode(ms) if ms.is_empty()));
    let (_, c) = x.step(Event::Encoded(Ok(vec![])), &cfg, &None, &sensors, "/s");
    assert_eq!(reply_of(c).refresh.unwrap(), "3600; url=/s");
    let (x, _) = Exchange::new(at(100)).step(
        Event::Fetched(Ok(photo(1, 1))),
        &cfg,
        &None,
        &sensors,
        "/s",
    );
    let (x, _) = x.step(Event::Drawn(vec![false, true]), &cfg, &None, &sensors, "/s");
    assert!(x.degraded);
}

#[test]
fn course_of_a_hopeless_request() {
    let mut cfg = screen("x");
    cfg.height = 0;
    let publisher = Some(Publisher { state_prefix: "p".to_string() });
    let (x, c) = Exchange::new(at(100)).step(
        Event::Fetched(Err("down".to_string())),
        &cfg,
        &publisher,
        &SensorState::default(),
        "/s",
    );
    assert_eq!(x.stage, Stage::Replied);
    let r = match c {
        Command::Send(ms, r) => {
            let sent: Vec<(&str, &str)> =
                ms.iter().map(|m| (m.topic.as_str(), m.payload.as_str())).collect();
            assert_eq!(sent, vec![("p/x/last_seen", "1970-01-01T00:01:40+00:00")]);
            r
        }
        _ => panic!("expected a reply"),
    };
    assert_eq!(r.status, 500);
    assert_eq!(text(&r), "placeholder failed: failed to allocate 8x0 pixmap");
    assert_eq!(r.refresh.unwrap(), "3600; url=/s");
}
