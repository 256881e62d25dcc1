use epd_photoframe_server::color::ColorConfig;
use epd_photoframe_server::config::{
    BatteryIndicatorConfig, BatteryStyle, BatteryThreshold, HeaderLayout, InfoboxConfig, Position,
    ScreenConfig, Units, WeatherLayout,
};
use epd_photoframe_server::device::SensorState;
use epd_photoframe_server::locale::{default_locale, IsoDate};
use epd_photoframe_server::overlays::{
    build_overlays, effective_fg, header_lines, intersect_mask, position_to_flex, Anchor, BatteryIndicator, Layer,
    OverlayKind, ReadyBatteryIndicator,
};
use epd_photoframe_server::schedule::Timezone;

fn cfg(style: BatteryStyle) -> BatteryIndicatorConfig {
    BatteryIndicatorConfig {
        position: Position::TopLeft,
        foreground: ColorConfig::rgb(255, 255, 255),
        empty_color: ColorConfig::rgba(0, 0, 0, 200),
        style,
        thresholds: vec![],
    }
}

fn ready(style: BatteryStyle, pct: u8) -> ReadyBatteryIndicator {
    let sensors = SensorState { battery_pct: Some(pct), ..SensorState::default() };
    BatteryIndicator::new(cfg(style)).preprocess(&sensors).unwrap()
}

const FG: ColorConfig = ColorConfig { red: 255, green: 255, blue: 255, alpha: 255 };
const EMPTY: ColorConfig = ColorConfig { red: 0, green: 0, blue: 0, alpha: 200 };

#[test]
fn threshold_picks_lowest_matching() {
    let red = ColorConfig::rgb(255, 0, 0);
    let yellow = ColorConfig::rgb(255, 192, 0);
    let white = ColorConfig::rgb(255, 255, 255);
    let mut c = cfg(BatteryStyle::Icon);
    c.foreground = white;
    c.thresholds = vec![
        BatteryThreshold { below: 20, color: yellow },
        BatteryThreshold { below: 5, color: red },
    ];
    assert_eq!(effective_fg(&c, 100), white);
    assert_eq!(effective_fg(&c, 50), white);
    assert_eq!(effective_fg(&c, 20), white); // not below 20
    assert_eq!(effective_fg(&c, 19), yellow);
    assert_eq!(effective_fg(&c, 5), yellow); // not below 5
    assert_eq!(effective_fg(&c, 4), red);
    assert_eq!(effective_fg(&c, 0), red);
}

#[test]
fn threshold_order_is_ignored() {
    let a = BatteryThreshold { below: 20, color: ColorConfig::rgb(1, 1, 1) };
    let b = BatteryThreshold { below: 5, color: ColorConfig::rgb(2, 2, 2) };
    let mut one = cfg(BatteryStyle::Icon);
    one.thresholds = vec![a, b];
    let mut two = cfg(BatteryStyle::Icon);
    two.thresholds = vec![b, a];
    for pct in 0..=100 {
        assert_eq!(effective_fg(&one, pct), effective_fg(&two, pct));
    }
    let c = BatteryThreshold { below: 5, color: ColorConfig::rgb(3, 3, 3) };
    two.thresholds = vec![b, c, a];
    assert_eq!(effective_fg(&two, 3), b.color);
}

#[test]
fn icon_has_body_cap_and_level() {
    let r = ready(BatteryStyle::Icon, 75);
    assert_eq!(r.layers, vec![Layer::Body(EMPTY), Layer::Cap(EMPTY), Layer::Level(FG)]);
    assert_eq!((r.pct, r.text.as_str()), (75, ""));
}

#[test]
fn empty_battery_has_no_level() {
    let r = ready(BatteryStyle::Both, 0);
    assert_eq!(r.layers, vec![Layer::Body(EMPTY), Layer::Cap(EMPTY), Layer::BodyText(FG)]);
    assert_eq!(r.text, "0");
}

#[test]
fn full_battery_has_a_highlighted_cap() {
    let r = ready(BatteryStyle::Both, 100);
    assert_eq!(
        r.layers,
        vec![
            Layer::Body(EMPTY),
            Layer::Cap(FG),
            Layer::Level(FG),
            Layer::BodyText(FG),
            Layer::LevelText(EMPTY)
        ]
    );
}

#[test]
fn text_style_has_a_label_only() {
    let r = ready(BatteryStyle::Text, 50);
    assert_eq!(r.layers, vec![Layer::Label(FG)]);
    assert_eq!(r.text, "50%");
}

#[test]
fn transparent_parts_are_left_out() {
    let mut c = cfg(BatteryStyle::Icon);
    c.empty_color = ColorConfig::rgba(0, 0, 0, 0);
    let sensors = SensorState { battery_pct: Some(40), ..SensorState::default() };
    let r = BatteryIndicator::new(c).preprocess(&sensors).unwrap();
    assert_eq!(r.layers, vec![Layer::Level(FG)]);
}

#[test]
fn clamps_above_100() {
    let a = ready(BatteryStyle::Both, 250);
    let b = ready(BatteryStyle::Both, 100);
    assert_eq!((a.pct, a.layers, a.text), (b.pct, b.layers, b.text));
}

#[test]
fn no_battery_data_is_a_noop() {
    let b = BatteryIndicator::new(cfg(BatteryStyle::Both));
    assert!(b.preprocess(&SensorState::default()).is_none());
}

#[test]
fn masks_intersect() {
    let mut d = vec![255, 255, 0, 128, 100, 9];
    intersect_mask(&mut d, &vec![255, 0, 255, 128, 51]);
    assert_eq!(d, vec![255, 0, 0, 64, 20, 9]);
}

#[test]
fn positions_have_their_own_anchors() {
    let all = [
        Position::TopLeft,
        Position::Top,
        Position::TopRight,
        Position::Left,
        Position::Right,
        Position::BottomLeft,
        Position::Bottom,
        Position::BottomRight,
    ];
    let anchors: Vec<(Anchor, Anchor)> = all.iter().map(|p| position_to_flex(*p)).collect();
    assert_eq!(anchors[0], (Anchor::Start, Anchor::Start));
    assert_eq!(anchors[1], (Anchor::Center, Anchor::Start));
    assert_eq!(anchors[4], (Anchor::End, Anchor::Center));
    assert_eq!(anchors[7], (Anchor::End, Anchor::End));
    for i in 0..8 {
        assert_ne!(anchors[i], (Anchor::Center, Anchor::Center));
        for j in 0..i {
            assert_ne!(anchors[i], anchors[j]);
        }
    }
}

#[test]
fn battery_is_drawn_over_the_infobox() {
    let mut s = ScreenConfig::new(
        "x".to_string(),
        800,
        480,
        "https://example.com".to_string(),
        Timezone::parse("UTC").unwrap(),
        default_locale().unwrap(),
    );
    assert!(build_overlays(&s).is_empty());
    s.battery_indicator = Some(cfg(BatteryStyle::Both));
    assert_eq!(build_overlays(&s), vec![OverlayKind::BatteryIndicator]);
    s.infobox = Some(InfoboxConfig {
        position: Position::BottomLeft,
        background: EMPTY,
        foreground: FG,
        latitude: "52.4".to_string(),
        longitude: "4.9".to_string(),
        units: Units::Metric,
        header_layout: HeaderLayout::DayDate,
        weather_layout: WeatherLayout::One,
    });
    assert_eq!(build_overlays(&s), vec![OverlayKind::Infobox, OverlayKind::BatteryIndicator]);
}

#[test]
fn infobox_header_follows_its_layout() {
    let locale = default_locale().unwrap();
    let date = IsoDate::new(2026, 5, 5).unwrap();
    assert!(header_lines(HeaderLayout::Nothing, &locale, &date).is_empty());
    assert_eq!(header_lines(HeaderLayout::Date, &locale, &date), vec!["5 May 2026"]);
    assert_eq!(header_lines(HeaderLayout::Day, &locale, &date), vec!["Tuesday"]);
    assert_eq!(header_lines(HeaderLayout::DayDate, &locale, &date), vec!["Tuesday", "5 May 2026"]);
}
