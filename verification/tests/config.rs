use epd_photoframe_server::color::{BackgroundMethod, ColorConfig};
use epd_photoframe_server::config::{
    default_palette_for, BatteryStyle, Config, DiffuseMethod, DitherConfig, FitMethod,
    HeaderLayout, MqttConfig, NoiseSource, Palette, Publish, PublishSet, ScreenConfig, Strategy,
    Units, WeatherLayout,
};
use epd_photoframe_server::locale::default_locale;
use epd_photoframe_server::schedule::Timezone;
use epd_photoframe_server::time::TimeDelta;

fn palette(name: &str) -> Palette {
    match name {
        "spectra6" => Palette::Spectra6,
        "grayscale4" => Palette::Grayscale4,
        "grayscale16" => Palette::Grayscale16,
        "epdoptimize" => Palette::Epdoptimize,
        other => Palette::Named(other.to_string()),
    }
}

fn strategy(name: &str) -> Strategy {
    match name.split_once(':') {
        Some(("gray-pure-spread", ratio)) => Strategy::GrayPureSpread(ratio.to_string()),
        Some(("gray-offset-blend", ratio)) => Strategy::GrayOffsetBlend(ratio.to_string()),
        _ if name == "grayscale" => Strategy::GrayOffsetBlend("0.0".to_string()),
        _ if name == "octahedron-closest" => Strategy::OctahedronClosest,
        _ => Strategy::Named(name.to_string()),
    }
}

/// Reads a dither section.
fn dither(text: &str) -> DitherConfig {
    let table: toml::Table = toml::from_str(text).unwrap();
    let entry = |key: &str| table.get(key).and_then(|v| v.as_str());
    DitherConfig::resolve(
        NoiseSource::InterleavedGradient,
        entry("strategy").map(strategy).unwrap_or(Strategy::OctahedronClosest),
        DiffuseMethod::FloydSteinberg,
        entry("dither_palette").map(palette),
        entry("output_palette").map(palette),
    )
}

#[test]
fn dither_palette_only_dither_specified_mirrors_to_output() {
    let cfg = dither(r#"dither_palette = "grayscale16""#);
    assert!(matches!(cfg.dither_palette, Palette::Grayscale16));
    assert!(matches!(cfg.output_palette, Palette::Grayscale16));
}

#[test]
fn dither_palette_only_output_specified_mirrors_to_dither() {
    let cfg = dither(r#"output_palette = "epdoptimize""#);
    assert!(matches!(cfg.dither_palette, Palette::Epdoptimize));
    assert!(matches!(cfg.output_palette, Palette::Epdoptimize));
}

#[test]
fn dither_palette_both_specified_kept_distinct() {
    let cfg = dither(
        r#"
            dither_palette = "epdoptimize"
            output_palette = "spectra6"
        "#,
    );
    assert!(matches!(cfg.dither_palette, Palette::Epdoptimize));
    assert!(matches!(cfg.output_palette, Palette::Spectra6));
}

#[test]
fn dither_palette_default_for_colour_strategy_is_spectra6() {
    let cfg = dither("");
    assert!(matches!(cfg.dither_palette, Palette::Spectra6));
    assert!(matches!(cfg.output_palette, Palette::Spectra6));
}

#[test]
fn dither_palette_default_for_gray_strategy_is_grayscale4() {
    let cfg = dither(r#"strategy = "grayscale""#);
    assert!(matches!(cfg.dither_palette, Palette::Grayscale4));
    assert!(matches!(cfg.output_palette, Palette::Grayscale4));
}

#[test]
fn dither_palette_default_for_gray_pure_spread_is_grayscale4() {
    let cfg = dither(r#"strategy = "gray-pure-spread:0.25""#);
    assert!(matches!(cfg.dither_palette, Palette::Grayscale4));
    assert!(matches!(cfg.output_palette, Palette::Grayscale4));
}

#[test]
fn default_dithering() {
    let cfg = DitherConfig::default();
    assert!(matches!(cfg.noise, NoiseSource::InterleavedGradient));
    assert!(matches!(cfg.strategy, Strategy::OctahedronClosest));
    assert!(matches!(cfg.diffuse, DiffuseMethod::FloydSteinberg));
    assert!(matches!(cfg.dither_palette, Palette::Spectra6));
    assert!(matches!(cfg.output_palette, Palette::Spectra6));
    assert!(matches!(default_palette_for(&strategy("naive-mix")), Palette::Spectra6));
    assert!(matches!(default_palette_for(&strategy("gray-offset-blend:0.33")), Palette::Grayscale4));
}

#[test]
fn minimal_screen_has_sensible_defaults() {
    let s = ScreenConfig::new(
        "frame".to_string(),
        1200,
        1600,
        "https://photos.app.goo.gl/x".to_string(),
        Timezone::parse("UTC").unwrap(),
        default_locale().unwrap(),
    );
    assert_eq!(s.name, "frame");
    assert!(s.mqtt_name.is_none());
    assert_eq!((s.width, s.height), (1200, 1600));
    assert_eq!(s.share_url, "https://photos.app.goo.gl/x");
    assert_eq!(s.fit, FitMethod::Crop);
    assert_eq!(s.background, BackgroundMethod::Solid(ColorConfig::rgb(255, 255, 255)));
    assert!(s.infobox.is_none() && s.battery_indicator.is_none() && s.rotate.is_none());
    assert_eq!(s.wake_delay, TimeDelta::zero());
    assert_eq!(s.error_refresh, TimeDelta::new(3600, 0).unwrap());
    assert!(s.publish.contains(Publish::Battery) && s.publish.contains(Publish::LastSeen));
    assert!(!s.publish.contains(Publish::Temperature));
    assert!(!s.publish.contains(Publish::Humidity));
    assert!(!s.publish.contains(Publish::Power));
    let c = Config::new(vec![s]);
    assert_eq!(c.listen, "0.0.0.0:3000");
    assert!(c.mqtt.is_none());
    assert_eq!(c.screens.len(), 1);
}

#[test]
fn broker_defaults() {
    let m = MqttConfig::new("mqtt.local".to_string());
    assert_eq!((m.broker.as_str(), m.port), ("mqtt.local", 1883));
    assert!(m.username.is_none() && m.password.is_none());
    assert_eq!(m.client_id, "epd-photoframe-server");
    assert_eq!(m.discovery_prefix, "homeassistant");
    assert_eq!(m.state_prefix, "epd-photoframe");
}

#[test]
fn publish_sets_hold_what_is_listed() {
    let s = PublishSet::from_entries(&vec![Publish::Power, Publish::Humidity, Publish::Power]);
    assert!(s.contains(Publish::Power) && s.contains(Publish::Humidity));
    assert!(!s.contains(Publish::Battery) && !s.contains(Publish::LastSeen));
    assert_eq!(PublishSet::from_entries(&vec![]), PublishSet::empty());
}

#[test]
fn layouts_and_units() {
    assert_eq!(WeatherLayout::Nothing.forecast_days_required(), 0);
    assert_eq!(WeatherLayout::One.forecast_days_required(), 1);
    assert_eq!(WeatherLayout::OnePlusFour.forecast_days_required(), 5);
    assert_eq!(WeatherLayout::Five.forecast_days_required(), 5);
    assert_eq!(WeatherLayout::default(), WeatherLayout::One);
    assert_eq!(HeaderLayout::default(), HeaderLayout::DayDate);
    assert_eq!(Units::default().temperature_suffix(), "°C");
    assert_eq!(Units::Imperial.temperature_suffix(), "°F");
    assert_eq!(BatteryStyle::default(), BatteryStyle::Both);
    assert_eq!(FitMethod::Crop.url_suffix(), "-c");
    assert_eq!(FitMethod::SmartCrop.url_suffix(), "-p");
    assert_eq!(FitMethod::Resize.url_suffix(), "-s");
    assert_eq!(FitMethod::Contain.url_suffix(), "");
}
