use std::collections::BTreeSet;

use epd_photoframe_server::config::{MqttConfig, Publish, PublishSet, ScreenConfig};
use epd_photoframe_server::device::{PowerState, SensorState};
use epd_photoframe_server::locale::default_locale;
use epd_photoframe_server::mqtt::{
    discovery_message, discovery_value, enabled_sensors, slug, Message, Publisher, QoS, Sensor,
};
use epd_photoframe_server::schedule::Timezone;
use epd_photoframe_server::time::DateTime;

#[test]
fn slug_lowercases_and_replaces_punctuation() {
    assert_eq!(slug("living-room"), "living_room");
    assert_eq!(slug("E1002-Landscape"), "e1002_landscape");
    assert_eq!(slug("foo.bar"), "foo_bar");
    assert_eq!(slug("plain"), "plain");
}

fn publish(name: &str) -> Publish {
    match name {
        "battery" => Publish::Battery,
        "temperature" => Publish::Temperature,
        "humidity" => Publish::Humidity,
        "power" => Publish::Power,
        "last_seen" => Publish::LastSeen,
        other => panic!("unknown entry {other}"),
    }
}

fn screen_with(list: &str) -> ScreenConfig {
    let table: toml::Table = toml::from_str(&format!("publish = {list}")).unwrap();
    let entries: Vec<Publish> = table["publish"]
        .as_array()
        .unwrap()
        .iter()
        .map(|v| publish(v.as_str().unwrap()))
        .collect();
    let mut s = ScreenConfig::new(
        "x".to_string(),
        800,
        480,
        "https://example.com".to_string(),
        Timezone::parse("UTC").unwrap(),
        default_locale().unwrap(),
    );
    s.publish = PublishSet::from_entries(&entries);
    s
}

fn keys(s: &[Sensor]) -> BTreeSet<&str> {
    s.iter().map(|s| s.key).collect()
}

#[test]
fn enabled_sensors_battery_includes_both_mv_and_pct() {
    let s = enabled_sensors(&screen_with(r#"["battery"]"#));
    assert_eq!(keys(&s), ["battery_pct", "battery_mv"].into_iter().collect());
}

#[test]
fn enabled_sensors_empty_publish_produces_nothing() {
    let s = enabled_sensors(&screen_with("[]"));
    assert!(s.is_empty());
}

#[test]
fn enabled_sensors_all_on_produces_six() {
    let s = enabled_sensors(&screen_with(
        r#"["battery", "temperature", "humidity", "power", "last_seen"]"#,
    ));
    assert_eq!(
        keys(&s),
        ["battery_pct", "battery_mv", "temperature", "humidity", "power", "last_seen"]
            .into_iter()
            .collect()
    );
}

#[test]
fn duplicate_publish_entries_collapse() {
    let s = enabled_sensors(&screen_with(r#"["battery", "battery", "last_seen"]"#));
    assert_eq!(keys(&s), ["battery_pct", "battery_mv", "last_seen"].into_iter().collect());
    assert_eq!(s.len(), 3);
}

#[test]
fn power_sensor_is_an_enum_with_four_options() {
    let p = Sensor::power();
    assert_eq!(p.device_class, "enum");
    assert!(p.unit.is_none());
    assert_eq!(
        p.options.as_deref(),
        Some(
            &[
                "battery".to_string(),
                "charging".to_string(),
                "full".to_string(),
                "fault".to_string()
            ][..]
        )
    );
}

#[test]
fn last_seen_sensor_is_a_timestamp_with_no_unit() {
    let s = Sensor::last_seen();
    assert_eq!(s.device_class, "timestamp");
    assert!(s.unit.is_none());
    assert!(s.options.is_none());
}

#[test]
fn measured_sensors_have_units() {
    let all = [
        (Sensor::battery_pct(), "battery_pct", "Battery", "battery", "%"),
        (Sensor::battery_mv(), "battery_mv", "Battery voltage", "voltage", "mV"),
        (Sensor::temperature(), "temperature", "Temperature", "temperature", "°C"),
        (Sensor::humidity(), "humidity", "Humidity", "humidity", "%"),
    ];
    for (s, key, name, class, unit) in all {
        assert_eq!((s.key, s.name, s.device_class, s.unit), (key, name, class, Some(unit)));
        assert!(s.options.is_none());
    }
}

#[test]
fn power_states_have_names() {
    let names: Vec<&str> = PowerState::ALL.iter().map(|p| p.as_str()).collect();
    assert_eq!(names, vec!["battery", "charging", "full", "fault"]);
}

#[test]
fn slugs_are_identifiers() {
    for name in ["Wohnzimmer Süd", "a/b\\c", "ÄÖÜ", "", "z9_"] {
        let s = slug(name);
        assert!(s.chars().all(|c| c.is_ascii_lowercase() || c.is_ascii_digit() || c == '_'));
        assert_eq!(slug(&s), s);
        assert_eq!(s.chars().count(), name.chars().count());
    }
}

fn broker() -> MqttConfig {
    MqttConfig::new("mqtt.local".to_string())
}

#[test]
fn discovery_describes_a_measured_sensor() {
    let mut s = screen_with(r#"["temperature"]"#);
    s.name = "Living-Room".to_string();
    s.mqtt_name = Some("Photoframe \"L\"".to_string());
    let m = discovery_message(&broker(), &s, &Sensor::temperature());
    assert_eq!(m.topic, "homeassistant/sensor/epd_photoframe_living_room/temperature/config");
    assert_eq!(m.qos, QoS::AtLeastOnce);
    assert!(m.retain);
    assert_eq!(
        m.payload,
        concat_text(&[
            r#"{"device":{"identifiers":["epd_photoframe_living_room"],"#,
            r#""manufacturer":"epd-photoframe-server","model":"ePaper photo frame","#,
            r#""name":"Photoframe \"L\""},"device_class":"temperature","name":"Temperature","#,
            r#""state_class":"measurement","#,
            r#""state_topic":"epd-photoframe/Living-Room/temperature","#,
            r#""unique_id":"epd_photoframe_living_room_temperature","#,
            r#""unit_of_measurement":"°C"}"#,
        ])
    );
}

fn concat_text(parts: &[&str]) -> String {
    parts.concat()
}

#[test]
fn discovery_of_an_enum_sensor_lists_its_options() {
    let s = screen_with(r#"["power"]"#);
    let v = discovery_value("states", &s, &Sensor::power());
    assert_eq!(v["name"], "Power");
    assert_eq!(v["device_class"], "enum");
    assert_eq!(v["state_topic"], "states/x/power");
    assert_eq!(v["unique_id"], "epd_photoframe_x_power");
    assert_eq!(v["device"]["name"], "x");
    assert_eq!(v["options"].as_array().unwrap().len(), 4);
    assert_eq!(v["options"][3], "fault");
    assert!(v.get("unit_of_measurement").is_none());
    assert!(v.get("state_class").is_none());
}

#[test]
fn discovery_of_a_timestamp_has_no_unit() {
    let v = discovery_value("p", &screen_with("[]"), &Sensor::last_seen());
    let keys: Vec<&String> = v.as_object().unwrap().keys().collect();
    assert_eq!(keys, vec!["device", "device_class", "name", "state_topic", "unique_id"]);
}

#[test]
fn connection_plan() {
    let mut cfg = broker();
    cfg.username = Some("u".to_string());
    let screens = vec![screen_with(r#"["battery", "last_seen"]"#), screen_with(r#"["power"]"#)];
    let (p, c) = Publisher::connect(&cfg, &screens);
    assert_eq!(p.state_prefix, "epd-photoframe");
    assert_eq!((c.client_id.as_str(), c.broker.as_str()), ("epd-photoframe-server", "mqtt.local"));
    assert_eq!((c.port, c.keep_alive_secs, c.capacity), (1883, 60, 256));
    assert!(c.credentials.is_none());
    let topics: Vec<&str> = c.discovery.iter().map(|m| m.topic.as_str()).collect();
    assert_eq!(
        topics,
        vec![
            "homeassistant/sensor/epd_photoframe_x/battery_pct/config",
            "homeassistant/sensor/epd_photoframe_x/battery_mv/config",
            "homeassistant/sensor/epd_photoframe_x/last_seen/config",
            "homeassistant/sensor/epd_photoframe_x/power/config",
        ]
    );
    cfg.password = Some("SECRET".to_string());
    let (_, c) = Publisher::connect(&cfg, &screens);
    assert_eq!(c.credentials, Some(("u".to_string(), "SECRET".to_string())));
}

fn publisher() -> Publisher {
    Publisher { state_prefix: "epd-photoframe".to_string() }
}

fn pairs(ms: &[Message]) -> Vec<(&str, &str)> {
    ms.iter().map(|m| (m.topic.as_str(), m.payload.as_str())).collect()
}

fn full() -> SensorState {
    SensorState {
        battery_mv: Some(3700),
        battery_pct: Some(42),
        temperature_c: Some("21.5".to_string()),
        humidity_pct: Some("55".to_string()),
        power: Some(PowerState::Charging),
    }
}

#[test]
fn all_readings_are_forwarded_in_order() {
    let all =
        screen_with(r#"["battery", "temperature", "humidity", "power", "last_seen"]"#).publish;
    let now = DateTime::new(1_777_000_000, 500_000_000).unwrap();
    let ms = publisher().publish_screen_state("living-room", &all, &full(), now);
    assert_eq!(
        pairs(&ms),
        vec![
            ("epd-photoframe/living-room/battery_mv", "3700"),
            ("epd-photoframe/living-room/battery_pct", "42"),
            ("epd-photoframe/living-room/temperature", "21.5"),
            ("epd-photoframe/living-room/humidity", "55"),
            ("epd-photoframe/living-room/power", "charging"),
            ("epd-photoframe/living-room/last_seen", "2026-04-24T03:06:40.500+00:00"),
        ]
    );
    assert!(ms.iter().all(|m| m.qos == QoS::AtMostOnce && m.retain));
}

#[test]
fn missing_readings_are_skipped_but_last_seen_is_not() {
    let all =
        screen_with(r#"["battery", "temperature", "humidity", "power", "last_seen"]"#).publish;
    let ms = publisher().state_messages("x", &all, &SensorState::default(), "now");
    assert_eq!(pairs(&ms), vec![("epd-photoframe/x/last_seen", "now")]);
    let some = SensorState { battery_pct: Some(0), ..SensorState::default() };
    let ms = publisher().state_messages("x", &all, &some, "now");
    assert_eq!(
        pairs(&ms),
        vec![("epd-photoframe/x/battery_pct", "0"), ("epd-photoframe/x/last_seen", "now")]
    );
}

#[test]
fn disabled_readings_are_not_forwarded() {
    let none = PublishSet::empty();
    assert!(publisher().state_messages("x", &none, &full(), "now").is_empty());
    let power = screen_with(r#"["power"]"#).publish;
    let ms = publisher().state_messages("x", &power, &full(), "now");
    assert_eq!(pairs(&ms), vec![("epd-photoframe/x/power", "charging")]);
}

#[test]
fn values_go_to_announced_topics() {
    let s = screen_with(r#"["battery", "temperature", "humidity", "power", "last_seen"]"#);
    let announced: BTreeSet<String> = enabled_sensors(&s)
        .iter()
        .map(|e| discovery_value("epd-photoframe", &s, e)["state_topic"].as_str().unwrap().to_string())
        .collect();
    assert_eq!(announced.len(), 6);
    for m in publisher().state_messages("x", &s.publish, &full(), "now") {
        assert!(announced.contains(&m.topic));
    }
}

#[test]
fn single_values_are_published() {
    let m = publisher().publish("x", "k", "v");
    assert_eq!((m.topic.as_str(), m.payload.as_str()), ("epd-photoframe/x/k", "v"));
    assert_eq!(m.qos, QoS::AtMostOnce);
    assert!(m.retain);
}
