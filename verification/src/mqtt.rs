//! What is published over MQTT: sensor values per screen, and the Home Assistant
//! discovery messages that announce them.

use vstd::prelude::*;

use crate::config::{MqttConfig, Publish, PublishSet, ScreenConfig};
use crate::device::{PowerState, SensorState};
use crate::text::{chars_of, code_of, decimal, decimal_string, option_view, string_views};
use crate::time::DateTime;

verus! {

/// A JSON value made of texts, lists and objects.
pub enum Json {
    Text(Seq<char>),
    List(Seq<Json>),
    Object(Map<Seq<char>, Json>),
}

/// `serde_json::Value`.
#[verifier::external_type_specification]
#[verifier::external_body]
pub struct ExValue(serde_json::Value);

/// What a JSON value holds.
pub uninterp spec fn json_content(v: serde_json::Value) -> Json;

/// The compact text of a JSON value.
pub uninterp spec fn json_text(v: Json) -> Seq<char>;

/// The moment `t`, in nanoseconds since 1970-01-01T00:00:00Z, as an RFC 3339 text.
pub uninterp spec fn rfc3339(t: int) -> Seq<char>;

/// What the entries of an object under construction hold.
pub open spec fn entry_contents(entries: Seq<(String, serde_json::Value)>) -> Seq<
    (Seq<char>, Json),
> {
    Seq::new(entries.len(), |i: int| (entries[i].0@, json_content(entries[i].1)))
}

/// The object made of `entries`. Of two entries with one key the later counts.
pub open spec fn object_of(entries: Seq<(Seq<char>, Json)>) -> Map<Seq<char>, Json>
    decreases entries.len(),
{
    if entries.len() == 0 {
        Map::empty()
    } else {
        object_of(entries.drop_last()).insert(entries.last().0, entries.last().1)
    }
}

/// The JSON texts for `texts`.
pub open spec fn json_texts(texts: Seq<Seq<char>>) -> Seq<Json> {
    texts.map_values(|t: Seq<char>| Json::Text(t))
}

/// `serde_json::Value::from` for a text: the JSON string of that text.
#[verifier::external_body]
fn json_string(text: &str) -> (r: serde_json::Value)
    ensures
        json_content(r) == Json::Text(text@),
{
    serde_json::Value::from(text)
}

/// `serde_json::Value::from` for texts: the JSON array of those texts, in order.
#[verifier::external_body]
fn json_list(texts: &Vec<String>) -> (r: serde_json::Value)
    ensures
        json_content(r) == Json::List(json_texts(string_views(texts@))),
{
    serde_json::Value::from(texts.as_slice())
}

/// `serde_json::Value::from_iter` for pairs: the JSON object with those entries, in
/// which a later entry replaces an earlier one with the same key.
#[verifier::external_body]
fn json_object(entries: Vec<(String, serde_json::Value)>) -> (r: serde_json::Value)
    ensures
        json_content(r) == Json::Object(object_of(entry_contents(entries@))),
{
    serde_json::Value::from_iter(entries)
}

/// `serde_json::Value::to_string`: the compact text, which sorts the keys of an
/// object and so depends on what the value holds only.
#[verifier::external_body]
fn json_to_text(v: &serde_json::Value) -> (r: String)
    ensures
        r@ == json_text(json_content(*v)),
{
    v.to_string()
}

/// `chrono::DateTime::to_rfc3339` in UTC.
#[verifier::external_body]
fn to_rfc3339(t: DateTime) -> (r: String)
    ensures
        r@ == rfc3339(t@),
{
    chrono::DateTime::from_timestamp(t.timestamp(), t.timestamp_subsec_nanos()).unwrap().to_rfc3339()
}

/// How surely a message is delivered.
#[derive(Clone, Copy, Debug, PartialEq, Eq, Structural)]
pub enum QoS {
    AtMostOnce,
    AtLeastOnce,
}

/// A message to the broker.
#[derive(Debug)]
pub struct Message {
    pub topic: String,
    pub qos: QoS,
    pub retain: bool,
    pub payload: String,
}

/// What a message is.
pub struct MessageModel {
    pub topic: Seq<char>,
    pub qos: QoS,
    pub retain: bool,
    pub payload: Seq<char>,
}

impl View for Message {
    type V = MessageModel;

    open spec fn view(&self) -> MessageModel {
        MessageModel {
            topic: self.topic@,
            qos: self.qos,
            retain: self.retain,
            payload: self.payload@,
        }
    }
}

/// What messages are.
pub open spec fn message_views(ms: Seq<Message>) -> Seq<MessageModel> {
    Seq::new(ms.len(), |i: int| ms[i]@)
}

/// A sensor of a screen.
#[derive(Debug)]
pub struct Sensor {
    /// Topic suffix and discovery `object_id`.
    pub key: &'static str,
    /// Human-readable name.
    pub name: &'static str,
    /// Home Assistant `device_class`.
    pub device_class: &'static str,
    /// Unit of a measured value.
    pub unit: Option<&'static str>,
    /// Permitted values of an `enum` sensor.
    pub options: Option<Vec<String>>,
}

/// What a sensor is.
#[verifier::ext_equal]
pub struct SensorModel {
    pub key: Seq<char>,
    pub name: Seq<char>,
    pub device_class: Seq<char>,
    pub unit: Option<Seq<char>>,
    pub options: Option<Seq<Seq<char>>>,
}

impl View for Sensor {
    type V = SensorModel;

    open spec fn view(&self) -> SensorModel {
        SensorModel {
            key: self.key@,
            name: self.name@,
            device_class: self.device_class@,
            unit: match self.unit {
                Some(u) => Some(u@),
                None => None,
            },
            options: match self.options {
                Some(v) => Some(string_views(v@)),
                None => None,
            },
        }
    }
}

/// A sensor of a measured value.
pub open spec fn measured(
    key: Seq<char>,
    name: Seq<char>,
    device_class: Seq<char>,
    unit: Seq<char>,
) -> SensorModel {
    SensorModel { key, name, device_class, unit: Some(unit), options: None }
}

/// The sensor for the kind of power supply.
pub open spec fn power_sensor() -> SensorModel {
    SensorModel {
        key: "power"@,
        name: "Power"@,
        device_class: "enum"@,
        unit: None,
        options: Some(
            seq![
                PowerState::Battery.name(),
                PowerState::Charging.name(),
                PowerState::Full.name(),
                PowerState::Fault.name(),
            ],
        ),
    }
}

/// The sensor for the time of the last request.
pub open spec fn last_seen_sensor() -> SensorModel {
    SensorModel {
        key: "last_seen"@,
        name: "Last seen"@,
        device_class: "timestamp"@,
        unit: None,
        options: None,
    }
}

impl Sensor {
    /// Battery level.
    pub fn battery_pct() -> (r: Sensor)
        ensures
            r@ == measured("battery_pct"@, "Battery"@, "battery"@, "%"@),
    {
        Sensor {
            key: "battery_pct",
            name: "Battery",
            device_class: "battery",
            unit: Some("%"),
            options: None,
        }
    }

    /// Battery voltage.
    pub fn battery_mv() -> (r: Sensor)
        ensures
            r@ == measured("battery_mv"@, "Battery voltage"@, "voltage"@, "mV"@),
    {
        Sensor {
            key: "battery_mv",
            name: "Battery voltage",
            device_class: "voltage",
            unit: Some("mV"),
            options: None,
        }
    }

    /// Temperature.
    pub fn temperature() -> (r: Sensor)
        ensures
            r@ == measured("temperature"@, "Temperature"@, "temperature"@, "°C"@),
    {
        Sensor {
            key: "temperature",
            name: "Temperature",
            device_class: "temperature",
            unit: Some("°C"),
            options: None,
        }
    }

    /// Humidity.
    pub fn humidity() -> (r: Sensor)
        ensures
            r@ == measured("humidity"@, "Humidity"@, "humidity"@, "%"@),
    {
        Sensor {
            key: "humidity",
            name: "Humidity",
            device_class: "humidity",
            unit: Some("%"),
            options: None,
        }
    }

    /// Kind of power supply.
    pub fn power() -> (r: Sensor)
        ensures
            r@ == power_sensor(),
    {
        let all: [PowerState; 4] = PowerState::ALL;
        let mut options: Vec<String> = Vec::new();
        let mut i: usize = 0;
        while i < 4
            invariant
                i <= 4,
                all == PowerState::ALL,
                options@.len() == i,
                forall|j: int| 0 <= j < i ==> (#[trigger] options@[j])@ == all@[j].name(),
            decreases 4 - i,
        {
            options.push(all[i].as_str().to_owned());
            i = i + 1;
        }
        let r = Sensor {
            key: "power",
            name: "Power",
            device_class: "enum",
            unit: None,
            options: Some(options),
        };
        assert(string_views(options@) =~= power_sensor().options->0);
        r
    }

    /// Time of the last request.
    pub fn last_seen() -> (r: Sensor)
        ensures
            r@ == last_seen_sensor(),
    {
        Sensor {
            key: "last_seen",
            name: "Last seen",
            device_class: "timestamp",
            unit: None,
            options: None,
        }
    }
}

/// What sensors are.
pub open spec fn sensor_views(v: Seq<Sensor>) -> Seq<SensorModel> {
    Seq::new(v.len(), |i: int| v[i]@)
}

/// The sensors that one group of readings stands for.
pub open spec fn group_sensors(p: Publish) -> Seq<SensorModel> {
    match p {
        Publish::Battery => seq![
            measured("battery_pct"@, "Battery"@, "battery"@, "%"@),
            measured("battery_mv"@, "Battery voltage"@, "voltage"@, "mV"@),
        ],
        Publish::Temperature => seq![
            measured("temperature"@, "Temperature"@, "temperature"@, "°C"@),
        ],
        Publish::Humidity => seq![measured("humidity"@, "Humidity"@, "humidity"@, "%"@)],
        Publish::Power => seq![power_sensor()],
        Publish::LastSeen => seq![last_seen_sensor()],
    }
}

/// The sensors of the group `p`, if `set` holds it.
pub open spec fn chosen_sensors(set: PublishSet, p: Publish) -> Seq<SensorModel> {
    if set.has(p) {
        group_sensors(p)
    } else {
        seq![]
    }
}

/// The sensors that `set` stands for, group by group.
pub open spec fn sensors_of(set: PublishSet) -> Seq<SensorModel> {
    chosen_sensors(set, Publish::Battery) + chosen_sensors(set, Publish::Temperature)
        + chosen_sensors(set, Publish::Humidity) + chosen_sensors(set, Publish::Power)
        + chosen_sensors(set, Publish::LastSeen)
}

/// The sensors whose values a screen forwards.
pub fn enabled_sensors(cfg: &ScreenConfig) -> (r: Vec<Sensor>)
    ensures
        sensor_views(r@) == sensors_of(cfg.publish),
{
    let mut out: Vec<Sensor> = Vec::new();
    let ghost mut done: Seq<SensorModel> = seq![];
    assert(sensor_views(out@) =~= done);
    if cfg.publish.contains(Publish::Battery) {
        out.push(Sensor::battery_pct());
        out.push(Sensor::battery_mv());
    }
    proof {
        done = done + chosen_sensors(cfg.publish, Publish::Battery);
        assert(sensor_views(out@) =~= done);
    }
    if cfg.publish.contains(Publish::Temperature) {
        out.push(Sensor::temperature());
    }
    proof {
        done = done + chosen_sensors(cfg.publish, Publish::Temperature);
        assert(sensor_views(out@) =~= done);
    }
    if cfg.publish.contains(Publish::Humidity) {
        out.push(Sensor::humidity());
    }
    proof {
        done = done + chosen_sensors(cfg.publish, Publish::Humidity);
        assert(sensor_views(out@) =~= done);
    }
    if cfg.publish.contains(Publish::Power) {
        out.push(Sensor::power());
    }
    proof {
        done = done + chosen_sensors(cfg.publish, Publish::Power);
        assert(sensor_views(out@) =~= done);
    }
    if cfg.publish.contains(Publish::LastSeen) {
        out.push(Sensor::last_seen());
    }
    assert(sensor_views(out@) =~= sensors_of(cfg.publish));
    out
}

/// The character that stands for `c` in an identifier: a digit or a lower-case
/// letter for itself, an upper-case letter for the lower-case one, and an
/// underscore for anything else.
pub open spec fn slug_char(c: char) -> char {
    if '0' <= c <= '9' || 'a' <= c <= 'z' {
        c
    } else if 'A' <= c <= 'Z' {
        (c as int + 32) as char
    } else {
        '_'
    }
}

/// A name as an identifier.
pub open spec fn slug_of(name: Seq<char>) -> Seq<char> {
    name.map_values(|c: char| slug_char(c))
}

/// The character that stands for `c` in an identifier.
fn to_slug_char(c: char) -> (r: char)
    ensures
        r == slug_char(c),
{
    let n: u32 = code_of(c);
    if (48 <= n && n <= 57) || (97 <= n && n <= 122) {
        c
    } else if 65 <= n && n <= 90 {
        (n as u8 + 32) as char
    } else {
        '_'
    }
}

/// The name as an identifier: Home Assistant allows `a` to `z`, `0` to `9` and `_`
/// in one.
pub fn slug(name: &str) -> (r: String)
    ensures
        r@ == slug_of(name@),
{
    let cs = chars_of(name);
    let mut out = String::new();
    let mut i: usize = 0;
    assert(out@ =~= slug_of(cs@.take(0)));
    while i < cs.len()
        invariant
            i <= cs.len(),
            out@ == slug_of(cs@.take(i as int)),
        decreases cs.len() - i,
    {
        out.push(to_slug_char(cs[i]));
        i = i + 1;
        assert(out@ =~= slug_of(cs@.take(i as int)));
    }
    assert(cs@.take(cs@.len() as int) =~= cs@);
    out
}

/// The topic of the value of the sensor `key` of a screen.
pub open spec fn state_topic(prefix: Seq<char>, screen: Seq<char>, key: Seq<char>) -> Seq<char> {
    prefix + "/"@ + screen + "/"@ + key
}

/// The topic that announces the sensor `key` of a screen.
pub open spec fn discovery_topic(prefix: Seq<char>, screen: Seq<char>, key: Seq<char>) -> Seq<
    char,
> {
    prefix + "/sensor/epd_photoframe_"@ + slug_of(screen) + "/"@ + key + "/config"@
}

/// The entries of the object that describes the device which a screen is.
pub open spec fn device_entries(screen: ScreenConfig) -> Seq<(Seq<char>, Json)> {
    seq![
        (
            "identifiers"@,
            Json::List(seq![Json::Text("epd_photoframe_"@ + slug_of(screen.name@))]),
        ),
        (
            "name"@,
            Json::Text(
                match option_view(screen.mqtt_name) {
                    Some(n) => n,
                    None => screen.name@,
                },
            ),
        ),
        ("manufacturer"@, Json::Text("epd-photoframe-server"@)),
        ("model"@, Json::Text("ePaper photo frame"@)),
    ]
}

/// The entries of the object that announces a sensor of a screen.
pub open spec fn discovery_entries(
    state_prefix: Seq<char>,
    screen: ScreenConfig,
    sensor: SensorModel,
) -> Seq<(Seq<char>, Json)> {
    seq![
        ("name"@, Json::Text(sensor.name)),
        (
            "unique_id"@,
            Json::Text("epd_photoframe_"@ + slug_of(screen.name@) + "_"@ + sensor.key),
        ),
        ("state_topic"@, Json::Text(state_topic(state_prefix, screen.name@, sensor.key))),
        ("device_class"@, Json::Text(sensor.device_class)),
        ("device"@, Json::Object(object_of(device_entries(screen)))),
    ] + (match sensor.unit {
        Some(u) => seq![
            ("unit_of_measurement"@, Json::Text(u)),
            ("state_class"@, Json::Text("measurement"@)),
        ],
        None => seq![],
    }) + (match sensor.options {
        Some(o) => seq![("options"@, Json::List(json_texts(o)))],
        None => seq![],
    })
}

/// What announces a sensor of a screen.
pub open spec fn discovery_json(
    state_prefix: Seq<char>,
    screen: ScreenConfig,
    sensor: SensorModel,
) -> Json {
    Json::Object(object_of(discovery_entries(state_prefix, screen, sensor)))
}

/// The message that announces a sensor of a screen. The broker keeps it.
pub open spec fn discovery_model(cfg: MqttConfig, screen: ScreenConfig, sensor: SensorModel) -> MessageModel {
    MessageModel {
        topic: discovery_topic(cfg.discovery_prefix@, screen.name@, sensor.key),
        qos: QoS::AtLeastOnce,
        retain: true,
        payload: json_text(discovery_json(cfg.state_prefix@, screen, sensor)),
    }
}

/// An entry of a JSON object that holds a text.
fn text_entry(key: &str, text: &str) -> (r: (String, serde_json::Value))
    ensures
        r.0@ == key@,
        json_content(r.1) == Json::Text(text@),
{
    (key.to_owned(), json_string(text))
}

/// The description of the device that a screen is.
fn device_value(screen: &ScreenConfig) -> (r: serde_json::Value)
    ensures
        json_content(r) == Json::Object(object_of(device_entries(*screen))),
{
    let mut id = "epd_photoframe_".to_owned();
    id.append(slug(screen.name.as_str()).as_str());
    let mut ids: Vec<String> = Vec::new();
    ids.push(id);
    assert(json_texts(string_views(ids@)) =~= seq![
        Json::Text("epd_photoframe_"@ + slug_of(screen.name@)),
    ]);
    let name = match &screen.mqtt_name {
        Some(n) => n.as_str(),
        None => screen.name.as_str(),
    };
    let mut entries: Vec<(String, serde_json::Value)> = Vec::new();
    entries.push(("identifiers".to_owned(), json_list(&ids)));
    entries.push(text_entry("name", name));
    entries.push(text_entry("manufacturer", "epd-photoframe-server"));
    entries.push(text_entry("model", "ePaper photo frame"));
    assert(entry_contents(entries@) =~= device_entries(*screen));
    json_object(entries)
}

/// The description of a sensor of a screen whose values go to `state_prefix`.
pub fn discovery_value(state_prefix: &str, screen: &ScreenConfig, sensor: &Sensor) -> (r:
    serde_json::Value)
    ensures
        json_content(r) == discovery_json(state_prefix@, *screen, sensor@),
{
    let mut unique_id = "epd_photoframe_".to_owned();
    unique_id.append(slug(screen.name.as_str()).as_str());
    unique_id.append("_");
    unique_id.append(sensor.key);
    let topic = topic_of(state_prefix, screen.name.as_str(), sensor.key);
    let mut entries: Vec<(String, serde_json::Value)> = Vec::new();
    entries.push(text_entry("name", sensor.name));
    entries.push(text_entry("unique_id", unique_id.as_str()));
    entries.push(text_entry("state_topic", topic.as_str()));
    entries.push(text_entry("device_class", sensor.device_class));
    entries.push(("device".to_owned(), device_value(screen)));
    if let Some(unit) = sensor.unit {
        entries.push(text_entry("unit_of_measurement", unit));
        entries.push(text_entry("state_class", "measurement"));
    }
    if let Some(options) = &sensor.options {
        entries.push(("options".to_owned(), json_list(options)));
    }
    assert(entry_contents(entries@) =~= discovery_entries(state_prefix@, *screen, sensor@));
    json_object(entries)
}

/// The topic of the value of the sensor `key` of a screen.
fn topic_of(prefix: &str, screen: &str, key: &str) -> (r: String)
    ensures
        r@ == state_topic(prefix@, screen@, key@),
{
    let mut topic = prefix.to_owned();
    topic.append("/");
    topic.append(screen);
    topic.append("/");
    topic.append(key);
    topic
}

/// The message that announces a sensor of a screen.
pub fn discovery_message(cfg: &MqttConfig, screen: &ScreenConfig, sensor: &Sensor) -> (r: Message)
    ensures
        r@ == discovery_model(*cfg, *screen, sensor@),
{
    let mut topic = cfg.discovery_prefix.clone();
    topic.append("/sensor/epd_photoframe_");
    topic.append(slug(screen.name.as_str()).as_str());
    topic.append("/");
    topic.append(sensor.key);
    topic.append("/config");
    let value = discovery_value(cfg.state_prefix.as_str(), screen, sensor);
    Message { topic, qos: QoS::AtLeastOnce, retain: true, payload: json_to_text(&value) }
}

/// The messages that announce the given sensors of a screen.
pub open spec fn announcements(cfg: MqttConfig, screen: ScreenConfig, sensors: Seq<SensorModel>) -> Seq<
    MessageModel,
> {
    sensors.map_values(|s: SensorModel| discovery_model(cfg, screen, s))
}

/// The messages that announce every sensor of every screen.
pub open spec fn all_announcements(cfg: MqttConfig, screens: Seq<ScreenConfig>) -> Seq<MessageModel>
    decreases screens.len(),
{
    if screens.len() == 0 {
        seq![]
    } else {
        all_announcements(cfg, screens.drop_last()) + announcements(
            cfg,
            screens.last(),
            sensors_of(screens.last().publish),
        )
    }
}

/// Seconds without traffic after which the broker is pinged.
pub const KEEP_ALIVE_SECS: u64 = 60;

/// How many messages may wait for the broker.
pub const QUEUE_CAPACITY: usize = 256;

/// How to connect to the broker, and what to send it first.
#[derive(Debug)]
pub struct Connection {
    pub client_id: String,
    pub broker: String,
    pub port: u16,
    /// User name and password, where both are known.
    pub credentials: Option<(String, String)>,
    pub keep_alive_secs: u64,
    pub capacity: usize,
    /// Discovery messages for every sensor of every screen.
    pub discovery: Vec<Message>,
}

/// Forwards sensor values of the screens.
#[derive(Debug)]
pub struct Publisher {
    pub state_prefix: String,
}

/// A sensor value. The broker keeps the last one.
pub open spec fn state_model(
    prefix: Seq<char>,
    screen: Seq<char>,
    key: Seq<char>,
    value: Seq<char>,
) -> MessageModel {
    MessageModel {
        topic: state_topic(prefix, screen, key),
        qos: QoS::AtMostOnce,
        retain: true,
        payload: value,
    }
}

/// The readings that are forwarded, each under its key: those that are enabled and
/// were reported, and the time of the request, which always is.
pub open spec fn readings(set: PublishSet, sensors: SensorState, last_seen: Seq<char>) -> Seq<
    (Seq<char>, Seq<char>),
> {
    (if set.has(Publish::Battery) && sensors.battery_mv is Some {
        seq![("battery_mv"@, decimal(sensors.battery_mv->0 as nat))]
    } else {
        seq![]
    }) + (if set.has(Publish::Battery) && sensors.battery_pct is Some {
        seq![("battery_pct"@, decimal(sensors.battery_pct->0 as nat))]
    } else {
        seq![]
    }) + (if set.has(Publish::Temperature) && sensors.temperature_c is Some {
        seq![("temperature"@, sensors.temperature_c->0@)]
    } else {
        seq![]
    }) + (if set.has(Publish::Humidity) && sensors.humidity_pct is Some {
        seq![("humidity"@, sensors.humidity_pct->0@)]
    } else {
        seq![]
    }) + (if set.has(Publish::Power) && sensors.power is Some {
        seq![("power"@, sensors.power->0.name())]
    } else {
        seq![]
    }) + (if set.has(Publish::LastSeen) {
        seq![("last_seen"@, last_seen)]
    } else {
        seq![]
    })
}

/// The messages for `readings` of a screen.
pub open spec fn state_models(
    prefix: Seq<char>,
    screen: Seq<char>,
    readings: Seq<(Seq<char>, Seq<char>)>,
) -> Seq<MessageModel> {
    readings.map_values(|r: (Seq<char>, Seq<char>)| state_model(prefix, screen, r.0, r.1))
}

impl Publisher {
    /// The publisher for a broker, and how to connect to it. The first messages
    /// announce every enabled sensor of every screen.
    pub fn connect(cfg: &MqttConfig, screens: &Vec<ScreenConfig>) -> (r: (Publisher, Connection))
        ensures
            r.0.state_prefix@ == cfg.state_prefix@,
            r.1.client_id@ == cfg.client_id@,
            r.1.broker@ == cfg.broker@,
            r.1.port == cfg.port,
            r.1.credentials is Some <==> cfg.username is Some && cfg.password is Some,
            r.1.credentials matches Some((user, password)) ==> user@ == cfg.username->0@
                && password@ == cfg.password->0@,
            r.1.keep_alive_secs == KEEP_ALIVE_SECS,
            r.1.capacity == QUEUE_CAPACITY,
            message_views(r.1.discovery@) == all_announcements(*cfg, screens@),
    {
        let credentials = match (&cfg.username, &cfg.password) {
            (Some(u), Some(p)) => Some((u.clone(), p.clone())),
            _ => None,
        };
        let mut discovery: Vec<Message> = Vec::new();
        assert(message_views(discovery@) =~= all_announcements(*cfg, screens@.take(0)));
        let mut i: usize = 0;
        while i < screens.len()
            invariant
                i <= screens.len(),
                message_views(discovery@) == all_announcements(*cfg, screens@.take(i as int)),
            decreases screens.len() - i,
        {
            assert(screens@.take(i + 1).drop_last() =~= screens@.take(i as int));
            announce(cfg, &screens[i], &mut discovery);
            i = i + 1;
        }
        assert(screens@.take(screens@.len() as int) =~= screens@);
        (
            Publisher { state_prefix: cfg.state_prefix.clone() },
            Connection {
                client_id: cfg.client_id.clone(),
                broker: cfg.broker.clone(),
                port: cfg.port,
                credentials,
                keep_alive_secs: KEEP_ALIVE_SECS,
                capacity: QUEUE_CAPACITY,
                discovery,
            },
        )
    }

    /// The message for one sensor value.
    pub fn publish(&self, screen: &str, key: &str, value: &str) -> (r: Message)
        ensures
            r@ == state_model(self.state_prefix@, screen@, key@, value@),
    {
        Message {
            topic: topic_of(self.state_prefix.as_str(), screen, key),
            qos: QoS::AtMostOnce,
            retain: true,
            payload: value.to_owned(),
        }
    }

    /// The messages for the enabled readings that came with a request, and for the
    /// time of it, written `last_seen`.
    pub fn state_messages(
        &self,
        screen: &str,
        enabled: &PublishSet,
        sensors: &SensorState,
        last_seen: &str,
    ) -> (r: Vec<Message>)
        ensures
            message_views(r@) == state_models(
                self.state_prefix@,
                screen@,
                readings(*enabled, *sensors, last_seen@),
            ),
    {
        let mut out: Vec<Message> = Vec::new();
        if enabled.contains(Publish::Battery) {
            if let Some(v) = sensors.battery_mv {
                out.push(self.publish(screen, "battery_mv", decimal_string(v as u64).as_str()));
            }
            if let Some(v) = sensors.battery_pct {
                out.push(self.publish(screen, "battery_pct", decimal_string(v as u64).as_str()));
            }
        }
        if enabled.contains(Publish::Temperature) {
            if let Some(v) = &sensors.temperature_c {
                out.push(self.publish(screen, "temperature", v.as_str()));
            }
        }
        if enabled.contains(Publish::Humidity) {
            if let Some(v) = &sensors.humidity_pct {
                out.push(self.publish(screen, "humidity", v.as_str()));
            }
        }
        if enabled.contains(Publish::Power) {
            if let Some(v) = sensors.power {
                out.push(self.publish(screen, "power", v.as_str()));
            }
        }
        if enabled.contains(Publish::LastSeen) {
            out.push(self.publish(screen, "last_seen", last_seen));
        }
        assert(message_views(out@) =~= state_models(
            self.state_prefix@,
            screen@,
            readings(*enabled, *sensors, last_seen@),
        ));
        out
    }

    /// The messages for the enabled readings that came with a request at `now`.
    /// Missing readings are skipped; the time of the request never is.
    pub fn publish_screen_state(
        &self,
        screen: &str,
        enabled: &PublishSet,
        sensors: &SensorState,
        now: DateTime,
    ) -> (r: Vec<Message>)
        ensures
            message_views(r@) == state_models(
                self.state_prefix@,
                screen@,
                readings(*enabled, *sensors, rfc3339(now@)),
            ),
    {
        let last_seen = to_rfc3339(now);
        self.state_messages(screen, enabled, sensors, last_seen.as_str())
    }
}

/// Appends the messages that announce the sensors of a screen.
fn announce(cfg: &MqttConfig, screen: &ScreenConfig, out: &mut Vec<Message>)
    ensures
        message_views(final(out)@) == message_views(old(out)@) + announcements(
            *cfg,
            *screen,
            sensors_of(screen.publish),
        ),
{
    let sensors = enabled_sensors(screen);
    let ghost all = sensor_views(sensors@);
    let ghost before = message_views(out@);
    let mut i: usize = 0;
    assert(all.take(0) =~= seq![]);
    assert(message_views(out@) =~= before + announcements(*cfg, *screen, all.take(0)));
    while i < sensors.len()
        invariant
            i <= sensors.len(),
            all == sensor_views(sensors@),
            message_views(out@) == before + announcements(*cfg, *screen, all.take(i as int)),
        decreases sensors.len() - i,
    {
        let ghost so_far = message_views(out@);
        let ghost next = discovery_model(*cfg, *screen, all[i as int]);
        out.push(discovery_message(cfg, screen, &sensors[i]));
        assert(message_views(out@) =~= so_far.push(next));
        assert(announcements(*cfg, *screen, all.take(i + 1)) =~= announcements(
            *cfg,
            *screen,
            all.take(i as int),
        ).push(next));
        i = i + 1;
        assert(message_views(out@) =~= before + announcements(*cfg, *screen, all.take(i as int)));
    }
    assert(all.take(all.len() as int) =~= all);
}

/// An identifier holds nothing but `a` to `z`, `0` to `9` and `_`, and is its own
/// identifier.
pub proof fn law_slug_is_identifier(name: Seq<char>, i: int)
    requires
        0 <= i < name.len(),
    ensures
        slug_of(name).len() == name.len(),
        ({
            let c = slug_of(name)[i];
            'a' <= c <= 'z' || '0' <= c <= '9' || c == '_'
        }),
        slug_of(slug_of(name)) == slug_of(name),
{
    assert forall|j: int| 0 <= j < name.len() implies slug_char(#[trigger] slug_of(name)[j])
        == slug_of(name)[j] by {
        assert(slug_of(name)[j] == slug_char(name[j]));
    }
    assert(slug_of(slug_of(name)) =~= slug_of(name));
}

/// Whether one of `sensors` has the key `key`.
pub open spec fn announced(sensors: Seq<SensorModel>, key: Seq<char>) -> bool {
    exists|j: int| 0 <= j < sensors.len() && (#[trigger] sensors[j]).key == key
}

/// A sensor of one of two lists is a sensor of both together.
proof fn lemma_announced_in(a: Seq<SensorModel>, b: Seq<SensorModel>, key: Seq<char>)
    requires
        announced(a, key) || announced(b, key),
    ensures
        announced(a + b, key),
{
    if announced(a, key) {
        let j = choose|j: int| 0 <= j < a.len() && (#[trigger] a[j]).key == key;
        assert((a + b)[j].key == key);
    } else {
        let j = choose|j: int| 0 <= j < b.len() && (#[trigger] b[j]).key == key;
        assert((a + b)[a.len() + j].key == key);
    }
}

/// A sensor of an enabled group is announced.
proof fn lemma_group_announced(set: PublishSet, p: Publish, key: Seq<char>)
    requires
        set.has(p),
        announced(group_sensors(p), key),
    ensures
        announced(sensors_of(set), key),
{
    let b = chosen_sensors(set, Publish::Battery);
    let t = chosen_sensors(set, Publish::Temperature);
    let h = chosen_sensors(set, Publish::Humidity);
    let w = chosen_sensors(set, Publish::Power);
    let l = chosen_sensors(set, Publish::LastSeen);
    if p is Battery || p is Temperature {
        lemma_announced_in(b, t, key);
    }
    if p is Battery || p is Temperature || p is Humidity {
        lemma_announced_in(b + t, h, key);
    }
    if !(p is LastSeen) {
        lemma_announced_in(b + t + h, w, key);
    }
    lemma_announced_in(b + t + h + w, l, key);
}

/// A reading belongs to an enabled group.
proof fn lemma_reading_key(set: PublishSet, sensors: SensorState, last_seen: Seq<char>, i: int)
    requires
        0 <= i < readings(set, sensors, last_seen).len(),
    ensures
        ({
            let key = readings(set, sensors, last_seen)[i].0;
            ||| set.has(Publish::Battery) && (key == "battery_mv"@ || key == "battery_pct"@)
            ||| set.has(Publish::Temperature) && key == "temperature"@
            ||| set.has(Publish::Humidity) && key == "humidity"@
            ||| set.has(Publish::Power) && key == "power"@
            ||| set.has(Publish::LastSeen) && key == "last_seen"@
        }),
{
}

/// Every value that is sent belongs to a sensor that was announced for the screen.
pub proof fn law_values_are_announced(
    set: PublishSet,
    sensors: SensorState,
    last_seen: Seq<char>,
    i: int,
)
    requires
        0 <= i < readings(set, sensors, last_seen).len(),
    ensures
        announced(sensors_of(set), readings(set, sensors, last_seen)[i].0),
{
    let key = readings(set, sensors, last_seen)[i].0;
    lemma_reading_key(set, sensors, last_seen, i);
    assert(announced(group_sensors(Publish::Battery), "battery_mv"@)) by {
        assert(group_sensors(Publish::Battery)[1].key == "battery_mv"@);
    }
    assert(announced(group_sensors(Publish::Battery), "battery_pct"@)) by {
        assert(group_sensors(Publish::Battery)[0].key == "battery_pct"@);
    }
    assert(announced(group_sensors(Publish::Temperature), "temperature"@)) by {
        assert(group_sensors(Publish::Temperature)[0].key == "temperature"@);
    }
    assert(announced(group_sensors(Publish::Humidity), "humidity"@)) by {
        assert(group_sensors(Publish::Humidity)[0].key == "humidity"@);
    }
    assert(announced(group_sensors(Publish::Power), "power"@)) by {
        assert(group_sensors(Publish::Power)[0].key == "power"@);
    }
    assert(announced(group_sensors(Publish::LastSeen), "last_seen"@)) by {
        assert(group_sensors(Publish::LastSeen)[0].key == "last_seen"@);
    }
    if set.has(Publish::Battery) && (key == "battery_mv"@ || key == "battery_pct"@) {
        lemma_group_announced(set, Publish::Battery, key);
    } else if set.has(Publish::Temperature) && key == "temperature"@ {
        lemma_group_announced(set, Publish::Temperature, key);
    } else if set.has(Publish::Humidity) && key == "humidity"@ {
        lemma_group_announced(set, Publish::Humidity, key);
    } else if set.has(Publish::Power) && key == "power"@ {
        lemma_group_announced(set, Publish::Power, key);
    } else {
        lemma_group_announced(set, Publish::LastSeen, key);
    }
}

/// The keys of a screen's sensors are different, so that no two of them share a
/// topic.
pub proof fn law_sensor_keys_differ(set: PublishSet, i: int, j: int)
    requires
        0 <= i < j < sensors_of(set).len(),
    ensures
        sensors_of(set)[i].key != sensors_of(set)[j].key,
{
    reveal_strlit("battery_pct");
    reveal_strlit("battery_mv");
    reveal_strlit("temperature");
    reveal_strlit("humidity");
    reveal_strlit("power");
    reveal_strlit("last_seen");
    assert("battery_pct"@[0] == 'b' && "temperature"@[0] == 't');
    assert("battery_pct"@.len() == 11 && "battery_mv"@.len() == 10 && "temperature"@.len() == 11
        && "humidity"@.len() == 8 && "power"@.len() == 5 && "last_seen"@.len() == 9);
}

/// The time of the request is sent whenever it is enabled, whatever the device
/// reports, and after everything else.
pub proof fn law_last_seen_is_never_skipped(
    set: PublishSet,
    sensors: SensorState,
    last_seen: Seq<char>,
)
    requires
        set.has(Publish::LastSeen),
    ensures
        readings(set, sensors, last_seen).len() > 0,
        readings(set, sensors, last_seen).last() == ("last_seen"@, last_seen),
{
}

/// A screen that forwards nothing announces nothing and sends nothing.
pub proof fn law_nothing_enabled_nothing_sent(
    set: PublishSet,
    sensors: SensorState,
    last_seen: Seq<char>,
)
    requires
        forall|p: Publish| !#[trigger] set.has(p),
    ensures
        sensors_of(set) == Seq::<SensorModel>::empty(),
        readings(set, sensors, last_seen) == Seq::<(Seq<char>, Seq<char>)>::empty(),
{
    assert(!set.has(Publish::Battery) && !set.has(Publish::Temperature) && !set.has(
        Publish::Humidity,
    ) && !set.has(Publish::Power) && !set.has(Publish::LastSeen));
}

/// The value of the last entry with the key `key` is what the object holds.
proof fn lemma_object_holds(entries: Seq<(Seq<char>, Json)>, k: int)
    requires
        0 <= k < entries.len(),
        forall|j: int| k < j < entries.len() ==> (#[trigger] entries[j]).0 != entries[k].0,
    ensures
        object_of(entries).dom().contains(entries[k].0),
        object_of(entries)[entries[k].0] == entries[k].1,
    decreases entries.len(),
{
    if k < entries.len() - 1 {
        let before = entries.drop_last();
        assert(before[k] == entries[k]);
        assert forall|j: int| k < j < before.len() implies (#[trigger] before[j]).0
            != before[k].0 by {
            assert(before[j] == entries[j]);
        }
        lemma_object_holds(before, k);
        assert(entries[entries.len() - 1].0 != entries[k].0);
    }
}

/// A discovery message names the very topic that the values of the sensor are sent
/// to.
pub proof fn law_announced_topic_is_used(
    prefix: Seq<char>,
    screen: ScreenConfig,
    sensor: SensorModel,
    value: Seq<char>,
)
    ensures
        discovery_json(prefix, screen, sensor) matches Json::Object(o) && o.dom().contains(
            "state_topic"@,
        ) && o["state_topic"@] == Json::Text(
            state_model(prefix, screen.name@, sensor.key, value).topic,
        ),
{
    reveal_strlit("state_topic");
    reveal_strlit("device_class");
    reveal_strlit("device");
    reveal_strlit("unit_of_measurement");
    reveal_strlit("state_class");
    reveal_strlit("options");
    assert("state_topic"@[6] == 't' && "state_class"@[6] == 'c');
    assert("state_topic"@.len() == 11 && "device_class"@.len() == 12 && "device"@.len() == 6
        && "unit_of_measurement"@.len() == 19 && "options"@.len() == 7);
    let entries = discovery_entries(prefix, screen, sensor);
    assert(entries[2].0 == "state_topic"@);
    lemma_object_holds(entries, 2);
}

/// Each enabled reading that was reported is among the readings, and the time of the
/// request if it is enabled.
pub(crate) proof fn lemma_readings_listed(
    set: PublishSet,
    sensors: SensorState,
    last_seen: Seq<char>,
)
    ensures
        ({
            let all = readings(set, sensors, last_seen);
            &&& set.battery && sensors.battery_mv is Some ==> all.contains(
                ("battery_mv"@, decimal(sensors.battery_mv->0 as nat)),
            )
            &&& set.battery && sensors.battery_pct is Some ==> all.contains(
                ("battery_pct"@, decimal(sensors.battery_pct->0 as nat)),
            )
            &&& set.temperature && sensors.temperature_c is Some ==> all.contains(
                ("temperature"@, sensors.temperature_c->0@),
            )
            &&& set.humidity && sensors.humidity_pct is Some ==> all.contains(
                ("humidity"@, sensors.humidity_pct->0@),
            )
            &&& set.power && sensors.power is Some ==> all.contains(
                ("power"@, sensors.power->0.name()),
            )
            &&& set.last_seen ==> all.contains(("last_seen"@, last_seen))
        }),
{
    let all = readings(set, sensors, last_seen);
    let a: int = if set.battery && sensors.battery_mv is Some {
        1
    } else {
        0
    };
    let b: int = a + if set.battery && sensors.battery_pct is Some {
        1int
    } else {
        0
    };
    let c: int = b + if set.temperature && sensors.temperature_c is Some {
        1int
    } else {
        0
    };
    let d: int = c + if set.humidity && sensors.humidity_pct is Some {
        1int
    } else {
        0
    };
    let e: int = d + if set.power && sensors.power is Some {
        1int
    } else {
        0
    };
    if set.battery && sensors.battery_mv is Some {
        assert(all[0] == ("battery_mv"@, decimal(sensors.battery_mv->0 as nat)));
    }
    if set.battery && sensors.battery_pct is Some {
        assert(all[a] == ("battery_pct"@, decimal(sensors.battery_pct->0 as nat)));
    }
    if set.temperature && sensors.temperature_c is Some {
        assert(all[b] == ("temperature"@, sensors.temperature_c->0@));
    }
    if set.humidity && sensors.humidity_pct is Some {
        assert(all[c] == ("humidity"@, sensors.humidity_pct->0@));
    }
    if set.power && sensors.power is Some {
        assert(all[d] == ("power"@, sensors.power->0.name()));
    }
    if set.last_seen {
        assert(all[e] == ("last_seen"@, last_seen));
    }
}

/// The messages for `rs` are as many, and each is that for the reading at its place.
pub(crate) proof fn lemma_message_of(
    ms: Seq<Message>,
    prefix: Seq<char>,
    screen: Seq<char>,
    rs: Seq<(Seq<char>, Seq<char>)>,
    i: int,
)
    requires
        message_views(ms) == state_models(prefix, screen, rs),
        0 <= i < ms.len() || 0 <= i < rs.len(),
    ensures
        ms.len() == rs.len(),
        ms[i]@ == state_model(prefix, screen, rs[i].0, rs[i].1),
{
    assert(message_views(ms).len() == ms.len());
    assert(state_models(prefix, screen, rs).len() == rs.len());
    assert(message_views(ms)[i] == ms[i]@);
    assert(state_models(prefix, screen, rs)[i] == state_model(prefix, screen, rs[i].0, rs[i].1));
}

/// A message for each of `rs` is among the messages `ms` if those are the messages for
/// them.
pub(crate) proof fn lemma_message_sent(
    ms: Seq<Message>,
    prefix: Seq<char>,
    screen: Seq<char>,
    rs: Seq<(Seq<char>, Seq<char>)>,
    reading: (Seq<char>, Seq<char>),
)
    requires
        message_views(ms) == state_models(prefix, screen, rs),
        rs.contains(reading),
    ensures
        exists|i: int|
            0 <= i < ms.len() && (#[trigger] ms[i]).topic@ == prefix + "/"@ + screen + "/"@
                + reading.0 && ms[i].payload@ == reading.1,
{
    let i = choose|i: int| 0 <= i < rs.len() && rs[i] == reading;
    lemma_message_of(ms, prefix, screen, rs, i);
    assert(ms[i].topic@ == prefix + "/"@ + screen + "/"@ + reading.0);
}

/// A reading is one that is enabled and was reported, or the time of the request if
/// that is enabled.
pub(crate) proof fn lemma_reading_value(
    set: PublishSet,
    sensors: SensorState,
    last_seen: Seq<char>,
    i: int,
)
    requires
        0 <= i < readings(set, sensors, last_seen).len(),
    ensures
        ({
            let (key, value) = readings(set, sensors, last_seen)[i];
            ||| set.battery && sensors.battery_mv is Some && key == "battery_mv"@ && value
                == decimal(sensors.battery_mv->0 as nat)
            ||| set.battery && sensors.battery_pct is Some && key == "battery_pct"@ && value
                == decimal(sensors.battery_pct->0 as nat)
            ||| set.temperature && sensors.temperature_c is Some && key == "temperature"@ && value
                == sensors.temperature_c->0@
            ||| set.humidity && sensors.humidity_pct is Some && key == "humidity"@ && value
                == sensors.humidity_pct->0@
            ||| set.power && sensors.power is Some && key == "power"@ && value
                == sensors.power->0.name()
            ||| set.last_seen && key == "last_seen"@ && value == last_seen
        }),
{
}

/// The readings have different keys.
pub(crate) proof fn lemma_reading_keys_differ(
    set: PublishSet,
    sensors: SensorState,
    last_seen: Seq<char>,
    i: int,
    j: int,
)
    requires
        0 <= i < j < readings(set, sensors, last_seen).len(),
    ensures
        readings(set, sensors, last_seen)[i].0 != readings(set, sensors, last_seen)[j].0,
{
    reveal_strlit("battery_pct");
    reveal_strlit("battery_mv");
    reveal_strlit("temperature");
    reveal_strlit("humidity");
    reveal_strlit("power");
    reveal_strlit("last_seen");
    assert("battery_pct"@[0] == 'b' && "temperature"@[0] == 't');
    assert("battery_pct"@.len() == 11 && "battery_mv"@.len() == 10 && "temperature"@.len() == 11
        && "humidity"@.len() == 8 && "power"@.len() == 5 && "last_seen"@.len() == 9);
}

/// Different keys make different topics.
pub(crate) proof fn lemma_topics_differ(
    prefix: Seq<char>,
    screen: Seq<char>,
    a: Seq<char>,
    b: Seq<char>,
)
    requires
        a != b,
    ensures
        state_topic(prefix, screen, a) != state_topic(prefix, screen, b),
{
    let head = prefix + "/"@ + screen + "/"@;
    if head + a == head + b {
        assert((head + a).len() == (head + b).len());
        assert forall|i: int| 0 <= i < a.len() implies a[i] == b[i] by {
            assert((head + a)[head.len() + i] == (head + b)[head.len() + i]);
        }
        assert(a =~= b);
    }
}

/// Every message for a request carries an enabled reading that came with it, or the time
/// of it, under the name of the screen and of the reading, and the broker keeps it.
pub proof fn law_forwarded_readings_sound(
    publisher: &Publisher,
    screen: &str,
    enabled: &PublishSet,
    sensors: &SensorState,
    now: DateTime,
    ms: Vec<Message>,
    i: int,
)
    requires
        call_ensures(
            Publisher::publish_screen_state,
            (publisher, screen, enabled, sensors, now),
            ms,
        ),
        0 <= i < ms@.len(),
    ensures
        ms@[i].qos is AtMostOnce,
        ms@[i].retain,
        ({
            ||| enabled.battery && sensors.battery_mv is Some
                && ms@[i].topic@ == publisher.state_prefix@ + "/"@ + screen@ + "/"@
                + "battery_mv"@ && ms@[i].payload@ == decimal(sensors.battery_mv->0 as nat)
            ||| enabled.battery && sensors.battery_pct is Some
                && ms@[i].topic@ == publisher.state_prefix@ + "/"@ + screen@ + "/"@
                + "battery_pct"@ && ms@[i].payload@ == decimal(sensors.battery_pct->0 as nat)
            ||| enabled.temperature && sensors.temperature_c is Some
                && ms@[i].topic@ == publisher.state_prefix@ + "/"@ + screen@ + "/"@
                + "temperature"@ && ms@[i].payload@ == sensors.temperature_c->0@
            ||| enabled.humidity && sensors.humidity_pct is Some
                && ms@[i].topic@ == publisher.state_prefix@ + "/"@ + screen@ + "/"@
                + "humidity"@ && ms@[i].payload@ == sensors.humidity_pct->0@
            ||| enabled.power && sensors.power is Some
                && ms@[i].topic@ == publisher.state_prefix@ + "/"@ + screen@ + "/"@ + "power"@
                && ms@[i].payload@ == (match sensors.power->0 {
            PowerState::Battery => "battery"@,
            PowerState::Charging => "charging"@,
            PowerState::Full => "full"@,
            PowerState::Fault => "fault"@,
        })
            ||| enabled.last_seen
                && ms@[i].topic@ == publisher.state_prefix@ + "/"@ + screen@ + "/"@
                + "last_seen"@ && ms@[i].payload@ == rfc3339(now@)
        }),
{
    let rs = readings(*enabled, *sensors, rfc3339(now@));
    lemma_message_of(ms@, publisher.state_prefix@, screen@, rs, i);
    lemma_reading_value(*enabled, *sensors, rfc3339(now@), i);
}

/// Every enabled reading that came with a request is sent, and so is the time of it if it
/// is enabled.
pub proof fn law_forwarded_readings_complete(
    publisher: &Publisher,
    screen: &str,
    enabled: &PublishSet,
    sensors: &SensorState,
    now: DateTime,
    ms: Vec<Message>,
)
    requires
        call_ensures(
            Publisher::publish_screen_state,
            (publisher, screen, enabled, sensors, now),
            ms,
        ),
    ensures
        enabled.battery && sensors.battery_mv is Some ==> exists|i: int|
            0 <= i < ms@.len()
                && (#[trigger] ms@[i]).topic@ == publisher.state_prefix@ + "/"@ + screen@
                + "/"@ + "battery_mv"@ && ms@[i].payload@ == decimal(sensors.battery_mv->0 as nat),
        enabled.battery && sensors.battery_pct is Some ==> exists|i: int|
            0 <= i < ms@.len()
                && (#[trigger] ms@[i]).topic@ == publisher.state_prefix@ + "/"@ + screen@
                + "/"@ + "battery_pct"@
                && ms@[i].payload@ == decimal(sensors.battery_pct->0 as nat),
        enabled.temperature && sensors.temperature_c is Some ==> exists|i: int|
            0 <= i < ms@.len()
                && (#[trigger] ms@[i]).topic@ == publisher.state_prefix@ + "/"@ + screen@
                + "/"@ + "temperature"@ && ms@[i].payload@ == sensors.temperature_c->0@,
        enabled.humidity && sensors.humidity_pct is Some ==> exists|i: int|
            0 <= i < ms@.len()
                && (#[trigger] ms@[i]).topic@ == publisher.state_prefix@ + "/"@ + screen@
                + "/"@ + "humidity"@ && ms@[i].payload@ == sensors.humidity_pct->0@,
        enabled.power && sensors.power is Some ==> exists|i: int|
            0 <= i < ms@.len()
                && (#[trigger] ms@[i]).topic@ == publisher.state_prefix@ + "/"@ + screen@
                + "/"@ + "power"@ && ms@[i].payload@ == (match sensors.power->0 {
            PowerState::Battery => "battery"@,
            PowerState::Charging => "charging"@,
            PowerState::Full => "full"@,
            PowerState::Fault => "fault"@,
        }),
        enabled.last_seen ==> exists|i: int|
            0 <= i < ms@.len()
                && (#[trigger] ms@[i]).topic@ == publisher.state_prefix@ + "/"@ + screen@
                + "/"@ + "last_seen"@ && ms@[i].payload@ == rfc3339(now@),
{
    let rs = readings(*enabled, *sensors, rfc3339(now@));
    lemma_readings_listed(*enabled, *sensors, rfc3339(now@));
    if enabled.battery && sensors.battery_mv is Some {
        lemma_message_sent(ms@, publisher.state_prefix@, screen@, rs, ("battery_mv"@,
            decimal(sensors.battery_mv->0 as nat)));
    }
    if enabled.battery && sensors.battery_pct is Some {
        lemma_message_sent(ms@, publisher.state_prefix@, screen@, rs, ("battery_pct"@,
            decimal(sensors.battery_pct->0 as nat)));
    }
    if enabled.temperature && sensors.temperature_c is Some {
        lemma_message_sent(ms@, publisher.state_prefix@, screen@, rs, ("temperature"@,
            sensors.temperature_c->0@));
    }
    if enabled.humidity && sensors.humidity_pct is Some {
        lemma_message_sent(ms@, publisher.state_prefix@, screen@, rs, ("humidity"@,
            sensors.humidity_pct->0@));
    }
    if enabled.power && sensors.power is Some {
        lemma_message_sent(ms@, publisher.state_prefix@, screen@, rs, ("power"@,
            sensors.power->0.name()));
    }
    if enabled.last_seen {
        lemma_message_sent(ms@, publisher.state_prefix@, screen@, rs, ("last_seen"@,
            rfc3339(now@)));
    }
}

/// No two messages for a request go to one topic.
pub proof fn law_forwarded_readings_distinct(
    publisher: &Publisher,
    screen: &str,
    enabled: &PublishSet,
    sensors: &SensorState,
    now: DateTime,
    ms: Vec<Message>,
    i: int,
    j: int,
)
    requires
        call_ensures(
            Publisher::publish_screen_state,
            (publisher, screen, enabled, sensors, now),
            ms,
        ),
        0 <= i < j < ms@.len(),
    ensures
        ms@[i].topic@ != ms@[j].topic@,
{
    let rs = readings(*enabled, *sensors, rfc3339(now@));
    lemma_message_of(ms@, publisher.state_prefix@, screen@, rs, i);
    lemma_message_of(ms@, publisher.state_prefix@, screen@, rs, j);
    lemma_reading_keys_differ(*enabled, *sensors, rfc3339(now@), i, j);
    lemma_topics_differ(publisher.state_prefix@, screen@, rs[i].0, rs[j].0);
}

/// An object holds the keys of its entries only.
proof fn lemma_object_keys(entries: Seq<(Seq<char>, Json)>, key: Seq<char>)
    requires
        object_of(entries).dom().contains(key),
    ensures
        exists|k: int| 0 <= k < entries.len() && (#[trigger] entries[k]).0 == key,
    decreases entries.len(),
{
    let last = entries.len() - 1;
    if entries.len() > 0 && entries[last].0 != key {
        let before = entries.drop_last();
        lemma_object_keys(before, key);
        let k = choose|k: int| 0 <= k < before.len() && (#[trigger] before[k]).0 == key;
        assert(entries[k].0 == key);
    }
}

/// The keys of a discovery message differ.
proof fn lemma_discovery_keys_differ()
    ensures
        ({
            let keys = seq![
                "name"@,
                "unique_id"@,
                "state_topic"@,
                "device_class"@,
                "device"@,
                "unit_of_measurement"@,
                "state_class"@,
                "options"@,
            ];
            forall|i: int, j: int| 0 <= i < j < 8 ==> #[trigger] keys[i] != #[trigger] keys[j]
        }),
{
    reveal_strlit("name");
    reveal_strlit("unique_id");
    reveal_strlit("state_topic");
    reveal_strlit("device_class");
    reveal_strlit("device");
    reveal_strlit("unit_of_measurement");
    reveal_strlit("state_class");
    reveal_strlit("options");
    assert("state_topic"@[6] == 't' && "state_class"@[6] == 'c');
    assert("name"@.len() == 4 && "unique_id"@.len() == 9 && "state_topic"@.len() == 11
        && "device_class"@.len() == 12 && "device"@.len() == 6 && "unit_of_measurement"@.len() == 19
        && "state_class"@.len() == 11 && "options"@.len() == 7);
}

/// A discovery message describes its sensor: its name and class, the topic that its
/// values are sent to, the unit of a measured value and the values of an enumeration,
/// and neither for a sensor that has none.
pub proof fn law_discovery_describes_the_sensor(
    prefix: &str,
    screen: &ScreenConfig,
    sensor: &Sensor,
    v: serde_json::Value,
)
    requires
        call_ensures(discovery_value, (prefix, screen, sensor), v),
    ensures
        json_content(v) is Object,
        ({
            let o = json_content(v)->Object_0;
            &&& o.dom().contains("name"@) && o["name"@] == Json::Text(sensor.name@)
            &&& o.dom().contains("unique_id"@) && o["unique_id"@] == Json::Text(
                "epd_photoframe_"@ + slug_of(screen.name@) + "_"@ + sensor.key@,
            )
            &&& o.dom().contains("state_topic"@) && o["state_topic"@] == Json::Text(
                prefix@ + "/"@ + screen.name@ + "/"@ + sensor.key@,
            )
            &&& o.dom().contains("device_class"@) && o["device_class"@] == Json::Text(
                sensor.device_class@,
            )
            &&& sensor.unit is Some <==> o.dom().contains("unit_of_measurement"@)
            &&& sensor.unit is Some <==> o.dom().contains("state_class"@)
            &&& sensor.unit is Some ==> o["unit_of_measurement"@] == Json::Text(sensor.unit->0@)
            &&& sensor.unit is Some ==> o["state_class"@] == Json::Text("measurement"@)
            &&& sensor.options is Some <==> o.dom().contains("options"@)
            &&& sensor.options is Some ==> o["options"@] is List
                && o["options"@]->List_0.len() == sensor.options->0@.len()
            &&& o.dom().contains("device"@) && o["device"@] is Object
        }),
        sensor.options is Some ==> forall|i: int|
            0 <= i < sensor.options->0@.len()
                ==> #[trigger] json_content(v)->Object_0["options"@]->List_0[i] == Json::Text(
                sensor.options->0@[i]@,
            ),
{
    let entries = discovery_entries(prefix@, *screen, sensor@);
    let keys = seq![
        "name"@,
        "unique_id"@,
        "state_topic"@,
        "device_class"@,
        "device"@,
        "unit_of_measurement"@,
        "state_class"@,
        "options"@,
    ];
    lemma_discovery_keys_differ();
    assert(keys[0] == "name"@ && keys[1] == "unique_id"@ && keys[2] == "state_topic"@ && keys[3]
        == "device_class"@ && keys[4] == "device"@ && keys[5] == "unit_of_measurement"@ && keys[6]
        == "state_class"@ && keys[7] == "options"@);
    lemma_object_holds(entries, 0);
    lemma_object_holds(entries, 1);
    lemma_object_holds(entries, 2);
    lemma_object_holds(entries, 3);
    lemma_object_holds(entries, 4);
    if sensor.unit is Some {
        lemma_object_holds(entries, 5);
        lemma_object_holds(entries, 6);
    } else {
        if object_of(entries).dom().contains("unit_of_measurement"@) {
            lemma_object_keys(entries, "unit_of_measurement"@);
        }
        if object_of(entries).dom().contains("state_class"@) {
            lemma_object_keys(entries, "state_class"@);
        }
    }
    if sensor.options is Some {
        lemma_object_holds(entries, entries.len() - 1);
        assert(json_texts(string_views(sensor.options->0@)).len() == sensor.options->0@.len());
        assert forall|i: int| 0 <= i < sensor.options->0@.len() implies #[trigger] json_content(
            v,
        )->Object_0["options"@]->List_0[i] == Json::Text(sensor.options->0@[i]@) by {
            assert(string_views(sensor.options->0@)[i] == sensor.options->0@[i]@);
        }
    } else {
        if object_of(entries).dom().contains("options"@) {
            lemma_object_keys(entries, "options"@);
        }
    }
}

/// A discovery message describes its device: by one identifier made of the name of the
/// screen, and by the screen's label, or its name where it has none.
pub proof fn law_discovery_describes_the_device(
    prefix: &str,
    screen: &ScreenConfig,
    sensor: &Sensor,
    v: serde_json::Value,
)
    requires
        call_ensures(discovery_value, (prefix, screen, sensor), v),
    ensures
        json_content(v) is Object,
        json_content(v)->Object_0["device"@] is Object,
        ({
            let d = json_content(v)->Object_0["device"@]->Object_0;
            &&& d.dom().contains("identifiers"@) && d["identifiers"@] == Json::List(
                seq![Json::Text("epd_photoframe_"@ + slug_of(screen.name@))],
            )
            &&& d.dom().contains("name"@)
            &&& screen.mqtt_name is Some ==> d["name"@] == Json::Text(screen.mqtt_name->0@)
            &&& screen.mqtt_name is None ==> d["name"@] == Json::Text(screen.name@)
            &&& d.dom().contains("manufacturer"@) && d["manufacturer"@] == Json::Text(
                "epd-photoframe-server"@,
            )
            &&& d.dom().contains("model"@) && d["model"@] == Json::Text("ePaper photo frame"@)
        }),
{
    law_discovery_describes_the_sensor(prefix, screen, sensor, v);
    let entries = discovery_entries(prefix@, *screen, sensor@);
    lemma_discovery_keys_differ();
    let keys = seq![
        "name"@,
        "unique_id"@,
        "state_topic"@,
        "device_class"@,
        "device"@,
        "unit_of_measurement"@,
        "state_class"@,
        "options"@,
    ];
    assert(keys[4] == "device"@ && keys[5] == "unit_of_measurement"@ && keys[6] == "state_class"@
        && keys[7] == "options"@);
    lemma_object_holds(entries, 4);
    let inner = device_entries(*screen);
    reveal_strlit("identifiers");
    reveal_strlit("name");
    reveal_strlit("manufacturer");
    reveal_strlit("model");
    assert("identifiers"@.len() == 11 && "name"@.len() == 4 && "manufacturer"@.len() == 12
        && "model"@.len() == 5);
    lemma_object_holds(inner, 0);
    lemma_object_holds(inner, 1);
    lemma_object_holds(inner, 2);
    lemma_object_holds(inner, 3);
}

/// A discovery message goes to a topic of its own for each sensor of each screen, is
/// kept by the broker, and carries the description of the sensor.
pub proof fn law_discovery_is_kept(
    cfg: &MqttConfig,
    screen: &ScreenConfig,
    sensor: &Sensor,
    prefix: &str,
    v: serde_json::Value,
    m: Message,
)
    requires
        call_ensures(discovery_message, (cfg, screen, sensor), m),
        prefix@ == cfg.state_prefix@,
        call_ensures(discovery_value, (prefix, screen, sensor), v),
    ensures
        m.topic@ == cfg.discovery_prefix@ + "/sensor/epd_photoframe_"@ + slug_of(screen.name@)
            + "/"@ + sensor.key@ + "/config"@,
        m.qos is AtLeastOnce,
        m.retain,
        m.payload@ == json_text(json_content(v)),
{
}

/// A name as an identifier is as long as the name; letters of either case become
/// lower-case letters, digits stay, and anything else becomes an underscore.
pub proof fn law_slug_goes_by_characters(name: &str, r: String, i: int)
    requires
        call_ensures(slug, (name,), r),
        0 <= i < name@.len(),
    ensures
        r@.len() == name@.len(),
        r@ == slug_of(name@),
        'a' <= name@[i] <= 'z' ==> r@[i] == name@[i],
        '0' <= name@[i] <= '9' ==> r@[i] == name@[i],
        'A' <= name@[i] <= 'Z' ==> r@[i] as int == name@[i] as int + 32,
        !('a' <= name@[i] <= 'z') && !('0' <= name@[i] <= '9')
            && !('A' <= name@[i] <= 'Z') ==> r@[i]
            == '_',
{
}

/// One sensor value goes to the topic of its screen and key as it is, and the broker
/// keeps it.
pub proof fn law_value_is_published_as_it_is(
    publisher: &Publisher,
    screen: &str,
    key: &str,
    value: &str,
    m: Message,
)
    requires
        call_ensures(Publisher::publish, (publisher, screen, key, value), m),
    ensures
        m.topic@ == publisher.state_prefix@ + "/"@ + screen@ + "/"@ + key@,
        m.qos is AtMostOnce,
        m.retain,
        m.payload@ == value@,
{
}

/// The sensors of a screen are those of the groups that it forwards, each with its
/// name, class and unit, and no others.
pub proof fn law_enabled_sensors_are_those_of_the_groups(
    cfg: &ScreenConfig,
    all: Vec<Sensor>,
    i: int,
)
    requires
        call_ensures(enabled_sensors, (cfg,), all),
        0 <= i < all@.len(),
    ensures
        ({
            let s = all@[i];
            ||| cfg.publish.battery && s.key@ == "battery_pct"@ && s.name@ == "Battery"@
                && s.device_class@ == "battery"@ && s.unit is Some && s.unit->0@ == "%"@
                && s.options is None
            ||| cfg.publish.battery && s.key@ == "battery_mv"@ && s.name@ == "Battery voltage"@
                && s.device_class@ == "voltage"@ && s.unit is Some && s.unit->0@ == "mV"@
                && s.options is None
            ||| cfg.publish.temperature && s.key@ == "temperature"@ && s.name@ == "Temperature"@
                && s.device_class@ == "temperature"@ && s.unit is Some && s.unit->0@ == "°C"@
                && s.options is None
            ||| cfg.publish.humidity && s.key@ == "humidity"@ && s.name@ == "Humidity"@
                && s.device_class@ == "humidity"@ && s.unit is Some && s.unit->0@ == "%"@
                && s.options is None
            ||| cfg.publish.power && s.key@ == "power"@ && s.name@ == "Power"@ && s.device_class@
                == "enum"@ && s.unit is None && s.options is Some && s.options->0@.len() == 4
                && s.options->0@[0]@ == "battery"@ && s.options->0@[1]@ == "charging"@
                && s.options->0@[2]@ == "full"@ && s.options->0@[3]@ == "fault"@
            ||| cfg.publish.last_seen && s.key@ == "last_seen"@ && s.name@ == "Last seen"@
                && s.device_class@ == "timestamp"@ && s.unit is None && s.options is None
        }),
{
    assert(sensor_views(all@).len() == all@.len());
    assert(sensor_views(all@)[i] == all@[i]@);
    if all@[i]@ == power_sensor() {
        let o = string_views(all@[i].options->0@);
        assert(o == power_sensor().options->0);
        assert(o.len() == 4);
        assert(o[0] == all@[i].options->0@[0]@ && o[1] == all@[i].options->0@[1]@ && o[2]
            == all@[i].options->0@[2]@ && o[3] == all@[i].options->0@[3]@);
    }
}

/// Every group that a screen forwards has its sensors.
pub proof fn law_groups_have_their_sensors(cfg: &ScreenConfig, all: Vec<Sensor>)
    requires
        call_ensures(enabled_sensors, (cfg,), all),
    ensures
        all@.len() == (if cfg.publish.battery {
            2int
        } else {
            0
        }) + (if cfg.publish.temperature {
            1int
        } else {
            0
        }) + (if cfg.publish.humidity {
            1int
        } else {
            0
        }) + (if cfg.publish.power {
            1int
        } else {
            0
        }) + (if cfg.publish.last_seen {
            1int
        } else {
            0
        }),
        forall|i: int, j: int|
            0 <= i < j < all@.len() ==> (#[trigger] all@[i]).key@ != (#[trigger] all@[j]).key@,
{
    assert(sensor_views(all@).len() == all@.len());
    assert forall|i: int, j: int| 0 <= i < j < all@.len() implies (#[trigger] all@[i]).key@ != (
    #[trigger] all@[j]).key@ by {
        assert(sensor_views(all@)[i] == all@[i]@);
        assert(sensor_views(all@)[j] == all@[j]@);
        law_sensor_keys_differ(cfg.publish, i, j);
    }
}

/// The announcements of the first screens are among those of all.
proof fn lemma_announcement_listed(
    cfg: MqttConfig,
    screens: Seq<ScreenConfig>,
    i: int,
    j: int,
)
    requires
        0 <= i < screens.len(),
        0 <= j < sensors_of(screens[i].publish).len(),
    ensures
        all_announcements(cfg, screens).contains(
            discovery_model(cfg, screens[i], sensors_of(screens[i].publish)[j]),
        ),
    decreases screens.len(),
{
    let before = all_announcements(cfg, screens.drop_last());
    let last = announcements(cfg, screens.last(), sensors_of(screens.last().publish));
    let wanted = discovery_model(cfg, screens[i], sensors_of(screens[i].publish)[j]);
    if i == screens.len() - 1 {
        assert(last[j] == wanted);
        assert((before + last)[before.len() + j] == wanted);
    } else {
        assert(screens.drop_last()[i] == screens[i]);
        lemma_announcement_listed(cfg, screens.drop_last(), i, j);
        let k = choose|k: int| 0 <= k < before.len() && before[k] == wanted;
        assert((before + last)[k] == wanted);
    }
}

/// Whether `m` announces a sensor of one of `screens`.
spec fn announces(cfg: MqttConfig, screens: Seq<ScreenConfig>, m: MessageModel) -> bool {
    exists|i: int, j: int|
        0 <= i < screens.len() && 0 <= j < sensors_of(screens[i].publish).len() && m
            == #[trigger] discovery_model(cfg, screens[i], sensors_of(screens[i].publish)[j])
}

/// Every announcement is of a sensor of a screen.
proof fn lemma_announcement_source(cfg: MqttConfig, screens: Seq<ScreenConfig>, k: int)
    requires
        0 <= k < all_announcements(cfg, screens).len(),
    ensures
        announces(cfg, screens, all_announcements(cfg, screens)[k]),
    decreases screens.len(),
{
    let before = all_announcements(cfg, screens.drop_last());
    let sensors = sensors_of(screens.last().publish);
    let last = announcements(cfg, screens.last(), sensors);
    let m = all_announcements(cfg, screens)[k];
    if k < before.len() {
        let fewer = screens.drop_last();
        lemma_announcement_source(cfg, fewer, k);
        let (i, j) = choose|i: int, j: int|
            0 <= i < fewer.len() && 0 <= j < sensors_of(fewer[i].publish).len() && m
                == #[trigger] discovery_model(cfg, fewer[i], sensors_of(fewer[i].publish)[j]);
        assert(fewer[i] == screens[i]);
        assert(m == discovery_model(cfg, screens[i], sensors_of(screens[i].publish)[j]));
    } else {
        let i = screens.len() - 1;
        let j = k - before.len();
        assert(m == last[j]);
        assert(m == discovery_model(cfg, screens[i], sensors_of(screens[i].publish)[j]));
    }
}

/// The first messages to the broker announce every sensor of every screen.
pub proof fn law_every_sensor_is_announced(
    cfg: &MqttConfig,
    screens: &Vec<ScreenConfig>,
    r: (Publisher, Connection),
    i: int,
    all: Vec<Sensor>,
    j: int,
    m: Message,
)
    requires
        call_ensures(Publisher::connect, (cfg, screens), r),
        0 <= i < screens@.len(),
        call_ensures(enabled_sensors, (&screens@[i],), all),
        0 <= j < all@.len(),
        call_ensures(discovery_message, (cfg, &screens@[i], &all@[j]), m),
    ensures
        exists|k: int| 0 <= k < r.1.discovery@.len() && (#[trigger] r.1.discovery@[k])@ == m@,
{
    assert(sensor_views(all@).len() == all@.len());
    assert(sensor_views(all@)[j] == all@[j]@);
    lemma_announcement_listed(*cfg, screens@, i, j);
    let sent = message_views(r.1.discovery@);
    let k = choose|k: int| 0 <= k < sent.len() && sent[k] == m@;
    assert(sent[k] == r.1.discovery@[k]@);
    assert(r.1.discovery@[k]@ == m@);
}

/// The first messages to the broker announce nothing but sensors of the screens: each
/// goes to the discovery topic of an enabled sensor, and the broker keeps it.
pub proof fn law_only_sensors_are_announced(
    cfg: &MqttConfig,
    screens: &Vec<ScreenConfig>,
    r: (Publisher, Connection),
    k: int,
)
    requires
        call_ensures(Publisher::connect, (cfg, screens), r),
        0 <= k < r.1.discovery@.len(),
    ensures
        r.1.discovery@[k].qos is AtLeastOnce,
        r.1.discovery@[k].retain,
        exists|i: int, j: int|
            0 <= i < screens@.len() && 0 <= j < sensors_of(screens@[i].publish).len()
                && r.1.discovery@[k].topic@ == cfg.discovery_prefix@ + "/sensor/epd_photoframe_"@
                + slug_of(screens@[i].name@) + "/"@ + (#[trigger] sensors_of(
                screens@[i].publish,
            )[j]).key + "/config"@,
{
    let sent = message_views(r.1.discovery@);
    assert(sent.len() == r.1.discovery@.len());
    assert(sent[k] == r.1.discovery@[k]@);
    lemma_announcement_source(*cfg, screens@, k);
    let (i, j) = choose|i: int, j: int|
        0 <= i < screens@.len() && 0 <= j < sensors_of(screens@[i].publish).len() && sent[k]
            == #[trigger] discovery_model(*cfg, screens@[i], sensors_of(screens@[i].publish)[j]);
    assert(r.1.discovery@[k].topic@ == discovery_topic(
        cfg.discovery_prefix@,
        screens@[i].name@,
        sensors_of(screens@[i].publish)[j].key,
    ));
}

/// The connection is made as configured, and the values go to the configured prefix.
pub proof fn law_connection_is_as_configured(
    cfg: &MqttConfig,
    screens: &Vec<ScreenConfig>,
    r: (Publisher, Connection),
)
    requires
        call_ensures(Publisher::connect, (cfg, screens), r),
    ensures
        r.0.state_prefix@ == cfg.state_prefix@,
        r.1.client_id@ == cfg.client_id@,
        r.1.broker@ == cfg.broker@,
        r.1.port == cfg.port,
        r.1.keep_alive_secs == 60,
        r.1.capacity == 256,
        cfg.username is Some && cfg.password is Some ==> (
        r.1.credentials matches Some((user, password)) && user@ == cfg.username->0@ && password@
            == cfg.password->0@),
        cfg.username is None || cfg.password is None ==> r.1.credentials is None,
{
}

} // verus!
