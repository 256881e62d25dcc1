//! The configuration of the server and its screens.

use vstd::prelude::*;

use crate::color::{BackgroundMethod, ColorConfig};
use crate::locale::LocaleFormatters;
use crate::schedule::{Rotate, Timezone};
use crate::time::TimeDelta;

verus! {

/// The whole configuration.
#[derive(Debug)]
pub struct Config {
    /// Address the HTTP server binds to, `host:port`.
    pub listen: String,
    /// The MQTT broker that sensor values are forwarded to, if any.
    pub mqtt: Option<MqttConfig>,
    pub screens: Vec<ScreenConfig>,
}

/// The address to bind to when the configuration names none.
pub fn default_listen() -> (r: String)
    ensures
        r@ == "0.0.0.0:3000"@,
{
    "0.0.0.0:3000".to_owned()
}

impl Config {
    /// The configuration with the default listen address and no broker.
    pub fn new(screens: Vec<ScreenConfig>) -> (r: Config)
        ensures
            r.listen@ == "0.0.0.0:3000"@,
            r.mqtt is None,
            r.screens == screens,
    {
        Config { listen: default_listen(), mqtt: None, screens }
    }
}

/// An MQTT broker, and how to talk to it.
#[derive(Debug)]
pub struct MqttConfig {
    pub broker: String,
    pub port: u16,
    pub username: Option<String>,
    pub password: Option<String>,
    pub client_id: String,
    pub discovery_prefix: String,
    pub state_prefix: String,
}

/// The port of a broker that is given without one.
pub fn default_mqtt_port() -> (r: u16)
    ensures
        r == 1883,
{
    1883
}

/// The client name under which the server connects by default.
pub fn default_mqtt_client_id() -> (r: String)
    ensures
        r@ == "epd-photoframe-server"@,
{
    "epd-photoframe-server".to_owned()
}

/// Where discovery messages go by default.
pub fn default_mqtt_discovery_prefix() -> (r: String)
    ensures
        r@ == "homeassistant"@,
{
    "homeassistant".to_owned()
}

/// Where sensor values go by default.
pub fn default_mqtt_state_prefix() -> (r: String)
    ensures
        r@ == "epd-photoframe"@,
{
    "epd-photoframe".to_owned()
}

impl MqttConfig {
    /// The broker `broker` with everything else at its default.
    pub fn new(broker: String) -> (r: MqttConfig)
        ensures
            r.broker == broker,
            r.port == 1883,
            r.username is None,
            r.password is None,
            r.client_id@ == "epd-photoframe-server"@,
            r.discovery_prefix@ == "homeassistant"@,
            r.state_prefix@ == "epd-photoframe"@,
    {
        MqttConfig {
            broker,
            port: default_mqtt_port(),
            username: None,
            password: None,
            client_id: default_mqtt_client_id(),
            discovery_prefix: default_mqtt_discovery_prefix(),
            state_prefix: default_mqtt_state_prefix(),
        }
    }
}

/// One screen.
#[derive(Debug)]
pub struct ScreenConfig {
    pub name: String,
    /// Label of the screen in Home Assistant; `name` where there is none.
    pub mqtt_name: Option<String>,
    pub width: u32,
    pub height: u32,
    /// Public album share URL.
    pub share_url: String,
    /// How the album service resizes a photo to the screen.
    pub fit: FitMethod,
    /// What goes around a photo that is smaller than the screen.
    pub background: BackgroundMethod,
    pub infobox: Option<InfoboxConfig>,
    pub battery_indicator: Option<BatteryIndicatorConfig>,
    /// When the album is reshuffled. Without a schedule the first shuffle stays.
    pub rotate: Option<Rotate>,
    /// How long after a rotation the device is to fetch the new photo.
    pub wake_delay: TimeDelta,
    /// How long the device is to wait after a failed or partial render, and where no
    /// rotation is to come.
    pub error_refresh: TimeDelta,
    pub timezone: Timezone,
    pub locale: LocaleFormatters,
    pub dither: DitherConfig,
    /// Which readings are forwarded to the MQTT broker.
    pub publish: PublishSet,
}

/// The time after which a failed request is repeated by default: an hour.
pub fn default_error_refresh() -> (r: TimeDelta)
    ensures
        r@ == 3600 * 1_000_000_000,
{
    match TimeDelta::new(3600, 0) {
        Some(d) => d,
        None => TimeDelta::zero(),
    }
}

impl ScreenConfig {
    /// A screen with everything that may be left out at its default.
    pub fn new(
        name: String,
        width: u32,
        height: u32,
        share_url: String,
        timezone: Timezone,
        locale: LocaleFormatters,
    ) -> (r: ScreenConfig)
        ensures
            r.name == name,
            r.mqtt_name is None,
            r.width == width,
            r.height == height,
            r.share_url == share_url,
            r.fit == FitMethod::Crop,
            r.background == BackgroundMethod::Solid(
                (ColorConfig { red: 255, green: 255, blue: 255, alpha: 255 }),
            ),
            r.infobox is None,
            r.battery_indicator is None,
            r.rotate is None,
            r.wake_delay@ == 0,
            r.error_refresh@ == 3600 * 1_000_000_000,
            r.timezone == timezone,
            r.locale == locale,
            r.dither == default_dither(),
            forall|p: Publish| r.publish.has(p) <==> p is Battery || p is LastSeen,
    {
        ScreenConfig {
            name,
            mqtt_name: None,
            width,
            height,
            share_url,
            fit: FitMethod::default(),
            background: BackgroundMethod::default(),
            infobox: None,
            battery_indicator: None,
            rotate: None,
            wake_delay: TimeDelta::zero(),
            error_refresh: default_error_refresh(),
            timezone,
            locale,
            dither: DitherConfig::default(),
            publish: default_publish(),
        }
    }
}

/// A group of readings that can be forwarded.
#[derive(Clone, Copy, Debug, PartialEq, Eq, Hash, Structural)]
pub enum Publish {
    /// Battery voltage and battery level: two sensors.
    Battery,
    Temperature,
    Humidity,
    Power,
    /// The time of the last request, by the server's clock.
    LastSeen,
}

/// A set of groups of readings.
#[derive(Clone, Copy, Debug, PartialEq, Eq)]
pub struct PublishSet {
    pub battery: bool,
    pub temperature: bool,
    pub humidity: bool,
    pub power: bool,
    pub last_seen: bool,
}

impl PublishSet {
    /// Whether `p` is in the set.
    pub open spec fn has(self, p: Publish) -> bool {
        match p {
            Publish::Battery => self.battery,
            Publish::Temperature => self.temperature,
            Publish::Humidity => self.humidity,
            Publish::Power => self.power,
            Publish::LastSeen => self.last_seen,
        }
    }

    /// Whether this is `before` with `p` added.
    pub open spec fn extends(self, before: PublishSet, p: Publish) -> bool {
        forall|q: Publish| #[trigger] self.has(q) <==> q == p || before.has(q)
    }

    /// The set without elements.
    pub fn empty() -> (r: PublishSet)
        ensures
            forall|p: Publish| !r.has(p),
    {
        PublishSet {
            battery: false,
            temperature: false,
            humidity: false,
            power: false,
            last_seen: false,
        }
    }

    /// Whether `p` is in the set.
    pub fn contains(&self, p: Publish) -> (r: bool)
        ensures
            r == self.has(p),
    {
        match p {
            Publish::Battery => self.battery,
            Publish::Temperature => self.temperature,
            Publish::Humidity => self.humidity,
            Publish::Power => self.power,
            Publish::LastSeen => self.last_seen,
        }
    }

    /// Puts `p` into the set.
    pub fn insert(&mut self, p: Publish)
        ensures
            final(self).extends(*old(self), p),
    {
        match p {
            Publish::Battery => {
                self.battery = true;
            },
            Publish::Temperature => {
                self.temperature = true;
            },
            Publish::Humidity => {
                self.humidity = true;
            },
            Publish::Power => {
                self.power = true;
            },
            Publish::LastSeen => {
                self.last_seen = true;
            },
        }
    }

    /// The set of what `entries` lists, once or more often.
    pub fn from_entries(entries: &Vec<Publish>) -> (r: PublishSet)
        ensures
            forall|p: Publish| #[trigger] r.has(p) <==> entries@.contains(p),
    {
        let mut set = PublishSet::empty();
        let mut i: usize = 0;
        while i < entries.len()
            invariant
                i <= entries.len(),
                forall|p: Publish| #[trigger] set.has(p) <==> entries@.take(i as int).contains(p),
            decreases entries.len() - i,
        {
            let ghost before = entries@.take(i as int);
            let ghost after = entries@.take(i + 1);
            set.insert(entries[i]);
            assert(after =~= before.push(entries@[i as int]));
            assert forall|p: Publish| #[trigger] set.has(p) <==> after.contains(p) by {
                if before.contains(p) {
                    let w = choose|w: int| 0 <= w < before.len() && before[w] == p;
                    assert(after[w] == p);
                }
                assert(after[i as int] == entries@[i as int]);
            }
            i = i + 1;
        }
        assert(entries@.take(entries@.len() as int) =~= entries@);
        set
    }
}

/// What is forwarded by default: the battery readings and the time of the request.
pub fn default_publish() -> (r: PublishSet)
    ensures
        forall|p: Publish| #[trigger] r.has(p) <==> p is Battery || p is LastSeen,
{
    let mut set = PublishSet::empty();
    set.insert(Publish::Battery);
    set.insert(Publish::LastSeen);
    set
}

/// How the album service fits a photo to the screen.
#[derive(Clone, Copy, Debug, PartialEq, Eq, Structural)]
pub enum FitMethod {
    /// Centre-crop to the requested size.
    Crop,
    /// Content-aware crop to the requested size.
    SmartCrop,
    /// Stretch to the requested size, ignoring the aspect ratio.
    Resize,
    /// Fit within the requested size, keeping the aspect ratio.
    Contain,
}

impl Default for FitMethod {
    fn default() -> (r: Self)
        ensures
            r == FitMethod::Crop,
    {
        FitMethod::Crop
    }
}

impl FitMethod {
    /// The suffix of the photo's URL that asks for this method.
    pub fn url_suffix(self) -> (r: &'static str)
        ensures
            r@ == (match self {
                FitMethod::Crop => "-c"@,
                FitMethod::SmartCrop => "-p"@,
                FitMethod::Resize => "-s"@,
                FitMethod::Contain => ""@,
            }),
    {
        match self {
            FitMethod::Crop => "-c",
            FitMethod::SmartCrop => "-p",
            FitMethod::Resize => "-s",
            FitMethod::Contain => "",
        }
    }
}

/// The overlay that shows day, date and weather. The coordinates are decimal
/// degrees, as text.
#[derive(Debug)]
pub struct InfoboxConfig {
    pub position: Position,
    pub background: ColorConfig,
    pub foreground: ColorConfig,
    pub latitude: String,
    pub longitude: String,
    pub units: Units,
    pub header_layout: HeaderLayout,
    pub weather_layout: WeatherLayout,
}

/// A corner or an edge of the screen.
#[derive(Clone, Copy, Debug, PartialEq, Eq, Structural)]
pub enum Position {
    TopLeft,
    Top,
    TopRight,
    Left,
    Right,
    BottomLeft,
    Bottom,
    BottomRight,
}

/// Units of temperature.
#[derive(Clone, Copy, Debug, PartialEq, Eq, Structural)]
pub enum Units {
    Metric,
    Imperial,
}

impl Default for Units {
    fn default() -> (r: Self)
        ensures
            r == Units::Metric,
    {
        Units::Metric
    }
}

impl Units {
    /// What is written after a temperature.
    pub fn temperature_suffix(self) -> (r: &'static str)
        ensures
            r@ == (match self {
                Units::Metric => "°C"@,
                Units::Imperial => "°F"@,
            }),
    {
        match self {
            Units::Metric => "°C",
            Units::Imperial => "°F",
        }
    }
}

/// Which lines the infobox shows above the weather.
#[derive(Clone, Copy, Debug, PartialEq, Eq, Structural)]
pub enum HeaderLayout {
    Nothing,
    Date,
    Day,
    /// The weekday on top, the date below.
    DayDate,
}

impl Default for HeaderLayout {
    fn default() -> (r: Self)
        ensures
            r == HeaderLayout::DayDate,
    {
        HeaderLayout::DayDate
    }
}

/// What the infobox shows of the weather.
#[derive(Clone, Copy, Debug, PartialEq, Eq, Structural)]
pub enum WeatherLayout {
    /// No weather; the forecast is not fetched.
    Nothing,
    /// Today.
    One,
    /// Today, and a row of the next four days.
    OnePlusFour,
    /// A row of five days.
    Five,
}

impl Default for WeatherLayout {
    fn default() -> (r: Self)
        ensures
            r == WeatherLayout::One,
    {
        WeatherLayout::One
    }
}

impl WeatherLayout {
    /// How many days of forecast the layout needs. With none, the forecast is not
    /// fetched.
    pub fn forecast_days_required(self) -> (r: u32)
        ensures
            r == (match self {
                WeatherLayout::Nothing => 0u32,
                WeatherLayout::One => 1,
                WeatherLayout::OnePlusFour => 5,
                WeatherLayout::Five => 5,
            }),
    {
        match self {
            WeatherLayout::Nothing => 0,
            WeatherLayout::One => 1,
            WeatherLayout::OnePlusFour => 5,
            WeatherLayout::Five => 5,
        }
    }
}

/// The overlay that shows the reported battery level.
#[derive(Debug)]
pub struct BatteryIndicatorConfig {
    pub position: Position,
    /// Colour of the level and of the percentage.
    pub foreground: ColorConfig,
    /// Colour of the depleted part.
    pub empty_color: ColorConfig,
    pub style: BatteryStyle,
    /// Colours that replace `foreground` at a low level. Order does not matter.
    pub thresholds: Vec<BatteryThreshold>,
}

/// The colour of a level below `below` percent.
#[derive(Clone, Copy, Debug, PartialEq, Eq, Structural)]
pub struct BatteryThreshold {
    pub below: u8,
    pub color: ColorConfig,
}

/// What the battery indicator shows.
#[derive(Clone, Copy, Debug, PartialEq, Eq, Structural)]
pub enum BatteryStyle {
    Icon,
    Text,
    Both,
}

impl Default for BatteryStyle {
    fn default() -> (r: Self)
        ensures
            r == BatteryStyle::Both,
    {
        BatteryStyle::Both
    }
}

/// The noise that thresholds a pixel. Any but the default goes by its name.
#[derive(Debug)]
pub enum NoiseSource {
    InterleavedGradient,
    Named(String),
}

/// How a colour is decomposed into the colours of the palette. The ratio of a
/// grayscale strategy is kept as text.
#[derive(Debug)]
pub enum Strategy {
    OctahedronClosest,
    GrayPureSpread(String),
    GrayOffsetBlend(String),
    Named(String),
}

/// How the error of a pixel is passed on to its neighbours. Any method but the
/// default goes by its name.
#[derive(Debug)]
pub enum DiffuseMethod {
    FloydSteinberg,
    Named(String),
}

/// The colours of a panel.
#[derive(Debug)]
pub enum Palette {
    Spectra6,
    Grayscale4,
    Grayscale16,
    Epdoptimize,
    Named(String),
}

impl Clone for Palette {
    fn clone(&self) -> (r: Self)
        ensures
            r == *self,
    {
        match self {
            Palette::Spectra6 => Palette::Spectra6,
            Palette::Grayscale4 => Palette::Grayscale4,
            Palette::Grayscale16 => Palette::Grayscale16,
            Palette::Epdoptimize => Palette::Epdoptimize,
            Palette::Named(n) => Palette::Named(n.clone()),
        }
    }
}

/// How a picture is dithered: the palette it is dithered with, and the palette it
/// is written in.
#[derive(Debug)]
pub struct DitherConfig {
    pub noise: NoiseSource,
    pub strategy: Strategy,
    pub diffuse: DiffuseMethod,
    pub dither_palette: Palette,
    pub output_palette: Palette,
}

/// The noise of a configuration that names none.
pub fn default_noise() -> (r: NoiseSource)
    ensures
        r == NoiseSource::InterleavedGradient,
{
    NoiseSource::InterleavedGradient
}

/// The strategy of a configuration that names none.
pub fn default_strategy() -> (r: Strategy)
    ensures
        r == Strategy::OctahedronClosest,
{
    Strategy::OctahedronClosest
}

/// The diffusion of a configuration that names none.
pub fn default_diffuse() -> (r: DiffuseMethod)
    ensures
        r == DiffuseMethod::FloydSteinberg,
{
    DiffuseMethod::FloydSteinberg
}

/// The palette that suits a strategy.
pub open spec fn suited_palette(strategy: Strategy) -> Palette {
    if strategy is GrayPureSpread || strategy is GrayOffsetBlend {
        Palette::Grayscale4
    } else {
        Palette::Spectra6
    }
}

/// The dithering of a configuration that says nothing of it.
pub open spec fn default_dither() -> DitherConfig {
    DitherConfig {
        noise: NoiseSource::InterleavedGradient,
        strategy: Strategy::OctahedronClosest,
        diffuse: DiffuseMethod::FloydSteinberg,
        dither_palette: Palette::Spectra6,
        output_palette: Palette::Spectra6,
    }
}

/// The palette of a configuration that names none: four grays for a grayscale
/// strategy, six colours for any other.
pub fn default_palette_for(strategy: &Strategy) -> (r: Palette)
    ensures
        r == suited_palette(*strategy),
{
    match strategy {
        Strategy::GrayPureSpread(_) => Palette::Grayscale4,
        Strategy::GrayOffsetBlend(_) => Palette::Grayscale4,
        _ => Palette::Spectra6,
    }
}

impl Default for DitherConfig {
    fn default() -> (r: Self)
        ensures
            r == default_dither(),
    {
        DitherConfig::resolve(default_noise(), default_strategy(), default_diffuse(), None, None)
    }
}

impl DitherConfig {
    /// The dithering with the palettes that the configuration names. A palette named
    /// alone stands for both; without any, the strategy decides.
    pub fn resolve(
        noise: NoiseSource,
        strategy: Strategy,
        diffuse: DiffuseMethod,
        dither_palette: Option<Palette>,
        output_palette: Option<Palette>,
    ) -> (r: DitherConfig)
        ensures
            r.noise == noise,
            r.strategy == strategy,
            r.diffuse == diffuse,
            r.dither_palette == (match (dither_palette, output_palette) {
                (Some(d), _) => d,
                (None, Some(o)) => o,
                (None, None) => suited_palette(strategy),
            }),
            r.output_palette == (match (dither_palette, output_palette) {
                (_, Some(o)) => o,
                (Some(d), None) => d,
                (None, None) => suited_palette(strategy),
            }),
    {
        let (dither, output) = match (dither_palette, output_palette) {
            (Some(d), Some(o)) => (d, o),
            (Some(d), None) => (d.clone(), d),
            (None, Some(o)) => (o.clone(), o),
            (None, None) => {
                let p = default_palette_for(&strategy);
                (p.clone(), p)
            },
        };
        DitherConfig {
            noise,
            strategy,
            diffuse,
            dither_palette: dither,
            output_palette: output,
        }
    }
}

/// A palette that is named alone stands for both; two are kept apart; without any, four
/// grays go with a grayscale strategy, and six colours with any other.
pub proof fn law_palettes_are_those_named(
    noise: NoiseSource,
    strategy: Strategy,
    diffuse: DiffuseMethod,
    dither: Option<Palette>,
    output: Option<Palette>,
    r: DitherConfig,
)
    requires
        call_ensures(DitherConfig::resolve, (noise, strategy, diffuse, dither, output), r),
    ensures
        r.noise == noise,
        r.strategy == strategy,
        r.diffuse == diffuse,
        dither is Some ==> r.dither_palette == dither->0,
        output is Some ==> r.output_palette == output->0,
        dither is None || output is None ==> r.dither_palette == r.output_palette,
        dither is None && output is None ==> (r.dither_palette is Grayscale4
            <==> strategy is GrayPureSpread || strategy is GrayOffsetBlend) && (
        r.dither_palette is Spectra6 <==> !(strategy is GrayPureSpread
            || strategy is GrayOffsetBlend)),
{
}

/// The palette that goes with a strategy by itself is the one that a configuration
/// without palettes gets.
pub proof fn law_default_palette_suits_the_strategy(strategy: &Strategy, r: Palette)
    requires
        call_ensures(default_palette_for, (strategy,), r),
    ensures
        r is Grayscale4 <==> strategy is GrayPureSpread || strategy is GrayOffsetBlend,
        r is Spectra6 <==> !(strategy is GrayPureSpread || strategy is GrayOffsetBlend),
{
}

/// A screen of which only the necessary is said has no overlays, no schedule and no delay,
/// a white background, and is refreshed every hour.
pub proof fn law_screen_has_its_defaults(
    name: String,
    width: u32,
    height: u32,
    share_url: String,
    timezone: Timezone,
    locale: LocaleFormatters,
    r: ScreenConfig,
)
    requires
        call_ensures(
            ScreenConfig::new,
            (name, width, height, share_url, timezone, locale),
            r,
        ),
    ensures
        r.name == name && r.width == width && r.height == height && r.share_url == share_url,
        r.timezone == timezone && r.locale == locale,
        r.mqtt_name is None && r.infobox is None && r.battery_indicator is None && r.rotate is None,
        r.fit is Crop,
        r.background matches BackgroundMethod::Solid(c) && c.red == 255 && c.green == 255 && c.blue
            == 255 && c.alpha == 255,
        r.wake_delay@ == 0,
        r.error_refresh@ == 3_600_000_000_000,
        r.dither.noise is InterleavedGradient && r.dither.strategy is OctahedronClosest
            && r.dither.diffuse is FloydSteinberg && r.dither.dither_palette is Spectra6
            && r.dither.output_palette is Spectra6,
{
}

/// Each way of fitting a photo has its own suffix.
pub proof fn law_fit_suffixes_differ(a: FitMethod, b: FitMethod, r: &'static str, s: &'static str)
    requires
        call_ensures(FitMethod::url_suffix, (a,), r),
        call_ensures(FitMethod::url_suffix, (b,), s),
    ensures
        r@ == s@ ==> a == b,
        a is Contain ==> r@.len() == 0,
        !(a is Contain) ==> r@.len() == 2 && r@[0] == '-',
        a is Crop ==> r@[1] == 'c',
        a is SmartCrop ==> r@[1] == 'p',
        a is Resize ==> r@[1] == 's',
{
    reveal_strlit("-c");
    reveal_strlit("-p");
    reveal_strlit("-s");
    reveal_strlit("");
    assert("-c"@[1] == 'c' && "-p"@[1] == 'p' && "-s"@[1] == 's' && ""@.len() == 0);
}

/// A broker of which only its address is said is talked to on the usual port, without
/// credentials, and under the names that go with it.
pub proof fn law_broker_has_its_defaults(broker: String, r: MqttConfig)
    requires
        call_ensures(MqttConfig::new, (broker,), r),
    ensures
        r.broker == broker,
        r.port == 1883,
        r.username is None && r.password is None,
        r.client_id@ == "epd-photoframe-server"@,
        r.discovery_prefix@ == "homeassistant"@,
        r.state_prefix@ == "epd-photoframe"@,
{
}

/// A configuration of screens alone listens on all addresses, and has no broker.
pub proof fn law_configuration_has_its_defaults(screens: Vec<ScreenConfig>, r: Config)
    requires
        call_ensures(Config::new, (screens,), r),
    ensures
        r.listen@ == "0.0.0.0:3000"@,
        r.mqtt is None,
        r.screens == screens,
{
}

/// What is not said of a screen's overlays and photos has its default.
pub proof fn law_choices_have_their_defaults(
    fit: FitMethod,
    units: Units,
    header: HeaderLayout,
    weather: WeatherLayout,
    style: BatteryStyle,
    background: BackgroundMethod,
    dither: DitherConfig,
)
    requires
        call_ensures(FitMethod::default, (), fit),
        call_ensures(Units::default, (), units),
        call_ensures(HeaderLayout::default, (), header),
        call_ensures(WeatherLayout::default, (), weather),
        call_ensures(BatteryStyle::default, (), style),
        call_ensures(BackgroundMethod::default, (), background),
        call_ensures(DitherConfig::default, (), dither),
    ensures
        fit is Crop,
        units is Metric,
        header is DayDate,
        weather is One,
        style is Both,
        background matches BackgroundMethod::Solid(c) && c.red == 255 && c.green == 255 && c.blue
            == 255 && c.alpha == 255,
        dither.noise is InterleavedGradient && dither.strategy is OctahedronClosest
            && dither.diffuse is FloydSteinberg && dither.dither_palette is Spectra6
            && dither.output_palette is Spectra6,
{
}

/// A forecast is fetched for as many days as are shown, and not at all for none.
pub proof fn law_forecast_covers_the_days_shown(layout: WeatherLayout, r: u32)
    requires
        call_ensures(WeatherLayout::forecast_days_required, (layout,), r),
    ensures
        r == 0 <==> layout is Nothing,
        r == 1 <==> layout is One,
        r == 5 <==> layout is OnePlusFour || layout is Five,
{
}

/// A temperature is written with the sign of its scale.
pub proof fn law_temperature_has_its_scale(units: Units, r: &'static str)
    requires
        call_ensures(Units::temperature_suffix, (units,), r),
    ensures
        units is Metric ==> r@ == "°C"@,
        units is Imperial ==> r@ == "°F"@,
{
}

/// A set of groups holds exactly what it is made of.
pub proof fn law_groups_are_those_listed(entries: &Vec<Publish>, r: PublishSet)
    requires
        call_ensures(PublishSet::from_entries, (entries,), r),
    ensures
        r.battery <==> entries@.contains(Publish::Battery),
        r.temperature <==> entries@.contains(Publish::Temperature),
        r.humidity <==> entries@.contains(Publish::Humidity),
        r.power <==> entries@.contains(Publish::Power),
        r.last_seen <==> entries@.contains(Publish::LastSeen),
{
    assert(r.has(Publish::Battery) <==> entries@.contains(Publish::Battery));
    assert(r.has(Publish::Temperature) <==> entries@.contains(Publish::Temperature));
    assert(r.has(Publish::Humidity) <==> entries@.contains(Publish::Humidity));
    assert(r.has(Publish::Power) <==> entries@.contains(Publish::Power));
    assert(r.has(Publish::LastSeen) <==> entries@.contains(Publish::LastSeen));
}

/// By default the battery readings and the time of the request are forwarded.
pub proof fn law_battery_and_time_are_forwarded(r: PublishSet)
    requires
        call_ensures(default_publish, (), r),
    ensures
        r.battery && r.last_seen && !r.temperature && !r.humidity && !r.power,
{
    assert(r.has(Publish::Battery) && r.has(Publish::LastSeen) && !r.has(Publish::Temperature)
        && !r.has(Publish::Humidity) && !r.has(Publish::Power));
}

/// A group that is put into a set is in it, and nothing else changes.
pub proof fn law_group_is_put_into_the_set(set: &mut PublishSet, p: Publish, r: ())
    requires
        call_ensures(PublishSet::insert, (set, p), r),
    ensures
        (*final(set)).battery <==> (*old(set)).battery || p is Battery,
        (*final(set)).temperature <==> (*old(set)).temperature || p is Temperature,
        (*final(set)).humidity <==> (*old(set)).humidity || p is Humidity,
        (*final(set)).power <==> (*old(set)).power || p is Power,
        (*final(set)).last_seen <==> (*old(set)).last_seen || p is LastSeen,
{
    let after = *final(set);
    let before = *old(set);
    assert(after.extends(before, p));
    assert(after.has(Publish::Battery) <==> p is Battery || before.has(Publish::Battery));
    assert(after.has(Publish::Temperature) <==> p is Temperature || before.has(
        Publish::Temperature,
    ));
    assert(after.has(Publish::Humidity) <==> p is Humidity || before.has(Publish::Humidity));
    assert(after.has(Publish::Power) <==> p is Power || before.has(Publish::Power));
    assert(after.has(Publish::LastSeen) <==> p is LastSeen || before.has(Publish::LastSeen));
}

} // verus!
