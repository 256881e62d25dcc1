//! How a request for a screen is answered.
//!
//! [`find_screen`] finds the screen that a request is for, and [`pick_photo`] chooses
//! the photo once the album is known. An [`Exchange`] is the course of one request:
//! it is told what came of fetching, drawing and encoding, and tells what to do
//! next, until there is a reply.

use vstd::prelude::*;

use crate::background::{
    allocatable, apply, backdrop, blurrable, blurred_cover, framed, framed_by_blur, in_memory,
    is_allocatable, is_blur, is_blurrable, is_in_memory, not_allocated, resized, solid, too_large,
    Canvas, Picture, Raster, RgbImage,
};
use crate::color::{BackgroundMethod, ColorConfig};
use crate::config::ScreenConfig;
use crate::degraded::{canvas_color, placeholder};
use crate::device::{PowerState, SensorState};
use crate::mqtt::{
    discovery_value, enabled_sensors, json_content, law_discovery_describes_the_sensor,
    law_values_are_announced, lemma_message_of, lemma_message_sent, lemma_reading_keys_differ,
    lemma_reading_value, lemma_readings_listed, lemma_topics_differ, message_views, readings,
    rfc3339, sensor_views, sensors_of, state_models, Json, Message, MessageModel, Publisher, Sensor,
};
use crate::schedule::{cron_trigger, instant, listed_instant, may_be_next, utc_offset, Rotate};
use crate::screen_state::{
    album_size, calculate_error_refresh_time, error_refresh_time, index_at, lemma_nearest_landing,
    seconds_in, seconds_until, shuffle_order, snapped, whole_seconds, wrapped, Rotation, ScreenState,
};
use crate::text::{
    ascii_digit, clone_option, decimal, lemma_decimal_denotes, option_view, push_decimal,
};
use crate::time::{representable, DateTime, MAX_SECS, MIN_SECS};

verus! {

/// What the user asks for.
#[derive(Clone, Copy, Debug, PartialEq, Eq, Structural)]
pub enum Action {
    Next,
    Previous,
    Refresh,
}

/// The query part of a request.
#[derive(Debug)]
pub struct ScreenQuery {
    pub action: Option<Action>,
    pub battery_mv: Option<u32>,
    pub battery_pct: Option<u8>,
    pub temperature_c: Option<String>,
    pub humidity_pct: Option<String>,
    pub power: Option<PowerState>,
}

/// How many places an action moves on in the album.
pub open spec fn step_of(action: Option<Action>) -> int {
    match action {
        Some(Action::Next) => 1,
        Some(Action::Previous) => -1,
        _ => 0,
    }
}

impl ScreenQuery {
    /// Whether the cached copy of the album is dropped: every action does that.
    pub fn refresh_album(&self) -> (r: bool)
        ensures
            r == (self.action is Some),
    {
        self.action.is_some()
    }

    /// How many places the request moves on in the album.
    pub fn cursor_advance(&self) -> (r: i64)
        ensures
            r == step_of(self.action),
    {
        match self.action {
            Some(Action::Next) => 1,
            Some(Action::Previous) => -1,
            _ => 0,
        }
    }

    /// The readings that came with the request.
    pub fn sensors(&self) -> (r: SensorState)
        ensures
            r.battery_mv == self.battery_mv,
            r.battery_pct == self.battery_pct,
            r.temperature_c == self.temperature_c,
            r.humidity_pct == self.humidity_pct,
            r.power == self.power,
    {
        SensorState {
            battery_mv: self.battery_mv,
            battery_pct: self.battery_pct,
            temperature_c: clone_option(&self.temperature_c),
            humidity_pct: clone_option(&self.humidity_pct),
            power: self.power,
        }
    }
}

/// What a reply carries.
#[derive(Debug)]
pub enum Body {
    Png(Vec<u8>),
    Text(String),
}

/// The reply to a request.
#[derive(Debug)]
pub struct Reply {
    pub status: u16,
    pub body: Body,
    /// Value of the `Refresh` header, if it has one.
    pub refresh: Option<String>,
}

/// What a reply carries.
pub enum BodyModel {
    Png(Seq<u8>),
    Text(Seq<char>),
}

/// What a reply is.
pub struct ReplyModel {
    pub status: u16,
    pub body: BodyModel,
    pub refresh: Option<Seq<char>>,
}

impl View for Body {
    type V = BodyModel;

    open spec fn view(&self) -> BodyModel {
        match self {
            Body::Png(b) => BodyModel::Png(b@),
            Body::Text(t) => BodyModel::Text(t@),
        }
    }
}

impl View for Reply {
    type V = ReplyModel;

    open spec fn view(&self) -> ReplyModel {
        ReplyModel {
            status: self.status,
            body: self.body@,
            refresh: option_view(self.refresh),
        }
    }
}

/// Whether the screen at `i` is the one that requests for `name` go to: of several
/// with one name, the last.
pub open spec fn serves(screens: Seq<ScreenConfig>, name: Seq<char>, i: int) -> bool {
    &&& 0 <= i < screens.len()
    &&& screens[i].name@ == name
    &&& forall|j: int| i < j < screens.len() ==> (#[trigger] screens[j]).name@ != name
}

/// Whether no screen is called `name`.
pub open spec fn unserved(screens: Seq<ScreenConfig>, name: Seq<char>) -> bool {
    forall|j: int| 0 <= j < screens.len() ==> (#[trigger] screens[j]).name@ != name
}

/// Seconds after which a request is to be repeated that is not about any screen.
pub const DEFAULT_REFRESH_SECS: u64 = 3600;

/// The reply to a request that is not about any screen.
pub open spec fn screenless_reply(status: u16, body: Seq<char>, path: Seq<char>) -> ReplyModel {
    ReplyModel {
        status,
        body: BodyModel::Text(body),
        refresh: refresh_header(DEFAULT_REFRESH_SECS as int, path),
    }
}

/// The reply for a screen that is not there.
pub open spec fn not_found(name: Seq<char>, path: Seq<char>) -> ReplyModel {
    screenless_reply(404, "screen `"@ + name + "` not found"@, path)
}

/// The reply to a request that is not about any screen: an error status, and what is
/// wrong.
pub fn reply_without_screen(status: u16, body: String, path: &str) -> (r: Reply)
    ensures
        r@ == screenless_reply(status, body@, path@),
{
    Reply { status, body: Body::Text(body), refresh: refresh_in(DEFAULT_REFRESH_SECS, path) }
}

/// Finds the screen `name`, or replies that there is none.
pub fn find_screen(screens: &Vec<ScreenConfig>, name: &str, path: &str) -> (r: Result<usize, Reply>)
    ensures
        match r {
            Ok(i) => serves(screens@, name@, i as int),
            Err(reply) => reply@ == not_found(name@, path@) && unserved(screens@, name@),
        },
{
    let wanted = name.to_owned();
    let mut i: usize = screens.len();
    while i > 0
        invariant
            i <= screens.len(),
            wanted@ == name@,
            forall|j: int| i <= j < screens@.len() ==> (#[trigger] screens@[j]).name@ != name@,
        decreases i,
    {
        i = i - 1;
        if screens[i].name == wanted {
            return Ok(i);
        }
    }
    let mut body = "screen `".to_owned();
    body.append(name);
    body.append("` not found");
    Err(reply_without_screen(404, body, path))
}

/// Chooses the photo to show from an album of `n` photos, of which those at `new`
/// are new, and tells when the next rotation is.
pub fn pick_photo(
    state: &mut ScreenState,
    query: &ScreenQuery,
    now: DateTime,
    new: &[usize],
    n: usize,
) -> (r: (usize, Option<DateTime>))
    requires
        old(state)@.can_ask(now@),
        album_size(n),
    ensures
        ({
            let before = old(state)@;
            let after = final(state)@;
            let rotated = before.due(now@);
            let place = wrapped(
                (if rotated { 0 } else { before.cursor }) + step_of(query.action),
            );
            let snap = (rotated || query.action is Some) && new@.len() > 0;
            &&& after.rotate == before.rotate
            &&& after.tz == before.tz
            &&& !rotated ==> after.seed == before.seed && after.next == before.next
            &&& rotated ==> before.follows(now@, after.next)
            &&& after.cursor == (if snap {
                snapped(after.seed, place, new@, n as nat)
            } else {
                place
            })
            &&& r.0 == index_at(after.seed, after.cursor, n as nat)
            &&& !rotated && query.action is None ==> after == before
            &&& r.0 < n
            &&& instant(r.1) == upcoming(after.next, now@)
        }),
{
    let index: usize = state.pick_index(
        now,
        query.cursor_advance(),
        query.refresh_album(),
        new,
        n,
    );
    (index, state.next_scheduled_rotation(now))
}

/// The next rotation as seen at `now`: one that is already due counts as due now.
pub open spec fn upcoming(next: Option<int>, now: int) -> Option<int> {
    match next {
        Some(t) if t <= now => Some(now),
        _ => next,
    }
}

/// Why there is no photo on the screen, and the colour to write that in.
#[derive(Debug)]
pub struct Failure {
    pub detail: String,
    pub text: ColorConfig,
}

/// A screen with a photo on it, or with room for what went wrong.
pub struct Composed {
    pub canvas: Canvas,
    pub failure: Option<Failure>,
}

/// Whether `photo` fits on a screen of the given size.
pub open spec fn fits(photo: Picture, width: u32, height: u32) -> bool {
    photo.width <= width && photo.height <= height
}

/// Whether `r` shows `photo` the way `method` wants it.
pub open spec fn shows(
    r: Raster,
    photo: Picture,
    width: u32,
    height: u32,
    method: BackgroundMethod,
) -> bool {
    match method {
        BackgroundMethod::Solid(c) => framed(
            r,
            width as int,
            height as int,
            photo,
            solid(c.red, c.green, c.blue),
        ),
        BackgroundMethod::Blur => if photo.width == width && photo.height == height {
            framed(r, width as int, height as int, photo, backdrop(photo))
        } else {
            framed_by_blur(r, width, height, photo)
        },
    }
}

/// Whether `r` is a blank screen of the given size, in the colour of `method`.
pub open spec fn blank(r: Raster, width: u32, height: u32, method: BackgroundMethod) -> bool {
    let (red, green, blue) = canvas_color(method);
    &&& r.width == width
    &&& r.height == height
    &&& forall|x: int, y: int| r.has(x, y) ==> #[trigger] r.at(x, y) == (red, green, blue, 255u8)
}

/// Why no photo can be shown, if none can: it could not be fetched, or it does not
/// fit.
pub open spec fn photo_error(fetched: Result<RgbImage, String>, width: u32, height: u32) -> Option<
    Seq<char>,
> {
    match fetched {
        Err(e) => Some(e@),
        Ok(img) => if !fits(img@, width, height) {
            Some(too_large(img@, width, height))
        } else if !allocatable(width, height) {
            Some(not_allocated(width, height))
        } else {
            None
        },
    }
}

/// Whether memory suffices to show the photo.
pub open spec fn showable(fetched: Result<RgbImage, String>, cfg: ScreenConfig) -> bool {
    &&& in_memory(cfg.width, cfg.height)
    &&& fetched matches Ok(img) ==> cfg.background is Blur ==> fits(img@, cfg.width, cfg.height)
        && (img@.width != cfg.width || img@.height != cfg.height) && allocatable(
        cfg.width,
        cfg.height,
    ) ==> blurrable(cfg.width, cfg.height)
}

/// Whether `r` is a screen with the fetched photo, or blank with room for what went
/// wrong.
pub open spec fn composed(
    r: Composed,
    fetched: Result<RgbImage, String>,
    cfg: ScreenConfig,
) -> bool {
    match photo_error(fetched, cfg.width, cfg.height) {
        None => r.failure is None && shows(
            r.canvas@,
            fetched->Ok_0@,
            cfg.width,
            cfg.height,
            cfg.background,
        ),
        Some(e) => {
            &&& blank(r.canvas@, cfg.width, cfg.height, cfg.background)
            &&& r.failure is Some
            &&& r.failure->0.detail@ == e
            &&& r.failure->0.text == (ColorConfig {
                red: (255 - canvas_color(cfg.background).0) as u8,
                green: (255 - canvas_color(cfg.background).1) as u8,
                blue: (255 - canvas_color(cfg.background).2) as u8,
                alpha: 255,
            })
        },
    }
}

/// Puts the fetched photo on the screen. Where that fails, the screen is left blank
/// for a diagnostic text; if there can be no such screen at all, that is the error.
pub fn compose(fetched: Result<RgbImage, String>, cfg: &ScreenConfig) -> (r: Result<
    Composed,
    String,
>)
    requires
        showable(fetched, *cfg),
    ensures
        allocatable(cfg.width, cfg.height) ==> r is Ok && composed(r->Ok_0, fetched, *cfg),
        !allocatable(cfg.width, cfg.height) ==> r is Err && r->Err_0@ == "placeholder failed: "@
            + not_allocated(cfg.width, cfg.height),
{
    let applied = match fetched {
        Ok(img) => apply(img, cfg.width, cfg.height, &cfg.background),
        Err(e) => Err(e),
    };
    match applied {
        Ok(canvas) => Ok(Composed { canvas, failure: None }),
        Err(detail) => match placeholder(cfg.width, cfg.height, &cfg.background) {
            Ok(p) => Ok(
                Composed { canvas: p.canvas, failure: Some(Failure { detail, text: p.text }) },
            ),
            Err(e) => {
                let mut m = "placeholder failed: ".to_owned();
                m.append(e.as_str());
                Err(m)
            },
        },
    }
}

/// Whether the picture falls short of what it should show: the photo is missing, or
/// an overlay could not be completed.
pub fn is_degraded(photo_missing: bool, overlays: &Vec<bool>) -> (r: bool)
    ensures
        r == (photo_missing || overlays@.contains(true)),
{
    let mut i: usize = 0;
    while i < overlays.len()
        invariant
            i <= overlays.len(),
            forall|j: int| 0 <= j < i ==> !(#[trigger] overlays@[j]),
        decreases overlays.len() - i,
    {
        if overlays[i] {
            assert(overlays@[i as int] == true);
            return true;
        }
        i = i + 1;
    }
    photo_missing
}

/// When a device is asked to come back.
pub open spec fn refresh_time(
    degraded: bool,
    wake_delay: int,
    error_refresh: int,
    next_rotation: Option<int>,
    now: int,
) -> Option<int> {
    if degraded {
        Some(error_refresh_time(error_refresh, wake_delay, next_rotation, now))
    } else {
        match next_rotation {
            Some(n) => Some(n + wake_delay),
            None => None,
        }
    }
}

/// Whether there is a moment to come back at after an incomplete picture.
pub open spec fn retry_exists(cfg: ScreenConfig, now: int) -> bool {
    representable(now + cfg.error_refresh@)
}

/// Whether there is a moment to come back at after the next rotation, if there is to
/// be one.
pub open spec fn wake_exists(cfg: ScreenConfig, next_rotation: Option<int>) -> bool {
    next_rotation is Some ==> representable(next_rotation->0 + cfg.wake_delay@)
}

/// When a device is asked to come back with the reply: without a next rotation, as
/// after an incomplete picture.
pub open spec fn reply_time(
    degraded: bool,
    wake_delay: int,
    error_refresh: int,
    next_rotation: Option<int>,
    now: int,
) -> int {
    match refresh_time(degraded, wake_delay, error_refresh, next_rotation, now) {
        Some(t) => t,
        None => now + error_refresh,
    }
}

/// When the device is asked to come back: a while after the next rotation, so that
/// a clock that runs fast does not miss it; after an incomplete picture sooner, if
/// that is sooner.
pub fn refresh_target(
    degraded: bool,
    cfg: &ScreenConfig,
    next_rotation: Option<DateTime>,
    now: DateTime,
) -> (r: Option<DateTime>)
    requires
        degraded ==> retry_exists(*cfg, now@),
        wake_exists(*cfg, instant(next_rotation)),
    ensures
        instant(r) == refresh_time(
            degraded,
            cfg.wake_delay@,
            cfg.error_refresh@,
            instant(next_rotation),
            now@,
        ),
{
    if degraded {
        Some(
            calculate_error_refresh_time(cfg.error_refresh, cfg.wake_delay, next_rotation, now),
        )
    } else {
        match next_rotation {
            Some(n) => Some(n.plus(cfg.wake_delay)),
            None => None,
        }
    }
}

/// Whether `s` can stand in a header: no control character but the tab.
pub open spec fn header_text(s: Seq<char>) -> bool {
    forall|i: int| 0 <= i < s.len() ==> header_char(#[trigger] s[i])
}

/// Whether `c` can stand in a header.
pub open spec fn header_char(c: char) -> bool {
    c as u32 >= 32 && c as u32 != 127 || c as u32 == 9
}

/// `axum::http::HeaderValue::from_str`: it accepts a text whose every byte is a tab
/// or is from 32 on and not 127.
#[verifier::external_body]
fn is_header_text(text: &str) -> (r: bool)
    ensures
        r == header_text(text@),
{
    axum::http::HeaderValue::from_str(text).is_ok()
}

/// The `Refresh` header that asks to load `path` in `secs` seconds, where it can be
/// sent.
pub open spec fn refresh_header(secs: int, path: Seq<char>) -> Option<Seq<char>> {
    let text = decimal(secs as nat) + "; url="@ + path;
    if header_text(text) {
        Some(text)
    } else {
        None
    }
}

/// The `Refresh` header that asks to load `path` in `secs` seconds, where it can be
/// sent.
fn refresh_in(secs: u64, path: &str) -> (r: Option<String>)
    ensures
        option_view(r) == refresh_header(secs as int, path@),
{
    let mut text = String::new();
    push_decimal(&mut text, secs);
    text.append("; url=");
    text.append(path);
    assert(text@ =~= decimal(secs as nat) + "; url="@ + path@);
    if is_header_text(text.as_str()) {
        Some(text)
    } else {
        None
    }
}

/// The `Refresh` header that asks to load `path` again at `target`. The path has no
/// query, so that an action is not repeated.
pub fn set_refresh_header(target: DateTime, now: DateTime, path: &str) -> (r: Option<String>)
    ensures
        option_view(r) == refresh_header(whole_seconds(target@, now@), path@),
{
    refresh_in(seconds_until(target, now), path)
}

/// The reply to a request that failed for the reason `body`.
pub open spec fn failed_reply(
    body: Seq<char>,
    cfg: ScreenConfig,
    next_rotation: Option<int>,
    now: int,
    path: Seq<char>,
) -> ReplyModel {
    ReplyModel {
        status: 500,
        body: BodyModel::Text(body),
        refresh: refresh_header(
            whole_seconds(
                error_refresh_time(cfg.error_refresh@, cfg.wake_delay@, next_rotation, now),
                now,
            ),
            path,
        ),
    }
}

/// The reply to a request that failed for the reason `body`.
pub fn error_response_with_refresh(
    body: String,
    cfg: &ScreenConfig,
    next_rotation: Option<DateTime>,
    now: DateTime,
    path: &str,
) -> (r: Reply)
    requires
        retry_exists(*cfg, now@),
        wake_exists(*cfg, instant(next_rotation)),
    ensures
        r@ == failed_reply(body@, *cfg, instant(next_rotation), now@, path@),
{
    let target = calculate_error_refresh_time(
        cfg.error_refresh,
        cfg.wake_delay,
        next_rotation,
        now,
    );
    Reply { status: 500, body: Body::Text(body), refresh: set_refresh_header(target, now, path) }
}

/// Why a picture could not be encoded.
#[derive(Debug)]
pub enum EncodePngError {
    /// Dithering or encoding failed.
    Pipeline(String),
    /// The task that does it panicked.
    Task(String),
}

/// The reply to a request whose picture was drawn, given what encoding it came to.
pub open spec fn encoded_reply(
    encoded: Result<Vec<u8>, EncodePngError>,
    degraded: bool,
    cfg: ScreenConfig,
    next_rotation: Option<int>,
    now: int,
    path: Seq<char>,
) -> ReplyModel {
    match encoded {
        Ok(png) => ReplyModel {
            status: 200,
            body: BodyModel::Png(png@),
            refresh: refresh_header(
                whole_seconds(
                    reply_time(
                        degraded,
                        cfg.wake_delay@,
                        cfg.error_refresh@,
                        next_rotation,
                        now,
                    ),
                    now,
                ),
                path,
            ),
        },
        Err(EncodePngError::Pipeline(e)) => failed_reply(
            "dither failed: "@ + e@,
            cfg,
            next_rotation,
            now,
            path,
        ),
        Err(EncodePngError::Task(e)) => failed_reply(
            "dither task panicked: "@ + e@,
            cfg,
            next_rotation,
            now,
            path,
        ),
    }
}

/// The reply to a request whose picture was drawn, given what encoding it came to.
pub fn answer(
    encoded: Result<Vec<u8>, EncodePngError>,
    degraded: bool,
    cfg: &ScreenConfig,
    next_rotation: Option<DateTime>,
    now: DateTime,
    path: &str,
) -> (r: Reply)
    requires
        degraded || encoded is Err ==> retry_exists(*cfg, now@),
        wake_exists(*cfg, instant(next_rotation)),
    ensures
        r@ == encoded_reply(encoded, degraded, *cfg, instant(next_rotation), now@, path@),
{
    match encoded {
        Ok(png) => {
            let refresh = match refresh_target(degraded, cfg, next_rotation, now) {
                Some(target) => set_refresh_header(target, now, path),
                None => refresh_in(seconds_in(cfg.error_refresh), path),
            };
            Reply { status: 200, body: Body::Png(png), refresh }
        },
        Err(EncodePngError::Pipeline(e)) => {
            let mut m = "dither failed: ".to_owned();
            m.append(e.as_str());
            error_response_with_refresh(m, cfg, next_rotation, now, path)
        },
        Err(EncodePngError::Task(e)) => {
            let mut m = "dither task panicked: ".to_owned();
            m.append(e.as_str());
            error_response_with_refresh(m, cfg, next_rotation, now, path)
        },
    }
}

/// How far a request has come.
#[derive(Clone, Copy, Debug, PartialEq, Eq, Structural)]
pub enum Stage {
    /// The photo is being fetched.
    Fetching,
    /// The overlays are being drawn.
    Drawing,
    /// The picture is being encoded.
    Encoding,
    /// There is a reply.
    Replied,
}

/// The course of one request.
#[derive(Debug)]
pub struct Exchange {
    pub stage: Stage,
    /// When the request came in.
    pub now: DateTime,
    /// The next rotation, once a photo was chosen.
    pub next_rotation: Option<DateTime>,
    /// Whether something is missing from the picture.
    pub degraded: bool,
}

/// What came of something outside.
pub enum Event {
    /// A photo was chosen; the next rotation is known.
    Picked(Option<DateTime>),
    /// The photo was fetched, or could not be.
    Fetched(Result<RgbImage, String>),
    /// The overlays were drawn. Each tells whether something is missing from it.
    Drawn(Vec<bool>),
    /// The picture was encoded, or could not be.
    Encoded(Result<Vec<u8>, EncodePngError>),
}

/// What to do next.
pub enum Command {
    /// Go on fetching.
    Wait,
    /// Draw what went wrong, if anything, and the overlays.
    Draw(Composed),
    /// Send the messages to the broker, and encode the picture.
    Encode(Vec<Message>),
    /// Send the messages to the broker, and the reply to the device.
    Send(Vec<Message>, Reply),
}

/// Whether a request that has come to `stage` waits for `event`.
pub open spec fn expects(stage: Stage, event: Event) -> bool {
    match event {
        Event::Picked(_) => stage is Fetching,
        Event::Fetched(_) => stage is Fetching,
        Event::Drawn(_) => stage is Drawing,
        Event::Encoded(_) => stage is Encoding,
    }
}

/// The messages for a request, if there is a broker to send them to.
pub open spec fn publications(
    publisher: Option<Publisher>,
    cfg: ScreenConfig,
    sensors: SensorState,
    now: int,
) -> Seq<MessageModel> {
    match publisher {
        Some(p) => state_models(
            p.state_prefix@,
            cfg.name@,
            readings(cfg.publish, sensors, rfc3339(now)),
        ),
        None => seq![],
    }
}

/// The messages for a request, if there is a broker to send them to.
fn screen_messages(
    publisher: &Option<Publisher>,
    cfg: &ScreenConfig,
    sensors: &SensorState,
    now: DateTime,
) -> (r: Vec<Message>)
    ensures
        message_views(r@) == publications(*publisher, *cfg, *sensors, now@),
{
    let messages = match publisher {
        Some(p) => p.publish_screen_state(cfg.name.as_str(), &cfg.publish, sensors, now),
        None => Vec::new(),
    };
    assert(message_views(messages@) =~= publications(*publisher, *cfg, *sensors, now@));
    messages
}

/// Whether memory suffices to show the photo.
fn is_showable(fetched: &Result<RgbImage, String>, cfg: &ScreenConfig) -> (r: bool)
    ensures
        r == showable(*fetched, *cfg),
{
    if !is_in_memory(cfg.width, cfg.height) {
        return false;
    }
    match (fetched, &cfg.background) {
        (Ok(img), BackgroundMethod::Blur) => {
            let smaller = img.width() <= cfg.width && img.height() <= cfg.height && (img.width()
                != cfg.width || img.height() != cfg.height);
            !(smaller && is_allocatable(cfg.width, cfg.height)) || is_blurrable(
                cfg.width,
                cfg.height,
            )
        },
        _ => true,
    }
}

impl Exchange {
    /// The course of a request that came in at `now`.
    pub fn new(now: DateTime) -> (r: Exchange)
        ensures
            r == (Exchange { stage: Stage::Fetching, now, next_rotation: None, degraded: false }),
    {
        Exchange { stage: Stage::Fetching, now, next_rotation: None, degraded: false }
    }

    /// Whether the request can go on with `event`: it waits for it, memory suffices,
    /// and there is a moment for the device to come back at where there is a reply.
    pub open spec fn ready_for(self, event: Event, cfg: ScreenConfig) -> bool {
        let next = instant(self.next_rotation);
        &&& expects(self.stage, event)
        &&& match event {
            Event::Fetched(fetched) => {
                &&& showable(fetched, cfg)
                &&& !allocatable(cfg.width, cfg.height) ==> retry_exists(cfg, self.now@)
                    && wake_exists(cfg, next)
            },
            Event::Encoded(encoded) => {
                &&& self.degraded || encoded is Err ==> retry_exists(cfg, self.now@)
                &&& wake_exists(cfg, next)
            },
            _ => true,
        }
    }

    /// Whether [`Exchange::step`] can go on with `event`.
    pub fn can_step(&self, event: &Event, cfg: &ScreenConfig) -> (r: bool)
        ensures
            r == self.ready_for(*event, *cfg),
    {
        let retry = self.now.checked_add(cfg.error_refresh).is_some();
        let wake = match self.next_rotation {
            Some(n) => n.checked_add(cfg.wake_delay).is_some(),
            None => true,
        };
        match event {
            Event::Picked(_) => self.stage == Stage::Fetching,
            Event::Fetched(fetched) => self.stage == Stage::Fetching && is_showable(fetched, cfg)
                && (is_allocatable(cfg.width, cfg.height) || (retry && wake)),
            Event::Drawn(_) => self.stage == Stage::Drawing,
            Event::Encoded(encoded) => {
                let retried = self.degraded || encoded.is_err();
                self.stage == Stage::Encoding && (!retried || retry) && wake
            },
        }
    }

    /// Takes note of an event, and tells what to do next.
    pub fn step(
        self,
        event: Event,
        cfg: &ScreenConfig,
        publisher: &Option<Publisher>,
        sensors: &SensorState,
        path: &str,
    ) -> (r: (Exchange, Command))
        requires
            self.ready_for(event, *cfg),
        ensures
            r.0.now == self.now,
            match event {
                Event::Picked(next) => {
                    &&& r.0 == (Exchange { next_rotation: next, ..self })
                    &&& r.1 is Wait
                },
                Event::Fetched(fetched) => {
                    let missing = photo_error(fetched, cfg.width, cfg.height) is Some;
                    &&& r.0.next_rotation == self.next_rotation
                    &&& r.0.degraded == (self.degraded || missing)
                    &&& allocatable(cfg.width, cfg.height) ==> r.0.stage is Drawing && (
                    r.1 matches Command::Draw(c) && composed(c, fetched, *cfg))
                    &&& !allocatable(cfg.width, cfg.height) ==> r.0.stage is Replied && (
                    r.1 matches Command::Send(messages, reply) && message_views(messages@)
                        == publications(*publisher, *cfg, *sensors, self.now@) && reply@
                        == failed_reply(
                        "placeholder failed: "@ + not_allocated(cfg.width, cfg.height),
                        *cfg,
                        instant(self.next_rotation),
                        self.now@,
                        path@,
                    ))
                },
                Event::Drawn(overlays) => {
                    &&& r.0 == (Exchange {
                        stage: Stage::Encoding,
                        degraded: self.degraded || overlays@.contains(true),
                        ..self
                    })
                    &&& (r.1 matches Command::Encode(messages) && message_views(messages@)
                        == publications(*publisher, *cfg, *sensors, self.now@))
                },
                Event::Encoded(encoded) => {
                    &&& r.0 == (Exchange { stage: Stage::Replied, ..self })
                    &&& (r.1 matches Command::Send(messages, reply) && messages@.len() == 0
                        && reply@ == encoded_reply(
                        encoded,
                        self.degraded,
                        *cfg,
                        instant(self.next_rotation),
                        self.now@,
                        path@,
                    ))
                },
            },
    {
        let (now, next_rotation, degraded) = (self.now, self.next_rotation, self.degraded);
        match event {
            Event::Picked(next) => (
                Exchange { stage: self.stage, now, next_rotation: next, degraded },
                Command::Wait,
            ),
            Event::Fetched(fetched) => match compose(fetched, cfg) {
                Ok(c) => {
                    let missing = c.failure.is_some();
                    (
                        Exchange {
                            stage: Stage::Drawing,
                            now,
                            next_rotation,
                            degraded: degraded || missing,
                        },
                        Command::Draw(c),
                    )
                },
                Err(body) => (
                    Exchange { stage: Stage::Replied, now, next_rotation, degraded: true },
                    Command::Send(
                        screen_messages(publisher, cfg, sensors, now),
                        error_response_with_refresh(body, cfg, next_rotation, now, path),
                    ),
                ),
            },
            Event::Drawn(overlays) => {
                let messages = screen_messages(publisher, cfg, sensors, now);
                (
                    Exchange {
                        stage: Stage::Encoding,
                        now,
                        next_rotation,
                        degraded: is_degraded(degraded, &overlays),
                    },
                    Command::Encode(messages),
                )
            },
            Event::Encoded(encoded) => (
                Exchange { stage: Stage::Replied, now, next_rotation, degraded },
                Command::Send(
                    Vec::new(),
                    answer(encoded, degraded, cfg, next_rotation, now, path),
                ),
            ),
        }
    }
}

/// After an incomplete picture the device comes back no later than after a complete
/// one, and no later than the configured time.
pub proof fn law_incomplete_is_retried_sooner(
    wake_delay: int,
    error_refresh: int,
    next_rotation: Option<int>,
    now: int,
)
    ensures
        reply_time(true, wake_delay, error_refresh, next_rotation, now) <= now + error_refresh,
        reply_time(true, wake_delay, error_refresh, next_rotation, now) <= reply_time(
            false,
            wake_delay,
            error_refresh,
            next_rotation,
            now,
        ),
{
}

/// A reply without a picture asks to come back at the same time as one with an
/// incomplete picture.
pub proof fn law_failure_is_retried_like_incomplete(
    body: Seq<char>,
    png: Vec<u8>,
    cfg: ScreenConfig,
    next_rotation: Option<int>,
    now: int,
    path: Seq<char>,
)
    ensures
        failed_reply(body, cfg, next_rotation, now, path).refresh == encoded_reply(
            Ok(png),
            true,
            cfg,
            next_rotation,
            now,
            path,
        ).refresh,
{
}

/// A `Refresh` header can be sent for every path that can stand in a header.
proof fn lemma_refresh_header_sent(secs: int, path: Seq<char>)
    requires
        header_text(path),
    ensures
        refresh_header(secs, path) is Some,
{
    let digits = decimal(secs as nat);
    let text = digits + "; url="@ + path;
    lemma_decimal_denotes(secs as nat);
    reveal_strlit("; url=");
    assert forall|i: int| 0 <= i < text.len() implies header_char(#[trigger] text[i]) by {
        if i < digits.len() {
            assert(text[i] == digits[i]);
            assert(ascii_digit(digits[i]));
        } else if i < digits.len() + 6 {
            assert(text[i] == "; url="@[i - digits.len()]);
        } else {
            assert(text[i] == path[i - digits.len() - 6]);
        }
    }
}

/// Every reply carries a `Refresh` header: with a picture or without, for a screen that
/// is there and for one that is not.
pub proof fn law_replies_carry_refresh(
    encoded: Result<Vec<u8>, EncodePngError>,
    degraded: bool,
    body: Seq<char>,
    name: Seq<char>,
    cfg: ScreenConfig,
    next_rotation: Option<int>,
    now: int,
    path: Seq<char>,
)
    requires
        header_text(path),
    ensures
        encoded_reply(encoded, degraded, cfg, next_rotation, now, path).refresh is Some,
        failed_reply(body, cfg, next_rotation, now, path).refresh is Some,
        not_found(name, path).refresh is Some,
{
    lemma_refresh_header_sent(
        whole_seconds(
            reply_time(degraded, cfg.wake_delay@, cfg.error_refresh@, next_rotation, now),
            now,
        ),
        path,
    );
    lemma_refresh_header_sent(
        whole_seconds(
            error_refresh_time(cfg.error_refresh@, cfg.wake_delay@, next_rotation, now),
            now,
        ),
        path,
    );
    lemma_refresh_header_sent(DEFAULT_REFRESH_SECS as int, path);
}

/// A device that waits as long as it is asked to after a complete picture finds the
/// next rotation due.
pub proof fn law_device_wakes_for_rotation(
    state: Rotation,
    now: int,
    wake_delay: int,
    error_refresh: int,
)
    requires
        state.next is Some,
        wake_delay >= 0,
    ensures
        ({
            let t = reply_time(false, wake_delay, error_refresh, upcoming(state.next, now), now);
            state.due(now + whole_seconds(t, now) * 1_000_000_000)
        }),
{
}

/// With a complete picture the device is asked to come back in the least number of
/// whole seconds after which both the next rotation and the screen's wake delay have
/// gone by.
pub proof fn law_complete_picture_waits_out_the_delay(
    ex: Exchange,
    png: Vec<u8>,
    cfg: &ScreenConfig,
    publisher: &Option<Publisher>,
    sensors: &SensorState,
    path: &str,
    r: (Exchange, Command),
)
    requires
        call_ensures(
            Exchange::step,
            (ex, Event::Encoded(Ok(png)), cfg, publisher, sensors, path),
            r,
        ),
        !ex.degraded,
        ex.next_rotation is Some,
        header_text(path@),
    ensures
        r.1 matches Command::Send(messages, reply) && messages@.len() == 0 && reply.status == 200
            && (reply.body matches Body::Png(b) && b@ == png@) && reply.refresh is Some,
        exists|s: nat|
            r.1->Send_1.refresh->0@ == #[trigger] decimal(s) + "; url="@ + path@ && ex.now@ + s
                * 1_000_000_000 >= ex.next_rotation->0@ + cfg.wake_delay@ && (s > 0 ==> ex.now@ + (s
                - 1) * 1_000_000_000 < ex.next_rotation->0@ + cfg.wake_delay@),
{
    let target = ex.next_rotation->0@ + cfg.wake_delay@;
    let s = whole_seconds(target, ex.now@) as nat;
    lemma_refresh_header_sent(s as int, path@);
    assert(r.1->Send_1.refresh->0@ == decimal(s) + "; url="@ + path@);
}

/// The same of the reply itself.
pub proof fn law_answer_waits_out_the_delay(
    png: Vec<u8>,
    cfg: &ScreenConfig,
    next_rotation: DateTime,
    now: DateTime,
    path: &str,
    reply: Reply,
)
    requires
        call_ensures(answer, (Ok(png), false, cfg, Some(next_rotation), now, path), reply),
        header_text(path@),
    ensures
        reply.status == 200,
        reply.body matches Body::Png(b) && b@ == png@,
        reply.refresh is Some,
        exists|s: nat|
            reply.refresh->0@ == #[trigger] decimal(s) + "; url="@ + path@ && now@ + s
                * 1_000_000_000 >= next_rotation@ + cfg.wake_delay@ && (s > 0 ==> now@ + (s - 1)
                * 1_000_000_000 < next_rotation@ + cfg.wake_delay@),
{
    let target = next_rotation@ + cfg.wake_delay@;
    let s = whole_seconds(target, now@) as nat;
    lemma_refresh_header_sent(s as int, path@);
    assert(reply.refresh->0@ == decimal(s) + "; url="@ + path@);
}

/// Without a rotation to come, the device is asked to come back after the screen's
/// error refresh time, in whole seconds.
pub proof fn law_picture_without_rotation_is_refreshed(
    ex: Exchange,
    png: Vec<u8>,
    cfg: &ScreenConfig,
    publisher: &Option<Publisher>,
    sensors: &SensorState,
    path: &str,
    r: (Exchange, Command),
)
    requires
        call_ensures(
            Exchange::step,
            (ex, Event::Encoded(Ok(png)), cfg, publisher, sensors, path),
            r,
        ),
        ex.next_rotation is None,
        header_text(path@),
    ensures
        r.1 matches Command::Send(messages, reply) && messages@.len() == 0 && reply.status == 200
            && (reply.body matches Body::Png(b) && b@ == png@) && reply.refresh is Some,
        exists|s: nat|
            r.1->Send_1.refresh->0@ == #[trigger] decimal(s) + "; url="@ + path@ && s
                * 1_000_000_000 >= cfg.error_refresh@ && (s > 0 ==> (s - 1) * 1_000_000_000
                < cfg.error_refresh@),
{
    let s = whole_seconds(ex.now@ + cfg.error_refresh@, ex.now@) as nat;
    lemma_refresh_header_sent(s as int, path@);
    assert(r.1->Send_1.refresh->0@ == decimal(s) + "; url="@ + path@);
}

/// After an incomplete picture the device is asked to come back after the error
/// refresh time, or when it would after a complete one, whichever is sooner.
pub proof fn law_incomplete_picture_is_retried(
    ex: Exchange,
    png: Vec<u8>,
    cfg: &ScreenConfig,
    publisher: &Option<Publisher>,
    sensors: &SensorState,
    path: &str,
    r: (Exchange, Command),
)
    requires
        call_ensures(
            Exchange::step,
            (ex, Event::Encoded(Ok(png)), cfg, publisher, sensors, path),
            r,
        ),
        ex.degraded,
        ex.next_rotation is Some,
        header_text(path@),
    ensures
        r.1 matches Command::Send(messages, reply) && messages@.len() == 0 && reply.status == 200
            && (reply.body matches Body::Png(b) && b@ == png@) && reply.refresh is Some,
        exists|s: nat|
            r.1->Send_1.refresh->0@ == #[trigger] decimal(s) + "; url="@ + path@ && (ex.now@ + s
                * 1_000_000_000 >= ex.next_rotation->0@ + cfg.wake_delay@ || s * 1_000_000_000
                >= cfg.error_refresh@) && (s > 0 ==> ex.now@ + (s - 1) * 1_000_000_000
                < ex.next_rotation->0@ + cfg.wake_delay@ && (s - 1) * 1_000_000_000
                < cfg.error_refresh@),
{
    let target = error_refresh_time(
        cfg.error_refresh@,
        cfg.wake_delay@,
        Some(ex.next_rotation->0@),
        ex.now@,
    );
    let s = whole_seconds(target, ex.now@) as nat;
    lemma_refresh_header_sent(s as int, path@);
    assert(r.1->Send_1.refresh->0@ == decimal(s) + "; url="@ + path@);
}

/// A picture that could not be encoded is answered with an internal error that says
/// why, and the device is asked to come back as after an incomplete picture.
pub proof fn law_unencoded_picture_is_an_error(
    ex: Exchange,
    error: EncodePngError,
    cfg: &ScreenConfig,
    publisher: &Option<Publisher>,
    sensors: &SensorState,
    path: &str,
    r: (Exchange, Command),
)
    requires
        call_ensures(
            Exchange::step,
            (ex, Event::Encoded(Err(error)), cfg, publisher, sensors, path),
            r,
        ),
        header_text(path@),
    ensures
        r.1 matches Command::Send(messages, reply) && messages@.len() == 0 && reply.status == 500
            && (reply.body matches Body::Text(t) && t@ == (match error {
            EncodePngError::Pipeline(e) => "dither failed: "@ + e@,
            EncodePngError::Task(e) => "dither task panicked: "@ + e@,
        })) && reply.refresh is Some,
        exists|s: nat|
            r.1->Send_1.refresh->0@ == #[trigger] decimal(s) + "; url="@ + path@ && ((
            ex.next_rotation is Some && ex.now@ + s * 1_000_000_000 >= ex.next_rotation->0@
                + cfg.wake_delay@) || s * 1_000_000_000 >= cfg.error_refresh@) && (s > 0 ==> (
            ex.next_rotation is Some ==> ex.now@ + (s - 1) * 1_000_000_000 < ex.next_rotation->0@
                + cfg.wake_delay@) && (s - 1) * 1_000_000_000 < cfg.error_refresh@),
{
    let target = error_refresh_time(
        cfg.error_refresh@,
        cfg.wake_delay@,
        instant(ex.next_rotation),
        ex.now@,
    );
    let s = whole_seconds(target, ex.now@) as nat;
    lemma_refresh_header_sent(s as int, path@);
    assert(r.1->Send_1.refresh->0@ == decimal(s) + "; url="@ + path@);
}

/// A screen for which there can be no picture at all is answered with an internal
/// error that names its size, and the device is asked to come back as after an
/// incomplete picture.
pub proof fn law_impossible_screen_is_an_error(
    ex: Exchange,
    fetched: Result<RgbImage, String>,
    cfg: &ScreenConfig,
    publisher: &Option<Publisher>,
    sensors: &SensorState,
    path: &str,
    r: (Exchange, Command),
)
    requires
        call_ensures(
            Exchange::step,
            (ex, Event::Fetched(fetched), cfg, publisher, sensors, path),
            r,
        ),
        cfg.width == 0 || cfg.height == 0 || cfg.width * 4 > i32::MAX,
        header_text(path@),
    ensures
        r.0.stage is Replied,
        r.1 matches Command::Send(messages, reply) && reply.status == 500 && (
        reply.body matches Body::Text(t) && t@ == "placeholder failed: "@ + ("failed to allocate "@
            + decimal(cfg.width as nat) + "x"@ + decimal(cfg.height as nat) + " pixmap"@))
            && reply.refresh is Some,
        exists|s: nat|
            r.1->Send_1.refresh->0@ == #[trigger] decimal(s) + "; url="@ + path@ && ((
            ex.next_rotation is Some && ex.now@ + s * 1_000_000_000 >= ex.next_rotation->0@
                + cfg.wake_delay@) || s * 1_000_000_000 >= cfg.error_refresh@) && (s > 0 ==> (
            ex.next_rotation is Some ==> ex.now@ + (s - 1) * 1_000_000_000 < ex.next_rotation->0@
                + cfg.wake_delay@) && (s - 1) * 1_000_000_000 < cfg.error_refresh@),
{
    let target = error_refresh_time(
        cfg.error_refresh@,
        cfg.wake_delay@,
        instant(ex.next_rotation),
        ex.now@,
    );
    let s = whole_seconds(target, ex.now@) as nat;
    lemma_refresh_header_sent(s as int, path@);
    assert(r.1->Send_1.refresh->0@ == decimal(s) + "; url="@ + path@);
}

/// An event that comes on the way changes nothing but what it is about: the moment of
/// the request stays, a rotation that is known is kept until another is picked, and a
/// picture that falls short of what it should show stays so.
pub proof fn law_course_of_a_request(
    ex: Exchange,
    event: Event,
    cfg: &ScreenConfig,
    publisher: &Option<Publisher>,
    sensors: &SensorState,
    path: &str,
    r: (Exchange, Command),
)
    requires
        call_ensures(Exchange::step, (ex, event, cfg, publisher, sensors, path), r),
    ensures
        r.0.now@ == ex.now@,
        ex.degraded ==> r.0.degraded,
        event matches Event::Picked(next) ==> r.0.next_rotation == next && r.0.stage == ex.stage
            && r.0.degraded == ex.degraded && r.1 is Wait,
        !(event is Picked) ==> r.0.next_rotation == ex.next_rotation,
        event matches Event::Drawn(overlays) ==> r.0.stage is Encoding && r.1 is Encode && (
        !ex.degraded ==> (r.0.degraded <==> exists|i: int|
            0 <= i < overlays@.len() && #[trigger] overlays@[i])),
        event matches Event::Fetched(Err(_)) ==> r.0.degraded,
        event is Fetched && cfg.width > 0 && cfg.height > 0 && cfg.width * 4 <= i32::MAX
            && cfg.width
            * cfg.height * 4 <= usize::MAX ==> r.0.stage is Drawing && r.1 is Draw,
        event matches Event::Fetched(Ok(photo)) ==> cfg.width > 0 && cfg.height > 0 && cfg.width * 4
            <= i32::MAX && cfg.width * cfg.height * 4 <= usize::MAX ==> r.0.degraded == (ex.degraded
            || photo@.width > cfg.width || photo@.height > cfg.height),
        event is Encoded ==> r.0.stage is Replied && r.1 is Send && r.0.degraded == ex.degraded,
{
    if let Event::Drawn(overlays) = event {
        if overlays@.contains(true) {
            let i = choose|i: int| 0 <= i < overlays@.len() && overlays@[i] == true;
            assert(overlays@[i]);
        }
        if exists|i: int| 0 <= i < overlays@.len() && #[trigger] overlays@[i] {
            let i = choose|i: int| 0 <= i < overlays@.len() && #[trigger] overlays@[i];
            assert(overlays@[i] == true);
            assert(overlays@.contains(true));
        }
    }
}

/// A request can always go on to where the photo is picked and the overlays are drawn;
/// with a photo or a picture it can wherever memory suffices and the moments at which
/// the device might come back exist.
pub proof fn law_requests_go_on(ex: Exchange, event: &Event, cfg: &ScreenConfig, r: bool)
    requires
        call_ensures(Exchange::can_step, (&ex, event, cfg), r),
        match event {
            Event::Picked(_) => ex.stage is Fetching,
            Event::Fetched(fetched) => ex.stage is Fetching && (cfg.background is Blur ==> cfg.width
                <= 8_388_608 && cfg.height <= 8_388_608 && cfg.width * 1024 <= isize::MAX),
            Event::Drawn(_) => ex.stage is Drawing,
            Event::Encoded(_) => ex.stage is Encoding,
        },
        cfg.width * cfg.height * 16 <= isize::MAX,
        representable(ex.now@ + cfg.error_refresh@),
        ex.next_rotation is Some ==> representable(ex.next_rotation->0@ + cfg.wake_delay@),
    ensures
        r,
{
}

/// A screen is found by its name, and of several with one name the last; a name that
/// no screen has is answered with "not found", and the device is asked to come back
/// in an hour.
pub proof fn law_screens_are_found_by_name(
    screens: &Vec<ScreenConfig>,
    name: &str,
    path: &str,
    r: Result<usize, Reply>,
)
    requires
        call_ensures(find_screen, (screens, name, path), r),
        header_text(path@),
    ensures
        r is Err <==> forall|i: int|
            0 <= i < screens@.len() ==> (#[trigger] screens@[i]).name@ != name@,
        r matches Ok(i) ==> i < screens@.len() && screens@[i as int].name@ == name@
            && forall|j: int|
            i < j < screens@.len() ==> (#[trigger] screens@[j]).name@ != name@,
        r matches Err(reply) ==> reply.status == 404 && (reply.body matches Body::Text(t) && t@
            == "screen `"@ + name@ + "` not found"@) && reply.refresh is Some
            && reply.refresh->0@ == decimal(3600) + "; url="@ + path@,
{
    lemma_refresh_header_sent(3600, path@);
    if let Ok(i) = r {
        assert(serves(screens@, name@, i as int));
        assert(screens@[i as int].name@ == name@);
    } else {
        assert(unserved(screens@, name@));
    }
}

/// A request that is about no screen is answered with the given status and text, and
/// the device is asked to come back in an hour.
pub proof fn law_screenless_requests_are_answered(status: u16, body: String, path: &str,
    reply: Reply)
    requires
        call_ensures(reply_without_screen, (status, body, path), reply),
        header_text(path@),
    ensures
        reply.status == status,
        reply.body matches Body::Text(t) && t@ == body@,
        reply.refresh is Some,
        reply.refresh->0@ == decimal(3600) + "; url="@ + path@,
{
    lemma_refresh_header_sent(3600, path@);
}

/// The moment at which the device is to come back lies no earlier than the next rotation
/// and its delay after a complete picture, and no later than that or the error refresh
/// time after an incomplete one.
pub proof fn law_refresh_target_is_the_moment(
    degraded: bool,
    cfg: &ScreenConfig,
    next_rotation: Option<DateTime>,
    now: DateTime,
    r: Option<DateTime>,
)
    requires
        call_ensures(refresh_target, (degraded, cfg, next_rotation, now), r),
    ensures
        r is None <==> !degraded && next_rotation is None,
        !degraded && next_rotation is Some ==> r->0@ == next_rotation->0@ + cfg.wake_delay@,
        degraded ==> r->0@ <= now@ + cfg.error_refresh@ && (next_rotation is Some ==> r->0@
            <= next_rotation->0@ + cfg.wake_delay@) && (r->0@ == now@ + cfg.error_refresh@ || (
        next_rotation is Some && r->0@ == next_rotation->0@ + cfg.wake_delay@)),
{
}

/// The header holds the least number of whole seconds that reach the target, and the
/// path.
pub proof fn law_refresh_header_reaches_the_target(
    target: DateTime,
    now: DateTime,
    path: &str,
    r: Option<String>,
)
    requires
        call_ensures(set_refresh_header, (target, now, path), r),
        header_text(path@),
    ensures
        r is Some,
        exists|s: nat|
            r->0@ == #[trigger] decimal(s) + "; url="@ + path@ && now@ + s * 1_000_000_000
                >= target@ && (s > 0 ==> now@ + (s - 1) * 1_000_000_000 < target@),
{
    let s = whole_seconds(target@, now@) as nat;
    lemma_refresh_header_sent(s as int, path@);
    assert(r->0@ == decimal(s) + "; url="@ + path@);
}

/// A failed request is answered with an internal error that says why, and the device is
/// asked to come back after the error refresh time, or after the next rotation and its
/// delay if that is sooner.
pub proof fn law_failed_request_is_an_error(
    body: String,
    cfg: &ScreenConfig,
    next_rotation: Option<DateTime>,
    now: DateTime,
    path: &str,
    reply: Reply,
)
    requires
        call_ensures(error_response_with_refresh, (body, cfg, next_rotation, now, path), reply),
        header_text(path@),
    ensures
        reply.status == 500,
        reply.body matches Body::Text(t) && t@ == body@,
        reply.refresh is Some,
        exists|s: nat|
            reply.refresh->0@ == #[trigger] decimal(s) + "; url="@ + path@ && ((
            next_rotation is Some && now@ + s * 1_000_000_000 >= next_rotation->0@
                + cfg.wake_delay@) || s * 1_000_000_000 >= cfg.error_refresh@) && (s > 0 ==> (
            next_rotation is Some ==> now@ + (s - 1) * 1_000_000_000 < next_rotation->0@
                + cfg.wake_delay@) && (s - 1) * 1_000_000_000 < cfg.error_refresh@),
{
    let target = error_refresh_time(
        cfg.error_refresh@,
        cfg.wake_delay@,
        instant(next_rotation),
        now@,
    );
    let s = whole_seconds(target, now@) as nat;
    lemma_refresh_header_sent(s as int, path@);
    assert(reply.refresh->0@ == decimal(s) + "; url="@ + path@);
}

/// An action steps through the album, one place on or back, and drops the cached copy
/// of it; the readings are those of the query.
pub proof fn law_query_is_read(query: &ScreenQuery, step: i64, refresh: bool, sensors: SensorState)
    requires
        call_ensures(ScreenQuery::cursor_advance, (query,), step),
        call_ensures(ScreenQuery::refresh_album, (query,), refresh),
        call_ensures(ScreenQuery::sensors, (query,), sensors),
    ensures
        step == 1 <==> query.action == Some(Action::Next),
        step == -1 <==> query.action == Some(Action::Previous),
        step == 0 <==> query.action is None || query.action == Some(Action::Refresh),
        refresh <==> query.action is Some,
        sensors.battery_mv == query.battery_mv,
        sensors.battery_pct == query.battery_pct,
        sensors.temperature_c == query.temperature_c,
        sensors.humidity_pct == query.humidity_pct,
        sensors.power == query.power,
{
}

/// A photo that fits stands in the centre of a screen of the configured size, pixel for
/// pixel, and a solid background fills the rest of it.
pub proof fn law_composed_photo(
    photo: RgbImage,
    cfg: &ScreenConfig,
    r: Result<Composed, String>,
)
    requires
        call_ensures(compose, (Ok(photo), cfg), r),
        cfg.width > 0 && cfg.height > 0 && cfg.width * 4 <= i32::MAX && cfg.width * cfg.height * 4
            <= usize::MAX,
        photo@.width <= cfg.width && photo@.height <= cfg.height,
    ensures
        r is Ok,
        r->Ok_0.failure is None,
        r->Ok_0.canvas@.width == cfg.width && r->Ok_0.canvas@.height == cfg.height,
        forall|x: int, y: int|
            0 <= x - (cfg.width - photo@.width) / 2 < photo@.width && 0 <= y - (cfg.height
                - photo@.height) / 2 < photo@.height ==> #[trigger] r->Ok_0.canvas@.at(x, y) == (
                photo@.at(x - (cfg.width - photo@.width) / 2,
                    y - (cfg.height - photo@.height) / 2).0,
                photo@.at(x - (cfg.width - photo@.width) / 2,
                    y - (cfg.height - photo@.height) / 2).1,
                photo@.at(x - (cfg.width - photo@.width) / 2,
                    y - (cfg.height - photo@.height) / 2).2,
                255u8,
            ),
        cfg.background matches BackgroundMethod::Solid(c) ==> forall|x: int, y: int|
            0 <= x < cfg.width && 0 <= y < cfg.height && !(0 <= x - (cfg.width - photo@.width) / 2
                < photo@.width && 0 <= y - (cfg.height - photo@.height) / 2 < photo@.height)
                ==> #[trigger] r->Ok_0.canvas@.at(x, y) == (c.red, c.green, c.blue, 255u8),
{
    let canvas = r->Ok_0.canvas@;
    assert(shows(canvas, photo@, cfg.width, cfg.height, cfg.background));
    assert forall|x: int, y: int|
        0 <= x - (cfg.width - photo@.width) / 2 < photo@.width && 0 <= y - (cfg.height
            - photo@.height) / 2 < photo@.height implies #[trigger] canvas.at(x, y) == (
        photo@.at(x - (cfg.width - photo@.width) / 2, y - (cfg.height - photo@.height) / 2).0,
        photo@.at(x - (cfg.width - photo@.width) / 2, y - (cfg.height - photo@.height) / 2).1,
        photo@.at(x - (cfg.width - photo@.width) / 2, y - (cfg.height - photo@.height) / 2).2,
        255u8,
    ) by {
        assert(canvas.has(x, y));
        assert(photo@.has(
            x - (cfg.width - photo@.width) / 2,
            y - (cfg.height - photo@.height) / 2,
        ));
    }
    if let BackgroundMethod::Solid(c) = cfg.background {
        assert forall|x: int, y: int|
            0 <= x < cfg.width && 0 <= y < cfg.height && !(0 <= x - (cfg.width - photo@.width) / 2
                < photo@.width && 0 <= y - (cfg.height - photo@.height) / 2
                < photo@.height) implies #[trigger] canvas.at(x, y) == (
            c.red,
            c.green,
            c.blue,
            255u8,
        ) by {
            assert(canvas.has(x, y));
        }
    }
}

/// A blurred background is a Gaussian blur of the photo stretched over the whole screen:
/// it is what stands around the photo.
pub proof fn law_composed_blur(
    photo: RgbImage,
    cfg: &ScreenConfig,
    r: Result<Composed, String>,
)
    requires
        call_ensures(compose, (Ok(photo), cfg), r),
        cfg.width > 0 && cfg.height > 0 && cfg.width * 4 <= i32::MAX && cfg.width * cfg.height * 4
            <= usize::MAX,
        photo@.width <= cfg.width && photo@.height <= cfg.height,
        photo@.width < cfg.width || photo@.height < cfg.height,
        cfg.background is Blur,
    ensures
        r is Ok,
        exists|blurred: Seq<u8>| #[trigger]
            is_blur(
                resized(
                    photo@.data,
                    photo@.width as u32,
                    photo@.height as u32,
                    cfg.width,
                    cfg.height,
                ),
                cfg.width,
                cfg.height,
                24,
                blurred,
            ) && forall|x: int, y: int|
                0 <= x < cfg.width && 0 <= y < cfg.height && !(0 <= x - (cfg.width - photo@.width)
                    / 2 < photo@.width && 0 <= y - (cfg.height - photo@.height) / 2 < photo@.height)
                    ==> #[trigger] r->Ok_0.canvas@.at(x, y) == (
                    blurred[(y * cfg.width + x) * 3],
                    blurred[(y * cfg.width + x) * 3 + 1],
                    blurred[(y * cfg.width + x) * 3 + 2],
                    255u8,
                ),
{
    let canvas = r->Ok_0.canvas@;
    assert(shows(canvas, photo@, cfg.width, cfg.height, cfg.background));
    assert(framed_by_blur(canvas, cfg.width, cfg.height, photo@));
    let backing = choose|backing: Picture|
        blurred_cover(photo@, cfg.width, cfg.height, backing) && #[trigger] framed(
            canvas,
            cfg.width as int,
            cfg.height as int,
            photo@,
            backdrop(backing),
        );
    let blurred = backing.data;
    assert(is_blur(
        resized(photo@.data, photo@.width as u32, photo@.height as u32, cfg.width, cfg.height),
        cfg.width,
        cfg.height,
        24,
        blurred,
    ));
    assert forall|x: int, y: int|
        0 <= x < cfg.width && 0 <= y < cfg.height && !(0 <= x - (cfg.width - photo@.width) / 2
            < photo@.width && 0 <= y - (cfg.height - photo@.height) / 2
            < photo@.height) implies #[trigger] canvas.at(x, y) == (
        blurred[(y * cfg.width + x) * 3],
        blurred[(y * cfg.width + x) * 3 + 1],
        blurred[(y * cfg.width + x) * 3 + 2],
        255u8,
    ) by {
        assert(canvas.has(x, y));
    }
}

/// Without a photo that fits, the screen is blank in the colour of a solid background, or
/// white, and what went wrong is to be written on it in the inverse colour.
pub proof fn law_composed_failure(
    fetched: Result<RgbImage, String>,
    cfg: &ScreenConfig,
    r: Result<Composed, String>,
)
    requires
        call_ensures(compose, (fetched, cfg), r),
        cfg.width > 0 && cfg.height > 0 && cfg.width * 4 <= i32::MAX && cfg.width * cfg.height * 4
            <= usize::MAX,
        fetched matches Ok(photo) ==> photo@.width > cfg.width || photo@.height > cfg.height,
    ensures
        r is Ok,
        r->Ok_0.canvas@.width == cfg.width && r->Ok_0.canvas@.height == cfg.height,
        cfg.background is Blur ==> forall|x: int, y: int|
            0 <= x < cfg.width && 0 <= y < cfg.height ==> #[trigger] r->Ok_0.canvas@.at(x, y) == (
                255u8,
                255u8,
                255u8,
                255u8,
            ),
        cfg.background matches BackgroundMethod::Solid(c) ==> forall|x: int, y: int|
            0 <= x < cfg.width && 0 <= y < cfg.height ==> #[trigger] r->Ok_0.canvas@.at(x, y) == (
                c.red,
                c.green,
                c.blue,
                255u8,
            ),
        r->Ok_0.failure is Some,
        fetched matches Err(e) ==> r->Ok_0.failure->0.detail@ == e@,
        fetched matches Ok(photo) ==> r->Ok_0.failure->0.detail@ == "returned image "@ + decimal(
            photo@.width as nat,
        ) + "×"@ + decimal(photo@.height as nat) + " is larger than requested "@ + decimal(
            cfg.width as nat,
        ) + "×"@ + decimal(cfg.height as nat),
        r->Ok_0.failure->0.text.alpha == 255,
        forall|x: int, y: int|
            0 <= x < cfg.width && 0 <= y < cfg.height ==> (#[trigger] r->Ok_0.canvas@.at(x, y)).0
                + r->Ok_0.failure->0.text.red == 255 && r->Ok_0.canvas@.at(x, y).1
                + r->Ok_0.failure->0.text.green == 255 && r->Ok_0.canvas@.at(x, y).2
                + r->Ok_0.failure->0.text.blue == 255,
{
    let canvas = r->Ok_0.canvas@;
    assert(blank(canvas, cfg.width, cfg.height, cfg.background));
    assert forall|x: int, y: int| 0 <= x < cfg.width
        && 0 <= y < cfg.height implies #[trigger] canvas.at(
        x,
        y,
    ) == (
        canvas_color(cfg.background).0,
        canvas_color(cfg.background).1,
        canvas_color(cfg.background).2,
        255u8,
    ) by {
        assert(canvas.has(x, y));
    }
}

/// The picture that a request draws its overlays on shows the fetched photo in its
/// centre, pixel for pixel, and a solid background around it.
pub proof fn law_drawn_photo(
    ex: Exchange,
    publisher: &Option<Publisher>,
    sensors: &SensorState,
    path: &str,
    photo: RgbImage,
    cfg: &ScreenConfig,
    r: (Exchange, Command),
)
    requires
        call_ensures(
            Exchange::step,
            (ex, Event::Fetched(Ok(photo)), cfg, publisher, sensors, path),
            r,
        ),
        cfg.width > 0 && cfg.height > 0 && cfg.width * 4 <= i32::MAX && cfg.width * cfg.height * 4
            <= usize::MAX,
        photo@.width <= cfg.width && photo@.height <= cfg.height,
    ensures
        r.1 is Draw,
        r.1->Draw_0.failure is None,
        r.1->Draw_0.canvas@.width == cfg.width && r.1->Draw_0.canvas@.height == cfg.height,
        forall|x: int, y: int|
            0 <= x - (cfg.width - photo@.width) / 2 < photo@.width && 0 <= y - (cfg.height
                - photo@.height) / 2 < photo@.height ==> #[trigger] r.1->Draw_0.canvas@.at(x,
                    y) == (
                photo@.at(x - (cfg.width - photo@.width) / 2,
                    y - (cfg.height - photo@.height) / 2).0,
                photo@.at(x - (cfg.width - photo@.width) / 2,
                    y - (cfg.height - photo@.height) / 2).1,
                photo@.at(x - (cfg.width - photo@.width) / 2,
                    y - (cfg.height - photo@.height) / 2).2,
                255u8,
            ),
        cfg.background matches BackgroundMethod::Solid(c) ==> forall|x: int, y: int|
            0 <= x < cfg.width && 0 <= y < cfg.height && !(0 <= x - (cfg.width - photo@.width) / 2
                < photo@.width && 0 <= y - (cfg.height - photo@.height) / 2 < photo@.height)
                ==> #[trigger] r.1->Draw_0.canvas@.at(x, y) == (c.red, c.green, c.blue, 255u8),
{
    let canvas = r.1->Draw_0.canvas@;
    assert(shows(canvas, photo@, cfg.width, cfg.height, cfg.background));
    assert forall|x: int, y: int|
        0 <= x - (cfg.width - photo@.width) / 2 < photo@.width && 0 <= y - (cfg.height
            - photo@.height) / 2 < photo@.height implies #[trigger] canvas.at(x, y) == (
        photo@.at(x - (cfg.width - photo@.width) / 2, y - (cfg.height - photo@.height) / 2).0,
        photo@.at(x - (cfg.width - photo@.width) / 2, y - (cfg.height - photo@.height) / 2).1,
        photo@.at(x - (cfg.width - photo@.width) / 2, y - (cfg.height - photo@.height) / 2).2,
        255u8,
    ) by {
        assert(canvas.has(x, y));
        assert(photo@.has(
            x - (cfg.width - photo@.width) / 2,
            y - (cfg.height - photo@.height) / 2,
        ));
    }
    if let BackgroundMethod::Solid(c) = cfg.background {
        assert forall|x: int, y: int|
            0 <= x < cfg.width && 0 <= y < cfg.height && !(0 <= x - (cfg.width - photo@.width) / 2
                < photo@.width && 0 <= y - (cfg.height - photo@.height) / 2
                < photo@.height) implies #[trigger] canvas.at(x, y) == (
            c.red,
            c.green,
            c.blue,
            255u8,
        ) by {
            assert(canvas.has(x, y));
        }
    }
}

/// With a blurred background, what stands around the photo in the picture that a request
/// draws its overlays on is a Gaussian blur of the photo stretched over the screen.
pub proof fn law_drawn_blur(
    ex: Exchange,
    publisher: &Option<Publisher>,
    sensors: &SensorState,
    path: &str,
    photo: RgbImage,
    cfg: &ScreenConfig,
    r: (Exchange, Command),
)
    requires
        call_ensures(
            Exchange::step,
            (ex, Event::Fetched(Ok(photo)), cfg, publisher, sensors, path),
            r,
        ),
        cfg.width > 0 && cfg.height > 0 && cfg.width * 4 <= i32::MAX && cfg.width * cfg.height * 4
            <= usize::MAX,
        photo@.width <= cfg.width && photo@.height <= cfg.height,
        photo@.width < cfg.width || photo@.height < cfg.height,
        cfg.background is Blur,
    ensures
        r.1 is Draw,
        exists|blurred: Seq<u8>| #[trigger]
            is_blur(
                resized(
                    photo@.data,
                    photo@.width as u32,
                    photo@.height as u32,
                    cfg.width,
                    cfg.height,
                ),
                cfg.width,
                cfg.height,
                24,
                blurred,
            ) && forall|x: int, y: int|
                0 <= x < cfg.width && 0 <= y < cfg.height && !(0 <= x - (cfg.width - photo@.width)
                    / 2 < photo@.width && 0 <= y - (cfg.height - photo@.height) / 2 < photo@.height)
                    ==> #[trigger] r.1->Draw_0.canvas@.at(x, y) == (
                    blurred[(y * cfg.width + x) * 3],
                    blurred[(y * cfg.width + x) * 3 + 1],
                    blurred[(y * cfg.width + x) * 3 + 2],
                    255u8,
                ),
{
    let canvas = r.1->Draw_0.canvas@;
    assert(shows(canvas, photo@, cfg.width, cfg.height, cfg.background));
    assert(framed_by_blur(canvas, cfg.width, cfg.height, photo@));
    let backing = choose|backing: Picture|
        blurred_cover(photo@, cfg.width, cfg.height, backing) && #[trigger] framed(
            canvas,
            cfg.width as int,
            cfg.height as int,
            photo@,
            backdrop(backing),
        );
    let blurred = backing.data;
    assert(is_blur(
        resized(photo@.data, photo@.width as u32, photo@.height as u32, cfg.width, cfg.height),
        cfg.width,
        cfg.height,
        24,
        blurred,
    ));
    assert forall|x: int, y: int|
        0 <= x < cfg.width && 0 <= y < cfg.height && !(0 <= x - (cfg.width - photo@.width) / 2
            < photo@.width && 0 <= y - (cfg.height - photo@.height) / 2
            < photo@.height) implies #[trigger] canvas.at(x, y) == (
        blurred[(y * cfg.width + x) * 3],
        blurred[(y * cfg.width + x) * 3 + 1],
        blurred[(y * cfg.width + x) * 3 + 2],
        255u8,
    ) by {
        assert(canvas.has(x, y));
    }
}

/// A request without a photo that fits draws its overlays on a blank screen, and says what
/// went wrong in the inverse colour.
pub proof fn law_drawn_failure(
    ex: Exchange,
    publisher: &Option<Publisher>,
    sensors: &SensorState,
    path: &str,
    fetched: Result<RgbImage, String>,
    cfg: &ScreenConfig,
    r: (Exchange, Command),
)
    requires
        call_ensures(
            Exchange::step,
            (ex, Event::Fetched(fetched), cfg, publisher, sensors, path),
            r,
        ),
        cfg.width > 0 && cfg.height > 0 && cfg.width * 4 <= i32::MAX && cfg.width * cfg.height * 4
            <= usize::MAX,
        fetched matches Ok(photo) ==> photo@.width > cfg.width || photo@.height > cfg.height,
    ensures
        r.1 is Draw,
        r.1->Draw_0.canvas@.width == cfg.width && r.1->Draw_0.canvas@.height == cfg.height,
        cfg.background is Blur ==> forall|x: int, y: int|
            0 <= x < cfg.width
                && 0 <= y < cfg.height ==> #[trigger] r.1->Draw_0.canvas@.at(x, y) == (
                255u8,
                255u8,
                255u8,
                255u8,
            ),
        cfg.background matches BackgroundMethod::Solid(c) ==> forall|x: int, y: int|
            0 <= x < cfg.width
                && 0 <= y < cfg.height ==> #[trigger] r.1->Draw_0.canvas@.at(x, y) == (
                c.red,
                c.green,
                c.blue,
                255u8,
            ),
        r.1->Draw_0.failure is Some,
        fetched matches Err(e) ==> r.1->Draw_0.failure->0.detail@ == e@,
        fetched matches Ok(photo) ==> r.1->Draw_0.failure->0.detail@ == "returned image "@
            + decimal(
            photo@.width as nat,
        ) + "×"@ + decimal(photo@.height as nat) + " is larger than requested "@ + decimal(
            cfg.width as nat,
        ) + "×"@ + decimal(cfg.height as nat),
        r.1->Draw_0.failure->0.text.alpha == 255,
        forall|x: int, y: int|
            0 <= x < cfg.width
                && 0 <= y < cfg.height ==> (#[trigger] r.1->Draw_0.canvas@.at(x, y)).0
                + r.1->Draw_0.failure->0.text.red == 255 && r.1->Draw_0.canvas@.at(x, y).1
                + r.1->Draw_0.failure->0.text.green == 255 && r.1->Draw_0.canvas@.at(x, y).2
                + r.1->Draw_0.failure->0.text.blue == 255,
{
    let canvas = r.1->Draw_0.canvas@;
    assert(blank(canvas, cfg.width, cfg.height, cfg.background));
    assert forall|x: int, y: int| 0 <= x < cfg.width
        && 0 <= y < cfg.height implies #[trigger] canvas.at(
        x,
        y,
    ) == (
        canvas_color(cfg.background).0,
        canvas_color(cfg.background).1,
        canvas_color(cfg.background).2,
        255u8,
    ) by {
        assert(canvas.has(x, y));
    }
}

/// Every message that a request sends carries an enabled reading that came with it, or
/// the time of it, under the name of the screen, whatever its label, and of the
/// reading.
pub proof fn law_drawn_messages_sound(
    ex: Exchange,
    overlays: Vec<bool>,
    cfg: &ScreenConfig,
    publisher: &Option<Publisher>,
    sensors: &SensorState,
    path: &str,
    r: (Exchange, Command),
    i: int,
)
    requires
        call_ensures(
            Exchange::step,
            (ex, Event::Drawn(overlays), cfg, publisher, sensors, path),
            r,
        ),
        publisher is Some,
        0 <= i < r.1->Encode_0@.len(),
    ensures
        r.1->Encode_0@[i].qos is AtMostOnce,
        r.1->Encode_0@[i].retain,
        ({
            ||| cfg.publish.battery && sensors.battery_mv is Some
                && r.1->Encode_0@[i].topic@ == publisher->0.state_prefix@ + "/"@ + cfg.name@
                + "/"@ + "battery_mv"@
                && r.1->Encode_0@[i].payload@ == decimal(sensors.battery_mv->0 as nat)
            ||| cfg.publish.battery && sensors.battery_pct is Some
                && r.1->Encode_0@[i].topic@ == publisher->0.state_prefix@ + "/"@ + cfg.name@
                + "/"@ + "battery_pct"@
                && r.1->Encode_0@[i].payload@ == decimal(sensors.battery_pct->0 as nat)
            ||| cfg.publish.temperature && sensors.temperature_c is Some
                && r.1->Encode_0@[i].topic@ == publisher->0.state_prefix@ + "/"@ + cfg.name@
                + "/"@ + "temperature"@ && r.1->Encode_0@[i].payload@ == sensors.temperature_c->0@
            ||| cfg.publish.humidity && sensors.humidity_pct is Some
                && r.1->Encode_0@[i].topic@ == publisher->0.state_prefix@ + "/"@ + cfg.name@
                + "/"@ + "humidity"@ && r.1->Encode_0@[i].payload@ == sensors.humidity_pct->0@
            ||| cfg.publish.power && sensors.power is Some
                && r.1->Encode_0@[i].topic@ == publisher->0.state_prefix@ + "/"@ + cfg.name@
                + "/"@ + "power"@ && r.1->Encode_0@[i].payload@ == (match sensors.power->0 {
            PowerState::Battery => "battery"@,
            PowerState::Charging => "charging"@,
            PowerState::Full => "full"@,
            PowerState::Fault => "fault"@,
        })
            ||| cfg.publish.last_seen
                && r.1->Encode_0@[i].topic@ == publisher->0.state_prefix@ + "/"@ + cfg.name@
                + "/"@ + "last_seen"@ && r.1->Encode_0@[i].payload@ == rfc3339(ex.now@)
        }),
{
    let rs = readings(cfg.publish, *sensors, rfc3339(ex.now@));
    lemma_message_of(r.1->Encode_0@, publisher->0.state_prefix@, cfg.name@, rs, i);
    lemma_reading_value(cfg.publish, *sensors, rfc3339(ex.now@), i);
}

/// A request sends every enabled reading that came with it, and the time of it if that is
/// enabled.
pub proof fn law_drawn_messages_complete(
    ex: Exchange,
    overlays: Vec<bool>,
    cfg: &ScreenConfig,
    publisher: &Option<Publisher>,
    sensors: &SensorState,
    path: &str,
    r: (Exchange, Command),
)
    requires
        call_ensures(
            Exchange::step,
            (ex, Event::Drawn(overlays), cfg, publisher, sensors, path),
            r,
        ),
        publisher is Some,
    ensures
        cfg.publish.battery && sensors.battery_mv is Some ==> exists|i: int|
            0 <= i < r.1->Encode_0@.len()
                && (#[trigger] r.1->Encode_0@[i]).topic@ == publisher->0.state_prefix@ + "/"@
                + cfg.name@ + "/"@ + "battery_mv"@
                && r.1->Encode_0@[i].payload@ == decimal(sensors.battery_mv->0 as nat),
        cfg.publish.battery && sensors.battery_pct is Some ==> exists|i: int|
            0 <= i < r.1->Encode_0@.len()
                && (#[trigger] r.1->Encode_0@[i]).topic@ == publisher->0.state_prefix@ + "/"@
                + cfg.name@ + "/"@ + "battery_pct"@
                && r.1->Encode_0@[i].payload@ == decimal(sensors.battery_pct->0 as nat),
        cfg.publish.temperature && sensors.temperature_c is Some ==> exists|i: int|
            0 <= i < r.1->Encode_0@.len()
                && (#[trigger] r.1->Encode_0@[i]).topic@ == publisher->0.state_prefix@ + "/"@
                + cfg.name@ + "/"@ + "temperature"@
                && r.1->Encode_0@[i].payload@ == sensors.temperature_c->0@,
        cfg.publish.humidity && sensors.humidity_pct is Some ==> exists|i: int|
            0 <= i < r.1->Encode_0@.len()
                && (#[trigger] r.1->Encode_0@[i]).topic@ == publisher->0.state_prefix@ + "/"@
                + cfg.name@ + "/"@ + "humidity"@
                && r.1->Encode_0@[i].payload@ == sensors.humidity_pct->0@,
        cfg.publish.power && sensors.power is Some ==> exists|i: int|
            0 <= i < r.1->Encode_0@.len()
                && (#[trigger] r.1->Encode_0@[i]).topic@ == publisher->0.state_prefix@ + "/"@
                + cfg.name@ + "/"@ + "power"@
                && r.1->Encode_0@[i].payload@ == (match sensors.power->0 {
            PowerState::Battery => "battery"@,
            PowerState::Charging => "charging"@,
            PowerState::Full => "full"@,
            PowerState::Fault => "fault"@,
        }),
        cfg.publish.last_seen ==> exists|i: int|
            0 <= i < r.1->Encode_0@.len()
                && (#[trigger] r.1->Encode_0@[i]).topic@ == publisher->0.state_prefix@ + "/"@
                + cfg.name@ + "/"@ + "last_seen"@ && r.1->Encode_0@[i].payload@ == rfc3339(ex.now@),
{
    let rs = readings(cfg.publish, *sensors, rfc3339(ex.now@));
    lemma_readings_listed(cfg.publish, *sensors, rfc3339(ex.now@));
    if cfg.publish.battery && sensors.battery_mv is Some {
        lemma_message_sent(r.1->Encode_0@, publisher->0.state_prefix@, cfg.name@, rs,
            ("battery_mv"@, decimal(sensors.battery_mv->0 as nat)));
    }
    if cfg.publish.battery && sensors.battery_pct is Some {
        lemma_message_sent(r.1->Encode_0@, publisher->0.state_prefix@, cfg.name@, rs,
            ("battery_pct"@, decimal(sensors.battery_pct->0 as nat)));
    }
    if cfg.publish.temperature && sensors.temperature_c is Some {
        lemma_message_sent(r.1->Encode_0@, publisher->0.state_prefix@, cfg.name@, rs,
            ("temperature"@, sensors.temperature_c->0@));
    }
    if cfg.publish.humidity && sensors.humidity_pct is Some {
        lemma_message_sent(r.1->Encode_0@, publisher->0.state_prefix@, cfg.name@, rs,
            ("humidity"@, sensors.humidity_pct->0@));
    }
    if cfg.publish.power && sensors.power is Some {
        lemma_message_sent(r.1->Encode_0@, publisher->0.state_prefix@, cfg.name@, rs, ("power"@,
            sensors.power->0.name()));
    }
    if cfg.publish.last_seen {
        lemma_message_sent(r.1->Encode_0@, publisher->0.state_prefix@, cfg.name@, rs,
            ("last_seen"@, rfc3339(ex.now@)));
    }
}

/// No two messages of a request go to one topic.
pub proof fn law_drawn_messages_distinct(
    ex: Exchange,
    overlays: Vec<bool>,
    cfg: &ScreenConfig,
    publisher: &Option<Publisher>,
    sensors: &SensorState,
    path: &str,
    r: (Exchange, Command),
    i: int,
    j: int,
)
    requires
        call_ensures(
            Exchange::step,
            (ex, Event::Drawn(overlays), cfg, publisher, sensors, path),
            r,
        ),
        publisher is Some,
        0 <= i < j < r.1->Encode_0@.len(),
    ensures
        r.1->Encode_0@[i].topic@ != r.1->Encode_0@[j].topic@,
{
    let rs = readings(cfg.publish, *sensors, rfc3339(ex.now@));
    lemma_message_of(r.1->Encode_0@, publisher->0.state_prefix@, cfg.name@, rs, i);
    lemma_message_of(r.1->Encode_0@, publisher->0.state_prefix@, cfg.name@, rs, j);
    lemma_reading_keys_differ(cfg.publish, *sensors, rfc3339(ex.now@), i, j);
    lemma_topics_differ(publisher->0.state_prefix@, cfg.name@, rs[i].0, rs[j].0);
}

/// The same of the messages of a request that fails for good.
pub proof fn law_impossible_messages_sound(
    ex: Exchange,
    fetched: Result<RgbImage, String>,
    cfg: &ScreenConfig,
    publisher: &Option<Publisher>,
    sensors: &SensorState,
    path: &str,
    r: (Exchange, Command),
    i: int,
)
    requires
        call_ensures(
            Exchange::step,
            (ex, Event::Fetched(fetched), cfg, publisher, sensors, path),
            r,
        ),
        publisher is Some,
        cfg.width == 0 || cfg.height == 0 || cfg.width * 4 > i32::MAX,
        0 <= i < r.1->Send_0@.len(),
    ensures
        r.1->Send_0@[i].qos is AtMostOnce,
        r.1->Send_0@[i].retain,
        ({
            ||| cfg.publish.battery && sensors.battery_mv is Some
                && r.1->Send_0@[i].topic@ == publisher->0.state_prefix@ + "/"@ + cfg.name@
                + "/"@ + "battery_mv"@
                && r.1->Send_0@[i].payload@ == decimal(sensors.battery_mv->0 as nat)
            ||| cfg.publish.battery && sensors.battery_pct is Some
                && r.1->Send_0@[i].topic@ == publisher->0.state_prefix@ + "/"@ + cfg.name@
                + "/"@ + "battery_pct"@
                && r.1->Send_0@[i].payload@ == decimal(sensors.battery_pct->0 as nat)
            ||| cfg.publish.temperature && sensors.temperature_c is Some
                && r.1->Send_0@[i].topic@ == publisher->0.state_prefix@ + "/"@ + cfg.name@
                + "/"@ + "temperature"@ && r.1->Send_0@[i].payload@ == sensors.temperature_c->0@
            ||| cfg.publish.humidity && sensors.humidity_pct is Some
                && r.1->Send_0@[i].topic@ == publisher->0.state_prefix@ + "/"@ + cfg.name@
                + "/"@ + "humidity"@ && r.1->Send_0@[i].payload@ == sensors.humidity_pct->0@
            ||| cfg.publish.power && sensors.power is Some
                && r.1->Send_0@[i].topic@ == publisher->0.state_prefix@ + "/"@ + cfg.name@
                + "/"@ + "power"@ && r.1->Send_0@[i].payload@ == (match sensors.power->0 {
            PowerState::Battery => "battery"@,
            PowerState::Charging => "charging"@,
            PowerState::Full => "full"@,
            PowerState::Fault => "fault"@,
        })
            ||| cfg.publish.last_seen
                && r.1->Send_0@[i].topic@ == publisher->0.state_prefix@ + "/"@ + cfg.name@
                + "/"@ + "last_seen"@ && r.1->Send_0@[i].payload@ == rfc3339(ex.now@)
        }),
{
    let rs = readings(cfg.publish, *sensors, rfc3339(ex.now@));
    lemma_message_of(r.1->Send_0@, publisher->0.state_prefix@, cfg.name@, rs, i);
    lemma_reading_value(cfg.publish, *sensors, rfc3339(ex.now@), i);
}

/// A request that fails for good sends every enabled reading all the same.
pub proof fn law_impossible_messages_complete(
    ex: Exchange,
    fetched: Result<RgbImage, String>,
    cfg: &ScreenConfig,
    publisher: &Option<Publisher>,
    sensors: &SensorState,
    path: &str,
    r: (Exchange, Command),
)
    requires
        call_ensures(
            Exchange::step,
            (ex, Event::Fetched(fetched), cfg, publisher, sensors, path),
            r,
        ),
        publisher is Some,
        cfg.width == 0 || cfg.height == 0 || cfg.width * 4 > i32::MAX,
    ensures
        cfg.publish.battery && sensors.battery_mv is Some ==> exists|i: int|
            0 <= i < r.1->Send_0@.len()
                && (#[trigger] r.1->Send_0@[i]).topic@ == publisher->0.state_prefix@ + "/"@
                + cfg.name@ + "/"@ + "battery_mv"@
                && r.1->Send_0@[i].payload@ == decimal(sensors.battery_mv->0 as nat),
        cfg.publish.battery && sensors.battery_pct is Some ==> exists|i: int|
            0 <= i < r.1->Send_0@.len()
                && (#[trigger] r.1->Send_0@[i]).topic@ == publisher->0.state_prefix@ + "/"@
                + cfg.name@ + "/"@ + "battery_pct"@
                && r.1->Send_0@[i].payload@ == decimal(sensors.battery_pct->0 as nat),
        cfg.publish.temperature && sensors.temperature_c is Some ==> exists|i: int|
            0 <= i < r.1->Send_0@.len()
                && (#[trigger] r.1->Send_0@[i]).topic@ == publisher->0.state_prefix@ + "/"@
                + cfg.name@ + "/"@ + "temperature"@
                && r.1->Send_0@[i].payload@ == sensors.temperature_c->0@,
        cfg.publish.humidity && sensors.humidity_pct is Some ==> exists|i: int|
            0 <= i < r.1->Send_0@.len()
                && (#[trigger] r.1->Send_0@[i]).topic@ == publisher->0.state_prefix@ + "/"@
                + cfg.name@ + "/"@ + "humidity"@
                && r.1->Send_0@[i].payload@ == sensors.humidity_pct->0@,
        cfg.publish.power && sensors.power is Some ==> exists|i: int|
            0 <= i < r.1->Send_0@.len()
                && (#[trigger] r.1->Send_0@[i]).topic@ == publisher->0.state_prefix@ + "/"@
                + cfg.name@ + "/"@ + "power"@
                && r.1->Send_0@[i].payload@ == (match sensors.power->0 {
            PowerState::Battery => "battery"@,
            PowerState::Charging => "charging"@,
            PowerState::Full => "full"@,
            PowerState::Fault => "fault"@,
        }),
        cfg.publish.last_seen ==> exists|i: int|
            0 <= i < r.1->Send_0@.len()
                && (#[trigger] r.1->Send_0@[i]).topic@ == publisher->0.state_prefix@ + "/"@
                + cfg.name@ + "/"@ + "last_seen"@ && r.1->Send_0@[i].payload@ == rfc3339(ex.now@),
{
    let rs = readings(cfg.publish, *sensors, rfc3339(ex.now@));
    lemma_readings_listed(cfg.publish, *sensors, rfc3339(ex.now@));
    if cfg.publish.battery && sensors.battery_mv is Some {
        lemma_message_sent(r.1->Send_0@, publisher->0.state_prefix@, cfg.name@, rs,
            ("battery_mv"@, decimal(sensors.battery_mv->0 as nat)));
    }
    if cfg.publish.battery && sensors.battery_pct is Some {
        lemma_message_sent(r.1->Send_0@, publisher->0.state_prefix@, cfg.name@, rs,
            ("battery_pct"@, decimal(sensors.battery_pct->0 as nat)));
    }
    if cfg.publish.temperature && sensors.temperature_c is Some {
        lemma_message_sent(r.1->Send_0@, publisher->0.state_prefix@, cfg.name@, rs,
            ("temperature"@, sensors.temperature_c->0@));
    }
    if cfg.publish.humidity && sensors.humidity_pct is Some {
        lemma_message_sent(r.1->Send_0@, publisher->0.state_prefix@, cfg.name@, rs, ("humidity"@,
            sensors.humidity_pct->0@));
    }
    if cfg.publish.power && sensors.power is Some {
        lemma_message_sent(r.1->Send_0@, publisher->0.state_prefix@, cfg.name@, rs, ("power"@,
            sensors.power->0.name()));
    }
    if cfg.publish.last_seen {
        lemma_message_sent(r.1->Send_0@, publisher->0.state_prefix@, cfg.name@, rs,
            ("last_seen"@, rfc3339(ex.now@)));
    }
}

/// No two messages of a request that fails for good go to one topic.
pub proof fn law_impossible_messages_distinct(
    ex: Exchange,
    fetched: Result<RgbImage, String>,
    cfg: &ScreenConfig,
    publisher: &Option<Publisher>,
    sensors: &SensorState,
    path: &str,
    r: (Exchange, Command),
    i: int,
    j: int,
)
    requires
        call_ensures(
            Exchange::step,
            (ex, Event::Fetched(fetched), cfg, publisher, sensors, path),
            r,
        ),
        publisher is Some,
        cfg.width == 0 || cfg.height == 0 || cfg.width * 4 > i32::MAX,
        0 <= i < j < r.1->Send_0@.len(),
    ensures
        r.1->Send_0@[i].topic@ != r.1->Send_0@[j].topic@,
{
    let rs = readings(cfg.publish, *sensors, rfc3339(ex.now@));
    lemma_message_of(r.1->Send_0@, publisher->0.state_prefix@, cfg.name@, rs, i);
    lemma_message_of(r.1->Send_0@, publisher->0.state_prefix@, cfg.name@, rs, j);
    lemma_reading_keys_differ(cfg.publish, *sensors, rfc3339(ex.now@), i, j);
    lemma_topics_differ(publisher->0.state_prefix@, cfg.name@, rs[i].0, rs[j].0);
}

/// Every message that a request sends goes to the topic that the discovery message of
/// one of the screen's sensors names, whatever the screen is labelled.
pub proof fn law_sent_topics_are_announced(
    ex: Exchange,
    overlays: Vec<bool>,
    cfg: &ScreenConfig,
    publisher: &Option<Publisher>,
    sensors: &SensorState,
    path: &str,
    r: (Exchange, Command),
    i: int,
    all: Vec<Sensor>,
    prefix: &str,
) -> (j: int)
    requires
        call_ensures(
            Exchange::step,
            (ex, Event::Drawn(overlays), cfg, publisher, sensors, path),
            r,
        ),
        publisher is Some,
        0 <= i < r.1->Encode_0@.len(),
        call_ensures(enabled_sensors, (cfg,), all),
        prefix@ == publisher->0.state_prefix@,
    ensures
        0 <= j < all@.len(),
        r.1->Encode_0@[i].topic@ == prefix@ + "/"@ + cfg.name@ + "/"@ + all@[j].key@,
        forall|v: serde_json::Value| #[trigger]
            call_ensures(discovery_value, (prefix, cfg, &all@[j]), v) ==> json_content(v) is Object
                && json_content(v)->Object_0["state_topic"@] == Json::Text(
                r.1->Encode_0@[i].topic@,
            ),
{
    let seen = rfc3339(ex.now@);
    let rs = readings(cfg.publish, *sensors, seen);
    lemma_message_of(r.1->Encode_0@, prefix@, cfg.name@, rs, i);
    law_values_are_announced(cfg.publish, *sensors, seen, i);
    let models = sensors_of(cfg.publish);
    let j = choose|j: int| 0 <= j < models.len() && (#[trigger] models[j]).key == rs[i].0;
    assert(sensor_views(all@).len() == all@.len());
    assert(sensor_views(all@)[j] == all@[j]@);
    assert forall|v: serde_json::Value| #[trigger]
        call_ensures(discovery_value, (prefix, cfg, &all@[j]), v) implies json_content(v) is Object
        && json_content(v)->Object_0["state_topic"@] == Json::Text(r.1->Encode_0@[i].topic@) by {
        law_discovery_describes_the_sensor(prefix, cfg, &all@[j], v);
    }
    j
}

/// Without a broker a request sends no messages.
pub proof fn law_no_broker_no_messages(
    ex: Exchange,
    event: Event,
    cfg: &ScreenConfig,
    sensors: &SensorState,
    path: &str,
    r: (Exchange, Command),
)
    requires
        call_ensures(Exchange::step, (ex, event, cfg, &None::<Publisher>, sensors, path), r),
    ensures
        r.1 matches Command::Encode(ms) ==> ms@.len() == 0,
        r.1 matches Command::Send(ms, _) ==> ms@.len() == 0,
{
    if let Command::Encode(ms) = r.1 {
        assert(message_views(ms@).len() == ms@.len());
    }
    if let Command::Send(ms, _) = r.1 {
        assert(message_views(ms@).len() == ms@.len());
    }
}

/// Between rotations a request without an action changes nothing, and gets the photo at
/// the screen's place in the shuffled album.
pub proof fn law_polling_shows_the_same_photo(
    state: &mut ScreenState,
    query: &ScreenQuery,
    now: DateTime,
    new: &[usize],
    n: usize,
    r: (usize, Option<DateTime>),
)
    requires
        call_ensures(pick_photo, (state, query, now, new, n), r),
        (*old(state))@.next is None || (*old(state))@.next->0 > now@,
        query.action is None,
    ensures
        (*final(state))@ == (*old(state))@,
        r.0 == shuffle_order((*old(state))@.seed, n as nat)[(*old(state))@.cursor % (n as int)],
{
}

/// Between rotations, with no new photos, an action moves the screen one place on or
/// back, or leaves it where it is, and nothing else; the photo at that place is shown.
pub proof fn law_actions_step_through_the_album(
    state: &mut ScreenState,
    query: &ScreenQuery,
    now: DateTime,
    new: &[usize],
    n: usize,
    r: (usize, Option<DateTime>),
)
    requires
        call_ensures(pick_photo, (state, query, now, new, n), r),
        (*old(state))@.next is None || (*old(state))@.next->0 > now@,
        new@.len() == 0,
        i64::MIN <= (*old(state))@.cursor <= i64::MAX,
    ensures
        query.action == Some(Action::Next) ==> (*final(state))@.cursor == (if (*old(state))@.cursor
            == i64::MAX {
            i64::MIN as int
        } else {
            (*old(state))@.cursor + 1
        }),
        query.action == Some(Action::Previous) ==> (*final(state))@.cursor == (
        if (*old(state))@.cursor == i64::MIN {
            i64::MAX as int
        } else {
            (*old(state))@.cursor - 1
        }),
        query.action == Some(Action::Refresh) ==> (*final(state))@.cursor == (*old(state))@.cursor,
        (*final(state))@.seed == (*old(state))@.seed,
        (*final(state))@.next == (*old(state))@.next,
        (*final(state))@.rotate == (*old(state))@.rotate,
        (*final(state))@.tz == (*old(state))@.tz,
        r.0 == shuffle_order((*old(state))@.seed, n as nat)[(*final(state))@.cursor % (n as int)],
{
}

/// A due rotation starts the album again from the first place, from which an action
/// steps on, and sets the next rotation by the schedule: never without one, strictly
/// later by a cron expression, and by a natural-language phrase at the offset that the
/// screen's time zone has at that moment.
pub proof fn law_due_rotation_starts_again(
    state: &mut ScreenState,
    query: &ScreenQuery,
    now: DateTime,
    new: &[usize],
    n: usize,
    r: (usize, Option<DateTime>),
)
    requires
        call_ensures(pick_photo, (state, query, now, new, n), r),
        (*old(state))@.next is Some,
        (*old(state))@.next->0 <= now@,
    ensures
        new@.len() == 0 ==> (*final(state))@.cursor == (if query.action == Some(Action::Next) {
            1int
        } else if query.action == Some(Action::Previous) {
            -1
        } else {
            0
        }),
        (*final(state))@.rotate == (*old(state))@.rotate,
        (*final(state))@.tz == (*old(state))@.tz,
        (*old(state))@.rotate is None ==> (*final(state))@.next is None,
        (*old(state))@.rotate matches Some(Rotate::Cron(_)) ==> ((*final(state))@.next is Some
            ==> (*final(state))@.next->0 > now@),
        (*old(state))@.rotate matches Some(Rotate::Cron(e)) ==> ({
            let first = cron_trigger(e@, now@, (*old(state))@.tz@, 0);
            let second = cron_trigger(e@, now@, (*old(state))@.tz@, 1);
            &&& first is Some && first->0 > now@ ==> (*final(state))@.next == first
            &&& first is Some && first->0 <= now@ && second is Some && second->0 > now@
                ==> (*final(state))@.next == second
            &&& (*final(state))@.next is Some ==> (*final(state))@.next == first
                || (*final(state))@.next == second
        }),
        (*old(state))@.rotate matches Some(Rotate::Natural(e)) ==> ((*final(state))@.next is Some
            ==> exists|secs: i64, nanos: u32| #[trigger]
            may_be_next(e@, utc_offset((*old(state))@.tz@, now@), Some((secs, nanos)))
                && (*final(state))@.next->0 == secs * 1_000_000_000 + nanos),
        (*old(state))@.rotate matches Some(Rotate::Natural(e)) ==> ((*final(state))@.next is None
            ==> may_be_next(e@, utc_offset((*old(state))@.tz@, now@), None) || exists|
            secs: i64,
            nanos: u32,
        | #[trigger]
            may_be_next(e@, utc_offset((*old(state))@.tz@, now@), Some((secs, nanos))) && !(nanos
                < 1_000_000_000 && MIN_SECS <= secs <= MAX_SECS)),
        r.0 == shuffle_order((*final(state))@.seed, n as nat)[(*final(state))@.cursor % (n as int)],
{
    let before = (*old(state))@;
    let after = (*final(state))@;
    assert(before.follows(now@, after.next));
    if let Some(Rotate::Natural(e)) = before.rotate {
        let offset = utc_offset(before.tz@, now@);
        let item = choose|item: Option<(i64, u32)>| #[trigger]
            may_be_next(e@, offset, item) && after.next == listed_instant(item);
        if let Some((secs, nanos)) = item {
            assert(may_be_next(e@, offset, Some((secs, nanos))));
        }
    }
}

/// After a rotation or an action the screen moves on to a new photo, if the album has
/// any: as few places as will do, within one round, and not at all where none is new.
/// Beyond the last place of all the round goes on from the very first.
pub proof fn law_snap_takes_the_nearest_new_photo(
    state: &mut ScreenState,
    query: &ScreenQuery,
    now: DateTime,
    new: &[usize],
    n: usize,
    r: (usize, Option<DateTime>),
    place: int,
)
    requires
        call_ensures(pick_photo, (state, query, now, new, n), r),
        query.action is Some || ((*old(state))@.next is Some && (*old(state))@.next->0 <= now@),
        new@.len() > 0,
        0 < n <= i64::MAX,
        i64::MIN <= (*old(state))@.cursor <= i64::MAX,
        i64::MIN <= place <= i64::MAX,
        ({
            let base = if (*old(state))@.next is Some && (*old(state))@.next->0 <= now@ {
                0
            } else {
                (*old(state))@.cursor
            };
            let step: int = if query.action == Some(Action::Next) {
                1
            } else if query.action == Some(Action::Previous) {
                -1
            } else {
                0
            };
            ||| place == base + step
            ||| place == base + step - 0x1_0000_0000_0000_0000
            ||| place == base + step + 0x1_0000_0000_0000_0000
        }),
    ensures
        ({
            let after = (*final(state))@;
            let order = shuffle_order(after.seed, n as nat);
            let k = if after.cursor >= place {
                after.cursor - place
            } else {
                after.cursor - place + 0x1_0000_0000_0000_0000
            };
            &&& i64::MIN <= after.cursor <= i64::MAX
            &&& 0 <= k < n
            &&& forall|p: int|
                i64::MIN <= p <= i64::MAX && (0 <= p - place < k || 0 <= p - place
                    + 0x1_0000_0000_0000_0000 < k) ==> !new@.contains(
                    #[trigger] order[p % (n as int)],
                )
            &&& k == 0 || new@.contains(r.0)
            &&& new@.contains(r.0) || forall|p: int|
                i64::MIN <= p <= i64::MAX && (0 <= p - place < n || 0 <= p - place
                    + 0x1_0000_0000_0000_0000 < n) ==> !new@.contains(
                    #[trigger] order[p % (n as int)],
                )
            &&& r.0 == order[after.cursor % (n as int)]
        }),
{
    let after = (*final(state))@;
    lemma_nearest_landing(after.seed, place, new@, n as nat);
}

/// The next rotation that a request is told of is the screen's, or the present moment
/// if that has passed.
pub proof fn law_next_rotation_is_told(
    state: &mut ScreenState,
    query: &ScreenQuery,
    now: DateTime,
    new: &[usize],
    n: usize,
    r: (usize, Option<DateTime>),
)
    requires
        call_ensures(pick_photo, (state, query, now, new, n), r),
    ensures
        r.1 is Some <==> (*final(state))@.next is Some,
        r.1 is Some ==> r.1->0@ >= now@ && r.1->0@ >= (*final(state))@.next->0 && (r.1->0@ == now@
            || r.1->0@ == (*final(state))@.next->0),
        r.0 < n,
{
}

/// A request begins with the photo to be fetched, and nothing known of it yet.
pub proof fn law_request_begins_with_fetching(now: DateTime, r: Exchange)
    requires
        call_ensures(Exchange::new, (now,), r),
    ensures
        r.stage is Fetching,
        r.now@ == now@,
        r.next_rotation is None,
        !r.degraded,
{
}

/// A photo can be picked at any moment but in the last second there is, from any album
/// that is not empty and whose indices fit in memory.
pub proof fn law_photo_can_be_picked(state: Rotation, now: int, n: usize)
    requires
        now < 8_210_266_876_799_000_000_000,
        0 < n,
        n * 8 <= isize::MAX,
    ensures
        state.can_ask(now),
        album_size(n),
{
    assert(n * (usize::BITS / 8) <= n * 8) by (nonlinear_arith)
        requires
            0 <= usize::BITS / 8 <= 8,
            0 < n,
    ;
}

/// A path that cannot stand in a header gets none.
pub proof fn law_bad_path_has_no_header(
    target: DateTime,
    now: DateTime,
    path: &str,
    r: Option<String>,
)
    requires
        call_ensures(set_refresh_header, (target, now, path), r),
        !header_text(path@),
    ensures
        r is None,
{
    let digits = decimal(whole_seconds(target@, now@) as nat);
    let text = digits + "; url="@ + path@;
    reveal_strlit("; url=");
    let i = choose|i: int| 0 <= i < path@.len() && !header_char(#[trigger] path@[i]);
    assert(text[digits.len() + 6 + i] == path@[i]);
}

/// A picture is degraded if its photo is missing or any overlay is, and else not.
pub proof fn law_degraded_by_any_missing_part(photo_missing: bool, overlays: &Vec<bool>, r: bool)
    requires
        call_ensures(is_degraded, (photo_missing, overlays), r),
    ensures
        photo_missing ==> r,
        forall|i: int| 0 <= i < overlays@.len() && #[trigger] overlays@[i] ==> r,
        r && !photo_missing ==> exists|i: int| 0 <= i < overlays@.len() && #[trigger] overlays@[i],
{
    assert forall|i: int| 0 <= i < overlays@.len() && #[trigger] overlays@[i] implies r by {
        assert(overlays@[i] == true);
        assert(overlays@.contains(true));
    }
    if r && !photo_missing {
        let i = choose|i: int| 0 <= i < overlays@.len() && overlays@[i] == true;
        assert(overlays@[i]);
    }
}

} // verus!
