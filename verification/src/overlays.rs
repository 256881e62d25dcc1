//! What is drawn over the photo, where, and in which order.

use vstd::prelude::*;

use crate::color::ColorConfig;
use crate::config::{
    BatteryIndicatorConfig, BatteryStyle, BatteryThreshold, HeaderLayout, Position, ScreenConfig,
};
use crate::device::SensorState;
use crate::locale::{long_date, weekday_name, IsoDate, LocaleFormatters};
use crate::text::{decimal, decimal_string, string_views};

verus! {

/// An overlay of a screen.
#[derive(Clone, Copy, Debug, PartialEq, Eq, Structural)]
pub enum OverlayKind {
    Infobox,
    BatteryIndicator,
}

/// The overlays of a screen, the lowest first.
pub open spec fn overlay_order(config: ScreenConfig) -> Seq<OverlayKind> {
    (if config.infobox is Some {
        seq![OverlayKind::Infobox]
    } else {
        seq![]
    }) + (if config.battery_indicator is Some {
        seq![OverlayKind::BatteryIndicator]
    } else {
        seq![]
    })
}

/// The overlays of a screen in the order in which they are drawn: a later one goes
/// on top of an earlier one.
pub fn build_overlays(config: &ScreenConfig) -> (r: Vec<OverlayKind>)
    ensures
        r@ == overlay_order(*config),
{
    let mut overlays: Vec<OverlayKind> = Vec::new();
    if config.infobox.is_some() {
        overlays.push(OverlayKind::Infobox);
    }
    if config.battery_indicator.is_some() {
        overlays.push(OverlayKind::BatteryIndicator);
    }
    assert(overlays@ =~= overlay_order(*config));
    overlays
}

/// The header of the infobox for a date, in the words of the locale `tag`.
pub open spec fn header_of(
    layout: HeaderLayout,
    tag: Seq<char>,
    date: (int, int, int),
) -> Seq<Seq<char>> {
    let day = weekday_name(tag, date.0 as i32, date.1 as u8, date.2 as u8);
    let whole = long_date(tag, date.0 as i32, date.1 as u8, date.2 as u8);
    match layout {
        HeaderLayout::Nothing => seq![],
        HeaderLayout::Date => seq![whole],
        HeaderLayout::Day => seq![day],
        HeaderLayout::DayDate => seq![day, whole],
    }
}

/// The lines that the infobox shows above the weather.
pub fn header_lines(layout: HeaderLayout, locale: &LocaleFormatters, date: &IsoDate) -> (r: Vec<
    String,
>)
    ensures
        string_views(r@) == header_of(layout, locale@, date@),
{
    let mut lines: Vec<String> = Vec::new();
    match layout {
        HeaderLayout::Nothing => {},
        HeaderLayout::Date => {
            lines.push(locale.date_long(date));
        },
        HeaderLayout::Day => {
            lines.push(locale.weekday_full(date));
        },
        HeaderLayout::DayDate => {
            lines.push(locale.weekday_full(date));
            lines.push(locale.date_long(date));
        },
    }
    assert(string_views(lines@) =~= header_of(layout, locale@, date@));
    lines
}

/// Where something is put along one axis.
#[derive(Clone, Copy, Debug, PartialEq, Eq, Structural)]
pub enum Anchor {
    Start,
    Center,
    End,
}

/// Horizontal and vertical anchor of a position.
pub open spec fn anchors(p: Position) -> (Anchor, Anchor) {
    (
        match p {
            Position::TopLeft | Position::Left | Position::BottomLeft => Anchor::Start,
            Position::Top | Position::Bottom => Anchor::Center,
            Position::TopRight | Position::Right | Position::BottomRight => Anchor::End,
        },
        match p {
            Position::TopLeft | Position::Top | Position::TopRight => Anchor::Start,
            Position::Left | Position::Right => Anchor::Center,
            Position::BottomLeft | Position::Bottom | Position::BottomRight => Anchor::End,
        },
    )
}

/// Horizontal and vertical anchor of an overlay at the given position.
pub fn position_to_flex(p: Position) -> (r: (Anchor, Anchor))
    ensures
        r == anchors(p),
{
    match p {
        Position::TopLeft => (Anchor::Start, Anchor::Start),
        Position::Top => (Anchor::Center, Anchor::Start),
        Position::TopRight => (Anchor::End, Anchor::Start),
        Position::Left => (Anchor::Start, Anchor::Center),
        Position::Right => (Anchor::End, Anchor::Center),
        Position::BottomLeft => (Anchor::Start, Anchor::End),
        Position::Bottom => (Anchor::Center, Anchor::End),
        Position::BottomRight => (Anchor::End, Anchor::End),
    }
}

/// Different positions are anchored differently, and none in the middle of the
/// screen, where it would hide the photo.
pub proof fn law_positions_differ(p: Position, q: Position)
    ensures
        anchors(p) == anchors(q) ==> p == q,
        anchors(p) != (Anchor::Center, Anchor::Center),
{
}

/// Whether the threshold at `i` decides the colour of the level `pct`: the level is
/// below it, and it is the lowest such threshold, and the first of those.
pub open spec fn decides(ts: Seq<BatteryThreshold>, pct: u8, i: int) -> bool {
    &&& 0 <= i < ts.len()
    &&& pct < ts[i].below
    &&& forall|j: int|
        0 <= j < ts.len() && pct < (#[trigger] ts[j]).below ==> ts[i].below <= ts[j].below && (
        ts[i].below == ts[j].below ==> i <= j)
}

/// Whether no threshold applies to the level `pct`.
pub open spec fn undecided(ts: Seq<BatteryThreshold>, pct: u8) -> bool {
    forall|j: int| 0 <= j < ts.len() ==> pct >= (#[trigger] ts[j]).below
}

/// Whether `c` is the colour of the level `pct`.
pub open spec fn level_color(cfg: BatteryIndicatorConfig, pct: u8, c: ColorConfig) -> bool {
    if undecided(cfg.thresholds@, pct) {
        c == cfg.foreground
    } else {
        exists|i: int| #[trigger] decides(cfg.thresholds@, pct, i) && c == cfg.thresholds@[i].color
    }
}

/// The colour of the level `pct`: that of the lowest threshold above it, or the
/// foreground if there is none.
pub fn effective_fg(cfg: &BatteryIndicatorConfig, pct: u8) -> (r: ColorConfig)
    ensures
        level_color(*cfg, pct, r),
{
    let ts = &cfg.thresholds;
    let mut best: Option<usize> = None;
    let mut i: usize = 0;
    while i < ts.len()
        invariant
            i <= ts.len(),
            match best {
                None => undecided(ts@.take(i as int), pct),
                Some(b) => decides(ts@.take(i as int), pct, b as int),
            },
        decreases ts.len() - i,
    {
        let ghost before = ts@.take(i as int);
        let ghost after = ts@.take(i + 1);
        assert(after =~= before.push(ts@[i as int]));
        let t = ts[i];
        let better = pct < t.below && match best {
            None => true,
            Some(b) => t.below < ts[b].below,
        };
        proof {
            assert forall|j: int| 0 <= j < before.len() implies before[j] == #[trigger] after[j] by {}
        }
        if better {
            best = Some(i);
        }
        assert(match best {
            None => undecided(after, pct),
            Some(b) => decides(after, pct, b as int),
        });
        i = i + 1;
    }
    assert(ts@.take(ts@.len() as int) =~= ts@);
    match best {
        None => cfg.foreground,
        Some(b) => {
            assert(decides(cfg.thresholds@, pct, b as int));
            ts[b].color
        },
    }
}

/// A level has one colour.
pub proof fn law_level_color_is_unique(
    cfg: BatteryIndicatorConfig,
    pct: u8,
    c: ColorConfig,
    d: ColorConfig,
)
    requires
        level_color(cfg, pct, c),
        level_color(cfg, pct, d),
    ensures
        c == d,
{
}

/// The order of the thresholds does not matter, as long as no two colours claim the
/// same threshold.
pub proof fn law_threshold_order_is_ignored(
    a: BatteryIndicatorConfig,
    b: BatteryIndicatorConfig,
    pct: u8,
    c: ColorConfig,
    d: ColorConfig,
)
    requires
        a.foreground == b.foreground,
        forall|t: BatteryThreshold| a.thresholds@.contains(t) <==> b.thresholds@.contains(t),
        forall|i: int, j: int|
            0 <= i < a.thresholds@.len() && 0 <= j < a.thresholds@.len() && (
            #[trigger] a.thresholds@[i]).below == (#[trigger] a.thresholds@[j]).below
                ==> a.thresholds@[i].color == a.thresholds@[j].color,
        level_color(a, pct, c),
        level_color(b, pct, d),
    ensures
        c == d,
{
    let s = a.thresholds@;
    let t = b.thresholds@;
    assert forall|j: int| 0 <= j < t.len() implies s.contains(#[trigger] t[j]) by {
        assert(t.contains(t[j]));
    }
    assert forall|j: int| 0 <= j < s.len() implies t.contains(#[trigger] s[j]) by {
        assert(s.contains(s[j]));
    }
    if undecided(s, pct) {
        assert(undecided(t, pct)) by {
            assert forall|j: int| 0 <= j < t.len() implies pct >= (#[trigger] t[j]).below by {
                let k = choose|k: int| 0 <= k < s.len() && s[k] == t[j];
                assert(s[k].below == t[j].below);
            }
        }
    } else {
        let i = choose|i: int| #[trigger] decides(s, pct, i) && c == s[i].color;
        assert(t.contains(s[i]));
        let i2 = choose|k: int| 0 <= k < t.len() && t[k] == s[i];
        assert(pct < t[i2].below);
        let j = choose|j: int| #[trigger] decides(t, pct, j) && d == t[j].color;
        assert(s.contains(t[j]));
        let j2 = choose|k: int| 0 <= k < s.len() && s[k] == t[j];
        assert(pct < s[j2].below);
        assert(t[j].below <= t[i2].below);
        assert(s[i].below <= s[j2].below);
        assert(s[i].color == s[j2].color);
    }
}

/// A part of the battery indicator, with its colour.
#[derive(Clone, Copy, Debug, PartialEq, Eq, Structural)]
pub enum Layer {
    /// The whole cell.
    Body(ColorConfig),
    /// The terminal.
    Cap(ColorConfig),
    /// The charged part of the cell.
    Level(ColorConfig),
    /// The percentage by itself.
    Label(ColorConfig),
    /// The percentage, as far as it lies on the cell.
    BodyText(ColorConfig),
    /// The percentage, as far as it lies on the charged part of the cell.
    LevelText(ColorConfig),
}

/// A battery indicator, ready to be drawn.
#[derive(Debug)]
pub struct ReadyBatteryIndicator {
    /// Level in percent, at most 100.
    pub pct: u8,
    /// The parts to draw, the lowest first.
    pub layers: Vec<Layer>,
    /// The percentage as it is written.
    pub text: String,
}

/// One layer, or none.
pub open spec fn layer_if(b: bool, l: Layer) -> Seq<Layer> {
    if b {
        seq![l]
    } else {
        seq![]
    }
}

/// The parts of the battery symbol: the cell in the colour of the depleted part, the
/// terminal in the same colour or, at full charge, in that of the level, and the
/// charged part. A fully transparent cell or terminal is left out.
pub open spec fn silhouette(pct: u8, fg: ColorConfig, empty: ColorConfig) -> Seq<Layer> {
    let cap = if pct == 100 {
        fg
    } else {
        empty
    };
    layer_if(empty.alpha > 0, Layer::Body(empty)) + layer_if(cap.alpha > 0, Layer::Cap(cap))
        + layer_if(pct > 0, Layer::Level(fg))
}

/// The percentage on the battery symbol, in the colour of the level on the depleted
/// part and the other way round.
pub open spec fn inverted_text(pct: u8, fg: ColorConfig, empty: ColorConfig) -> Seq<Layer> {
    seq![Layer::BodyText(fg)] + layer_if(pct > 0, Layer::LevelText(empty))
}

/// The parts of an indicator.
pub open spec fn battery_layers(
    style: BatteryStyle,
    pct: u8,
    fg: ColorConfig,
    empty: ColorConfig,
) -> Seq<Layer> {
    match style {
        BatteryStyle::Icon => silhouette(pct, fg, empty),
        BatteryStyle::Text => seq![Layer::Label(fg)],
        BatteryStyle::Both => silhouette(pct, fg, empty) + inverted_text(pct, fg, empty),
    }
}

/// The percentage as an indicator writes it.
pub open spec fn battery_text(style: BatteryStyle, pct: u8) -> Seq<char> {
    match style {
        BatteryStyle::Icon => seq![],
        BatteryStyle::Text => decimal(pct as nat) + "%"@,
        BatteryStyle::Both => decimal(pct as nat),
    }
}

/// Whether `r` is the indicator for the level `pct` in the colour `fg`.
pub open spec fn indicates(
    r: ReadyBatteryIndicator,
    cfg: BatteryIndicatorConfig,
    pct: u8,
    fg: ColorConfig,
) -> bool {
    &&& level_color(cfg, pct, fg)
    &&& r.pct == pct
    &&& r.layers@ == battery_layers(cfg.style, pct, fg, cfg.empty_color)
    &&& r.text@ == battery_text(cfg.style, pct)
}

/// A reported level as it is shown.
pub open spec fn shown_level(pct: u8) -> u8 {
    if pct > 100 {
        100
    } else {
        pct
    }
}

/// Whether `r` is the indicator for the reported level `pct`.
pub open spec fn shows_level(
    r: ReadyBatteryIndicator,
    cfg: BatteryIndicatorConfig,
    pct: u8,
) -> bool {
    exists|fg: ColorConfig| #[trigger] indicates(r, cfg, shown_level(pct), fg)
}

/// Adds the parts of the battery symbol.
fn draw_silhouette(out: &mut Vec<Layer>, pct: u8, fg: ColorConfig, empty: ColorConfig)
    ensures
        final(out)@ == old(out)@ + silhouette(pct, fg, empty),
{
    let cap_color = if pct == 100 {
        fg
    } else {
        empty
    };
    if empty.alpha > 0 {
        out.push(Layer::Body(empty));
    }
    if cap_color.alpha > 0 {
        out.push(Layer::Cap(cap_color));
    }
    if pct > 0 {
        out.push(Layer::Level(fg));
    }
    assert(out@ =~= old(out)@ + silhouette(pct, fg, empty));
}

/// Adds the percentage on the battery symbol.
fn draw_inverted_text(out: &mut Vec<Layer>, pct: u8, fg: ColorConfig, empty: ColorConfig)
    ensures
        final(out)@ == old(out)@ + inverted_text(pct, fg, empty),
{
    out.push(Layer::BodyText(fg));
    if pct > 0 {
        out.push(Layer::LevelText(empty));
    }
    assert(out@ =~= old(out)@ + inverted_text(pct, fg, empty));
}

/// The battery indicator of a screen.
#[derive(Debug)]
pub struct BatteryIndicator {
    pub cfg: BatteryIndicatorConfig,
}

impl BatteryIndicator {
    /// The indicator with the given configuration.
    pub fn new(cfg: BatteryIndicatorConfig) -> (r: BatteryIndicator)
        ensures
            r.cfg == cfg,
    {
        BatteryIndicator { cfg }
    }

    /// The indicator for the level that was reported, at most 100 percent. Without
    /// a report there is nothing to show.
    pub fn preprocess(&self, sensors: &SensorState) -> (r: Option<ReadyBatteryIndicator>)
        ensures
            r is Some <==> sensors.battery_pct is Some,
            r is Some ==> shows_level(r->0, self.cfg, sensors.battery_pct->0),
    {
        match sensors.battery_pct {
            None => None,
            Some(reported) => {
                let pct: u8 = if reported > 100 {
                    100
                } else {
                    reported
                };
                let fg = effective_fg(&self.cfg, pct);
                let empty = self.cfg.empty_color;
                let mut layers: Vec<Layer> = Vec::new();
                let mut text = String::new();
                match self.cfg.style {
                    BatteryStyle::Icon => {
                        draw_silhouette(&mut layers, pct, fg, empty);
                    },
                    BatteryStyle::Text => {
                        text = decimal_string(pct as u64);
                        text.append("%");
                        layers.push(Layer::Label(fg));
                    },
                    BatteryStyle::Both => {
                        draw_silhouette(&mut layers, pct, fg, empty);
                        draw_inverted_text(&mut layers, pct, fg, empty);
                        text = decimal_string(pct as u64);
                    },
                }
                assert(layers@ =~= battery_layers(self.cfg.style, pct, fg, empty));
                assert(text@ =~= battery_text(self.cfg.style, pct));
                let ready = ReadyBatteryIndicator { pct, layers, text };
                assert(indicates(ready, self.cfg, shown_level(reported), fg));
                assert(shows_level(ready, self.cfg, reported));
                Some(ready)
            },
        }
    }
}

/// A level above 100 percent is shown as 100 percent is.
pub proof fn law_level_is_clamped(r: ReadyBatteryIndicator, cfg: BatteryIndicatorConfig, pct: u8)
    requires
        pct >= 100,
    ensures
        shows_level(r, cfg, pct) <==> shows_level(r, cfg, 100),
        shows_level(r, cfg, pct) ==> r.pct == 100,
{
    assert(shown_level(pct) == shown_level(100));
}

/// A coverage of `a` within a coverage of `b`, both out of 255.
pub open spec fn covered(a: u8, b: u8) -> u8 {
    ((a as int * b as int) / 255) as u8
}

/// The product of two coverages stays within them.
proof fn lemma_covered(a: u8, b: u8)
    ensures
        (a as int * b as int) / 255 <= a,
        (a as int * b as int) / 255 <= b,
        0 <= a as int * b as int <= 65025,
        a as int * b as int == b as int * a as int,
{
    let x = a as int;
    let y = b as int;
    assert(0 <= x * y <= x * 255) by (nonlinear_arith)
        requires
            0 <= x,
            0 <= y <= 255,
    ;
    assert(x * y == y * x) by (nonlinear_arith);
    assert(0 <= y * x <= y * 255) by (nonlinear_arith)
        requires
            0 <= y,
            0 <= x <= 255,
    ;
}

/// Whether `after` is the mask `before` restricted to what `other` covers as well, as far
/// as that goes.
pub open spec fn masked(before: Seq<u8>, other: Seq<u8>, after: Seq<u8>) -> bool {
    &&& after.len() == before.len()
    &&& forall|i: int|
        0 <= i < before.len() ==> #[trigger] after[i] == (if i < other.len() {
            covered(before[i], other[i])
        } else {
            before[i]
        })
}

/// Restricts a mask to what another mask covers as well.
pub fn intersect_mask(dst: &mut Vec<u8>, other: &Vec<u8>)
    ensures
        masked(old(dst)@, other@, final(dst)@),
{
    let mut i: usize = 0;
    while i < dst.len() && i < other.len()
        invariant
            dst@.len() == old(dst)@.len(),
            i <= dst@.len(),
            i <= other@.len(),
            forall|j: int| 0 <= j < i ==> #[trigger] dst@[j] == covered(old(dst)@[j], other@[j]),
            forall|j: int| i <= j < dst@.len() ==> #[trigger] dst@[j] == old(dst)@[j],
        decreases dst.len() - i,
    {
        let (d, o): (u8, u8) = (dst[i], other[i]);
        proof {
            lemma_covered(d, o);
        }
        dst.set(i, ((d as u16 * o as u16) / 255) as u8);
        i = i + 1;
    }
}

/// Two masks cover in common no more than either, whichever is restricted to which;
/// full coverage restricts nothing, and no coverage leaves nothing.
pub proof fn law_masks_intersect(a: u8, b: u8)
    ensures
        covered(a, b) == covered(b, a),
        covered(a, b) <= a,
        covered(a, b) <= b,
        covered(a, 255) == a,
        covered(a, 0) == 0,
{
    lemma_covered(a, b);
}

/// The colour of a level is that of a threshold above it, and no threshold above it is
/// lower, nor as low and listed before; where no threshold is above it, the foreground.
pub proof fn law_level_takes_the_lowest_threshold(
    cfg: &BatteryIndicatorConfig,
    pct: u8,
    r: ColorConfig,
)
    requires
        call_ensures(effective_fg, (cfg, pct), r),
    ensures
        (forall|j: int|
            0 <= j < cfg.thresholds@.len() ==> pct >= (#[trigger] cfg.thresholds@[j]).below) ==> r
            == cfg.foreground,
        (exists|j: int|
            0 <= j < cfg.thresholds@.len() && pct < (#[trigger] cfg.thresholds@[j]).below)
            ==> exists|i: int|
            0 <= i < cfg.thresholds@.len() && pct < (#[trigger] cfg.thresholds@[i]).below && r
                == cfg.thresholds@[i].color && forall|j: int|
                0 <= j < cfg.thresholds@.len() && pct < (#[trigger] cfg.thresholds@[j]).below
                    ==> cfg.thresholds@[i].below < cfg.thresholds@[j].below || (
                cfg.thresholds@[i].below == cfg.thresholds@[j].below && i <= j),
{
    let ts = cfg.thresholds@;
    if !undecided(ts, pct) {
        let i = choose|i: int| #[trigger] decides(ts, pct, i) && r == ts[i].color;
        assert(0 <= i < ts.len() && pct < ts[i].below && r == ts[i].color);
    }
}

/// An indicator shows the reported level, at most 100 percent, in the colour of that
/// level, and there is one only where a level was reported.
pub proof fn law_indicator_shows_the_level(
    indicator: &BatteryIndicator,
    sensors: &SensorState,
    r: Option<ReadyBatteryIndicator>,
)
    requires
        call_ensures(BatteryIndicator::preprocess, (indicator, sensors), r),
    ensures
        r is Some <==> sensors.battery_pct is Some,
        r is Some && sensors.battery_pct->0 <= 100 ==> r->0.pct == sensors.battery_pct->0,
        r is Some && sensors.battery_pct->0 > 100 ==> r->0.pct == 100,
        r is Some ==> match indicator.cfg.style {
            BatteryStyle::Icon => r->0.text@.len() == 0,
            BatteryStyle::Text => r->0.text@ == decimal(r->0.pct as nat) + "%"@,
            BatteryStyle::Both => r->0.text@ == decimal(r->0.pct as nat),
        },
{
}

/// Each part of an indicator is there exactly where it can be seen, and in its colour:
/// the level in the colour that `effective_fg` gives, on a cell in the colour of the
/// depleted part, the terminal lit up at full charge only. The percentage alone is
/// written in the colour of the level; on the cell it is written in that colour, and
/// over the level, wherever there is one, in the colour of the depleted part.
pub proof fn law_indicator_has_its_parts(
    indicator: &BatteryIndicator,
    sensors: &SensorState,
    r: Option<ReadyBatteryIndicator>,
    fg: ColorConfig,
    l: Layer,
)
    requires
        call_ensures(BatteryIndicator::preprocess, (indicator, sensors), r),
        r is Some,
        call_ensures(effective_fg, (&indicator.cfg, r->0.pct), fg),
    ensures
        ({
            let empty = indicator.cfg.empty_color;
            let symbol = indicator.cfg.style is Icon || indicator.cfg.style is Both;
            let both = indicator.cfg.style is Both;
            let pct = r->0.pct;
            r->0.layers@.contains(l) <==> match l {
                Layer::Body(c) => symbol && empty.alpha > 0 && c == empty,
                Layer::Cap(c) => symbol && c.alpha > 0 && (if pct == 100 {
                    c == fg
                } else {
                    c == empty
                }),
                Layer::Level(c) => symbol && pct > 0 && c == fg,
                Layer::Label(c) => indicator.cfg.style is Text && c == fg,
                Layer::BodyText(c) => both && c == fg,
                Layer::LevelText(c) => both && pct > 0 && c == empty,
            }
        }),
{
    let ready = r->0;
    let seen = choose|seen: ColorConfig| #[trigger]
        indicates(ready, indicator.cfg, shown_level(sensors.battery_pct->0), seen);
    assert(indicates(ready, indicator.cfg, ready.pct, seen));
    law_level_color_is_unique(indicator.cfg, ready.pct, seen, fg);
    let empty = indicator.cfg.empty_color;
    let pct = ready.pct;
    let cap = if pct == 100 {
        fg
    } else {
        empty
    };
    let all = ready.layers@;
    let a: int = if empty.alpha > 0 {
        1
    } else {
        0
    };
    let b: int = a + if cap.alpha > 0 {
        1int
    } else {
        0
    };
    let c: int = b + if pct > 0 {
        1int
    } else {
        0
    };
    if !(indicator.cfg.style is Text) {
        if empty.alpha > 0 {
            assert(all[0] == Layer::Body(empty));
        }
        if cap.alpha > 0 {
            assert(all[a] == Layer::Cap(cap));
        }
        if pct > 0 {
            assert(all[b] == Layer::Level(fg));
        }
        if indicator.cfg.style is Both {
            assert(all[c] == Layer::BodyText(fg));
            if pct > 0 {
                assert(all[c + 1] == Layer::LevelText(empty));
            }
        }
    } else {
        assert(all[0] == Layer::Label(fg));
    }
    if all.contains(l) {
        let i = choose|i: int| 0 <= i < all.len() && all[i] == l;
        assert(all[i] == l);
    }
}

/// Each part of an indicator is drawn once, and over what it lies on: the terminal and
/// the level over the cell, the percentage over the level, and its part on the level
/// last.
pub proof fn law_parts_lie_on_each_other(
    indicator: &BatteryIndicator,
    sensors: &SensorState,
    r: Option<ReadyBatteryIndicator>,
    i: int,
    j: int,
)
    requires
        call_ensures(BatteryIndicator::preprocess, (indicator, sensors), r),
        r is Some,
        0 <= i < j < r->0.layers@.len(),
    ensures
        match r->0.layers@[i] {
            Layer::Body(_) => !(r->0.layers@[j] is Body),
            Layer::Cap(_) => !(r->0.layers@[j] is Body) && !(r->0.layers@[j] is Cap),
            Layer::Level(_) => r->0.layers@[j] is BodyText || r->0.layers@[j] is LevelText,
            Layer::Label(_) => false,
            Layer::BodyText(_) => r->0.layers@[j] is LevelText,
            Layer::LevelText(_) => false,
        },
{
    let ready = r->0;
    let seen = choose|seen: ColorConfig| #[trigger]
        indicates(ready, indicator.cfg, shown_level(sensors.battery_pct->0), seen);
}

/// Wherever the charged part is drawn with the percentage on the cell, the percentage is
/// drawn over it once more in the other colour, and only there.
pub proof fn law_percentage_is_seen_on_the_level(
    indicator: &BatteryIndicator,
    sensors: &SensorState,
    r: Option<ReadyBatteryIndicator>,
    fg: ColorConfig,
)
    requires
        call_ensures(BatteryIndicator::preprocess, (indicator, sensors), r),
        r is Some,
        indicator.cfg.style is Both,
        call_ensures(effective_fg, (&indicator.cfg, r->0.pct), fg),
    ensures
        r->0.layers@.contains(Layer::Level(fg)) <==> r->0.layers@.contains(
            Layer::LevelText(indicator.cfg.empty_color),
        ),
        r->0.layers@.contains(Layer::Level(fg)) ==> r->0.layers@.len() >= 2 && r->0.layers@.last()
            == Layer::LevelText(indicator.cfg.empty_color) && r->0.layers@[r->0.layers@.len() - 2]
            == Layer::BodyText(fg),
{
    law_indicator_has_its_parts(indicator, sensors, r, fg, Layer::Level(fg));
    law_indicator_has_its_parts(
        indicator,
        sensors,
        r,
        fg,
        Layer::LevelText(indicator.cfg.empty_color),
    );
    let ready = r->0;
    let seen = choose|seen: ColorConfig| #[trigger]
        indicates(ready, indicator.cfg, shown_level(sensors.battery_pct->0), seen);
    law_level_color_is_unique(indicator.cfg, ready.pct, seen, fg);
}

/// Each overlay is drawn where it is configured, once, and the battery indicator on top
/// of the infobox.
pub proof fn law_overlays_are_those_configured(config: &ScreenConfig, r: Vec<OverlayKind>)
    requires
        call_ensures(build_overlays, (config,), r),
    ensures
        r@.len() == (if config.infobox is Some {
            1int
        } else {
            0
        }) + (if config.battery_indicator is Some {
            1int
        } else {
            0
        }),
        config.infobox is Some ==> r@[0] == OverlayKind::Infobox,
        config.battery_indicator is Some ==> r@.last() == OverlayKind::BatteryIndicator,
{
}

/// The header shows the weekday, the date, both with the weekday on top, or nothing.
pub proof fn law_header_shows_what_is_asked(
    layout: HeaderLayout,
    locale: &LocaleFormatters,
    date: &IsoDate,
    r: Vec<String>,
    day: String,
    whole: String,
)
    requires
        call_ensures(header_lines, (layout, locale, date), r),
        call_ensures(LocaleFormatters::weekday_full, (locale, date), day),
        call_ensures(LocaleFormatters::date_long, (locale, date), whole),
    ensures
        layout is Nothing ==> r@.len() == 0,
        layout is Day ==> r@.len() == 1 && r@[0]@ == day@,
        layout is Date ==> r@.len() == 1 && r@[0]@ == whole@,
        layout is DayDate ==> r@.len() == 2 && r@[0]@ == day@ && r@[1]@ == whole@,
{
    let v = string_views(r@);
    assert(v.len() == r@.len());
    if v.len() > 0 {
        assert(v[0] == r@[0]@);
    }
    if v.len() > 1 {
        assert(v[1] == r@[1]@);
    }
}

/// An overlay stands at the edge or in the corner that its position names.
pub proof fn law_position_is_where_it_says(p: Position, r: (Anchor, Anchor))
    requires
        call_ensures(position_to_flex, (p,), r),
    ensures
        r.0 is Start <==> p is TopLeft || p is Left || p is BottomLeft,
        r.0 is End <==> p is TopRight || p is Right || p is BottomRight,
        r.1 is Start <==> p is TopLeft || p is Top || p is TopRight,
        r.1 is End <==> p is BottomLeft || p is Bottom || p is BottomRight,
{
}

/// What two masks cover in common is the product of their coverages, out of 255; beyond
/// the other mask nothing changes.
pub proof fn law_mask_is_restricted(dst: &mut Vec<u8>, other: &Vec<u8>, r: (), i: int)
    requires
        call_ensures(intersect_mask, (dst, other), r),
        0 <= i < (*old(dst))@.len(),
    ensures
        (*final(dst))@.len() == (*old(dst))@.len(),
        i < other@.len() ==> (*final(dst))@[i] * 255 <= (*old(dst))@[i] * other@[i] < (
        (*final(dst))@[i] + 1) * 255,
        i >= other@.len() ==> (*final(dst))@[i] == (*old(dst))@[i],
{
    assert(masked((*old(dst))@, other@, (*final(dst))@));
    if i < other@.len() {
        lemma_covered((*old(dst))@[i], other@[i]);
    }
}

} // verus!
