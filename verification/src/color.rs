//! Colours and background methods, and how they are written.
//!
//! A colour is written `#RRGGBB`, `rgb(r, g, b)` or `rgba(r, g, b, a)`. The alpha
//! component of the last form is a decimal fraction; reading it is left to the
//! caller, who gets its text in a [`ColorText`].

use vstd::prelude::*;

use crate::text::{
    ascii_digit, char_views, chars_of, code_of, decimal, error_view, has_prefix,
    lemma_decimal_denotes, lemma_pieces_parted, lemma_single_piece, number, only, push_decimal,
    same_chars, slice_of, split_at_char, split_on, string_of, trim, trim_start, trimmed,
    trimmed_start, white_space,
};

verus! {

/// An sRGB colour with an alpha channel.
#[derive(Clone, Copy, Debug, PartialEq, Eq, Structural)]
pub struct ColorConfig {
    pub red: u8,
    pub green: u8,
    pub blue: u8,
    pub alpha: u8,
}

/// A colour as written: complete, or but for the value of its alpha text.
#[derive(Debug)]
pub enum ColorText {
    Opaque(ColorConfig),
    Translucent { red: u8, green: u8, blue: u8, alpha: String },
}

/// Local padding strategy when the returned image is smaller than the screen.
#[derive(Clone, Copy, Debug, PartialEq, Eq, Structural)]
pub enum BackgroundMethod {
    /// Pad with a solid colour. Alpha is ignored.
    Solid(ColorConfig),
    /// Pad with a blurred cover-sized copy of the photo.
    Blur,
}

/// A background method as written.
#[derive(Debug)]
pub enum BackgroundText {
    Solid(ColorText),
    Blur,
}

/// What a colour text denotes.
pub enum ColorModel {
    Opaque(ColorConfig),
    Translucent(u8, u8, u8, Seq<char>),
}

impl View for ColorText {
    type V = ColorModel;

    open spec fn view(&self) -> ColorModel {
        match self {
            ColorText::Opaque(c) => ColorModel::Opaque(*c),
            ColorText::Translucent { red, green, blue, alpha } => ColorModel::Translucent(
                *red,
                *green,
                *blue,
                alpha@,
            ),
        }
    }
}

impl ColorConfig {
    /// An opaque colour.
    pub fn rgb(r: u8, g: u8, b: u8) -> (c: ColorConfig)
        ensures
            c == (ColorConfig { red: r, green: g, blue: b, alpha: 255 }),
    {
        ColorConfig { red: r, green: g, blue: b, alpha: 255 }
    }

    /// A colour with the given alpha.
    pub fn rgba(r: u8, g: u8, b: u8, a: u8) -> (c: ColorConfig)
        ensures
            c == (ColorConfig { red: r, green: g, blue: b, alpha: a }),
    {
        ColorConfig { red: r, green: g, blue: b, alpha: a }
    }

    /// The colour without its alpha channel.
    pub fn to_rgb(self) -> (c: [u8; 3])
        ensures
            c@ == seq![self.red, self.green, self.blue],
    {
        [self.red, self.green, self.blue]
    }

    /// The opaque colour whose channels are those of this one inverted.
    pub fn inverted(self) -> (c: ColorConfig)
        ensures
            c.red == 255 - self.red,
            c.green == 255 - self.green,
            c.blue == 255 - self.blue,
            c.alpha == 255,
    {
        ColorConfig {
            red: 255 - self.red,
            green: 255 - self.green,
            blue: 255 - self.blue,
            alpha: 255,
        }
    }
}

impl Default for BackgroundMethod {
    fn default() -> (r: Self)
        ensures
            r == BackgroundMethod::Solid(
                (ColorConfig { red: 255, green: 255, blue: 255, alpha: 255 }),
            ),
    {
        BackgroundMethod::Solid(ColorConfig::rgb(255, 255, 255))
    }
}

/// The value of a hexadecimal digit.
pub open spec fn hex_value(c: char) -> Option<u8> {
    if '0' <= c <= '9' {
        Some((c as int - 48) as u8)
    } else if 'a' <= c <= 'f' {
        Some((c as int - 87) as u8)
    } else if 'A' <= c <= 'F' {
        Some((c as int - 55) as u8)
    } else {
        None
    }
}

/// The number that a pair of hexadecimal digits denotes.
pub open spec fn hex_pair(high: char, low: char) -> u8 {
    (hex_value(high)->0 * 16 + hex_value(low)->0) as u8
}

/// The colour that six hexadecimal digits denote.
pub open spec fn hex_color(s: Seq<char>) -> Option<ColorConfig> {
    if s.len() == 6 && forall|i: int| 0 <= i < 6 ==> hex_value(#[trigger] s[i]) is Some {
        Some(
            ColorConfig {
                red: hex_pair(s[0], s[1]),
                green: hex_pair(s[2], s[3]),
                blue: hex_pair(s[4], s[5]),
                alpha: 255,
            },
        )
    } else {
        None
    }
}

/// What stands between the brackets of the call `name(...)`. White space may stand
/// before the opening bracket.
pub open spec fn call_body(s: Seq<char>, name: Seq<char>) -> Option<Seq<char>> {
    let rest = trimmed_start(s.skip(name.len() as int));
    if has_prefix(s, name) && rest.len() >= 2 && rest[0] == '(' && rest.last() == ')' {
        Some(rest.subrange(1, rest.len() - 1))
    } else {
        None
    }
}

/// The arguments of a call: what stands between its commas, trimmed.
pub open spec fn call_args(body: Seq<char>) -> Seq<Seq<char>> {
    split_at_char(body, ',').map_values(|p: Seq<char>| trimmed(p))
}

/// Whether `s` holds decimal digits only.
pub open spec fn all_digits(s: Seq<char>) -> bool {
    forall|i: int| 0 <= i < s.len() ==> ascii_digit(#[trigger] s[i])
}

/// The number from 0 to 255 that `s` denotes: decimal digits, with a plus sign
/// before them or not.
pub open spec fn byte_value(s: Seq<char>) -> Option<u8> {
    let digits = if s.len() > 0 && s[0] == '+' {
        s.skip(1)
    } else {
        s
    };
    if digits.len() > 0 && all_digits(digits) && number(digits) <= 255 {
        Some(number(digits) as u8)
    } else {
        None
    }
}

/// The first of `parts`, among the first `n`, that is not a byte, as an error.
pub open spec fn bad_byte(parts: Seq<Seq<char>>, n: int) -> Option<Seq<char>>
    decreases n,
{
    if n <= 0 {
        None
    } else if bad_byte(parts, n - 1) is Some {
        bad_byte(parts, n - 1)
    } else if byte_value(parts[n - 1]) is None {
        Some("invalid 0-255 byte `"@ + parts[n - 1] + "`"@)
    } else {
        None
    }
}

/// What the text of a colour denotes, or what is wrong with it.
pub open spec fn color_of(text: Seq<char>) -> Result<ColorModel, Seq<char>> {
    let s = trimmed(text);
    if has_prefix(s, seq!['#']) {
        match hex_color(s.skip(1)) {
            Some(c) => Ok(ColorModel::Opaque(c)),
            None => Err("invalid hex colour `"@ + s + "`"@),
        }
    } else if call_body(s, "rgba"@) is Some {
        let parts = call_args(call_body(s, "rgba"@)->0);
        if parts.len() != 4 {
            Err("rgba() takes 4 components, got "@ + decimal(parts.len()))
        } else if bad_byte(parts, 3) is Some {
            Err(bad_byte(parts, 3)->0)
        } else {
            Ok(
                ColorModel::Translucent(
                    byte_value(parts[0])->0,
                    byte_value(parts[1])->0,
                    byte_value(parts[2])->0,
                    parts[3],
                ),
            )
        }
    } else if call_body(s, "rgb"@) is Some {
        let parts = call_args(call_body(s, "rgb"@)->0);
        if parts.len() != 3 {
            Err("rgb() takes 3 components, got "@ + decimal(parts.len()))
        } else if bad_byte(parts, 3) is Some {
            Err(bad_byte(parts, 3)->0)
        } else {
            Ok(
                ColorModel::Opaque(
                    ColorConfig {
                        red: byte_value(parts[0])->0,
                        green: byte_value(parts[1])->0,
                        blue: byte_value(parts[2])->0,
                        alpha: 255,
                    },
                ),
            )
        }
    } else {
        Err("expected `#RRGGBB`, `rgb(...)`, or `rgba(...)`, got `"@ + s + "`"@)
    }
}

/// A parsed colour text, or its error, as what they denote.
pub open spec fn color_result(r: Result<ColorText, String>) -> Result<ColorModel, Seq<char>> {
    match r {
        Ok(c) => Ok(c@),
        Err(e) => Err(e@),
    }
}

/// The value of a hexadecimal digit.
fn hex_digit(c: char) -> (r: Option<u8>)
    ensures
        r == hex_value(c),
{
    let n: u32 = c as u32;
    if 48 <= n && n <= 57 {
        Some((n - 48) as u8)
    } else if 97 <= n && n <= 102 {
        Some((n - 87) as u8)
    } else if 65 <= n && n <= 70 {
        Some((n - 55) as u8)
    } else {
        None
    }
}

/// The number that the hexadecimal digits at `i` and `i + 1` denote.
fn hex_byte(hex: &Vec<char>, i: usize) -> (r: Option<u8>)
    requires
        i + 1 < hex.len(),
    ensures
        r is Some <==> hex_value(hex@[i as int]) is Some && hex_value(hex@[i + 1]) is Some,
        r is Some ==> r->0 == hex_pair(hex@[i as int], hex@[i + 1]),
{
    match (hex_digit(hex[i]), hex_digit(hex[i + 1])) {
        (Some(h), Some(l)) => {
            assert(h < 16 && l < 16);
            Some(h * 16 + l)
        },
        _ => None,
    }
}

/// The colour that six hexadecimal digits denote.
pub fn parse_hex(hex: &Vec<char>) -> (r: Option<ColorConfig>)
    ensures
        r == hex_color(hex@),
{
    if hex.len() != 6 {
        return None;
    }
    let r = hex_byte(hex, 0);
    let g = hex_byte(hex, 2);
    let b = hex_byte(hex, 4);
    match (r, g, b) {
        (Some(r), Some(g), Some(b)) => {
            assert forall|i: int| 0 <= i < 6 implies hex_value(#[trigger] hex@[i]) is Some by {
                assert(i == 0 || i == 1 || i == 2 || i == 3 || i == 4 || i == 5);
            }
            Some(ColorConfig::rgb(r, g, b))
        },
        _ => {
            assert(hex_value(hex@[0]) is None || hex_value(hex@[1]) is None || hex_value(hex@[2]) is None
                || hex_value(hex@[3]) is None || hex_value(hex@[4]) is None || hex_value(
                hex@[5],
            ) is None);
            None
        },
    }
}

/// What stands between the brackets of the call `name(...)`.
pub fn strip_call(s: &Vec<char>, name: &str) -> (r: Option<Vec<char>>)
    ensures
        match call_body(s@, name@) {
            Some(body) => r is Some && r->0@ == body,
            None => r is None,
        },
{
    let name = chars_of(name);
    if s.len() < name.len() {
        return None;
    }
    let head = slice_of(s, 0, name.len());
    assert(head@ =~= s@.take(name@.len() as int));
    if !same_chars(&head, &name) {
        return None;
    }
    let tail = slice_of(s, name.len(), s.len());
    assert(tail@ =~= s@.skip(name@.len() as int));
    let rest = trim_start(&tail);
    if rest.len() < 2 || rest[0] != '(' || rest[rest.len() - 1] != ')' {
        return None;
    }
    Some(slice_of(&rest, 1, rest.len() - 1))
}

/// The arguments of a call: what stands between its commas, trimmed.
pub fn split_args(body: &Vec<char>) -> (r: Vec<Vec<char>>)
    ensures
        char_views(r@) == call_args(body@),
{
    let parts = split_on(body, ',');
    let mut out: Vec<Vec<char>> = Vec::new();
    let mut i: usize = 0;
    while i < parts.len()
        invariant
            i <= parts.len(),
            out@.len() == i,
            forall|j: int| 0 <= j < i ==> (#[trigger] out@[j])@ == trimmed(parts@[j]@),
        decreases parts.len() - i,
    {
        out.push(trim(&parts[i]));
        i = i + 1;
    }
    assert(char_views(out@) =~= call_args(body@)) by {
        assert(char_views(parts@) == split_at_char(body@, ','));
        assert forall|j: int| 0 <= j < parts@.len() implies #[trigger] split_at_char(
            body@,
            ',',
        )[j] == parts@[j]@ by {
            assert(char_views(parts@)[j] == parts@[j]@);
        }
    }
    out
}

/// The number from 0 to 255 that `s` denotes.
pub fn parse_byte(s: &Vec<char>) -> (r: Result<u8, String>)
    ensures
        match byte_value(s@) {
            Some(b) => r == Ok::<u8, String>(b),
            None => r is Err && r->Err_0@ == "invalid 0-255 byte `"@ + s@ + "`"@,
        },
{
    let start: usize = if s.len() > 0 && s[0] == '+' {
        1
    } else {
        0
    };
    let digits = slice_of(s, start, s.len());
    assert(digits@ =~= if s@.len() > 0 && s@[0] == '+' {
        s@.skip(1)
    } else {
        s@
    });
    let mut value: u32 = 0;
    let mut all: bool = digits.len() > 0;
    let mut i: usize = 0;
    while i < digits.len()
        invariant
            i <= digits.len(),
            all == (digits.len() > 0 && all_digits(digits@.take(i as int))),
            all ==> value == (if number(digits@.take(i as int)) > 255 {
                256
            } else {
                number(digits@.take(i as int))
            }),
            value <= 256,
        decreases digits.len() - i,
    {
        let d = digits[i];
        let c: u32 = code_of(d);
        assert(digits@.take(i + 1).drop_last() =~= digits@.take(i as int));
        assert(digits@.take(i + 1) =~= digits@.take(i as int).push(d));
        if 48 <= c && c <= 57 {
            assert(ascii_digit(d));
            value = value * 10 + (c - 48);
            if value > 255 {
                value = 256;
            }
        } else {
            assert(!ascii_digit(digits@.take(i + 1)[i as int]));
            all = false;
        }
        i = i + 1;
    }
    assert(digits@.take(digits@.len() as int) =~= digits@);
    if all && value <= 255 {
        Ok(value as u8)
    } else {
        let mut m = "invalid 0-255 byte `".to_owned();
        m.append(string_of(s).as_str());
        m.append("`");
        Err(m)
    }
}

/// The first three of `parts` as bytes, or the error of the first that is none.
fn parse_channels(parts: &Vec<Vec<char>>) -> (r: Result<(u8, u8, u8), String>)
    requires
        parts.len() >= 3,
    ensures
        match bad_byte(char_views(parts@), 3) {
            Some(e) => r is Err && r->Err_0@ == e,
            None => r is Ok && Some(r->Ok_0.0) == byte_value(parts@[0]@) && Some(r->Ok_0.1)
                == byte_value(parts@[1]@) && Some(r->Ok_0.2) == byte_value(parts@[2]@),
        },
{
    let ghost v = char_views(parts@);
    proof {
        reveal_with_fuel(bad_byte, 5);
        assert(v[0] == parts@[0]@ && v[1] == parts@[1]@ && v[2] == parts@[2]@);
    }
    let r = match parse_byte(&parts[0]) {
        Ok(r) => r,
        Err(e) => {
            return Err(e);
        },
    };
    let g = match parse_byte(&parts[1]) {
        Ok(g) => g,
        Err(e) => {
            return Err(e);
        },
    };
    let b = match parse_byte(&parts[2]) {
        Ok(b) => b,
        Err(e) => {
            return Err(e);
        },
    };
    Ok((r, g, b))
}

impl ColorText {
    /// Reads a colour.
    pub fn from_str(text: &str) -> (r: Result<ColorText, String>)
        ensures
            color_result(r) == color_of(text@),
    {
        let s = trim(&chars_of(text));
        if s.len() > 0 && s[0] == '#' {
            assert(s@.take(1) =~= seq!['#']);
            let hex = slice_of(&s, 1, s.len());
            assert(hex@ =~= s@.skip(1));
            return match parse_hex(&hex) {
                Some(c) => Ok(ColorText::Opaque(c)),
                None => {
                    let mut m = "invalid hex colour `".to_owned();
                    m.append(string_of(&s).as_str());
                    m.append("`");
                    Err(m)
                },
            };
        }
        assert(!has_prefix(s@, seq!['#'])) by {
            if has_prefix(s@, seq!['#']) {
                assert(s@.take(1)[0] == '#');
            }
        }
        if let Some(body) = strip_call(&s, "rgba") {
            let parts = split_args(&body);
            let ghost v = char_views(parts@);
            if parts.len() != 4 {
                let mut m = "rgba() takes 4 components, got ".to_owned();
                push_decimal(&mut m, parts.len() as u64);
                return Err(m);
            }
            assert(v[0] == parts@[0]@ && v[1] == parts@[1]@ && v[2] == parts@[2]@ && v[3]
                == parts@[3]@);
            return match parse_channels(&parts) {
                Ok((red, green, blue)) => Ok(
                    ColorText::Translucent { red, green, blue, alpha: string_of(&parts[3]) },
                ),
                Err(e) => Err(e),
            };
        }
        if let Some(body) = strip_call(&s, "rgb") {
            let parts = split_args(&body);
            let ghost v = char_views(parts@);
            if parts.len() != 3 {
                let mut m = "rgb() takes 3 components, got ".to_owned();
                push_decimal(&mut m, parts.len() as u64);
                return Err(m);
            }
            assert(v[0] == parts@[0]@ && v[1] == parts@[1]@ && v[2] == parts@[2]@);
            return match parse_channels(&parts) {
                Ok((r, g, b)) => Ok(ColorText::Opaque(ColorConfig::rgb(r, g, b))),
                Err(e) => Err(e),
            };
        }
        let mut m = "expected `#RRGGBB`, `rgb(...)`, or `rgba(...)`, got `".to_owned();
        m.append(string_of(&s).as_str());
        m.append("`");
        Err(m)
    }

    /// The colour, given what reading the alpha text came to. A colour without one
    /// does not depend on it.
    pub fn resolve(self, alpha: Result<u8, String>) -> (r: Result<ColorConfig, String>)
        ensures
            error_view(r) == (match self@ {
                ColorModel::Opaque(c) => Ok::<ColorConfig, Seq<char>>(c),
                ColorModel::Translucent(red, green, blue, _) => match error_view(alpha) {
                    Ok(alpha) => Ok(ColorConfig { red, green, blue, alpha }),
                    Err(e) => Err(e),
                },
            }),
    {
        match self {
            ColorText::Opaque(c) => Ok(c),
            ColorText::Translucent { red, green, blue, alpha: _ } => match alpha {
                Ok(a) => Ok(ColorConfig::rgba(red, green, blue, a)),
                Err(e) => Err(e),
            },
        }
    }
}

impl BackgroundText {
    /// Reads a background method: `blur`, or a colour.
    pub fn from_str(s: &str) -> (r: Result<BackgroundText, String>)
        ensures
            s@ == "blur"@ ==> r == Ok::<BackgroundText, String>(BackgroundText::Blur),
            s@ != "blur"@ ==> match color_of(s@) {
                Ok(c) => r is Ok && r->Ok_0 is Solid && r->Ok_0->Solid_0@ == c,
                Err(e) => r is Err && r->Err_0@ == e,
            },
    {
        if s.to_owned() == "blur".to_owned() {
            return Ok(BackgroundText::Blur);
        }
        match ColorText::from_str(s) {
            Ok(c) => Ok(BackgroundText::Solid(c)),
            Err(e) => Err(e),
        }
    }

    /// The background method, given what reading the alpha text came to.
    pub fn resolve(self, alpha: Result<u8, String>) -> (r: Result<BackgroundMethod, String>)
        ensures
            error_view(r) == (match self {
                BackgroundText::Blur => Ok::<BackgroundMethod, Seq<char>>(BackgroundMethod::Blur),
                BackgroundText::Solid(c) => match c@ {
                    ColorModel::Opaque(c) => Ok(BackgroundMethod::Solid(c)),
                    ColorModel::Translucent(red, green, blue, _) => match error_view(alpha) {
                        Ok(alpha) => Ok(
                            BackgroundMethod::Solid(ColorConfig { red, green, blue, alpha }),
                        ),
                        Err(e) => Err(e),
                    },
                },
            }),
    {
        match self {
            BackgroundText::Blur => Ok(BackgroundMethod::Blur),
            BackgroundText::Solid(c) => match c.resolve(alpha) {
                Ok(c) => Ok(BackgroundMethod::Solid(c)),
                Err(e) => Err(e),
            },
        }
    }
}

/// A colour written without an alpha component is opaque.
pub proof fn law_alpha_defaults_to_opaque(text: Seq<char>)
    ensures
        color_of(text) matches Ok(ColorModel::Opaque(c)) ==> c.alpha == 255,
{
}

/// Whether `c` is a hexadecimal digit, of either case, for `v`.
pub open spec fn is_hex(c: char, v: int) -> bool {
    ||| 0 <= v < 10 && c as int == '0' as int + v
    ||| 10 <= v < 16 && c as int == 'a' as int + v - 10
    ||| 10 <= v < 16 && c as int == 'A' as int + v - 10
}

/// A text that begins and ends otherwise than with white space is left as it is by
/// trimming.
proof fn lemma_trimmed_as_it_is(s: Seq<char>)
    requires
        s.len() > 0,
        !white_space(s[0]),
        !white_space(s.last()),
    ensures
        trimmed(s) == s,
{
}

/// Six hexadecimal digits after a hash sign denote the opaque colour with those channels.
pub proof fn law_hex_digits_denote_a_colour(
    text: &str,
    v: Seq<int>,
    r: Result<ColorText, String>,
)
    requires
        call_ensures(ColorText::from_str, (text,), r),
        text@.len() == 7,
        text@[0] == '#',
        v.len() == 6,
        is_hex(text@[1], v[0]) && is_hex(text@[2], v[1]) && is_hex(text@[3], v[2]),
        is_hex(text@[4], v[3]) && is_hex(text@[5], v[4]) && is_hex(text@[6], v[5]),
    ensures
        r matches Ok(ColorText::Opaque(c)) && c.red == 16 * v[0] + v[1] && c.green == 16 * v[2]
            + v[3] && c.blue == 16 * v[4] + v[5] && c.alpha == 255,
{
    lemma_trimmed_as_it_is(text@);
    let s = text@;
    assert(s.take(1) =~= seq!['#']);
    let h = s.skip(1);
    assert(h[0] == s[1] && h[1] == s[2] && h[2] == s[3] && h[3] == s[4] && h[4] == s[5] && h[5]
        == s[6]);
    assert forall|i: int| 0 <= i < 6 implies hex_value(#[trigger] h[i]) is Some by {
        assert(i == 0 || i == 1 || i == 2 || i == 3 || i == 4 || i == 5);
    }
    assert(color_of(s) is Ok);
}

/// A byte is written with decimal digits, after a plus sign or not, and denotes their
/// number if that is at most 255.
pub proof fn law_byte_is_its_number(s: &Vec<char>, digits: Seq<char>, r: Result<u8, String>)
    requires
        call_ensures(parse_byte, (s,), r),
        s@ == digits || s@ == seq!['+'] + digits,
        forall|i: int| 0 <= i < digits.len() ==> '0' <= #[trigger] digits[i] <= '9',
    ensures
        r is Ok <==> digits.len() > 0 && number(digits) <= 255,
        r is Ok ==> r->Ok_0 == number(digits),
{
    if s@ == digits && s@.len() > 0 {
        assert(s@[0] == digits[0]);
    }
    if s@ == seq!['+'] + digits {
        assert(s@.skip(1) =~= digits);
        assert(s@[0] == '+');
    }
    assert forall|i: int| 0 <= i < digits.len() implies ascii_digit(#[trigger] digits[i]) by {}
}

/// A byte holds no other characters than digits and a plus sign at the front.
pub proof fn law_byte_is_digits(s: &Vec<char>, r: Result<u8, String>, i: int)
    requires
        call_ensures(parse_byte, (s,), r),
        r is Ok,
        0 <= i < s@.len(),
    ensures
        '0' <= s@[i] <= '9' || (i == 0 && s@[0] == '+' && s@.len() > 1),
{
    if s@[0] == '+' && i > 0 {
        assert(s@.skip(1)[i - 1] == s@[i]);
        assert(ascii_digit(s@.skip(1)[i - 1]));
    } else if s@[0] != '+' {
        assert(ascii_digit(s@[i]));
    }
}

/// A numeral is a byte if it is at most 255, and has nothing to trim.
proof fn lemma_numeral_is_byte(n: nat)
    requires
        n <= 255,
    ensures
        trimmed(decimal(n)) == decimal(n),
        byte_value(decimal(n)) == Some(n as u8),
        forall|i: int| 0 <= i < decimal(n).len() ==> #[trigger] decimal(n)[i] != ',',
{
    lemma_decimal_denotes(n);
    let d = decimal(n);
    assert(ascii_digit(d[0]) && ascii_digit(d[d.len() - 1]));
    lemma_trimmed_as_it_is(d);
    assert forall|i: int| 0 <= i < d.len() implies #[trigger] d[i] != ',' by {
        assert(ascii_digit(d[i]));
    }
}

/// The pieces of texts without the separator, with the separator between them.
proof fn lemma_pieces_of_two(a: Seq<char>, b: Seq<char>, c: char)
    requires
        forall|i: int| 0 <= i < a.len() ==> #[trigger] a[i] != c,
    ensures
        split_at_char(a, c) == seq![a],
        split_at_char(a.push(c) + b, c) == seq![a] + split_at_char(b, c),
{
    lemma_single_piece(a, only(c));
    lemma_pieces_parted(a, c, b, only(c));
}

/// Three numbers up to 255 between the brackets of `rgb` denote the opaque colour with
/// those channels.
pub proof fn law_rgb_denotes_a_colour(
    text: &str,
    red: u8,
    green: u8,
    blue: u8,
    r: Result<ColorText, String>,
)
    requires
        call_ensures(ColorText::from_str, (text,), r),
        text@ == "rgb("@ + (decimal(red as nat).push(',') + (decimal(green as nat).push(',')
            + decimal(blue as nat))) + ")"@,
    ensures
        r matches Ok(ColorText::Opaque(c)) && c.red == red && c.green == green && c.blue == blue
            && c.alpha == 255,
{
    let s = text@;
    let a = decimal(red as nat);
    let b = decimal(green as nat);
    let c = decimal(blue as nat);
    let body = a.push(',') + (b.push(',') + c);
    reveal_strlit("rgb(");
    reveal_strlit(")");
    reveal_strlit("rgb");
    reveal_strlit("rgba");
    lemma_trimmed_as_it_is(s);
    assert(s[0] == 'r' && s[3] == '(');
    assert(!has_prefix(s, seq!['#'])) by {
        if has_prefix(s, seq!['#']) {
            assert(s.take(1)[0] == '#');
        }
    }
    assert(call_body(s, "rgba"@) is None) by {
        if has_prefix(s, "rgba"@) {
            assert(s.take(4)[3] == 'a');
        }
    }
    assert(s.take(3) =~= "rgb"@);
    let rest = s.skip(3);
    assert(rest[0] == '(' && rest.last() == ')');
    assert(trimmed_start(rest) == rest);
    assert(rest.subrange(1, rest.len() - 1) =~= body);
    assert(call_body(s, "rgb"@) == Some(body));
    lemma_numeral_is_byte(red as nat);
    lemma_numeral_is_byte(green as nat);
    lemma_numeral_is_byte(blue as nat);
    lemma_pieces_of_two(a, b.push(',') + c, ',');
    lemma_pieces_of_two(b, c, ',');
    lemma_pieces_of_two(c, c, ',');
    assert(split_at_char(body, ',') =~= seq![a, b, c]);
    assert(call_args(body) =~= seq![a, b, c]);
    reveal_with_fuel(bad_byte, 5);
    assert(bad_byte(seq![a, b, c], 3) is None);
    assert(color_of(s) is Ok);
}

/// Three numbers up to 255 and a text between the brackets of `rgba` denote the colour
/// with those channels, and with the alpha that the text denotes.
pub proof fn law_rgba_denotes_a_colour(
    text: &str,
    red: u8,
    green: u8,
    blue: u8,
    alpha: Seq<char>,
    r: Result<ColorText, String>,
)
    requires
        call_ensures(ColorText::from_str, (text,), r),
        alpha.len() > 0,
        !white_space(alpha[0]) && !white_space(alpha.last()),
        forall|i: int| 0 <= i < alpha.len() ==> #[trigger] alpha[i] != ',',
        text@ == "rgba("@ + (decimal(red as nat).push(',') + (decimal(green as nat).push(',') + (
        decimal(blue as nat).push(',') + alpha))) + ")"@,
    ensures
        r matches Ok(ColorText::Translucent { red: x, green: y, blue: z, alpha: t }) && x == red
            && y == green && z == blue && t@ == alpha,
{
    let s = text@;
    let a = decimal(red as nat);
    let b = decimal(green as nat);
    let c = decimal(blue as nat);
    let body = a.push(',') + (b.push(',') + (c.push(',') + alpha));
    reveal_strlit("rgba(");
    reveal_strlit(")");
    reveal_strlit("rgba");
    lemma_trimmed_as_it_is(s);
    lemma_trimmed_as_it_is(alpha);
    assert(s[0] == 'r');
    assert(!has_prefix(s, seq!['#'])) by {
        if has_prefix(s, seq!['#']) {
            assert(s.take(1)[0] == '#');
        }
    }
    assert(s.take(4) =~= "rgba"@);
    let rest = s.skip(4);
    assert(rest[0] == '(' && rest.last() == ')');
    assert(trimmed_start(rest) == rest);
    assert(rest.subrange(1, rest.len() - 1) =~= body);
    assert(call_body(s, "rgba"@) == Some(body));
    lemma_numeral_is_byte(red as nat);
    lemma_numeral_is_byte(green as nat);
    lemma_numeral_is_byte(blue as nat);
    lemma_pieces_of_two(a, b.push(',') + (c.push(',') + alpha), ',');
    lemma_pieces_of_two(b, c.push(',') + alpha, ',');
    lemma_pieces_of_two(c, alpha, ',');
    lemma_pieces_of_two(alpha, c, ',');
    assert(split_at_char(body, ',') =~= seq![a, b, c, alpha]);
    assert(call_args(body) =~= seq![a, b, c, alpha]);
    reveal_with_fuel(bad_byte, 5);
    assert(bad_byte(seq![a, b, c, alpha], 3) is None);
    assert(color_of(s) is Ok);
}

/// A colour is a hash sign and six digits, or begins with `rgb`, but for white space.
pub proof fn law_colour_has_a_form(text: &str, r: Result<ColorText, String>)
    requires
        call_ensures(ColorText::from_str, (text,), r),
        r is Ok,
    ensures
        ({
            let s = trimmed(text@);
            ||| s.len() == 7 && s[0] == '#'
            ||| s.len() > 3 && s[0] == 'r' && s[1] == 'g' && s[2] == 'b'
        }),
{
    let s = trimmed(text@);
    reveal_strlit("rgba");
    reveal_strlit("rgb");
    assert(color_of(text@) is Ok);
    if has_prefix(s, seq!['#']) {
        assert(s.take(1)[0] == '#');
    } else if call_body(s, "rgba"@) is Some {
        assert(s.take(4)[0] == 'r' && s.take(4)[1] == 'g' && s.take(4)[2] == 'b');
    } else {
        assert(s.take(3)[0] == 'r' && s.take(3)[1] == 'g' && s.take(3)[2] == 'b');
        assert(s.skip(3).len() > 0);
    }
}

/// A colour with an alpha text takes the alpha that reading it came to, and its error; a
/// colour without one takes neither. A background does the same, and is a blur by that
/// name only.
pub proof fn law_alpha_completes_a_colour(
    written: ColorText,
    alpha: Result<u8, String>,
    r: Result<ColorConfig, String>,
    b: Result<BackgroundMethod, String>,
)
    requires
        call_ensures(ColorText::resolve, (written, alpha), r),
        call_ensures(BackgroundText::resolve, (BackgroundText::Solid(written), alpha), b),
    ensures
        written matches ColorText::Opaque(c) ==> r == Ok::<ColorConfig, String>(c),
        written matches ColorText::Translucent { red, green, blue, alpha: _ } ==> (r is Ok
            <==> alpha is Ok) && (alpha is Ok ==> r->Ok_0 == ColorConfig {
            red,
            green,
            blue,
            alpha: alpha->Ok_0,
        }) && (alpha is Err ==> r->Err_0@ == alpha->Err_0@),
        b is Ok <==> r is Ok,
        r is Ok ==> b->Ok_0 == BackgroundMethod::Solid(r->Ok_0),
        r is Err ==> b->Err_0@ == r->Err_0@,
{
}

/// A background is a blur if it is written so, and else what its colour is.
pub proof fn law_background_is_a_blur_or_a_colour(
    s: &str,
    r: Result<BackgroundText, String>,
    c: Result<ColorText, String>,
)
    requires
        call_ensures(BackgroundText::from_str, (s,), r),
        call_ensures(ColorText::from_str, (s,), c),
    ensures
        s@ == "blur"@ <==> (r matches Ok(BackgroundText::Blur)),
        s@ != "blur"@ ==> (r is Ok <==> c is Ok),
        s@ != "blur"@ && r is Ok ==> (r->Ok_0 matches BackgroundText::Solid(t) && t@ == c->Ok_0@),
        s@ != "blur"@ && r is Err ==> r->Err_0@ == c->Err_0@,
{
}

/// A colour that cannot be read is quoted, with what was expected of it.
pub proof fn law_bad_colour_is_quoted(text: &str, r: Result<ColorText, String>)
    requires
        call_ensures(ColorText::from_str, (text,), r),
        r is Err,
    ensures
        ({
            let s = trimmed(text@);
            &&& s.len() > 0 && s[0] == '#' ==> r->Err_0@ == "invalid hex colour `"@ + s + "`"@
            &&& s.len() == 0 || (s[0] != '#' && s[0] != 'r') ==> r->Err_0@
                == "expected `#RRGGBB`, `rgb(...)`, or `rgba(...)`, got `"@ + s + "`"@
        }),
{
    let s = trimmed(text@);
    reveal_strlit("rgba");
    reveal_strlit("rgb");
    assert(color_of(text@) is Err);
    if s.len() > 0 && s[0] == '#' {
        assert(s.take(1) =~= seq!['#']);
    } else {
        assert(!has_prefix(s, seq!['#'])) by {
            if has_prefix(s, seq!['#']) {
                assert(s.take(1)[0] == '#');
            }
        }
        if has_prefix(s, "rgba"@) {
            assert(s.take(4)[0] == 'r');
        }
        if has_prefix(s, "rgb"@) {
            assert(s.take(3)[0] == 'r');
        }
    }
}

} // verus!
