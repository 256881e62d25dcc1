use epd_photoframe_server::color::{
    parse_byte, parse_hex, split_args, strip_call, BackgroundMethod, BackgroundText, ColorConfig,
    ColorText,
};

fn alpha(text: &str) -> Result<u8, String> {
    let f: f32 = text.parse().map_err(|_| format!("invalid alpha `{text}`"))?;
    if !(0.0..=1.0).contains(&f) {
        return Err(format!("alpha {f} out of range [0.0, 1.0]"));
    }
    Ok((f * 255.0).round() as u8)
}

fn color(text: &str) -> Result<ColorConfig, String> {
    let parsed = ColorText::from_str(text)?;
    let a = match &parsed {
        ColorText::Opaque(_) => Ok(255),
        ColorText::Translucent { alpha: a, .. } => alpha(a),
    };
    parsed.resolve(a)
}

fn background(text: &str) -> Result<BackgroundMethod, String> {
    let parsed = BackgroundText::from_str(text)?;
    let a = match &parsed {
        BackgroundText::Solid(ColorText::Translucent { alpha: a, .. }) => alpha(a),
        _ => Ok(255),
    };
    parsed.resolve(a)
}

fn chars(s: &str) -> Vec<char> {
    s.chars().collect()
}

fn text(v: &[char]) -> String {
    v.iter().collect()
}

#[test]
fn color_color_hex_opaque() {
    assert_eq!(color("#ff0000").unwrap(), ColorConfig::rgba(255, 0, 0, 255));
    assert_eq!(color("#00ff80").unwrap(), ColorConfig::rgba(0, 255, 128, 255));
}

#[test]
fn color_color_rgb_opaque() {
    assert_eq!(color("rgb(255, 0, 0)").unwrap(), ColorConfig::rgba(255, 0, 0, 255));
    assert_eq!(color("rgb(1,2,3)").unwrap(), ColorConfig::rgba(1, 2, 3, 255));
}

#[test]
fn color_color_rgba_float_alpha() {
    assert_eq!(color("rgba(255, 0, 0, 1.0)").unwrap(), ColorConfig::rgba(255, 0, 0, 255));
    assert_eq!(color("rgba(255, 0, 0, 0)").unwrap(), ColorConfig::rgba(255, 0, 0, 0));
    let half = color("rgba(0, 0, 0, 0.5)").unwrap();
    assert_eq!(half, ColorConfig::rgba(0, 0, 0, 128));
}

#[test]
fn color_color_rejects_bad_inputs() {
    assert!(color("#ff").is_err());
    assert!(color("#gggggg").is_err());
    assert!(color("rgb(256, 0, 0)").is_err());
    assert!(color("rgba(0, 0, 0, 2.0)").is_err());
    assert!(color("rgb(1, 2)").is_err());
    assert!(color("hsl(0, 0, 0)").is_err());
}

#[test]
fn config_color_hex_opaque() {
    assert_eq!(color("#ff0000").unwrap(), ColorConfig::rgba(255, 0, 0, 255));
    assert_eq!(color("#00ff80").unwrap(), ColorConfig::rgba(0, 255, 128, 255));
}

#[test]
fn config_color_rgb_opaque() {
    assert_eq!(color("rgb(255, 0, 0)").unwrap(), ColorConfig::rgba(255, 0, 0, 255));
    assert_eq!(color("rgb(1,2,3)").unwrap(), ColorConfig::rgba(1, 2, 3, 255));
}

#[test]
fn config_color_rgba_float_alpha() {
    assert_eq!(color("rgba(255, 0, 0, 1.0)").unwrap(), ColorConfig::rgba(255, 0, 0, 255));
    assert_eq!(color("rgba(255, 0, 0, 0)").unwrap(), ColorConfig::rgba(255, 0, 0, 0));
    let half = color("rgba(0, 0, 0, 0.5)").unwrap();
    assert_eq!(half, ColorConfig::rgba(0, 0, 0, 128));
}

#[test]
fn config_color_rejects_bad_inputs() {
    assert!(color("#ff").is_err());
    assert!(color("#gggggg").is_err());
    assert!(color("rgb(256, 0, 0)").is_err());
    assert!(color("rgba(0, 0, 0, 2.0)").is_err());
    assert!(color("rgb(1, 2)").is_err());
    assert!(color("hsl(0, 0, 0)").is_err());
}

#[test]
fn colors_allow_white_space() {
    assert_eq!(color("  #0a0B0c\n").unwrap(), ColorConfig::rgb(10, 11, 12));
    assert_eq!(color("rgb  ( 1 ,\t2 , +3 )").unwrap(), ColorConfig::rgb(1, 2, 3));
    assert_eq!(color("rgb(007, 0, 255)").unwrap(), ColorConfig::rgb(7, 0, 255));
}

#[test]
fn color_errors_say_what_is_wrong() {
    assert_eq!(color("#ff").unwrap_err(), "invalid hex colour `#ff`");
    assert_eq!(color("rgb(1, 2)").unwrap_err(), "rgb() takes 3 components, got 2");
    assert_eq!(color("rgba(1, 2, 3)").unwrap_err(), "rgba() takes 4 components, got 3");
    assert_eq!(color("rgb(1, 256, 3)").unwrap_err(), "invalid 0-255 byte `256`");
    assert_eq!(color("rgb(x, y, z)").unwrap_err(), "invalid 0-255 byte `x`");
    assert_eq!(color("rgb()").unwrap_err(), "rgb() takes 3 components, got 1");
    assert_eq!(color("rgba(1, 2, 3, x)").unwrap_err(), "invalid alpha `x`");
    assert_eq!(
        color(" hsl(0, 0, 0) ").unwrap_err(),
        "expected `#RRGGBB`, `rgb(...)`, or `rgba(...)`, got `hsl(0, 0, 0)`"
    );
}

#[test]
fn parts_of_a_call() {
    assert_eq!(strip_call(&chars("rgb (1,2)"), "rgb"), Some(chars("1,2")));
    assert_eq!(strip_call(&chars("rgb("), "rgb"), None);
    assert_eq!(strip_call(&chars("rgba(1)"), "rgb"), None);
    let args: Vec<String> = split_args(&chars(" 1 ,, 2")).iter().map(|a| text(a)).collect();
    assert_eq!(args, vec!["1", "", "2"]);
    assert_eq!(parse_byte(&chars("255")), Ok(255));
    assert!(parse_byte(&chars("")).is_err());
    assert!(parse_byte(&chars("+")).is_err());
    assert!(parse_byte(&chars("-1")).is_err());
    assert!(parse_byte(&chars("99999999999999999999")).is_err());
    assert_eq!(parse_hex(&chars("0102fF")), Some(ColorConfig::rgb(1, 2, 255)));
    assert_eq!(parse_hex(&chars("é1234")), None);
}

#[test]
fn backgrounds() {
    assert_eq!(background("blur").unwrap(), BackgroundMethod::Blur);
    assert_eq!(
        background("rgba(1, 2, 3, 0.5)").unwrap(),
        BackgroundMethod::Solid(ColorConfig::rgba(1, 2, 3, 128))
    );
    assert!(background("Blur").is_err());
    assert_eq!(
        BackgroundMethod::default(),
        BackgroundMethod::Solid(ColorConfig::rgb(255, 255, 255))
    );
}

#[test]
fn color_conversions() {
    assert_eq!(ColorConfig::rgba(1, 2, 3, 4).to_rgb(), [1, 2, 3]);
    assert_eq!(ColorConfig::rgba(0, 255, 100, 4).inverted(), ColorConfig::rgb(255, 0, 155));
}
