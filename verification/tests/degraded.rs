use epd_photoframe_server::background::Canvas;
use epd_photoframe_server::color::{BackgroundMethod, ColorConfig};
use epd_photoframe_server::degraded::{placeholder, wrap, HEADING};

fn pixel_at(pm: &Canvas, x: u32, y: u32) -> (u8, u8, u8) {
    let (r, g, b, _) = pm.pixel(x, y).expect("in-bounds");
    (r, g, b)
}

#[test]
fn placeholder_is_correct_size() {
    let p = placeholder(800, 480, &BackgroundMethod::Solid(ColorConfig::rgb(255, 255, 255)));
    let pm = p.map_err(|_| ()).unwrap().canvas;
    assert_eq!((pm.width(), pm.height()), (800, 480));
}

#[test]
fn placeholder_fills_background_and_renders_text() {
    let white = BackgroundMethod::Solid(ColorConfig::rgb(255, 255, 255));
    let p = placeholder(800, 480, &white).map_err(|_| ()).unwrap();
    assert_eq!(pixel_at(&p.canvas, 0, 0), (255, 255, 255));
    let text = (p.text.red, p.text.green, p.text.blue);
    assert_ne!(text, (255, 255, 255), "expected text in another colour");
}

#[test]
fn placeholder_fills_the_whole_canvas() {
    let p = placeholder(80, 48, &BackgroundMethod::Solid(ColorConfig::rgba(1, 2, 3, 0)))
        .map_err(|_| ())
        .unwrap();
    for y in 0..48 {
        for x in 0..80 {
            assert_eq!(p.canvas.pixel(x, y), Some((1, 2, 3, 255)));
        }
    }
    assert_eq!(p.text, ColorConfig::rgb(254, 253, 252));
}

#[test]
fn blur_background_falls_back_to_white() {
    let pm = placeholder(400, 300, &BackgroundMethod::Blur).map_err(|_| ()).unwrap();
    assert_eq!(pixel_at(&pm.canvas, 0, 0), (255, 255, 255));
    assert_eq!(pm.text, ColorConfig::rgb(0, 0, 0));
}

#[test]
fn text_inverts_background() {
    let pm = placeholder(400, 300, &BackgroundMethod::Solid(ColorConfig::rgb(0, 0, 0)))
        .map_err(|_| ())
        .unwrap();
    assert_eq!(pixel_at(&pm.canvas, 0, 0), (0, 0, 0));
    let brightness = pm.text.red as u16 + pm.text.green as u16 + pm.text.blue as u16;
    assert!(brightness > 600, "expected near-white text on black, got {}", brightness);
}

#[test]
fn placeholder_without_pixels_fails() {
    let e = placeholder(0, 480, &BackgroundMethod::Blur).map(|_| ()).unwrap_err();
    assert_eq!(e, "failed to allocate 0x480 pixmap");
}

#[test]
fn wrap_breaks_long_input() {
    let text = "the quick brown fox jumps over the lazy dog and then keeps on jumping";
    let lines = wrap(text, |t: &str| t.chars().count() <= 10);
    assert!(lines.len() > 1);
    assert_eq!(
        lines,
        vec![
            "the quick",
            "brown fox",
            "jumps over",
            "the lazy",
            "dog and",
            "then keeps",
            "on jumping"
        ]
    );
}

#[test]
fn wrap_keeps_every_word() {
    let text = "  one\ttwo   three\u{3000}four ";
    for width in 1..25 {
        let lines = wrap(text, |t: &str| t.chars().count() <= width);
        assert_eq!(lines.join(" "), "one two three four");
        for l in &lines {
            assert!(l.chars().count() <= width || !l.contains(' '));
        }
        for pair in lines.windows(2) {
            let first = pair[1].split(' ').next().unwrap();
            assert!(pair[0].chars().count() + 1 + first.chars().count() > width);
        }
    }
}

#[test]
fn wrap_ends_lines_at_line_breaks() {
    assert_eq!(wrap("a b\n\nc\n", |_t: &str| true), vec!["a b", "c"]);
    assert_eq!(wrap("a b\nc", |_t: &str| false), vec!["a", "b", "c"]);
    assert!(wrap(" \n ", |_t: &str| true).is_empty());
}

#[test]
fn heading_fits_on_two_lines() {
    assert_eq!(HEADING, "Failed to fetch image");
    assert_eq!(wrap(HEADING, |t: &str| t.len() <= 15), vec!["Failed to fetch", "image"]);
}
