use epd_photoframe_server::background::{apply, mount, Canvas, RgbImage};
use epd_photoframe_server::color::{BackgroundMethod, ColorConfig};

fn plain(width: u32, height: u32, pixel: [u8; 3]) -> RgbImage {
    let mut data = Vec::new();
    for _ in 0..(width * height) {
        data.extend_from_slice(&pixel);
    }
    RgbImage::from_raw(width, height, data).unwrap()
}

fn pixel_at(pm: &Canvas, x: u32, y: u32) -> (u8, u8, u8) {
    let (r, g, b, _) = pm.pixel(x, y).expect("in-bounds");
    (r, g, b)
}

#[test]
fn exact_size_passes_through() {
    let src = plain(200, 200, [10, 20, 30]);
    let out = apply(src, 200, 200, &BackgroundMethod::Solid(ColorConfig::rgb(0, 0, 0))).unwrap();
    assert_eq!((out.width(), out.height()), (200, 200));
    assert_eq!(pixel_at(&out, 0, 0), (10, 20, 30));
}

#[test]
fn oversized_errors() {
    let src = plain(300, 200, [0, 0, 0]);
    let err = apply(src, 200, 200, &BackgroundMethod::Solid(ColorConfig::rgb(0, 0, 0)))
        .map(|_| ())
        .unwrap_err();
    assert!(err.contains("larger than requested"));
    assert_eq!(err, "returned image 300×200 is larger than requested 200×200");
}

#[test]
fn solid_centres_smaller_image() {
    let src = plain(100, 80, [128, 0, 0]);
    let out = apply(src, 200, 200, &BackgroundMethod::Solid(ColorConfig::rgb(0, 255, 0))).unwrap();
    assert_eq!((out.width(), out.height()), (200, 200));
    assert_eq!(pixel_at(&out, 100, 100), (128, 0, 0));
    assert_eq!(pixel_at(&out, 0, 0), (0, 255, 0));
}

#[test]
fn solid_ignores_alpha() {
    let src = plain(100, 80, [0, 0, 0]);
    let out =
        apply(src, 200, 200, &BackgroundMethod::Solid(ColorConfig::rgba(10, 20, 30, 0))).unwrap();
    assert_eq!(pixel_at(&out, 0, 0), (10, 20, 30));
}

#[test]
fn margins_are_as_equal_as_possible() {
    let src = plain(3, 2, [1, 1, 1]);
    let out = apply(src, 6, 5, &BackgroundMethod::Solid(ColorConfig::rgb(9, 9, 9))).unwrap();
    for y in 0..5 {
        for x in 0..6 {
            let photo = (1..4).contains(&x) && (1..3).contains(&y);
            let expected = if photo { (1, 1, 1, 255) } else { (9, 9, 9, 255) };
            assert_eq!(out.pixel(x, y), Some(expected));
        }
    }
    assert_eq!(out.pixel(6, 0), None);
    assert_eq!(out.pixel(0, 5), None);
}

#[test]
fn screens_without_pixels_cannot_be_allocated() {
    let src = RgbImage::from_raw(0, 0, Vec::new()).unwrap();
    let err = apply(src, 0, 10, &BackgroundMethod::Blur).map(|_| ()).unwrap_err();
    assert_eq!(err, "failed to allocate 0x10 pixmap");
    let src = RgbImage::from_raw(0, 0, Vec::new()).unwrap();
    let err = apply(src, 536_870_912, 1, &BackgroundMethod::Blur).map(|_| ()).unwrap_err();
    assert_eq!(err, "failed to allocate 536870912x1 pixmap");
    assert!(Canvas::new(0, 0).is_none());
}

#[test]
fn fresh_canvas_is_transparent() {
    let c = Canvas::new(2, 3).unwrap();
    assert_eq!(c.data(), &vec![0u8; 24]);
    assert_eq!(Canvas::from_raw(2, 3, vec![7; 24]).unwrap().pixel(1, 2), Some((7, 7, 7, 7)));
    assert!(Canvas::from_raw(2, 3, vec![7; 23]).is_none());
    assert!(Canvas::from_raw(0, 3, vec![]).is_none());
}

#[test]
fn photos_hold_three_bytes_a_pixel() {
    assert!(RgbImage::from_raw(2, 2, vec![0; 12]).is_some());
    assert!(RgbImage::from_raw(2, 2, vec![0; 11]).is_none());
    let p = RgbImage::from_raw(1, 2, vec![1, 2, 3, 4, 5, 6]).unwrap();
    assert_eq!((p.width(), p.height()), (1, 2));
    assert_eq!(p.as_raw(), &vec![1, 2, 3, 4, 5, 6]);
}

#[test]
fn photo_is_mounted_on_its_backing() {
    let mut data = Vec::new();
    for i in 0..16u8 {
        data.extend_from_slice(&[i, 100, 200]);
    }
    let backing = RgbImage::from_raw(4, 4, data).unwrap();
    let photo = plain(2, 2, [1, 2, 3]);
    let out = mount(Canvas::new(4, 4).unwrap(), &photo, &backing);
    assert_eq!(out.pixel(0, 0), Some((0, 100, 200, 255)));
    assert_eq!(out.pixel(3, 0), Some((3, 100, 200, 255)));
    assert_eq!(out.pixel(1, 1), Some((1, 2, 3, 255)));
    assert_eq!(out.pixel(2, 2), Some((1, 2, 3, 255)));
    assert_eq!(out.pixel(3, 2), Some((11, 100, 200, 255)));
}

#[test]
fn blurred_border_is_the_stretched_and_blurred_photo() {
    let mut data = Vec::new();
    for i in 0..40u8 {
        data.extend_from_slice(&[i * 6, 255 - i * 6, if i < 20 { 0 } else { 250 }]);
    }
    let photo = image::RgbImage::from_raw(8, 5, data.clone()).unwrap();
    let cover = image::imageops::resize(&photo, 30, 20, image::imageops::FilterType::Triangle);
    let blurred = image::imageops::blur(&cover, 24.0);
    let own = RgbImage::from_raw(8, 5, data).unwrap();
    let out = apply(own, 30, 20, &BackgroundMethod::Blur).unwrap();
    for y in 0..20 {
        for x in 0..30 {
            let p = if (11..19).contains(&x) && (7..12).contains(&y) {
                photo.get_pixel(x - 11, y - 7)
            } else {
                blurred.get_pixel(x, y)
            };
            assert_eq!(out.pixel(x, y), Some((p[0], p[1], p[2], 255)));
        }
    }
}

#[test]
fn a_uniform_photo_blurs_to_itself() {
    let out = apply(plain(10, 10, [200, 100, 50]), 40, 20, &BackgroundMethod::Blur).unwrap();
    assert_eq!((out.width(), out.height()), (40, 20));
    let (r, g, b) = pixel_at(&out, 0, 0);
    assert!(r.abs_diff(200) <= 1 && g.abs_diff(100) <= 1 && b.abs_diff(50) <= 1);
}
