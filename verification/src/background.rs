//! Fitting a photo onto the screen: photos, the screen-sized canvas, and the
//! padding around a photo that is smaller than the screen.

use vstd::prelude::*;

use crate::color::BackgroundMethod;
use crate::text::{decimal, push_decimal};

verus! {

/// A photo: rows of red, green and blue bytes.
pub struct Picture {
    pub width: int,
    pub height: int,
    pub data: Seq<u8>,
}

/// A screen: rows of red, green, blue and alpha bytes.
pub struct Raster {
    pub width: int,
    pub height: int,
    pub data: Seq<u8>,
}

/// The number of the pixel at column `x` of row `y`.
pub open spec fn pixel_number(width: int, x: int, y: int) -> int {
    y * width + x
}

/// The four bytes of pixel number `i`.
pub open spec fn rgba_at(data: Seq<u8>, i: int) -> (u8, u8, u8, u8) {
    (data[i * 4], data[i * 4 + 1], data[i * 4 + 2], data[i * 4 + 3])
}

impl Picture {
    /// Whether there is a pixel at `(x, y)`.
    pub open spec fn has(self, x: int, y: int) -> bool {
        0 <= x < self.width && 0 <= y < self.height
    }

    /// The colour of the pixel at `(x, y)`.
    pub open spec fn at(self, x: int, y: int) -> (u8, u8, u8) {
        let i = pixel_number(self.width, x, y) * 3;
        (self.data[i], self.data[i + 1], self.data[i + 2])
    }
}

impl Raster {
    /// Whether there is a pixel at `(x, y)`.
    pub open spec fn has(self, x: int, y: int) -> bool {
        0 <= x < self.width && 0 <= y < self.height
    }

    /// The colour of the pixel at `(x, y)`.
    pub open spec fn at(self, x: int, y: int) -> (u8, u8, u8, u8) {
        rgba_at(self.data, pixel_number(self.width, x, y))
    }
}

/// An RGB photo.
pub struct RgbImage {
    width: u32,
    height: u32,
    data: Vec<u8>,
}

/// A screen-sized canvas of premultiplied RGBA pixels.
pub struct Canvas {
    width: u32,
    height: u32,
    data: Vec<u8>,
}

impl View for RgbImage {
    type V = Picture;

    closed spec fn view(&self) -> Picture {
        Picture { width: self.width as int, height: self.height as int, data: self.data@ }
    }
}

impl View for Canvas {
    type V = Raster;

    closed spec fn view(&self) -> Raster {
        Raster { width: self.width as int, height: self.height as int, data: self.data@ }
    }
}

/// A pixel inside the image has a number below the number of pixels.
proof fn lemma_pixel_number(width: int, height: int, x: int, y: int)
    requires
        0 <= x < width,
        0 <= y < height,
    ensures
        0 <= pixel_number(width, x, y) < width * height,
{
    assert(0 <= y * width) by (nonlinear_arith)
        requires
            0 <= y,
            0 <= width,
    ;
    assert(y * width + width <= width * height) by (nonlinear_arith)
        requires
            y + 1 <= height,
            0 <= width,
    ;
}

/// Different pixels have different numbers.
proof fn lemma_pixel_numbers_differ(width: int, x1: int, y1: int, x2: int, y2: int)
    requires
        0 <= x1 < width,
        0 <= x2 < width,
        x1 != x2 || y1 != y2,
    ensures
        pixel_number(width, x1, y1) != pixel_number(width, x2, y2),
{
    if y1 < y2 {
        assert(y1 * width + width <= y2 * width) by (nonlinear_arith)
            requires
                y1 + 1 <= y2,
                0 <= width,
        ;
    } else if y2 < y1 {
        assert(y2 * width + width <= y1 * width) by (nonlinear_arith)
            requires
                y2 + 1 <= y1,
                0 <= width,
        ;
    }
}

impl RgbImage {
    #[verifier::type_invariant]
    spec fn inv(self) -> bool {
        self.data@.len() == self.width * self.height * 3
    }

    /// The photo with the given size and bytes, if there are as many as it takes.
    pub fn from_raw(width: u32, height: u32, data: Vec<u8>) -> (r: Option<RgbImage>)
        ensures
            r is Some <==> data@.len() == width * height * 3,
            r is Some ==> r->0@ == (Picture {
                width: width as int,
                height: height as int,
                data: data@,
            }),
    {
        let pixels: u64 = mul_sides(width, height);
        if data.len() as u128 == pixels as u128 * 3 {
            Some(RgbImage { width, height, data })
        } else {
            None
        }
    }

    /// Columns.
    pub fn width(&self) -> (r: u32)
        ensures
            r == self@.width,
    {
        self.width
    }

    /// Rows.
    pub fn height(&self) -> (r: u32)
        ensures
            r == self@.height,
    {
        self.height
    }

    /// The bytes of the pixels, row by row.
    pub fn as_raw(&self) -> (r: &Vec<u8>)
        ensures
            r@ == self@.data,
            r@.len() == self@.width * self@.height * 3,
    {
        proof {
            use_type_invariant(self);
        }
        &self.data
    }
}

/// The product of two sides.
fn mul_sides(a: u32, b: u32) -> (r: u64)
    ensures
        r == a * b,
{
    assert(a * b <= 0xffff_ffff * 0xffff_ffff) by (nonlinear_arith)
        requires
            0 <= a <= 0xffff_ffff,
            0 <= b <= 0xffff_ffff,
    ;
    a as u64 * b as u64
}

/// Whether a pixel map of this size can be described: it has pixels, a row's bytes
/// fit a 32-bit signed number, and all bytes can be counted.
pub open spec fn allocatable(width: u32, height: u32) -> bool {
    &&& width > 0
    &&& height > 0
    &&& width * 4 <= i32::MAX
    &&& width * height * 4 <= usize::MAX
}

/// Whether the bytes of a pixel map of this size, if it can be described, fit in
/// memory.
pub open spec fn in_memory(width: u32, height: u32) -> bool {
    allocatable(width, height) ==> width * height * 4 <= isize::MAX
}

/// Whether a pixel map of this size can be described.
pub fn is_allocatable(width: u32, height: u32) -> (r: bool)
    ensures
        r == allocatable(width, height),
{
    let pixels: u128 = mul_sides(width, height) as u128;
    width > 0 && height > 0 && width as u64 * 4 <= i32::MAX as u64 && pixels * 4
        <= usize::MAX as u128
}

/// Whether the bytes of a pixel map of this size, if it can be described, fit in
/// memory.
pub fn is_in_memory(width: u32, height: u32) -> (r: bool)
    ensures
        r == in_memory(width, height),
{
    let pixels: u128 = mul_sides(width, height) as u128;
    !is_allocatable(width, height) || pixels * 4 <= isize::MAX as u128
}

/// `tiny_skia::Pixmap::new`: the zeroed bytes of a pixel map, where one of this size
/// can be described.
#[verifier::external_body]
fn new_pixmap(width: u32, height: u32) -> (r: Option<Vec<u8>>)
    requires
        in_memory(width, height),
    ensures
        r is Some <==> allocatable(width, height),
        r is Some ==> r->0@ == Seq::new((width * height * 4) as nat, |i: int| 0u8),
{
    tiny_skia::Pixmap::new(width, height).map(|p| p.take())
}

impl Canvas {
    #[verifier::type_invariant]
    spec fn inv(self) -> bool {
        &&& self.data@.len() == self.width * self.height * 4
        &&& self.width > 0
        &&& self.height > 0
    }

    /// A transparent canvas, where one of this size can be described.
    pub fn new(width: u32, height: u32) -> (r: Option<Canvas>)
        requires
            in_memory(width, height),
        ensures
            r is Some <==> allocatable(width, height),
            r is Some ==> r->0@ == (Raster {
                width: width as int,
                height: height as int,
                data: Seq::new((width * height * 4) as nat, |i: int| 0u8),
            }),
    {
        match new_pixmap(width, height) {
            Some(data) => {
                assert(0 <= width * height) by (nonlinear_arith)
                    requires
                        0 <= width,
                        0 <= height,
                ;
                Some(Canvas { width, height, data })
            },
            None => None,
        }
    }

    /// Columns.
    pub fn width(&self) -> (r: u32)
        ensures
            r == self@.width,
    {
        self.width
    }

    /// Rows.
    pub fn height(&self) -> (r: u32)
        ensures
            r == self@.height,
    {
        self.height
    }

    /// The bytes of the pixels, row by row.
    pub fn data(&self) -> (r: &Vec<u8>)
        ensures
            r@ == self@.data,
            r@.len() == self@.width * self@.height * 4,
    {
        proof {
            use_type_invariant(self);
        }
        &self.data
    }

    /// The canvas with the given size and bytes, if there are as many as it takes
    /// and any at all.
    pub fn from_raw(width: u32, height: u32, data: Vec<u8>) -> (r: Option<Canvas>)
        ensures
            r is Some <==> width > 0 && height > 0 && data@.len() == width * height * 4,
            r is Some ==> r->0@ == (Raster {
                width: width as int,
                height: height as int,
                data: data@,
            }),
    {
        let pixels: u64 = mul_sides(width, height);
        if width > 0 && height > 0 && data.len() as u128 == pixels as u128 * 4 {
            Some(Canvas { width, height, data })
        } else {
            None
        }
    }

    /// The colour of the pixel at `(x, y)`.
    pub fn pixel(&self, x: u32, y: u32) -> (r: Option<(u8, u8, u8, u8)>)
        ensures
            r is Some <==> self@.has(x as int, y as int),
            r is Some ==> r->0 == self@.at(x as int, y as int),
    {
        if x >= self.width || y >= self.height {
            return None;
        }
        proof {
            use_type_invariant(self);
            lemma_pixel_number(self.width as int, self.height as int, x as int, y as int);
            assert(self.data@.len() == self.data.len());
        }
        let i: usize = (mul_sides(y, self.width) as usize + x as usize) * 4;
        Some((self.data[i], self.data[i + 1], self.data[i + 2], self.data[i + 3]))
    }
}

/// Sets pixel number `i`.
fn put_pixel(data: &mut Vec<u8>, i: usize, c: (u8, u8, u8, u8))
    requires
        i * 4 + 3 < old(data)@.len(),
    ensures
        final(data)@.len() == old(data)@.len(),
        rgba_at(final(data)@, i as int) == c,
        forall|j: int|
            0 <= j && j != i && j * 4 + 3 < old(data)@.len() ==> #[trigger] rgba_at(
                final(data)@,
                j,
            ) == rgba_at(old(data)@, j),
{
    assert(data@.len() == data.len());
    data.set(i * 4, c.0);
    data.set(i * 4 + 1, c.1);
    data.set(i * 4 + 2, c.2);
    data.set(i * 4 + 3, c.3);
}

/// An opaque pixel.
pub open spec fn opaque(c: (u8, u8, u8)) -> (u8, u8, u8, u8) {
    (c.0, c.1, c.2, 255)
}

/// What stands at `(x, y)` once the pixels of `src` in its first `rows` rows, and
/// in the first `cols` columns of the next, are copied to `(dx, dy)`.
spec fn blitting(
    before: Raster,
    src: Picture,
    dx: int,
    dy: int,
    rows: int,
    cols: int,
    x: int,
    y: int,
) -> (u8, u8, u8, u8) {
    if src.has(x - dx, y - dy) && (y - dy < rows || (y - dy == rows && x - dx < cols)) {
        opaque(src.at(x - dx, y - dy))
    } else {
        before.at(x, y)
    }
}

/// What stands at `(x, y)` once `src` is copied to `(dx, dy)`.
pub open spec fn blitted(before: Raster, src: Picture, dx: int, dy: int, x: int, y: int) -> (
    u8,
    u8,
    u8,
    u8,
) {
    if src.has(x - dx, y - dy) {
        opaque(src.at(x - dx, y - dy))
    } else {
        before.at(x, y)
    }
}

/// The canvas with `src` copied to `(dst_x, dst_y)`, opaque. Pixels that fall
/// outside the canvas are skipped.
fn blit_rgb(pm: Canvas, src: &RgbImage, dst_x: i32, dst_y: i32) -> (r: Canvas)
    ensures
        r@.width == pm@.width,
        r@.height == pm@.height,
        forall|x: int, y: int|
            r@.has(x, y) ==> #[trigger] r@.at(x, y) == blitted(
                pm@,
                src@,
                dst_x as int,
                dst_y as int,
                x,
                y,
            ),
{
    proof {
        use_type_invariant(&pm);
        use_type_invariant(src);
    }
    let ghost before = pm@;
    let (width, height): (u32, u32) = (pm.width, pm.height);
    let mut data = pm.data;
    let pm_w: i64 = width as i64;
    let pm_h: i64 = height as i64;
    let sw: u32 = src.width;
    let sh: u32 = src.height;
    let mut sy: u32 = 0;
    while sy < sh
        invariant
            sy <= sh,
            width > 0,
            height > 0,
            pm_w == width,
            pm_h == height,
            sw == src@.width,
            sh == src@.height,
            src@.data.len() == sw * sh * 3,
            before.width == width,
            before.height == height,
            before.data.len() == width * height * 4,
            data@.len() == width * height * 4,
            forall|x: int, y: int|
                before.has(x, y) ==> #[trigger] rgba_at(data@, pixel_number(width as int, x, y))
                    == blitting(before, src@, dst_x as int, dst_y as int, sy as int, 0, x, y),
        decreases sh - sy,
    {
        let py: i64 = dst_y as i64 + sy as i64;
        if 0 <= py && py < pm_h {
            let mut sx: u32 = 0;
            while sx < sw
                invariant
                    sx <= sw,
                    sy < sh,
                    py == dst_y + sy,
                    0 <= py < pm_h,
                    width > 0,
                    height > 0,
                    pm_w == width,
                    pm_h == height,
                    sw == src@.width,
                    sh == src@.height,
                    src@.data.len() == sw * sh * 3,
                    before.width == width,
                    before.height == height,
                    before.data.len() == width * height * 4,
                    data@.len() == width * height * 4,
                    forall|x: int, y: int|
                        before.has(x, y) ==> #[trigger] rgba_at(
                            data@,
                            pixel_number(width as int, x, y),
                        ) == blitting(
                            before,
                            src@,
                            dst_x as int,
                            dst_y as int,
                            sy as int,
                            sx as int,
                            x,
                            y,
                        ),
                decreases sw - sx,
            {
                let px: i64 = dst_x as i64 + sx as i64;
                if 0 <= px && px < pm_w {
                    let ghost earlier = data@;
                    proof {
                        lemma_pixel_number(sw as int, sh as int, sx as int, sy as int);
                        lemma_pixel_number(width as int, height as int, px as int, py as int);
                        assert(src.data@.len() == src.data.len());
                        assert(data@.len() == data.len());
                    }
                    let si: usize = (mul_sides(sy, sw) as usize + sx as usize) * 3;
                    let pi: usize = mul_sides(py as u32, width) as usize + px as usize;
                    let c: (u8, u8, u8, u8) = (
                        src.data[si],
                        src.data[si + 1],
                        src.data[si + 2],
                        255,
                    );
                    put_pixel(&mut data, pi, c);
                    assert forall|x: int, y: int| before.has(x, y) implies #[trigger] rgba_at(
                        data@,
                        pixel_number(width as int, x, y),
                    ) == blitting(
                        before,
                        src@,
                        dst_x as int,
                        dst_y as int,
                        sy as int,
                        sx + 1,
                        x,
                        y,
                    ) by {
                        lemma_pixel_number(width as int, height as int, x, y);
                        let n = pixel_number(width as int, x, y);
                        if x != px || y != py {
                            lemma_pixel_numbers_differ(width as int, x, y, px as int, py as int);
                            assert(rgba_at(data@, n) == rgba_at(earlier, n));
                        }
                    }
                }
                sx = sx + 1;
            }
        }
        sy = sy + 1;
    }
    Canvas { width, height, data }
}

/// Whether every pixel of `r` is opaque and has the given colour.
pub open spec fn painted(r: Raster, red: u8, green: u8, blue: u8) -> bool {
    forall|x: int, y: int| r.has(x, y) ==> #[trigger] r.at(x, y) == (red, green, blue, 255u8)
}

/// The canvas with every pixel set to an opaque colour.
pub fn fill(pm: Canvas, colour: [u8; 3]) -> (r: Canvas)
    ensures
        r@.width == pm@.width,
        r@.height == pm@.height,
        painted(r@, colour[0], colour[1], colour[2]),
{
    proof {
        use_type_invariant(&pm);
    }
    let (width, height): (u32, u32) = (pm.width, pm.height);
    let mut data = pm.data;
    let c: (u8, u8, u8, u8) = (colour[0], colour[1], colour[2], 255);
    assert(data@.len() == data.len());
    let pixels: usize = mul_sides(width, height) as usize;
    let mut i: usize = 0;
    while i < pixels
        invariant
            i <= pixels,
            data@.len() == pixels * 4,
            forall|j: int| 0 <= j < i ==> #[trigger] rgba_at(data@, j) == c,
        decreases pixels - i,
    {
        put_pixel(&mut data, i, c);
        i = i + 1;
    }
    let r = Canvas { width, height, data };
    assert forall|x: int, y: int| r@.has(x, y) implies #[trigger] r@.at(x, y) == c by {
        lemma_pixel_number(width as int, height as int, x, y);
        assert(rgba_at(data@, pixel_number(width as int, x, y)) == c);
    }
    r
}

/// Where a photo of `photo` pixels goes along a side of `screen` pixels.
pub open spec fn centred(screen: int, photo: int) -> int {
    (screen - photo) / 2
}

/// Whether `r` is a screen of the given size that shows `photo` in its centre, and
/// `border` around it.
pub open spec fn framed(
    r: Raster,
    width: int,
    height: int,
    photo: Picture,
    border: spec_fn(int, int) -> (u8, u8, u8),
) -> bool {
    let dx = centred(width, photo.width);
    let dy = centred(height, photo.height);
    &&& r.width == width
    &&& r.height == height
    &&& forall|x: int, y: int|
        r.has(x, y) ==> #[trigger] r.at(x, y) == opaque(
            if photo.has(x - dx, y - dy) {
                photo.at(x - dx, y - dy)
            } else {
                border(x, y)
            },
        )
}

/// A border of one colour.
pub open spec fn solid(red: u8, green: u8, blue: u8) -> spec_fn(int, int) -> (u8, u8, u8) {
    |x: int, y: int| (red, green, blue)
}

/// A border that shows the picture `p`.
pub open spec fn backdrop(p: Picture) -> spec_fn(int, int) -> (u8, u8, u8) {
    |x: int, y: int| p.at(x, y)
}

/// The place of the photo's top left corner that puts it in the centre.
fn center_offset(fg: &RgbImage, width: u32, height: u32) -> (r: (i32, i32))
    requires
        fg@.width <= width,
        fg@.height <= height,
    ensures
        r.0 == centred(width as int, fg@.width),
        r.1 == centred(height as int, fg@.height),
{
    (((width - fg.width) / 2) as i32, ((height - fg.height) / 2) as i32)
}

/// A solid colour with the photo centred on top.
fn pad(pm: Canvas, fg: &RgbImage, colour: [u8; 3]) -> (r: Canvas)
    requires
        fg@.width <= pm@.width,
        fg@.height <= pm@.height,
    ensures
        framed(r@, pm@.width, pm@.height, fg@, solid(colour[0], colour[1], colour[2])),
{
    let (ox, oy) = center_offset(fg, pm.width, pm.height);
    blit_rgb(fill(pm, colour), fg, ox, oy)
}

/// The picture `backing`, which is as large as the canvas, with the photo centred
/// on top.
pub fn mount(pm: Canvas, fg: &RgbImage, backing: &RgbImage) -> (r: Canvas)
    requires
        fg@.width <= pm@.width,
        fg@.height <= pm@.height,
        backing@.width == pm@.width,
        backing@.height == pm@.height,
    ensures
        framed(r@, pm@.width, pm@.height, fg@, backdrop(backing@)),
{
    let (ox, oy) = center_offset(fg, pm.width, pm.height);
    blit_rgb(blit_rgb(pm, backing, 0, 0), fg, ox, oy)
}

/// The bytes of the photo of `width` by `height` pixels with the bytes `data`,
/// resampled to `new_width` by `new_height` pixels.
pub uninterp spec fn resized(
    data: Seq<u8>,
    width: u32,
    height: u32,
    new_width: u32,
    new_height: u32,
) -> Seq<u8>;

/// Whether `result` is a Gaussian blur of the given standard deviation of the photo
/// of `width` by `height` pixels with the bytes `data`. The weights of the blur are
/// rounded as the machine rounds them, so there may be more than one.
pub uninterp spec fn is_blur(
    data: Seq<u8>,
    width: u32,
    height: u32,
    sigma: u8,
    result: Seq<u8>,
) -> bool;

/// The longest side that is resampled. The middle of every pixel of such a side is a
/// single-precision number; on a longer side the last one need not be, and may be
/// taken for a place beyond the photo.
pub const MAX_BLUR_SIDE: u32 = 8_388_608;

/// Standard deviation of the blurred border, in pixels.
pub const BLUR_SIGMA: u8 = 24;

/// Whether a picture of this size can be resampled and blurred in memory: a pixel
/// takes up to sixteen bytes on the way, and the rows that the blur adds above and
/// below up to a kilobyte for each column.
pub open spec fn blurrable(width: u32, height: u32) -> bool {
    &&& width <= MAX_BLUR_SIDE
    &&& height <= MAX_BLUR_SIDE
    &&& width * height * 16 <= isize::MAX
    &&& width * 1024 <= isize::MAX
}

/// Whether a picture of this size can be resampled and blurred in memory.
pub fn is_blurrable(width: u32, height: u32) -> (r: bool)
    ensures
        r == blurrable(width, height),
{
    let most: u128 = isize::MAX as u128;
    let pixels: u128 = mul_sides(width, height) as u128;
    width <= MAX_BLUR_SIDE && height <= MAX_BLUR_SIDE && pixels * 16 <= most && width as u128 * 1024
        <= most
}

/// `image::imageops::resize` with its triangle filter: a picture of the requested
/// size, computed from the photo by single-precision sums and products alone.
#[verifier::external_body]
fn resize(width: u32, height: u32, data: &Vec<u8>, new_width: u32, new_height: u32) -> (r: Vec<u8>)
    requires
        data@.len() == width * height * 3,
        width <= new_width,
        height <= new_height,
        blurrable(new_width, new_height),
    ensures
        r@ == resized(data@, width, height, new_width, new_height),
        r@.len() == new_width * new_height * 3,
{
    let photo = image::RgbImage::from_raw(width, height, data.clone()).unwrap();
    let filter = image::imageops::FilterType::Triangle;
    image::imageops::resize(&photo, new_width, new_height, filter).into_raw()
}

/// `image::imageops::blur`: a picture of the same size. The exponential function
/// behind its weights is only as exact as the machine's, so its pixels are not
/// fixed here.
#[verifier::external_body]
fn gaussian(width: u32, height: u32, data: Vec<u8>, sigma: u8) -> (r: Vec<u8>)
    requires
        data@.len() == width * height * 3,
        0 < width,
        0 < height,
        0 < sigma <= BLUR_SIGMA,
        blurrable(width, height),
    ensures
        is_blur(data@, width, height, sigma, r@),
        r@.len() == width * height * 3,
{
    let photo = image::RgbImage::from_raw(width, height, data).unwrap();
    image::imageops::blur(&photo, sigma.into()).into_raw()
}

/// Whether `backing` is a blurred copy of `photo` stretched over a screen of the
/// given size.
pub open spec fn blurred_cover(photo: Picture, width: u32, height: u32, backing: Picture) -> bool {
    &&& backing.width == width
    &&& backing.height == height
    &&& is_blur(
        resized(photo.data, photo.width as u32, photo.height as u32, width, height),
        width,
        height,
        BLUR_SIGMA,
        backing.data,
    )
}

/// Whether `r` shows `photo` over some blurred copy of itself.
pub open spec fn framed_by_blur(r: Raster, width: u32, height: u32, photo: Picture) -> bool {
    exists|backing: Picture|
        blurred_cover(photo, width, height, backing) && #[trigger] framed(
            r,
            width as int,
            height as int,
            photo,
            backdrop(backing),
        )
}

/// A blurred copy of the photo, stretched over the screen, with the photo centred
/// on top.
fn blur(pm: Canvas, fg: &RgbImage) -> (r: Canvas)
    requires
        fg@.width <= pm@.width,
        fg@.height <= pm@.height,
        blurrable(pm@.width as u32, pm@.height as u32),
    ensures
        framed_by_blur(r@, pm@.width as u32, pm@.height as u32, fg@),
{
    proof {
        use_type_invariant(&pm);
        use_type_invariant(fg);
    }
    let (w, h): (u32, u32) = (pm.width, pm.height);
    let cover = resize(fg.width, fg.height, &fg.data, w, h);
    let backing = RgbImage { width: w, height: h, data: gaussian(w, h, cover, BLUR_SIGMA) };
    let r = mount(pm, fg, &backing);
    assert(blurred_cover(fg@, w, h, backing@));
    r
}

/// The error for a photo that is too large.
pub open spec fn too_large(photo: Picture, width: u32, height: u32) -> Seq<char> {
    "returned image "@ + decimal(photo.width as nat) + "×"@ + decimal(photo.height as nat)
        + " is larger than requested "@ + decimal(width as nat) + "×"@ + decimal(height as nat)
}

/// The error for a size that no pixel map can have.
pub open spec fn not_allocated(width: u32, height: u32) -> Seq<char> {
    "failed to allocate "@ + decimal(width as nat) + "x"@ + decimal(height as nat) + " pixmap"@
}

/// The error for a size that no pixel map can have.
pub fn allocation_error(width: u32, height: u32) -> (r: String)
    ensures
        r@ == not_allocated(width, height),
{
    let mut m = "failed to allocate ".to_owned();
    push_decimal(&mut m, width as u64);
    m.append("x");
    push_decimal(&mut m, height as u64);
    m.append(" pixmap");
    m
}

/// The photo on a screen of exactly the requested size. A photo that is larger than
/// the screen along either side is an error; around a smaller one goes the
/// background.
pub fn apply(img: RgbImage, width: u32, height: u32, method: &BackgroundMethod) -> (r: Result<
    Canvas,
    String,
>)
    requires
        in_memory(width, height),
        method is Blur ==> img@.width <= width && img@.height <= height && (img@.width != width
            || img@.height != height) && allocatable(width, height) ==> blurrable(width, height),
    ensures
        ({
            let fits = img@.width <= width && img@.height <= height;
            &&& !fits ==> r is Err && r->Err_0@ == too_large(img@, width, height)
            &&& fits && !allocatable(width, height) ==> r is Err && r->Err_0@ == not_allocated(
                width,
                height,
            )
            &&& fits && allocatable(width, height) ==> r is Ok && match method {
                BackgroundMethod::Solid(c) => framed(
                    r->Ok_0@,
                    width as int,
                    height as int,
                    img@,
                    solid(c.red, c.green, c.blue),
                ),
                BackgroundMethod::Blur => if img@.width == width && img@.height == height {
                    framed(r->Ok_0@, width as int, height as int, img@, backdrop(img@))
                } else {
                    framed_by_blur(r->Ok_0@, width, height, img@)
                },
            }
        }),
{
    if img.width > width || img.height > height {
        let mut m = "returned image ".to_owned();
        push_decimal(&mut m, img.width as u64);
        m.append("×");
        push_decimal(&mut m, img.height as u64);
        m.append(" is larger than requested ");
        push_decimal(&mut m, width as u64);
        m.append("×");
        push_decimal(&mut m, height as u64);
        return Err(m);
    }
    match Canvas::new(width, height) {
        None => Err(allocation_error(width, height)),
        Some(pm) => {
            if img.width == width && img.height == height {
                Ok(blit_rgb(pm, &img, 0, 0))
            } else {
                match method {
                    BackgroundMethod::Solid(colour) => Ok(pad(pm, &img, colour.to_rgb())),
                    BackgroundMethod::Blur => Ok(blur(pm, &img)),
                }
            }
        },
    }
}

/// Every pixel of the photo is shown, and the margins on opposite sides are as
/// equal as whole pixels allow.
pub proof fn law_whole_photo_is_shown(
    r: Raster,
    width: int,
    height: int,
    photo: Picture,
    border: spec_fn(int, int) -> (u8, u8, u8),
    u: int,
    v: int,
)
    requires
        framed(r, width, height, photo, border),
        photo.width <= width,
        photo.height <= height,
        photo.has(u, v),
    ensures
        r.has(u + centred(width, photo.width), v + centred(height, photo.height)),
        r.at(u + centred(width, photo.width), v + centred(height, photo.height)) == opaque(
            photo.at(u, v),
        ),
        0 <= (width - photo.width - centred(width, photo.width)) - centred(width, photo.width) <= 1,
        0 <= (height - photo.height - centred(height, photo.height)) - centred(
            height,
            photo.height,
        ) <= 1,
{
}

/// A photo of exactly the size of the screen is shown as it is, whatever the
/// background.
pub proof fn law_exact_size_passes_through(
    r: Raster,
    photo: Picture,
    border: spec_fn(int, int) -> (u8, u8, u8),
    x: int,
    y: int,
)
    requires
        framed(r, photo.width, photo.height, photo, border),
        photo.has(x, y),
    ensures
        r.at(x, y) == opaque(photo.at(x, y)),
{
}

/// A photo that fits stands in the centre of a canvas of exactly the requested size,
/// pixel for pixel and opaque, and a solid background fills the rest, whatever its alpha.
pub proof fn law_photo_is_centred(
    img: RgbImage,
    width: u32,
    height: u32,
    method: &BackgroundMethod,
    r: Result<Canvas, String>,
)
    requires
        call_ensures(apply, (img, width, height, method), r),
        width > 0 && height > 0 && width * 4 <= i32::MAX && width * height * 4 <= usize::MAX,
        img@.width <= width && img@.height <= height,
    ensures
        r is Ok,
        r->Ok_0@.width == width && r->Ok_0@.height == height,
        forall|x: int, y: int|
            0 <= x - (width - img@.width) / 2 < img@.width && 0 <= y - (height - img@.height) / 2
                < img@.height ==> #[trigger] r->Ok_0@.at(x, y) == (
                img@.at(x - (width - img@.width) / 2, y - (height - img@.height) / 2).0,
                img@.at(x - (width - img@.width) / 2, y - (height - img@.height) / 2).1,
                img@.at(x - (width - img@.width) / 2, y - (height - img@.height) / 2).2,
                255u8,
            ),
        method matches BackgroundMethod::Solid(c) ==> forall|x: int, y: int|
            0 <= x < width && 0 <= y < height && !(0 <= x - (width - img@.width) / 2 < img@.width
                && 0 <= y - (height - img@.height) / 2 < img@.height)
                ==> #[trigger] r->Ok_0@.at(x, y) == (c.red, c.green, c.blue, 255u8),
{
    let canvas = r->Ok_0@;
    assert forall|x: int, y: int|
        0 <= x - (width - img@.width) / 2 < img@.width && 0 <= y - (height - img@.height) / 2
            < img@.height implies #[trigger] canvas.at(x, y) == (
        img@.at(x - (width - img@.width) / 2, y - (height - img@.height) / 2).0,
        img@.at(x - (width - img@.width) / 2, y - (height - img@.height) / 2).1,
        img@.at(x - (width - img@.width) / 2, y - (height - img@.height) / 2).2,
        255u8,
    ) by {
        assert(canvas.has(x, y));
        assert(img@.has(x - (width - img@.width) / 2, y - (height - img@.height) / 2));
    }
    if let BackgroundMethod::Solid(c) = method {
        assert forall|x: int, y: int|
            0 <= x < width && 0 <= y < height && !(0 <= x - (width - img@.width) / 2 < img@.width
                && 0 <= y - (height - img@.height) / 2 < img@.height) implies #[trigger] canvas.at(
            x,
            y,
        ) == (c.red, c.green, c.blue, 255u8) by {
            assert(canvas.has(x, y));
        }
    }
}

/// A blurred background is a Gaussian blur, with a standard deviation of 24 pixels, of
/// the photo stretched over the whole canvas: it is what stands around the photo.
pub proof fn law_border_is_a_blur_of_the_photo(
    img: RgbImage,
    width: u32,
    height: u32,
    r: Result<Canvas, String>,
)
    requires
        call_ensures(apply, (img, width, height, &BackgroundMethod::Blur), r),
        width > 0 && height > 0 && width * 4 <= i32::MAX && width * height * 4 <= usize::MAX,
        img@.width <= width && img@.height <= height,
        img@.width < width || img@.height < height,
    ensures
        r is Ok,
        exists|blurred: Seq<u8>| #[trigger]
            is_blur(
                resized(img@.data, img@.width as u32, img@.height as u32, width, height),
                width,
                height,
                24,
                blurred,
            ) && forall|x: int, y: int|
                0 <= x < width && 0 <= y < height && !(0 <= x - (width - img@.width) / 2
                    < img@.width && 0 <= y - (height - img@.height) / 2 < img@.height)
                    ==> #[trigger] r->Ok_0@.at(x, y) == (
                    blurred[(y * width + x) * 3],
                    blurred[(y * width + x) * 3 + 1],
                    blurred[(y * width + x) * 3 + 2],
                    255u8,
                ),
{
    let canvas = r->Ok_0@;
    assert(framed_by_blur(canvas, width, height, img@));
    let backing = choose|backing: Picture|
        blurred_cover(img@, width, height, backing) && #[trigger] framed(
            canvas,
            width as int,
            height as int,
            img@,
            backdrop(backing),
        );
    let blurred = backing.data;
    assert(is_blur(
        resized(img@.data, img@.width as u32, img@.height as u32, width, height),
        width,
        height,
        24,
        blurred,
    ));
    assert forall|x: int, y: int|
        0 <= x < width && 0 <= y < height && !(0 <= x - (width - img@.width) / 2 < img@.width && 0
            <= y - (height - img@.height) / 2 < img@.height) implies #[trigger] canvas.at(x, y) == (
        blurred[(y * width + x) * 3],
        blurred[(y * width + x) * 3 + 1],
        blurred[(y * width + x) * 3 + 2],
        255u8,
    ) by {
        assert(canvas.has(x, y));
    }
}

/// A photo that is larger than the canvas along either side is refused, and the error
/// names both sizes; so is a canvas without pixels.
pub proof fn law_oversized_photo_is_refused(
    img: RgbImage,
    width: u32,
    height: u32,
    method: &BackgroundMethod,
    r: Result<Canvas, String>,
)
    requires
        call_ensures(apply, (img, width, height, method), r),
    ensures
        img@.width > width || img@.height > height ==> r is Err && r->Err_0@ == "returned image "@
            + decimal(img@.width as nat) + "×"@ + decimal(img@.height as nat)
            + " is larger than requested "@ + decimal(width as nat) + "×"@ + decimal(height as nat),
        img@.width <= width && img@.height <= height && (width == 0 || height == 0) ==> r is Err
            && r->Err_0@ == "failed to allocate "@ + decimal(width as nat) + "x"@ + decimal(
            height as nat,
        ) + " pixmap"@,
{
}

/// A filled canvas has one opaque colour, and its size stays.
pub proof fn law_filled_canvas_has_one_colour(
    pm: Canvas,
    colour: [u8; 3],
    r: Canvas,
    x: int,
    y: int,
)
    requires
        call_ensures(fill, (pm, colour), r),
        0 <= x < pm@.width,
        0 <= y < pm@.height,
    ensures
        r@.width == pm@.width,
        r@.height == pm@.height,
        r@.at(x, y) == (colour[0], colour[1], colour[2], 255u8),
{
    assert(painted(r@, colour[0], colour[1], colour[2]));
    assert(r@.has(x, y));
}

/// A mounted photo stands in the centre of its backing, which shows everywhere else.
pub proof fn law_photo_is_mounted(
    pm: Canvas,
    fg: &RgbImage,
    backing: &RgbImage,
    r: Canvas,
    x: int,
    y: int,
)
    requires
        call_ensures(mount, (pm, fg, backing), r),
        0 <= x < pm@.width,
        0 <= y < pm@.height,
    ensures
        r@.width == pm@.width,
        r@.height == pm@.height,
        ({
            let u = x - (pm@.width - fg@.width) / 2;
            let v = y - (pm@.height - fg@.height) / 2;
            if 0 <= u < fg@.width && 0 <= v < fg@.height {
                r@.at(x, y) == (fg@.at(u, v).0, fg@.at(u, v).1, fg@.at(u, v).2, 255u8)
            } else {
                r@.at(x, y) == (
                    backing@.at(x, y).0,
                    backing@.at(x, y).1,
                    backing@.at(x, y).2,
                    255u8,
                )
            }
        }),
{
    assert(r@.has(x, y));
}

/// The pixels of a canvas lie row by row, four bytes each, and those of a photo three
/// bytes each.
pub proof fn law_pixels_lie_row_by_row(
    canvas: &Canvas,
    x: u32,
    y: u32,
    r: Option<(u8, u8, u8, u8)>,
    photo: &RgbImage,
)
    requires
        call_ensures(Canvas::pixel, (canvas, x, y), r),
    ensures
        r is Some <==> x < canvas@.width && y < canvas@.height,
        r is Some ==> r->0 == (
            canvas@.data[(y * canvas@.width + x) * 4],
            canvas@.data[(y * canvas@.width + x) * 4 + 1],
            canvas@.data[(y * canvas@.width + x) * 4 + 2],
            canvas@.data[(y * canvas@.width + x) * 4 + 3],
        ),
        photo@.at(x as int, y as int) == (
            photo@.data[(y * photo@.width + x) * 3],
            photo@.data[(y * photo@.width + x) * 3 + 1],
            photo@.data[(y * photo@.width + x) * 3 + 2],
        ),
{
}

/// A photo is made of as many bytes as its size takes, and keeps them.
pub proof fn law_photo_keeps_its_bytes(width: u32, height: u32, data: Vec<u8>, r: Option<RgbImage>)
    requires
        call_ensures(RgbImage::from_raw, (width, height, data), r),
    ensures
        r is Some <==> data@.len() == width * height * 3,
        r is Some ==> r->0@.width == width && r->0@.height == height && r->0@.data == data@,
{
}

/// A new canvas is transparent and has the size that is asked for; there is one exactly
/// where its pixels can be described.
pub proof fn law_new_canvas_is_transparent(width: u32, height: u32, r: Option<Canvas>, i: int)
    requires
        call_ensures(Canvas::new, (width, height), r),
    ensures
        r is Some <==> width > 0 && height > 0 && width * 4 <= i32::MAX && width * height * 4
            <= usize::MAX,
        r is Some ==> r->0@.width == width && r->0@.height == height && r->0@.data.len() == width
            * height * 4,
        r is Some && 0 <= i < width * height * 4 ==> r->0@.data[i] == 0,
{
}

/// A canvas is made of as many bytes as its size takes, if that is any, and keeps them.
pub proof fn law_canvas_keeps_its_bytes(width: u32, height: u32, data: Vec<u8>, r: Option<Canvas>)
    requires
        call_ensures(Canvas::from_raw, (width, height, data), r),
    ensures
        r is Some <==> width > 0 && height > 0 && data@.len() == width * height * 4,
        r is Some ==> r->0@.width == width && r->0@.height == height && r->0@.data == data@,
{
}

} // verus!
