use vstd::prelude::*;

verus! {

/// A color image: `width x height` pixels, each three bytes (red, green,
/// blue), stored row by row.
pub struct SourceImage {
    pub width: u32,
    pub height: u32,
    pub pixels: Vec<u8>,
}

/// A single-channel 8-bit image, stored row by row.
pub struct GrayscaleBuffer {
    pub width: u32,
    pub height: u32,
    pub pixels: Vec<u8>,
}

/// A single-channel signed 16-bit image (a gradient component), row by row.
pub struct GradientBuffer {
    pub width: u32,
    pub height: u32,
    pub values: Vec<i16>,
}

impl SourceImage {
    pub open spec fn wf(&self) -> bool {
        self.pixels@.len() == self.width as nat * self.height as nat * 3
    }

    /// Builds an image from its raw row-major RGB bytes; `None` when the
    /// byte count is not `3 * width * height`.
    pub fn from_rgb(width: u32, height: u32, pixels: Vec<u8>) -> (r: Option<SourceImage>)
        ensures
            r.is_some() <==> pixels@.len() == width as nat * height as nat * 3,
            r matches Some(img) ==> img.wf() && img.width == width && img.height == height
                && img.pixels@ == pixels@,
    {
        let n = pixels.len() as u64;
        proof {
            let (a, b) = (width as nat, height as nat);
            assert(a * b <= 0xffff_ffff * 0xffff_ffff) by (nonlinear_arith)
                requires
                    a <= 0xffff_ffff,
                    b <= 0xffff_ffff,
            ;
        }
        let wh: u64 = width as u64 * height as u64;
        let expected: u128 = wh as u128 * 3;
        if n as u128 == expected {
            Some(SourceImage { width, height, pixels })
        } else {
            None
        }
    }
}

impl GrayscaleBuffer {
    pub open spec fn wf(&self) -> bool {
        self.pixels@.len() == self.width as nat * self.height as nat
    }
}

impl GradientBuffer {
    pub open spec fn wf(&self) -> bool {
        self.values@.len() == self.width as nat * self.height as nat
    }
}

/// Perceptual brightness of one RGB pixel with the Rec. 709 weights, in
/// fixed point and rounded down.
pub open spec fn luma_spec(r: u8, g: u8, b: u8) -> u8 {
    ((2126 * r as nat + 7152 * g as nat + 722 * b as nat) / 10000) as u8
}

/// The brightness of each pixel of a row-major RGB byte sequence.
pub open spec fn luma_pixels_spec(rgb: Seq<u8>) -> Seq<u8> {
    Seq::new(rgb.len() / 3, |i: int| luma_spec(rgb[3 * i], rgb[3 * i + 1], rgb[3 * i + 2]))
}

/// What a triangle-filter (linear) area resampling of a row-major image of
/// `channels` bytes per pixel from `width x height` to
/// `new_width x new_height` produces.
pub uninterp spec fn triangle_resized(
    pixels: Seq<u8>,
    channels: nat,
    width: nat,
    height: nat,
    new_width: nat,
    new_height: nat,
) -> Seq<u8>;

/// Coordinate `c` moved to the nearest position inside `[0, n)`.
pub open spec fn clamp_coord(c: int, n: int) -> int {
    if c < 0 {
        0
    } else if c >= n {
        n - 1
    } else {
        c
    }
}

/// Sample of a gray image at `(x, y)`, borders extended by repetition.
pub open spec fn gray_at(g: Seq<u8>, w: int, h: int, x: int, y: int) -> int {
    g[clamp_coord(y, h) * w + clamp_coord(x, w)] as int
}

/// Horizontal Sobel response at `(x, y)`: kernel rows `[-1 0 1]`,
/// `[-2 0 2]`, `[-1 0 1]` laid over the 3x3 neighbourhood.
pub open spec fn sobel_x_at(g: Seq<u8>, w: int, h: int, x: int, y: int) -> int {
    (gray_at(g, w, h, x + 1, y - 1) - gray_at(g, w, h, x - 1, y - 1)) + 2 * (gray_at(
        g,
        w,
        h,
        x + 1,
        y,
    ) - gray_at(g, w, h, x - 1, y)) + (gray_at(g, w, h, x + 1, y + 1) - gray_at(
        g,
        w,
        h,
        x - 1,
        y + 1,
    ))
}

/// Vertical Sobel response at `(x, y)`: kernel rows `[-1 -2 -1]`,
/// `[0 0 0]`, `[1 2 1]` laid over the 3x3 neighbourhood.
pub open spec fn sobel_y_at(g: Seq<u8>, w: int, h: int, x: int, y: int) -> int {
    (gray_at(g, w, h, x - 1, y + 1) + 2 * gray_at(g, w, h, x, y + 1) + gray_at(
        g,
        w,
        h,
        x + 1,
        y + 1,
    )) - (gray_at(g, w, h, x - 1, y - 1) + 2 * gray_at(g, w, h, x, y - 1) + gray_at(
        g,
        w,
        h,
        x + 1,
        y - 1,
    ))
}

/// Horizontal Sobel response of every pixel, row by row.
pub open spec fn sobel_x_image(g: Seq<u8>, w: int, h: int) -> Seq<i16> {
    Seq::new((w * h) as nat, |i: int| sobel_x_at(g, w, h, i % w, i / w) as i16)
}

/// Vertical Sobel response of every pixel, row by row.
pub open spec fn sobel_y_image(g: Seq<u8>, w: int, h: int) -> Seq<i16> {
    Seq::new((w * h) as nat, |i: int| sobel_y_at(g, w, h, i % w, i / w) as i16)
}

/// Relies on image::imageops::grayscale, which maps each RGB pixel to
/// `(2126 r + 7152 g + 722 b) / 10000`.
#[verifier::external_body]
pub(crate) fn to_grayscale(img: &SourceImage) -> (r: GrayscaleBuffer)
    requires
        img.wf(),
    ensures
        r.wf(),
        r.width == img.width,
        r.height == img.height,
        r.pixels@ == luma_pixels_spec(img.pixels@),
{
    let buf = image::RgbImage::from_raw(img.width, img.height, img.pixels.clone()).unwrap();
    let gray = image::imageops::grayscale(&buf);
    GrayscaleBuffer { width: img.width, height: img.height, pixels: gray.into_raw() }
}

/// Relies on image::imageops::resize with the triangle filter on an RGB
/// image: the result has the requested size, and equal sizes give a copy.
#[verifier::external_body]
pub(crate) fn resize_rgb(img: &SourceImage, new_width: u32, new_height: u32) -> (r: Vec<u8>)
    requires
        img.wf(),
        new_width >= 1,
        new_height >= 1,
        new_width as nat * new_height as nat * 3 <= usize::MAX,
    ensures
        r@.len() == new_width as nat * new_height as nat * 3,
        r@ == triangle_resized(
            img.pixels@,
            3,
            img.width as nat,
            img.height as nat,
            new_width as nat,
            new_height as nat,
        ),
        (new_width == img.width && new_height == img.height) ==> r@ == img.pixels@,
{
    let buf = image::RgbImage::from_raw(img.width, img.height, img.pixels.clone()).unwrap();
    let out = image::imageops::resize(&buf, new_width, new_height, image::imageops::FilterType::Triangle);
    out.into_raw()
}

/// Relies on image::imageops::resize with the triangle filter on a gray
/// image: the result has the requested size, and equal sizes give a copy.
#[verifier::external_body]
pub(crate) fn resize_gray(img: &GrayscaleBuffer, new_width: u32, new_height: u32) -> (r: GrayscaleBuffer)
    requires
        img.wf(),
        new_width >= 1,
        new_height >= 1,
        new_width as nat * new_height as nat <= usize::MAX,
    ensures
        r.wf(),
        r.width == new_width,
        r.height == new_height,
        r.pixels@ == triangle_resized(
            img.pixels@,
            1,
            img.width as nat,
            img.height as nat,
            new_width as nat,
            new_height as nat,
        ),
        (new_width == img.width && new_height == img.height) ==> r.pixels@ == img.pixels@,
{
    let buf = image::GrayImage::from_raw(img.width, img.height, img.pixels.clone()).unwrap();
    let out = image::imageops::resize(&buf, new_width, new_height, image::imageops::FilterType::Triangle);
    GrayscaleBuffer { width: new_width, height: new_height, pixels: out.into_raw() }
}

/// Relies on imageproc::gradients::horizontal_sobel: a 3x3 correlation with
/// the horizontal Sobel kernel, borders extended by repetition (the sums stay
/// within `[-1020, 1020]`, so the cast to `i16` never clamps).
#[verifier::external_body]
pub(crate) fn horizontal_sobel(img: &GrayscaleBuffer) -> (r: GradientBuffer)
    requires
        img.wf(),
    ensures
        r.wf(),
        r.width == img.width,
        r.height == img.height,
        r.values@ == sobel_x_image(img.pixels@, img.width as int, img.height as int),
{
    let buf = image::GrayImage::from_raw(img.width, img.height, img.pixels.clone()).unwrap();
    let out = imageproc::gradients::horizontal_sobel(&buf);
    GradientBuffer { width: img.width, height: img.height, values: out.into_raw() }
}

/// Relies on imageproc::gradients::vertical_sobel: a 3x3 correlation with
/// the vertical Sobel kernel, borders extended by repetition (the sums stay
/// within `[-1020, 1020]`, so the cast to `i16` never clamps).
#[verifier::external_body]
pub(crate) fn vertical_sobel(img: &GrayscaleBuffer) -> (r: GradientBuffer)
    requires
        img.wf(),
    ensures
        r.wf(),
        r.width == img.width,
        r.height == img.height,
        r.values@ == sobel_y_image(img.pixels@, img.width as int, img.height as int),
{
    let buf = image::GrayImage::from_raw(img.width, img.height, img.pixels.clone()).unwrap();
    let out = imageproc::gradients::vertical_sobel(&buf);
    GradientBuffer { width: img.width, height: img.height, values: out.into_raw() }
}

} // verus!
