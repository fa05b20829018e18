//! Decoded images, kept in the buffers of the `image` crate.
//!
//! What this file states of a buffer is believed, not proved: each function
//! below is one call into `image`, and its contract says what the source of
//! `image::ImageBuffer` shows of that call. A buffer keeps its samples row
//! by row, each row from left to right, the channels of a pixel side by
//! side.
use vstd::prelude::*;

verus! {

/// An image of four 8-bit channels a pixel: red, green, blue, alpha. It
/// holds an `image::RgbaImage`.
#[verifier::external_body]
pub struct RgbaPixels {
    inner: image::RgbaImage,
}

/// An image of two 8-bit channels a pixel: luminance, alpha. It holds an
/// `image::GrayAlphaImage`.
#[verifier::external_body]
pub struct GrayAlphaPixels {
    inner: image::GrayAlphaImage,
}

/// The number of pixels in a row of an RGBA image.
pub uninterp spec fn rgba_width(pixels: RgbaPixels) -> u32;

/// The number of rows of an RGBA image.
pub uninterp spec fn rgba_height(pixels: RgbaPixels) -> u32;

/// The samples that an RGBA image keeps, four a pixel.
pub uninterp spec fn rgba_samples(pixels: RgbaPixels) -> Seq<u8>;

/// The number of pixels in a row of a luminance-alpha image.
pub uninterp spec fn gray_alpha_width(pixels: GrayAlphaPixels) -> u32;

/// The number of rows of a luminance-alpha image.
pub uninterp spec fn gray_alpha_height(pixels: GrayAlphaPixels) -> u32;

/// The samples that a luminance-alpha image keeps, two a pixel.
pub uninterp spec fn gray_alpha_samples(pixels: GrayAlphaPixels) -> Seq<u8>;

/// `ImageBuffer::from_raw` for four channels. It takes the samples as they
/// are, and refuses them only where they are fewer than `4 * width * height`
/// or that product does not fit the machine's word.
#[verifier::external_body]
pub(crate) fn rgba_from_raw(
    width: u32,
    height: u32,
    samples: Vec<u8>,
) -> (made: Option<RgbaPixels>)
    ensures
        made.is_some() == (4 * width <= usize::MAX && 4 * width * height <= samples@.len()),
        made matches Some(pixels) ==> rgba_width(pixels) == width && rgba_height(pixels) == height
            && rgba_samples(pixels) == samples@,
{
    match image::RgbaImage::from_raw(width, height, samples) {
        Some(inner) => Some(RgbaPixels { inner }),
        None => None,
    }
}

/// `ImageBuffer::dimensions` for four channels: width, then height.
#[verifier::external_body]
pub(crate) fn rgba_dimensions(pixels: &RgbaPixels) -> (size: (u32, u32))
    ensures
        size.0 == rgba_width(*pixels),
        size.1 == rgba_height(*pixels),
{
    pixels.inner.dimensions()
}

/// `ImageBuffer::get_pixel` for four channels: the four samples of the pixel
/// in column `x` of row `y`. Outside the image it would panic.
#[verifier::external_body]
pub(crate) fn rgba_get_pixel(pixels: &RgbaPixels, x: u32, y: u32) -> (channels: Vec<u8>)
    requires
        x < rgba_width(*pixels),
        y < rgba_height(*pixels),
    ensures
        channels@.len() == 4,
        forall|c: int|
            0 <= c < 4 ==> #[trigger] channels@[c] == rgba_samples(*pixels)[(y * rgba_width(
                *pixels,
            ) + x) * 4 + c],
{
    pixels.inner.get_pixel(x, y).0.to_vec()
}

/// `ImageBuffer::from_raw` for two channels. It takes the samples as they
/// are, and refuses them only where they are fewer than `2 * width * height`
/// or that product does not fit the machine's word.
#[verifier::external_body]
pub(crate) fn gray_alpha_from_raw(
    width: u32,
    height: u32,
    samples: Vec<u8>,
) -> (made: Option<GrayAlphaPixels>)
    ensures
        made.is_some() == (2 * width <= usize::MAX && 2 * width * height <= samples@.len()),
        made matches Some(pixels) ==> gray_alpha_width(pixels) == width && gray_alpha_height(
            pixels,
        ) == height && gray_alpha_samples(pixels) == samples@,
{
    match image::GrayAlphaImage::from_raw(width, height, samples) {
        Some(inner) => Some(GrayAlphaPixels { inner }),
        None => None,
    }
}

/// `ImageBuffer::dimensions` for two channels: width, then height.
#[verifier::external_body]
pub(crate) fn gray_alpha_dimensions(pixels: &GrayAlphaPixels) -> (size: (u32, u32))
    ensures
        size.0 == gray_alpha_width(*pixels),
        size.1 == gray_alpha_height(*pixels),
{
    pixels.inner.dimensions()
}

/// `ImageBuffer::get_pixel` for two channels: the two samples of the pixel
/// in column `x` of row `y`. Outside the image it would panic.
#[verifier::external_body]
pub(crate) fn gray_alpha_get_pixel(
    pixels: &GrayAlphaPixels,
    x: u32,
    y: u32,
) -> (channels: Vec<u8>)
    requires
        x < gray_alpha_width(*pixels),
        y < gray_alpha_height(*pixels),
    ensures
        channels@.len() == 2,
        forall|c: int|
            0 <= c < 2 ==> #[trigger] channels@[c] == gray_alpha_samples(*pixels)[(y
                * gray_alpha_width(*pixels) + x) * 2 + c],
{
    pixels.inner.get_pixel(x, y).0.to_vec()
}

/// An image of three 8-bit channels a pixel: red, green, blue. It holds an
/// `image::RgbImage`, made by `ImageBuffer::new` and by nothing else.
#[verifier::external_body]
pub struct Canvas {
    inner: image::RgbImage,
}

/// The number of pixels in a row of a canvas.
pub uninterp spec fn canvas_width(canvas: Canvas) -> u32;

/// The number of rows of a canvas.
pub uninterp spec fn canvas_height(canvas: Canvas) -> u32;

/// The pixels of a canvas, each under its column and row.
pub uninterp spec fn canvas_pixels(canvas: Canvas) -> Map<(int, int), (u8, u8, u8)>;

/// `ImageBuffer::new` for three channels: an image of the given size with
/// every sample 0. It would panic where the samples of a row do not fit the
/// machine's word, or those of the image are more than a vector can hold.
#[verifier::external_body]
pub(crate) fn canvas_new(width: u32, height: u32) -> (canvas: Canvas)
    requires
        3 * width <= usize::MAX,
        3 * width * height <= isize::MAX,
    ensures
        canvas_width(canvas) == width,
        canvas_height(canvas) == height,
        canvas_pixels(canvas) == Map::new(
            |at: (int, int)| 0 <= at.0 < width && 0 <= at.1 < height,
            |at: (int, int)| (0u8, 0u8, 0u8),
        ),
{
    Canvas { inner: image::RgbImage::new(width, height) }
}

/// `ImageBuffer::dimensions` for three channels: width, then height.
#[verifier::external_body]
pub(crate) fn canvas_dimensions(canvas: &Canvas) -> (size: (u32, u32))
    ensures
        size.0 == canvas_width(*canvas),
        size.1 == canvas_height(*canvas),
{
    canvas.inner.dimensions()
}

/// `ImageBuffer::put_pixel` for three channels: it overwrites the pixel in
/// column `x` of row `y` and leaves every other pixel and the size as they
/// were. Outside the image it would panic.
#[verifier::external_body]
pub(crate) fn canvas_put_pixel(canvas: &mut Canvas, x: u32, y: u32, colour: (u8, u8, u8))
    requires
        x < canvas_width(*old(canvas)),
        y < canvas_height(*old(canvas)),
    ensures
        canvas_width(*final(canvas)) == canvas_width(*old(canvas)),
        canvas_height(*final(canvas)) == canvas_height(*old(canvas)),
        canvas_pixels(*final(canvas)) == canvas_pixels(*old(canvas)).insert(
            (x as int, y as int),
            colour,
        ),
{
    canvas.inner.put_pixel(x, y, image::Rgb([colour.0, colour.1, colour.2]))
}

/// `ImageBuffer::into_raw` for three channels: the samples row by row, each
/// row from left to right, three a pixel.
#[verifier::external_body]
pub(crate) fn canvas_into_raw(canvas: Canvas) -> (samples: Vec<u8>)
    ensures
        samples@.len() == 3 * canvas_width(canvas) * canvas_height(canvas),
        forall|x: int, y: int|
            0 <= x < canvas_width(canvas) && 0 <= y < canvas_height(canvas) ==> {
                &&& samples@[(y * canvas_width(canvas) + x) * 3] == (#[trigger] canvas_pixels(
                    canvas,
                )[(x, y)]).0
                &&& samples@[(y * canvas_width(canvas) + x) * 3 + 1] == canvas_pixels(canvas)[(
                    x,
                    y,
                )].1
                &&& samples@[(y * canvas_width(canvas) + x) * 3 + 2] == canvas_pixels(canvas)[(
                    x,
                    y,
                )].2
            },
{
    canvas.inner.into_raw()
}

} // verus!
