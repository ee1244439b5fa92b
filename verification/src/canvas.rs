//! The bitmap that a glyph is drawn on: `bmp::Image` and `bmp::Pixel`, with
//! what this library takes for granted about them.

use vstd::prelude::*;

verus! {

/// `bmp::Pixel`: a colour as its red, green and blue channels. The three
/// fields are public in `bmp` and are read as they are.
#[verifier::external_type_specification]
pub struct ExPixel(bmp::Pixel);

/// `bmp::Image`: a rectangle of pixels. Its fields are private to its crate;
/// `pixels` says what it holds.
#[verifier::external_type_specification]
#[verifier::external_body]
pub struct ExImage(bmp::Image);

/// The pixels of an image, by position `(x, y)` with `(0, 0)` the upper left
/// corner. The positions of the map are those of the image.
pub uninterp spec fn pixels(image: bmp::Image) -> Map<(int, int), (u8, u8, u8)>;

/// A pixel as a plain triple `(red, green, blue)`.
pub open spec fn rgb(pixel: bmp::Pixel) -> (u8, u8, u8) {
    (pixel.r, pixel.g, pixel.b)
}

/// The largest width and height that `new_image` is asked for. Up to this
/// size none of the 32-bit computations that `bmp` makes on the size of the
/// image overflows.
pub const MAX_SIDE: u32 = 1024;

/// Calls `bmp::Image::new`, which makes an image of the given size with
/// every pixel black.
#[verifier::external_body]
pub(crate) fn new_image(width: u32, height: u32) -> (image: bmp::Image)
    requires
        width <= MAX_SIDE,
        height <= MAX_SIDE,
    ensures
        pixels(image) == Map::new(
            |at: (int, int)| 0 <= at.0 < width && 0 <= at.1 < height,
            |at: (int, int)| (0u8, 0u8, 0u8),
        ),
{
    bmp::Image::new(width, height)
}

/// Calls `bmp::Image::set_pixel`, which overwrites the pixel at `(x, y)` and
/// leaves the others as they were. The position must lie in the image.
#[verifier::external_body]
pub(crate) fn set_pixel(image: &mut bmp::Image, x: u32, y: u32, value: bmp::Pixel)
    requires
        pixels(*old(image)).dom().contains((x as int, y as int)),
    ensures
        pixels(*final(image)) == pixels(*old(image)).insert((x as int, y as int), rgb(value)),
{
    image.set_pixel(x, y, value)
}

/// Calls `bmp::Image::get_pixel`, which reads the pixel at `(x, y)`. The
/// position must lie in the image.
#[verifier::external_body]
pub(crate) fn get_pixel(image: &bmp::Image, x: u32, y: u32) -> (value: bmp::Pixel)
    requires
        pixels(*image).dom().contains((x as int, y as int)),
    ensures
        rgb(value) == pixels(*image)[(x as int, y as int)],
{
    image.get_pixel(x, y)
}

} // verus!
