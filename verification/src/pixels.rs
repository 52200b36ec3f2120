//! The pixel grid that a camera renders into: an `RgbImage` of the `image`
//! crate. Nothing in this file is proved. Each function states what the
//! method of `image::ImageBuffer` that it calls does to the grid.

use vstd::prelude::*;

verus! {

/// One pixel: red, green and blue, eight bits each.
#[derive(Clone, Copy, Debug, PartialEq, Eq, Hash, Structural)]
pub struct Rgb {
    pub r: u8,
    pub g: u8,
    pub b: u8,
}

impl Rgb {
    /// No light in any channel.
    pub open spec fn spec_black() -> Rgb {
        Rgb { r: 0, g: 0, b: 0 }
    }

    #[verifier::when_used_as_spec(spec_black)]
    pub fn black() -> (rgb: Rgb)
        ensures
            rgb == Rgb::spec_black(),
    {
        Rgb { r: 0, g: 0, b: 0 }
    }

    pub fn new(r: u8, g: u8, b: u8) -> (rgb: Rgb)
        ensures
            rgb == (Rgb { r, g, b }),
    {
        Rgb { r, g, b }
    }
}

/// An `image::RgbImage`. Verus sees of it only what `buffer_dimensions` and
/// `buffer_pixels` say.
#[verifier::external_body]
pub struct PixelBuffer {
    image: image::RgbImage,
}

/// The width and the height that the grid was made with, in this order.
pub uninterp spec fn buffer_dimensions(buffer: PixelBuffer) -> (u32, u32);

/// The pixels of the grid row by row, the top row first, each row from left
/// to right: the pixel in column `x` of row `y` stands at `y * width + x`.
pub uninterp spec fn buffer_pixels(buffer: PixelBuffer) -> Seq<Rgb>;

impl PixelBuffer {
    /// `ImageBuffer::new`: a grid of `width` by `height` pixels, all of them
    /// zero in every channel. The call panics where three bytes per pixel
    /// cannot be allocated, which `requires` rules out.
    #[verifier::external_body]
    pub(crate) fn new(width: u32, height: u32) -> (buffer: PixelBuffer)
        requires
            3 * width * height <= isize::MAX,
        ensures
            buffer_dimensions(buffer) == (width, height),
            buffer_pixels(buffer) == Seq::new((width * height) as nat, |i: int| Rgb::black()),
    {
        PixelBuffer { image: image::RgbImage::new(width, height) }
    }

    /// `ImageBuffer::dimensions`: the width and height given at construction.
    #[verifier::external_body]
    pub(crate) fn dimensions(&self) -> (dimensions: (u32, u32))
        ensures
            dimensions == buffer_dimensions(*self),
    {
        self.image.dimensions()
    }

    /// `ImageBuffer::get_pixel`: the pixel in column `x` of row `y`. The call
    /// panics outside the grid, which `requires` rules out.
    #[verifier::external_body]
    pub(crate) fn get_pixel(&self, x: u32, y: u32) -> (pixel: Rgb)
        requires
            x < buffer_dimensions(*self).0,
            y < buffer_dimensions(*self).1,
        ensures
            pixel == buffer_pixels(*self)[y * buffer_dimensions(*self).0 + x],
    {
        let pixel = self.image.get_pixel(x, y);
        Rgb { r: pixel[0], g: pixel[1], b: pixel[2] }
    }

    /// `ImageBuffer::put_pixel`: replaces the pixel in column `x` of row `y`
    /// and no other; the grid keeps its size. The call panics outside the
    /// grid, which `requires` rules out.
    #[verifier::external_body]
    pub(crate) fn put_pixel(&mut self, x: u32, y: u32, pixel: Rgb)
        requires
            x < buffer_dimensions(*old(self)).0,
            y < buffer_dimensions(*old(self)).1,
        ensures
            buffer_dimensions(*final(self)) == buffer_dimensions(*old(self)),
            buffer_pixels(*final(self)) == buffer_pixels(*old(self)).update(
                y * buffer_dimensions(*old(self)).0 + x,
                pixel,
            ),
        no_unwind
    {
        self.image.put_pixel(x, y, image::Rgb([pixel.r, pixel.g, pixel.b]));
    }
}

} // verus!
