//! The camera: where it stands, what it looks at, the image it renders into,
//! and which primary ray belongs to which pixel.
//!
//! A primary ray is given by the place of its pixel relative to the centre of
//! the image, counted in half pixels so that the centre of an image of even
//! size is a whole number. Turning that place into a direction in space needs
//! the tangent of the field of view and a normalisation, which the caller does.

use vstd::prelude::*;
use vstd::arithmetic::div_mod::lemma_fundamental_div_mod;
use crate::geometry::Point;
use crate::pixels::{buffer_dimensions, buffer_pixels, PixelBuffer, Rgb};
use crate::scalar::Scalar;

verus! {

/// The primary ray through one pixel.
#[derive(Clone, Copy, Debug, PartialEq, Eq, Structural)]
pub struct PixelRay {
    /// The column of the pixel, counted from the left.
    pub column: u32,
    /// The row of the pixel, counted from the top.
    pub row: u32,
    /// Twice the horizontal offset from the image centre: `2 * column - width`.
    pub horizontal: i64,
    /// Twice the vertical offset from the image centre: `height - 2 * row`.
    /// It shrinks as the row grows: lower rows look further down.
    pub vertical: i64,
}

impl PixelRay {
    /// The primary ray through the pixel in `column` and `row` of an image of
    /// `width` by `height` pixels.
    pub open spec fn through(width: u32, height: u32, column: u32, row: u32) -> PixelRay {
        PixelRay {
            column,
            row,
            horizontal: (2 * column - width) as i64,
            vertical: (height - 2 * row) as i64,
        }
    }
}

/// The place of the pixel in `column` and `row` when the pixels of an image
/// `width` pixels wide are listed row by row.
pub open spec fn pixel_index(width: u32, column: u32, row: u32) -> int {
    row * width + column
}

/// The bit pattern of a third of pi, the field of view of the default camera.
pub const THIRD_OF_PI_BITS: u32 = 0x3f86_0a92;

/// A camera with its image.
pub struct Camera {
    fov: Scalar,
    eye: Point,
    target: Point,
    image: PixelBuffer,
}

/// What a camera holds.
pub struct CameraView {
    /// Where the camera stands.
    pub eye: Point,
    /// The point that the camera looks at.
    pub target: Point,
    /// The horizontal field of view, an angle in radians.
    pub fov: Scalar,
    /// The number of pixel columns.
    pub width: u32,
    /// The number of pixel rows.
    pub height: u32,
    /// The pixels row by row, the top row first: the pixel in `column` and
    /// `row` stands at `pixel_index(width, column, row)`.
    pub pixels: Seq<Rgb>,
}

impl CameraView {
    /// The same camera after the pixel in `column` and `row` was set to `rgb`.
    pub open spec fn with_pixel(self, column: u32, row: u32, rgb: Rgb) -> CameraView {
        CameraView { pixels: self.pixels.update(pixel_index(self.width, column, row), rgb), ..self }
    }

    /// The same camera after its first pixels were set to `colors`, one after
    /// the other in the order of `pixels`. Colours beyond the last pixel are
    /// not used; pixels beyond the last colour stay.
    pub open spec fn with_pixels(self, colors: Seq<Rgb>) -> CameraView {
        CameraView {
            pixels: Seq::new(
                self.pixels.len(),
                |i: int|
                    if i < colors.len() {
                        colors[i]
                    } else {
                        self.pixels[i]
                    },
            ),
            ..self
        }
    }

    /// The image as bytes for an encoder: three for each pixel, red, green,
    /// blue, the pixels in the order of `pixels`.
    pub open spec fn raw_pixels(self) -> Seq<u8> {
        Seq::new(
            3 * self.pixels.len(),
            |i: int|
                if i % 3 == 0 {
                    self.pixels[i / 3].r
                } else if i % 3 == 1 {
                    self.pixels[i / 3].g
                } else {
                    self.pixels[i / 3].b
                },
        )
    }
}

impl View for Camera {
    type V = CameraView;

    closed spec fn view(&self) -> CameraView {
        let (width, height) = buffer_dimensions(self.image);
        CameraView {
            eye: self.eye,
            target: self.target,
            fov: self.fov,
            width,
            height,
            pixels: Seq::new((width * height) as nat, |i: int| buffer_pixels(self.image)[i]),
        }
    }
}

/// A pixel of the image has its place among the pixels of the image.
pub proof fn lemma_pixel_index_in_grid(width: u32, height: u32, column: u32, row: u32)
    requires
        column < width,
        row < height,
    ensures
        0 <= pixel_index(width, column, row) < width * height,
{
    assert((row + 1) * width <= width * height) by (nonlinear_arith)
        requires
            row + 1 <= height,
    ;
    assert((row + 1) * width == row * width + width) by (nonlinear_arith);
    assert(0 <= row * width) by (nonlinear_arith);
}

/// Every place among the pixels of an image is the place of one pixel: of
/// the one in column `index % width` of row `index / width`.
pub proof fn lemma_pixel_of_index(width: u32, height: u32, index: int)
    requires
        0 <= index < width * height,
    ensures
        0 <= (index % (width as int)) < width,
        0 <= (index / (width as int)) < height,
        pixel_index(width, (index % (width as int)) as u32, (index / (width as int)) as u32) == index,
{
    assert(width > 0) by (nonlinear_arith)
        requires
            0 <= index < width * height,
    ;
    let column = index % (width as int);
    let row = index / (width as int);
    lemma_fundamental_div_mod(index, width as int);
    assert(0 <= row < height) by (nonlinear_arith)
        requires
            index == width * row + column,
            0 <= column < width,
            0 <= index < width * height,
    ;
    assert(width * row == row * width) by (nonlinear_arith);
}

/// Two pixels of an image share a place only if they are the same pixel.
pub proof fn lemma_pixel_index_injective(width: u32, c1: u32, r1: u32, c2: u32, r2: u32)
    requires
        c1 < width,
        c2 < width,
        pixel_index(width, c1, r1) == pixel_index(width, c2, r2),
    ensures
        c1 == c2,
        r1 == r2,
{
    if r1 < r2 {
        assert((r1 + 1) * width <= r2 * width) by (nonlinear_arith)
            requires
                r1 + 1 <= r2,
        ;
        assert((r1 + 1) * width == r1 * width + width) by (nonlinear_arith);
    } else if r2 < r1 {
        assert((r2 + 1) * width <= r1 * width) by (nonlinear_arith)
            requires
                r2 + 1 <= r1,
        ;
        assert((r2 + 1) * width == r2 * width + width) by (nonlinear_arith);
    }
}

impl Camera {
    #[verifier::type_invariant]
    spec fn grid_is_whole(self) -> bool {
        buffer_pixels(self.image).len() == buffer_dimensions(self.image).0 * buffer_dimensions(
            self.image,
        ).1
    }

    /// A camera at `eye` that looks at `target` with the field of view `fov`,
    /// and renders into an image of `width` by `height` pixels, all black.
    /// Either size may be zero: such a camera has no pixels and no rays.
    pub fn face_towards(eye: Point, target: Point, fov: Scalar, width: u32, height: u32) -> (camera:
        Camera)
        requires
            3 * width * height <= isize::MAX,
        ensures
            camera@.eye == eye,
            camera@.target == target,
            camera@.fov == fov,
            camera@.width == width,
            camera@.height == height,
            camera@.pixels == Seq::new((width * height) as nat, |i: int| Rgb::black()),
    {
        let image = PixelBuffer::new(width, height);
        Camera { fov, eye, target, image }
    }

    /// One primary ray for each pixel, row by row, the top row first: the ray
    /// at `k` is the one through the pixel in column `k % width` of row
    /// `k / width`.
    pub fn get_rays(&self) -> (rays: Vec<PixelRay>)
        ensures
            rays@.len() == self@.width * self@.height,
            forall|column: u32, row: u32|
                column < self@.width && row < self@.height ==> #[trigger] rays@[pixel_index(
                    self@.width,
                    column,
                    row,
                )] == PixelRay::through(self@.width, self@.height, column, row),
            forall|k: int|
                0 <= k < rays@.len() ==> #[trigger] rays@[k] == PixelRay::through(
                    self@.width,
                    self@.height,
                    (k % (self@.width as int)) as u32,
                    (k / (self@.width as int)) as u32,
                ),
    {
        let (width, height) = self.image.dimensions();
        let mut rays: Vec<PixelRay> = Vec::new();
        let mut row: u32 = 0;
        while row < height
            invariant
                row <= height,
                rays@.len() == row * width,
                forall|c: u32, r: u32|
                    c < width && r < row ==> #[trigger] rays@[pixel_index(width, c, r)]
                        == PixelRay::through(width, height, c, r),
            decreases height - row,
        {
            let mut column: u32 = 0;
            while column < width
                invariant
                    column <= width,
                    row < height,
                    rays@.len() == row * width + column,
                    forall|c: u32, r: u32|
                        c < width && r < row ==> #[trigger] rays@[pixel_index(width, c, r)]
                            == PixelRay::through(width, height, c, r),
                    forall|c: u32|
                        c < column ==> #[trigger] rays@[pixel_index(width, c, row)]
                            == PixelRay::through(width, height, c, row),
                decreases width - column,
            {
                let horizontal: i64 = 2 * (column as i64) - (width as i64);
                let vertical: i64 = (height as i64) - 2 * (row as i64);
                let ghost before = rays@;
                rays.push(PixelRay { column, row, horizontal, vertical });
                proof {
                    assert forall|c: u32, r: u32| c < width && r < row implies #[trigger] rays@[pixel_index(
                        width,
                        c,
                        r,
                    )] == PixelRay::through(width, height, c, r) by {
                        lemma_pixel_index_in_grid(width, row, c, r);
                        assert(width * row == row * width) by (nonlinear_arith);
                        assert(rays@[pixel_index(width, c, r)] == before[pixel_index(width, c, r)]);
                    }
                    assert forall|c: u32| c < column + 1 implies #[trigger] rays@[pixel_index(
                        width,
                        c,
                        row,
                    )] == PixelRay::through(width, height, c, row) by {
                        if c < column {
                            assert(rays@[pixel_index(width, c, row)] == before[pixel_index(
                                width,
                                c,
                                row,
                            )]);
                        }
                    }
                }
                column += 1;
            }
            proof {
                assert((row + 1) * width == row * width + width) by (nonlinear_arith);
            }
            row += 1;
        }
        proof {
            assert(height * width == width * height) by (nonlinear_arith);
            assert forall|k: int| 0 <= k < rays@.len() implies #[trigger] rays@[k]
                == PixelRay::through(
                width,
                height,
                (k % (width as int)) as u32,
                (k / (width as int)) as u32,
            ) by {
                lemma_pixel_of_index(width, height, k);
                let column = (k % (width as int)) as u32;
                let row = (k / (width as int)) as u32;
                assert(rays@[pixel_index(width, column, row)] == PixelRay::through(
                    width,
                    height,
                    column,
                    row,
                ));
            }
        }
        rays
    }

    /// The pixel in `column` and `row`.
    pub fn pixel(&self, column: u32, row: u32) -> (rgb: Rgb)
        requires
            column < self@.width,
            row < self@.height,
        ensures
            rgb == self@.pixels[pixel_index(self@.width, column, row)],
    {
        proof {
            use_type_invariant(self);
            lemma_pixel_index_in_grid(self@.width, self@.height, column, row);
        }
        self.image.get_pixel(column, row)
    }

    /// Sets the pixel in `column` and `row` to `rgb`.
    pub fn put_pixel(&mut self, column: u32, row: u32, rgb: Rgb)
        requires
            column < old(self)@.width,
            row < old(self)@.height,
        ensures
            final(self)@ == old(self)@.with_pixel(column, row, rgb),
    {
        proof {
            use_type_invariant(&*self);
            lemma_pixel_index_in_grid(self@.width, self@.height, column, row);
        }
        self.image.put_pixel(column, row, rgb);
        assert(self@.pixels =~= old(self)@.with_pixel(column, row, rgb).pixels);
    }

    /// Sets the pixels to `colors`, one after the other, row by row from the
    /// top. Colours beyond the last pixel are not used; pixels beyond the last
    /// colour stay.
    pub fn write_pixels(&mut self, colors: &Vec<Rgb>)
        ensures
            final(self)@ == old(self)@.with_pixels(colors@),
    {
        let (width, height) = self.image.dimensions();
        proof {
            use_type_invariant(&*self);
        }
        if width == 0 || height == 0 {
            assert(width * height == 0) by (nonlinear_arith)
                requires
                    width == 0 || height == 0,
            ;
            assert(self@.pixels =~= old(self)@.with_pixels(colors@).pixels);
            return ;
        }
        let mut column: u32 = 0;
        let mut row: u32 = 0;
        let mut k: usize = 0;
        assert(self@.pixels =~= old(self)@.with_pixels(colors@.take(0)).pixels);
        while k < colors.len() && row < height
            invariant
                width == old(self)@.width,
                height == old(self)@.height,
                old(self)@.pixels.len() == width * height,
                column < width,
                row <= height,
                k <= colors.len(),
                k == pixel_index(width, column, row),
                row == height ==> column == 0,
                self@ == old(self)@.with_pixels(colors@.take(k as int)),
            decreases colors.len() - k,
        {
            proof {
                lemma_pixel_index_in_grid(width, height, column, row);
            }
            self.put_pixel(column, row, colors[k]);
            proof {
                assert(self@.pixels =~= old(self)@.with_pixels(colors@.take(k + 1)).pixels);
                assert((row + 1) * width == row * width + width) by (nonlinear_arith);
            }
            k += 1;
            column += 1;
            if column == width {
                column = 0;
                row += 1;
            }
        }
        proof {
            if row == height {
                assert(height * width == width * height) by (nonlinear_arith);
            }
            assert(self@.pixels =~= old(self)@.with_pixels(colors@).pixels);
        }
    }

    /// The image as bytes for an encoder.
    pub fn raw_pixels(&self) -> (bytes: Vec<u8>)
        ensures
            bytes@ == self@.raw_pixels(),
    {
        let (width, height) = self.image.dimensions();
        let mut bytes: Vec<u8> = Vec::new();
        let mut row: u32 = 0;
        proof {
            use_type_invariant(self);
        }
        while row < height
            invariant
                width == self@.width,
                height == self@.height,
                self@.pixels.len() == width * height,
                row <= height,
                bytes@.len() == 3 * (row * width),
                bytes@ == self@.raw_pixels().take(3 * (row * width)),
            decreases height - row,
        {
            let mut column: u32 = 0;
            while column < width
                invariant
                    width == self@.width,
                    height == self@.height,
                    self@.pixels.len() == width * height,
                    column <= width,
                    row < height,
                    bytes@.len() == 3 * pixel_index(width, column, row),
                    bytes@ == self@.raw_pixels().take(3 * pixel_index(width, column, row)),
                decreases width - column,
            {
                proof {
                    lemma_pixel_index_in_grid(width, height, column, row);
                }
                let rgb = self.pixel(column, row);
                bytes.push(rgb.r);
                bytes.push(rgb.g);
                bytes.push(rgb.b);
                assert(bytes@ =~= self@.raw_pixels().take(3 * pixel_index(width, column, row) + 3));
                column += 1;
            }
            proof {
                assert((row + 1) * width == row * width + width) by (nonlinear_arith);
            }
            row += 1;
        }
        proof {
            assert(height * width == width * height) by (nonlinear_arith);
            assert(bytes@ =~= self@.raw_pixels());
        }
        bytes
    }

    pub fn width(&self) -> (width: u32)
        ensures
            width == self@.width,
    {
        self.image.dimensions().0
    }

    pub fn height(&self) -> (height: u32)
        ensures
            height == self@.height,
    {
        self.image.dimensions().1
    }

    pub fn eye(&self) -> (eye: Point)
        ensures
            eye == self@.eye,
    {
        self.eye
    }

    pub fn target(&self) -> (target: Point)
        ensures
            target == self@.target,
    {
        self.target
    }

    pub fn fov(&self) -> (fov: Scalar)
        ensures
            fov == self@.fov,
    {
        self.fov
    }
}

impl Default for Camera {
    /// A camera at (10, 5, 8) that looks at the origin with a field of view
    /// of a third of pi, and renders 100 by 100 pixels.
    fn default() -> (camera: Camera)
        ensures
            camera@.eye == (Point {
                x: Scalar { bits: 0x4120_0000 },
                y: Scalar { bits: 0x40a0_0000 },
                z: Scalar { bits: 0x4100_0000 },
            }),
            camera@.target == Point::origin(),
            camera@.fov == (Scalar { bits: THIRD_OF_PI_BITS }),
            camera@.width == 100,
            camera@.height == 100,
            camera@.pixels == Seq::new(10000, |i: int| Rgb::black()),
    {
        Camera::face_towards(
            Point::new(
                Scalar::from_bits(0x4120_0000),
                Scalar::from_bits(0x40a0_0000),
                Scalar::from_bits(0x4100_0000),
            ),
            Point::origin(),
            Scalar::from_bits(THIRD_OF_PI_BITS),
            100,
            100,
        )
    }
}

/// A camera has one pixel for each column of each row.
pub proof fn lemma_pixel_count(camera: Camera)
    ensures
        camera@.pixels.len() == camera@.width * camera@.height,
{
}

/// In an image of even width and height the ray through the pixel at half
/// the width and half the height has no offset from the centre: it looks
/// straight ahead.
pub proof fn lemma_centre_ray(width: u32, height: u32)
    requires
        width % 2 == 0,
        height % 2 == 0,
    ensures
        PixelRay::through(width, height, (width / 2) as u32, (height / 2) as u32).horizontal == 0,
        PixelRay::through(width, height, (width / 2) as u32, (height / 2) as u32).vertical == 0,
{
}

/// Two pixels of one row whose columns add up to the width lie mirrored
/// about the centre: as far to the left as to the right, at one height.
pub proof fn lemma_mirrored_columns(width: u32, height: u32, column: u32, row: u32)
    requires
        0 < column < width,
    ensures
        PixelRay::through(width, height, (width - column) as u32, row).horizontal
            == -PixelRay::through(width, height, column, row).horizontal,
        PixelRay::through(width, height, (width - column) as u32, row).vertical
            == PixelRay::through(width, height, column, row).vertical,
{
}

/// Two pixels of one column whose rows add up to the height lie mirrored
/// about the centre: as far up as down, at one distance to the side.
pub proof fn lemma_mirrored_rows(width: u32, height: u32, column: u32, row: u32)
    requires
        0 < row < height,
    ensures
        PixelRay::through(width, height, column, (height - row) as u32).vertical
            == -PixelRay::through(width, height, column, row).vertical,
        PixelRay::through(width, height, column, (height - row) as u32).horizontal
            == PixelRay::through(width, height, column, row).horizontal,
{
}

/// Two different pixels can be set in either order: the image is the same.
pub proof fn lemma_pixel_writes_commute(
    camera: CameraView,
    c1: u32,
    r1: u32,
    rgb1: Rgb,
    c2: u32,
    r2: u32,
    rgb2: Rgb,
)
    requires
        camera.pixels.len() == camera.width * camera.height,
        c1 < camera.width,
        r1 < camera.height,
        c2 < camera.width,
        r2 < camera.height,
        c1 != c2 || r1 != r2,
    ensures
        camera.with_pixel(c1, r1, rgb1).with_pixel(c2, r2, rgb2) == camera.with_pixel(
            c2,
            r2,
            rgb2,
        ).with_pixel(c1, r1, rgb1),
{
    lemma_pixel_index_in_grid(camera.width, camera.height, c1, r1);
    lemma_pixel_index_in_grid(camera.width, camera.height, c2, r2);
    if pixel_index(camera.width, c1, r1) == pixel_index(camera.width, c2, r2) {
        lemma_pixel_index_injective(camera.width, c1, r1, c2, r2);
    }
    assert(camera.with_pixel(c1, r1, rgb1).with_pixel(c2, r2, rgb2).pixels
        =~= camera.with_pixel(c2, r2, rgb2).with_pixel(c1, r1, rgb1).pixels);
}

} // verus!
