//! Pixel buffers: the `image` crate's RGBA buffer behind a verified surface.
//!
//! The buffer itself is opaque to the verifier. Its size and its pixels are
//! named by three uninterpreted functions, and five wrappers, private to the
//! crate, state over those names what the buffer methods they call do. The
//! struct, the names and the wrappers are taken on trust; everything else in
//! this file is proved from them.

use crate::pixel::Color;
use image::{Rgba, RgbaImage};
use vstd::prelude::*;

verus! {

/// A grid of RGBA pixels, held in an `image::RgbaImage`.
///
/// The verifier does not look inside: the buffer type is bound by a trait of
/// the `image` crate that it cannot take. What it knows of a raster are
/// `raster_width`, `raster_height` and `raster_pixels`.
#[verifier::external_body]
pub struct Raster {
    buffer: RgbaImage,
}

/// The number of pixel columns, as `ImageBuffer::width` reports it.
pub uninterp spec fn raster_width(raster: Raster) -> u32;

/// The number of pixel rows, as `ImageBuffer::height` reports it.
pub uninterp spec fn raster_height(raster: Raster) -> u32;

/// The pixels that the buffer holds, keyed by column and row.
pub uninterp spec fn raster_pixels(raster: Raster) -> Map<(int, int), Color>;

/// Whether a buffer of `width` by `height` four-byte pixels can be made: the
/// bytes of one row can be counted in a `usize`, and the bytes of all rows
/// fit a vector.
pub open spec fn allocatable(width: int, height: int) -> bool {
    &&& 4 * width <= usize::MAX
    &&& 4 * width * height <= isize::MAX
}

/// Calls `ImageBuffer::width`: the result is the buffer's width.
#[verifier::external_body]
pub(crate) fn buffer_width(raster: &Raster) -> (w: u32)
    ensures
        w == raster_width(*raster),
{
    raster.buffer.width()
}

/// Calls `ImageBuffer::height`: the result is the buffer's height.
#[verifier::external_body]
pub(crate) fn buffer_height(raster: &Raster) -> (h: u32)
    ensures
        h == raster_height(*raster),
{
    raster.buffer.height()
}

/// Calls `ImageBuffer::new`. It counts the bytes in a `usize`, four times the
/// width first and that times the height, and panics where either product
/// overflows; the vector it then makes panics where that count exceeds
/// `isize::MAX`. The result has the size asked for, and every channel of
/// every pixel in it is zero.
#[verifier::external_body]
pub(crate) fn buffer_new(width: u32, height: u32) -> (raster: Raster)
    requires
        allocatable(width as int, height as int),
    ensures
        raster_width(raster) == width,
        raster_height(raster) == height,
        raster_pixels(raster) == Map::new(
            |at: (int, int)| 0 <= at.0 < width && 0 <= at.1 < height,
            |at: (int, int)| Color::spec_transparent(),
        ),
{
    Raster { buffer: RgbaImage::new(width, height) }
}

/// Calls `ImageBuffer::get_pixel`, which panics outside the buffer's bounds.
/// The result is the pixel held at column `x` of row `y`.
#[verifier::external_body]
pub(crate) fn buffer_get(raster: &Raster, x: u32, y: u32) -> (color: Color)
    requires
        x < raster_width(*raster),
        y < raster_height(*raster),
    ensures
        color == raster_pixels(*raster)[(x as int, y as int)],
{
    let pixel = raster.buffer.get_pixel(x, y);
    Color { r: pixel.0[0], g: pixel.0[1], b: pixel.0[2], a: pixel.0[3] }
}

/// Calls `ImageBuffer::put_pixel`, which panics outside the buffer's bounds.
/// The buffer keeps its size, holds `color` at column `x` of row `y`, and
/// holds what it held before at every other place.
#[verifier::external_body]
pub(crate) fn buffer_put(raster: &mut Raster, x: u32, y: u32, color: Color)
    requires
        x < raster_width(*old(raster)),
        y < raster_height(*old(raster)),
    ensures
        raster_width(*final(raster)) == raster_width(*old(raster)),
        raster_height(*final(raster)) == raster_height(*old(raster)),
        raster_pixels(*final(raster)) == raster_pixels(*old(raster)).insert(
            (x as int, y as int),
            color,
        ),
{
    raster.buffer.put_pixel(x, y, Rgba([color.r, color.g, color.b, color.a]));
}

/// Decides whether a buffer of the given size can be allocated.
pub fn fits(width: u32, height: u32) -> (ok: bool)
    ensures
        ok == allocatable(width as int, height as int),
{
    assert(0 <= width * height <= 0xffff_ffff * 0xffff_ffff) by (nonlinear_arith);
    assert(4 * width * height == 4 * (width * height)) by (nonlinear_arith);
    let area: u128 = (width as u128) * (height as u128);
    4 * (width as u128) <= usize::MAX as u128 && 4 * area <= isize::MAX as u128
}

/// Where the four bytes of the pixel at column `x` of row `y` start among the
/// bytes of an image of `width` columns, rows from the top, pixels from the
/// left, four bytes a pixel.
pub open spec fn byte_offset(width: int, x: int, y: int) -> int {
    4 * (y * width + x)
}

/// The pixel that four bytes from `offset` on stand for: red, green, blue, alpha.
pub open spec fn color_at(bytes: Seq<u8>, offset: int) -> Color {
    Color { r: bytes[offset], g: bytes[offset + 1], b: bytes[offset + 2], a: bytes[offset + 3] }
}

/// The bytes of a pixel lie inside the bytes of the image, behind those of
/// every pixel that comes before it.
proof fn lemma_byte_offset_bounds(width: int, height: int, x: int, y: int)
    by (nonlinear_arith)
    requires
        0 <= x < width,
        0 <= y < height,
    ensures
        0 <= byte_offset(width, x, y),
        byte_offset(width, x, y) + 4 <= 4 * width * height,
        byte_offset(width, x, y) + 4 <= 4 * ((y + 1) * width),
        4 * (y * width) <= byte_offset(width, x, y),
{
}

/// Rows follow one another at a distance of `width` pixels.
proof fn lemma_next_row(width: int, y: int)
    by (nonlinear_arith)
    ensures
        (y + 1) * width == y * width + width,
{
}

/// Pixels in reading order have their bytes in the same order.
proof fn lemma_byte_offset_ordered(width: int, i: int, j: int, x: int, y: int)
    by (nonlinear_arith)
    requires
        0 <= i < width,
        0 <= x <= width,
        0 <= j,
        0 <= y,
        j < y || (j == y && i < x),
    ensures
        byte_offset(width, i, j) + 4 <= byte_offset(width, x, y),
{
}

impl Raster {
    /// The number of pixel columns.
    pub open spec fn spec_width(&self) -> u32 {
        raster_width(*self)
    }

    /// The number of pixel rows.
    pub open spec fn spec_height(&self) -> u32 {
        raster_height(*self)
    }

    /// Whether column `x` of row `y` lies inside the raster.
    pub open spec fn contains(&self, x: int, y: int) -> bool {
        0 <= x < self.spec_width() && 0 <= y < self.spec_height()
    }

    /// The pixel at column `x` of row `y`; meaningful inside the raster only.
    #[verifier::inline]
    pub open spec fn at(&self, x: int, y: int) -> Color {
        raster_pixels(*self)[(x, y)]
    }

    /// A raster is well formed when a buffer of its size can be made. Every
    /// raster that this library hands out is.
    pub open spec fn well_formed(&self) -> bool {
        allocatable(self.spec_width() as int, self.spec_height() as int)
    }

    /// Whether two rasters have the same size and the same pixels.
    pub open spec fn same_image(&self, other: &Raster) -> bool {
        &&& self.spec_width() == other.spec_width()
        &&& self.spec_height() == other.spec_height()
        &&& forall|x: int, y: int| self.contains(x, y) ==> self.at(x, y) == other.at(x, y)
    }

    /// Whether `bytes` are the pixels of the raster in reading order, four
    /// bytes a pixel.
    pub open spec fn holds_bytes(&self, bytes: Seq<u8>) -> bool {
        &&& bytes.len() == 4 * self.spec_width() * self.spec_height()
        &&& forall|x: int, y: int| #![trigger self.at(x, y)]
            self.contains(x, y) ==> self.at(x, y) == color_at(
                bytes,
                byte_offset(self.spec_width() as int, x, y),
            )
    }

    /// A blank raster: every pixel transparent. `None` where a raster of that
    /// size cannot be allocated.
    pub fn new(width: u32, height: u32) -> (made: Option<Raster>)
        ensures
            made is Some <==> allocatable(width as int, height as int),
            made matches Some(raster) ==> {
                &&& raster.well_formed()
                &&& raster.spec_width() == width
                &&& raster.spec_height() == height
                &&& forall|x: int, y: int|
                    raster.contains(x, y) ==> raster.at(x, y) == Color::spec_transparent()
            },
    {
        if fits(width, height) {
            Some(buffer_new(width, height))
        } else {
            None
        }
    }

    /// The raster of the given size whose pixels are `bytes`, read row by row
    /// from the top, four bytes a pixel: red, green, blue, alpha. `None`
    /// unless there are exactly four bytes for each pixel.
    pub fn from_bytes(width: u32, height: u32, bytes: &[u8]) -> (made: Option<Raster>)
        ensures
            made is Some <==> allocatable(width as int, height as int) && bytes@.len() == 4
                * width * height,
            made matches Some(raster) ==> {
                &&& raster.well_formed()
                &&& raster.spec_width() == width
                &&& raster.spec_height() == height
                &&& raster.holds_bytes(bytes@)
            },
    {
        if !fits(width, height) {
            return None;
        }
        assert(0 <= width * height <= 0xffff_ffff * 0xffff_ffff) by (nonlinear_arith);
        assert(4 * width * height == 4 * (width * height)) by (nonlinear_arith);
        let area: u128 = (width as u128) * (height as u128);
        if bytes.len() as u128 != 4 * area {
            return None;
        }
        let mut raster: Raster = buffer_new(width, height);
        let mut next: usize = 0;
        let mut y: u32 = 0;
        while y < height
            invariant
                y <= height,
                raster.spec_width() == width,
                raster.spec_height() == height,
                bytes@.len() == 4 * width * height,
                next == 4 * (y * width),
                forall|i: int, j: int| #![trigger raster.at(i, j)]
                    0 <= i < width && 0 <= j < y ==> raster.at(i, j) == color_at(
                        bytes@,
                        byte_offset(width as int, i, j),
                    ),
            decreases height - y,
        {
            let mut x: u32 = 0;
            while x < width
                invariant
                    x <= width,
                    y < height,
                    raster.spec_width() == width,
                    raster.spec_height() == height,
                    bytes@.len() == 4 * width * height,
                    next == byte_offset(width as int, x as int, y as int),
                    forall|i: int, j: int| #![trigger raster.at(i, j)]
                        0 <= i < width && (0 <= j < y || (j == y && i < x)) ==> raster.at(i, j)
                            == color_at(bytes@, byte_offset(width as int, i, j)),
                decreases width - x,
            {
                proof {
                    lemma_byte_offset_bounds(width as int, height as int, x as int, y as int);
                }
                let color: Color = Color {
                    r: bytes[next],
                    g: bytes[next + 1],
                    b: bytes[next + 2],
                    a: bytes[next + 3],
                };
                buffer_put(&mut raster, x, y, color);
                next += 4;
                x += 1;
            }
            proof {
                lemma_next_row(width as int, y as int);
            }
            y += 1;
        }
        Some(raster)
    }

    /// The pixels of the raster as bytes, read row by row from the top, four
    /// bytes a pixel: red, green, blue, alpha.
    pub fn to_bytes(&self) -> (bytes: Vec<u8>)
        ensures
            self.holds_bytes(bytes@),
    {
        let width: u32 = buffer_width(self);
        let height: u32 = buffer_height(self);
        let mut bytes: Vec<u8> = Vec::new();
        let mut y: u32 = 0;
        while y < height
            invariant
                y <= height,
                self.spec_width() == width,
                self.spec_height() == height,
                bytes@.len() == 4 * (y * width),
                forall|i: int, j: int| #![trigger self.at(i, j)]
                    0 <= i < width && 0 <= j < y ==> self.at(i, j) == color_at(
                        bytes@,
                        byte_offset(width as int, i, j),
                    ),
            decreases height - y,
        {
            let mut x: u32 = 0;
            while x < width
                invariant
                    x <= width,
                    y < height,
                    self.spec_width() == width,
                    self.spec_height() == height,
                    bytes@.len() == byte_offset(width as int, x as int, y as int),
                    forall|i: int, j: int| #![trigger self.at(i, j)]
                        0 <= i < width && (0 <= j < y || (j == y && i < x)) ==> self.at(i, j)
                            == color_at(bytes@, byte_offset(width as int, i, j)),
                decreases width - x,
            {
                let ghost before: Seq<u8> = bytes@;
                let color: Color = buffer_get(self, x, y);
                bytes.push(color.r);
                bytes.push(color.g);
                bytes.push(color.b);
                bytes.push(color.a);
                proof {
                    assert forall|i: int, j: int|
                        0 <= i < width && (0 <= j < y || (j == y && i < x)) implies self.at(i, j)
                        == color_at(bytes@, byte_offset(width as int, i, j)) by {
                        lemma_byte_offset_ordered(width as int, i, j, x as int, y as int);
                        lemma_byte_offset_bounds(width as int, y + 1, i, j);
                        assert(color_at(bytes@, byte_offset(width as int, i, j)) == color_at(
                            before,
                            byte_offset(width as int, i, j),
                        ));
                    }
                }
                x += 1;
            }
            proof {
                lemma_next_row(width as int, y as int);
            }
            y += 1;
        }
        proof {
            assert(4 * (height * width) == 4 * width * height) by (nonlinear_arith);
        }
        bytes
    }

    /// The number of pixel columns.
    #[verifier::when_used_as_spec(spec_width)]
    pub fn width(&self) -> (w: u32)
        ensures
            w == self.spec_width(),
    {
        buffer_width(self)
    }

    /// The number of pixel rows.
    #[verifier::when_used_as_spec(spec_height)]
    pub fn height(&self) -> (h: u32)
        ensures
            h == self.spec_height(),
    {
        buffer_height(self)
    }

    /// The pixel at column `x` of row `y`, or `None` outside the raster.
    pub fn get_pixel(&self, x: u32, y: u32) -> (found: Option<Color>)
        ensures
            found == (if self.contains(x as int, y as int) {
                Some(self.at(x as int, y as int))
            } else {
                None
            }),
    {
        if x < buffer_width(self) && y < buffer_height(self) {
            Some(buffer_get(self, x, y))
        } else {
            None
        }
    }

    /// Puts `color` at column `x` of row `y` and says whether that place
    /// exists. Outside the raster nothing changes.
    pub fn put_pixel(&mut self, x: u32, y: u32, color: Color) -> (done: bool)
        ensures
            done == old(self).contains(x as int, y as int),
            final(self).spec_width() == old(self).spec_width(),
            final(self).spec_height() == old(self).spec_height(),
            final(self).well_formed() == old(self).well_formed(),
            forall|i: int, j: int|
                old(self).contains(i, j) ==> final(self).at(i, j) == (if done && i == x && j
                    == y {
                    color
                } else {
                    old(self).at(i, j)
                }),
    {
        if x < buffer_width(self) && y < buffer_height(self) {
            buffer_put(self, x, y, color);
            true
        } else {
            false
        }
    }
}

} // verus!
