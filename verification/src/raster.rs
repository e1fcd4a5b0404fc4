//! Rendering a sigil into a square RGB image.
//!
//! The image is split into `rows + 1` cells per side: the grid takes `rows`
//! of them and the border around it half a cell on every side.

use crate::color::Rgb;
use crate::error::GeometryError;
use crate::grid::cell_index;
use crate::grid::lemma_index;
use crate::sigil::Sigil;
use crate::sigil::SigilView;
use image::RgbImage;
use vstd::arithmetic::div_mod::lemma_fundamental_div_mod;
use vstd::arithmetic::div_mod::lemma_fundamental_div_mod_converse;
use vstd::arithmetic::div_mod::lemma_multiply_divide_lt;
use vstd::prelude::*;

verus! {

/// The buffer of the `image` crate that a rendered sigil is held in: an
/// `image::RgbImage`, which Verus is told nothing about but what the
/// functions below state of its samples.
#[verifier::external_body]
pub struct Pixels {
    inner: RgbImage,
}

/// The samples that the buffer holds, in its own order: row by row from the
/// top, each row from the left, three samples to a pixel in the order red,
/// green, blue.
pub uninterp spec fn image_samples(pixels: Pixels) -> Seq<u8>;

/// What the size of an image has to be a multiple of: twice the number of
/// cells per side.
pub open spec fn size_unit(rows: int) -> int {
    (rows + 1) * 2
}

/// Side of a cell in pixels.
pub open spec fn cell_size(rows: int, size: int) -> int {
    size / (rows + 1)
}

/// Whether an image of side `size` can be rendered for a grid of `rows`
/// rows: the side splits into `rows + 1` whole cells, each of an even number
/// of pixels. These are the multiples of [`size_unit`], zero among them, as
/// [`lemma_valid_size`] shows.
pub open spec fn valid_size(rows: int, size: int) -> bool {
    size % (rows + 1) == 0 && cell_size(rows, size) % 2 == 0
}

/// Width of the border in pixels: half a cell.
pub open spec fn padding(rows: int, size: int) -> int {
    cell_size(rows, size) / 2
}

/// Whether the pixel lies within the border of the image.
pub open spec fn on_border(rows: int, size: int, px: int, py: int) -> bool {
    let pad = padding(rows, size);
    px < pad || px >= size - pad || py < pad || py >= size - pad
}

/// Colour of the pixel in column `px` of row `py` of the image of side
/// `size`: the background on the border and in an empty cell, the
/// foreground in a filled one.
pub open spec fn pixel_color(sigil: SigilView, size: int, px: int, py: int) -> Rgb {
    let rows = sigil.rows as int;
    if on_border(rows, size, px, py) {
        sigil.background
    } else {
        let cx = (px - padding(rows, size)) / cell_size(rows, size);
        let cy = (py - padding(rows, size)) / cell_size(rows, size);
        if sigil.cells[cell_index(rows, cx, cy)] {
            sigil.foreground
        } else {
            sigil.background
        }
    }
}

/// Index of channel `c` of the pixel in column `px` of row `py` among the
/// samples of an image of side `size`.
pub open spec fn sample_index(size: int, px: int, py: int, c: int) -> int {
    3 * (py * size + px) + c
}

/// The samples of the image of side `size`: `3 * size * size` of them, row
/// by row, three to a pixel.
pub open spec fn raster(sigil: SigilView, size: int) -> Seq<u8> {
    Seq::new(
        (3 * size * size) as nat,
        |i: int| pixel_color(sigil, size, (i / 3) % size, (i / 3) / size).channels()[i % 3],
    )
}

/// The sizes that can be rendered are the multiples of `(rows + 1) * 2`.
pub proof fn lemma_valid_size(rows: int, size: int)
    requires
        0 <= rows,
        0 <= size,
    ensures
        valid_size(rows, size) <==> size % size_unit(rows) == 0,
{
    let side = rows + 1;
    let unit = size_unit(rows);
    if valid_size(rows, size) {
        let half = cell_size(rows, size) / 2;
        lemma_fundamental_div_mod(size, side);
        assert(size == half * unit) by (nonlinear_arith)
            requires
                size == side * (size / side),
                size / side == 2 * half,
                unit == side * 2,
        ;
        lemma_fundamental_div_mod_converse(size, unit, half, 0);
    }
    if size % unit == 0 {
        let k = size / unit;
        lemma_fundamental_div_mod(size, unit);
        assert(size == (2 * k) * side) by (nonlinear_arith)
            requires
                size == unit * k,
                unit == side * 2,
        ;
        lemma_fundamental_div_mod_converse(size, side, 2 * k, 0);
    }
}

/// A size that can be rendered leaves a border of exactly half a cell on
/// every side, and the grid fills what is left.
pub proof fn lemma_geometry(rows: int, size: int)
    requires
        1 <= rows <= 15,
        0 <= size,
        valid_size(rows, size),
    ensures
        cell_size(rows, size) * (rows + 1) == size,
        2 * padding(rows, size) == cell_size(rows, size),
        size - 2 * padding(rows, size) == cell_size(rows, size) * rows,
        size > 0 ==> padding(rows, size) >= 1,
{
    let side = rows + 1;
    let cell = cell_size(rows, size);
    lemma_fundamental_div_mod(size, side);
    assert(cell * side == side * cell) by (nonlinear_arith);
    assert(cell * side - cell == cell * rows) by (nonlinear_arith)
        requires
            side == rows + 1,
    ;
    assert(size > 0 ==> cell >= 1) by (nonlinear_arith)
        requires
            size == cell * side,
            side >= 1,
    ;
}

/// A pixel that is not on the border lies in a cell of the grid.
pub proof fn lemma_pixel_in_grid(rows: int, size: int, px: int, py: int)
    requires
        1 <= rows <= 15,
        valid_size(rows, size),
        0 <= px < size,
        0 <= py < size,
        !on_border(rows, size, px, py),
    ensures
        cell_size(rows, size) >= 2,
        0 <= (px - padding(rows, size)) / cell_size(rows, size) < rows,
        0 <= (py - padding(rows, size)) / cell_size(rows, size) < rows,
{
    lemma_geometry(rows, size);
    let cs = cell_size(rows, size);
    let pad = padding(rows, size);
    lemma_multiply_divide_lt(px - pad, cs, rows);
    lemma_multiply_divide_lt(py - pad, cs, rows);
    assert(0 <= (px - pad) / cs) by (nonlinear_arith)
        requires
            0 <= px - pad,
            cs > 0,
    ;
    assert(0 <= (py - pad) / cs) by (nonlinear_arith)
        requires
            0 <= py - pad,
            cs > 0,
    ;
}

/// Where a pixel's samples stand in the raster: the pixels follow each
/// other row by row, with the three channels of each side by side.
pub proof fn lemma_raster_sample(sigil: SigilView, size: int, px: int, py: int, c: int)
    requires
        0 <= px < size,
        0 <= py < size,
        0 <= c < 3,
    ensures
        0 <= sample_index(size, px, py, c) < raster(sigil, size).len(),
        raster(sigil, size).len() == 3 * size * size,
        raster(sigil, size)[sample_index(size, px, py, c)]
            == pixel_color(sigil, size, px, py).channels()[c],
{
    let p = py * size + px;
    assert(0 <= p < size * size) by (nonlinear_arith)
        requires
            0 <= px < size,
            0 <= py < size,
            p == py * size + px,
    ;
    assert(3 * size * size == 3 * (size * size)) by (nonlinear_arith);
    lemma_fundamental_div_mod_converse(p, size, py, px);
}

/// The border is background: every sample of every pixel within the padding
/// of an edge is that of the background colour.
pub proof fn lemma_border_is_background(sigil: SigilView, size: int, px: int, py: int, c: int)
    requires
        0 <= px < size,
        0 <= py < size,
        0 <= c < 3,
        on_border(sigil.rows as int, size, px, py),
    ensures
        pixel_color(sigil, size, px, py) == sigil.background,
        raster(sigil, size)[sample_index(size, px, py, c)] == sigil.background.channels()[c],
{
    lemma_raster_sample(sigil, size, px, py, c);
}

/// Calls `image::ImageBuffer::from_fn` for a square image, with a function
/// that asks [`Sigil::pixel`] for the colour of each pixel. `from_fn` makes
/// a buffer of `width * height` pixels, three samples each, and stores what
/// the function returns for `(x, y)` in the pixel in column `x` of row `y`;
/// the pixels follow each other row by row. It panics where the buffer
/// cannot be allocated, which `requires` leaves out.
#[verifier::external_body]
fn paint(sigil: &Sigil, size: u32) -> (pixels: Pixels)
    requires
        valid_size(sigil@.rows as int, size as int),
        3 * size * size <= isize::MAX,
    ensures
        image_samples(pixels) == raster(sigil@, size as int),
{
    Pixels { inner: RgbImage::from_fn(size, size, |x, y| image::Rgb(sigil.pixel(size, x, y).0)) }
}

/// Calls `image::ImageBuffer::as_raw`, which hands out the buffer that holds
/// the samples, as it is.
#[verifier::external_body]
fn raw_samples(pixels: &Pixels) -> (samples: &[u8])
    ensures
        samples@ == image_samples(*pixels),
{
    pixels.inner.as_raw().as_slice()
}

/// A square image with three samples to a pixel.
pub struct PixelBuffer {
    size: u32,
    pixels: Pixels,
}

impl View for PixelBuffer {
    type V = Seq<u8>;

    /// The samples row by row from the top, each row from the left, three
    /// to a pixel in the order red, green, blue.
    closed spec fn view(&self) -> Seq<u8> {
        image_samples(self.pixels)
    }
}

impl PixelBuffer {
    /// The buffer holds three samples for each of its `size * size` pixels.
    #[verifier::type_invariant]
    spec fn well_formed(self) -> bool {
        image_samples(self.pixels).len() == 3 * self.size * self.size
    }

    /// Width and height of the image in pixels.
    pub closed spec fn side(&self) -> nat {
        self.size as nat
    }

    /// Width and height of the image in pixels.
    pub fn size(&self) -> (size: u32)
        ensures
            size == self.side(),
            self@.len() == 3 * size * size,
    {
        proof {
            use_type_invariant(self);
        }
        self.size
    }

    /// The samples of the image.
    pub fn samples(&self) -> (samples: &[u8])
        ensures
            samples@ == self@,
            samples@.len() == 3 * self.side() * self.side(),
    {
        proof {
            use_type_invariant(self);
        }
        raw_samples(&self.pixels)
    }

    /// Colour of the pixel in column `x` of row `y`.
    pub fn get_pixel(&self, x: u32, y: u32) -> (color: Rgb)
        requires
            x < self.side(),
            y < self.side(),
        ensures
            forall|c: int|
                0 <= c < 3 ==> color.channels()[c]
                    == self@[sample_index(self.side() as int, x as int, y as int, c)],
    {
        proof {
            use_type_invariant(self);
        }
        let samples = raw_samples(&self.pixels);
        let side = self.size as usize;
        let count = samples.len();
        proof {
            let p = y * side + x;
            assert(count == 3 * side * side);
            assert(0 <= p < side * side) by (nonlinear_arith)
                requires
                    0 <= x < side,
                    0 <= y < side,
                    p == y * side + x,
            ;
            assert(3 * side * side == 3 * (side * side)) by (nonlinear_arith);
            assert(y * side >= 0) by (nonlinear_arith)
                requires
                    y >= 0,
                    side >= 0,
            ;
        }
        let first = 3 * ((y as usize) * side + (x as usize));
        Rgb([samples[first], samples[first + 1], samples[first + 2]])
    }
}

impl Sigil {
    /// Colour of the pixel in column `x` of row `y` of the image of side
    /// `size`: the background within the border, else the colour of the
    /// cell that the pixel lies in.
    pub fn pixel(&self, size: u32, x: u32, y: u32) -> (color: Rgb)
        requires
            valid_size(self@.rows as int, size as int),
            x < size,
            y < size,
        ensures
            color == pixel_color(self@, size as int, x as int, y as int),
            on_border(self@.rows as int, size as int, x as int, y as int) ==> color
                == self@.background,
    {
        let rows = self.rows() as u32;
        let cell_size = size / (rows + 1);
        let padding = cell_size / 2;
        proof {
            lemma_geometry(rows as int, size as int);
        }
        if x < padding || x >= size - padding || y < padding || y >= size - padding {
            return self.background();
        }
        proof {
            lemma_pixel_in_grid(rows as int, size as int, x as int, y as int);
        }
        let x = (x - padding) / cell_size;
        let y = (y - padding) / cell_size;
        proof {
            lemma_index(rows as int, x as int, y as int);
            assert(rows * rows <= 225) by (nonlinear_arith)
                requires
                    1 <= rows <= 15,
            ;
        }
        let cell_index = y * rows + x;
        if self.cells().get(cell_index as usize) {
            self.foreground()
        } else {
            self.background()
        }
    }

    /// Creates a square image of the given size, which has to be a multiple
    /// of `(rows + 1) * 2`: any other size is rejected, with the size and
    /// that number in the error.
    pub fn to_image(&self, size: u32) -> (res: Result<PixelBuffer, GeometryError>)
        requires
            3 * size * size <= isize::MAX,
        ensures
            res is Ok <==> valid_size(self@.rows as int, size as int),
            res matches Err(e) ==> e.size == size && e.unit == size_unit(self@.rows as int),
            res matches Ok(img) ==> img.side() == size && img@ == raster(self@, size as int),
    {
        let rows = self.rows() as u32;
        let unit = (rows + 1) * 2;
        proof {
            lemma_valid_size(rows as int, size as int);
        }
        if size % unit != 0 {
            return Err(GeometryError { size, unit });
        }
        let pixels = paint(self, size);
        Ok(PixelBuffer { size, pixels })
    }
}

} // verus!
