//! Row-major addressing of a raster held in one flat buffer.

use vstd::prelude::*;
use vstd::arithmetic::div_mod::lemma_fundamental_div_mod_converse;
use vstd::arithmetic::div_mod::lemma_fundamental_div_mod;

verus! {

/// A buffer of `s` is a raster of the given width and height.
pub open spec fn is_raster(s: Seq<u8>, width: int, height: int) -> bool {
    0 <= width && 0 <= height && s.len() == width * height
}

/// A raster of intensities, row by row.
#[derive(Clone, Debug)]
pub struct PixelBuffer {
    pub width: u32,
    pub height: u32,
    pub pixels: Vec<u8>,
}

impl PixelBuffer {
    /// The buffer holds one intensity for every cell.
    pub open spec fn wf(&self) -> bool {
        is_raster(self.pixels@, self.width as int, self.height as int)
    }
}

/// A decoded picture: red, green, blue and alpha for every cell, row by row.
#[derive(Clone, Debug)]
pub struct ColorRaster {
    pub width: u32,
    pub height: u32,
    pub rgba: Vec<u8>,
}

impl ColorRaster {
    /// The picture has cells, and the buffer holds four bytes for each.
    pub open spec fn wf(&self) -> bool {
        self.width > 0 && self.height > 0 && self.rgba@.len() == 4 * self.width * self.height
    }
}

/// The number of cells of a raster.
pub fn cell_count(width: u32, height: u32) -> (r: u64)
    ensures
        r == width * height,
{
    assert(width * height <= 0xffff_ffff * 0xffff_ffff) by (nonlinear_arith)
        requires
            0 <= width <= 0xffff_ffff,
            0 <= height <= 0xffff_ffff,
    ;
    (width as u64) * (height as u64)
}

/// Every pixel is pure black or pure white.
pub open spec fn is_binary(s: Seq<u8>) -> bool {
    forall|i: int| 0 <= i < s.len() ==> #[trigger] s[i] == 0u8 || s[i] == 255u8
}

/// The cell `(x, y)` lies inside a `width x height` raster exactly when its
/// flat index `y * width + x` lies inside the buffer.
pub proof fn lemma_cell_index(width: int, height: int, x: int, y: int)
    requires
        0 <= x < width,
        0 <= y < height,
    ensures
        0 <= y * width + x < width * height,
        (y * width + x) % width == x,
        (y * width + x) / width == y,
{
    assert(0 <= y * width + x < width * height) by (nonlinear_arith)
        requires
            0 <= x < width,
            0 <= y < height,
    ;
    lemma_fundamental_div_mod_converse(y * width + x, width, y, x);
}

/// A flat index inside the buffer names exactly one cell of the raster.
pub proof fn lemma_index_cell(width: int, height: int, i: int)
    requires
        0 <= i < width * height,
        0 < width,
    ensures
        0 <= i % width < width,
        0 <= i / width < height,
        i == (i / width) * width + i % width,
{
    lemma_fundamental_div_mod(i, width);
    let q = i / width;
    assert(0 <= i % width < width);
    assert(0 <= q < height) by (nonlinear_arith)
        requires
            0 <= i < width * height,
            0 < width,
            i == width * q + i % width,
            0 <= i % width < width,
    ;
    assert(width * q == q * width) by (nonlinear_arith);
}

} // verus!
