//! Reduction of a grayscale raster to pure black and white.

use vstd::prelude::*;
use crate::grid::{is_binary, is_raster, lemma_cell_index};

verus! {

/// Black below the midpoint, white from it upwards.
pub open spec fn threshold(v: u8) -> u8 {
    if v < 128 {
        0u8
    } else {
        255u8
    }
}

/// What thresholding a pixel takes away from it (negative where it adds).
pub open spec fn quant_error(v: u8) -> int {
    v as int - threshold(v) as int
}

/// The part `weight / 16` of an error, rounded towards zero.
pub open spec fn share(error: int, weight: int) -> int {
    if error >= 0 {
        (error * weight) / 16
    } else {
        -((-error * weight) / 16)
    }
}

/// An integer reduced to eight bits, as a cast to `u8` keeps its low byte.
pub open spec fn low_byte(v: int) -> u8 {
    (v % 256) as u8
}

/// The buffer after `delta` was added to the cell `(x, y)`; a cell outside
/// the raster takes nothing and nothing is carried over a row's end.
pub open spec fn spread(s: Seq<u8>, width: int, height: int, x: int, y: int, delta: int) -> Seq<u8> {
    if 0 <= x < width && 0 <= y < height {
        s.update(y * width + x, low_byte(s[y * width + x] + delta))
    } else {
        s
    }
}

/// One step of error diffusion: the pixel at flat index `i` is thresholded
/// and its error handed to the four neighbours that come later in raster
/// order, with the weights 7, 3, 5 and 1 sixteenths.
pub open spec fn diffuse_at(s: Seq<u8>, width: int, height: int, i: int) -> Seq<u8> {
    let x = i % width;
    let y = i / width;
    let e = quant_error(s[i]);
    let s0 = s.update(i, threshold(s[i]));
    let s1 = spread(s0, width, height, x + 1, y, share(e, 7));
    let s2 = spread(s1, width, height, x - 1, y + 1, share(e, 3));
    let s3 = spread(s2, width, height, x, y + 1, share(e, 5));
    spread(s3, width, height, x + 1, y + 1, share(e, 1))
}

/// The buffer after the first `n` pixels, in raster order, were diffused.
pub open spec fn diffused(s: Seq<u8>, width: int, height: int, n: nat) -> Seq<u8>
    decreases n,
{
    if n == 0 {
        s
    } else {
        diffuse_at(diffused(s, width, height, (n - 1) as nat), width, height, n - 1)
    }
}

/// Diffusion keeps the length of the buffer, and every pixel that was
/// visited is pure black or pure white from then on.
pub proof fn lemma_diffused_prefix(s: Seq<u8>, width: int, height: int, n: nat)
    requires
        is_raster(s, width, height),
        n <= width * height,
    ensures
        diffused(s, width, height, n).len() == s.len(),
        forall|j: int|
            0 <= j < n ==> {
                let p = #[trigger] diffused(s, width, height, n)[j];
                p == 0u8 || p == 255u8
            },
    decreases n,
{
    if n > 0 {
        let m = (n - 1) as nat;
        lemma_diffused_prefix(s, width, height, m);
        let prev = diffused(s, width, height, m);
        assert(width > 0) by (nonlinear_arith)
            requires
                0 < width * height,
                0 <= width,
        ;
        crate::grid::lemma_index_cell(width, height, m as int);
        let x = m as int % width;
        let y = m as int / width;
        if x + 1 < width {
            lemma_cell_index(width, height, x + 1, y);
        }
        if y + 1 < height {
            lemma_cell_index(width, height, x, y + 1);
            if x >= 1 {
                lemma_cell_index(width, height, x - 1, y + 1);
            }
            if x + 1 < width {
                lemma_cell_index(width, height, x + 1, y + 1);
            }
        }
        assert((y + 1) * width == y * width + width) by (nonlinear_arith);
    }
}

/// After a whole raster was diffused every pixel is black or white.
pub proof fn lemma_diffused_is_binary(s: Seq<u8>, width: int, height: int)
    requires
        is_raster(s, width, height),
    ensures
        is_raster(diffused(s, width, height, (width * height) as nat), width, height),
        is_binary(diffused(s, width, height, (width * height) as nat)),
{
    assert(0 <= width * height) by (nonlinear_arith)
        requires
            0 <= width,
            0 <= height,
    ;
    lemma_diffused_prefix(s, width, height, (width * height) as nat);
}

/// Adds to the cell `(x, y)`, where the raster has it, the share
/// `weight / 16` of the error that thresholding `pixel` leaves.
fn spread_into(img: &mut Vec<u8>, width: u32, height: u32, x: i64, y: i64, pixel: u8, weight: u32)
    requires
        is_raster(old(img)@, width as int, height as int),
        1 <= weight <= 7,
        -1 <= x <= width,
        0 <= y <= height,
    ensures
        final(img)@ == spread(
            old(img)@,
            width as int,
            height as int,
            x as int,
            y as int,
            share(quant_error(pixel), weight as int),
        ),
        final(img)@.len() == old(img)@.len(),
{
    let len: usize = img.len();
    if 0 <= x && x < width as i64 && y < height as i64 {
        proof {
            lemma_cell_index(width as int, height as int, x as int, y as int);
            assert(0 <= y * width) by (nonlinear_arith)
                requires
                    0 <= y,
                    0 <= width,
            ;
        }
        let index: usize = (y as usize) * (width as usize) + (x as usize);
        let here: u32 = img[index] as u32;
        let lost: u32 = if pixel < 128 {
            pixel as u32
        } else {
            255 - pixel as u32
        };
        assert(lost * weight <= 1785) by (nonlinear_arith)
            requires
                lost <= 255,
                weight <= 7,
        ;
        let moved: u32 = if pixel < 128 {
            let delta: u32 = (lost * weight) / 16;
            let sum: u32 = here + delta;
            if sum > 255 {
                sum - 256
            } else {
                sum
            }
        } else {
            let delta: u32 = (lost * weight) / 16;
            if here >= delta {
                here - delta
            } else {
                here + 256 - delta
            }
        };
        proof {
            let e = quant_error(pixel);
            let d = (lost as int * weight as int) / 16;
            assert(0 <= d <= 111);
            if pixel < 128 {
                assert(e == lost);
                assert(share(e, weight as int) == d);
            } else {
                assert(-e == lost);
                if e == 0 {
                    assert(e * weight == 0 && lost * weight == 0) by (nonlinear_arith)
                        requires
                            e == 0,
                            lost == 0,
                    ;
                }
                assert(share(e, weight as int) == -d);
            }
            assert(moved as int == (here as int + share(e, weight as int)) % 256);
        }
        img[index] = moved as u8;
    }
}

/// One step of error diffusion, in place: the pixel at the cell `(x, y)`
/// becomes black below 128 and white otherwise, and its error goes to the
/// right neighbour (7/16) and to the three neighbours below (3/16 left,
/// 5/16 straight, 1/16 right), as far as the raster has them.
pub fn diffuse_pixel(img: &mut Vec<u8>, width: u32, height: u32, x: u32, y: u32)
    requires
        is_raster(old(img)@, width as int, height as int),
        x < width,
        y < height,
    ensures
        final(img)@ == diffuse_at(old(img)@, width as int, height as int, y * width + x),
        is_raster(final(img)@, width as int, height as int),
{
    proof {
        lemma_cell_index(width as int, height as int, x as int, y as int);
        assert(0 <= y * width) by (nonlinear_arith)
            requires
                0 <= y,
                0 <= width,
        ;
    }
    let len: usize = img.len();
    let index: usize = (y as usize) * (width as usize) + (x as usize);
    let pixel = img[index];
    img[index] = if pixel < 128 {
        0
    } else {
        255
    };
    spread_into(img, width, height, x as i64 + 1, y as i64, pixel, 7);
    spread_into(img, width, height, x as i64 - 1, y as i64 + 1, pixel, 3);
    spread_into(img, width, height, x as i64, y as i64 + 1, pixel, 5);
    spread_into(img, width, height, x as i64 + 1, y as i64 + 1, pixel, 1);
}

/// Error diffusion over the whole raster, in raster order.
fn diffuse(img: &mut Vec<u8>, width: u32, height: u32)
    requires
        is_raster(old(img)@, width as int, height as int),
    ensures
        final(img)@ == diffused(old(img)@, width as int, height as int, (width * height) as nat),
        is_raster(final(img)@, width as int, height as int),
        is_binary(final(img)@),
{
    let ghost w = width as int;
    let ghost h = height as int;
    let len: usize = img.len();
    let mut y: u32 = 0;
    let mut index: usize = 0;
    while y < height
        invariant
            len == w * h,
            w == width,
            h == height,
            is_raster(old(img)@, w, h),
            0 <= y <= height,
            index == y * w,
            img@.len() == w * h,
            img@ == diffused(old(img)@, w, h, index as nat),
        decreases height - y,
    {
        let mut x: u32 = 0;
        while x < width
            invariant
                len == w * h,
                w == width,
                h == height,
                is_raster(old(img)@, w, h),
                0 <= y < height,
                0 <= x <= width,
                index == y * w + x,
                img@.len() == w * h,
                img@ == diffused(old(img)@, w, h, index as nat),
            decreases width - x,
        {
            proof {
                lemma_cell_index(w, h, x as int, y as int);
            }
            diffuse_pixel(img, width, height, x, y);
            index = index + 1;
            x = x + 1;
        }
        proof {
            assert((y + 1) * w == y * w + w) by (nonlinear_arith);
        }
        y = y + 1;
    }
    proof {
        assert(index == w * h) by (nonlinear_arith)
            requires
                index == y * w,
                y == h,
        ;
        lemma_diffused_is_binary(old(img)@, w, h);
    }
}

/// Error-diffusion dithering of a grayscale raster, in place. Each pixel, in
/// raster order, becomes black below 128 and white otherwise, and its error
/// goes to the right neighbour (7/16) and to the three neighbours below it
/// (3/16 left, 5/16 straight, 1/16 right), each share rounded towards zero
/// and the sum kept to its low byte.
pub fn atkinson_dither(img: &mut Vec<u8>, width: u32, height: u32)
    requires
        is_raster(old(img)@, width as int, height as int),
    ensures
        final(img)@ == diffused(old(img)@, width as int, height as int, (width * height) as nat),
        is_raster(final(img)@, width as int, height as int),
        is_binary(final(img)@),
{
    diffuse(img, width, height)
}

/// The same diffusion under its second name: the two kernels are one, so
/// the two functions give equal rasters.
pub fn floyd_steinberg_dither(img: &mut Vec<u8>, width: u32, height: u32)
    requires
        is_raster(old(img)@, width as int, height as int),
    ensures
        final(img)@ == diffused(old(img)@, width as int, height as int, (width * height) as nat),
        is_raster(final(img)@, width as int, height as int),
        is_binary(final(img)@),
{
    diffuse(img, width, height)
}

/// The 4 x 4 ordered-dither matrix, row by row.
pub open spec fn bayer_entry(k: int) -> u8 {
    if k == 0 {
        0u8
    } else if k == 1 {
        8u8
    } else if k == 2 {
        2u8
    } else if k == 3 {
        10u8
    } else if k == 4 {
        12u8
    } else if k == 5 {
        4u8
    } else if k == 6 {
        14u8
    } else if k == 7 {
        6u8
    } else if k == 8 {
        3u8
    } else if k == 9 {
        11u8
    } else if k == 10 {
        1u8
    } else if k == 11 {
        9u8
    } else if k == 12 {
        15u8
    } else if k == 13 {
        7u8
    } else if k == 14 {
        13u8
    } else {
        5u8
    }
}

/// The matrix entry that the cell `(x, y)` is compared with.
pub open spec fn bayer_level(x: int, y: int) -> u8 {
    bayer_entry((x % 4) + (y % 4) * 4)
}

/// A pixel after ordered dithering: white where it exceeds its level.
pub open spec fn ordered_pixel(v: u8, x: int, y: int) -> u8 {
    if v > bayer_level(x, y) {
        255u8
    } else {
        0u8
    }
}

/// A raster after ordered dithering with the 4 x 4 matrix.
pub open spec fn ordered(s: Seq<u8>, width: int) -> Seq<u8> {
    Seq::new(s.len(), |i: int| ordered_pixel(s[i], i % width, i / width))
}

fn bayer_at(k: u32) -> (r: u8)
    requires
        k < 16,
    ensures
        r == bayer_entry(k as int),
{
    if k == 0 {
        0
    } else if k == 1 {
        8
    } else if k == 2 {
        2
    } else if k == 3 {
        10
    } else if k == 4 {
        12
    } else if k == 5 {
        4
    } else if k == 6 {
        14
    } else if k == 7 {
        6
    } else if k == 8 {
        3
    } else if k == 9 {
        11
    } else if k == 10 {
        1
    } else if k == 11 {
        9
    } else if k == 12 {
        15
    } else if k == 13 {
        7
    } else if k == 14 {
        13
    } else {
        5
    }
}

/// Ordered dithering, in place: each pixel becomes white where it exceeds the
/// entry of the 4 x 4 matrix at its column and row modulo four, black
/// otherwise.
pub fn ordered_4x4_dither(img: &mut Vec<u8>, width: u32, height: u32)
    requires
        is_raster(old(img)@, width as int, height as int),
    ensures
        final(img)@ == ordered(old(img)@, width as int),
        is_raster(final(img)@, width as int, height as int),
        is_binary(final(img)@),
{
    let ghost w = width as int;
    let ghost h = height as int;
    let len: usize = img.len();
    let mut y: u32 = 0;
    let mut index: usize = 0;
    while y < height
        invariant
            w == width,
            h == height,
            len == w * h,
            0 <= y <= height,
            index == y * w,
            img@.len() == old(img)@.len() == len,
            forall|j: int| 0 <= j < index ==> #[trigger] img@[j] == ordered(old(img)@, w)[j],
            forall|j: int| index <= j < len ==> #[trigger] img@[j] == old(img)@[j],
        decreases height - y,
    {
        let mut x: u32 = 0;
        while x < width
            invariant
                w == width,
                h == height,
                len == w * h,
                0 <= y < height,
                0 <= x <= width,
                index == y * w + x,
                img@.len() == old(img)@.len() == len,
                forall|j: int| 0 <= j < index ==> #[trigger] img@[j] == ordered(old(img)@, w)[j],
                forall|j: int| index <= j < len ==> #[trigger] img@[j] == old(img)@[j],
            decreases width - x,
        {
            proof {
                lemma_cell_index(w, h, x as int, y as int);
            }
            let level = bayer_at((x % 4) + (y % 4) * 4);
            img[index] = if img[index] > level {
                255
            } else {
                0
            };
            index = index + 1;
            x = x + 1;
        }
        proof {
            assert((y + 1) * w == y * w + w) by (nonlinear_arith);
        }
        y = y + 1;
    }
    proof {
        assert(index == w * h) by (nonlinear_arith)
            requires
                index == y * w,
                y == h,
        ;
        assert(img@ =~= ordered(old(img)@, w));
    }
}

} // verus!
