//! The tabby binding: an alternating strip stamped over the pattern.

use vstd::prelude::*;
use crate::grid::{is_binary, is_raster, lemma_cell_index, lemma_index_cell};

verus! {

/// The tabby pixel at place `k` of a strip in row `y`: even rows start black
/// (0, 255, 0, ...), odd rows start white (255, 0, 255, ...).
pub open spec fn tabby_pixel(y: int, k: int) -> u8 {
    if (y + k) % 2 == 0 {
        0u8
    } else {
        255u8
    }
}

/// The strip width that fits: no wider than the raster.
pub open spec fn fitted_width(width: int, tabby_width: int) -> int {
    if tabby_width <= width {
        tabby_width
    } else {
        width
    }
}

/// The column at which the left strip ends: `start_column`, moved so that
/// the whole strip lies inside the raster.
pub open spec fn left_edge(width: int, start_column: int, tabby_width: int) -> int {
    let t = fitted_width(width, tabby_width);
    if start_column < t {
        t
    } else if start_column > width {
        width
    } else {
        start_column
    }
}

/// The column at which the right strip begins: `end_column`, moved so that
/// the whole strip lies inside the raster.
pub open spec fn right_edge(width: int, end_column: int, tabby_width: int) -> int {
    let t = fitted_width(width, tabby_width);
    if end_column > width - t {
        width - t
    } else {
        end_column
    }
}

/// The pixel of the stamped raster at the cell `(x, y)`: the tabby pattern
/// inside the right strip, else inside the left strip, else what was there.
pub open spec fn stamped_pixel(
    s: Seq<u8>,
    width: int,
    x: int,
    y: int,
    start_column: int,
    end_column: int,
    tabby_width: int,
) -> u8 {
    let t = fitted_width(width, tabby_width);
    let left = left_edge(width, start_column, tabby_width);
    let right = right_edge(width, end_column, tabby_width);
    if right <= x < right + t {
        tabby_pixel(y, x - right)
    } else if left - t <= x < left {
        tabby_pixel(y, x - (left - t))
    } else {
        s[y * width + x]
    }
}

/// The raster with both strips stamped into every row.
pub open spec fn stamped(
    s: Seq<u8>,
    width: int,
    start_column: int,
    end_column: int,
    tabby_width: int,
) -> Seq<u8> {
    Seq::new(
        s.len(),
        |i: int|
            stamped_pixel(s, width, i % width, i / width, start_column, end_column, tabby_width),
    )
}

/// Stamping keeps a black-and-white raster black and white.
pub proof fn lemma_stamped_binary(
    s: Seq<u8>,
    width: int,
    height: int,
    start_column: int,
    end_column: int,
    tabby_width: int,
)
    requires
        is_raster(s, width, height),
        is_binary(s),
    ensures
        is_binary(stamped(s, width, start_column, end_column, tabby_width)),
{
    let t = stamped(s, width, start_column, end_column, tabby_width);
    assert forall|i: int| 0 <= i < t.len() implies #[trigger] t[i] == 0u8 || t[i] == 255u8 by {
        assert(width > 0) by (nonlinear_arith)
            requires
                0 < width * height,
                0 <= width,
        ;
        lemma_index_cell(width, height, i);
        assert(s[i] == 0u8 || s[i] == 255u8);
    }
}

/// Writes the tabby pattern of row `y` into the `count` pixels from column
/// `from` on.
fn stamp_strip(img: &mut Vec<u8>, width: u32, height: u32, y: u32, from: u32, count: u32)
    requires
        is_raster(old(img)@, width as int, height as int),
        y < height,
        from + count <= width,
    ensures
        final(img)@.len() == old(img)@.len(),
        forall|i: int|
            0 <= i < old(img)@.len() ==> #[trigger] final(img)@[i] == (if y * width + from <= i < y
                * width + from + count {
                tabby_pixel(y as int, i - (y * width + from))
            } else {
                old(img)@[i]
            }),
{
    let ghost w = width as int;
    let ghost h = height as int;
    let len: usize = img.len();
    proof {
        assert(0 <= y * w && y * w + w <= w * h) by (nonlinear_arith)
            requires
                0 <= y < h,
                0 <= w,
        ;
    }
    let base: usize = (y as usize) * (width as usize) + (from as usize);
    let mut k: u32 = 0;
    while k < count
        invariant
            w == width,
            h == height,
            len == w * h,
            img@.len() == old(img)@.len() == len,
            base == y * w + from,
            base + count <= len,
            0 <= k <= count,
            forall|i: int|
                0 <= i < len ==> #[trigger] img@[i] == (if base <= i < base + k {
                    tabby_pixel(y as int, i - base)
                } else {
                    old(img)@[i]
                }),
        decreases count - k,
    {
        let parity: u32 = (y % 2 + k % 2) % 2;
        assert(parity == (y + k) % 2);
        img[base + k as usize] = if parity == 0 {
            0
        } else {
            255
        };
        k = k + 1;
    }
}

/// Stamps the tabby binding into the raster, in place. In every row the
/// `tabby_width` pixels that end at `start_column` and the `tabby_width`
/// pixels that begin at `end_column` are overwritten with the alternating
/// pattern, which starts black in even rows and white in odd rows. A strip
/// wider than the raster is cut to its width, and a column that would put a
/// strip outside the raster is moved inwards until the strip fits; where the
/// strips overlap the right one is on top.
pub fn loom_tabby(
    img: &mut Vec<u8>,
    width: u32,
    height: u32,
    start_column: u32,
    end_column: u32,
    tabby_width: usize,
)
    requires
        is_raster(old(img)@, width as int, height as int),
    ensures
        final(img)@ == stamped(
            old(img)@,
            width as int,
            start_column as int,
            end_column as int,
            tabby_width as int,
        ),
        is_raster(final(img)@, width as int, height as int),
        is_binary(old(img)@) ==> is_binary(final(img)@),
{
    let ghost w = width as int;
    let ghost h = height as int;
    let ghost target = stamped(old(img)@, w, start_column as int, end_column as int, tabby_width as int);
    let len: usize = img.len();
    let t: u32 = if tabby_width <= width as usize {
        tabby_width as u32
    } else {
        width
    };
    let left: u32 = if start_column < t {
        t
    } else if start_column > width {
        width
    } else {
        start_column
    };
    let right: u32 = if end_column > width - t {
        width - t
    } else {
        end_column
    };
    assert(t == fitted_width(w, tabby_width as int));
    assert(left == left_edge(w, start_column as int, tabby_width as int));
    assert(right == right_edge(w, end_column as int, tabby_width as int));
    let mut y: u32 = 0;
    while y < height
        invariant
            w == width,
            h == height,
            len == w * h,
            img@.len() == old(img)@.len() == len,
            target == stamped(old(img)@, w, start_column as int, end_column as int, tabby_width as int),
            t == fitted_width(w, tabby_width as int),
            left == left_edge(w, start_column as int, tabby_width as int),
            right == right_edge(w, end_column as int, tabby_width as int),
            0 <= y <= height,
            forall|i: int|
                0 <= i < len ==> #[trigger] img@[i] == (if i < y * w {
                    target[i]
                } else {
                    old(img)@[i]
                }),
        decreases height - y,
    {
        let ghost before = img@;
        stamp_strip(img, width, height, y, left - t, t);
        stamp_strip(img, width, height, y, right, t);
        proof {
            assert((y + 1) * w == y * w + w) by (nonlinear_arith);
            assert(0 <= y * w && y * w + w <= w * h) by (nonlinear_arith)
                requires
                    0 <= y < h,
                    0 <= w,
            ;
            assert forall|i: int| 0 <= i < len implies #[trigger] img@[i] == (if i < (y + 1) * w {
                target[i]
            } else {
                old(img)@[i]
            }) by {
                if y * w <= i < (y + 1) * w {
                    lemma_cell_index(w, h, i - y * w, y as int);
                    assert(before[i] == old(img)@[i]);
                } else {
                    assert(before[i] == img@[i]);
                }
            }
        }
        y = y + 1;
    }
    proof {
        assert(y * w == len) by (nonlinear_arith)
            requires
                y == h,
                len == w * h,
        ;
        assert(img@ =~= target);
        if is_binary(old(img)@) {
            lemma_stamped_binary(
                old(img)@,
                w,
                h,
                start_column as int,
                end_column as int,
                tabby_width as int,
            );
        }
    }
}

} // verus!
