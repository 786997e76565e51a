//! The canvas of the loom: its size, the placing of the picture on it, and
//! the columns between which the picture lies.

use vstd::prelude::*;
use crate::grid::{is_raster, lemma_cell_index};

verus! {

/// The height that keeps the picture's proportions at the new width:
/// `source_height * content_width / source_width`, rounded to the nearest
/// integer (a half rounds up).
pub open spec fn planned_height(source_width: int, source_height: int, content_width: int) -> int {
    (2 * source_height * content_width + source_width) / (2 * source_width)
}

/// The width the picture is scaled to: the width asked for, but no more
/// than the loom has.
pub open spec fn planned_width(requested_width: int, loom_width: int) -> int {
    if requested_width <= loom_width {
        requested_width
    } else {
        loom_width
    }
}

/// The width the picture is scaled to.
pub fn content_width_for(requested_width: u32, loom_width: u32) -> (r: u32)
    ensures
        r == planned_width(requested_width as int, loom_width as int),
{
    if requested_width <= loom_width {
        requested_width
    } else {
        loom_width
    }
}

/// The height of the canvas for a picture of the given size scaled to
/// `content_width`; `None` for a picture without width, or where the height
/// is beyond what a raster can have.
pub fn computed_height(source_width: u32, source_height: u32, content_width: u32) -> (r: Option<u32>)
    ensures
        r == (if source_width > 0 && planned_height(
            source_width as int,
            source_height as int,
            content_width as int,
        ) <= u32::MAX {
            Some(
                planned_height(source_width as int, source_height as int, content_width as int) as u32,
            )
        } else {
            None
        }),
{
    if source_width == 0 {
        return None;
    }
    let h: u128 = source_height as u128;
    let c: u128 = content_width as u128;
    let w: u128 = source_width as u128;
    assert(h * c <= 0xffff_ffff * 0xffff_ffff) by (nonlinear_arith)
        requires
            0 <= h <= 0xffff_ffff,
            0 <= c <= 0xffff_ffff,
    ;
    let area: u128 = h * c;
    assert(2 * source_height * content_width == 2 * area) by (nonlinear_arith)
        requires
            area == source_height * content_width,
    ;
    let rounded: u128 = (2 * area + w) / (2 * w);
    if rounded <= 0xffff_ffff {
        Some(rounded as u32)
    } else {
        None
    }
}

/// The canvas as a raster of intensities: `loom_width` wide, the picture in
/// its top left corner, white to the right of it.
pub open spec fn canvas_of(content: Seq<u8>, content_width: int, loom_width: int, height: int) -> Seq<u8> {
    Seq::new(
        (loom_width * height) as nat,
        |i: int|
            if i % loom_width < content_width {
                content[(i / loom_width) * content_width + i % loom_width]
            } else {
                255u8
            },
    )
}

/// Places a picture of `content_width x height` intensities at the top left
/// of a white canvas of `loom_width x height`.
pub fn place_on_canvas(content: &Vec<u8>, content_width: u32, height: u32, loom_width: u32) -> (r: Vec<u8>)
    requires
        is_raster(content@, content_width as int, height as int),
        content_width <= loom_width,
        loom_width * height <= usize::MAX,
    ensures
        r@ == canvas_of(content@, content_width as int, loom_width as int, height as int),
        is_raster(r@, loom_width as int, height as int),
{
    let ghost cw = content_width as int;
    let ghost lw = loom_width as int;
    let ghost h = height as int;
    let ghost target = canvas_of(content@, cw, lw, h);
    let len: usize = content.len();
    let mut out: Vec<u8> = Vec::new();
    let mut y: u32 = 0;
    while y < height
        invariant
            cw == content_width,
            lw == loom_width,
            h == height,
            cw <= lw,
            len == content@.len() == cw * h,
            lw * h <= usize::MAX,
            target == canvas_of(content@, cw, lw, h),
            0 <= y <= height,
            out@.len() == y * lw,
            forall|j: int| 0 <= j < out@.len() ==> #[trigger] out@[j] == target[j],
        decreases height - y,
    {
        let mut x: u32 = 0;
        while x < loom_width
            invariant
                cw == content_width,
                lw == loom_width,
                h == height,
                cw <= lw,
                len == content@.len() == cw * h,
                lw * h <= usize::MAX,
                target == canvas_of(content@, cw, lw, h),
                0 <= y < height,
                0 <= x <= loom_width,
                out@.len() == y * lw + x,
                forall|j: int| 0 <= j < out@.len() ==> #[trigger] out@[j] == target[j],
            decreases loom_width - x,
        {
            proof {
                lemma_cell_index(lw, h, x as int, y as int);
            }
            if x < content_width {
                proof {
                    lemma_cell_index(cw, h, x as int, y as int);
                    assert(0 <= y * cw) by (nonlinear_arith)
                        requires
                            0 <= y,
                            0 <= cw,
                    ;
                }
                let v = content[(y as usize) * (content_width as usize) + (x as usize)];
                out.push(v);
            } else {
                out.push(255);
            }
            x = x + 1;
        }
        proof {
            assert((y + 1) * lw == y * lw + lw) by (nonlinear_arith);
        }
        y = y + 1;
    }
    proof {
        assert(out@.len() == lw * h) by (nonlinear_arith)
            requires
                out@.len() == y * lw,
                y == h,
        ;
        assert(out@ =~= target);
    }
    out
}

/// The number of pixels that are not white among the first `rows` pixels of
/// column `x`.
pub open spec fn dark_count(s: Seq<u8>, width: int, x: int, rows: int) -> int
    decreases rows,
{
    if rows <= 0 {
        0
    } else {
        dark_count(s, width, x, rows - 1) + if s[(rows - 1) * width + x] != 255 {
            1int
        } else {
            0int
        }
    }
}

/// Column `x` carries picture content: at least `threshold` of its pixels
/// are not white.
pub open spec fn has_content(s: Seq<u8>, width: int, height: int, x: int, threshold: int) -> bool {
    dark_count(s, width, x, height) >= threshold
}

/// The first column at or after `x` that carries content; `width` where
/// there is none.
pub open spec fn first_content(s: Seq<u8>, width: int, height: int, threshold: int, x: int) -> int
    decreases width - x,
{
    if x >= width {
        width
    } else if has_content(s, width, height, x, threshold) {
        x
    } else {
        first_content(s, width, height, threshold, x + 1)
    }
}

/// The last column at or before `x` that carries content; -1 where there is
/// none.
pub open spec fn last_content(s: Seq<u8>, width: int, height: int, threshold: int, x: int) -> int
    decreases x + 1,
{
    if x < 0 {
        -1
    } else if has_content(s, width, height, x, threshold) {
        x
    } else {
        last_content(s, width, height, threshold, x - 1)
    }
}

/// The start column: one column before the first column with content, kept
/// inside the raster; column 0 where no column has content.
pub open spec fn start_column(s: Seq<u8>, width: int, height: int, threshold: int) -> int {
    let c = first_content(s, width, height, threshold, 0);
    if c >= width || c == 0 {
        0
    } else {
        c - 1
    }
}

/// The end column: one column after the last column with content, kept
/// inside the raster; the last column where no column has content (0 for a
/// raster without columns).
pub open spec fn end_column(s: Seq<u8>, width: int, height: int, threshold: int) -> int {
    let c = last_content(s, width, height, threshold, width - 1);
    if width == 0 {
        0
    } else if c < 0 || c + 1 >= width {
        width - 1
    } else {
        c + 1
    }
}

/// Whether column `x` carries content: whether at least `threshold` of its
/// pixels are not white.
pub fn column_has_content(img: &Vec<u8>, width: u32, height: u32, x: u32, threshold: u32) -> (r: bool)
    requires
        is_raster(img@, width as int, height as int),
        x < width,
    ensures
        r == has_content(img@, width as int, height as int, x as int, threshold as int),
{
    let ghost w = width as int;
    let ghost h = height as int;
    let len: usize = img.len();
    let mut count: u32 = 0;
    let mut y: u32 = 0;
    while y < height
        invariant
            w == width,
            h == height,
            len == img@.len() == w * h,
            x < width,
            0 <= y <= height,
            0 <= count <= y,
            count == dark_count(img@, w, x as int, y as int),
        decreases height - y,
    {
        proof {
            lemma_cell_index(w, h, x as int, y as int);
            assert(0 <= y * w) by (nonlinear_arith)
                requires
                    0 <= y,
                    0 <= w,
            ;
        }
        if img[(y as usize) * (width as usize) + (x as usize)] != 255 {
            count = count + 1;
        }
        y = y + 1;
    }
    count >= threshold
}

/// Finds the columns between which the picture lies on its canvas. A column
/// carries content where at least `threshold` of its pixels are not white.
/// The start column is the one before the first such column from the left,
/// the end column the one after the first such column from the right, both
/// kept inside the raster; where no column carries content they are the
/// first and the last column.
pub fn locate_content(img: &Vec<u8>, width: u32, height: u32, threshold: u32) -> (r: (u32, u32))
    requires
        is_raster(img@, width as int, height as int),
    ensures
        r.0 == start_column(img@, width as int, height as int, threshold as int),
        r.1 == end_column(img@, width as int, height as int, threshold as int),
        r.0 <= r.1,
        width > 0 ==> r.1 < width,
{
    let ghost w = width as int;
    let ghost h = height as int;
    let ghost k = threshold as int;
    if width == 0 {
        return (0, 0);
    }
    let mut first: u32 = 0;
    while first < width && !column_has_content(img, width, height, first, threshold)
        invariant
            w == width,
            h == height,
            k == threshold,
            is_raster(img@, w, h),
            0 <= first <= width,
            first_content(img@, w, h, k, 0) == first_content(img@, w, h, k, first as int),
        decreases width - first,
    {
        first = first + 1;
    }
    assert(first_content(img@, w, h, k, 0) == first);
    if first == width {
        proof {
            lemma_no_content(img@, w, h, k, w - 1);
        }
        return (0, width - 1);
    }
    let mut last: u32 = width - 1;
    while last > first && !column_has_content(img, width, height, last, threshold)
        invariant
            w == width,
            h == height,
            k == threshold,
            is_raster(img@, w, h),
            first <= last < width,
            has_content(img@, w, h, first as int, k),
            last_content(img@, w, h, k, w - 1) == last_content(img@, w, h, k, last as int),
        decreases last,
    {
        last = last - 1;
    }
    assert(last_content(img@, w, h, k, w - 1) == last);
    let start: u32 = if first == 0 {
        0
    } else {
        first - 1
    };
    let end: u32 = if last + 1 >= width {
        width - 1
    } else {
        last + 1
    };
    (start, end)
}

/// Where no column from `x` on carries content, none at or before any
/// column does that the scan from the left has passed.
proof fn lemma_no_content(s: Seq<u8>, width: int, height: int, threshold: int, x: int)
    requires
        first_content(s, width, height, threshold, 0) == width,
        -1 <= x < width,
    ensures
        last_content(s, width, height, threshold, x) == -1,
    decreases x + 1,
{
    if x >= 0 {
        lemma_first_skips(s, width, height, threshold, 0, x);
        lemma_no_content(s, width, height, threshold, x - 1);
    }
}

/// A column before the first column with content carries none.
proof fn lemma_first_skips(s: Seq<u8>, width: int, height: int, threshold: int, from: int, x: int)
    requires
        0 <= from <= x < width,
        x < first_content(s, width, height, threshold, from),
    ensures
        !has_content(s, width, height, x, threshold),
    decreases x - from,
{
    if from < x {
        lemma_first_skips(s, width, height, threshold, from + 1, x);
    }
}

} // verus!
