//! Intensities: luma of a colour pixel, and stretching a raster's range.

use vstd::prelude::*;

verus! {

/// The perceptual luma of a colour, from its red, green and blue channels.
pub open spec fn luma_of(r: u8, g: u8, b: u8) -> u8 {
    ((2126 * r + 7152 * g + 722 * b) / 10000) as u8
}

/// The luma raster of an RGBA raster: one intensity for every four bytes;
/// the alpha channel is left out of account.
pub open spec fn luminance(rgba: Seq<u8>) -> Seq<u8> {
    Seq::new(
        rgba.len() / 4,
        |i: int| luma_of(rgba[4 * i], rgba[4 * i + 1], rgba[4 * i + 2]),
    )
}

/// The perceptual luma of one colour.
pub fn luma(r: u8, g: u8, b: u8) -> (l: u8)
    ensures
        l == luma_of(r, g, b),
{
    let sum: u32 = 2126 * (r as u32) + 7152 * (g as u32) + 722 * (b as u32);
    (sum / 10000) as u8
}

/// Reduces an RGBA raster to its luma raster.
pub fn extract_luminance(rgba: &Vec<u8>) -> (r: Vec<u8>)
    requires
        rgba@.len() % 4 == 0,
    ensures
        r@ == luminance(rgba@),
        r@.len() * 4 == rgba@.len(),
{
    let total: usize = rgba.len();
    let count: usize = total / 4;
    let mut out: Vec<u8> = Vec::with_capacity(count);
    let mut i: usize = 0;
    while i < count
        invariant
            total == rgba@.len(),
            count == total / 4,
            total % 4 == 0,
            0 <= i <= count,
            out@.len() == i,
            forall|j: int| 0 <= j < i ==> #[trigger] out@[j] == luminance(rgba@)[j],
        decreases count - i,
    {
        let l = luma(rgba[4 * i], rgba[4 * i + 1], rgba[4 * i + 2]);
        out.push(l);
        i = i + 1;
    }
    proof {
        assert(out@ =~= luminance(rgba@));
    }
    out
}

/// The darkest intensity of a raster; 255 for an empty one.
pub open spec fn lowest(s: Seq<u8>) -> int
    decreases s.len(),
{
    if s.len() == 0 {
        255
    } else if s.last() < lowest(s.drop_last()) {
        s.last() as int
    } else {
        lowest(s.drop_last())
    }
}

/// The brightest intensity of a raster; 0 for an empty one.
pub open spec fn highest(s: Seq<u8>) -> int
    decreases s.len(),
{
    if s.len() == 0 {
        0
    } else if s.last() > highest(s.drop_last()) {
        s.last() as int
    } else {
        highest(s.drop_last())
    }
}

/// The raster has no contrast: no pixel is brighter than another.
pub open spec fn is_flat(s: Seq<u8>) -> bool {
    highest(s) <= lowest(s)
}

/// An intensity stretched from the range `lo ..= hi` to `0 ..= 255`, rounded
/// to the nearest integer (a half rounds up).
pub open spec fn stretched(v: u8, lo: int, hi: int) -> int {
    ((v - lo) * 510 + (hi - lo)) / (2 * (hi - lo))
}

/// The raster with its range stretched to the full scale.
pub open spec fn normalized(s: Seq<u8>) -> Seq<u8> {
    Seq::new(s.len(), |i: int| stretched(s[i], lowest(s), highest(s)) as u8)
}

/// Every pixel lies between the darkest and the brightest intensity, and
/// both are intensities.
pub proof fn lemma_range(s: Seq<u8>)
    ensures
        0 <= lowest(s) <= 255,
        0 <= highest(s) <= 255,
        forall|i: int| 0 <= i < s.len() ==> lowest(s) <= #[trigger] s[i] <= highest(s),
    decreases s.len(),
{
    if s.len() > 0 {
        lemma_range(s.drop_last());
        assert forall|i: int| 0 <= i < s.len() implies lowest(s) <= #[trigger] s[i] <= highest(s) by {
            if i < s.len() - 1 {
                assert(s[i] == s.drop_last()[i]);
            }
        }
    }
}

/// A raster of one colour throughout has no contrast.
pub proof fn lemma_uniform_is_flat(s: Seq<u8>)
    requires
        forall|i: int, j: int| 0 <= i < s.len() && 0 <= j < s.len() ==> s[i] == s[j],
    ensures
        is_flat(s),
        s.len() > 0 ==> lowest(s) == s[0] && highest(s) == s[0],
    decreases s.len(),
{
    if s.len() > 0 {
        let t = s.drop_last();
        assert forall|i: int, j: int| 0 <= i < t.len() && 0 <= j < t.len() implies t[i] == t[j] by {
            assert(t[i] == s[i] && t[j] == s[j]);
        }
        lemma_uniform_is_flat(t);
        if t.len() > 0 {
            assert(t[0] == s[0]);
            assert(s.last() == s[0]);
        }
    }
}

/// A stretched intensity is an intensity again; the darkest goes to 0 and
/// the brightest to 255.
pub proof fn lemma_stretched_range(v: u8, lo: int, hi: int)
    requires
        0 <= lo <= v <= hi <= 255,
        lo < hi,
    ensures
        0 <= stretched(v, lo, hi) <= 255,
        v == lo ==> stretched(v, lo, hi) == 0,
        v == hi ==> stretched(v, lo, hi) == 255,
{
    let d = v - lo;
    let r = hi - lo;
    assert(0 <= (d * 510 + r) / (2 * r) <= 255) by (nonlinear_arith)
        requires
            0 <= d <= r,
            1 <= r,
    ;
    if v == lo {
        assert((d * 510 + r) / (2 * r) == 0) by (nonlinear_arith)
            requires
                d == 0,
                1 <= r,
        ;
    }
    if v == hi {
        assert((d * 510 + r) / (2 * r) == 255) by (nonlinear_arith)
            requires
                d == r,
                1 <= r,
        ;
    }
}

/// Stretches the raster's range to the full scale, in place. Returns `false`
/// and changes nothing where the raster has no contrast (an empty raster has
/// none); otherwise returns `true`, and every pixel `v` has become
/// `round((v - lowest) * 255 / (highest - lowest))`.
pub fn normalize_range(img: &mut Vec<u8>) -> (r: bool)
    ensures
        r == !is_flat(old(img)@),
        !r ==> final(img)@ == old(img)@,
        r ==> final(img)@ == normalized(old(img)@),
        final(img)@.len() == old(img)@.len(),
{
    let len: usize = img.len();
    let mut lo: u8 = 255;
    let mut hi: u8 = 0;
    let mut i: usize = 0;
    while i < len
        invariant
            len == img@.len(),
            img@ == old(img)@,
            0 <= i <= len,
            lo == lowest(img@.take(i as int)),
            hi == highest(img@.take(i as int)),
        decreases len - i,
    {
        proof {
            assert(img@.take(i + 1).drop_last() =~= img@.take(i as int));
        }
        let v = img[i];
        if v < lo {
            lo = v;
        }
        if v > hi {
            hi = v;
        }
        i = i + 1;
    }
    proof {
        assert(img@.take(len as int) =~= img@);
        lemma_range(img@);
    }
    if hi <= lo {
        return false;
    }
    let range: u32 = (hi - lo) as u32;
    let mut i: usize = 0;
    while i < len
        invariant
            len == img@.len() == old(img)@.len(),
            0 <= i <= len,
            lo == lowest(old(img)@),
            hi == highest(old(img)@),
            lo < hi,
            range == hi - lo,
            forall|j: int| 0 <= j < len ==> lo <= #[trigger] old(img)@[j] <= hi,
            forall|j: int| 0 <= j < i ==> #[trigger] img@[j] == normalized(old(img)@)[j],
            forall|j: int| i <= j < len ==> #[trigger] img@[j] == old(img)@[j],
        decreases len - i,
    {
        let v = img[i];
        assert(lo <= old(img)@[i as int] <= hi);
        proof {
            lemma_stretched_range(v, lo as int, hi as int);
        }
        let offset: u32 = (v - lo) as u32;
        let scaled: u32 = (offset * 510 + range) / (2 * range);
        img[i] = scaled as u8;
        i = i + 1;
    }
    proof {
        assert(img@ =~= normalized(old(img)@));
    }
    true
}

} // verus!
