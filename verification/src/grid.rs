//! The row-major layout of a pixel grid in a flat buffer.

use vstd::prelude::*;

verus! {

/// The number of pixels of a grid with the given `(width, height)`.
pub open spec fn pixel_count(bounds: (usize, usize)) -> int {
    bounds.0 * bounds.1
}

/// Whether `pixel`, given as `(col, row)`, lies on the grid.
pub open spec fn on_grid(bounds: (usize, usize), pixel: (usize, usize)) -> bool {
    pixel.0 < bounds.0 && pixel.1 < bounds.1
}

/// The place of `pixel`, given as `(col, row)`, in a row-major buffer.
pub open spec fn index_of(bounds: (usize, usize), pixel: (usize, usize)) -> int {
    pixel.1 * bounds.0 + pixel.0
}

/// A pixel that comes earlier in row-major order has the smaller index, and
/// every index of a pixel on the grid is below the number of pixels.
pub proof fn index_is_monotonic(bounds: (usize, usize), a: (usize, usize), b: (usize, usize))
    requires
        on_grid(bounds, a),
        on_grid(bounds, b),
        a.1 < b.1 || (a.1 == b.1 && a.0 < b.0),
    ensures
        0 <= index_of(bounds, a) < index_of(bounds, b) < pixel_count(bounds),
{
    let w = bounds.0 as int;
    let h = bounds.1 as int;
    let ar = a.1 as int;
    let br = b.1 as int;
    assert(ar * w + w <= br * w || ar == br) by (nonlinear_arith)
        requires
            ar <= br,
            0 <= w,
    ;
    assert(br * w + w <= h * w) by (nonlinear_arith)
        requires
            br + 1 <= h,
            0 <= w,
    ;
    assert(0 <= ar * w) by (nonlinear_arith)
        requires
            0 <= ar,
            0 <= w,
    ;
    assert(h * w == w * h) by (nonlinear_arith);
}

/// The index of a pixel on the grid is below the number of pixels.
pub proof fn index_is_in_buffer(bounds: (usize, usize), pixel: (usize, usize))
    requires
        on_grid(bounds, pixel),
    ensures
        0 <= index_of(bounds, pixel) < pixel_count(bounds),
{
    let w = bounds.0 as int;
    let h = bounds.1 as int;
    let r = pixel.1 as int;
    assert(r * w + w <= h * w) by (nonlinear_arith)
        requires
            r + 1 <= h,
            0 <= w,
    ;
    assert(0 <= r * w) by (nonlinear_arith)
        requires
            0 <= r,
            0 <= w,
    ;
    assert(h * w == w * h) by (nonlinear_arith);
}

/// Two pixels on the grid with the same index are the same pixel.
pub proof fn index_is_injective(bounds: (usize, usize), a: (usize, usize), b: (usize, usize))
    requires
        on_grid(bounds, a),
        on_grid(bounds, b),
        index_of(bounds, a) == index_of(bounds, b),
    ensures
        a == b,
{
    if a.1 < b.1 || (a.1 == b.1 && a.0 < b.0) {
        index_is_monotonic(bounds, a, b);
    } else if b.1 < a.1 || (b.1 == a.1 && b.0 < a.0) {
        index_is_monotonic(bounds, b, a);
    }
}

/// Every place of the buffer is the index of a pixel on the grid: the pixel
/// in column `i % width` of row `i / width`.
pub proof fn index_is_surjective(bounds: (usize, usize), i: int)
    requires
        0 <= i < pixel_count(bounds),
    ensures
        bounds.0 > 0,
        on_grid(bounds, ((i % (bounds.0 as int)) as usize, (i / (bounds.0 as int)) as usize)),
        index_of(bounds, ((i % (bounds.0 as int)) as usize, (i / (bounds.0 as int)) as usize)) == i,
{
    let w = bounds.0 as int;
    let h = bounds.1 as int;
    assert(w > 0) by (nonlinear_arith)
        requires
            0 <= i < w * h,
            0 <= w,
    ;
    let q = i / w;
    let r = i % w;
    assert(i == q * w + r && 0 <= r < w && 0 <= q) by (nonlinear_arith)
        requires
            q == i / w,
            r == i % w,
            w > 0,
            0 <= i,
    ;
    assert(q < h) by (nonlinear_arith)
        requires
            i == q * w + r,
            0 <= r,
            i < w * h,
            w > 0,
    ;
}

/// Whether a buffer of `len` bytes holds exactly one byte for each pixel of
/// the grid.
pub fn buffer_fits(len: usize, bounds: (usize, usize)) -> (fits: bool)
    ensures
        fits == (len == pixel_count(bounds)),
{
    match bounds.0.checked_mul(bounds.1) {
        Some(count) => len == count,
        None => false,
    }
}

/// Computes [`index_of`] for a pixel on a grid whose pixels can be counted in
/// a `usize`.
pub fn pixel_index(bounds: (usize, usize), pixel: (usize, usize)) -> (index: usize)
    requires
        on_grid(bounds, pixel),
        pixel_count(bounds) <= usize::MAX,
    ensures
        index == index_of(bounds, pixel),
        index < pixel_count(bounds),
{
    proof {
        index_is_in_buffer(bounds, pixel);
        let w = bounds.0 as int;
        let r = pixel.1 as int;
        assert(0 <= r * w) by (nonlinear_arith)
            requires
                0 <= r,
                0 <= w,
        ;
    }
    pixel.1 * bounds.0 + pixel.0
}

} // verus!
