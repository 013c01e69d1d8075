//! Filling a pixel buffer in row-major order.

use vstd::prelude::*;
use crate::grid::{index_is_monotonic, index_is_surjective, index_of, on_grid, pixel_count, pixel_index};
use crate::shade::{shade, shade_of};

verus! {

/// The iteration budget of every pixel. With it an escape time lies in
/// `0..255`, so that `255 - i` is a nonzero intensity.
pub const ITERATION_BUDGET: u32 = 255;

/// Whether the byte of `pixel` in `pixels` is the intensity of an escape
/// result that `escape` gives, under the fixed budget, for a point that
/// `to_point` gives for `pixel`.
pub open spec fn is_painted<P, M, E>(
    pixels: Seq<u8>,
    bounds: (usize, usize),
    to_point: M,
    escape: E,
    pixel: (usize, usize),
) -> bool where M: Fn((usize, usize), (usize, usize)) -> P, E: Fn(P, u32) -> Option<u32> {
    exists|point: P, result: Option<u32>|
        {
            &&& #[trigger] to_point.ensures((bounds, pixel), point)
            &&& #[trigger] escape.ensures((point, ITERATION_BUDGET), result)
            &&& pixels[index_of(bounds, pixel)] == shade_of(result)
        }
}

/// Whether every pixel of the grid is painted in `pixels`.
pub open spec fn is_rendered<P, M, E>(
    pixels: Seq<u8>,
    bounds: (usize, usize),
    to_point: M,
    escape: E,
) -> bool where M: Fn((usize, usize), (usize, usize)) -> P, E: Fn(P, u32) -> Option<u32> {
    &&& pixels.len() == pixel_count(bounds)
    &&& forall|col: usize, row: usize|
        on_grid(bounds, (col, row)) ==> #[trigger] is_painted(
            pixels,
            bounds,
            to_point,
            escape,
            (col, row),
        )
}

/// Fills `pixels`, a row-major buffer with one byte for each pixel of the
/// grid `bounds`, given as `(width, height)`.
///
/// The pixels are visited row by row from the top, each row from the left.
/// For each pixel `(col, row)`, `to_point` is called once with the bounds and
/// the pixel, `escape` is called once with the point it returned and
/// [`ITERATION_BUDGET`], and the intensity of the result is written at
/// `row * width + col`.
pub fn render<P, M, E>(pixels: &mut [u8], bounds: (usize, usize), to_point: M, escape: E) where
    M: Fn((usize, usize), (usize, usize)) -> P,
    E: Fn(P, u32) -> Option<u32>,

    requires
        old(pixels).len() == pixel_count(bounds),
        forall|pixel: (usize, usize)| on_grid(bounds, pixel) ==> #[trigger] to_point.requires((bounds, pixel)),
        forall|pixel: (usize, usize), point: P|
            on_grid(bounds, pixel) && #[trigger] to_point.ensures((bounds, pixel), point)
                ==> escape.requires((point, ITERATION_BUDGET)),
    ensures
        is_rendered(final(pixels)@, bounds, to_point, escape),
{
    let (width, height) = bounds;
    let mut row: usize = 0;
    while row < height
        invariant
            bounds == (width, height),
            row <= height,
            pixels.len() == pixel_count(bounds),
            forall|pixel: (usize, usize)|
                on_grid(bounds, pixel) ==> #[trigger] to_point.requires((bounds, pixel)),
            forall|pixel: (usize, usize), point: P|
            on_grid(bounds, pixel) && #[trigger] to_point.ensures((bounds, pixel), point)
                ==> escape.requires((point, ITERATION_BUDGET)),
            forall|c: usize, r: usize|
                c < width && r < row ==> #[trigger] is_painted(
                    pixels@,
                    bounds,
                    to_point,
                    escape,
                    (c, r),
                ),
        decreases height - row,
    {
        let mut col: usize = 0;
        while col < width
            invariant
                bounds == (width, height),
                row < height,
                col <= width,
                pixels.len() == pixel_count(bounds),
                forall|pixel: (usize, usize)|
                    on_grid(bounds, pixel) ==> #[trigger] to_point.requires((bounds, pixel)),
                forall|pixel: (usize, usize), point: P|
            on_grid(bounds, pixel) && #[trigger] to_point.ensures((bounds, pixel), point)
                ==> escape.requires((point, ITERATION_BUDGET)),
                forall|c: usize, r: usize|
                    c < width && (r < row || (r == row && c < col)) ==> #[trigger] is_painted(
                        pixels@,
                        bounds,
                        to_point,
                        escape,
                        (c, r),
                    ),
            decreases width - col,
        {
            let point = to_point(bounds, (col, row));
            let result = escape(point, ITERATION_BUDGET);
            let index = pixel_index(bounds, (col, row));
            let ghost before = pixels@;
            pixels[index] = shade(result);
            proof {
                assert forall|c: usize, r: usize|
                    c < width && (r < row || (r == row && c < col + 1)) implies #[trigger] is_painted(
                    pixels@,
                    bounds,
                    to_point,
                    escape,
                    (c, r),
                ) by {
                    if r == row && c == col {
                        assert(to_point.ensures((bounds, (col, row)), point));
                        assert(escape.ensures((point, ITERATION_BUDGET), result));
                    } else {
                        index_is_monotonic(bounds, (c, r), (col, row));
                        assert(is_painted(before, bounds, to_point, escape, (c, r)));
                    }
                }
            }
            col += 1;
        }
        row += 1;
    }
}

/// Rendering is determined by its inputs: where `to_point` and `escape` are
/// functions, two buffers that were rendered for the same grid hold the same
/// bytes.
pub proof fn render_is_deterministic<P, M, E>(
    first: Seq<u8>,
    second: Seq<u8>,
    bounds: (usize, usize),
    to_point: M,
    escape: E,
) where M: Fn((usize, usize), (usize, usize)) -> P, E: Fn(P, u32) -> Option<u32>
    requires
        forall|pixel: (usize, usize), a: P, b: P|
            #![trigger to_point.ensures((bounds, pixel), a), to_point.ensures((bounds, pixel), b)]
            to_point.ensures((bounds, pixel), a) && to_point.ensures((bounds, pixel), b) ==> a == b,
        forall|point: P, a: Option<u32>, b: Option<u32>|
            #![trigger escape.ensures((point, ITERATION_BUDGET), a), escape.ensures((point, ITERATION_BUDGET), b)]
            escape.ensures((point, ITERATION_BUDGET), a) && escape.ensures(
                (point, ITERATION_BUDGET),
                b,
            ) ==> a == b,
        is_rendered(first, bounds, to_point, escape),
        is_rendered(second, bounds, to_point, escape),
    ensures
        first == second,
{
    assert forall|i: int| 0 <= i < first.len() implies first[i] == second[i] by {
        index_is_surjective(bounds, i);
        let pixel = ((i % (bounds.0 as int)) as usize, (i / (bounds.0 as int)) as usize);
        assert(is_painted(first, bounds, to_point, escape, pixel));
        assert(is_painted(second, bounds, to_point, escape, pixel));
    }
    assert(first =~= second);
}

} // verus!
