//! Coordinate/index mapping for the rectangular tile grid.
//!
//! The grid is stored as one flat sequence of length `width * height`,
//! addressed row by row: the cell `(x, y)` lives at index `y * width + x`.
//! Every consumer of the grid goes through `xy_idx`, so the mapping is
//! defined once and proved to be a bijection on the valid coordinates.

use vstd::prelude::*;

verus! {

/// Index of the cell `(x, y)` in a row-major grid of the given width.
pub open spec fn spec_xy_idx(x: int, y: int, width: int) -> int {
    y * width + x
}

/// Row-major index of `(x, y)`; the single source of truth for the
/// coordinate-to-index conversion.
pub fn xy_idx(x: i32, y: i32, width: i32) -> (idx: usize)
    requires
        0 < width,
        0 <= x < width,
        0 <= y,
        y * width + x <= usize::MAX,
    ensures
        idx == spec_xy_idx(x as int, y as int, width as int),
{
    proof {
        lemma_xy_idx_in_row(x as int, y as int, width as int);
    }
    (y as usize * width as usize) + x as usize
}

/// The index of an in-row cell is nonnegative.
pub proof fn lemma_xy_idx_in_row(x: int, y: int, width: int)
    requires
        0 < width,
        0 <= x < width,
        0 <= y,
    ensures
        y * width <= spec_xy_idx(x, y, width) < (y + 1) * width,
        0 <= spec_xy_idx(x, y, width),
{
    assert(y * width <= y * width + x < (y + 1) * width && 0 <= y * width + x)
        by (nonlinear_arith)
        requires 0 < width && 0 <= x < width && 0 <= y;
}

/// Index mapping stays inside the grid: valid coordinates give an index
/// below `width * height`.
pub proof fn lemma_xy_idx_bounds(x: int, y: int, width: int, height: int)
    requires
        0 < width,
        0 <= x < width,
        0 <= y < height,
    ensures
        0 <= spec_xy_idx(x, y, width) < width * height,
{
    assert(0 <= y * width + x < width * height)
        by (nonlinear_arith)
        requires 0 < width && 0 <= x < width && 0 <= y < height;
}

/// The coordinate-to-index mapping is a bijection on the valid coordinates:
/// the index determines the coordinates (`x = idx % width`, `y = idx / width`),
/// so no two distinct cells share an index.
pub proof fn lemma_xy_idx_bijective(x: int, y: int, width: int, height: int)
    requires
        0 < width,
        0 <= x < width,
        0 <= y < height,
    ensures
        spec_xy_idx(x, y, width) % width == x,
        spec_xy_idx(x, y, width) / width == y,
{
    assert((y * width + x) % width == x && (y * width + x) / width == y)
        by (nonlinear_arith)
        requires 0 < width && 0 <= x < width && 0 <= y;
}

/// Any index inside the grid decomposes back into valid coordinates.
pub proof fn lemma_idx_to_xy(i: int, width: int, height: int)
    requires
        0 < width,
        0 < height,
        0 <= i < width * height,
    ensures
        0 <= i % width < width,
        0 <= i / width < height,
        spec_xy_idx(i % width, i / width, width) == i,
{
    assert(0 <= i % width < width && 0 <= i / width < height && (i / width) * width + i % width
        == i) by (nonlinear_arith)
        requires 0 < width && 0 < height && 0 <= i < width * height;
}

/// Distinct cells never collide under the index mapping.
pub proof fn lemma_xy_idx_injective(x1: int, y1: int, x2: int, y2: int, width: int, height: int)
    requires
        0 < width,
        0 <= x1 < width,
        0 <= y1 < height,
        0 <= x2 < width,
        0 <= y2 < height,
        spec_xy_idx(x1, y1, width) == spec_xy_idx(x2, y2, width),
    ensures
        x1 == x2,
        y1 == y2,
{
    lemma_xy_idx_bijective(x1, y1, width, height);
    lemma_xy_idx_bijective(x2, y2, width, height);
}

} // verus!
