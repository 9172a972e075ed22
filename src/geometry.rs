//! Positions of dots on a square grid and the distance between them.
use vstd::prelude::*;

use crate::config::GRID_SIZE;

verus! {

/// Row and column of `dot` on a grid `grid` dots wide, row by row.
pub open spec fn position_of(dot: int, grid: int) -> (int, int) {
    (dot / grid, dot % grid)
}

pub open spec fn abs(x: int) -> int {
    if x < 0 { -x } else { x }
}

/// Chebyshev distance between two dots: the larger of the row and the
/// column differences.
pub open spec fn chebyshev(a: int, b: int, grid: int) -> int {
    let (ra, ca) = position_of(a, grid);
    let (rb, cb) = position_of(b, grid);
    let dr = abs(ra - rb);
    let dc = abs(ca - cb);
    if dr >= dc { dr } else { dc }
}

/// Two dots are at distance zero exactly when they are the same dot.
pub proof fn lemma_distance_zero_iff_equal(a: int, b: int, grid: int)
    requires
        grid > 0,
        a >= 0,
        b >= 0,
    ensures
        (chebyshev(a, b, grid) == 0) <==> (a == b),
        chebyshev(a, a, grid) == 0,
{
    let (ra, ca) = position_of(a, grid);
    let (rb, cb) = position_of(b, grid);
    assert(a == ra * grid + ca) by (nonlinear_arith)
        requires ra == a / grid, ca == a % grid, grid > 0;
    assert(b == rb * grid + cb) by (nonlinear_arith)
        requires rb == b / grid, cb == b % grid, grid > 0;
}

/// The distance is the same in both directions.
pub proof fn lemma_distance_symmetric(a: int, b: int, grid: int)
    ensures
        chebyshev(a, b, grid) == chebyshev(b, a, grid),
{
}

/// The dot just below the top-left corner, `grid`, stands in row 1, column 0.
pub proof fn lemma_position_of_grid_size(grid: int)
    requires
        grid >= 2,
    ensures
        position_of(grid, grid) == (1int, 0int),
{
    assert(grid / grid == 1) by (nonlinear_arith)
        requires grid >= 2;
    assert(grid % grid == 0) by (nonlinear_arith)
        requires grid >= 2;
}

/// Row and column of `dot` on a grid `grid_size` dots wide.
pub fn position(dot: u16, grid_size: u16) -> (r: (u16, u16))
    requires
        grid_size > 0,
    ensures
        r.0 == dot / grid_size,
        r.1 == dot % grid_size,
        (r.0 as int, r.1 as int) == position_of(dot as int, grid_size as int),
        dot == grid_size ==> r == (1u16, 0u16),
{
    proof {
        if dot == grid_size && grid_size >= 2 {
            lemma_position_of_grid_size(grid_size as int);
        }
    }
    (dot / grid_size, dot % grid_size)
}

/// Row and column of `dot` on the configured grid.
///
/// With a grid 4 dots wide, dot `6` stands at `(1, 2)`.
pub fn dot_position(dot: u16) -> (r: (u16, u16))
    ensures
        (r.0 as int, r.1 as int) == position_of(dot as int, GRID_SIZE as int),
        dot == GRID_SIZE ==> r == (1u16, 0u16),
{
    position(dot, GRID_SIZE)
}

fn abs_diff(x: u16, y: u16) -> (r: u16)
    ensures
        r == abs(x - y),
{
    if x >= y { x - y } else { y - x }
}

/// Chebyshev distance between two dots of a grid `grid_size` dots wide.
pub fn chebyshev_distance(a: u16, b: u16, grid_size: u16) -> (r: u16)
    requires
        grid_size > 0,
    ensures
        r == chebyshev(a as int, b as int, grid_size as int),
        r == chebyshev(b as int, a as int, grid_size as int),
        (r == 0) <==> (a == b),
        a == b ==> r == 0,
{
    proof {
        lemma_distance_zero_iff_equal(a as int, b as int, grid_size as int);
    }
    let pa = position(a, grid_size);
    let pb = position(b, grid_size);
    let dr = abs_diff(pa.0, pb.0);
    let dc = abs_diff(pa.1, pb.1);
    if dr >= dc { dr } else { dc }
}

/// Chebyshev distance between two dots of the configured grid.
pub fn distance(a: u16, b: u16) -> (r: u16)
    ensures
        r == chebyshev(a as int, b as int, GRID_SIZE as int),
        (r == 0) <==> (a == b),
        a == b ==> r == 0,
{
    chebyshev_distance(a, b, GRID_SIZE)
}

} // verus!
