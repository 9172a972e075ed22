//! The layout behind drawing a pattern on its grid: which step of the
//! pattern each cell holds.
use vstd::prelude::*;

verus! {

/// `s` is the first step of `p` at dot `d`, or `None` where `p` never
/// visits `d`.
pub open spec fn is_step(p: Seq<u16>, d: int, s: Option<usize>) -> bool {
    match s {
        Some(i) => i < p.len() && p[i as int] == d && forall|j: int| 0 <= j < i ==> p[j] != d,
        None => forall|j: int| 0 <= j < p.len() ==> p[j] != d,
    }
}

/// The first step of `pattern` at dot `dot`, counted from 0.
pub fn step_of(pattern: &Vec<u16>, dot: u32) -> (r: Option<usize>)
    ensures
        is_step(pattern@, dot as int, r),
{
    let mut i: usize = 0;
    while i < pattern.len()
        invariant
            i <= pattern@.len(),
            forall|j: int| 0 <= j < i ==> pattern@[j] != dot as int,
        decreases pattern@.len() - i,
    {
        if pattern[i] as u32 == dot {
            return Some(i);
        }
        i = i + 1;
    }
    None
}

/// For each row and column of a grid `grid_size` dots wide, the first step
/// of `pattern` at that cell's dot.
pub fn step_grid(pattern: &Vec<u16>, grid_size: u16) -> (r: Vec<Vec<Option<usize>>>)
    ensures
        r@.len() == grid_size,
        forall|y: int| #![trigger r@[y]] 0 <= y < grid_size ==> {
            &&& r@[y]@.len() == grid_size
            &&& forall|x: int| 0 <= x < grid_size ==> is_step(pattern@, y * grid_size + x, #[trigger] r@[y]@[x])
        },
{
    let mut rows: Vec<Vec<Option<usize>>> = Vec::new();
    let mut y: u16 = 0;
    while y < grid_size
        invariant
            y <= grid_size,
            rows@.len() == y,
            forall|yy: int| #![trigger rows@[yy]] 0 <= yy < y ==> {
                &&& rows@[yy]@.len() == grid_size
                &&& forall|x: int| 0 <= x < grid_size ==> is_step(pattern@, yy * grid_size + x, #[trigger] rows@[yy]@[x])
            },
        decreases grid_size - y,
    {
        let mut row: Vec<Option<usize>> = Vec::new();
        let mut x: u16 = 0;
        while x < grid_size
            invariant
                y < grid_size,
                x <= grid_size,
                row@.len() == x,
                forall|xx: int| 0 <= xx < x ==> is_step(pattern@, y * grid_size + xx, #[trigger] row@[xx]),
            decreases grid_size - x,
        {
            assert((y as int) * (grid_size as int) + (x as int) < 0x1_0000_0000) by (nonlinear_arith)
                requires y < grid_size, x < grid_size, grid_size <= 0xffff;
            let dot: u32 = y as u32 * grid_size as u32 + x as u32;
            row.push(step_of(pattern, dot));
            x = x + 1;
        }
        rows.push(row);
        y = y + 1;
    }
    rows
}

} // verus!
