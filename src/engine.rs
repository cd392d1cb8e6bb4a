//! Advancing the simulation by one generation.

use vstd::prelude::*;
use crate::grid::Grid;
use crate::model::{bit, in_bounds, live_at, neighbor_count, rule, step};

verus! {

/// The plane that generation `gen` is written to.
pub open spec fn current_plane(gen: int) -> int {
    gen % 2
}

/// The plane that generation `gen` is computed from.
pub open spec fn previous_plane(gen: int) -> int {
    (gen + 1) % 2
}

/// 1 when the cell at `(x + dx, y + dy)` of plane `p` is alive, else 0.
fn neighbor(grid: &Grid, p: usize, x: usize, y: usize, dx: i8, dy: i8) -> (r: u8)
    requires
        grid.wf(),
        x < grid.width_spec(),
        y < grid.height_spec(),
        p < 2,
        -1 <= dx <= 1,
        -1 <= dy <= 1,
    ensures
        r == bit(
            live_at(
                grid.width_spec(),
                grid.height_spec(),
                grid.live(p as int),
                x + dx,
                y + dy,
            ),
        ),
{
    if (dx < 0 && x == 0) || (dy < 0 && y == 0) || (dx > 0 && x >= grid.width() - 1) || (dy > 0
        && y >= grid.height() - 1) {
        return 0;
    }
    let nx: usize = if dx < 0 {
        x - 1
    } else if dx > 0 {
        x + 1
    } else {
        x
    };
    let ny: usize = if dy < 0 {
        y - 1
    } else if dy > 0 {
        y + 1
    } else {
        y
    };
    if grid.get(nx, ny, p) {
        1
    } else {
        0
    }
}

/// Number of alive cells around `coordinate`, given as `(row, column)`, in
/// the plane that generation `gen` is computed from. Neighbours beyond the
/// edges of the grid are not counted.
pub fn alive_neighbors(grid: &Grid, gen: usize, coordinate: (usize, usize)) -> (r: u8)
    requires
        grid.wf(),
        coordinate.1 < grid.width_spec(),
        coordinate.0 < grid.height_spec(),
    ensures
        r == neighbor_count(
            grid.width_spec(),
            grid.height_spec(),
            grid.live(previous_plane(gen as int)),
            coordinate.1 as int,
            coordinate.0 as int,
        ),
        r <= 8,
{
    let (y, x) = coordinate;
    let p: usize = 1 - gen % 2;
    let n = neighbor(grid, p, x, y, -1, -1) + neighbor(grid, p, x, y, 0, -1) + neighbor(
        grid,
        p,
        x,
        y,
        1,
        -1,
    ) + neighbor(grid, p, x, y, -1, 0) + neighbor(grid, p, x, y, 1, 0) + neighbor(
        grid,
        p,
        x,
        y,
        -1,
        1,
    ) + neighbor(grid, p, x, y, 0, 1) + neighbor(grid, p, x, y, 1, 1);
    n
}

/// The rule applied to one cell: whether it is alive in the next generation,
/// given whether it is alive now and how many of its neighbours are.
pub fn next_state(alive: bool, neighbors: u8) -> (r: bool)
    requires
        neighbors <= 8,
    ensures
        r == rule(alive, neighbors as int),
{
    if alive {
        match neighbors {
            0 | 1 => false,
            2 | 3 => true,
            _ => false,
        }
    } else {
        neighbors == 3
    }
}

/// Computes generation `gen` into plane `gen % 2` from plane `(gen + 1) % 2`,
/// over the whole grid, border included. The source plane is only read.
pub fn next_generation(grid: &mut Grid, gen: usize)
    requires
        old(grid).wf(),
    ensures
        final(grid).wf(),
        final(grid).width_spec() == old(grid).width_spec(),
        final(grid).height_spec() == old(grid).height_spec(),
        forall|x: int, y: int| #[trigger]
            final(grid).cell(current_plane(gen as int), x, y) == step(
                old(grid).width_spec(),
                old(grid).height_spec(),
                old(grid).live(previous_plane(gen as int)),
            )(x, y),
        forall|x: int, y: int| #[trigger]
            final(grid).cell(previous_plane(gen as int), x, y) == old(grid).cell(
                previous_plane(gen as int),
                x,
                y,
            ),
{
    let cur: usize = gen % 2;
    let prev: usize = 1 - cur;
    let w = grid.width();
    let h = grid.height();
    let ghost old_live = old(grid).live(prev as int);
    let mut y: usize = 0;
    while y < h
        invariant
            grid.wf(),
            w == grid.width_spec() == old(grid).width_spec(),
            h == grid.height_spec() == old(grid).height_spec(),
            cur == current_plane(gen as int),
            prev == previous_plane(gen as int),
            old_live == old(grid).live(prev as int),
            y <= h,
            forall|a: int, b: int| #[trigger]
                grid.cell(prev as int, a, b) == old(grid).cell(prev as int, a, b),
            forall|a: int, b: int|
                0 <= b < y ==> #[trigger] grid.cell(cur as int, a, b) == step(
                    w as int,
                    h as int,
                    old_live,
                )(a, b),
            forall|a: int, b: int|
                !in_bounds(w as int, h as int, a, b) ==> !#[trigger] grid.cell(cur as int, a, b),
        decreases h - y,
    {
        let mut x: usize = 0;
        while x < w
            invariant
                grid.wf(),
                w == grid.width_spec() == old(grid).width_spec(),
                h == grid.height_spec() == old(grid).height_spec(),
                cur == current_plane(gen as int),
                prev == previous_plane(gen as int),
                old_live == old(grid).live(prev as int),
                y < h,
                x <= w,
                forall|a: int, b: int| #[trigger]
                    grid.cell(prev as int, a, b) == old(grid).cell(prev as int, a, b),
                forall|a: int, b: int|
                    (0 <= b < y || (b == y && a < x)) ==> #[trigger] grid.cell(cur as int, a, b)
                        == step(w as int, h as int, old_live)(a, b),
                forall|a: int, b: int|
                    !in_bounds(w as int, h as int, a, b) ==> !#[trigger] grid.cell(
                        cur as int,
                        a,
                        b,
                    ),
            decreases w - x,
        {
            let n = alive_neighbors(grid, gen, (y, x));
            let alive = grid.get(x, y, prev);
            proof {
                assert(grid.live(prev as int) =~= old_live);
            }
            let v = next_state(alive, n);
            grid.set(x, y, cur, v);
            x += 1;
        }
        y += 1;
    }
}

} // verus!
