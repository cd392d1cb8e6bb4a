//! Generation 0: cells marked alive at random in the middle of the grid.

use vstd::prelude::*;
use nanorand::{Rng, WyRand};
use crate::grid::Grid;

verus! {

#[verifier::external_type_specification]
#[verifier::external_body]
pub struct ExWyRand(WyRand);

/// Relies on nanorand's `Rng::generate_range` for `usize` over `lo..hi`,
/// which for `lo < hi` returns `lo` plus a value below `hi - lo`.
#[verifier::external_body]
fn random_in(rng: &mut WyRand, lo: usize, hi: usize) -> (r: usize)
    requires
        lo < hi,
    ensures
        lo <= r < hi,
{
    rng.generate_range(lo..hi)
}

/// The seeding area of a `w × h` grid: from a quarter to three quarters of
/// each side, the upper end excluded.
pub open spec fn in_seed_area(w: int, h: int, x: int, y: int) -> bool {
    &&& w / 4 <= x < 3 * (w / 4)
    &&& h / 4 <= y < 3 * (h / 4)
}

/// A `width × height` grid whose plane 0 has exactly the listed cells
/// alive (a cell listed twice is simply alive); plane 1 is all dead.
pub fn mark_cells(width: usize, height: usize, cells: &Vec<(usize, usize)>) -> (r: Grid)
    requires
        width * height <= usize::MAX,
        forall|i: int| 0 <= i < cells@.len() ==> #[trigger] cells@[i].0 < width && cells@[i].1 < height,
    ensures
        r.wf(),
        r.width_spec() == width,
        r.height_spec() == height,
        forall|x: int, y: int| #[trigger]
            r.cell(0, x, y) == exists|i: int|
                0 <= i < cells@.len() && #[trigger] cells@[i].0 == x && cells@[i].1 == y,
        forall|x: int, y: int| !#[trigger] r.cell(1, x, y),
{
    let mut grid = Grid::new(width, height);
    let mut k: usize = 0;
    while k < cells.len()
        invariant
            grid.wf(),
            grid.width_spec() == width,
            grid.height_spec() == height,
            k <= cells@.len(),
            forall|i: int| 0 <= i < cells@.len() ==> #[trigger] cells@[i].0 < width && cells@[i].1 < height,
            forall|x: int, y: int| #[trigger]
                grid.cell(0, x, y) == exists|i: int|
                    0 <= i < k && #[trigger] cells@[i].0 == x && cells@[i].1 == y,
            forall|x: int, y: int| !#[trigger] grid.cell(1, x, y),
        decreases cells@.len() - k,
    {
        let (x, y) = cells[k];
        grid.set(x, y, 0, true);
        proof {
            assert forall|a: int, b: int| #[trigger]
                grid.cell(0, a, b) == exists|i: int|
                    0 <= i < k + 1 && #[trigger] cells@[i].0 == a && cells@[i].1 == b by {
                if a == x && b == y {
                    assert(cells@[k as int].0 == a && cells@[k as int].1 == b);
                } else if exists|i: int| 0 <= i < k + 1 && #[trigger] cells@[i].0 == a && cells@[i].1 == b {
                    let i = choose|i: int| 0 <= i < k + 1 && #[trigger] cells@[i].0 == a && cells@[i].1 == b;
                    assert(i < k);
                }
            }
        }
        k += 1;
    }
    grid
}

/// A `width × height` grid seeded for generation 0: `alive_cells`
/// coordinates are drawn with `rng` from the seeding area, each one is
/// marked alive in plane 0 and nothing else is (a coordinate may be drawn
/// twice, so at most `alive_cells` cells are alive, and at least one when any
/// is asked for); plane 1 is all dead.
pub fn seed(width: usize, height: usize, alive_cells: usize, rng: &mut WyRand) -> (r: Grid)
    requires
        4 <= width,
        4 <= height,
        width * height <= usize::MAX,
    ensures
        r.wf(),
        r.width_spec() == width,
        r.height_spec() == height,
        forall|p: int, x: int, y: int| #[trigger]
            r.cell(p, x, y) ==> p == 0 && in_seed_area(width as int, height as int, x, y),
        exists|drawn: Seq<(usize, usize)>|
            {
                &&& drawn.len() == alive_cells
                &&& forall|i: int|
                    0 <= i < drawn.len() ==> in_seed_area(
                        width as int,
                        height as int,
                        #[trigger] drawn[i].0 as int,
                        drawn[i].1 as int,
                    )
                &&& forall|x: int, y: int| #[trigger]
                    r.cell(0, x, y) == exists|i: int|
                        0 <= i < drawn.len() && #[trigger] drawn[i].0 == x && drawn[i].1 == y
            },
        exists|alive: Set<(int, int)>|
            {
                &&& alive.finite()
                &&& alive.len() <= alive_cells
                &&& forall|x: int, y: int| #[trigger] r.cell(0, x, y) == alive.contains((x, y))
            },
        alive_cells >= 1 ==> exists|x: int, y: int| #[trigger] r.cell(0, x, y),
{
    let x_lo: usize = width / 4;
    let x_hi: usize = 3 * (width / 4);
    let y_lo: usize = height / 4;
    let y_hi: usize = 3 * (height / 4);
    let mut drawn: Vec<(usize, usize)> = Vec::new();
    let ghost mut alive: Set<(int, int)> = Set::empty();
    let mut k: usize = 0;
    while k < alive_cells
        invariant
            4 <= width,
            4 <= height,
            x_lo == width / 4,
            x_hi == 3 * (width / 4),
            y_lo == height / 4,
            y_hi == 3 * (height / 4),
            k <= alive_cells,
            drawn@.len() == k,
            forall|i: int|
                0 <= i < drawn@.len() ==> in_seed_area(
                    width as int,
                    height as int,
                    #[trigger] drawn@[i].0 as int,
                    drawn@[i].1 as int,
                ),
            alive.finite(),
            alive.len() <= k,
            forall|x: int, y: int|
                #[trigger] alive.contains((x, y)) == exists|i: int|
                    0 <= i < drawn@.len() && #[trigger] drawn@[i].0 == x && drawn@[i].1 == y,
        decreases alive_cells - k,
    {
        let x = random_in(rng, x_lo, x_hi);
        let y = random_in(rng, y_lo, y_hi);
        let ghost before = drawn@;
        drawn.push((x, y));
        proof {
            alive = alive.insert((x as int, y as int));
            assert forall|a: int, b: int|
                #[trigger] alive.contains((a, b)) == exists|i: int|
                    0 <= i < drawn@.len() && #[trigger] drawn@[i].0 == a && drawn@[i].1 == b by {
                if a == x && b == y {
                    assert(drawn@[k as int].0 == a && drawn@[k as int].1 == b);
                } else {
                    if exists|i: int| 0 <= i < before.len() && #[trigger] before[i].0 == a && before[i].1 == b {
                        let i = choose|i: int| 0 <= i < before.len() && #[trigger] before[i].0 == a && before[i].1 == b;
                        assert(drawn@[i] == before[i]);
                    }
                    if exists|i: int| 0 <= i < drawn@.len() && #[trigger] drawn@[i].0 == a && drawn@[i].1 == b {
                        let i = choose|i: int| 0 <= i < drawn@.len() && #[trigger] drawn@[i].0 == a && drawn@[i].1 == b;
                        assert(i < k);
                        assert(before[i] == drawn@[i]);
                    }
                }
            }
        }
        k += 1;
    }
    proof {
        assert forall|i: int| 0 <= i < drawn@.len() implies #[trigger] drawn@[i].0 < width && drawn@[i].1 < height by {
            assert(in_seed_area(width as int, height as int, drawn@[i].0 as int, drawn@[i].1 as int));
        }
    }
    let r = mark_cells(width, height, &drawn);
    proof {
        assert forall|p: int, x: int, y: int| #[trigger]
            r.cell(p, x, y) implies p == 0 && in_seed_area(width as int, height as int, x, y) by {
            if p == 0 {
                let i = choose|i: int| 0 <= i < drawn@.len() && #[trigger] drawn@[i].0 == x && drawn@[i].1 == y;
                assert(in_seed_area(width as int, height as int, drawn@[i].0 as int, drawn@[i].1 as int));
            } else {
                assert(!r.cell(1, x, y));
            }
        }
        assert(forall|x: int, y: int| #[trigger] r.cell(0, x, y) == alive.contains((x, y)));
        if alive_cells >= 1 {
            let x = drawn@[0].0 as int;
            let y = drawn@[0].1 as int;
            assert(r.cell(0, x, y));
        }
    }
    r
}

} // verus!
