//! The repaint list: the cells inside the frame whose alive flag differs
//! between the two planes.

use vstd::prelude::*;
use crate::engine::{current_plane, previous_plane};
use crate::grid::Grid;

verus! {

/// `(x, y)` lies inside the one-cell frame of a `w × h` grid.
pub open spec fn in_interior(w: int, h: int, x: int, y: int) -> bool {
    1 <= x < w - 1 && 1 <= y < h - 1
}

/// `(x, y)` is inside the frame and its flag differs between the plane of
/// generation `gen` and the plane before it.
pub open spec fn is_changed(grid: Grid, gen: int, x: int, y: int) -> bool {
    &&& in_interior(grid.width_spec(), grid.height_spec(), x, y)
    &&& grid.cell(current_plane(gen), x, y) != grid.cell(previous_plane(gen), x, y)
}

/// `(x, y)` comes before `(a, b)` in row-major order.
pub open spec fn before(x: int, y: int, a: int, b: int) -> bool {
    y < b || (y == b && x < a)
}

/// Every changed cell of generation `gen`, as `(x, y, alive now)`, each once,
/// row by row; nothing else.
pub fn changed_cells(grid: &Grid, gen: usize) -> (r: Vec<(usize, usize, bool)>)
    requires
        grid.wf(),
    ensures
        forall|i: int|
            0 <= i < r@.len() ==> {
                &&& is_changed(*grid, gen as int, #[trigger] r@[i].0 as int, r@[i].1 as int)
                &&& r@[i].2 == grid.cell(current_plane(gen as int), r@[i].0 as int, r@[i].1 as int)
            },
        forall|x: int, y: int|
            #[trigger] is_changed(*grid, gen as int, x, y) ==> exists|i: int|
                0 <= i < r@.len() && #[trigger] r@[i].0 == x && r@[i].1 == y,
        forall|i: int, j: int|
            0 <= i < j < r@.len() ==> (#[trigger] r@[i].0, r@[i].1) != (#[trigger] r@[j].0, r@[j].1),
{
    let cur: usize = gen % 2;
    let prev: usize = 1 - cur;
    let w = grid.width();
    let h = grid.height();
    let mut r: Vec<(usize, usize, bool)> = Vec::new();
    if w < 2 || h < 2 {
        proof {
            assert forall|x: int, y: int| !#[trigger] is_changed(*grid, gen as int, x, y) by {}
        }
        return r;
    }
    let mut y: usize = 1;
    while y < h - 1
        invariant
            grid.wf(),
            w == grid.width_spec(),
            h == grid.height_spec(),
            2 <= w,
            2 <= h,
            1 <= y <= h - 1,
            cur == current_plane(gen as int),
            prev == previous_plane(gen as int),
            forall|i: int|
                0 <= i < r@.len() ==> {
                    &&& is_changed(*grid, gen as int, #[trigger] r@[i].0 as int, r@[i].1 as int)
                    &&& r@[i].2 == grid.cell(cur as int, r@[i].0 as int, r@[i].1 as int)
                    &&& r@[i].1 < y
                },
            forall|x: int, b: int|
                b < y && #[trigger] is_changed(*grid, gen as int, x, b) ==> exists|i: int|
                    0 <= i < r@.len() && #[trigger] r@[i].0 == x && r@[i].1 == b,
            forall|i: int, j: int|
                0 <= i < j < r@.len() ==> before(
                    #[trigger] r@[i].0 as int,
                    r@[i].1 as int,
                    #[trigger] r@[j].0 as int,
                    r@[j].1 as int,
                ),
        decreases h - y,
    {
        let mut x: usize = 1;
        while x < w - 1
            invariant
                grid.wf(),
                w == grid.width_spec(),
                h == grid.height_spec(),
                2 <= w,
                2 <= h,
                1 <= y < h - 1,
                1 <= x <= w - 1,
                cur == current_plane(gen as int),
                prev == previous_plane(gen as int),
                forall|i: int|
                    0 <= i < r@.len() ==> {
                        &&& is_changed(
                            *grid,
                            gen as int,
                            #[trigger] r@[i].0 as int,
                            r@[i].1 as int,
                        )
                        &&& r@[i].2 == grid.cell(cur as int, r@[i].0 as int, r@[i].1 as int)
                        &&& before(r@[i].0 as int, r@[i].1 as int, x as int, y as int)
                    },
                forall|a: int, b: int|
                    before(a, b, x as int, y as int) && #[trigger] is_changed(
                        *grid,
                        gen as int,
                        a,
                        b,
                    ) ==> exists|i: int| 0 <= i < r@.len() && #[trigger] r@[i].0 == a && r@[i].1 == b,
                forall|i: int, j: int|
                    0 <= i < j < r@.len() ==> before(
                        #[trigger] r@[i].0 as int,
                        r@[i].1 as int,
                        #[trigger] r@[j].0 as int,
                        r@[j].1 as int,
                    ),
            decreases w - x,
        {
            let now = grid.get(x, y, cur);
            if now != grid.get(x, y, prev) {
                let ghost before_push = r@;
                r.push((x, y, now));
                proof {
                    assert forall|a: int, b: int|
                        before(a, b, x as int + 1, y as int) && #[trigger] is_changed(
                            *grid,
                            gen as int,
                            a,
                            b,
                        ) implies exists|i: int|
                        0 <= i < r@.len() && #[trigger] r@[i].0 == a && r@[i].1 == b by {
                        if a == x && b == y {
                            assert(r@[before_push.len() as int].0 == a);
                        } else {
                            let i = choose|i: int|
                                0 <= i < before_push.len() && #[trigger] before_push[i].0 == a
                                    && before_push[i].1 == b;
                            assert(r@[i] == before_push[i]);
                        }
                    }
                }
            }
            x += 1;
        }
        proof {
            assert forall|i: int| 0 <= i < r@.len() implies #[trigger] r@[i].1 < y + 1 by {
                assert(before(r@[i].0 as int, r@[i].1 as int, x as int, y as int));
            }
        }
        y += 1;
    }
    proof {
        assert forall|a: int, b: int| #[trigger]
            is_changed(*grid, gen as int, a, b) implies exists|i: int|
            0 <= i < r@.len() && #[trigger] r@[i].0 == a && r@[i].1 == b by {
            assert(b < y);
        }
    }
    r
}

} // verus!
