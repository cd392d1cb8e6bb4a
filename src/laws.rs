//! Facts about the model that hold on every board.

use vstd::prelude::*;
use crate::model::{evolve, in_bounds, live_at, neighbor_count, step};

verus! {

/// A cell has between 0 and 8 alive neighbours; at the corner `(0, 0)` at
/// most 3, and on any edge of the board at most 5.
pub proof fn neighbor_count_bounds(w: int, h: int, live: spec_fn(int, int) -> bool, x: int, y: int)
    ensures
        0 <= neighbor_count(w, h, live, x, y) <= 8,
        x == 0 && y == 0 ==> neighbor_count(w, h, live, x, y) <= 3,
        x == 0 || y == 0 || x == w - 1 || y == h - 1 ==> neighbor_count(w, h, live, x, y) <= 5,
{
}

/// The 2 × 2 block with top-left cell `(bx, by)`.
pub open spec fn square(bx: int, by: int) -> spec_fn(int, int) -> bool {
    |x: int, y: int| bx <= x <= bx + 1 && by <= y <= by + 1
}

/// The horizontal line of three cells starting at `(x, y)`.
pub open spec fn row_of_three(x: int, y: int) -> spec_fn(int, int) -> bool {
    |a: int, b: int| b == y && x <= a <= x + 2
}

/// The vertical line of three cells centred on `(x, y)`.
pub open spec fn column_of_three(x: int, y: int) -> spec_fn(int, int) -> bool {
    |a: int, b: int| a == x && y - 1 <= b <= y + 1
}

proof fn square_step(w: int, h: int, bx: int, by: int)
    requires
        0 <= bx,
        bx + 2 <= w,
        0 <= by,
        by + 2 <= h,
    ensures
        forall|x: int, y: int| #[trigger] step(w, h, square(bx, by))(x, y) == square(bx, by)(x, y),
{
}

/// A 2 × 2 block alone on the board stays exactly as it is, generation
/// after generation.
pub proof fn square_is_still(w: int, h: int, bx: int, by: int, n: nat)
    requires
        0 <= bx,
        bx + 2 <= w,
        0 <= by,
        by + 2 <= h,
    ensures
        forall|x: int, y: int| #[trigger] evolve(w, h, square(bx, by), n)(x, y) == square(bx, by)(x, y),
    decreases n,
{
    if n > 0 {
        square_is_still(w, h, bx, by, (n - 1) as nat);
        assert(evolve(w, h, square(bx, by), (n - 1) as nat) =~= square(bx, by));
        square_step(w, h, bx, by);
    }
}

/// A row of three cells turns into a column of three through its middle cell,
/// and that column turns back into the row; after two generations the board
/// is as it started.
pub proof fn blinker_period_two(w: int, h: int, x: int, y: int)
    requires
        0 <= x,
        x + 3 <= w,
        1 <= y,
        y + 2 <= h,
    ensures
        forall|a: int, b: int| #[trigger]
            step(w, h, row_of_three(x, y))(a, b) == column_of_three(x + 1, y)(a, b),
        forall|a: int, b: int| #[trigger]
            step(w, h, column_of_three(x + 1, y))(a, b) == row_of_three(x, y)(a, b),
        forall|a: int, b: int| #[trigger]
            evolve(w, h, row_of_three(x, y), 2)(a, b) == row_of_three(x, y)(a, b),
{
    assert(evolve(w, h, row_of_three(x, y), 0) =~= row_of_three(x, y));
    assert(evolve(w, h, row_of_three(x, y), 1) == step(w, h, evolve(w, h, row_of_three(x, y), 0)));
    assert(evolve(w, h, row_of_three(x, y), 1) =~= column_of_three(x + 1, y));
    assert(evolve(w, h, row_of_three(x, y), 2) == step(w, h, evolve(w, h, row_of_three(x, y), 1)));
}

/// The neighbourhood does not wrap around: unless the board is so small
/// that the two corners touch, the cell at `(0, 0)` has no say in the next
/// state of the opposite corner `(w - 1, h - 1)`.
pub proof fn far_corner_ignores_origin(
    w: int,
    h: int,
    live1: spec_fn(int, int) -> bool,
    live2: spec_fn(int, int) -> bool,
)
    requires
        w > 2 || h > 2,
        forall|a: int, b: int| (a, b) != (0int, 0int) ==> #[trigger] live1(a, b) == live2(a, b),
    ensures
        step(w, h, live1)(w - 1, h - 1) == step(w, h, live2)(w - 1, h - 1),
{
}

/// The neighbourhood does not wrap around: unless the board is so small
/// that the two corners touch, the cell at `(w - 1, h - 1)` has no say in
/// the next state of the opposite corner `(0, 0)`.
pub proof fn origin_ignores_far_corner(
    w: int,
    h: int,
    live1: spec_fn(int, int) -> bool,
    live2: spec_fn(int, int) -> bool,
)
    requires
        w > 2 || h > 2,
        forall|a: int, b: int| (a, b) != (w - 1, h - 1) ==> #[trigger] live1(a, b) == live2(a, b),
    ensures
        step(w, h, live1)(0, 0) == step(w, h, live2)(0, 0),
{
}

} // verus!
