//! The mathematical model of a board: a width, a height and a predicate
//! telling which coordinates are alive. Coordinates outside the rectangle
//! are always dead, so neighbours across an edge are clipped, never wrapped.

use vstd::prelude::*;

verus! {

/// `(x, y)` lies on a `w × h` board.
pub open spec fn in_bounds(w: int, h: int, x: int, y: int) -> bool {
    0 <= x < w && 0 <= y < h
}

/// `(x, y)` is alive on the board: it lies inside it and `live` marks it.
pub open spec fn live_at(w: int, h: int, live: spec_fn(int, int) -> bool, x: int, y: int) -> bool {
    in_bounds(w, h, x, y) && live(x, y)
}

/// 1 for true, 0 for false.
pub open spec fn bit(b: bool) -> int {
    if b { 1 } else { 0 }
}

/// Number of the eight surrounding cells of `(x, y)` that are alive.
pub open spec fn neighbor_count(
    w: int,
    h: int,
    live: spec_fn(int, int) -> bool,
    x: int,
    y: int,
) -> int {
    bit(live_at(w, h, live, x - 1, y - 1)) + bit(live_at(w, h, live, x, y - 1))
        + bit(live_at(w, h, live, x + 1, y - 1)) + bit(live_at(w, h, live, x - 1, y))
        + bit(live_at(w, h, live, x + 1, y)) + bit(live_at(w, h, live, x - 1, y + 1))
        + bit(live_at(w, h, live, x, y + 1)) + bit(live_at(w, h, live, x + 1, y + 1))
}

/// The transition rule: a live cell survives with two or three live
/// neighbours, a dead one is born with exactly three.
pub open spec fn rule(alive: bool, n: int) -> bool {
    if alive {
        n == 2 || n == 3
    } else {
        n == 3
    }
}

/// The board one generation later.
pub open spec fn step(w: int, h: int, live: spec_fn(int, int) -> bool) -> spec_fn(int, int) -> bool {
    |x: int, y: int| in_bounds(w, h, x, y) && rule(live(x, y), neighbor_count(w, h, live, x, y))
}

/// The board `n` generations later.
pub open spec fn evolve(w: int, h: int, live: spec_fn(int, int) -> bool, n: nat) -> spec_fn(
    int,
    int,
) -> bool
    decreases n,
{
    if n == 0 {
        |x: int, y: int| live_at(w, h, live, x, y)
    } else {
        step(w, h, evolve(w, h, live, (n - 1) as nat))
    }
}

} // verus!
