//! The cell storage: two planes of alive flags over one `width × height`
//! rectangle, stored row by row.

use vstd::prelude::*;
use crate::model::in_bounds;

verus! {

/// Two planes of alive flags. Generation `g` lives in plane `g % 2`; the
/// other plane holds generation `g - 1`.
pub struct Grid {
    width: usize,
    height: usize,
    even: Vec<bool>,
    odd: Vec<bool>,
}

proof fn lemma_index_in_range(w: int, h: int, x: int, y: int)
    requires
        in_bounds(w, h, x, y),
    ensures
        0 <= y * w + x < w * h,
{
    assert(y * w + x < w * h) by (nonlinear_arith)
        requires
            0 <= x < w,
            0 <= y < h,
    ;
    assert(0 <= y * w) by (nonlinear_arith)
        requires
            0 <= x < w,
            0 <= y < h,
    ;
}

proof fn lemma_index_injective(w: int, h: int, x: int, y: int, a: int, b: int)
    requires
        in_bounds(w, h, x, y),
        in_bounds(w, h, a, b),
        y * w + x == b * w + a,
    ensures
        x == a && y == b,
{
    if y < b {
        assert(y * w + x < b * w + a) by (nonlinear_arith)
            requires
                0 <= x < w,
                0 <= a,
                y < b,
        ;
    } else if b < y {
        assert(b * w + a < y * w + x) by (nonlinear_arith)
            requires
                0 <= a < w,
                0 <= x,
                b < y,
        ;
    }
}

impl Grid {
    pub closed spec fn width_spec(&self) -> int {
        self.width as int
    }

    pub closed spec fn height_spec(&self) -> int {
        self.height as int
    }

    /// Plane `p` (0 or 1), row by row.
    pub closed spec fn plane(&self, p: int) -> Seq<bool> {
        if p == 0 {
            self.even@
        } else {
            self.odd@
        }
    }

    /// Both planes cover the rectangle, whose area fits a `usize`.
    pub closed spec fn wf(&self) -> bool {
        &&& self.width * self.height <= usize::MAX
        &&& self.even@.len() == self.width * self.height
        &&& self.odd@.len() == self.width * self.height
    }

    /// The alive flag of `(x, y)` in plane `p`; dead outside the rectangle
    /// and for any `p` other than 0 and 1.
    pub open spec fn cell(&self, p: int, x: int, y: int) -> bool {
        &&& 0 <= p < 2
        &&& in_bounds(self.width_spec(), self.height_spec(), x, y)
        &&& self.plane(p)[y * self.width_spec() + x]
    }

    /// Plane `p` as a board predicate.
    pub open spec fn live(&self, p: int) -> spec_fn(int, int) -> bool {
        |x: int, y: int| self.cell(p, x, y)
    }

    /// A `width × height` grid whose cells are all dead in both planes.
    pub fn new(width: usize, height: usize) -> (r: Grid)
        requires
            width * height <= usize::MAX,
        ensures
            r.wf(),
            r.width_spec() == width,
            r.height_spec() == height,
            forall|p: int, x: int, y: int| !#[trigger] r.cell(p, x, y),
    {
        let n: usize = width * height;
        let even: Vec<bool> = vec![false; n];
        let odd: Vec<bool> = vec![false; n];
        let r = Grid { width, height, even, odd };
        assert forall|p: int, x: int, y: int| !#[trigger] r.cell(p, x, y) by {
            if in_bounds(width as int, height as int, x, y) {
                lemma_index_in_range(width as int, height as int, x, y);
            }
        }
        r
    }

    pub fn width(&self) -> (r: usize)
        ensures
            r == self.width_spec(),
    {
        self.width
    }

    pub fn height(&self) -> (r: usize)
        ensures
            r == self.height_spec(),
    {
        self.height
    }

    /// The alive flag of `(x, y)` in plane `parity`.
    pub fn get(&self, x: usize, y: usize, parity: usize) -> (r: bool)
        requires
            self.wf(),
            x < self.width_spec(),
            y < self.height_spec(),
            parity < 2,
        ensures
            r == self.cell(parity as int, x as int, y as int),
    {
        proof {
            lemma_index_in_range(self.width as int, self.height as int, x as int, y as int);
        }
        let i = y * self.width + x;
        if parity == 0 {
            self.even[i]
        } else {
            self.odd[i]
        }
    }

    /// Writes the alive flag of `(x, y)` in plane `parity`; every other
    /// flag stays as it was.
    pub fn set(&mut self, x: usize, y: usize, parity: usize, value: bool)
        requires
            old(self).wf(),
            x < old(self).width_spec(),
            y < old(self).height_spec(),
            parity < 2,
        ensures
            final(self).wf(),
            final(self).width_spec() == old(self).width_spec(),
            final(self).height_spec() == old(self).height_spec(),
            forall|p: int, a: int, b: int| #[trigger]
                final(self).cell(p, a, b) == if p == parity && a == x && b == y {
                    value
                } else {
                    old(self).cell(p, a, b)
                },
    {
        proof {
            lemma_index_in_range(self.width as int, self.height as int, x as int, y as int);
        }
        let i = y * self.width + x;
        if parity == 0 {
            self.even.set(i, value);
        } else {
            self.odd.set(i, value);
        }
        proof {
            let w = self.width as int;
            let h = self.height as int;
            assert forall|p: int, a: int, b: int| #[trigger]
                self.cell(p, a, b) == if p == parity && a == x && b == y {
                    value
                } else {
                    old(self).cell(p, a, b)
                } by {
                if in_bounds(w, h, a, b) {
                    lemma_index_in_range(w, h, a, b);
                    if a != x || b != y {
                        if b * w + a == y * w + x {
                            lemma_index_injective(w, h, x as int, y as int, a, b);
                        }
                    }
                }
            }
        }
    }
}

} // verus!
