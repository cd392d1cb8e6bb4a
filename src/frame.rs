//! The frame drawn around the simulation area: box-drawing pieces on the
//! outermost ring of a `w × h` screen, and the place of the title.

use vstd::prelude::*;
use crate::diff::before;

verus! {

#[derive(Clone, Copy, Debug, PartialEq, Eq, Structural)]
pub enum Piece {
    TopLeft,
    TopRight,
    BottomLeft,
    BottomRight,
    Horizontal,
    Vertical,
}

/// One piece of the frame at column `x`, row `y`.
#[derive(Clone, Copy, Debug, PartialEq, Eq, Structural)]
pub struct FrameCell {
    pub x: usize,
    pub y: usize,
    pub piece: Piece,
}

/// The piece of the frame of a `w × h` screen at `(x, y)`, if any.
pub open spec fn frame_piece(w: int, h: int, x: int, y: int) -> Option<Piece> {
    if !(0 <= x < w && 0 <= y < h) {
        None
    } else if y == 0 && x == 0 {
        Some(Piece::TopLeft)
    } else if y == 0 && x == w - 1 {
        Some(Piece::TopRight)
    } else if y == h - 1 && x == 0 {
        Some(Piece::BottomLeft)
    } else if y == h - 1 && x == w - 1 {
        Some(Piece::BottomRight)
    } else if y == 0 || y == h - 1 {
        Some(Piece::Horizontal)
    } else if x == 0 || x == w - 1 {
        Some(Piece::Vertical)
    } else {
        None
    }
}

/// The piece of the frame of a `width × height` screen at `(x, y)`, if any.
pub fn piece_at(width: usize, height: usize, x: usize, y: usize) -> (r: Option<Piece>)
    ensures
        r == frame_piece(width as int, height as int, x as int, y as int),
{
    if x >= width || y >= height {
        None
    } else if y == 0 && x == 0 {
        Some(Piece::TopLeft)
    } else if y == 0 && x == width - 1 {
        Some(Piece::TopRight)
    } else if y == height - 1 && x == 0 {
        Some(Piece::BottomLeft)
    } else if y == height - 1 && x == width - 1 {
        Some(Piece::BottomRight)
    } else if y == 0 || y == height - 1 {
        Some(Piece::Horizontal)
    } else if x == 0 || x == width - 1 {
        Some(Piece::Vertical)
    } else {
        None
    }
}

/// Every piece of the frame of a `width × height` screen, with its place,
/// and nothing else.
pub fn frame_cells(width: usize, height: usize) -> (r: Vec<FrameCell>)
    ensures
        forall|i: int|
            0 <= i < r@.len() ==> frame_piece(
                width as int,
                height as int,
                #[trigger] r@[i].x as int,
                r@[i].y as int,
            ) == Some(r@[i].piece),
        forall|x: int, y: int|
            #[trigger] frame_piece(width as int, height as int, x, y) is Some ==> exists|i: int|
                0 <= i < r@.len() && #[trigger] r@[i].x == x && r@[i].y == y,
        forall|i: int, j: int|
            0 <= i < j < r@.len() ==> (#[trigger] r@[i].x, r@[i].y) != (#[trigger] r@[j].x, r@[j].y),
{
    let mut r: Vec<FrameCell> = Vec::new();
    let mut y: usize = 0;
    while y < height
        invariant
            y <= height,
            forall|i: int| 0 <= i < r@.len() ==> #[trigger] r@[i].y < y,
            forall|i: int, j: int|
                0 <= i < j < r@.len() ==> before(
                    #[trigger] r@[i].x as int,
                    r@[i].y as int,
                    #[trigger] r@[j].x as int,
                    r@[j].y as int,
                ),
            forall|i: int|
                0 <= i < r@.len() ==> frame_piece(
                    width as int,
                    height as int,
                    #[trigger] r@[i].x as int,
                    r@[i].y as int,
                ) == Some(r@[i].piece),
            forall|a: int, b: int|
                0 <= b < y && #[trigger] frame_piece(width as int, height as int, a, b) is Some
                    ==> exists|i: int| 0 <= i < r@.len() && #[trigger] r@[i].x == a && r@[i].y == b,
        decreases height - y,
    {
        let mut x: usize = 0;
        while x < width
            invariant
                y < height,
                x <= width,
                forall|i: int|
                    0 <= i < r@.len() ==> before(#[trigger] r@[i].x as int, r@[i].y as int, x as int, y as int),
                forall|i: int, j: int|
                    0 <= i < j < r@.len() ==> before(
                        #[trigger] r@[i].x as int,
                        r@[i].y as int,
                        #[trigger] r@[j].x as int,
                        r@[j].y as int,
                    ),
                forall|i: int|
                    0 <= i < r@.len() ==> frame_piece(
                        width as int,
                        height as int,
                        #[trigger] r@[i].x as int,
                        r@[i].y as int,
                    ) == Some(r@[i].piece),
                forall|a: int, b: int|
                    (0 <= b < y || (b == y && 0 <= a < x)) && #[trigger] frame_piece(
                        width as int,
                        height as int,
                        a,
                        b,
                    ) is Some ==> exists|i: int|
                        0 <= i < r@.len() && #[trigger] r@[i].x == a && r@[i].y == b,
            decreases width - x,
        {
            if let Some(piece) = piece_at(width, height, x, y) {
                let ghost before_push = r@;
                r.push(FrameCell { x, y, piece });
                proof {
                    assert forall|a: int, b: int|
                        (0 <= b < y || (b == y && 0 <= a < x + 1)) && #[trigger] frame_piece(
                            width as int,
                            height as int,
                            a,
                            b,
                        ) is Some implies exists|i: int|
                        0 <= i < r@.len() && #[trigger] r@[i].x == a && r@[i].y == b by {
                        if a == x && b == y {
                            assert(r@[before_push.len() as int].x == a);
                        } else {
                            let i = choose|i: int|
                                0 <= i < before_push.len() && #[trigger] before_push[i].x == a
                                    && before_push[i].y == b;
                            assert(r@[i] == before_push[i]);
                        }
                    }
                }
            }
            x += 1;
        }
        proof {
            assert forall|i: int| 0 <= i < r@.len() implies #[trigger] r@[i].y < y + 1 by {
                assert(before(r@[i].x as int, r@[i].y as int, x as int, y as int));
            }
        }
        y += 1;
    }
    r
}

/// The column at which a title of `title_len` characters starts so that it
/// sits centred on a screen `width` columns wide.
pub fn title_column(width: usize, title_len: usize) -> (r: usize)
    requires
        title_len / 2 <= width / 2,
    ensures
        r == width / 2 - title_len / 2,
{
    width / 2 - title_len / 2
}

} // verus!
