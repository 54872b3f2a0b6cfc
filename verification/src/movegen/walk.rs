//! The ray primitive: slide from a square until blocked or capturing.

use crate::bitpiece::BitPiece;
use crate::board::Board;
use crate::position::Position;
use crate::color::Color;
use crate::square::Square;
use vstd::prelude::*;

verus! {

/// A vertical direction.
#[derive(Debug, Copy, Clone, PartialEq, Eq, Structural)]
pub enum VD {
    Up,
    Down,
}

/// A horizontal direction.
#[derive(Debug, Copy, Clone, PartialEq, Eq, Structural)]
pub enum HD {
    Left,
    Right,
}

/// A diagonal direction.
#[derive(Debug, Copy, Clone, PartialEq, Eq, Structural)]
pub enum DD {
    UpLeft,
    UpRight,
    DownLeft,
    DownRight,
}

impl VD {
    /// The rows that one step in this direction climbs.
    pub open spec fn rows(self) -> int {
        match self {
            VD::Up => 1,
            VD::Down => -1,
        }
    }
}

impl HD {
    /// The columns that one step in this direction moves to the right.
    pub open spec fn cols(self) -> int {
        match self {
            HD::Left => -1,
            HD::Right => 1,
        }
    }
}

impl DD {
    /// The vertical part of the direction.
    pub open spec fn vertical(self) -> VD {
        match self {
            DD::UpLeft | DD::UpRight => VD::Up,
            DD::DownLeft | DD::DownRight => VD::Down,
        }
    }

    /// The horizontal part of the direction.
    pub open spec fn horizontal(self) -> HD {
        match self {
            DD::UpLeft | DD::DownLeft => HD::Left,
            DD::UpRight | DD::DownRight => HD::Right,
        }
    }
}

/// The number of steps that a walk takes at most: `max_offset`, but at least
/// 1 and at most 7.
pub open spec fn clamp_offset(max_offset: u8) -> nat {
    if max_offset < 1 {
        1
    } else if max_offset > 7 {
        7
    } else {
        max_offset as nat
    }
}

/// The squares that a piece of the given colour reaches from `from` by
/// stepping (`rows`, `cols`) at a time, at most `budget` times: the walk
/// goes on over empty squares, ends on and includes the first square that
/// holds a piece of the other colour, and ends before a piece of its own.
pub open spec fn ray(
    cells: Seq<BitPiece>,
    from: Square,
    color: Color,
    rows: int,
    cols: int,
    budget: nat,
) -> Seq<Square>
    decreases budget,
{
    if budget == 0 {
        Seq::empty()
    } else {
        match from.offset(rows, cols) {
            None => Seq::empty(),
            Some(next) => {
                let p = cells[next@];
                if p.spec_is_blank() {
                    seq![next] + ray(cells, next, color, rows, cols, (budget - 1) as nat)
                } else if p.spec_color() != color {
                    seq![next]
                } else {
                    Seq::empty()
                }
            },
        }
    }
}

/// The squares that the piece on `origin` reaches in one direction; none
/// from an empty square.
pub open spec fn reach(pos: Position, origin: Square, rows: int, cols: int, max_offset: u8) -> Seq<
    Square,
> {
    if pos.cell(origin).spec_is_blank() {
        Seq::empty()
    } else {
        ray(pos.cells, origin, pos.cell(origin).spec_color(), rows, cols, clamp_offset(max_offset))
    }
}

/// Every square of a ray lies on the board and holds no piece of the
/// walker's colour; the ray is no longer than its budget; and its squares
/// lie one step apart, in order, from the origin.
pub proof fn lemma_ray_shape(
    cells: Seq<BitPiece>,
    from: Square,
    color: Color,
    rows: int,
    cols: int,
    budget: nat,
)
    requires
        from.wf(),
        -1 <= rows <= 1,
        -1 <= cols <= 1,
    ensures
        ray(cells, from, color, rows, cols, budget).len() <= budget,
        forall|i: int|
            0 <= i < ray(cells, from, color, rows, cols, budget).len() ==> {
                let s = #[trigger] ray(cells, from, color, rows, cols, budget)[i];
                &&& s.wf()
                &&& s.row() == from.row() + (i + 1) * rows
                &&& s.col() == from.col() + (i + 1) * cols
                &&& (cells[s@].spec_is_blank() || cells[s@].spec_color() != color)
            },
    decreases budget,
{
    broadcast use Square::lemma_at_view;

    if budget > 0 {
        match from.offset(rows, cols) {
            None => {},
            Some(next) => {
                lemma_ray_shape(cells, next, color, rows, cols, (budget - 1) as nat);
                let rest = ray(cells, next, color, rows, cols, (budget - 1) as nat);
                let whole = ray(cells, from, color, rows, cols, budget);
                assert(next@ == from@ + 8 * rows + cols);
                assert(next.row() == from.row() + rows && next.col() == from.col() + cols);
                assert forall|i: int| 0 <= i < whole.len() implies {
                    let s = #[trigger] whole[i];
                    &&& s.wf()
                    &&& s.row() == from.row() + (i + 1) * rows
                    &&& s.col() == from.col() + (i + 1) * cols
                    &&& (cells[s@].spec_is_blank() || cells[s@].spec_color() != color)
                } by {
                    assert((i + 1) * rows == rows + i * rows) by (nonlinear_arith);
                    assert((i + 1) * cols == cols + i * cols) by (nonlinear_arith);
                    if i > 0 {
                        assert(cells[next@].spec_is_blank());
                        assert(whole =~= seq![next] + rest);
                        assert(whole[i] == rest[i - 1]);
                    } else {
                        assert(whole[0] == next);
                    }
                }
            },
        }
    }
}

/// The ray primitive: slides from a square until blocked or capturing.
pub struct Walk;

impl Walk {
    /// One step from a square, vertically, horizontally or both.
    fn step(square: Square, v: Option<VD>, h: Option<HD>) -> (r: Option<Square>)
        ensures
            r == square.offset(
                if let Some(d) = v {
                    d.rows()
                } else {
                    0
                },
                if let Some(d) = h {
                    d.cols()
                } else {
                    0
                },
            ),
            r matches Some(s) ==> s.wf(),
    {
        broadcast use Square::lemma_at_view, Square::lemma_view_at;

        proof {
            use_type_invariant(&square);
        }
        let first = match v {
            Some(VD::Up) => square.up(1),
            Some(VD::Down) => square.down(1),
            None => Some(square),
        };
        match first {
            None => None,
            Some(s) => {
                let second = match h {
                    Some(HD::Left) => s.left(1),
                    Some(HD::Right) => s.right(1),
                    None => Some(s),
                };
                proof {
                    if let Some(t) = second {
                        use_type_invariant(&t);
                    }
                }
                second
            },
        }
    }

    /// The walk itself, in any of the eight directions.
    fn slide(board: &Board, origin: Square, v: Option<VD>, h: Option<HD>, max_offset: u8) -> (r:
        Vec<Square>)
        ensures
            r@ == reach(
                board@,
                origin,
                if let Some(d) = v {
                    d.rows()
                } else {
                    0
                },
                if let Some(d) = h {
                    d.cols()
                } else {
                    0
                },
                max_offset,
            ),
    {
        let ghost rows: int = if let Some(d) = v {
            d.rows()
        } else {
            0
        };
        let ghost cols: int = if let Some(d) = h {
            d.cols()
        } else {
            0
        };
        let mut squares: Vec<Square> = Vec::new();
        let piece = board.at(origin);
        if piece.is_blank() {
            return squares;
        }
        let color = piece.get_color();
        let mut left: u8 = if max_offset < 1 {
            1
        } else if max_offset > 7 {
            7
        } else {
            max_offset
        };
        let mut square = origin;
        let ghost whole = ray(board@.cells, origin, color, rows, cols, left as nat);
        while left > 0
            invariant_except_break
                whole == squares@ + ray(board@.cells, square, color, rows, cols, left as nat),
            invariant
                rows == (if let Some(d) = v {
                    d.rows()
                } else {
                    0
                }),
                cols == (if let Some(d) = h {
                    d.cols()
                } else {
                    0
                }),
            ensures
                whole == squares@,
            decreases left,
        {
            let next = match Walk::step(square, v, h) {
                Some(next) => next,
                None => {
                    assert(whole =~= squares@);
                    break ;
                },
            };
            let p = board.at(next);
            if !p.is_blank() {
                if p.get_color() != color {
                    squares.push(next);
                }
                assert(whole =~= squares@);
                break ;
            }
            proof {
                let rest = ray(board@.cells, next, color, rows, cols, (left - 1) as nat);
                assert(squares@ + (seq![next] + rest) =~= squares@.push(next) + rest);
            }
            left -= 1;
            square = next;
            squares.push(square);
        }
        assert(whole =~= squares@);
        squares
    }

    /// The squares that the piece on `square` reaches by walking up or down,
    /// at most `max_offset` steps (at least 1, at most 7).
    pub fn vertical(board: &Board, square: Square, dir: VD, max_offset: u8) -> (r: Vec<Square>)
        ensures
            r@ == reach(board@, square, dir.rows(), 0, max_offset),
    {
        Walk::slide(board, square, Some(dir), None, max_offset)
    }

    /// The squares that the piece on `square` reaches by walking left or
    /// right, at most `max_offset` steps (at least 1, at most 7).
    pub fn horizontal(board: &Board, square: Square, dir: HD, max_offset: u8) -> (r: Vec<Square>)
        ensures
            r@ == reach(board@, square, 0, dir.cols(), max_offset),
    {
        Walk::slide(board, square, None, Some(dir), max_offset)
    }

    /// The squares that the piece on `square` reaches by walking along a
    /// diagonal, at most `max_offset` steps (at least 1, at most 7).
    pub fn diagonal(board: &Board, square: Square, dir: DD, max_offset: u8) -> (r: Vec<Square>)
        ensures
            r@ == reach(board@, square, dir.vertical().rows(), dir.horizontal().cols(), max_offset),
    {
        let (v, h) = match dir {
            DD::UpLeft => (VD::Up, HD::Left),
            DD::UpRight => (VD::Up, HD::Right),
            DD::DownLeft => (VD::Down, HD::Left),
            DD::DownRight => (VD::Down, HD::Right),
        };
        Walk::slide(board, square, Some(v), Some(h), max_offset)
    }
}

} // verus!
