//! The pseudo-legal move generator: one routine for each kind of piece,
//! built from rays. It never asks whether a move leaves the mover's own
//! king capturable.

use crate::bitpiece::BitPiece;
use crate::board::Board;
use crate::position::Position;
use crate::chess_move::CastleMove;
use crate::color::Color;
use crate::movegen::walk::{reach, Walk, DD, HD, VD};
use crate::piece::Piece;
use crate::square::Square;
use vstd::prelude::*;

verus! {

/// One leg of a pseudo-legal move: a piece, where it goes, and what that entails.
#[derive(Debug, Copy, Clone, PartialEq, Eq, Structural)]
pub struct RawMoveInfo {
    pub piece: BitPiece,
    pub from: Square,
    pub to: Square,
    pub capture: Option<CaptureInfo>,
    /// Whether the move takes a pawn to its last rank.
    pub promotion: bool,
    /// The side of the castling that this leg belongs to, if any.
    pub castle: Option<CastleMove>,
    /// Whether the move captures en passant.
    pub en_passant: bool,
    /// The square that the move opens to capture en passant.
    pub en_passant_square: Option<Square>,
}

/// A captured piece and the square it stood on.
#[derive(Debug, Copy, Clone, PartialEq, Eq, Structural)]
pub struct CaptureInfo {
    pub piece: BitPiece,
    pub square: Square,
}

/// A move that obeys its piece's movement rule, whether or not it leaves the
/// mover's king capturable.
#[derive(Debug, Copy, Clone, PartialEq, Eq, Structural)]
pub enum RawMove {
    Single(RawMoveInfo),
    /// Castling: the king's leg, then the rook's.
    Castle(RawMoveInfo, RawMoveInfo),
}

impl RawMove {
    /// The leg of the piece that the move is named after: the only leg of a
    /// single move, the king's leg of a castling.
    pub open spec fn lead(self) -> RawMoveInfo {
        match self {
            RawMove::Single(info) => info,
            RawMove::Castle(king, _) => king,
        }
    }

    /// The colour of the side that makes the move.
    pub open spec fn mover(self) -> Color {
        self.lead().piece.spec_color()
    }

    /// The colour of the side that makes the move.
    pub fn mover_color(&self) -> (r: Color)
        ensures
            r == self.mover(),
    {
        match self {
            RawMove::Single(info) => info.piece.get_color(),
            RawMove::Castle(king, _) => king.piece.get_color(),
        }
    }
}

/// The number of rows that a pawn of the given colour climbs with one step.
pub open spec fn forward(color: Color) -> int {
    match color {
        Color::White => 1,
        Color::Black => -1,
    }
}

/// Whether the square lies on the rank where a pawn of the given colour is promoted.
pub open spec fn is_last_rank(color: Color, to: Square) -> bool {
    match color {
        Color::White => to.row() == 7,
        Color::Black => to.row() == 0,
    }
}

/// The move of the piece on `from` to a square that it reaches by its
/// movement rule: a capture where the square is occupied.
pub open spec fn plain_move(pos: Position, from: Square, to: Square) -> RawMove {
    RawMove::Single(
        RawMoveInfo {
            piece: pos.cell(from),
            from,
            to,
            capture: if pos.cell(to).spec_is_blank() {
                None
            } else {
                Some(CaptureInfo { piece: pos.cell(to), square: to })
            },
            promotion: false,
            castle: None,
            en_passant: false,
            en_passant_square: None,
        },
    )
}

/// The plain moves of the piece on `from` to each of the given squares.
pub open spec fn plain_moves(pos: Position, from: Square, targets: Seq<Square>) -> Seq<RawMove> {
    targets.map_values(|to: Square| plain_move(pos, from, to))
}

/// The plain moves of the piece on `from` along one direction.
pub open spec fn line_moves(pos: Position, from: Square, rows: int, cols: int, max_offset: u8) -> Seq<
    RawMove,
> {
    plain_moves(pos, from, reach(pos, from, rows, cols, max_offset))
}

/// The moves along the two verticals and the two horizontals, in the order
/// up, down, left, right.
pub open spec fn straight_moves(pos: Position, from: Square, max_offset: u8) -> Seq<RawMove> {
    line_moves(pos, from, 1, 0, max_offset) + line_moves(pos, from, -1, 0, max_offset)
        + line_moves(pos, from, 0, -1, max_offset) + line_moves(pos, from, 0, 1, max_offset)
}

/// The moves along the four diagonals, in the order up-left, up-right,
/// down-left, down-right.
pub open spec fn diagonal_moves(pos: Position, from: Square, max_offset: u8) -> Seq<RawMove> {
    line_moves(pos, from, 1, -1, max_offset) + line_moves(pos, from, 1, 1, max_offset)
        + line_moves(pos, from, -1, -1, max_offset) + line_moves(pos, from, -1, 1, max_offset)
}

/// How the piece on `from` moves as a rook.
pub open spec fn rook_moves(pos: Position, from: Square) -> Seq<RawMove> {
    straight_moves(pos, from, 7)
}

/// How the piece on `from` moves as a bishop.
pub open spec fn bishop_moves(pos: Position, from: Square) -> Seq<RawMove> {
    diagonal_moves(pos, from, 7)
}

/// How the queen on `from` moves: as a bishop, then as a rook. No moves
/// where `from` holds no queen.
pub open spec fn queen_moves(pos: Position, from: Square) -> Seq<RawMove> {
    if pos.cell(from).holds(Piece::Queen) {
        bishop_moves(pos, from) + rook_moves(pos, from)
    } else {
        Seq::empty()
    }
}

/// The move of the knight on `from` by the given offset, if that is on
/// the board and holds no piece of the knight's colour.
pub open spec fn knight_jump(pos: Position, from: Square, rows: int, cols: int) -> Seq<RawMove> {
    landing(pos, from, from.offset(rows, cols))
}

/// The move of the piece on `from` to the given square, if there is one and
/// it holds no piece of the mover's colour.
pub open spec fn landing(pos: Position, from: Square, to: Option<Square>) -> Seq<RawMove> {
    match to {
        Some(to) => if pos.cell(to).spec_is_blank() || pos.cell(to).spec_color() != pos.cell(
            from,
        ).spec_color() {
            seq![plain_move(pos, from, to)]
        } else {
            Seq::empty()
        },
        None => Seq::empty(),
    }
}

/// How the piece on `from` moves as a knight.
pub open spec fn knight_moves(pos: Position, from: Square) -> Seq<RawMove> {
    if pos.cell(from).spec_is_blank() {
        Seq::empty()
    } else {
        knight_jump(pos, from, 2, -1) + knight_jump(pos, from, 2, 1) + knight_jump(
            pos,
            from,
            -2,
            -1,
        ) + knight_jump(pos, from, -2, 1) + knight_jump(pos, from, 1, -2) + knight_jump(
            pos,
            from,
            1,
            2,
        ) + knight_jump(pos, from, -1, -2) + knight_jump(pos, from, -1, 2)
    }
}

/// The advance of the pawn on `from` to a square straight ahead of it, if
/// that square is empty. An advance of two rows opens the square that it
/// skips to capture en passant.
pub open spec fn pawn_advance(pos: Position, from: Square, to: Square) -> Option<RawMove> {
    let piece = pos.cell(from);
    if pos.cell(to).spec_is_blank() {
        Some(
            RawMove::Single(
                RawMoveInfo {
                    piece,
                    from,
                    to,
                    capture: None,
                    promotion: is_last_rank(piece.spec_color(), to),
                    castle: None,
                    en_passant: false,
                    en_passant_square: if to.row() == from.row() + 2 * forward(
                        piece.spec_color(),
                    ) {
                        from.offset(forward(piece.spec_color()), 0)
                    } else {
                        None
                    },
                },
            ),
        )
    } else {
        None
    }
}

/// The pawn that a capture en passant onto `to` by a pawn of the given
/// colour removes: the pawn of the other colour one row behind `to`.
pub open spec fn en_passant_victim(pos: Position, color: Color, to: Square) -> Option<
    CaptureInfo,
> {
    match to.offset(-forward(color), 0) {
        Some(behind) => if pos.cell(behind).holds(Piece::Pawn) && pos.cell(behind).spec_color()
            != color {
            Some(CaptureInfo { piece: pos.cell(behind), square: behind })
        } else {
            None
        },
        None => None,
    }
}

/// The capture by the pawn on `from` onto a square diagonally ahead of it:
/// of the piece of the other colour on that square, or, where the square is
/// the target to capture en passant, of the pawn behind it.
pub open spec fn pawn_capture(pos: Position, from: Square, to: Square) -> Option<RawMove> {
    let piece = pos.cell(from);
    let target = pos.cell(to);
    if !target.spec_is_blank() && target.spec_color() != piece.spec_color() {
        Some(
            RawMove::Single(
                RawMoveInfo {
                    piece,
                    from,
                    to,
                    capture: Some(CaptureInfo { piece: target, square: to }),
                    promotion: is_last_rank(piece.spec_color(), to),
                    castle: None,
                    en_passant: false,
                    en_passant_square: None,
                },
            ),
        )
    } else if target.spec_is_blank() && pos.en_passant == Some(to) && en_passant_victim(
        pos,
        piece.spec_color(),
        to,
    ) is Some {
        Some(
            RawMove::Single(
                RawMoveInfo {
                    piece,
                    from,
                    to,
                    capture: en_passant_victim(pos, piece.spec_color(), to),
                    promotion: is_last_rank(piece.spec_color(), to),
                    castle: None,
                    en_passant: true,
                    en_passant_square: None,
                },
            ),
        )
    } else {
        None
    }
}

/// How the piece on `from` moves as a pawn: its advances, of one row or,
/// where it has not moved yet, of up to two; then its captures to the left
/// and to the right.
pub open spec fn pawn_moves(pos: Position, from: Square) -> Seq<RawMove> {
    let piece = pos.cell(from);
    let rows = forward(piece.spec_color());
    let budget: u8 = if piece.spec_has_moved() {
        1
    } else {
        2
    };
    reach(pos, from, rows, 0, budget).filter_map(|to: Square| pawn_advance(pos, from, to))
        + reach(pos, from, rows, -1, 1).filter_map(|to: Square| pawn_capture(pos, from, to))
        + reach(pos, from, rows, 1, 1).filter_map(|to: Square| pawn_capture(pos, from, to))
}

/// One leg of a castling.
pub open spec fn castle_leg(piece: BitPiece, from: Square, to: Square, side: CastleMove)
    -> RawMoveInfo {
    RawMoveInfo {
        piece,
        from,
        to,
        capture: None,
        promotion: false,
        castle: Some(side),
        en_passant: false,
        en_passant_square: None,
    }
}

/// The column on which the rook of a castling starts.
pub open spec fn rook_home(side: CastleMove) -> int {
    match side {
        CastleMove::QueenSide => 0,
        CastleMove::KingSide => 7,
    }
}

/// The column on which the king of a castling ends.
pub open spec fn king_goal(side: CastleMove) -> int {
    match side {
        CastleMove::QueenSide => 2,
        CastleMove::KingSide => 6,
    }
}

/// The column on which the rook of a castling ends.
pub open spec fn rook_goal(side: CastleMove) -> int {
    match side {
        CastleMove::QueenSide => 3,
        CastleMove::KingSide => 5,
    }
}

/// Whether the cells of a row strictly between the king's column (e) and
/// the rook's column are all empty.
pub open spec fn castle_path_clear(pos: Position, row: int, side: CastleMove) -> bool {
    match side {
        CastleMove::QueenSide => pos.cells[8 * row + 1].spec_is_blank() && pos.cells[8 * row
            + 2].spec_is_blank() && pos.cells[8 * row + 3].spec_is_blank(),
        CastleMove::KingSide => pos.cells[8 * row + 5].spec_is_blank() && pos.cells[8 * row
            + 6].spec_is_blank(),
    }
}

/// Whether the king on `from` may castle on the given side as far as the
/// movement rule goes: the king stands on the e-file and has never moved,
/// the corner of its row on that side holds a rook of its colour that has
/// never moved, and every cell between the two is empty. Whether the king
/// is or would be attacked is not looked at.
pub open spec fn may_castle(pos: Position, from: Square, side: CastleMove) -> bool {
    let king = pos.cell(from);
    let rook = pos.cells[8 * from.row() + rook_home(side)];
    &&& king.holds(Piece::King)
    &&& !king.spec_has_moved()
    &&& from.col() == 4
    &&& rook.holds(Piece::Rook)
    &&& rook.spec_color() == king.spec_color()
    &&& !rook.spec_has_moved()
    &&& castle_path_clear(pos, from.row(), side)
}

/// The castling of the king on `from` on the given side, if it may castle there.
pub open spec fn castling(pos: Position, from: Square, side: CastleMove) -> Seq<RawMove> {
    if may_castle(pos, from, side) {
        let row = from.row();
        seq![
            RawMove::Castle(
                castle_leg(pos.cell(from), from, Square::at(8 * row + king_goal(side)), side),
                castle_leg(
                    pos.cells[8 * row + rook_home(side)],
                    Square::at(8 * row + rook_home(side)),
                    Square::at(8 * row + rook_goal(side)),
                    side,
                ),
            ),
        ]
    } else {
        Seq::empty()
    }
}

/// How the piece on `from` moves as a king: one step in each of the eight
/// directions, then castling on the queen's side, then on the king's side.
pub open spec fn king_moves(pos: Position, from: Square) -> Seq<RawMove> {
    straight_moves(pos, from, 1) + diagonal_moves(pos, from, 1) + castling(
        pos,
        from,
        CastleMove::QueenSide,
    ) + castling(pos, from, CastleMove::KingSide)
}

/// The pseudo-legal moves of the piece on `from`, by its kind; none from an
/// empty square.
pub open spec fn moves_from(pos: Position, from: Square) -> Seq<RawMove> {
    let piece = pos.cell(from);
    if piece.spec_is_blank() {
        Seq::empty()
    } else {
        match piece.spec_piece() {
            Piece::Pawn => pawn_moves(pos, from),
            Piece::Knight => knight_moves(pos, from),
            Piece::Bishop => bishop_moves(pos, from),
            Piece::Rook => rook_moves(pos, from),
            Piece::Queen => queen_moves(pos, from),
            Piece::King => king_moves(pos, from),
        }
    }
}

/// The pseudo-legal moves of the pieces on the first `count` squares, square by square.
pub open spec fn moves_up_to(pos: Position, count: nat) -> Seq<RawMove>
    decreases count,
{
    if count == 0 {
        Seq::empty()
    } else {
        moves_up_to(pos, (count - 1) as nat) + moves_from(pos, Square::at(count - 1))
    }
}

/// The pseudo-legal moves of all pieces of both colours, square by square from a1.
pub open spec fn all_raw_moves(pos: Position) -> Seq<RawMove> {
    moves_up_to(pos, 64)
}

/// The pseudo-legal move generator. It never asks whether a move leaves the
/// mover's own king capturable.
pub struct Raw;

impl Raw {
    /// The plain move of `piece`, which stands on `from`, to `to`.
    fn plain(board: &Board, piece: BitPiece, from: Square, to: Square) -> (r: RawMove)
        requires
            piece == board@.cell(from),
        ensures
            r == plain_move(board@, from, to),
    {
        let p = board.at(to);
        RawMove::Single(
            RawMoveInfo {
                piece,
                from,
                to,
                capture: if p.is_blank() {
                    None
                } else {
                    Some(CaptureInfo { piece: p, square: to })
                },
                promotion: false,
                castle: None,
                en_passant: false,
                en_passant_square: None,
            },
        )
    }

    /// Appends the plain moves to each of the given squares.
    fn extend_plain(board: &Board, from: Square, targets: &Vec<Square>, moves: &mut Vec<RawMove>)
        ensures
            final(moves)@ == old(moves)@ + plain_moves(board@, from, targets@),
    {
        let piece = board.at(from);
        let ghost f = |to: Square| plain_move(board@, from, to);
        let mut i: usize = 0;
        while i < targets.len()
            invariant
                i <= targets.len(),
                piece == board@.cell(from),
                f == |to: Square| plain_move(board@, from, to),
                moves@ == old(moves)@ + targets@.take(i as int).map_values(f),
            decreases targets.len() - i,
        {
            let mv = Raw::plain(board, piece, from, targets[i]);
            moves.push(mv);
            i += 1;
            assert(targets@.take(i as int).map_values(f) =~= targets@.take(i - 1).map_values(
                f,
            ).push(mv));
        }
        assert(targets@.take(targets.len() as int) =~= targets@);
    }

    /// Appends the moves along the verticals and horizontals.
    fn extend_straight(board: &Board, from: Square, max_offset: u8, moves: &mut Vec<RawMove>)
        ensures
            final(moves)@ == old(moves)@ + straight_moves(board@, from, max_offset),
    {
        let up = Walk::vertical(board, from, VD::Up, max_offset);
        Raw::extend_plain(board, from, &up, moves);
        let down = Walk::vertical(board, from, VD::Down, max_offset);
        Raw::extend_plain(board, from, &down, moves);
        let left = Walk::horizontal(board, from, HD::Left, max_offset);
        Raw::extend_plain(board, from, &left, moves);
        let right = Walk::horizontal(board, from, HD::Right, max_offset);
        Raw::extend_plain(board, from, &right, moves);
        assert(moves@ =~= old(moves)@ + straight_moves(board@, from, max_offset));
    }

    /// Appends the moves along the diagonals.
    fn extend_diagonal(board: &Board, from: Square, max_offset: u8, moves: &mut Vec<RawMove>)
        ensures
            final(moves)@ == old(moves)@ + diagonal_moves(board@, from, max_offset),
    {
        let ul = Walk::diagonal(board, from, DD::UpLeft, max_offset);
        Raw::extend_plain(board, from, &ul, moves);
        let ur = Walk::diagonal(board, from, DD::UpRight, max_offset);
        Raw::extend_plain(board, from, &ur, moves);
        let dl = Walk::diagonal(board, from, DD::DownLeft, max_offset);
        Raw::extend_plain(board, from, &dl, moves);
        let dr = Walk::diagonal(board, from, DD::DownRight, max_offset);
        Raw::extend_plain(board, from, &dr, moves);
        assert(moves@ =~= old(moves)@ + diagonal_moves(board@, from, max_offset));
    }

    /// The moves of the piece on `square` along ranks and files, as far as it can go.
    pub fn gen_rook_raw_moves(board: &Board, square: Square) -> (r: Vec<RawMove>)
        ensures
            r@ == rook_moves(board@, square),
    {
        let mut moves: Vec<RawMove> = Vec::new();
        Raw::extend_straight(board, square, 7, &mut moves);
        assert(moves@ =~= rook_moves(board@, square));
        moves
    }

    /// The moves of the piece on `square` along diagonals, as far as it can go.
    pub fn gen_bishop_raw_moves(board: &Board, square: Square) -> (r: Vec<RawMove>)
        ensures
            r@ == bishop_moves(board@, square),
    {
        let mut moves: Vec<RawMove> = Vec::new();
        Raw::extend_diagonal(board, square, 7, &mut moves);
        assert(moves@ =~= bishop_moves(board@, square));
        moves
    }

    /// The moves of the queen on `square`: those of a bishop, then those of
    /// a rook. None where the square holds no queen.
    pub fn gen_queen_raw_moves(board: &Board, square: Square) -> (r: Vec<RawMove>)
        ensures
            r@ == queen_moves(board@, square),
    {
        let mut moves: Vec<RawMove> = Vec::new();
        let piece = board.at(square);
        if piece.is_blank() || !piece.is_queen() {
            return moves;
        }
        Raw::extend_diagonal(board, square, 7, &mut moves);
        Raw::extend_straight(board, square, 7, &mut moves);
        assert(moves@ =~= queen_moves(board@, square));
        moves
    }

    /// The square `rows` rows up (down if `up` is false) and `cols` columns
    /// to the left (to the right if `left` is false).
    fn hop(from: Square, up: bool, rows: u8, left: bool, cols: u8) -> (r: Option<Square>)
        requires
            rows <= 7,
            cols <= 7,
        ensures
            r == from.offset(
                if up {
                    rows as int
                } else {
                    -(rows as int)
                },
                if left {
                    -(cols as int)
                } else {
                    cols as int
                },
            ),
            r matches Some(s) ==> s.wf(),
    {
        broadcast use Square::lemma_at_view;

        proof {
            use_type_invariant(&from);
        }
        let first = if up {
            from.up(rows)
        } else {
            from.down(rows)
        };
        match first {
            None => None,
            Some(s) => {
                let second = if left {
                    s.left(cols)
                } else {
                    s.right(cols)
                };
                proof {
                    if let Some(t) = second {
                        use_type_invariant(&t);
                    }
                }
                second
            },
        }
    }

    /// Appends the move to the given square, if any, unless a piece of the
    /// mover's colour stands there.
    fn extend_landing(
        board: &Board,
        piece: BitPiece,
        from: Square,
        to: Option<Square>,
        moves: &mut Vec<RawMove>,
    )
        requires
            piece == board@.cell(from),
        ensures
            final(moves)@ == old(moves)@ + landing(board@, from, to),
    {
        if let Some(sqr) = to {
            let p = board.at(sqr);
            if p.is_blank() || p.get_color() != piece.get_color() {
                let mv = Raw::plain(board, piece, from, sqr);
                moves.push(mv);
                assert(moves@ =~= old(moves)@ + landing(board@, from, to));
                return ;
            }
        }
        assert(moves@ =~= old(moves)@ + landing(board@, from, to));
    }

    /// The moves of the piece on `square` by the knight's eight jumps.
    pub fn gen_knight_raw_moves(board: &Board, square: Square) -> (r: Vec<RawMove>)
        ensures
            r@ == knight_moves(board@, square),
    {
        let mut moves: Vec<RawMove> = Vec::new();
        let piece = board.at(square);
        if piece.is_blank() {
            return moves;
        }
        Raw::extend_landing(board, piece, square, Raw::hop(square, true, 2, true, 1), &mut moves);
        Raw::extend_landing(board, piece, square, Raw::hop(square, true, 2, false, 1), &mut moves);
        Raw::extend_landing(board, piece, square, Raw::hop(square, false, 2, true, 1), &mut moves);
        Raw::extend_landing(board, piece, square, Raw::hop(square, false, 2, false, 1), &mut moves);
        Raw::extend_landing(board, piece, square, Raw::hop(square, true, 1, true, 2), &mut moves);
        Raw::extend_landing(board, piece, square, Raw::hop(square, true, 1, false, 2), &mut moves);
        Raw::extend_landing(board, piece, square, Raw::hop(square, false, 1, true, 2), &mut moves);
        Raw::extend_landing(board, piece, square, Raw::hop(square, false, 1, false, 2), &mut moves);
        assert(moves@ =~= knight_moves(board@, square));
        moves
    }

    /// Whether the square lies on the rank where a pawn of the given colour is promoted.
    fn last_rank(color: Color, to: Square) -> (r: bool)
        ensures
            r == is_last_rank(color, to),
    {
        match color {
            Color::White => to.rank() == 8,
            Color::Black => to.rank() == 1,
        }
    }

    /// The square `rows` rows ahead of `from`, as a pawn of the given colour sees it.
    fn ahead(color: Color, from: Square, rows: u8) -> (r: Option<Square>)
        ensures
            r == from.offset(forward(color) * rows, 0),
            r matches Some(s) ==> s.wf(),
    {
        let r = match color {
            Color::White => from.up(rows),
            Color::Black => from.down(rows),
        };
        proof {
            if let Some(s) = r {
                use_type_invariant(&s);
            }
        }
        r
    }

    /// The square one row behind `from`, as a pawn of the given colour sees it.
    fn behind(color: Color, from: Square) -> (r: Option<Square>)
        ensures
            r == from.offset(-forward(color), 0),
            r matches Some(s) ==> s.wf(),
    {
        let r = match color {
            Color::White => from.down(1),
            Color::Black => from.up(1),
        };
        proof {
            if let Some(s) = r {
                use_type_invariant(&s);
            }
        }
        r
    }

    /// The advance of the pawn `piece` on `from` to `to`, unless `to` is occupied.
    fn advance(board: &Board, piece: BitPiece, from: Square, to: Square) -> (r: Option<RawMove>)
        requires
            piece == board@.cell(from),
        ensures
            r == pawn_advance(board@, from, to),
    {
        proof {
            use_type_invariant(&from);
            use_type_invariant(&to);
        }
        if !board.at(to).is_blank() {
            return None;
        }
        let color = piece.get_color();
        let double = match color {
            Color::White => to.rank() == from.rank() + 2,
            Color::Black => to.rank() + 2 == from.rank(),
        };
        Some(
            RawMove::Single(
                RawMoveInfo {
                    piece,
                    from,
                    to,
                    capture: None,
                    promotion: Raw::last_rank(color, to),
                    castle: None,
                    en_passant: false,
                    en_passant_square: if double {
                        Raw::ahead(color, from, 1)
                    } else {
                        None
                    },
                },
            ),
        )
    }

    /// The pawn that a capture en passant onto `to` removes.
    fn victim(board: &Board, color: Color, to: Square) -> (r: Option<CaptureInfo>)
        ensures
            r == en_passant_victim(board@, color, to),
    {
        match Raw::behind(color, to) {
            Some(behind) => {
                let v = board.at(behind);
                if v.is_pawn() && v.get_color() != color {
                    Some(CaptureInfo { piece: v, square: behind })
                } else {
                    None
                }
            },
            None => None,
        }
    }

    /// The capture of the pawn `piece` on `from` onto `to`, if there is
    /// anything to capture.
    fn capture(board: &Board, piece: BitPiece, from: Square, to: Square) -> (r: Option<RawMove>)
        requires
            piece == board@.cell(from),
        ensures
            r == pawn_capture(board@, from, to),
    {
        let color = piece.get_color();
        let target = board.at(to);
        if !target.is_blank() {
            if target.get_color() != color {
                return Some(
                    RawMove::Single(
                        RawMoveInfo {
                            piece,
                            from,
                            to,
                            capture: Some(CaptureInfo { piece: target, square: to }),
                            promotion: Raw::last_rank(color, to),
                            castle: None,
                            en_passant: false,
                            en_passant_square: None,
                        },
                    ),
                );
            }
            return None;
        }
        let on_target = match board.en_passant_target() {
            Some(t) => t == to,
            None => false,
        };
        if !on_target {
            return None;
        }
        match Raw::victim(board, color, to) {
            Some(v) => Some(
                RawMove::Single(
                    RawMoveInfo {
                        piece,
                        from,
                        to,
                        capture: Some(v),
                        promotion: Raw::last_rank(color, to),
                        castle: None,
                        en_passant: true,
                        en_passant_square: None,
                    },
                ),
            ),
            None => None,
        }
    }

    /// Appends the captures of the pawn on `from` onto the given squares.
    fn extend_captures(
        board: &Board,
        piece: BitPiece,
        from: Square,
        targets: &Vec<Square>,
        moves: &mut Vec<RawMove>,
    )
        requires
            piece == board@.cell(from),
        ensures
            final(moves)@ == old(moves)@ + targets@.filter_map(
                |to: Square| pawn_capture(board@, from, to),
            ),
    {
        let ghost f = |to: Square| pawn_capture(board@, from, to);
        let mut i: usize = 0;
        while i < targets.len()
            invariant
                i <= targets.len(),
                piece == board@.cell(from),
                f == |to: Square| pawn_capture(board@, from, to),
                moves@ == old(moves)@ + targets@.take(i as int).filter_map(f),
            decreases targets.len() - i,
        {
            proof {
                targets@.lemma_filter_map_take_succ(f, i as int);
            }
            if let Some(mv) = Raw::capture(board, piece, from, targets[i]) {
                moves.push(mv);
            }
            i += 1;
            assert(moves@ =~= old(moves)@ + targets@.take(i as int).filter_map(f));
        }
        assert(targets@.take(targets.len() as int) =~= targets@);
    }

    /// The moves of the piece on `square` as a pawn: its advances, then its
    /// captures to the left and to the right.
    pub fn gen_pawn_raw_moves(board: &Board, square: Square) -> (r: Vec<RawMove>)
        ensures
            r@ == pawn_moves(board@, square),
    {
        let mut moves: Vec<RawMove> = Vec::new();
        let piece = board.at(square);
        let white = piece.is_white();
        let max_offset: u8 = if piece.has_moved() {
            1
        } else {
            2
        };
        let dir = if white {
            VD::Up
        } else {
            VD::Down
        };
        let n_squares = Walk::vertical(board, square, dir, max_offset);
        let ghost f = |to: Square| pawn_advance(board@, square, to);
        let mut i: usize = 0;
        while i < n_squares.len()
            invariant
                i <= n_squares.len(),
                piece == board@.cell(square),
                f == |to: Square| pawn_advance(board@, square, to),
                moves@ == n_squares@.take(i as int).filter_map(f),
            decreases n_squares.len() - i,
        {
            proof {
                n_squares@.lemma_filter_map_take_succ(f, i as int);
            }
            if let Some(mv) = Raw::advance(board, piece, square, n_squares[i]) {
                moves.push(mv);
            }
            i += 1;
        }
        assert(n_squares@.take(n_squares.len() as int) =~= n_squares@);
        let (left, right) = if white {
            (DD::UpLeft, DD::UpRight)
        } else {
            (DD::DownLeft, DD::DownRight)
        };
        let c_left = Walk::diagonal(board, square, left, 1);
        Raw::extend_captures(board, piece, square, &c_left, &mut moves);
        let c_right = Walk::diagonal(board, square, right, 1);
        Raw::extend_captures(board, piece, square, &c_right, &mut moves);
        moves
    }

    /// Whether the king on `from` may castle on the given side as far as
    /// the movement rule goes.
    pub fn may_castle(board: &Board, from: Square, side: CastleMove) -> (r: bool)
        ensures
            r == may_castle(board@, from, side),
    {
        broadcast use Square::lemma_at_view;

        proof {
            use_type_invariant(&from);
        }
        let king = board.at(from);
        let row: u8 = from.index() / 8;
        if !king.is_king() || king.has_moved() || from.index() % 8 != 4 {
            return false;
        }
        let rook = match side {
            CastleMove::QueenSide => board.at(Square::on(row, 0)),
            CastleMove::KingSide => board.at(Square::on(row, 7)),
        };
        if !rook.is_rook() || rook.get_color() != king.get_color() || rook.has_moved() {
            return false;
        }
        match side {
            CastleMove::QueenSide => board.at(Square::on(row, 1)).is_blank() && board.at(
                Square::on(row, 2),
            ).is_blank() && board.at(Square::on(row, 3)).is_blank(),
            CastleMove::KingSide => board.at(Square::on(row, 5)).is_blank() && board.at(
                Square::on(row, 6),
            ).is_blank(),
        }
    }

    /// Appends the castling of the king on `from` on the given side, if it
    /// may castle there.
    fn extend_castling(board: &Board, from: Square, side: CastleMove, moves: &mut Vec<RawMove>)
        ensures
            final(moves)@ == old(moves)@ + castling(board@, from, side),
    {
        broadcast use Square::lemma_at_view;

        proof {
            use_type_invariant(&from);
            assert(moves@ =~= moves@ + Seq::<RawMove>::empty());
        }
        if !Raw::may_castle(board, from, side) {
            return ;
        }
        let row: u8 = from.index() / 8;
        let (rook_from, king_to, rook_to) = match side {
            CastleMove::QueenSide => (Square::on(row, 0), Square::on(row, 2), Square::on(row, 3)),
            CastleMove::KingSide => (Square::on(row, 7), Square::on(row, 6), Square::on(row, 5)),
        };
        let mv = RawMove::Castle(
            RawMoveInfo {
                piece: board.at(from),
                from,
                to: king_to,
                capture: None,
                promotion: false,
                castle: Some(side),
                en_passant: false,
                en_passant_square: None,
            },
            RawMoveInfo {
                piece: board.at(rook_from),
                from: rook_from,
                to: rook_to,
                capture: None,
                promotion: false,
                castle: Some(side),
                en_passant: false,
                en_passant_square: None,
            },
        );
        moves.push(mv);
        assert(moves@ =~= old(moves)@ + castling(board@, from, side));
    }

    /// The moves of the piece on `square` as a king: one step in each
    /// direction, then castling on either side.
    pub fn gen_king_raw_moves(board: &Board, square: Square) -> (r: Vec<RawMove>)
        ensures
            r@ == king_moves(board@, square),
    {
        let mut moves: Vec<RawMove> = Vec::new();
        Raw::extend_straight(board, square, 1, &mut moves);
        Raw::extend_diagonal(board, square, 1, &mut moves);
        Raw::extend_castling(board, square, CastleMove::QueenSide, &mut moves);
        Raw::extend_castling(board, square, CastleMove::KingSide, &mut moves);
        assert(moves@ =~= king_moves(board@, square));
        moves
    }

    /// The pseudo-legal moves of the piece on `square`, by its kind.
    fn gen_raw_moves_from(board: &Board, square: Square) -> (r: Vec<RawMove>)
        ensures
            r@ == moves_from(board@, square),
    {
        let p = board.at(square);
        if p.is_blank() {
            return Vec::new();
        }
        match p.get_piece() {
            Piece::Pawn => Raw::gen_pawn_raw_moves(board, square),
            Piece::Knight => Raw::gen_knight_raw_moves(board, square),
            Piece::Bishop => Raw::gen_bishop_raw_moves(board, square),
            Piece::Rook => Raw::gen_rook_raw_moves(board, square),
            Piece::Queen => Raw::gen_queen_raw_moves(board, square),
            Piece::King => Raw::gen_king_raw_moves(board, square),
        }
    }

    /// The pseudo-legal moves of all pieces of both colours, square by
    /// square from a1.
    pub fn gen_all_raw_moves(board: &Board) -> (r: Vec<RawMove>)
        ensures
            r@ == all_raw_moves(board@),
    {
        let mut moves: Vec<RawMove> = Vec::new();
        let mut i: u8 = 0;
        while i < 64
            invariant
                i <= 64,
                moves@ == moves_up_to(board@, i as nat),
            decreases 64 - i,
        {
            let square = Square::on(i / 8, i % 8);
            let mut more = Raw::gen_raw_moves_from(board, square);
            moves.append(&mut more);
            i += 1;
        }
        moves
    }
}

} // verus!
