//! Moves as history records them.

use crate::bitpiece::BitPiece;
use crate::board::Board;
use crate::movegen::raw::{king_goal, may_castle, Raw};
use crate::position::Position;
use crate::square::Square;
use vstd::prelude::*;

verus! {

/// The two sides on which a king may castle.
#[derive(Debug, Copy, Clone, PartialEq, Eq, Structural)]
pub enum CastleMove {
    KingSide,
    QueenSide,
}

/// The bare relocation of one piece.
#[derive(Debug, Copy, Clone, PartialEq, Eq, Structural)]
pub struct RawPieceMove {
    pub piece: BitPiece,
    pub from: Square,
    pub to: Square,
}

impl RawPieceMove {
    /// Whether the destination holds a piece of the other colour.
    pub fn is_capture(&self, board: &Board) -> (r: bool)
        ensures
            r == (!board@.cell(self.to).spec_is_blank() && board@.cell(self.to).spec_color()
                != self.piece.spec_color()),
    {
        let p = board.at(self.to);
        !p.is_blank() && p.get_color() != self.piece.get_color()
    }

    /// The side on which this relocation castles, if it is the king's leg
    /// of a castling that the movement rule allows on the board: the piece
    /// is the king that stands on the origin, and the destination is the
    /// square where the king ends.
    pub fn is_castle(&self, board: &Board) -> (r: Option<CastleMove>)
        ensures
            r == self.castle_side(board@),
    {
        if self.piece != board.at(self.from) || self.to.rank() != self.from.rank() {
            return None;
        }
        let side = if self.to.file() == 'g' {
            CastleMove::KingSide
        } else if self.to.file() == 'c' {
            CastleMove::QueenSide
        } else {
            return None;
        };
        if Raw::may_castle(board, self.from, side) {
            Some(side)
        } else {
            None
        }
    }

    /// The side on which the relocation castles, if it is the king's leg
    /// of a castling that the movement rule allows.
    pub open spec fn castle_side(self, pos: Position) -> Option<CastleMove> {
        if self.castles_on(pos, CastleMove::KingSide) {
            Some(CastleMove::KingSide)
        } else if self.castles_on(pos, CastleMove::QueenSide) {
            Some(CastleMove::QueenSide)
        } else {
            None
        }
    }

    /// Whether the relocation is the king's leg of the castling on the given side.
    pub open spec fn castles_on(self, pos: Position, side: CastleMove) -> bool {
        &&& self.piece == pos.cell(self.from)
        &&& self.to.row() == self.from.row()
        &&& self.to.col() == king_goal(side)
        &&& may_castle(pos, self.from, side)
    }
}

/// A move as it was made: what history records of one ply.
#[derive(Debug, Copy, Clone, PartialEq, Eq, Structural)]
pub struct MoveInfo {
    /// The piece that moved, as it stood before the move.
    pub piece: BitPiece,
    pub from: Square,
    pub to: Square,
    /// The piece that was captured, if any.
    pub capture: Option<BitPiece>,
    /// The piece that the pawn became, if it was promoted.
    pub promotion: Option<BitPiece>,
    /// The side on which the king castled, if it did.
    pub castle: Option<CastleMove>,
    /// Whether the move captured en passant.
    pub en_passant: bool,
    /// The square that the move opened to capture en passant.
    pub en_passant_square: Option<Square>,
    /// Whether the move left the opponent in check with a legal reply.
    pub check: bool,
    /// Whether the move left the opponent in check without a legal reply.
    pub checkmate: bool,
}

/// A relocation together with what history records of it.
#[derive(Debug, Copy, Clone, PartialEq, Eq, Structural)]
pub struct Move {
    raw_move: RawPieceMove,
    info: MoveInfo,
}

} // verus!
