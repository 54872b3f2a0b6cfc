//! The mathematical content of a board, and what moves do to it.

use crate::bitpiece::BitPiece;
use crate::board::BoardStatus;
use crate::chess_move::{CastleMove, MoveInfo};
use crate::color::Color;
use crate::movegen::legal::legal_moves;
use crate::movegen::raw::{all_raw_moves, RawMove, RawMoveInfo};
use crate::piece::Piece;
use crate::square::Square;
use vstd::prelude::*;

verus! {

/// The mathematical content of a board.
pub struct Position {
    /// The 64 cells, a1 first, rank by rank.
    pub cells: Seq<BitPiece>,
    pub turn: Color,
    pub status: BoardStatus,
    pub castling: u8,
    pub en_passant: Option<Square>,
    pub halfmove_clock: u8,
    pub fullmove_number: u16,
    pub history: Seq<MoveInfo>,
}

impl Position {
    /// The occupant of a square.
    pub open spec fn cell(self, sq: Square) -> BitPiece {
        self.cells[sq@]
    }

    /// The position with one cell replaced.
    pub open spec fn put(self, sq: Square, piece: BitPiece) -> Position {
        Position { cells: self.cells.update(sq@, piece), ..self }
    }

    /// Every cell is well formed, and there are 64 of them.
    pub open spec fn wf(self) -> bool {
        &&& self.cells.len() == 64
        &&& forall|i: int| 0 <= i < 64 ==> (#[trigger] self.cells[i]).wf()
        &&& self.en_passant matches Some(s) ==> s.wf()
    }

    /// What holds of every position that a game reaches: it is well
    /// formed, its castling rights are four bits, and its fullmove number
    /// is at least 1.
    pub open spec fn sane(self) -> bool {
        &&& self.wf()
        &&& self.castling < 16
        &&& self.fullmove_number >= 1
    }

    /// The position after one leg of a move: the square that the piece
    /// leaves is empty, and the piece, marked as moved, stands on its
    /// destination.
    pub open spec fn relocated(self, leg: RawMoveInfo) -> Position {
        self.put(leg.from, BitPiece::spec_blank()).put(leg.to, leg.piece.spec_moved())
    }

    /// The position without what a single move captures.
    pub open spec fn without_captured(self, info: RawMoveInfo) -> Position {
        match info.capture {
            Some(c) => self.put(c.square, BitPiece::spec_blank()),
            None => self,
        }
    }

    /// The position with the en-passant target that a single move opens, if
    /// it opens one.
    pub open spec fn with_target_of(self, info: RawMoveInfo) -> Position {
        match info.en_passant_square {
            Some(s) => Position { en_passant: Some(s), ..self },
            None => self,
        }
    }

    /// The position after the pieces of a move are relocated, whatever the
    /// rules say of the move.
    pub open spec fn forced(self, mv: RawMove) -> Position {
        match mv {
            RawMove::Single(info) => self.without_captured(info).relocated(info).with_target_of(
                info,
            ),
            RawMove::Castle(king, rook) => self.relocated(king).relocated(rook),
        }
    }

    /// The position after the pieces of a resolved move are relocated: as
    /// `forced`, except that a promoted pawn arrives as the piece it becomes.
    pub open spec fn executed(self, info: MoveInfo, mv: RawMove) -> Position {
        match mv {
            RawMove::Single(raw) => match info.promotion {
                Some(promoted) => self.without_captured(raw).put(
                    raw.from,
                    BitPiece::spec_blank(),
                ).put(raw.to, promoted).with_target_of(raw),
                None => self.forced(mv),
            },
            RawMove::Castle(_, _) => self.forced(mv),
        }
    }

    /// Whether the move is a single move of the other side onto a square
    /// that holds a king of the given colour.
    pub open spec fn takes_king(self, color: Color, mv: RawMove) -> bool {
        mv matches RawMove::Single(info) && info.piece.spec_color() != color && self.cell(
            info.to,
        ).holds(Piece::King) && self.cell(info.to).spec_color() == color
    }

    /// Whether one of the given moves takes a king of the given colour.
    pub open spec fn checked_by(self, color: Color, raw_moves: Seq<RawMove>) -> bool {
        exists|i: int| 0 <= i < raw_moves.len() && self.takes_king(color, #[trigger] raw_moves[i])
    }

    /// Whether a king of the given colour is capturable: whether a
    /// pseudo-legal move of the other side takes it.
    pub open spec fn in_check(self, color: Color) -> bool {
        self.checked_by(color, all_raw_moves(self))
    }

    /// Whether the side to move has a legal move.
    pub open spec fn has_reply(self) -> bool {
        exists|i: int|
            0 <= i < legal_moves(self).len() && (#[trigger] legal_moves(self)[i]).mover()
                == self.turn
    }

    /// How the game stands for the side to move: a function of whether its
    /// king is capturable and whether it has a legal move, and of nothing else.
    pub open spec fn standing(self) -> BoardStatus {
        if self.in_check(self.turn) {
            if self.has_reply() {
                BoardStatus::Check(self.turn)
            } else {
                BoardStatus::Checkmate(self.turn)
            }
        } else {
            if self.has_reply() {
                BoardStatus::Ongoing
            } else {
                BoardStatus::Stalemate
            }
        }
    }

    /// What history records of a move of the side to move, before it is
    /// known whether the move gives check. A pawn that reaches its last
    /// rank becomes a piece of the chosen kind, where one was chosen.
    pub open spec fn record(self, mv: RawMove, promoted: Option<Piece>) -> MoveInfo {
        match mv {
            RawMove::Single(info) => MoveInfo {
                piece: info.piece,
                from: info.from,
                to: info.to,
                capture: match info.capture {
                    Some(c) => Some(c.piece),
                    None => None,
                },
                promotion: match promoted {
                    Some(kind) => if info.promotion {
                        Some(BitPiece::spec_new(kind, self.turn, true))
                    } else {
                        None
                    },
                    None => None,
                },
                castle: None,
                en_passant: info.en_passant,
                en_passant_square: info.en_passant_square,
                check: false,
                checkmate: false,
            },
            RawMove::Castle(king, rook) => MoveInfo {
                piece: king.piece,
                from: king.from,
                to: king.to,
                capture: None,
                promotion: None,
                castle: if rook.from.col() == 7 {
                    Some(CastleMove::KingSide)
                } else {
                    Some(CastleMove::QueenSide)
                },
                en_passant: false,
                en_passant_square: None,
                check: false,
                checkmate: false,
            },
        }
    }

    /// The position after a move of the side to move, before the new
    /// standing is known: the pieces are relocated, the castling rights,
    /// the halfmove clock and the en-passant target are brought up to date,
    /// and the turn has passed to the other side.
    pub open spec fn advanced(self, mv: RawMove, promoted: Option<Piece>) -> Position {
        Position {
            cells: self.executed(self.record(mv, promoted), mv).cells,
            turn: self.turn.spec_opposite(),
            castling: rights_after(self.castling, self.turn, mv),
            en_passant: target_after(mv),
            halfmove_clock: clock_after(self.halfmove_clock, mv),
            ..self
        }
    }

    /// The position after a move of the side to move: as `advanced`, with
    /// the standing of the side that is now to move, the fullmove number
    /// counted up after a move of Black, and the move appended to history.
    pub open spec fn committed(self, mv: RawMove, promoted: Option<Piece>) -> Position {
        let next = self.advanced(mv, promoted);
        let status = next.standing();
        Position {
            status,
            fullmove_number: if next.turn == Color::White {
                (self.fullmove_number + 1) as u16
            } else {
                self.fullmove_number
            },
            history: self.history.push(
                MoveInfo {
                    check: status is Check,
                    checkmate: status is Checkmate,
                    ..self.record(mv, promoted)
                },
            ),
            ..next
        }
    }

    /// The occupant of each cell at the start of a game.
    pub open spec fn initial_cell(index: int) -> BitPiece {
        let row = index / 8;
        let col = index % 8;
        if row == 1 {
            BitPiece::spec_new(Piece::Pawn, Color::White, false)
        } else if row == 6 {
            BitPiece::spec_new(Piece::Pawn, Color::Black, false)
        } else if row == 0 {
            BitPiece::spec_new(Position::back_rank(col), Color::White, false)
        } else if row == 7 {
            BitPiece::spec_new(Position::back_rank(col), Color::Black, false)
        } else {
            BitPiece::spec_blank()
        }
    }

    /// The kind of piece that starts on the given column of a back rank.
    pub open spec fn back_rank(col: int) -> Piece {
        if col == 0 || col == 7 {
            Piece::Rook
        } else if col == 1 || col == 6 {
            Piece::Knight
        } else if col == 2 || col == 5 {
            Piece::Bishop
        } else if col == 3 {
            Piece::Queen
        } else {
            Piece::King
        }
    }

    /// The position at the start of a game.
    pub open spec fn initial() -> Position {
        Position {
            cells: Seq::new(64, |i: int| Position::initial_cell(i)),
            turn: Color::White,
            status: BoardStatus::Ongoing,
            castling: 0b1111,
            en_passant: None,
            halfmove_clock: 0,
            fullmove_number: 1,
            history: Seq::empty(),
        }
    }
}

/// The castling rights without those of one colour.
pub open spec fn without_rights_of(rights: u8, color: Color) -> u8 {
    match color {
        Color::White => rights & 0b0011,
        Color::Black => rights & 0b1100,
    }
}

/// The castling rights without the one of a colour on the side of the
/// rook that starts on the given column.
pub open spec fn without_right_on(rights: u8, color: Color, col: int) -> u8 {
    match color {
        Color::White => if col == 7 {
            rights & 0b0111
        } else if col == 0 {
            rights & 0b1011
        } else {
            rights
        },
        Color::Black => if col == 7 {
            rights & 0b1101
        } else if col == 0 {
            rights & 0b1110
        } else {
            rights
        },
    }
}

/// The castling rights after a move of the side `turn`: a castling or the
/// first move of a king gives up both rights of that side; the first move
/// of a rook from the a-file or the h-file gives up the right on its side;
/// any other move keeps the rights as they are.
pub open spec fn rights_after(rights: u8, turn: Color, mv: RawMove) -> u8 {
    match mv {
        RawMove::Castle(_, _) => without_rights_of(rights, turn),
        RawMove::Single(info) => if info.piece.holds(Piece::King) && !info.piece.spec_has_moved() {
            without_rights_of(rights, turn)
        } else if info.piece.holds(Piece::Rook) && !info.piece.spec_has_moved() {
            without_right_on(rights, turn, info.from.col())
        } else {
            rights
        },
    }
}

/// Whether a move resets the halfmove clock: whether it is a move of a
/// pawn or a capture.
pub open spec fn resets_clock(mv: RawMove) -> bool {
    mv matches RawMove::Single(info) && (info.piece.holds(Piece::Pawn) || info.capture is Some)
}

/// The halfmove clock after a move: 0 after a move of a pawn or a capture,
/// one more than before after any other move.
pub open spec fn clock_after(clock: u8, mv: RawMove) -> u8 {
    if resets_clock(mv) {
        0
    } else {
        (clock + 1) as u8
    }
}

/// The en-passant target after a move: the square that the move opens,
/// and none where it opens none.
pub open spec fn target_after(mv: RawMove) -> Option<Square> {
    match mv {
        RawMove::Single(info) => info.en_passant_square,
        RawMove::Castle(_, _) => None,
    }
}

/// A move only ever gives castling rights up: no right is set after it
/// that was not set before.
pub proof fn lemma_rights_only_clear(rights: u8, turn: Color, mv: RawMove)
    ensures
        rights_after(rights, turn, mv) & !rights == 0,
        rights < 16 ==> rights_after(rights, turn, mv) < 16,
{
    assert(forall|r: u8, m: u8| #![trigger r & m] (r & m) & !r == 0 && (r < 16 ==> (r & m) < 16))
        by (bit_vector);
    assert(rights & !rights == 0) by (bit_vector);
}

} // verus!
