//! What a move that is played does to a position, and what holds of every
//! game.

use crate::bitpiece::{lemma_moved_is_one_way, lemma_new_unpacks, BitPiece};
use crate::chess_move::{CastleMove, MoveInfo};
use crate::color::Color;
use crate::error::BoardFault;
use crate::board::BoardStatus;
use crate::movegen::alike::{alike, lemma_check_carries};
use crate::movegen::frame::lemma_moves_frame;
use crate::movegen::raw::{forward, rook_home, RawMove};
use crate::movegen::sound::lemma_raw_moves_sound;
use crate::notation::Notation;
use crate::piece::Piece;
use crate::position::{lemma_rights_only_clear, rights_after, Position};
use crate::resolve::{lemma_resolved_is_legal, resolved};
use vstd::prelude::*;

verus! {

/// The kind of piece that a notation promotes a pawn to, if it says so.
pub open spec fn promoted_kind(notation: Option<Notation>) -> Option<Piece> {
    match notation {
        Some(n) => match n.promotion {
            Some(l) => Some(l.kind),
            None => None,
        },
        None => None,
    }
}

/// The position after the move that a text selects, given the notation
/// that the text stands for under the grammar. A move that takes a pawn to
/// its last rank is illegal unless the notation says what the pawn becomes.
pub open spec fn played(pos: Position, text: Seq<char>, notation: Option<Notation>) -> Result<
    Position,
    BoardFault,
> {
    match resolved(pos, text, notation) {
        Err(f) => Err(f),
        Ok(mv) => if mv matches RawMove::Single(info) && info.promotion && promoted_kind(
            notation,
        ) is None {
            Err(BoardFault::IllegalMove(text))
        } else {
            Ok(pos.committed(mv, promoted_kind(notation)))
        },
    }
}

/// Whether a recorded move is the advance of a pawn by two rows.
pub open spec fn is_double_push(info: MoveInfo) -> bool {
    &&& info.piece.holds(Piece::Pawn)
    &&& info.to.col() == info.from.col()
    &&& info.to.row() == info.from.row() + 2 * forward(info.piece.spec_color())
}

/// What one ply changes: `next` follows `prev` if
/// - history has grown by one move, made by the side that was to move, and
///   the turn has passed to the other side;
/// - no castling right is set that was not set before;
/// - the halfmove clock is 0 if the move was made by a pawn or captured,
///   and one more than before otherwise;
/// - the en-passant target is present exactly if the move was the advance
///   of a pawn by two rows, and is then the square that the pawn skipped:
///   whatever target stood before is gone;
/// - the fullmove number is one more than before after a move of Black,
///   and as before after a move of White.
pub open spec fn follows(prev: Position, next: Position) -> bool {
    let last = next.history.last();
    &&& next.history == prev.history.push(last)
    &&& last.piece.spec_color() == prev.turn
    &&& next.turn == prev.turn.spec_opposite()
    &&& next.castling & !prev.castling == 0
    &&& next.halfmove_clock == (if last.piece.holds(Piece::Pawn) || last.capture is Some {
        0
    } else {
        prev.halfmove_clock + 1
    })
    &&& next.en_passant == last.en_passant_square
    &&& (next.en_passant is Some <==> is_double_push(last))
    &&& (next.en_passant matches Some(s) ==> s.col() == last.from.col() && s.row()
        == last.from.row() + forward(prev.turn))
    &&& next.fullmove_number == (if prev.turn == Color::Black {
        prev.fullmove_number + 1
    } else {
        prev.fullmove_number as int
    })
}

/// Every move that is played is legal, and the position after it follows
/// the position before it: castling rights only ever clear, the halfmove
/// clock is reset exactly by moves of pawns and captures and counts one
/// up on every other ply, and an en-passant target stands only for the
/// ply after the double push that opened it.
pub proof fn lemma_played_follows(pos: Position, text: Seq<char>, notation: Option<Notation>)
    requires
        pos.cells.len() == 64,
        pos.halfmove_clock < u8::MAX,
        pos.fullmove_number < u16::MAX,
        played(pos, text, notation) is Ok,
    ensures
        follows(pos, played(pos, text, notation)->Ok_0),
{
    let mv = resolved(pos, text, notation)->Ok_0;
    lemma_resolved_is_legal(pos, text, notation);
    lemma_raw_moves_sound(pos, mv);
    lemma_rights_only_clear(pos.castling, pos.turn, mv);
    let next = played(pos, text, notation)->Ok_0;
    let info = pos.record(mv, promoted_kind(notation));
    assert(next.history.last().piece == info.piece);
}

/// The position at the start of a game is one that a game reaches.
pub proof fn lemma_initial_is_sane()
    ensures
        Position::initial().sane(),
        Position::initial().halfmove_clock == 0,
{
    let pos = Position::initial();
    assert forall|i: int| 0 <= i < 64 implies (#[trigger] pos.cells[i]).wf() by {
        let row = i / 8;
        let col = i % 8;
        lemma_new_unpacks(Piece::Pawn, Color::White, false);
        lemma_new_unpacks(Piece::Pawn, Color::Black, false);
        lemma_new_unpacks(Position::back_rank(col), Color::White, false);
        lemma_new_unpacks(Position::back_rank(col), Color::Black, false);
        BitPiece::lemma_of_bits(0);
    }
}

/// A move that is played takes a position that a game reaches to another:
/// the cells stay well formed, the castling rights stay four bits, and the
/// fullmove number stays at least 1.
pub proof fn lemma_played_stays_sane(pos: Position, text: Seq<char>, notation: Option<Notation>)
    requires
        pos.sane(),
        pos.fullmove_number < u16::MAX,
        played(pos, text, notation) is Ok,
    ensures
        played(pos, text, notation)->Ok_0.sane(),
{
    let mv = resolved(pos, text, notation)->Ok_0;
    lemma_resolved_is_legal(pos, text, notation);
    lemma_raw_moves_sound(pos, mv);
    lemma_rights_only_clear(pos.castling, pos.turn, mv);
    let promoted = promoted_kind(notation);
    let info = pos.record(mv, promoted);
    let next = played(pos, text, notation)->Ok_0;
    BitPiece::lemma_of_bits(0);
    match mv {
        RawMove::Single(raw) => {
            lemma_moved_is_one_way(raw.piece);
            if let Some(kind) = promoted {
                lemma_new_unpacks(kind, pos.turn, true);
            }
        },
        RawMove::Castle(king, rook) => {
            lemma_moved_is_one_way(king.piece);
            lemma_moved_is_one_way(rook.piece);
        },
    }
    assert(next.cells == pos.executed(info, mv).cells);
    assert forall|i: int| 0 <= i < 64 implies (#[trigger] next.cells[i]).wf() by {
        assert(pos.cells[i].wf());
    }
}

/// No move that is played leaves the king of the side that made it
/// capturable: in the position that the board holds after the move, no
/// pseudo-legal move of the other side takes that king. (The legality
/// filter tries a move without its promotion and without clearing an old
/// en-passant target; neither changes what the other side attacks.)
pub proof fn lemma_played_leaves_mover_safe(
    pos: Position,
    text: Seq<char>,
    notation: Option<Notation>,
)
    requires
        pos.wf(),
        played(pos, text, notation) is Ok,
    ensures
        !played(pos, text, notation)->Ok_0.in_check(pos.turn),
{
    let mv = resolved(pos, text, notation)->Ok_0;
    lemma_resolved_is_legal(pos, text, notation);
    lemma_raw_moves_sound(pos, mv);
    let promoted = promoted_kind(notation);
    let tried = pos.forced(mv);
    let next = played(pos, text, notation)->Ok_0;
    assert(next.cells == pos.executed(pos.record(mv, promoted), mv).cells);
    match mv {
        RawMove::Single(raw) => {
            lemma_moved_is_one_way(raw.piece);
            if let Some(kind) = promoted {
                lemma_new_unpacks(kind, pos.turn, true);
            }
        },
        RawMove::Castle(_, _) => {},
    }
    assert(alike(tried.cells, next.cells, pos.turn)) by {
        assert forall|i: int| 0 <= i < 64 implies #[trigger] tried.cells[i] == next.cells[i] || {
            &&& !tried.cells[i].spec_is_blank()
            &&& !next.cells[i].spec_is_blank()
            &&& tried.cells[i].spec_color() == pos.turn
            &&& next.cells[i].spec_color() == pos.turn
            &&& !tried.cells[i].holds(Piece::King)
            &&& !next.cells[i].holds(Piece::King)
        } by {}
    }
    if next.in_check(pos.turn) {
        lemma_check_carries(tried, next, pos.turn);
    }
}

/// After every move that is played the status is that of the position
/// that the board then holds: a function of whether the king of the side
/// to move is capturable and whether that side has a legal move, and of
/// nothing else. The move records a check or a checkmate exactly where the
/// status says so.
pub proof fn lemma_played_status(pos: Position, text: Seq<char>, notation: Option<Notation>)
    requires
        played(pos, text, notation) is Ok,
    ensures
        ({
            let next = played(pos, text, notation)->Ok_0;
            let last = next.history.last();
            &&& next.status == next.standing()
            &&& next.status == (if next.in_check(next.turn) {
                if next.has_reply() {
                    BoardStatus::Check(next.turn)
                } else {
                    BoardStatus::Checkmate(next.turn)
                }
            } else {
                if next.has_reply() {
                    BoardStatus::Ongoing
                } else {
                    BoardStatus::Stalemate
                }
            })
            &&& last.check == (next.status is Check)
            &&& last.checkmate == (next.status is Checkmate)
        }),
{
    let mv = resolved(pos, text, notation)->Ok_0;
    let next = played(pos, text, notation)->Ok_0;
    lemma_moves_frame(next, pos.advanced(mv, promoted_kind(notation)));
}

/// The bit of a castling right.
pub open spec fn right_bit(color: Color, side: CastleMove) -> u8 {
    match (color, side) {
        (Color::White, CastleMove::KingSide) => 0b1000,
        (Color::White, CastleMove::QueenSide) => 0b0100,
        (Color::Black, CastleMove::KingSide) => 0b0010,
        (Color::Black, CastleMove::QueenSide) => 0b0001,
    }
}

/// Whether a recorded move gives a castling right up: whether it is a
/// castling of that colour, the first move of its king, or the first move
/// of a rook of that colour from the corner file of that side.
pub open spec fn gives_up(info: MoveInfo, color: Color, side: CastleMove) -> bool {
    &&& info.piece.spec_color() == color
    &&& {
        ||| info.castle is Some
        ||| info.piece.holds(Piece::King) && !info.piece.spec_has_moved()
        ||| info.piece.holds(Piece::Rook) && !info.piece.spec_has_moved() && info.from.col()
            == rook_home(side)
    }
}

/// Whether every castling right that is set has been kept through all of
/// history: whether no move that was made gave it up.
pub open spec fn rights_are_kept(pos: Position) -> bool {
    forall|i: int, color: Color, side: CastleMove|
        0 <= i < pos.history.len() && pos.castling & right_bit(color, side) != 0 ==> !#[trigger] gives_up(
            pos.history[i],
            color,
            side,
        )
}

/// A castling right is set only while neither that king nor the rook of
/// that side has moved: where that holds of the history of a position, it
/// holds after every move that is played. It holds of every position
/// without a history.
pub proof fn lemma_rights_stay_kept(pos: Position, text: Seq<char>, notation: Option<Notation>)
    requires
        pos.cells.len() == 64,
        rights_are_kept(pos),
        played(pos, text, notation) is Ok,
    ensures
        rights_are_kept(played(pos, text, notation)->Ok_0),
{
    let mv = resolved(pos, text, notation)->Ok_0;
    lemma_resolved_is_legal(pos, text, notation);
    lemma_raw_moves_sound(pos, mv);
    let next = played(pos, text, notation)->Ok_0;
    let last = next.history.last();
    let c = pos.castling;
    let d = next.castling;
    assert(forall|bit: u8| #![trigger d & bit] d & bit != 0 ==> c & bit != 0) by {
        lemma_rights_only_clear(c, pos.turn, mv);
        assert(forall|bit: u8| #![trigger d & bit] d & !c == 0 && d & bit != 0 ==> c & bit != 0)
            by (bit_vector);
    }
    assert((c & 0b0011) & 0b1000 == 0 && (c & 0b0011) & 0b0100 == 0 && (c & 0b1100) & 0b0010 == 0
        && (c & 0b1100) & 0b0001 == 0 && (c & 0b0111) & 0b1000 == 0 && (c & 0b1011) & 0b0100 == 0
        && (c & 0b1101) & 0b0010 == 0 && (c & 0b1110) & 0b0001 == 0) by (bit_vector);
    assert forall|i: int, color: Color, side: CastleMove|
        0 <= i < next.history.len() && next.castling & right_bit(color, side)
            != 0 implies !#[trigger] gives_up(next.history[i], color, side) by {
        if i < pos.history.len() {
            assert(next.history[i] == pos.history[i]);
            assert(c & right_bit(color, side) != 0);
        } else {
            assert(next.history[i] == last);
            assert(last.piece == pos.record(mv, promoted_kind(notation)).piece);
            assert(last.piece.spec_color() == pos.turn);
            if color == pos.turn {
                assert(d == rights_after(c, pos.turn, mv));
            }
        }
    }
}

} // verus!
