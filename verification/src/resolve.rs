//! From a notation to the one legal move that it selects.

use crate::board::Board;
use crate::chess_move::CastleMove;
use crate::error::{agrees, BoardError, BoardFault};
use crate::movegen::legal::{keeps_king_safe, legal_moves};
use crate::movegen::raw::{all_raw_moves, rook_home, RawMove};
use crate::notation::{parsed, Notation, Origin};
use crate::piece::Piece;
use crate::position::Position;
use crate::text::chars_of;
use vstd::prelude::*;

verus! {

/// The notation of castling on the king's side.
pub open spec fn castle_short() -> Seq<char> {
    seq!['O', '-', 'O']
}

/// The notation of castling on the queen's side.
pub open spec fn castle_long() -> Seq<char> {
    seq!['O', '-', 'O', '-', 'O']
}

/// The kind of piece that a notation speaks of: that of its piece letter,
/// and a pawn where it has none.
pub open spec fn kind_of(n: Notation) -> Piece {
    match n.piece {
        Some(l) => l.kind,
        None => Piece::Pawn,
    }
}

/// Whether a move is one that the notation describes: a single move of the
/// side to move onto the destination, from the file or rank of the origin
/// if the notation gives one, by a piece of the notation's kind, capturing
/// if the notation says so, and promoting if the notation says so.
pub open spec fn fits(pos: Position, n: Notation, mv: RawMove) -> bool {
    &&& mv matches RawMove::Single(info)
    &&& info.piece.spec_color() == pos.turn
    &&& info.to == n.to
    &&& match n.origin {
        None => true,
        Some(Origin::File(col)) => info.from.col() == col,
        Some(Origin::Rank(row)) => info.from.row() == row,
    }
    &&& info.piece.holds(kind_of(n))
    &&& (n.capture ==> info.capture is Some)
    &&& (n.promotion is Some ==> info.promotion)
}

/// The legal moves that the notation describes.
pub open spec fn candidates(pos: Position, n: Notation) -> Seq<RawMove> {
    legal_moves(pos).filter(|mv: RawMove| fits(pos, n, mv))
}

/// Whether a letter of the notation cannot stand in a move of the side to
/// move: whether it has the case of the other side, or promotes a pawn to
/// a king or a pawn.
pub open spec fn wrong_letter(pos: Position, n: Notation) -> bool {
    ||| n.piece matches Some(l) && l.color != pos.turn
    ||| n.promotion matches Some(l) && l.color != pos.turn
    ||| n.promotion matches Some(l) && !l.kind.spec_is_promotion_target()
}

/// The move that a notation selects: the only legal move that it
/// describes. The move is illegal where a letter cannot stand in a move of
/// the side to move or no legal move fits, and ambiguous where more than
/// one does.
pub open spec fn selected(pos: Position, n: Notation, text: Seq<char>) -> Result<
    RawMove,
    BoardFault,
> {
    let found = candidates(pos, n);
    if wrong_letter(pos, n) {
        Err(BoardFault::IllegalMove(text))
    } else if found.len() == 1 {
        Ok(found[0])
    } else if found.len() > 1 {
        Err(BoardFault::AmbiguousMove(text))
    } else {
        Err(BoardFault::IllegalMove(text))
    }
}

/// Whether a move is the castling of the side to move on the given side:
/// the one whose rook starts on that side's corner file.
pub open spec fn is_castling_of(pos: Position, side: CastleMove, mv: RawMove) -> bool {
    mv matches RawMove::Castle(king, rook) && king.piece.spec_color() == pos.turn
        && rook.from.col() == rook_home(side)
}

/// The castling that `O-O` or `O-O-O` selects: the first legal castling of
/// the side to move on that side; the move is illegal where there is none.
pub open spec fn castle_choice(pos: Position, side: CastleMove, text: Seq<char>) -> Result<
    RawMove,
    BoardFault,
> {
    let found = legal_moves(pos).filter(|mv: RawMove| is_castling_of(pos, side, mv));
    if found.len() > 0 {
        Ok(found[0])
    } else {
        Err(BoardFault::IllegalMove(text))
    }
}

/// The move that a text selects, given the notation that the text stands
/// for under the grammar: a castling for `O-O` and `O-O-O`; otherwise the
/// move that the notation selects; an invalid pattern where the text does
/// not follow the grammar.
pub open spec fn resolved(pos: Position, text: Seq<char>, notation: Option<Notation>) -> Result<
    RawMove,
    BoardFault,
> {
    if text == castle_short() {
        castle_choice(pos, CastleMove::KingSide, text)
    } else if text == castle_long() {
        castle_choice(pos, CastleMove::QueenSide, text)
    } else {
        match notation {
            Some(n) => selected(pos, n, text),
            None => Err(BoardFault::InvalidPattern(text)),
        }
    }
}

/// The move that a text selects is a legal move of the side to move: it
/// is pseudo-legal and leaves the mover's king safe.
pub proof fn lemma_resolved_is_legal(pos: Position, text: Seq<char>, notation: Option<Notation>)
    requires
        resolved(pos, text, notation) is Ok,
    ensures
        legal_moves(pos).contains(resolved(pos, text, notation)->Ok_0),
        all_raw_moves(pos).contains(resolved(pos, text, notation)->Ok_0),
        keeps_king_safe(pos, resolved(pos, text, notation)->Ok_0),
        resolved(pos, text, notation)->Ok_0.mover() == pos.turn,
        text != castle_short() && text != castle_long() ==> notation is Some && fits(
            pos,
            notation->0,
            resolved(pos, text, notation)->Ok_0,
        ) && !wrong_letter(pos, notation->0),
{
    let mv = resolved(pos, text, notation)->Ok_0;
    let legal = legal_moves(pos);
    if text == castle_short() || text == castle_long() {
        let side = if text == castle_short() {
            CastleMove::KingSide
        } else {
            CastleMove::QueenSide
        };
        let pred = |m: RawMove| is_castling_of(pos, side, m);
        assert(legal.filter(pred).contains(mv)) by {
            assert(legal.filter(pred)[0] == mv);
        }
        legal.lemma_filter_contains_rev(pred, mv);
        legal.lemma_filter_pred(pred, 0);
    } else {
        let n = notation->0;
        let pred = |m: RawMove| fits(pos, n, m);
        assert(legal.filter(pred).contains(mv)) by {
            assert(legal.filter(pred)[0] == mv);
        }
        legal.lemma_filter_contains_rev(pred, mv);
        legal.lemma_filter_pred(pred, 0);
    }
    crate::movegen::legal::lemma_legal_moves_keep_king_safe(pos, mv);
}

impl Board {
    /// Whether a move is one that the notation describes.
    fn move_fits(&self, n: &Notation, mv: &RawMove) -> (r: bool)
        ensures
            r == fits(self@, *n, *mv),
    {
        let info = match mv {
            RawMove::Single(info) => info,
            RawMove::Castle(_, _) => {
                return false;
            },
        };
        if info.piece.get_color() != self.side_to_move() || info.to != n.to {
            return false;
        }
        let origin_ok = match n.origin {
            None => true,
            Some(Origin::File(col)) => info.from.index() % 8 == col,
            Some(Origin::Rank(row)) => info.from.index() / 8 == row,
        };
        let kind = match n.piece {
            Some(l) => l.kind,
            None => Piece::Pawn,
        };
        origin_ok && !info.piece.is_blank() && info.piece.get_piece() == kind && (!n.capture
            || info.capture.is_some()) && (n.promotion.is_none() || info.promotion)
    }

    /// The legal moves that the notation describes.
    fn fitting_moves(&self, n: &Notation) -> (r: Vec<RawMove>)
        ensures
            r@ == candidates(self@, *n),
    {
        let legal = self.legal_moves();
        let ghost pred = |mv: RawMove| fits(self@, *n, mv);
        let mut found: Vec<RawMove> = Vec::new();
        let mut i: usize = 0;
        assert(legal@.take(0).filter(pred) =~= Seq::<RawMove>::empty()) by {
            reveal(Seq::filter);
        }
        while i < legal.len()
            invariant
                i <= legal.len(),
                pred == |mv: RawMove| fits(self@, *n, mv),
                found@ == legal@.take(i as int).filter(pred),
            decreases legal.len() - i,
        {
            let mv = legal[i];
            proof {
                assert(legal@.take(i + 1) =~= legal@.take(i as int).push(mv));
                legal@.take(i as int).lemma_filter_push(mv, pred);
            }
            if self.move_fits(n, &mv) {
                found.push(mv);
            }
            i += 1;
        }
        assert(legal@.take(legal.len() as int) =~= legal@);
        found
    }

    /// The move that a notation selects among the legal moves of the side
    /// to move; `m` is the text that an error reports.
    pub fn select(&self, n: &Notation, m: String) -> (r: Result<RawMove, BoardError>)
        ensures
            agrees(r, selected(self@, *n, m@)),
    {
        let turn = self.side_to_move();
        if let Some(l) = n.piece {
            if l.color != turn {
                return Err(BoardError::IllegalMove(m));
            }
        }
        if let Some(l) = n.promotion {
            let target = match l.kind {
                Piece::Knight | Piece::Bishop | Piece::Rook | Piece::Queen => true,
                Piece::Pawn | Piece::King => false,
            };
            if l.color != turn || !target {
                return Err(BoardError::IllegalMove(m));
            }
        }
        let found = self.fitting_moves(n);
        if found.len() == 1 {
            Ok(found[0])
        } else if found.len() > 1 {
            Err(BoardError::AmbiguousMove(m))
        } else {
            Err(BoardError::IllegalMove(m))
        }
    }

    /// Whether a move is the castling of the side to move on the given side.
    fn move_castles(&self, side: CastleMove, mv: &RawMove) -> (r: bool)
        ensures
            r == is_castling_of(self@, side, *mv),
    {
        let home: u8 = match side {
            CastleMove::QueenSide => 0,
            CastleMove::KingSide => 7,
        };
        match mv {
            RawMove::Castle(king, rook) => king.piece.get_color() == self.side_to_move()
                && rook.from.index() % 8 == home,
            RawMove::Single(_) => false,
        }
    }

    /// The legal castlings of the side to move on the given side.
    fn castlings(&self, side: CastleMove) -> (r: Vec<RawMove>)
        ensures
            r@ == legal_moves(self@).filter(|mv: RawMove| is_castling_of(self@, side, mv)),
    {
        let legal = self.legal_moves();
        let ghost pred = |mv: RawMove| is_castling_of(self@, side, mv);
        let mut found: Vec<RawMove> = Vec::new();
        let mut i: usize = 0;
        assert(legal@.take(0).filter(pred) =~= Seq::<RawMove>::empty()) by {
            reveal(Seq::filter);
        }
        while i < legal.len()
            invariant
                i <= legal.len(),
                pred == |mv: RawMove| is_castling_of(self@, side, mv),
                found@ == legal@.take(i as int).filter(pred),
            decreases legal.len() - i,
        {
            let mv = legal[i];
            proof {
                assert(legal@.take(i + 1) =~= legal@.take(i as int).push(mv));
                legal@.take(i as int).lemma_filter_push(mv, pred);
            }
            if self.move_castles(side, &mv) {
                found.push(mv);
            }
            i += 1;
        }
        assert(legal@.take(legal.len() as int) =~= legal@);
        found
    }

    /// The castling of the side to move on the given side, if it is legal;
    /// `m` is the text that an error reports.
    pub fn select_castling(&self, side: CastleMove, m: String) -> (r: Result<RawMove, BoardError>)
        ensures
            agrees(r, castle_choice(self@, side, m@)),
    {
        let found = self.castlings(side);
        if found.len() > 0 {
            Ok(found[0])
        } else {
            Err(BoardError::IllegalMove(m))
        }
    }

    /// The move that a text selects, given the notation that the text
    /// stands for under the grammar, if it stands for one.
    pub fn resolve(&self, m: String, notation: Option<Notation>) -> (r: Result<
        RawMove,
        BoardError,
    >)
        ensures
            agrees(r, resolved(self@, m@, notation)),
    {
        let chars = chars_of(m.as_str());
        if chars.len() == 3 && chars[0] == 'O' && chars[1] == '-' && chars[2] == 'O' {
            assert(m@ =~= castle_short());
            return self.select_castling(CastleMove::KingSide, m);
        }
        if chars.len() == 5 && chars[0] == 'O' && chars[1] == '-' && chars[2] == 'O' && chars[3]
            == '-' && chars[4] == 'O' {
            assert(m@ =~= castle_long());
            return self.select_castling(CastleMove::QueenSide, m);
        }
        assert(m@ != castle_short() && m@ != castle_long()) by {
            if m@ == castle_short() {
                assert(m@.len() == 3 && m@[0] == 'O' && m@[1] == '-' && m@[2] == 'O');
            }
            if m@ == castle_long() {
                assert(m@.len() == 5 && m@[0] == 'O' && m@[1] == '-' && m@[2] == 'O' && m@[3]
                    == '-' && m@[4] == 'O');
            }
        }
        match notation {
            Some(n) => self.select(&n, m),
            None => Err(BoardError::InvalidPattern(m)),
        }
    }

    /// The legal move of the side to move that a text in short algebraic
    /// notation selects.
    pub fn parse_move(&self, m: String) -> (r: Result<RawMove, BoardError>)
        ensures
            agrees(r, resolved(self@, m@, parsed(m@))),
    {
        let notation = Notation::parse(m.as_str());
        self.resolve(m, notation)
    }
}

} // verus!
