//! The board: the one position of a game, and the moves that led to it.

use crate::bitpiece::BitPiece;
use crate::chess_move::{CastleMove, MoveInfo};
use crate::color::Color;
use crate::error::{BoardError, BoardFault, FenError};
use crate::fen::{
    fields, parse_clock, parse_fen, parse_fullmove, parse_placement, parse_rights, parse_target,
    parse_turn, push_decimal, push_placement, push_rights, push_target, render_fen, split_fields,
    words,
};
use crate::game::{follows, lemma_played_follows, played};
use crate::movegen::frame::lemma_moves_frame;
use crate::movegen::legal::{legal_moves, Legal};
use crate::movegen::raw::{Raw, RawMove, RawMoveInfo};
use crate::notation::{parsed, Notation};
use crate::piece::Piece;
use crate::position::{lemma_rights_only_clear, resets_clock, rights_after, Position};
use crate::square::Square;
use crate::text::{chars_of, string_of};
use vstd::prelude::*;

verus! {

/// How the game stands for the side to move.
#[derive(Debug, Copy, Clone, PartialEq, Eq, Structural)]
pub enum BoardStatus {
    /// The given side is in check and has a legal reply.
    Check(Color),
    /// The given side is in check and has no legal reply.
    Checkmate(Color),
    /// The side to move is not in check and has no legal move.
    Stalemate,
    Ongoing,
}

/// A position and the game that led to it.
#[derive(Debug, PartialEq, Eq)]
pub struct Board {
    board: [BitPiece; 64],
    pub turn: Color,
    pub status: BoardStatus,
    /// The castling rights: bit 3 is White's king side, bit 2 White's queen
    /// side, bit 1 Black's king side, bit 0 Black's queen side.
    pub castling: u8,
    pub en_passant: Option<Square>,
    pub halfmove_clock: u8,
    pub fullmove_number: u16,
    pub history: Vec<MoveInfo>,
}

impl View for Board {
    type V = Position;

    closed spec fn view(&self) -> Position {
        Position {
            cells: self.board@,
            turn: self.turn,
            status: self.status,
            castling: self.castling,
            en_passant: self.en_passant,
            halfmove_clock: self.halfmove_clock,
            fullmove_number: self.fullmove_number,
            history: self.history@,
        }
    }
}

impl Board {
    /// A board has 64 cells.
    pub broadcast proof fn lemma_cells_len(&self)
        ensures
            #[trigger] self@.cells.len() == 64,
    {
    }

    /// The side to move.
    pub fn side_to_move(&self) -> (r: Color)
        ensures
            r == self@.turn,
    {
        self.turn
    }

    /// How the game stands for the side to move.
    pub fn standing(&self) -> (r: BoardStatus)
        ensures
            r == self@.status,
    {
        self.status
    }

    /// The castling rights, as four bits.
    pub fn castling_rights(&self) -> (r: u8)
        ensures
            r == self@.castling,
    {
        self.castling
    }

    /// The halfmove clock and the fullmove number.
    pub fn clocks(&self) -> (r: (u8, u16))
        ensures
            r.0 == self@.halfmove_clock,
            r.1 == self@.fullmove_number,
    {
        (self.halfmove_clock, self.fullmove_number)
    }

    /// The moves that were made, oldest first.
    pub fn moves_made(&self) -> (r: &Vec<MoveInfo>)
        ensures
            r@ == self@.history,
    {
        &self.history
    }

    /// The square on which a pawn may be captured en passant, if any.
    pub fn en_passant_target(&self) -> (r: Option<Square>)
        ensures
            r == self@.en_passant,
            r matches Some(s) ==> s.wf(),
    {
        match self.en_passant {
            Some(s) => {
                proof {
                    use_type_invariant(&s);
                }
                Some(s)
            },
            None => None,
        }
    }

    /// The occupant of a cell at the start of a game.
    fn initial_piece(index: usize) -> (r: BitPiece)
        requires
            index < 64,
        ensures
            r == Position::initial_cell(index as int),
    {
        let row = index / 8;
        let col = index % 8;
        let kind = if col == 0 || col == 7 {
            Piece::Rook
        } else if col == 1 || col == 6 {
            Piece::Knight
        } else if col == 2 || col == 5 {
            Piece::Bishop
        } else if col == 3 {
            Piece::Queen
        } else {
            Piece::King
        };
        if row == 1 {
            BitPiece::new(Piece::Pawn, Color::White, false)
        } else if row == 6 {
            BitPiece::new(Piece::Pawn, Color::Black, false)
        } else if row == 0 {
            BitPiece::new(kind, Color::White, false)
        } else if row == 7 {
            BitPiece::new(kind, Color::Black, false)
        } else {
            BitPiece::new_blank()
        }
    }

    /// The occupant of a square.
    pub fn at(&self, square: Square) -> (r: BitPiece)
        ensures
            r == self@.cell(square),
            r.wf(),
    {
        proof {
            use_type_invariant(&square);
        }
        let r = self.board[square.index() as usize];
        proof {
            use_type_invariant(&r);
        }
        r
    }

    /// Makes one leg of a move: empties the square that the piece leaves
    /// and sets the piece, marked as moved, on its destination.
    fn relocate(&mut self, leg: &RawMoveInfo)
        ensures
            final(self)@ == old(self)@.relocated(*leg),
    {
        self.put(leg.from, BitPiece::new_blank());
        let mut piece = leg.piece;
        piece.set_moved();
        self.put(leg.to, piece);
    }

    /// Relocates the pieces of a move, whatever the rules say of it: removes
    /// what it captures, empties the square it leaves, sets the moved piece,
    /// marked as moved, on its destination, and records the en-passant
    /// target that it opens, if it opens one. A castling relocates the king,
    /// then the rook. Nothing else of the board changes.
    pub fn force_execute_raw_move(&mut self, mv: RawMove)
        ensures
            final(self)@ == old(self)@.forced(mv),
    {
        match mv {
            RawMove::Single(info) => {
                if let Some(capture) = info.capture {
                    self.put(capture.square, BitPiece::new_blank());
                }
                self.relocate(&info);
                if let Some(en_passant_square) = info.en_passant_square {
                    self.en_passant = Some(en_passant_square);
                }
            },
            RawMove::Castle(king, rook) => {
                self.relocate(&king);
                self.relocate(&rook);
            },
        }
    }

    /// Relocates the pieces of a resolved move as `force_execute_raw_move`
    /// does, except that a promoted pawn arrives as the piece it becomes.
    pub fn execute_move(&mut self, mv: &MoveInfo, rmv: &RawMove)
        ensures
            final(self)@ == old(self)@.executed(*mv, *rmv),
    {
        match *rmv {
            RawMove::Single(info) => {
                if let Some(promotion) = mv.promotion {
                    if let Some(capture) = info.capture {
                        self.put(capture.square, BitPiece::new_blank());
                    }
                    self.put(info.from, BitPiece::new_blank());
                    self.put(info.to, promotion);
                    if let Some(en_passant_square) = info.en_passant_square {
                        self.en_passant = Some(en_passant_square);
                    }
                } else {
                    self.force_execute_raw_move(*rmv);
                }
            },
            RawMove::Castle(_, _) => {
                self.force_execute_raw_move(*rmv);
            },
        }
    }

    /// Whether one of the given moves is a single move of the other side
    /// onto a square that holds a king of the given colour. Legs of a
    /// castling are not looked at: none can capture.
    pub fn is_being_checked(&self, color: Color, raw_moves: &Vec<RawMove>) -> (r: bool)
        ensures
            r == self@.checked_by(color, raw_moves@),
    {
        let mut i: usize = 0;
        while i < raw_moves.len()
            invariant
                i <= raw_moves.len(),
                forall|k: int| 0 <= k < i ==> !self@.takes_king(color, #[trigger] raw_moves@[k]),
            decreases raw_moves.len() - i,
        {
            if let RawMove::Single(info) = raw_moves[i] {
                if info.piece.get_color() != color {
                    let p = self.at(info.to);
                    if !p.is_blank() && p.is_king() && p.get_color() == color {
                        return true;
                    }
                }
            }
            i += 1;
        }
        false
    }

    /// The moves that obey the movement rules and leave the mover's king
    /// safe, of both colours.
    pub fn legal_moves(&self) -> (r: Vec<RawMove>)
        ensures
            r@ == legal_moves(self@),
    {
        Legal::gen_all_legal_moves(self)
    }

    /// Whether the side to move has a move among the given ones.
    fn can_reply(&self, legal: &Vec<RawMove>) -> (r: bool)
        ensures
            r == (exists|i: int|
                0 <= i < legal@.len() && (#[trigger] legal@[i]).mover() == self@.turn),
    {
        let mut i: usize = 0;
        while i < legal.len()
            invariant
                i <= legal.len(),
                forall|k: int| 0 <= k < i ==> (#[trigger] legal@[k]).mover() != self@.turn,
            decreases legal.len() - i,
        {
            if legal[i].mover_color() == self.turn {
                return true;
            }
            i += 1;
        }
        false
    }

    /// The castling rights after a move of the side to move.
    fn narrowed_rights(&self, mv: &RawMove) -> (r: u8)
        ensures
            r == rights_after(self@.castling, self@.turn, *mv),
    {
        let both: u8 = match self.turn {
            Color::White => 0b0011,
            Color::Black => 0b1100,
        };
        match mv {
            RawMove::Castle(_, _) => self.castling & both,
            RawMove::Single(info) => {
                if info.piece.is_king() && !info.piece.has_moved() {
                    self.castling & both
                } else if info.piece.is_rook() && !info.piece.has_moved() {
                    let col: u8 = info.from.index() % 8;
                    match self.turn {
                        Color::White => if col == 7 {
                            self.castling & 0b0111
                        } else if col == 0 {
                            self.castling & 0b1011
                        } else {
                            self.castling
                        },
                        Color::Black => if col == 7 {
                            self.castling & 0b1101
                        } else if col == 0 {
                            self.castling & 0b1110
                        } else {
                            self.castling
                        },
                    }
                } else {
                    self.castling
                }
            },
        }
    }

    /// What history records of a move of the side to move.
    fn describe(&self, mv: &RawMove, promoted: Option<Piece>) -> (r: MoveInfo)
        ensures
            r == self@.record(*mv, promoted),
    {
        match mv {
            RawMove::Single(info) => MoveInfo {
                piece: info.piece,
                from: info.from,
                to: info.to,
                capture: match info.capture {
                    Some(c) => Some(c.piece),
                    None => None,
                },
                promotion: match promoted {
                    Some(kind) => if info.promotion {
                        Some(BitPiece::new(kind, self.turn, true))
                    } else {
                        None
                    },
                    None => None,
                },
                castle: None,
                en_passant: info.en_passant,
                en_passant_square: info.en_passant_square,
                check: false,
                checkmate: false,
            },
            RawMove::Castle(king, rook) => MoveInfo {
                piece: king.piece,
                from: king.from,
                to: king.to,
                capture: None,
                promotion: None,
                castle: if rook.from.index() % 8 == 7 {
                    Some(CastleMove::KingSide)
                } else {
                    Some(CastleMove::QueenSide)
                },
                en_passant: false,
                en_passant_square: None,
                check: false,
                checkmate: false,
            },
        }
    }

    /// Makes a move of the side to move, whatever the rules say of it:
    /// relocates its pieces, brings the castling rights, the clocks and the
    /// en-passant target up to date, passes the turn, works out how the
    /// game stands for the other side, and appends the move to history.
    ///
    /// The castling rights only ever narrow; the halfmove clock is 0 after
    /// a move of a pawn or a capture and counts one up otherwise; the
    /// en-passant target is the square that this move opens, if any; the
    /// status is that of the position that the board then holds.
    pub fn commit(&mut self, mv: RawMove, promoted: Option<Piece>)
        requires
            old(self)@.halfmove_clock < u8::MAX,
            old(self)@.fullmove_number < u16::MAX,
        ensures
            final(self)@ == old(self)@.committed(mv, promoted),
            final(self)@.castling & !old(self)@.castling == 0,
            final(self)@.halfmove_clock == (if resets_clock(mv) {
                0
            } else {
                old(self)@.halfmove_clock + 1
            }),
            final(self)@.turn == old(self)@.turn.spec_opposite(),
            final(self)@.history.len() == old(self)@.history.len() + 1,
            final(self)@.status == final(self)@.standing(),
    {
        proof {
            lemma_rights_only_clear(self@.castling, self@.turn, mv);
            lemma_moves_frame(
                old(self)@.committed(mv, promoted),
                old(self)@.advanced(mv, promoted),
            );
        }
        let mut move_info = self.describe(&mv, promoted);
        self.castling = self.narrowed_rights(&mv);
        match mv {
            RawMove::Single(info) => {
                if info.piece.is_pawn() || info.capture.is_some() {
                    self.halfmove_clock = 0;
                } else {
                    self.halfmove_clock += 1;
                }
                self.en_passant = info.en_passant_square;
            },
            RawMove::Castle(_, _) => {
                self.halfmove_clock += 1;
                self.en_passant = None;
            },
        }
        self.execute_move(&move_info, &mv);
        self.turn = self.turn.opposite();
        assert(self@ == old(self)@.advanced(mv, promoted));
        let replies = Raw::gen_all_raw_moves(self);
        let checked = self.is_being_checked(self.turn, &replies);
        let next_legal_moves = Legal::filter(self, &replies);
        let can_reply = self.can_reply(&next_legal_moves);
        if checked {
            if can_reply {
                self.status = BoardStatus::Check(self.turn);
                move_info.check = true;
            } else {
                self.status = BoardStatus::Checkmate(self.turn);
                move_info.checkmate = true;
            }
        } else {
            if can_reply {
                self.status = BoardStatus::Ongoing;
            } else {
                self.status = BoardStatus::Stalemate;
            }
        }
        if self.turn == Color::White {
            self.fullmove_number += 1;
        }
        self.history.push(move_info);
    }

    /// Makes the move that a text selects, given the notation that the
    /// text stands for under the grammar, if it stands for one. On an error
    /// the board is as it was.
    pub fn play(&mut self, m: String, notation: Option<Notation>) -> (r: Result<(), BoardError>)
        requires
            old(self)@.halfmove_clock < u8::MAX,
            old(self)@.fullmove_number < u16::MAX,
        ensures
            match played(old(self)@, m@, notation) {
                Ok(next) => r is Ok && final(self)@ == next,
                Err(f) => r is Err && r->Err_0@ == f && final(self)@ == old(self)@,
            },
            r is Ok ==> follows(old(self)@, final(self)@),
            r is Ok ==> final(self)@.status == final(self)@.standing(),
    {
        proof {
            self.lemma_cells_len();
            if played(self@, m@, notation) is Ok {
                lemma_played_follows(self@, m@, notation);
            }
        }
        let text = m.clone();
        let mv = match self.resolve(m, notation) {
            Ok(mv) => mv,
            Err(e) => {
                return Err(e);
            },
        };
        let promoted = match notation {
            Some(n) => match n.promotion {
                Some(l) => Some(l.kind),
                None => None,
            },
            None => None,
        };
        if let RawMove::Single(info) = mv {
            if info.promotion && promoted.is_none() {
                return Err(BoardError::IllegalMove(text));
            }
        }
        self.commit(mv, promoted);
        Ok(())
    }

    /// Makes the legal move of the side to move that a text in short
    /// algebraic notation selects: `O-O`, `O-O-O`, or an optional origin
    /// file or rank, an optional piece letter, an optional `x`, the
    /// destination, and an optional `=` with a promotion letter. On an
    /// error the board is as it was.
    pub fn make_move(&mut self, m: String) -> (r: Result<(), BoardError>)
        requires
            old(self)@.halfmove_clock < u8::MAX,
            old(self)@.fullmove_number < u16::MAX,
        ensures
            match played(old(self)@, m@, parsed(m@)) {
                Ok(next) => r is Ok && final(self)@ == next,
                Err(f) => r is Err && r->Err_0@ == f && final(self)@ == old(self)@,
            },
            r is Ok ==> follows(old(self)@, final(self)@),
            r is Ok ==> final(self)@.status == final(self)@.standing(),
    {
        let notation = Notation::parse(m.as_str());
        self.play(m, notation)
    }

    /// Reads a board from a position text of six fields: placement, side
    /// to move, castling rights, en-passant target, halfmove clock and
    /// fullmove number. In the placement, upper-case letters are white
    /// pieces and lower-case letters black ones.
    pub fn from_fen(fen: String) -> (r: Result<Board, BoardError>)
        ensures
            match parse_fen(fen@) {
                Ok(pos) => r is Ok && r->Ok_0@ == pos,
                Err(e) => r is Err && r->Err_0@ == BoardFault::InvalidFEN(e),
            },
    {
        let chars = chars_of(fen.as_str());
        let coll = split_fields(&chars);
        if coll.len() != 6 {
            return Err(BoardError::InvalidFEN(FenError::FieldCount));
        }
        assert(forall|i: int| 0 <= i < 6 ==> fields(fen@)[i] == (#[trigger] coll@[i])@) by {
            assert(words(coll@) == fields(fen@));
        }
        let board = match parse_placement(&coll[0]) {
            Ok(b) => b,
            Err(e) => {
                return Err(BoardError::InvalidFEN(e));
            },
        };
        let turn = match parse_turn(&coll[1]) {
            Ok(t) => t,
            Err(e) => {
                return Err(BoardError::InvalidFEN(e));
            },
        };
        let castling = match parse_rights(&coll[2]) {
            Ok(c) => c,
            Err(e) => {
                return Err(BoardError::InvalidFEN(e));
            },
        };
        let en_passant = match parse_target(&coll[3]) {
            Ok(t) => t,
            Err(e) => {
                return Err(BoardError::InvalidFEN(e));
            },
        };
        let halfmove_clock = match parse_clock(&coll[4]) {
            Ok(n) => n,
            Err(e) => {
                return Err(BoardError::InvalidFEN(e));
            },
        };
        let fullmove_number = match parse_fullmove(&coll[5]) {
            Ok(n) => n,
            Err(e) => {
                return Err(BoardError::InvalidFEN(e));
            },
        };
        Ok(
            Board {
                board,
                turn,
                status: BoardStatus::Ongoing,
                castling,
                en_passant,
                halfmove_clock,
                fullmove_number,
                history: Vec::new(),
            },
        )
    }

    /// The position text of the board. White pieces are written in upper
    /// case and black pieces in lower case.
    pub fn fen_notation(&self) -> (r: String)
        ensures
            r@ == render_fen(self@),
    {
        let mut out: Vec<char> = Vec::new();
        push_placement(&mut out, &self.board);
        out.push(' ');
        out.push(self.turn.letter());
        out.push(' ');
        push_rights(&mut out, self.castling);
        out.push(' ');
        push_target(&mut out, self.en_passant);
        out.push(' ');
        push_decimal(&mut out, self.halfmove_clock as u16);
        out.push(' ');
        push_decimal(&mut out, self.fullmove_number);
        assert(out@ =~= render_fen(self@));
        string_of(&out)
    }

    /// Replaces the occupant of a square.
    pub fn put(&mut self, square: Square, piece: BitPiece)
        ensures
            final(self)@ == old(self)@.put(square, piece),
    {
        proof {
            use_type_invariant(&square);
        }
        self.board[square.index() as usize] = piece;
    }
}

impl std::ops::Index<Square> for Board {
    type Output = BitPiece;

    /// The occupant of a square.
    fn index(&self, index: Square) -> (r: &BitPiece)
        ensures
            *r == self@.cell(index),
    {
        proof {
            use_type_invariant(&index);
        }
        &self.board[index.index() as usize]
    }
}

impl vstd::std_specs::core::IndexSpecImpl<Square> for Board {
    open spec fn index_req(&self, index: &Square) -> bool {
        true
    }
}

impl std::ops::IndexMut<Square> for Board {
    /// The cell of a square, to be replaced.
    fn index_mut(&mut self, index: Square) -> (r: &mut BitPiece)
        ensures
            *r == old(self)@.cell(index),
            final(self)@ == old(self)@.put(index, *final(r)),
    {
        proof {
            use_type_invariant(&index);
        }
        &mut self.board[index.index() as usize]
    }
}

impl Clone for Board {
    fn clone(&self) -> (r: Board)
        ensures
            r@ == self@,
    {
        let history = self.history.clone();
        assert(history@ =~= self.history@);
        Board {
            board: self.board,
            turn: self.turn,
            status: self.status,
            castling: self.castling,
            en_passant: self.en_passant,
            halfmove_clock: self.halfmove_clock,
            fullmove_number: self.fullmove_number,
            history,
        }
    }
}

impl Default for Board {
    /// The position at the start of a game.
    fn default() -> (r: Board)
        ensures
            r@ == Position::initial(),
    {
        let mut board = [BitPiece::new_blank(); 64];
        let mut i: usize = 0;
        while i < 64
            invariant
                i <= 64,
                forall|k: int| 0 <= k < i ==> #[trigger] board@[k] == Position::initial_cell(k),
            decreases 64 - i,
        {
            board[i] = Board::initial_piece(i);
            i += 1;
        }
        assert(board@ =~= Position::initial().cells);
        let r = Board {
            board,
            turn: Color::White,
            status: BoardStatus::Ongoing,
            castling: 0b1111,
            en_passant: None,
            halfmove_clock: 0,
            fullmove_number: 1,
            history: Vec::new(),
        };
        r
    }
}

} // verus!
