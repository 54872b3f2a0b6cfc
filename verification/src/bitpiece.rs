//! The occupant of a cell, packed into eight bits.

use crate::color::Color;
use crate::error::PieceError;
use crate::piece::Piece;
use vstd::prelude::*;

verus! {

/// The flags that a cell carries beside the colour and kind of its occupant.
#[derive(Debug, Copy, Clone, PartialEq, Eq, Structural)]
pub enum BitPieceFlags {
    /// The occupant has made its first move.
    FirstMove,
}

/// The occupant of one cell of the board, packed into eight bits: bit 0 is
/// the colour, bits 1 to 3 the kind, bits 4 to 7 flags, of which bit 4 says
/// that the piece has moved. The value 0 is the empty cell.
#[derive(Debug, Copy, Clone, PartialEq, Eq, Structural)]
pub struct BitPiece(u8);

impl View for BitPiece {
    type V = u8;

    /// The packed bits.
    closed spec fn view(&self) -> u8 {
        self.0
    }
}

impl BitPiece {
    /// The cell with the given packed bits.
    pub closed spec fn of_bits(bits: u8) -> BitPiece {
        BitPiece(bits)
    }

    /// The code held in the kind bits.
    pub open spec fn kind_code(self) -> u8 {
        ((self@ / 2) % 8) as u8
    }

    /// Whether the cell is empty.
    pub open spec fn spec_is_blank(self) -> bool {
        self@ == 0
    }

    /// A cell that executable code holds is empty or holds a valid kind.
    #[verifier::type_invariant]
    pub open spec fn wf(self) -> bool {
        self.spec_is_blank() || 1 <= self.kind_code() <= 6
    }

    /// The kind of the occupant; meaningful for a well-formed cell that is not empty.
    pub open spec fn spec_piece(self) -> Piece {
        let code = self.kind_code();
        if code == 1 {
            Piece::Pawn
        } else if code == 2 {
            Piece::Knight
        } else if code == 3 {
            Piece::Bishop
        } else if code == 4 {
            Piece::Rook
        } else if code == 5 {
            Piece::Queen
        } else {
            Piece::King
        }
    }

    /// The colour held in the colour bit.
    pub open spec fn spec_color(self) -> Color {
        if self@ % 2 == 0 {
            Color::White
        } else {
            Color::Black
        }
    }

    /// Whether the moved flag is set.
    pub open spec fn spec_has_moved(self) -> bool {
        (self@ / 16) % 2 == 1
    }

    /// Whether the cell holds a piece of the given kind.
    pub open spec fn holds(self, piece: Piece) -> bool {
        !self.spec_is_blank() && self.spec_piece() == piece
    }

    /// The empty cell.
    pub open spec fn spec_blank() -> BitPiece {
        BitPiece::of_bits(0)
    }

    /// The cell that holds a piece of the given kind and colour.
    pub open spec fn spec_new(piece: Piece, color: Color, has_moved: bool) -> BitPiece {
        BitPiece::of_bits(
            (color.code() + 2 * piece.code() + if has_moved {
                16int
            } else {
                0int
            }) as u8,
        )
    }

    /// The cell with its moved flag set; the empty cell stays empty.
    pub open spec fn spec_moved(self) -> BitPiece {
        if self.spec_is_blank() || self.spec_has_moved() {
            self
        } else {
            BitPiece::of_bits((self@ + 16) as u8)
        }
    }

    /// The cell as a position text holds it: with the kind and the colour of
    /// its occupant, and nothing else.
    pub open spec fn spec_unmoved(self) -> BitPiece {
        if self.spec_is_blank() {
            BitPiece::spec_blank()
        } else {
            BitPiece::spec_new(self.spec_piece(), self.spec_color(), false)
        }
    }

    /// The cell decoded from raw bits: any bits whose kind code is valid.
    pub open spec fn spec_from_bits(value: u8) -> Result<BitPiece, PieceError> {
        match Piece::spec_from_value(((value / 2) % 8) as u8) {
            Ok(_) => Ok(BitPiece::of_bits(value)),
            Err(e) => Err(e),
        }
    }

    /// The cell that a piece letter stands for: an unmoved piece of the
    /// letter's kind, White for an upper-case letter and Black for a
    /// lower-case one.
    pub open spec fn spec_from_char(value: char) -> Result<BitPiece, PieceError> {
        match Piece::spec_from_char(value) {
            Ok(p) => Ok(
                BitPiece::spec_new(
                    p,
                    if value == p.spec_upper_letter() {
                        Color::White
                    } else {
                        Color::Black
                    },
                    false,
                ),
            ),
            Err(e) => Err(e),
        }
    }

    /// The letter of the occupant: upper case for White, lower case for Black.
    pub open spec fn spec_letter(self) -> char {
        if self.spec_color() == Color::White {
            self.spec_piece().spec_upper_letter()
        } else {
            self.spec_piece().spec_letter()
        }
    }

    /// `of_bits` and the view are inverse to each other.
    pub broadcast proof fn lemma_of_bits(bits: u8)
        ensures
            (#[trigger] BitPiece::of_bits(bits))@ == bits,
    {
    }

    /// A cell is determined by its bits.
    pub broadcast proof fn lemma_bits_of(b: BitPiece)
        ensures
            #[trigger] BitPiece::of_bits(b@) == b,
    {
    }

    /// Packs a piece of the given kind and colour.
    pub fn new(piece: Piece, color: Color, has_moved: bool) -> (r: BitPiece)
        ensures
            r == BitPiece::spec_new(piece, color, has_moved),
            r.spec_piece() == piece,
            r.spec_color() == color,
            r.spec_has_moved() == has_moved,
            !r.spec_is_blank(),
    {
        let c: u8 = match color {
            Color::White => 0,
            Color::Black => 1,
        };
        let p: u8 = piece.value();
        let m: u8 = if has_moved {
            1
        } else {
            0
        };
        let value: u8 = c | (p << 1) | (m << 4);
        assert(value == c + 2 * p + 16 * m) by (bit_vector)
            requires
                c <= 1,
                1 <= p <= 6,
                m <= 1,
                value == c | (p << 1) | (m << 4),
        ;
        BitPiece(value)
    }

    /// The empty cell.
    pub fn new_blank() -> (r: BitPiece)
        ensures
            r == BitPiece::spec_blank(),
            r.spec_is_blank(),
    {
        BitPiece(0)
    }

    /// Decodes a cell from raw bits; fails where the kind bits hold no valid kind.
    pub fn from_bits(value: u8) -> (r: Result<BitPiece, PieceError>)
        ensures
            r == BitPiece::spec_from_bits(value),
    {
        let code: u8 = (value & 0b0000_1110) >> 1;
        assert(code == (value / 2) % 8) by (bit_vector)
            requires
                code == (value & 0b0000_1110) >> 1,
        ;
        match Piece::from_value(code) {
            Ok(_) => Ok(BitPiece(value)),
            Err(e) => Err(e),
        }
    }

    /// Decodes a cell from a piece letter.
    pub fn from_char(value: char) -> (r: Result<BitPiece, PieceError>)
        ensures
            r == BitPiece::spec_from_char(value),
    {
        match Piece::from_char(value) {
            Ok(p) => {
                let color = if value == p.upper_letter() {
                    Color::White
                } else {
                    Color::Black
                };
                Ok(BitPiece::new(p, color, false))
            },
            Err(e) => Err(e),
        }
    }

    /// The packed bits.
    pub fn bits(&self) -> (r: u8)
        ensures
            r == self@,
    {
        self.0
    }

    pub fn is_blank(&self) -> (r: bool)
        ensures
            r == self.spec_is_blank(),
    {
        self.0 == 0
    }

    /// The kind of the occupant of a cell that is not empty.
    pub fn get_piece(&self) -> (r: Piece)
        requires
            !self.spec_is_blank(),
        ensures
            r == self.spec_piece(),
    {
        proof {
            use_type_invariant(self);
        }
        let value: u8 = self.0;
        let code: u8 = (value & 0b0000_1110) >> 1;
        assert(code == (value / 2) % 8) by (bit_vector)
            requires
                code == (value & 0b0000_1110) >> 1,
        ;
        if code == 1 {
            Piece::Pawn
        } else if code == 2 {
            Piece::Knight
        } else if code == 3 {
            Piece::Bishop
        } else if code == 4 {
            Piece::Rook
        } else if code == 5 {
            Piece::Queen
        } else {
            Piece::King
        }
    }

    pub fn get_color(&self) -> (r: Color)
        ensures
            r == self.spec_color(),
    {
        let value: u8 = self.0;
        let bit: u8 = value & 0b0000_0001;
        assert(bit == value % 2) by (bit_vector)
            requires
                bit == value & 0b0000_0001,
        ;
        if bit == 0 {
            Color::White
        } else {
            Color::Black
        }
    }

    /// Whether the piece has ever moved.
    pub fn has_moved(&self) -> (r: bool)
        ensures
            r == self.spec_has_moved(),
    {
        let value: u8 = self.0;
        let bit: u8 = value & 0b0001_0000;
        assert((bit != 0) == ((value / 16) % 2 == 1)) by (bit_vector)
            requires
                bit == value & 0b0001_0000,
        ;
        bit != 0
    }

    /// Sets the moved flag, which is never cleared again. The empty cell
    /// stays empty.
    pub fn set_moved(&mut self)
        ensures
            *final(self) == old(self).spec_moved(),
    {
        proof {
            use_type_invariant(&*self);
        }
        if self.0 != 0 {
            let prev: u8 = self.0;
            let value: u8 = prev | 0b0001_0000;
            assert(value == if (prev / 16) % 2 == 1 {
                prev
            } else {
                (prev + 16) as u8
            }) by (bit_vector)
                requires
                    value == prev | 0b0001_0000,
            ;
            assert((value / 2) % 8 == (prev / 2) % 8 && value != 0) by (bit_vector)
                requires
                    value == prev | 0b0001_0000,
            ;
            self.0 = value;
        }
    }

    pub fn is_pawn(&self) -> (r: bool)
        ensures
            r == self.holds(Piece::Pawn),
    {
        !self.is_blank() && self.get_piece() == Piece::Pawn
    }

    pub fn is_knight(&self) -> (r: bool)
        ensures
            r == self.holds(Piece::Knight),
    {
        !self.is_blank() && self.get_piece() == Piece::Knight
    }

    pub fn is_bishop(&self) -> (r: bool)
        ensures
            r == self.holds(Piece::Bishop),
    {
        !self.is_blank() && self.get_piece() == Piece::Bishop
    }

    pub fn is_rook(&self) -> (r: bool)
        ensures
            r == self.holds(Piece::Rook),
    {
        !self.is_blank() && self.get_piece() == Piece::Rook
    }

    pub fn is_queen(&self) -> (r: bool)
        ensures
            r == self.holds(Piece::Queen),
    {
        !self.is_blank() && self.get_piece() == Piece::Queen
    }

    pub fn is_king(&self) -> (r: bool)
        ensures
            r == self.holds(Piece::King),
    {
        !self.is_blank() && self.get_piece() == Piece::King
    }

    pub fn is_white(&self) -> (r: bool)
        ensures
            r == (self.spec_color() == Color::White),
    {
        self.get_color() == Color::White
    }

    pub fn is_black(&self) -> (r: bool)
        ensures
            r == (self.spec_color() == Color::Black),
    {
        self.get_color() == Color::Black
    }

    /// The letter of the occupant of a cell that is not empty: upper case
    /// for White, lower case for Black.
    pub fn letter(&self) -> (r: char)
        requires
            !self.spec_is_blank(),
        ensures
            r == self.spec_letter(),
    {
        let piece = self.get_piece();
        if self.is_white() {
            piece.upper_letter()
        } else {
            piece.letter()
        }
    }
}

impl TryFrom<u8> for BitPiece {
    type Error = PieceError;

    /// The cell decoded from raw bits; fails where the kind bits hold no
    /// valid kind.
    fn try_from(value: u8) -> (r: Result<BitPiece, PieceError>) {
        BitPiece::from_bits(value)
    }
}

impl vstd::std_specs::convert::TryFromSpecImpl<u8> for BitPiece {
    open spec fn obeys_try_from_spec() -> bool {
        true
    }

    open spec fn try_from_spec(value: u8) -> Result<BitPiece, PieceError> {
        BitPiece::spec_from_bits(value)
    }
}

impl TryFrom<char> for BitPiece {
    type Error = PieceError;

    /// The cell that a piece letter stands for.
    fn try_from(value: char) -> (r: Result<BitPiece, PieceError>) {
        BitPiece::from_char(value)
    }
}

impl vstd::std_specs::convert::TryFromSpecImpl<char> for BitPiece {
    open spec fn obeys_try_from_spec() -> bool {
        true
    }

    open spec fn try_from_spec(value: char) -> Result<BitPiece, PieceError> {
        BitPiece::spec_from_char(value)
    }
}

/// What packing stores, unpacking returns; and a packed piece is well formed.
pub proof fn lemma_new_unpacks(piece: Piece, color: Color, has_moved: bool)
    ensures
        BitPiece::spec_new(piece, color, has_moved).spec_piece() == piece,
        BitPiece::spec_new(piece, color, has_moved).spec_color() == color,
        BitPiece::spec_new(piece, color, has_moved).spec_has_moved() == has_moved,
        !BitPiece::spec_new(piece, color, has_moved).spec_is_blank(),
        BitPiece::spec_new(piece, color, has_moved).wf(),
        BitPiece::spec_new(piece, color, has_moved)@ == color.code() + 2 * piece.code() + (
        if has_moved {
            16int
        } else {
            0int
        }),
{
}

/// Setting the moved flag keeps the kind and the colour, and is never undone:
/// a piece that has moved stays as it is.
pub proof fn lemma_moved_is_one_way(b: BitPiece)
    requires
        b.wf(),
    ensures
        b.spec_moved().wf(),
        b.spec_moved().spec_is_blank() == b.spec_is_blank(),
        b.spec_moved().spec_piece() == b.spec_piece(),
        b.spec_moved().spec_color() == b.spec_color(),
        !b.spec_is_blank() ==> b.spec_moved().spec_has_moved(),
        b.spec_moved().spec_moved() == b.spec_moved(),
{
    let v = b@;
    if !b.spec_is_blank() && !b.spec_has_moved() {
        let w: u8 = (v + 16) as u8;
        assert((v / 16) % 2 == 0);
        assert(v < 240 || (v / 16) % 2 == 1) by {
            if v >= 240 {
                assert(v / 16 == 15);
            }
        }
        assert(w == v + 16);
        assert((w / 2) % 8 == (v / 2) % 8);
        assert(w % 2 == v % 2);
        assert((w / 16) % 2 == 1);
    }
}

/// Reading the letter of a piece gives the piece back, as one that has not
/// moved. The letter is a letter of the alphabet.
pub proof fn lemma_letter_round_trip(b: BitPiece)
    requires
        b.wf(),
        !b.spec_is_blank(),
    ensures
        BitPiece::spec_from_char(b.spec_letter()) == Ok::<BitPiece, PieceError>(b.spec_unmoved()),
        'A' <= b.spec_letter() <= 'Z' || 'a' <= b.spec_letter() <= 'z',
        b.spec_unmoved().wf(),
        !b.spec_unmoved().spec_is_blank(),
        b@ < 16 ==> b.spec_unmoved() == b,
{
    lemma_new_unpacks(b.spec_piece(), b.spec_color(), false);
    if b@ < 16 {
        let u = BitPiece::spec_new(b.spec_piece(), b.spec_color(), false);
        assert(u@ == b@);
        BitPiece::lemma_bits_of(b);
        BitPiece::lemma_bits_of(u);
    }
}

} // verus!
