//! The kinds of piece.

use crate::error::PieceError;
use vstd::prelude::*;

verus! {

/// The six kinds of chess piece.
#[derive(Debug, Copy, Clone, PartialEq, Eq, Structural)]
pub enum Piece {
    Pawn,
    Knight,
    Bishop,
    Rook,
    Queen,
    King,
}

/// The kinds that a pawn may be promoted to.
pub const PROMOTION_PIECES: [Piece; 4] = [Piece::Knight, Piece::Bishop, Piece::Rook, Piece::Queen];

impl Piece {
    /// The numeric code of a kind, from 1 for the pawn to 6 for the king.
    pub open spec fn code(self) -> u8 {
        match self {
            Piece::Pawn => 1,
            Piece::Knight => 2,
            Piece::Bishop => 3,
            Piece::Rook => 4,
            Piece::Queen => 5,
            Piece::King => 6,
        }
    }

    /// The kind with the given numeric code, if there is one.
    pub open spec fn spec_from_value(value: u8) -> Result<Piece, PieceError> {
        if value == 1 {
            Ok(Piece::Pawn)
        } else if value == 2 {
            Ok(Piece::Knight)
        } else if value == 3 {
            Ok(Piece::Bishop)
        } else if value == 4 {
            Ok(Piece::Rook)
        } else if value == 5 {
            Ok(Piece::Queen)
        } else if value == 6 {
            Ok(Piece::King)
        } else {
            Err(PieceError::InvalidValue(value))
        }
    }

    /// The lower-case letter of a kind.
    pub open spec fn spec_letter(self) -> char {
        match self {
            Piece::Pawn => 'p',
            Piece::Knight => 'n',
            Piece::Bishop => 'b',
            Piece::Rook => 'r',
            Piece::Queen => 'q',
            Piece::King => 'k',
        }
    }

    /// The upper-case letter of a kind.
    pub open spec fn spec_upper_letter(self) -> char {
        match self {
            Piece::Pawn => 'P',
            Piece::Knight => 'N',
            Piece::Bishop => 'B',
            Piece::Rook => 'R',
            Piece::Queen => 'Q',
            Piece::King => 'K',
        }
    }

    /// The kind that a letter stands for, in either case, if it stands for one.
    pub open spec fn spec_from_char(value: char) -> Result<Piece, PieceError> {
        if value == 'p' || value == 'P' {
            Ok(Piece::Pawn)
        } else if value == 'n' || value == 'N' {
            Ok(Piece::Knight)
        } else if value == 'b' || value == 'B' {
            Ok(Piece::Bishop)
        } else if value == 'r' || value == 'R' {
            Ok(Piece::Rook)
        } else if value == 'q' || value == 'Q' {
            Ok(Piece::Queen)
        } else if value == 'k' || value == 'K' {
            Ok(Piece::King)
        } else {
            Err(PieceError::InvalidChar(value))
        }
    }

    /// Whether a pawn may be promoted to this kind.
    pub open spec fn spec_is_promotion_target(self) -> bool {
        self == Piece::Knight || self == Piece::Bishop || self == Piece::Rook || self
            == Piece::Queen
    }

    /// The numeric code of this kind.
    pub fn value(&self) -> (r: u8)
        ensures
            r == self.code(),
            1 <= r <= 6,
    {
        match self {
            Piece::Pawn => 1,
            Piece::Knight => 2,
            Piece::Bishop => 3,
            Piece::Rook => 4,
            Piece::Queen => 5,
            Piece::King => 6,
        }
    }

    /// Decodes a kind from its numeric code.
    pub fn from_value(value: u8) -> (r: Result<Piece, PieceError>)
        ensures
            r == Piece::spec_from_value(value),
    {
        if value == 1 {
            Ok(Piece::Pawn)
        } else if value == 2 {
            Ok(Piece::Knight)
        } else if value == 3 {
            Ok(Piece::Bishop)
        } else if value == 4 {
            Ok(Piece::Rook)
        } else if value == 5 {
            Ok(Piece::Queen)
        } else if value == 6 {
            Ok(Piece::King)
        } else {
            Err(PieceError::InvalidValue(value))
        }
    }

    /// Decodes a kind from its letter; the case of the letter does not matter.
    pub fn from_char(value: char) -> (r: Result<Piece, PieceError>)
        ensures
            r == Piece::spec_from_char(value),
    {
        if value == 'p' || value == 'P' {
            Ok(Piece::Pawn)
        } else if value == 'n' || value == 'N' {
            Ok(Piece::Knight)
        } else if value == 'b' || value == 'B' {
            Ok(Piece::Bishop)
        } else if value == 'r' || value == 'R' {
            Ok(Piece::Rook)
        } else if value == 'q' || value == 'Q' {
            Ok(Piece::Queen)
        } else if value == 'k' || value == 'K' {
            Ok(Piece::King)
        } else {
            Err(PieceError::InvalidChar(value))
        }
    }

    /// The lower-case letter of this kind.
    pub fn letter(&self) -> (r: char)
        ensures
            r == self.spec_letter(),
    {
        match self {
            Piece::Pawn => 'p',
            Piece::Knight => 'n',
            Piece::Bishop => 'b',
            Piece::Rook => 'r',
            Piece::Queen => 'q',
            Piece::King => 'k',
        }
    }

    /// The upper-case letter of this kind.
    pub fn upper_letter(&self) -> (r: char)
        ensures
            r == self.spec_upper_letter(),
    {
        match self {
            Piece::Pawn => 'P',
            Piece::Knight => 'N',
            Piece::Bishop => 'B',
            Piece::Rook => 'R',
            Piece::Queen => 'Q',
            Piece::King => 'K',
        }
    }
}

impl TryFrom<u8> for Piece {
    type Error = PieceError;

    /// The kind with the given numeric code.
    fn try_from(value: u8) -> (r: Result<Piece, PieceError>) {
        Piece::from_value(value)
    }
}

impl vstd::std_specs::convert::TryFromSpecImpl<u8> for Piece {
    open spec fn obeys_try_from_spec() -> bool {
        true
    }

    open spec fn try_from_spec(value: u8) -> Result<Piece, PieceError> {
        Piece::spec_from_value(value)
    }
}

impl TryFrom<char> for Piece {
    type Error = PieceError;

    /// The kind that a letter stands for, in either case.
    fn try_from(value: char) -> (r: Result<Piece, PieceError>) {
        Piece::from_char(value)
    }
}

impl vstd::std_specs::convert::TryFromSpecImpl<char> for Piece {
    open spec fn obeys_try_from_spec() -> bool {
        true
    }

    open spec fn try_from_spec(value: char) -> Result<Piece, PieceError> {
        Piece::spec_from_char(value)
    }
}

/// Decoding the code of a kind gives the kind back, and so does decoding
/// either of its letters.
pub proof fn lemma_piece_codes_round_trip(p: Piece)
    ensures
        Piece::spec_from_value(p.code()) == Ok::<Piece, PieceError>(p),
        Piece::spec_from_char(p.spec_letter()) == Ok::<Piece, PieceError>(p),
        Piece::spec_from_char(p.spec_upper_letter()) == Ok::<Piece, PieceError>(p),
{
}

} // verus!
