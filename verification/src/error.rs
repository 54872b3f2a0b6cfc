//! What can go wrong, and where.

use vstd::prelude::*;

verus! {

/// A piece kind could not be decoded.
#[derive(Debug, Copy, Clone, PartialEq, Eq, Structural)]
pub enum PieceError {
    /// The number is not the code of a piece kind.
    InvalidValue(u8),
    /// The character is not the letter of a piece kind.
    InvalidChar(char),
}

/// A side could not be decoded.
#[derive(Debug, Copy, Clone, PartialEq, Eq, Structural)]
pub enum ColorError {
    /// The number is not the code of a side.
    InvalidValue(u8),
    /// The character is not the letter of a side.
    InvalidChar(char),
}

/// A square could not be decoded.
#[derive(Debug, PartialEq, Eq)]
pub enum SquareError {
    /// The second character is not a rank between `1` and `8`.
    InvalidRank(char),
    /// The first character is not a file between `a` and `h`.
    InvalidFile(char),
    /// The text does not have exactly two characters.
    InvalidSquare(String),
    /// The index is not below 64.
    InvalidIndex(usize),
}

/// What was wrong with a square, with the offending text as a sequence.
pub enum SquareFault {
    InvalidRank(char),
    InvalidFile(char),
    InvalidSquare(Seq<char>),
    InvalidIndex(usize),
}

impl View for SquareError {
    type V = SquareFault;

    open spec fn view(&self) -> SquareFault {
        match *self {
            SquareError::InvalidRank(c) => SquareFault::InvalidRank(c),
            SquareError::InvalidFile(c) => SquareFault::InvalidFile(c),
            SquareError::InvalidSquare(s) => SquareFault::InvalidSquare(s@),
            SquareError::InvalidIndex(i) => SquareFault::InvalidIndex(i),
        }
    }
}

/// The part of a position text that could not be read.
#[derive(Debug, Copy, Clone, PartialEq, Eq, Structural)]
pub enum FenError {
    /// The text does not consist of six fields.
    FieldCount,
    /// The placement field holds a character that is no piece letter, digit or `/`.
    Piece(PieceError),
    /// The placement field runs past the eighth file or below the first rank.
    Placement,
    /// The turn field is neither `w` nor `b`.
    Turn,
    /// The castling field holds a letter other than `K`, `Q`, `k`, `q`.
    Castling,
    /// The en-passant field is neither `-` nor a square.
    EnPassant,
    /// The halfmove clock is no number below 256, or is above 100.
    HalfmoveClock,
    /// The fullmove number is no number below 65536, or is 0.
    FullmoveNumber,
}

/// A failure of a board operation.
#[derive(Debug, PartialEq, Eq)]
pub enum BoardError {
    /// The notation names no legal move; holds the notation.
    IllegalMove(String),
    /// The position text is malformed.
    InvalidFEN(FenError),
    /// The notation does not follow the move grammar; holds the notation.
    InvalidPattern(String),
    /// The notation names more than one legal move; holds the notation.
    AmbiguousMove(String),
}

/// A failure of a board operation, with the offending text as a sequence.
pub enum BoardFault {
    IllegalMove(Seq<char>),
    InvalidFEN(FenError),
    InvalidPattern(Seq<char>),
    AmbiguousMove(Seq<char>),
}

impl View for BoardError {
    type V = BoardFault;

    open spec fn view(&self) -> BoardFault {
        match *self {
            BoardError::IllegalMove(s) => BoardFault::IllegalMove(s@),
            BoardError::InvalidFEN(e) => BoardFault::InvalidFEN(e),
            BoardError::InvalidPattern(s) => BoardFault::InvalidPattern(s@),
            BoardError::AmbiguousMove(s) => BoardFault::AmbiguousMove(s@),
        }
    }
}

/// Whether a result is the expected one: the same value, or an error that
/// stands for the same failure.
pub open spec fn agrees<T>(r: Result<T, BoardError>, expected: Result<T, BoardFault>) -> bool {
    match expected {
        Ok(v) => r == Ok::<T, BoardError>(v),
        Err(f) => r is Err && r->Err_0@ == f,
    }
}

} // verus!
