//! The two sides.

use crate::error::ColorError;
use vstd::prelude::*;

verus! {

/// The two sides of a game.
#[derive(Debug, Copy, Clone, PartialEq, Eq, Structural)]
pub enum Color {
    White,
    Black,
}

impl Color {
    /// The other side.
    pub open spec fn spec_opposite(self) -> Color {
        match self {
            Color::White => Color::Black,
            Color::Black => Color::White,
        }
    }

    /// The numeric code of a side: 0 for White, 1 for Black.
    pub open spec fn code(self) -> u8 {
        match self {
            Color::White => 0,
            Color::Black => 1,
        }
    }

    /// The letter that stands for a side in position notation.
    pub open spec fn spec_letter(self) -> char {
        match self {
            Color::White => 'w',
            Color::Black => 'b',
        }
    }

    /// The side with the given numeric code, if there is one.
    pub open spec fn spec_from_value(value: u8) -> Result<Color, ColorError> {
        if value == 0 {
            Ok(Color::White)
        } else if value == 1 {
            Ok(Color::Black)
        } else {
            Err(ColorError::InvalidValue(value))
        }
    }

    /// The side that a notation letter stands for, if it stands for one.
    pub open spec fn spec_from_char(value: char) -> Result<Color, ColorError> {
        if value == 'w' {
            Ok(Color::White)
        } else if value == 'b' {
            Ok(Color::Black)
        } else {
            Err(ColorError::InvalidChar(value))
        }
    }

    pub fn opposite(&self) -> (r: Color)
        ensures
            r == self.spec_opposite(),
    {
        match self {
            Color::White => Color::Black,
            Color::Black => Color::White,
        }
    }

    /// Decodes a side from its numeric code.
    pub fn from_value(value: u8) -> (r: Result<Color, ColorError>)
        ensures
            r == Color::spec_from_value(value),
    {
        if value == 0 {
            Ok(Color::White)
        } else if value == 1 {
            Ok(Color::Black)
        } else {
            Err(ColorError::InvalidValue(value))
        }
    }

    /// Decodes a side from its notation letter, `w` or `b`.
    pub fn from_char(value: char) -> (r: Result<Color, ColorError>)
        ensures
            r == Color::spec_from_char(value),
    {
        if value == 'w' {
            Ok(Color::White)
        } else if value == 'b' {
            Ok(Color::Black)
        } else {
            Err(ColorError::InvalidChar(value))
        }
    }

    /// The notation letter of a side.
    pub fn letter(&self) -> (r: char)
        ensures
            r == self.spec_letter(),
    {
        match self {
            Color::White => 'w',
            Color::Black => 'b',
        }
    }
}

impl TryFrom<u8> for Color {
    type Error = ColorError;

    /// The side with the given numeric code.
    fn try_from(value: u8) -> (r: Result<Color, ColorError>) {
        Color::from_value(value)
    }
}

impl vstd::std_specs::convert::TryFromSpecImpl<u8> for Color {
    open spec fn obeys_try_from_spec() -> bool {
        true
    }

    open spec fn try_from_spec(value: u8) -> Result<Color, ColorError> {
        Color::spec_from_value(value)
    }
}

impl TryFrom<char> for Color {
    type Error = ColorError;

    /// The side that a notation letter stands for.
    fn try_from(value: char) -> (r: Result<Color, ColorError>) {
        Color::from_char(value)
    }
}

impl vstd::std_specs::convert::TryFromSpecImpl<char> for Color {
    open spec fn obeys_try_from_spec() -> bool {
        true
    }

    open spec fn try_from_spec(value: char) -> Result<Color, ColorError> {
        Color::spec_from_char(value)
    }
}

/// Taking the other side twice gives the side back.
pub proof fn lemma_opposite_involution(c: Color)
    ensures
        c.spec_opposite().spec_opposite() == c,
        c.spec_opposite() != c,
{
}

} // verus!
