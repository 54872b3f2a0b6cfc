//! The squares of the board.

use crate::error::{SquareError, SquareFault};
use vstd::prelude::*;

verus! {

/// A square of the board, numbered from 0 (a1) to 63 (h8), rank by rank.
#[derive(Debug, Copy, Clone, PartialEq, Eq, Structural)]
pub struct Square(u8);

impl View for Square {
    type V = int;

    /// The number of the square.
    closed spec fn view(&self) -> int {
        self.0 as int
    }
}

impl Square {
    /// Every square that executable code holds lies on the board.
    #[verifier::type_invariant]
    pub open spec fn wf(self) -> bool {
        0 <= self@ < 64
    }

    /// The square with the given number.
    pub closed spec fn at(index: int) -> Square {
        Square(index as u8)
    }

    /// The row of the square, counted from 0.
    pub open spec fn row(self) -> int {
        self@ / 8
    }

    /// The column of the square, counted from 0.
    pub open spec fn col(self) -> int {
        self@ % 8
    }

    /// The rank of the square, from 1 to 8.
    pub open spec fn spec_rank(self) -> int {
        self.row() + 1
    }

    /// The file of the square, from `a` to `h`.
    pub open spec fn spec_file(self) -> char {
        file_letter(self.col())
    }

    /// The square reached by moving `rows` rows up and `cols` columns to the
    /// right (down and left where negative), unless that leaves the board.
    pub open spec fn offset(self, rows: int, cols: int) -> Option<Square> {
        if 0 <= self.row() + rows < 8 && 0 <= self.col() + cols < 8 {
            Some(Square::at(self@ + 8 * rows + cols))
        } else {
            None
        }
    }

    /// `at` and the view are inverse to each other on the board.
    pub broadcast proof fn lemma_at_view(index: int)
        requires
            0 <= index < 64,
        ensures
            (#[trigger] Square::at(index))@ == index,
            Square::at(index).wf(),
    {
    }

    /// A square is determined by its number.
    pub broadcast proof fn lemma_view_at(s: Square)
        ensures
            #[trigger] Square::at(s@) == s,
    {
    }

    /// The number of the square.
    pub fn index(&self) -> (r: u8)
        ensures
            r == self@,
            r < 64,
    {
        proof {
            use_type_invariant(self);
        }
        self.0
    }

    /// The square with the given number.
    pub fn from_index(value: u8) -> (r: Result<Square, SquareError>)
        ensures
            value < 64 ==> r == Ok::<Square, SquareError>(Square::at(value as int)),
            value >= 64 ==> r == Err::<Square, SquareError>(
                SquareError::InvalidIndex(value as usize),
            ),
    {
        if value > 63 {
            Err(SquareError::InvalidIndex(value as usize))
        } else {
            Ok(Square(value))
        }
    }

    /// The square on the given row and column, both counted from 0.
    pub fn on(row: u8, col: u8) -> (r: Square)
        requires
            row < 8,
            col < 8,
        ensures
            r == Square::at(8 * row + col),
            r.wf(),
            r@ == 8 * row + col,
    {
        Square(8 * row + col)
    }

    /// The rank of the square, from 1 to 8.
    pub fn rank(&self) -> (r: u8)
        ensures
            r == self.spec_rank(),
            1 <= r <= 8,
    {
        proof {
            use_type_invariant(self);
        }
        self.0 / 8 + 1
    }

    /// The file of the square, from `a` to `h`.
    pub fn file(&self) -> (r: char)
        ensures
            r == self.spec_file(),
    {
        let col: u8 = self.0 % 8;
        if col == 0 {
            'a'
        } else if col == 1 {
            'b'
        } else if col == 2 {
            'c'
        } else if col == 3 {
            'd'
        } else if col == 4 {
            'e'
        } else if col == 5 {
            'f'
        } else if col == 6 {
            'g'
        } else {
            'h'
        }
    }

    /// The square `offset` rows up, if that is on the board.
    pub fn up(&self, offset: u8) -> (r: Option<Square>)
        ensures
            r == self.offset(offset as int, 0),
    {
        proof {
            use_type_invariant(self);
        }
        if offset > 7 {
            return None;
        }
        let new_square: u8 = self.0 + 8 * offset;
        if new_square > 63 {
            None
        } else {
            Some(Square(new_square))
        }
    }

    /// The square `offset` rows down, if that is on the board.
    pub fn down(&self, offset: u8) -> (r: Option<Square>)
        ensures
            r == self.offset(-(offset as int), 0),
    {
        proof {
            use_type_invariant(self);
        }
        if offset > 7 || 8 * offset > self.0 {
            return None;
        }
        Some(Square(self.0 - 8 * offset))
    }

    /// The square `offset` columns to the left, if that is on the board.
    pub fn left(&self, offset: u8) -> (r: Option<Square>)
        ensures
            r == self.offset(0, -(offset as int)),
    {
        proof {
            use_type_invariant(self);
        }
        if self.0 % 8 < offset {
            return None;
        }
        Some(Square(self.0 - offset))
    }

    /// The square `offset` columns to the right, if that is on the board.
    pub fn right(&self, offset: u8) -> (r: Option<Square>)
        ensures
            r == self.offset(0, offset as int),
    {
        proof {
            use_type_invariant(self);
        }
        if offset > 7 || self.0 % 8 + offset > 7 {
            return None;
        }
        Some(Square(self.0 + offset))
    }

    /// The square that two-character algebraic text names: a file letter
    /// from `a` to `h`, then a rank digit from `1` to `8`.
    pub open spec fn spec_parse(text: Seq<char>) -> Result<Square, SquareFault> {
        if text.len() != 2 {
            Err(SquareFault::InvalidSquare(text))
        } else if !is_file_letter(text[0]) {
            Err(SquareFault::InvalidFile(text[0]))
        } else if !is_rank_digit(text[1]) {
            Err(SquareFault::InvalidRank(text[1]))
        } else {
            Ok(Square::at(file_number(text[0]) + 8 * rank_number(text[1])))
        }
    }

    /// The square that a text names, and the error that reports the text
    /// where it does not have two characters.
    pub open spec fn spec_from_text(value: String) -> Result<Square, SquareError> {
        if value@.len() != 2 {
            Err(SquareError::InvalidSquare(value))
        } else if !is_file_letter(value@[0]) {
            Err(SquareError::InvalidFile(value@[0]))
        } else if !is_rank_digit(value@[1]) {
            Err(SquareError::InvalidRank(value@[1]))
        } else {
            Ok(Square::at(file_number(value@[0]) + 8 * rank_number(value@[1])))
        }
    }

    /// The algebraic text of the square: its file letter, then its rank digit.
    pub open spec fn spec_text(self) -> Seq<char> {
        seq![self.spec_file(), rank_digit(self.row())]
    }

    /// Reads a square from two characters of algebraic text.
    pub fn from_chars(file: char, rank: char) -> (r: Result<Square, SquareError>)
        ensures
            match Square::spec_parse(seq![file, rank]) {
                Ok(s) => r == Ok::<Square, SquareError>(s),
                Err(f) => r is Err && r->Err_0@ == f,
            },
            !is_file_letter(file) ==> r == Err::<Square, SquareError>(
                SquareError::InvalidFile(file),
            ),
            is_file_letter(file) && !is_rank_digit(rank) ==> r == Err::<Square, SquareError>(
                SquareError::InvalidRank(rank),
            ),
    {
        let col: u8 = match file_index(file) {
            Some(c) => c,
            None => {
                return Err(SquareError::InvalidFile(file));
            },
        };
        let row: u8 = match rank_index(rank) {
            Some(r) => r,
            None => {
                return Err(SquareError::InvalidRank(rank));
            },
        };
        Ok(Square(col + 8 * row))
    }

    /// Reads a square from algebraic text.
    pub fn parse(value: String) -> (r: Result<Square, SquareError>)
        ensures
            r == Square::spec_from_text(value),
            match Square::spec_parse(value@) {
                Ok(s) => r == Ok::<Square, SquareError>(s),
                Err(f) => r is Err && r->Err_0@ == f,
            },
    {
        let text = value.as_str();
        if text.unicode_len() != 2 {
            return Err(SquareError::InvalidSquare(value));
        }
        let file = text.get_char(0);
        let rank = text.get_char(1);
        assert(value@ =~= seq![file, rank]);
        Square::from_chars(file, rank)
    }

    /// The algebraic text of the square, such as `e4`.
    pub fn text(&self) -> (r: String)
        ensures
            r@ == self.spec_text(),
    {
        let mut out = String::new();
        out.push(self.file());
        out.push(rank_char(self.rank() - 1));
        assert(out@ =~= self.spec_text());
        out
    }
}

impl TryFrom<u8> for Square {
    type Error = SquareError;

    /// The square with the given number.
    fn try_from(value: u8) -> (r: Result<Square, SquareError>) {
        Square::from_index(value)
    }
}

impl vstd::std_specs::convert::TryFromSpecImpl<u8> for Square {
    open spec fn obeys_try_from_spec() -> bool {
        true
    }

    open spec fn try_from_spec(value: u8) -> Result<Square, SquareError> {
        if value < 64 {
            Ok(Square::at(value as int))
        } else {
            Err(SquareError::InvalidIndex(value as usize))
        }
    }
}

impl TryFrom<String> for Square {
    type Error = SquareError;

    /// The square that two-character algebraic text names.
    fn try_from(value: String) -> (r: Result<Square, SquareError>) {
        Square::parse(value)
    }
}

impl vstd::std_specs::convert::TryFromSpecImpl<String> for Square {
    open spec fn obeys_try_from_spec() -> bool {
        true
    }

    open spec fn try_from_spec(value: String) -> Result<Square, SquareError> {
        Square::spec_from_text(value)
    }
}

impl From<Square> for u8 {
    /// The number of the square.
    fn from(square: Square) -> (r: u8) {
        square.index()
    }
}

impl vstd::std_specs::convert::FromSpecImpl<Square> for u8 {
    open spec fn obeys_from_spec() -> bool {
        true
    }

    open spec fn from_spec(square: Square) -> u8 {
        square@ as u8
    }
}

impl From<Square> for usize {
    /// The number of the square.
    fn from(square: Square) -> (r: usize) {
        square.index() as usize
    }
}

impl vstd::std_specs::convert::FromSpecImpl<Square> for usize {
    open spec fn obeys_from_spec() -> bool {
        true
    }

    open spec fn from_spec(square: Square) -> usize {
        square@ as usize
    }
}

/// Whether the character is a file letter, from `a` to `h`.
pub open spec fn is_file_letter(c: char) -> bool {
    c == 'a' || c == 'b' || c == 'c' || c == 'd' || c == 'e' || c == 'f' || c == 'g' || c == 'h'
}

/// Whether the character is a rank digit, from `1` to `8`.
pub open spec fn is_rank_digit(c: char) -> bool {
    c == '1' || c == '2' || c == '3' || c == '4' || c == '5' || c == '6' || c == '7' || c == '8'
}

/// The number of the column that a file letter names, from 0 for `a`.
pub open spec fn file_number(c: char) -> int {
    if c == 'a' {
        0
    } else if c == 'b' {
        1
    } else if c == 'c' {
        2
    } else if c == 'd' {
        3
    } else if c == 'e' {
        4
    } else if c == 'f' {
        5
    } else if c == 'g' {
        6
    } else {
        7
    }
}

/// The number of the row that a rank digit names, from 0 for `1`.
pub open spec fn rank_number(c: char) -> int {
    if c == '1' {
        0
    } else if c == '2' {
        1
    } else if c == '3' {
        2
    } else if c == '4' {
        3
    } else if c == '5' {
        4
    } else if c == '6' {
        5
    } else if c == '7' {
        6
    } else {
        7
    }
}

/// The digit of the rank whose row has the given number, from `1` for 0.
pub open spec fn rank_digit(row: int) -> char {
    if row == 0 {
        '1'
    } else if row == 1 {
        '2'
    } else if row == 2 {
        '3'
    } else if row == 3 {
        '4'
    } else if row == 4 {
        '5'
    } else if row == 5 {
        '6'
    } else if row == 6 {
        '7'
    } else {
        '8'
    }
}

/// The number of the column that a file letter names, if it is one.
pub fn file_index(c: char) -> (r: Option<u8>)
    ensures
        is_file_letter(c) ==> r == Some(file_number(c) as u8),
        !is_file_letter(c) ==> r is None,
{
    if c == 'a' {
        Some(0)
    } else if c == 'b' {
        Some(1)
    } else if c == 'c' {
        Some(2)
    } else if c == 'd' {
        Some(3)
    } else if c == 'e' {
        Some(4)
    } else if c == 'f' {
        Some(5)
    } else if c == 'g' {
        Some(6)
    } else if c == 'h' {
        Some(7)
    } else {
        None
    }
}

/// The number of the row that a rank digit names, if it is one.
pub fn rank_index(c: char) -> (r: Option<u8>)
    ensures
        is_rank_digit(c) ==> r == Some(rank_number(c) as u8),
        !is_rank_digit(c) ==> r is None,
{
    if c == '1' {
        Some(0)
    } else if c == '2' {
        Some(1)
    } else if c == '3' {
        Some(2)
    } else if c == '4' {
        Some(3)
    } else if c == '5' {
        Some(4)
    } else if c == '6' {
        Some(5)
    } else if c == '7' {
        Some(6)
    } else if c == '8' {
        Some(7)
    } else {
        None
    }
}

/// The digit of the rank whose row has the given number.
pub fn rank_char(row: u8) -> (r: char)
    requires
        row < 8,
    ensures
        r == rank_digit(row as int),
{
    if row == 0 {
        '1'
    } else if row == 1 {
        '2'
    } else if row == 2 {
        '3'
    } else if row == 3 {
        '4'
    } else if row == 4 {
        '5'
    } else if row == 5 {
        '6'
    } else if row == 6 {
        '7'
    } else {
        '8'
    }
}

/// Reading the text of a square gives the square back.
pub proof fn lemma_square_text_round_trip(s: Square)
    requires
        s.wf(),
    ensures
        Square::spec_parse(s.spec_text()) == Ok::<Square, SquareFault>(s),
{
    assert(file_number(file_letter(s.col())) == s.col());
    assert(rank_number(rank_digit(s.row())) == s.row());
    assert(s.col() + 8 * s.row() == s@);
}

/// The letter of the column with the given number, from `a` for 0.
pub open spec fn file_letter(col: int) -> char {
    if col == 0 {
        'a'
    } else if col == 1 {
        'b'
    } else if col == 2 {
        'c'
    } else if col == 3 {
        'd'
    } else if col == 4 {
        'e'
    } else if col == 5 {
        'f'
    } else if col == 6 {
        'g'
    } else {
        'h'
    }
}

} // verus!
