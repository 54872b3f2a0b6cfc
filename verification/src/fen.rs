//! Position texts: six fields separated by white space, which give the
//! placement of the pieces, the side to move, the castling rights, the
//! en-passant target, the halfmove clock and the fullmove number.

use crate::bitpiece::BitPiece;
use crate::board::BoardStatus;
use crate::color::Color;
use crate::error::FenError;
use crate::position::Position;
use crate::square::Square;
use vstd::prelude::*;

verus! {

/// Whether a character separates the fields of a position text: whether it
/// is white space.
pub open spec fn is_space(c: char) -> bool {
    let n = c as u32;
    ||| 0x09 <= n <= 0x0D
    ||| n == 0x20
    ||| n == 0x85
    ||| n == 0xA0
    ||| n == 0x1680
    ||| 0x2000 <= n <= 0x200A
    ||| n == 0x2028
    ||| n == 0x2029
    ||| n == 0x202F
    ||| n == 0x205F
    ||| n == 0x3000
}

/// What has been read of a text that is being split into fields.
pub struct Split {
    /// The fields that are complete.
    pub done: Seq<Seq<char>>,
    /// The characters of the field that is being read.
    pub word: Seq<char>,
}

impl Split {
    /// The fields read so far, the one that is being read included.
    pub open spec fn all(self) -> Seq<Seq<char>> {
        if self.word.len() > 0 {
            self.done.push(self.word)
        } else {
            self.done
        }
    }
}

/// Reads one more character of a text that is being split: white space
/// completes the field that is being read, any other character extends it.
pub open spec fn split_step(st: Split, c: char) -> Split {
    if is_space(c) {
        Split { done: st.all(), word: Seq::empty() }
    } else {
        Split { done: st.done, word: st.word.push(c) }
    }
}

/// The fields of a text: its longest runs of characters that are not white space.
pub open spec fn fields(text: Seq<char>) -> Seq<Seq<char>> {
    text.fold_left(
        Split { done: Seq::empty(), word: Seq::empty() },
        |st: Split, c: char| split_step(st, c),
    ).all()
}

/// Whether a character is a decimal digit.
pub open spec fn is_digit(c: char) -> bool {
    '0' <= c <= '9'
}

/// The value of a decimal digit.
pub open spec fn digit_value(c: char) -> nat {
    (c as u32 - '0' as u32) as nat
}

/// The decimal digit of a value below ten.
pub open spec fn digit_char(d: nat) -> char {
    if d == 0 {
        '0'
    } else if d == 1 {
        '1'
    } else if d == 2 {
        '2'
    } else if d == 3 {
        '3'
    } else if d == 4 {
        '4'
    } else if d == 5 {
        '5'
    } else if d == 6 {
        '6'
    } else if d == 7 {
        '7'
    } else if d == 8 {
        '8'
    } else {
        '9'
    }
}

/// The number that a run of decimal digits stands for.
pub open spec fn digits_value(s: Seq<char>) -> nat
    decreases s.len(),
{
    if s.len() == 0 {
        0
    } else {
        digits_value(s.drop_last()) * 10 + digit_value(s.last())
    }
}

/// Whether every character is a decimal digit.
pub open spec fn all_digits(s: Seq<char>) -> bool {
    forall|i: int| 0 <= i < s.len() ==> is_digit(#[trigger] s[i])
}

/// The digits of a number text: the text without its leading `+`, if it has one.
pub open spec fn unsigned_part(text: Seq<char>) -> Seq<char> {
    if text.len() > 0 && text[0] == '+' {
        text.drop_first()
    } else {
        text
    }
}

/// The number that a text stands for: an optional `+`, then one or more
/// decimal digits whose value is at most `max`.
pub open spec fn number_of(text: Seq<char>, max: nat) -> Option<nat> {
    let body = unsigned_part(text);
    if body.len() > 0 && all_digits(body) && digits_value(body) <= max {
        Some(digits_value(body))
    } else {
        None
    }
}

/// The decimal digits of a number, without leading zeros.
pub open spec fn decimal(n: nat) -> Seq<char>
    decreases n,
{
    if n < 10 {
        seq![digit_char(n)]
    } else {
        decimal(n / 10).push(digit_char(n % 10))
    }
}

/// What has been read of the placement field of a position text.
pub struct Placement {
    /// The cells as far as they are filled.
    pub cells: Seq<BitPiece>,
    /// The row that is being filled, counted from 0.
    pub row: int,
    /// The column that comes next, counted from 0.
    pub col: int,
}

/// The placement before anything is read: an empty board, to be filled
/// from the a-file of the eighth rank.
pub open spec fn empty_placement() -> Placement {
    Placement { cells: Seq::new(64, |i: int| BitPiece::spec_blank()), row: 7, col: 0 }
}

/// Reads one more character of a placement field: `/` goes to the start of
/// the rank below, a digit skips that many columns, a piece letter sets a
/// piece on the next column. Going below the first rank or past the eighth
/// column is an error, and so is any other character.
pub open spec fn place_step(st: Result<Placement, FenError>, c: char) -> Result<
    Placement,
    FenError,
> {
    match st {
        Err(e) => Err(e),
        Ok(p) => if c == '/' {
            if p.row == 0 {
                Err(FenError::Placement)
            } else {
                Ok(Placement { row: p.row - 1, col: 0, ..p })
            }
        } else if is_digit(c) {
            if p.col + digit_value(c) > 8 {
                Err(FenError::Placement)
            } else {
                Ok(Placement { col: p.col + digit_value(c), ..p })
            }
        } else {
            match BitPiece::spec_from_char(c) {
                Err(e) => Err(FenError::Piece(e)),
                Ok(piece) => if p.col > 7 {
                    Err(FenError::Placement)
                } else {
                    Ok(
                        Placement {
                            cells: p.cells.update(8 * p.row + p.col, piece),
                            col: p.col + 1,
                            ..p
                        },
                    )
                },
            }
        },
    }
}

/// What a placement field sets on the board.
pub open spec fn placed(text: Seq<char>) -> Result<Placement, FenError> {
    text.fold_left(
        Ok(empty_placement()),
        |st: Result<Placement, FenError>, c: char| place_step(st, c),
    )
}

/// The digit that stands for a run of empty cells; nothing for no run.
pub open spec fn run_text(run: nat) -> Seq<char> {
    if run > 0 {
        seq![digit_char(run)]
    } else {
        Seq::empty()
    }
}

/// The number of empty cells at the end of the first `count` cells of a row.
pub open spec fn pending_run(cells: Seq<BitPiece>, row: int, count: nat) -> nat
    decreases count,
{
    if count == 0 {
        0
    } else if cells[8 * row + count - 1].spec_is_blank() {
        pending_run(cells, row, (count - 1) as nat) + 1
    } else {
        0
    }
}

/// The text of the first `count` cells of a row, up to the last piece
/// among them: a letter for each piece, and a digit for each run of empty
/// cells before a piece.
pub open spec fn row_prefix(cells: Seq<BitPiece>, row: int, count: nat) -> Seq<char>
    decreases count,
{
    if count == 0 {
        Seq::empty()
    } else if cells[8 * row + count - 1].spec_is_blank() {
        row_prefix(cells, row, (count - 1) as nat)
    } else {
        (row_prefix(cells, row, (count - 1) as nat) + run_text(
            pending_run(cells, row, (count - 1) as nat),
        )).push(cells[8 * row + count - 1].spec_letter())
    }
}

/// The text of a row: a letter for each piece, a digit for each run of
/// empty cells.
pub open spec fn row_text(cells: Seq<BitPiece>, row: int) -> Seq<char> {
    row_prefix(cells, row, 8) + run_text(pending_run(cells, row, 8))
}

/// The text of the rows from the eighth rank down to the row `row`,
/// separated by `/`.
pub open spec fn rows_text(cells: Seq<BitPiece>, row: int) -> Seq<char>
    decreases 8 - row,
{
    if row >= 7 {
        row_text(cells, 7)
    } else {
        (rows_text(cells, row + 1).push('/')) + row_text(cells, row)
    }
}

/// The placement field of a board: its rows from the eighth rank to the first.
pub open spec fn placement_text(cells: Seq<BitPiece>) -> Seq<char> {
    rows_text(cells, 0)
}

/// The side that a turn field names.
pub open spec fn turn_of(text: Seq<char>) -> Result<Color, FenError> {
    if text == seq!['w'] {
        Ok(Color::White)
    } else if text == seq!['b'] {
        Ok(Color::Black)
    } else {
        Err(FenError::Turn)
    }
}

/// The castling right that a letter stands for, as a bit; 0 for any other character.
pub open spec fn right_of(c: char) -> u8 {
    if c == 'K' {
        0b1000
    } else if c == 'Q' {
        0b0100
    } else if c == 'k' {
        0b0010
    } else if c == 'q' {
        0b0001
    } else {
        0
    }
}

/// Reads one more letter of a castling field.
pub open spec fn rights_step(st: Result<u8, FenError>, c: char) -> Result<u8, FenError> {
    match st {
        Err(e) => Err(e),
        Ok(rights) => if right_of(c) == 0 {
            Err(FenError::Castling)
        } else {
            Ok(rights | right_of(c))
        },
    }
}

/// The castling rights that a castling field names: none for `-`,
/// otherwise the rights of its letters.
pub open spec fn rights_of(text: Seq<char>) -> Result<u8, FenError> {
    if text == seq!['-'] {
        Ok(0)
    } else {
        text.fold_left(Ok(0u8), |st: Result<u8, FenError>, c: char| rights_step(st, c))
    }
}

/// The letter of a castling right, if the right is set.
pub open spec fn right_text(rights: u8, bit: u8, letter: char) -> Seq<char> {
    if rights & bit != 0 {
        seq![letter]
    } else {
        Seq::empty()
    }
}

/// The castling field of castling rights: `-` for none, otherwise the
/// letters of the rights that are set, in the order `KQkq`.
pub open spec fn rights_text(rights: u8) -> Seq<char> {
    if rights & 0b1111 == 0 {
        seq!['-']
    } else {
        right_text(rights, 0b1000, 'K') + right_text(rights, 0b0100, 'Q') + right_text(
            rights,
            0b0010,
            'k',
        ) + right_text(rights, 0b0001, 'q')
    }
}

/// The en-passant target that an en-passant field names: none for `-`,
/// otherwise the square of its text.
pub open spec fn target_of(text: Seq<char>) -> Result<Option<Square>, FenError> {
    if text == seq!['-'] {
        Ok(None)
    } else {
        match Square::spec_parse(text) {
            Ok(s) => Ok(Some(s)),
            Err(_) => Err(FenError::EnPassant),
        }
    }
}

/// The en-passant field of an en-passant target.
pub open spec fn target_text(target: Option<Square>) -> Seq<char> {
    match target {
        Some(s) => s.spec_text(),
        None => seq!['-'],
    }
}

/// The halfmove clock that a field names: a number that is at most 100.
pub open spec fn clock_of(text: Seq<char>) -> Result<u8, FenError> {
    match number_of(text, 100) {
        Some(n) => Ok(n as u8),
        None => Err(FenError::HalfmoveClock),
    }
}

/// The fullmove number that a field names: a number from 1 to 65535.
pub open spec fn fullmove_of(text: Seq<char>) -> Result<u16, FenError> {
    match number_of(text, 65535) {
        Some(n) => if n == 0 {
            Err(FenError::FullmoveNumber)
        } else {
            Ok(n as u16)
        },
        None => Err(FenError::FullmoveNumber),
    }
}

/// The texts of a list of words.
pub open spec fn words(list: Seq<Vec<char>>) -> Seq<Seq<char>> {
    list.map_values(|w: Vec<char>| w@)
}

/// The position that a position text describes: six fields separated by
/// white space, which give the placement of the pieces, the side to move,
/// the castling rights, the en-passant target, the halfmove clock and the
/// fullmove number. No piece of it has moved, the game is ongoing, and its
/// history is empty. The error is that of the first field that is
/// malformed.
pub open spec fn parse_fen(text: Seq<char>) -> Result<Position, FenError> {
    let f = fields(text);
    if f.len() != 6 {
        Err(FenError::FieldCount)
    } else if placed(f[0]) is Err {
        Err(placed(f[0])->Err_0)
    } else if turn_of(f[1]) is Err {
        Err(turn_of(f[1])->Err_0)
    } else if rights_of(f[2]) is Err {
        Err(rights_of(f[2])->Err_0)
    } else if target_of(f[3]) is Err {
        Err(target_of(f[3])->Err_0)
    } else if clock_of(f[4]) is Err {
        Err(clock_of(f[4])->Err_0)
    } else if fullmove_of(f[5]) is Err {
        Err(fullmove_of(f[5])->Err_0)
    } else {
        Ok(
            Position {
                cells: placed(f[0])->Ok_0.cells,
                turn: turn_of(f[1])->Ok_0,
                status: BoardStatus::Ongoing,
                castling: rights_of(f[2])->Ok_0,
                en_passant: target_of(f[3])->Ok_0,
                halfmove_clock: clock_of(f[4])->Ok_0,
                fullmove_number: fullmove_of(f[5])->Ok_0,
                history: Seq::empty(),
            },
        )
    }
}

/// The position text of a position: its six fields, separated by single
/// spaces. White pieces are written in upper case, black pieces in lower
/// case.
pub open spec fn render_fen(pos: Position) -> Seq<char> {
    placement_text(pos.cells).push(' ').push(pos.turn.spec_letter()).push(' ') + rights_text(
        pos.castling,
    ).push(' ') + target_text(pos.en_passant).push(' ') + decimal(
        pos.halfmove_clock as nat,
    ).push(' ') + decimal(pos.fullmove_number as nat)
}

/// Whether a character is white space.
pub fn is_separator(c: char) -> (r: bool)
    ensures
        r == is_space(c),
{
    let n: u32 = c as u32;
    (0x09 <= n && n <= 0x0D) || n == 0x20 || n == 0x85 || n == 0xA0 || n == 0x1680 || (0x2000 <= n
        && n <= 0x200A) || n == 0x2028 || n == 0x2029 || n == 0x202F || n == 0x205F || n
        == 0x3000
}

/// Splits a text into its fields.
pub fn split_fields(text: &Vec<char>) -> (r: Vec<Vec<char>>)
    ensures
        words(r@) == fields(text@),
{
    let ghost step = |st: Split, c: char| split_step(st, c);
    let ghost start = Split { done: Seq::empty(), word: Seq::empty() };
    let mut done: Vec<Vec<char>> = Vec::new();
    let mut word: Vec<char> = Vec::new();
    let mut i: usize = 0;
    assert(words(done@) =~= Seq::<Seq<char>>::empty());
    while i < text.len()
        invariant
            i <= text.len(),
            step == |st: Split, c: char| split_step(st, c),
            start == (Split { done: Seq::empty(), word: Seq::empty() }),
            text@.take(i as int).fold_left(start, step) == (Split {
                done: words(done@),
                word: word@,
            }),
        decreases text.len() - i,
    {
        let c = text[i];
        proof {
            assert(text@.take(i + 1).drop_last() =~= text@.take(i as int));
        }
        let ghost before = words(done@);
        if is_separator(c) {
            if word.len() > 0 {
                let ghost w = word@;
                done.push(word);
                word = Vec::new();
                assert(words(done@) =~= before.push(w));
            }
        } else {
            word.push(c);
        }
        i += 1;
    }
    assert(text@.take(text.len() as int) =~= text@);
    let ghost before = words(done@);
    if word.len() > 0 {
        let ghost w = word@;
        done.push(word);
        assert(words(done@) =~= before.push(w));
    }
    done
}

/// The value of a decimal digit, if the character is one.
pub fn digit_of(c: char) -> (r: Option<u8>)
    ensures
        is_digit(c) ==> r == Some(digit_value(c) as u8) && digit_value(c) <= 9,
        !is_digit(c) ==> r is None,
{
    if '0' <= c && c <= '9' {
        Some((c as u32 - '0' as u32) as u8)
    } else {
        None
    }
}

/// The decimal digit of a value below ten.
pub fn digit_to_char(d: u8) -> (r: char)
    requires
        d < 10,
    ensures
        r == digit_char(d as nat),
{
    if d == 0 {
        '0'
    } else if d == 1 {
        '1'
    } else if d == 2 {
        '2'
    } else if d == 3 {
        '3'
    } else if d == 4 {
        '4'
    } else if d == 5 {
        '5'
    } else if d == 6 {
        '6'
    } else if d == 7 {
        '7'
    } else if d == 8 {
        '8'
    } else {
        '9'
    }
}

/// A number grows with each digit that is appended to it.
pub proof fn lemma_digits_value_grows(s: Seq<char>, k: int)
    requires
        0 <= k <= s.len(),
    ensures
        digits_value(s.take(k)) <= digits_value(s),
    decreases s.len() - k,
{
    if k < s.len() {
        lemma_digits_value_grows(s, k + 1);
        assert(s.take(k + 1).drop_last() =~= s.take(k));
    } else {
        assert(s.take(k) =~= s);
    }
}

/// Reads a number of at most `max` from a text.
pub fn parse_number(text: &Vec<char>, max: u16) -> (r: Option<u16>)
    ensures
        match number_of(text@, max as nat) {
            Some(n) => r == Some(n as u16),
            None => r is None,
        },
{
    let start: usize = if text.len() > 0 && text[0] == '+' {
        1
    } else {
        0
    };
    let ghost body = unsigned_part(text@);
    assert(body =~= text@.skip(start as int));
    if start == text.len() {
        return None;
    }
    let mut value: u32 = 0;
    let mut i: usize = start;
    while i < text.len()
        invariant
            start <= i <= text.len(),
            body == text@.skip(start as int),
            body == unsigned_part(text@),
            all_digits(body.take(i - start)),
            value == digits_value(body.take(i - start)),
            value <= max,
        decreases text.len() - i,
    {
        let ghost k = i - start;
        proof {
            assert(body.take(k + 1).drop_last() =~= body.take(k));
            assert(body.take(k + 1).last() == text@[i as int]);
        }
        let d = match digit_of(text[i]) {
            Some(d) => d,
            None => {
                assert(!is_digit(body[k]));
                return None;
            },
        };
        value = value * 10 + d as u32;
        assert(value == digits_value(body.take(k + 1)));
        if value > max as u32 {
            proof {
                lemma_digits_value_grows(body, k + 1);
            }
            return None;
        }
        i += 1;
        assert forall|j: int| 0 <= j < body.take(i - start).len() implies is_digit(
            #[trigger] body.take(i - start)[j],
        ) by {
            if j < k {
                assert(body.take(k)[j] == body[j]);
            }
        }
    }
    assert(body.take(text.len() - start) =~= body);
    Some(value as u16)
}

/// Appends the decimal digits of a number.
pub fn push_decimal(out: &mut Vec<char>, n: u16)
    ensures
        final(out)@ == old(out)@ + decimal(n as nat),
    decreases n,
{
    if n >= 10 {
        push_decimal(out, n / 10);
    }
    out.push(digit_to_char((n % 10) as u8));
    assert(out@ =~= old(out)@ + decimal(n as nat));
}

/// Reads the placement field of a position text.
pub fn parse_placement(text: &Vec<char>) -> (r: Result<[BitPiece; 64], FenError>)
    ensures
        match placed(text@) {
            Ok(p) => r is Ok && r->Ok_0@ == p.cells,
            Err(e) => r is Err && r->Err_0 == e,
        },
{
    let ghost step = |st: Result<Placement, FenError>, c: char| place_step(st, c);
    let mut cells = [BitPiece::new_blank();64];
    let mut row: usize = 7;
    let mut col: usize = 0;
    let mut i: usize = 0;
    assert(cells@ =~= empty_placement().cells);
    while i < text.len()
        invariant
            i <= text.len(),
            row <= 7,
            col <= 8,
            step == |st: Result<Placement, FenError>, c: char| place_step(st, c),
            text@.take(i as int).fold_left(Ok(empty_placement()), step) == Ok::<
                Placement,
                FenError,
            >(Placement { cells: cells@, row: row as int, col: col as int }),
        ensures
            i == text.len(),
        decreases text.len() - i,
    {
        let c = text[i];
        proof {
            assert(text@.take(i + 1).drop_last() =~= text@.take(i as int));
            assert(text@ =~= text@.take(i + 1) + text@.skip(i + 1));
            lemma_placement_error_stays(text@.take(i + 1), text@.skip(i + 1));
        }
        if c == '/' {
            if row == 0 {
                return Err(FenError::Placement);
            }
            row -= 1;
            col = 0;
        } else if let Some(d) = digit_of(c) {
            if col + d as usize > 8 {
                return Err(FenError::Placement);
            }
            col += d as usize;
        } else {
            let piece = match BitPiece::from_char(c) {
                Ok(piece) => piece,
                Err(e) => {
                    return Err(FenError::Piece(e));
                },
            };
            if col > 7 {
                return Err(FenError::Placement);
            }
            cells[8 * row + col] = piece;
            col += 1;
        }
        i += 1;
    }
    assert(text@.take(text.len() as int) =~= text@);
    Ok(cells)
}

/// Once a placement field has run into an error, the error stays whatever follows.
pub proof fn lemma_placement_error_stays(head: Seq<char>, tail: Seq<char>)
    ensures
        placed(head) is Err ==> placed(head + tail) == placed(head),
    decreases tail.len(),
{
    if tail.len() == 0 {
        assert(head + tail =~= head);
    } else {
        lemma_placement_error_stays(head, tail.drop_last());
        assert((head + tail).drop_last() =~= head + tail.drop_last());
    }
}

/// Appends the placement field of a board.
pub fn push_placement(out: &mut Vec<char>, cells: &[BitPiece; 64])
    ensures
        final(out)@ == old(out)@ + placement_text(cells@),
{
    let mut done: usize = 0;
    while done < 8
        invariant
            done <= 8,
            done == 0 ==> out@ == old(out)@,
            done > 0 ==> out@ == old(out)@ + rows_text(cells@, 8 - done),
        decreases 8 - done,
    {
        let row: usize = 7 - done;
        if done > 0 {
            out.push('/');
        }
        let ghost base = out@;
        let mut run: u8 = 0;
        let mut col: usize = 0;
        while col < 8
            invariant
                col <= 8,
                row <= 7,
                run == pending_run(cells@, row as int, col as nat),
                run <= col,
                out@ == base + row_prefix(cells@, row as int, col as nat),
            decreases 8 - col,
        {
            let p = cells[8 * row + col];
            if p.is_blank() {
                run += 1;
            } else {
                if run > 0 {
                    out.push(digit_to_char(run));
                }
                out.push(p.letter());
                run = 0;
            }
            col += 1;
            assert(out@ =~= base + row_prefix(cells@, row as int, col as nat));
        }
        if run > 0 {
            out.push(digit_to_char(run));
        }
        assert(out@ =~= base + row_text(cells@, row as int));
        done += 1;
        assert(out@ =~= old(out)@ + rows_text(cells@, 8 - done));
    }
}

/// Reads the turn field of a position text.
pub fn parse_turn(text: &Vec<char>) -> (r: Result<Color, FenError>)
    ensures
        r == turn_of(text@),
{
    if text.len() == 1 && text[0] == 'w' {
        assert(text@ =~= seq!['w']);
        Ok(Color::White)
    } else if text.len() == 1 && text[0] == 'b' {
        assert(text@ =~= seq!['b']);
        Ok(Color::Black)
    } else {
        assert(text@ != seq!['w'] && text@ != seq!['b']) by {
            if text@ == seq!['w'] {
                assert(text@.len() == 1 && text@[0] == 'w');
            }
            if text@ == seq!['b'] {
                assert(text@.len() == 1 && text@[0] == 'b');
            }
        }
        Err(FenError::Turn)
    }
}

/// Whether a text is a single `-`.
pub fn is_dash(text: &Vec<char>) -> (r: bool)
    ensures
        r == (text@ == seq!['-']),
{
    if text.len() == 1 && text[0] == '-' {
        assert(text@ =~= seq!['-']);
        true
    } else {
        assert(text@ != seq!['-']) by {
            if text@ == seq!['-'] {
                assert(text@.len() == 1 && text@[0] == '-');
            }
        }
        false
    }
}

/// Once a castling field has run into an error, the error stays whatever follows.
pub proof fn lemma_rights_error_stays(head: Seq<char>, tail: Seq<char>)
    ensures
        head.fold_left(Ok(0u8), |st: Result<u8, FenError>, c: char| rights_step(st, c)) is Err
            ==> (head + tail).fold_left(
            Ok(0u8),
            |st: Result<u8, FenError>, c: char| rights_step(st, c),
        ) == head.fold_left(Ok(0u8), |st: Result<u8, FenError>, c: char| rights_step(st, c)),
    decreases tail.len(),
{
    if tail.len() == 0 {
        assert(head + tail =~= head);
    } else {
        lemma_rights_error_stays(head, tail.drop_last());
        assert((head + tail).drop_last() =~= head + tail.drop_last());
    }
}

/// Reads the castling field of a position text.
pub fn parse_rights(text: &Vec<char>) -> (r: Result<u8, FenError>)
    ensures
        r == rights_of(text@),
{
    if is_dash(text) {
        return Ok(0);
    }
    let ghost step = |st: Result<u8, FenError>, c: char| rights_step(st, c);
    let mut rights: u8 = 0;
    let mut i: usize = 0;
    while i < text.len()
        invariant
            i <= text.len(),
            text@ != seq!['-'],
            step == |st: Result<u8, FenError>, c: char| rights_step(st, c),
            text@.take(i as int).fold_left(Ok(0u8), step) == Ok::<u8, FenError>(rights),
        decreases text.len() - i,
    {
        let c = text[i];
        proof {
            assert(text@.take(i + 1).drop_last() =~= text@.take(i as int));
            assert(text@ =~= text@.take(i + 1) + text@.skip(i + 1));
            lemma_rights_error_stays(text@.take(i + 1), text@.skip(i + 1));
        }
        let bit: u8 = if c == 'K' {
            0b1000
        } else if c == 'Q' {
            0b0100
        } else if c == 'k' {
            0b0010
        } else if c == 'q' {
            0b0001
        } else {
            return Err(FenError::Castling);
        };
        rights = rights | bit;
        i += 1;
    }
    assert(text@.take(text.len() as int) =~= text@);
    Ok(rights)
}

/// Appends the castling field of castling rights.
pub fn push_rights(out: &mut Vec<char>, rights: u8)
    ensures
        final(out)@ == old(out)@ + rights_text(rights),
{
    if rights & 0b1111 == 0 {
        out.push('-');
    } else {
        if rights & 0b1000 != 0 {
            out.push('K');
        }
        if rights & 0b0100 != 0 {
            out.push('Q');
        }
        if rights & 0b0010 != 0 {
            out.push('k');
        }
        if rights & 0b0001 != 0 {
            out.push('q');
        }
    }
    assert(out@ =~= old(out)@ + rights_text(rights));
}

/// Reads the en-passant field of a position text.
pub fn parse_target(text: &Vec<char>) -> (r: Result<Option<Square>, FenError>)
    ensures
        r == target_of(text@),
{
    if is_dash(text) {
        return Ok(None);
    }
    if text.len() != 2 {
        return Err(FenError::EnPassant);
    }
    assert(text@ =~= seq![text@[0], text@[1]]);
    match Square::from_chars(text[0], text[1]) {
        Ok(s) => Ok(Some(s)),
        Err(_) => Err(FenError::EnPassant),
    }
}

/// Appends the en-passant field of an en-passant target.
pub fn push_target(out: &mut Vec<char>, target: Option<Square>)
    ensures
        final(out)@ == old(out)@ + target_text(target),
{
    match target {
        Some(s) => {
            out.push(s.file());
            out.push(crate::square::rank_char(s.rank() - 1));
        },
        None => {
            out.push('-');
        },
    }
    assert(out@ =~= old(out)@ + target_text(target));
}

/// Reads the halfmove clock of a position text.
pub fn parse_clock(text: &Vec<char>) -> (r: Result<u8, FenError>)
    ensures
        r == clock_of(text@),
{
    match parse_number(text, 100) {
        Some(n) => Ok(n as u8),
        None => Err(FenError::HalfmoveClock),
    }
}

/// Reads the fullmove number of a position text.
pub fn parse_fullmove(text: &Vec<char>) -> (r: Result<u16, FenError>)
    ensures
        r == fullmove_of(text@),
{
    match parse_number(text, 65535) {
        Some(n) => if n == 0 {
            Err(FenError::FullmoveNumber)
        } else {
            Ok(n)
        },
        None => Err(FenError::FullmoveNumber),
    }
}

} // verus!
