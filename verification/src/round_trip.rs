//! Reading the position text of a board gives the board back.

use crate::bitpiece::{lemma_letter_round_trip, BitPiece};
use crate::board::BoardStatus;
use crate::color::Color;
use crate::error::FenError;
use crate::fen::{
    empty_placement, fields, is_space, parse_fen, pending_run, place_step, placed, placement_text,
    render_fen, row_prefix, row_text, rows_text, run_text, split_step, Placement, Split,
    all_digits, clock_of, decimal, digit_char, digit_value, digits_value, fullmove_of, is_digit,
    number_of, right_of, right_text, rights_of, rights_step, rights_text, target_of, target_text,
    turn_of, unsigned_part,
};
use crate::position::Position;
use crate::square::{lemma_square_text_round_trip, Square};
use vstd::prelude::*;

verus! {

/// The digits of a number are digits, there is at least one of them, and
/// they stand for the number.
pub proof fn lemma_decimal_round_trip(n: nat)
    ensures
        decimal(n).len() >= 1,
        all_digits(decimal(n)),
        digits_value(decimal(n)) == n,
    decreases n,
{
    if n < 10 {
        assert(decimal(n).drop_last() =~= Seq::<char>::empty());
        assert(digits_value(decimal(n).drop_last()) == 0);
        assert(digit_value(digit_char(n)) == n);
    } else {
        lemma_decimal_round_trip(n / 10);
        let head = decimal(n / 10);
        let d = digit_char(n % 10);
        assert(decimal(n) == head.push(d));
        assert(head.push(d).drop_last() =~= head);
        assert(digit_value(d) == n % 10);
        assert forall|i: int| 0 <= i < decimal(n).len() implies is_digit(#[trigger] decimal(n)[i]) by {
            if i < head.len() {
                assert(decimal(n)[i] == head[i]);
            }
        }
    }
}

/// Reading the digits of a number gives the number back.
pub proof fn lemma_number_round_trip(n: nat, max: nat)
    requires
        n <= max,
    ensures
        number_of(decimal(n), max) == Some(n),
{
    lemma_decimal_round_trip(n);
    assert(is_digit(decimal(n)[0]));
    assert(unsigned_part(decimal(n)) == decimal(n));
}

/// Reading the text of castling rights gives the rights back.
pub proof fn lemma_rights_round_trip(rights: u8)
    requires
        rights < 16,
    ensures
        rights_of(rights_text(rights)) == Ok::<u8, FenError>(rights),
{
    let f = |st: Result<u8, FenError>, c: char| rights_step(st, c);
    let none = Seq::<char>::empty();
    if rights & 0b1111 == 0 {
        assert(rights == 0) by (bit_vector)
            requires
                rights < 16,
                rights & 0b1111 == 0,
        ;
    } else {
        let t1 = right_text(rights, 0b1000, 'K');
        let t2 = t1 + right_text(rights, 0b0100, 'Q');
        let t3 = t2 + right_text(rights, 0b0010, 'k');
        let t4 = t3 + right_text(rights, 0b0001, 'q');
        let a1: u8 = rights & 0b1000;
        let a2: u8 = a1 | (rights & 0b0100);
        let a3: u8 = a2 | (rights & 0b0010);
        let a4: u8 = a3 | (rights & 0b0001);
        assert(a4 == rights && (a1 == 0 || a1 == 8) && (rights & 0b0100 == 0 || rights & 0b0100
            == 4) && (rights & 0b0010 == 0 || rights & 0b0010 == 2) && (rights & 0b0001 == 0
            || rights & 0b0001 == 1) && 0u8 | a1 == a1) by (bit_vector)
            requires
                rights < 16,
                a1 == rights & 0b1000,
                a2 == a1 | (rights & 0b0100),
                a3 == a2 | (rights & 0b0010),
                a4 == a3 | (rights & 0b0001),
        ;
        assert(forall|x: u8| #![trigger x | 0u8] x | 0u8 == x) by (bit_vector);
        assert(none.fold_left(Ok(0u8), f) == Ok::<u8, FenError>(0));
        assert(t1.fold_left(Ok(0u8), f) == Ok::<u8, FenError>(a1)) by {
            if rights & 0b1000 != 0 {
                assert(t1.drop_last() =~= none);
            }
        }
        assert(t2.fold_left(Ok(0u8), f) == Ok::<u8, FenError>(a2)) by {
            if rights & 0b0100 != 0 {
                assert(t2.drop_last() =~= t1);
            } else {
                assert(t2 =~= t1);
            }
        }
        assert(t3.fold_left(Ok(0u8), f) == Ok::<u8, FenError>(a3)) by {
            if rights & 0b0010 != 0 {
                assert(t3.drop_last() =~= t2);
            } else {
                assert(t3 =~= t2);
            }
        }
        assert(t4.fold_left(Ok(0u8), f) == Ok::<u8, FenError>(a4)) by {
            if rights & 0b0001 != 0 {
                assert(t4.drop_last() =~= t3);
            } else {
                assert(t4 =~= t3);
            }
        }
        assert(rights_text(rights) =~= t4);
        assert(t4 != seq!['-']) by {
            if t4 == seq!['-'] {
                assert(t4.len() == 1);
                assert(t4[0] == '-');
                assert(right_of(t4[0]) != 0);
            }
        }
    }
}

/// Reading the text of an en-passant target gives the target back.
pub proof fn lemma_target_round_trip(target: Option<Square>)
    requires
        target matches Some(s) ==> s.wf(),
    ensures
        target_of(target_text(target)) == Ok::<Option<Square>, FenError>(target),
{
    match target {
        Some(s) => {
            lemma_square_text_round_trip(s);
            assert(s.spec_text().len() == 2);
            assert(seq!['-'].len() == 1);
        },
        None => {},
    }
}

/// Reading the letter of a side gives the side back.
pub proof fn lemma_turn_round_trip(turn: Color)
    ensures
        turn_of(seq![turn.spec_letter()]) == Ok::<Color, FenError>(turn),
{
    assert(seq!['w'][0] == 'w');
    assert(seq!['b'][0] == 'b');
    if turn == Color::Black {
        assert(seq!['b'] != seq!['w']) by {
            assert(seq!['b'][0] != seq!['w'][0]);
        }
    }
}

/// Reading the digits of a halfmove clock of at most 100, or of a fullmove
/// number of at least 1, gives the number back.
pub proof fn lemma_clocks_round_trip(halfmove: u8, fullmove: u16)
    ensures
        halfmove <= 100 ==> clock_of(decimal(halfmove as nat)) == Ok::<u8, FenError>(halfmove),
        fullmove >= 1 ==> fullmove_of(decimal(fullmove as nat)) == Ok::<u16, FenError>(fullmove),
{
    if halfmove <= 100 {
        lemma_number_round_trip(halfmove as nat, 100);
    }
    lemma_number_round_trip(fullmove as nat, 65535);
}

/// The cells as a position text holds them: each with the kind and the
/// colour of its occupant, and nothing else.
pub open spec fn unmoved_cells(cells: Seq<BitPiece>) -> Seq<BitPiece> {
    Seq::new(cells.len(), |i: int| cells[i].spec_unmoved())
}

/// Whether a board that is being filled holds what a placement text has
/// said so far of the cells `cells`: the rows above `row` and the first
/// `count` cells of `row`; the rest of it is empty.
pub open spec fn filled(part: Seq<BitPiece>, cells: Seq<BitPiece>, row: int, count: int) -> bool {
    &&& part.len() == 64
    &&& forall|i: int|
        0 <= i < 64 ==> #[trigger] part[i] == (if i >= 8 * row + 8 || (8 * row <= i < 8 * row
            + count) {
            cells[i].spec_unmoved()
        } else {
            BitPiece::spec_blank()
        })
}

/// Whether every cell is well formed, and there are 64 of them.
pub open spec fn cells_wf(cells: Seq<BitPiece>) -> bool {
    &&& cells.len() == 64
    &&& forall|i: int| 0 <= i < 64 ==> (#[trigger] cells[i]).wf()
}

/// Reading one more character of a placement.
proof fn lemma_placed_push(text: Seq<char>, c: char)
    ensures
        placed(text.push(c)) == place_step(placed(text), c),
{
    assert(text.push(c).drop_last() =~= text);
}

/// What reading the start of a row's text sets on the board.
proof fn lemma_row_prefix_placed(cells: Seq<BitPiece>, lead: Seq<char>, row: int, count: nat)
    requires
        cells_wf(cells),
        0 <= row <= 7,
        count <= 8,
        placed(lead) is Ok,
        placed(lead)->Ok_0.row == row,
        placed(lead)->Ok_0.col == 0,
        filled(placed(lead)->Ok_0.cells, cells, row, 0),
    ensures
        pending_run(cells, row, count) <= count,
        placed(lead + row_prefix(cells, row, count)) is Ok,
        placed(lead + row_prefix(cells, row, count))->Ok_0.row == row,
        placed(lead + row_prefix(cells, row, count))->Ok_0.col == count - pending_run(
            cells,
            row,
            count,
        ),
        filled(placed(lead + row_prefix(cells, row, count))->Ok_0.cells, cells, row, count as int),
    decreases count,
{
    if count == 0 {
        assert(lead + row_prefix(cells, row, count) =~= lead);
    } else {
        let before = (count - 1) as nat;
        lemma_row_prefix_placed(cells, lead, row, before);
        let index = 8 * row + count - 1;
        let cell = cells[index];
        let run = pending_run(cells, row, before);
        let head = lead + row_prefix(cells, row, before);
        let p = placed(head)->Ok_0;
        assert(cell.wf());
        if cell.spec_is_blank() {
            assert(cell.spec_unmoved() == BitPiece::spec_blank());
        } else {
            lemma_letter_round_trip(cell);
            let letter = cell.spec_letter();
            let flushed = head + run_text(run);
            assert(placed(flushed) == Ok::<Placement, FenError>(Placement { col: count - 1, ..p }))
                by {
                if run > 0 {
                    let d = digit_char(run);
                    assert(is_digit(d) && digit_value(d) == run && d != '/');
                    assert(flushed =~= head.push(d));
                    lemma_placed_push(head, d);
                } else {
                    assert(flushed =~= head);
                }
            }
            lemma_placed_push(flushed, letter);
            assert(lead + row_prefix(cells, row, count) =~= flushed.push(letter));
            assert(!is_digit(letter) && letter != '/');
            let after = placed(flushed.push(letter))->Ok_0;
            assert(after.cells == p.cells.update(index, cell.spec_unmoved()));
        }
    }
}

/// What reading a row's text sets on the board.
proof fn lemma_row_placed(cells: Seq<BitPiece>, lead: Seq<char>, row: int)
    requires
        cells_wf(cells),
        0 <= row <= 7,
        placed(lead) is Ok,
        placed(lead)->Ok_0.row == row,
        placed(lead)->Ok_0.col == 0,
        filled(placed(lead)->Ok_0.cells, cells, row, 0),
    ensures
        placed(lead + row_text(cells, row)) is Ok,
        placed(lead + row_text(cells, row))->Ok_0.row == row,
        placed(lead + row_text(cells, row))->Ok_0.col == 8,
        filled(placed(lead + row_text(cells, row))->Ok_0.cells, cells, row, 8),
{
    lemma_row_prefix_placed(cells, lead, row, 8);
    let head = lead + row_prefix(cells, row, 8);
    let run = pending_run(cells, row, 8);
    if run > 0 {
        let d = digit_char(run);
        assert(is_digit(d) && digit_value(d) == run && d != '/');
        assert(lead + row_text(cells, row) =~= head.push(d));
        lemma_placed_push(head, d);
    } else {
        assert(lead + row_text(cells, row) =~= head);
    }
}

/// What reading the text of the rows from the eighth rank down to a row
/// sets on the board.
proof fn lemma_rows_placed(cells: Seq<BitPiece>, row: int)
    requires
        cells_wf(cells),
        0 <= row <= 7,
    ensures
        placed(rows_text(cells, row)) is Ok,
        placed(rows_text(cells, row))->Ok_0.row == row,
        placed(rows_text(cells, row))->Ok_0.col == 8,
        filled(placed(rows_text(cells, row))->Ok_0.cells, cells, row, 8),
    decreases 8 - row,
{
    if row >= 7 {
        let lead = Seq::<char>::empty();
        assert(placed(lead) == Ok::<Placement, FenError>(empty_placement()));
        lemma_row_placed(cells, lead, 7);
        assert(lead + row_text(cells, 7) =~= rows_text(cells, row));
    } else {
        lemma_rows_placed(cells, row + 1);
        let above = rows_text(cells, row + 1);
        let lead = above.push('/');
        lemma_placed_push(above, '/');
        lemma_row_placed(cells, lead, row);
    }
}

/// Reading the placement text of a board gives its cells back, each with
/// the kind and the colour of its occupant.
pub proof fn lemma_placement_round_trip(cells: Seq<BitPiece>)
    requires
        cells_wf(cells),
    ensures
        placed(placement_text(cells)) is Ok,
        placed(placement_text(cells))->Ok_0.cells == unmoved_cells(cells),
{
    lemma_rows_placed(cells, 0);
    assert(placed(placement_text(cells))->Ok_0.cells =~= unmoved_cells(cells));
}

/// A placement text that can be read holds no white space.
pub proof fn lemma_placed_has_no_space(text: Seq<char>)
    requires
        placed(text) is Ok,
    ensures
        forall|i: int| 0 <= i < text.len() ==> !is_space(#[trigger] text[i]),
    decreases text.len(),
{
    if text.len() > 0 {
        let head = text.drop_last();
        assert(text =~= head.push(text.last()));
        lemma_placed_push(head, text.last());
        lemma_placed_has_no_space(head);
        assert forall|i: int| 0 <= i < text.len() implies !is_space(#[trigger] text[i]) by {
            if i < head.len() {
                assert(text[i] == head[i]);
            }
        }
    }
}

/// Whether a text can stand as a field: whether it is not empty and holds
/// no white space.
pub open spec fn is_word(text: Seq<char>) -> bool {
    &&& text.len() > 0
    &&& forall|i: int| 0 <= i < text.len() ==> !is_space(#[trigger] text[i])
}

/// What has been read of a text that is being split.
pub open spec fn split_of(text: Seq<char>) -> Split {
    text.fold_left(
        Split { done: Seq::empty(), word: Seq::empty() },
        |st: Split, c: char| split_step(st, c),
    )
}

/// Reading one more character of a text that is being split.
proof fn lemma_split_push(text: Seq<char>, c: char)
    ensures
        split_of(text.push(c)) == split_step(split_of(text), c),
{
    assert(text.push(c).drop_last() =~= text);
}

/// Characters that are not white space extend the field that is being read.
proof fn lemma_split_word(text: Seq<char>, word: Seq<char>)
    requires
        forall|i: int| 0 <= i < word.len() ==> !is_space(#[trigger] word[i]),
    ensures
        split_of(text + word) == (Split {
            done: split_of(text).done,
            word: split_of(text).word + word,
        }),
    decreases word.len(),
{
    if word.len() == 0 {
        assert(text + word =~= text);
        assert(split_of(text).word + word =~= split_of(text).word);
    } else {
        let head = word.drop_last();
        assert forall|i: int| 0 <= i < head.len() implies !is_space(#[trigger] head[i]) by {
            assert(head[i] == word[i]);
        }
        lemma_split_word(text, head);
        assert(text + word =~= (text + head).push(word.last()));
        lemma_split_push(text + head, word.last());
        assert((split_of(text).word + head).push(word.last()) =~= split_of(text).word + word);
    }
}

/// A field and the space behind it add the field to those that are complete.
proof fn lemma_split_field(text: Seq<char>, word: Seq<char>)
    requires
        is_word(word),
        split_of(text).word.len() == 0,
    ensures
        split_of(text + word) == (Split { done: split_of(text).done, word }),
        split_of((text + word).push(' ')) == (Split {
            done: split_of(text).done.push(word),
            word: Seq::empty(),
        }),
{
    lemma_split_word(text, word);
    assert(split_of(text).word + word =~= word);
    lemma_split_push(text + word, ' ');
}

/// The fields of six words that are joined by single spaces are the six words.
pub proof fn lemma_fields_of_six(
    a: Seq<char>,
    b: Seq<char>,
    c: Seq<char>,
    d: Seq<char>,
    e: Seq<char>,
    f: Seq<char>,
)
    requires
        is_word(a),
        is_word(b),
        is_word(c),
        is_word(d),
        is_word(e),
        is_word(f),
    ensures
        fields(a.push(' ') + b.push(' ') + c.push(' ') + d.push(' ') + e.push(' ') + f) == seq![
            a,
            b,
            c,
            d,
            e,
            f,
        ],
{
    let t0 = Seq::<char>::empty();
    let t1 = (t0 + a).push(' ');
    let t2 = (t1 + b).push(' ');
    let t3 = (t2 + c).push(' ');
    let t4 = (t3 + d).push(' ');
    let t5 = (t4 + e).push(' ');
    lemma_split_field(t0, a);
    lemma_split_field(t1, b);
    lemma_split_field(t2, c);
    lemma_split_field(t3, d);
    lemma_split_field(t4, e);
    lemma_split_field(t5, f);
    assert(a.push(' ') + b.push(' ') + c.push(' ') + d.push(' ') + e.push(' ') + f =~= t5 + f);
    assert(split_of(t5 + f).all() =~= seq![a, b, c, d, e, f]);
}

/// The text of castling rights can stand as a field.
proof fn lemma_rights_text_is_word(rights: u8)
    ensures
        is_word(rights_text(rights)),
{
    if rights & 0b1111 != 0 {
        assert(rights & 0b1000 != 0 || rights & 0b0100 != 0 || rights & 0b0010 != 0 || rights
            & 0b0001 != 0) by (bit_vector)
            requires
                rights & 0b1111 != 0,
        ;
        let t = rights_text(rights);
        assert forall|i: int| 0 <= i < t.len() implies !is_space(#[trigger] t[i]) by {
            let c = t[i];
            assert(c == 'K' || c == 'Q' || c == 'k' || c == 'q');
        }
    }
}

/// The text of an en-passant target can stand as a field.
proof fn lemma_target_text_is_word(target: Option<Square>)
    ensures
        is_word(target_text(target)),
{
}

/// The position that reading a position text gives back, of what the
/// position holds: the kind and the colour of each piece, the side to
/// move, the castling rights, the en-passant target and both clocks. No
/// piece has moved, the game is ongoing, and its history is empty.
pub open spec fn as_read(pos: Position) -> Position {
    Position {
        cells: unmoved_cells(pos.cells),
        status: BoardStatus::Ongoing,
        history: Seq::empty(),
        ..pos
    }
}

/// Whether a position text can hold all of a position: whether the pieces
/// carry no flag, the game is ongoing and its history is empty.
pub open spec fn is_fresh(pos: Position) -> bool {
    &&& forall|i: int| 0 <= i < pos.cells.len() ==> (#[trigger] pos.cells[i])@ < 16
    &&& pos.status == BoardStatus::Ongoing
    &&& pos.history.len() == 0
}

/// Reading the position text of a board gives back the position that the
/// text holds, for every board with castling rights of four bits, a
/// halfmove clock of at most 100 and a fullmove number of at least 1; and
/// that is the board itself where its pieces carry no flag, the game is
/// ongoing and the history is empty.
pub proof fn lemma_fen_round_trip(pos: Position)
    requires
        pos.wf(),
        pos.castling < 16,
        pos.halfmove_clock <= 100,
        pos.fullmove_number >= 1,
    ensures
        parse_fen(render_fen(pos)) == Ok::<Position, FenError>(as_read(pos)),
        is_fresh(pos) ==> parse_fen(render_fen(pos)) == Ok::<Position, FenError>(pos),
{
    let a = placement_text(pos.cells);
    let b = seq![pos.turn.spec_letter()];
    let c = rights_text(pos.castling);
    let d = target_text(pos.en_passant);
    let e = decimal(pos.halfmove_clock as nat);
    let f = decimal(pos.fullmove_number as nat);
    lemma_placement_round_trip(pos.cells);
    lemma_placed_has_no_space(a);
    assert(a.len() > 0);
    lemma_turn_round_trip(pos.turn);
    lemma_rights_round_trip(pos.castling);
    lemma_rights_text_is_word(pos.castling);
    lemma_target_round_trip(pos.en_passant);
    lemma_target_text_is_word(pos.en_passant);
    lemma_clocks_round_trip(pos.halfmove_clock, pos.fullmove_number);
    lemma_decimal_round_trip(pos.halfmove_clock as nat);
    lemma_decimal_round_trip(pos.fullmove_number as nat);
    lemma_fields_of_six(a, b, c, d, e, f);
    assert(render_fen(pos) =~= a.push(' ') + b.push(' ') + c.push(' ') + d.push(' ') + e.push(' ')
        + f);
    if is_fresh(pos) {
        assert forall|i: int| 0 <= i < 64 implies unmoved_cells(pos.cells)[i] == pos.cells[i] by {
            let cell = pos.cells[i];
            if !cell.spec_is_blank() {
                lemma_letter_round_trip(cell);
            } else {
                BitPiece::lemma_bits_of(cell);
                BitPiece::lemma_bits_of(BitPiece::spec_blank());
                BitPiece::lemma_of_bits(0);
            }
        }
        assert(unmoved_cells(pos.cells) =~= pos.cells);
        assert(pos.history =~= Seq::empty());
    }
}

/// What holds of a placement that is being read: it lies on the board,
/// and every cell that it has set is well formed and carries no flag.
pub open spec fn placement_ok(p: Placement) -> bool {
    &&& 0 <= p.row <= 7
    &&& 0 <= p.col <= 8
    &&& p.cells.len() == 64
    &&& forall|i: int| 0 <= i < 64 ==> (#[trigger] p.cells[i]).wf() && p.cells[i]@ < 16
}

/// A placement that can be read sets well-formed cells without flags.
proof fn lemma_placed_is_ok(text: Seq<char>)
    requires
        placed(text) is Ok,
    ensures
        placement_ok(placed(text)->Ok_0),
    decreases text.len(),
{
    BitPiece::lemma_of_bits(0);
    if text.len() == 0 {
        assert(placed(text) == Ok::<Placement, FenError>(empty_placement()));
    } else {
        let head = text.drop_last();
        let c = text.last();
        assert(text =~= head.push(c));
        lemma_placed_push(head, c);
        lemma_placed_is_ok(head);
        let before = placed(head)->Ok_0;
        let after = placed(text)->Ok_0;
        if c != '/' && !is_digit(c) {
            let piece = BitPiece::spec_from_char(c)->Ok_0;
            let kind = crate::piece::Piece::spec_from_char(c)->Ok_0;
            crate::bitpiece::lemma_new_unpacks(kind, Color::White, false);
            crate::bitpiece::lemma_new_unpacks(kind, Color::Black, false);
            assert forall|i: int| 0 <= i < 64 implies (#[trigger] after.cells[i]).wf()
                && after.cells[i]@ < 16 by {
                if i != 8 * before.row + before.col {
                    assert(after.cells[i] == before.cells[i]);
                }
            }
        }
    }
}

/// The rights that a castling field names are four bits.
proof fn lemma_rights_are_four_bits(text: Seq<char>)
    requires
        text.fold_left(Ok(0u8), |st: Result<u8, FenError>, c: char| rights_step(st, c)) is Ok,
    ensures
        text.fold_left(Ok(0u8), |st: Result<u8, FenError>, c: char| rights_step(st, c))->Ok_0
            < 16,
    decreases text.len(),
{
    if text.len() > 0 {
        lemma_rights_are_four_bits(text.drop_last());
        assert(forall|a: u8, b: u8| #![trigger a | b] a < 16 && b < 16 ==> a | b < 16)
            by (bit_vector);
    }
}

/// Every position that is read from a position text is one that a game
/// reaches, its halfmove clock is at most 100, and a position text can
/// hold all of it: writing its text and reading that gives it back.
pub proof fn lemma_parsed_is_sane(text: Seq<char>)
    requires
        parse_fen(text) is Ok,
    ensures
        parse_fen(text)->Ok_0.sane(),
        parse_fen(text)->Ok_0.halfmove_clock <= 100,
        is_fresh(parse_fen(text)->Ok_0),
        parse_fen(render_fen(parse_fen(text)->Ok_0)) == parse_fen(text),
{
    broadcast use Square::lemma_at_view;

    let f = fields(text);
    let pos = parse_fen(text)->Ok_0;
    lemma_placed_is_ok(f[0]);
    if f[2] != seq!['-'] {
        lemma_rights_are_four_bits(f[2]);
    }
    lemma_fen_round_trip(pos);
}

} // verus!
