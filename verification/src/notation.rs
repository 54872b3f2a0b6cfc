//! Moves in short algebraic notation.
//!
//! A text is matched against the grammar's regular expression by the
//! `regex` crate. What the match captured is then read and checked here:
//! each capture group must hold what its place in the grammar asks for, and
//! the notation that is read must write the very text that was matched. So a
//! text that is read as a notation is known to follow the grammar, and the
//! notation is the only one of the grammar that writes it; only that every
//! text of the grammar is matched rests on the search of the expression.

use crate::color::Color;
use crate::piece::Piece;
use crate::square::{
    file_index, file_letter, file_number, is_file_letter, is_rank_digit, rank_digit, rank_index,
    rank_number, Square,
};
use crate::text::chars_of;
use vstd::prelude::*;

verus! {

/// The grammar of a move in short algebraic notation, as a regular
/// expression: an optional origin file or rank, an optional piece letter,
/// an optional `x` for a capture, the destination square, and an optional
/// `=` with the letter of the piece that a pawn becomes.
pub const PATTERN: &'static str =
    "^(?<from>([a-h]|[1-8]))?(?<piece>[kqbnrpKQBNRP])?(?<capture>x)?(?<to>[a-h][1-8])(?<promote>=[qnbrQNBR])?$";

/// The number of capture groups of `PATTERN`, the whole match included.
pub const GROUP_COUNT: usize = 7;

/// The index of the capture group of the origin.
pub const GROUP_FROM: usize = 1;

/// The index of the capture group of the piece letter.
pub const GROUP_PIECE: usize = 3;

/// The index of the capture group of the capture mark.
pub const GROUP_CAPTURE: usize = 4;

/// The index of the capture group of the destination.
pub const GROUP_TO: usize = 5;

/// The index of the capture group of the promotion.
pub const GROUP_PROMOTE: usize = 6;

/// What the first match of a regular expression in a text captures: for
/// each capture group of the expression, in the order of their opening
/// parentheses and with the whole match first, the text that the group
/// matched, if it took part in the match. `None` where the expression does
/// not compile or matches nowhere in the text.
pub uninterp spec fn regex_captures(pattern: Seq<char>, text: Seq<char>) -> Option<
    Seq<Option<Seq<char>>>,
>;

/// Compiles `pattern` with `regex::Regex::new`, searches `text` with
/// `Regex::captures` and lists the groups with `Captures::iter`, each as
/// the text of its `Match`. The contract claims only that the outcome is
/// the one that `regex_captures` names: that it depends on the pattern and
/// the text alone.
#[verifier::external_body]
fn captures(pattern: &str, text: &str) -> (r: Option<Vec<Option<String>>>)
    ensures
        r.deep_view() == regex_captures(pattern@, text@),
{
    let re = regex::Regex::new(pattern).ok()?;
    let caps = re.captures(text)?;
    Some(caps.iter().map(|group| group.map(|found| found.as_str().to_owned())).collect())
}

/// Where a move starts, as far as its notation says.
#[derive(Debug, Copy, Clone, PartialEq, Eq, Structural)]
pub enum Origin {
    /// The column, counted from 0.
    File(u8),
    /// The row, counted from 0.
    Rank(u8),
}

/// A piece letter of a notation: its kind, and the colour that its case
/// stands for (upper case for White, lower case for Black).
#[derive(Debug, Copy, Clone, PartialEq, Eq, Structural)]
pub struct Letter {
    pub kind: Piece,
    pub color: Color,
}

/// The parts of a move in short algebraic notation.
#[derive(Debug, Copy, Clone, PartialEq, Eq, Structural)]
pub struct Notation {
    pub origin: Option<Origin>,
    pub piece: Option<Letter>,
    pub capture: bool,
    pub to: Square,
    pub promotion: Option<Letter>,
}

/// What a character says of where a move starts, if it is a file letter or
/// a rank digit.
pub open spec fn origin_of(c: char) -> Option<Origin> {
    if is_file_letter(c) {
        Some(Origin::File(file_number(c) as u8))
    } else if is_rank_digit(c) {
        Some(Origin::Rank(rank_number(c) as u8))
    } else {
        None
    }
}

/// The piece letter that a character is, if it is one.
pub open spec fn letter_of(c: char) -> Option<Letter> {
    match Piece::spec_from_char(c) {
        Ok(kind) => Some(
            Letter {
                kind,
                color: if c == kind.spec_upper_letter() {
                    Color::White
                } else {
                    Color::Black
                },
            },
        ),
        Err(_) => None,
    }
}

/// What an optional group of one character says, read by `read`: nothing
/// where the group is absent; `None` where the group is present but is not
/// one character that `read` accepts.
pub open spec fn optional_char<T>(group: Option<Seq<char>>, read: spec_fn(char) -> Option<T>)
    -> Option<Option<T>> {
    match group {
        None => Some(None),
        Some(s) => if s.len() == 1 && read(s[0]) is Some {
            Some(read(s[0]))
        } else {
            None
        },
    }
}

/// The piece that a promotion group names: `=` and the letter of a knight,
/// bishop, rook or queen.
pub open spec fn promotion_of(group: Option<Seq<char>>) -> Option<Option<Letter>> {
    match group {
        None => Some(None),
        Some(s) => if s.len() == 2 && s[0] == '=' && letter_of(s[1]) is Some && letter_of(
            s[1],
        )->0.kind.spec_is_promotion_target() {
            Some(letter_of(s[1]))
        } else {
            None
        },
    }
}

/// The destination that a group names, if the group is the text of a square.
pub open spec fn destination_of(group: Option<Seq<char>>) -> Option<Square> {
    match group {
        None => None,
        Some(s) => match Square::spec_parse(s) {
            Ok(sq) => Some(sq),
            Err(_) => None,
        },
    }
}

/// The notation that the capture groups of `PATTERN` stand for. `None`
/// where they are not seven groups of which each holds what its place in
/// the grammar asks for.
pub open spec fn read_groups(groups: Seq<Option<Seq<char>>>) -> Option<Notation> {
    if groups.len() != 7 {
        None
    } else {
        let origin = optional_char(groups[1], |c: char| origin_of(c));
        let piece = optional_char(groups[3], |c: char| letter_of(c));
        let to = destination_of(groups[5]);
        let promotion = promotion_of(groups[6]);
        if origin is Some && piece is Some && to is Some && promotion is Some {
            Some(
                Notation {
                    origin: origin->0,
                    piece: piece->0,
                    capture: groups[4] is Some,
                    to: to->0,
                    promotion: promotion->0,
                },
            )
        } else {
            None
        }
    }
}

/// The character that says where a move starts.
pub open spec fn origin_char(origin: Origin) -> char {
    match origin {
        Origin::File(col) => file_letter(col as int),
        Origin::Rank(row) => rank_digit(row as int),
    }
}

/// The character of a piece letter: upper case for White, lower case for Black.
pub open spec fn letter_char(letter: Letter) -> char {
    match letter.color {
        Color::White => letter.kind.spec_upper_letter(),
        Color::Black => letter.kind.spec_letter(),
    }
}

/// The text of a notation: the origin, the piece letter, `x`, the
/// destination, and `=` with the promotion letter, each where the notation
/// has it.
pub open spec fn written(n: Notation) -> Seq<char> {
    (match n.origin {
        Some(o) => seq![origin_char(o)],
        None => Seq::empty(),
    }) + (match n.piece {
        Some(l) => seq![letter_char(l)],
        None => Seq::empty(),
    }) + (if n.capture {
        seq!['x']
    } else {
        Seq::empty()
    }) + n.to.spec_text() + (match n.promotion {
        Some(l) => seq!['=', letter_char(l)],
        None => Seq::empty(),
    })
}

/// Whether a notation is one that the grammar has: its origin lies on the
/// board, and it promotes to a knight, bishop, rook or queen if at all.
pub open spec fn in_grammar(n: Notation) -> bool {
    &&& n.to.wf()
    &&& match n.origin {
        Some(Origin::File(col)) => col < 8,
        Some(Origin::Rank(row)) => row < 8,
        None => true,
    }
    &&& n.promotion matches Some(l) ==> l.kind.spec_is_promotion_target()
}

/// The letter `b`, which is both the b-file and the black bishop.
pub open spec fn black_bishop() -> Letter {
    Letter { kind: Piece::Bishop, color: Color::Black }
}

/// Whether a notation reads a leading `b` as the grammar does: as the
/// b-file, where the text can be read both ways.
pub open spec fn is_canonical(n: Notation) -> bool {
    !(n.origin is None && n.piece == Some(black_bishop()))
}

/// The notation with a leading `b` read as the grammar reads it: a black
/// bishop without an origin becomes a move from the b-file. The text that
/// the notation writes stays the same.
pub open spec fn canonical(n: Notation) -> Notation {
    if is_canonical(n) {
        n
    } else {
        Notation { origin: Some(Origin::File(1)), piece: None, ..n }
    }
}

/// Whether a text reads as a notation: whether the notation is one that
/// the grammar has, reads a leading `b` as the grammar does, and writes
/// the text.
pub open spec fn reads_as(text: Seq<char>, n: Notation) -> bool {
    in_grammar(n) && is_canonical(n) && written(n) == text
}

/// The notation that a text stands for: the one that the capture groups of
/// the grammar's expression stand for, if there is one and the text is
/// what it writes.
pub open spec fn parsed(text: Seq<char>) -> Option<Notation> {
    match regex_captures(PATTERN@, text) {
        Some(groups) => match read_groups(groups) {
            Some(n) => if written(n) == text {
                Some(canonical(n))
            } else {
                None
            },
            None => None,
        },
        None => None,
    }
}

/// The number of characters that a notation writes before its destination.
pub open spec fn head_len(n: Notation) -> int {
    (if n.origin is Some {
        1int
    } else {
        0int
    }) + (if n.piece is Some {
        1int
    } else {
        0int
    }) + (if n.capture {
        1int
    } else {
        0int
    })
}

/// Where a notation writes what.
proof fn lemma_written_shape(n: Notation)
    ensures
        ({
            let w = written(n);
            let h = head_len(n);
            let a: int = if n.origin is Some {
                1
            } else {
                0
            };
            let b: int = if n.piece is Some {
                1
            } else {
                0
            };
            &&& w.len() == h + 2 + (if n.promotion is Some {
                2int
            } else {
                0int
            })
            &&& w[h] == n.to.spec_file()
            &&& w[h + 1] == rank_digit(n.to.row())
            &&& (n.origin matches Some(o) ==> w[0] == origin_char(o))
            &&& (n.piece matches Some(l) ==> w[a] == letter_char(l))
            &&& (n.capture ==> w[a + b] == 'x')
            &&& (n.promotion matches Some(l) ==> w[h + 2] == '=' && w[h + 3] == letter_char(l))
        }),
{
}

/// Whether a character is a piece letter.
pub open spec fn is_piece_letter(c: char) -> bool {
    letter_of(c) is Some
}

/// The characters of a notation tell its parts apart.
proof fn lemma_chars_tell(o: Origin, l: Letter, col: int, row: int)
    requires
        match o {
            Origin::File(c) => c < 8,
            Origin::Rank(r) => r < 8,
        },
        0 <= col < 8,
        0 <= row < 8,
    ensures
        origin_of(origin_char(o)) == Some(o),
        letter_of(letter_char(l)) == Some(l),
        origin_char(o) != 'x' && origin_char(o) != '=',
        letter_char(l) != 'x' && letter_char(l) != '=',
        !is_rank_digit(letter_char(l)),
        is_file_letter(file_letter(col)) && file_number(file_letter(col)) == col,
        is_rank_digit(rank_digit(row)) && rank_number(rank_digit(row)) == row,
        file_letter(col) != 'x' && rank_digit(row) != 'x',
        letter_char(l) == origin_char(o) ==> l == black_bishop() && o == Origin::File(1),
{
}

/// A text reads as at most one notation.
pub proof fn lemma_reading_is_unique(text: Seq<char>, n: Notation, m: Notation)
    requires
        reads_as(text, n),
        reads_as(text, m),
    ensures
        n == m,
{
    broadcast use Square::lemma_at_view;

    lemma_written_shape(n);
    lemma_written_shape(m);
    let last = text[text.len() - 1];
    if let Some(l) = n.promotion {
        lemma_chars_tell(Origin::File(0), l, 0, 0);
    }
    if let Some(l) = m.promotion {
        lemma_chars_tell(Origin::File(0), l, 0, 0);
    }
    lemma_chars_tell(Origin::File(0), black_bishop(), n.to.col(), n.to.row());
    lemma_chars_tell(Origin::File(0), black_bishop(), m.to.col(), m.to.row());
    assert(n.promotion is Some <==> !is_rank_digit(last));
    assert(m.promotion is Some <==> !is_rank_digit(last));
    assert(n.promotion == m.promotion);
    assert(head_len(n) == head_len(m));
    let h = head_len(n);
    assert(n.to@ == n.to.col() + 8 * n.to.row());
    assert(m.to@ == m.to.col() + 8 * m.to.row());
    assert(n.to.col() == m.to.col() && n.to.row() == m.to.row());
    Square::lemma_view_at(n.to);
    Square::lemma_view_at(m.to);
    assert(n.to == m.to);
    let on = match n.origin {
        Some(o) => o,
        None => Origin::File(0),
    };
    let om = match m.origin {
        Some(o) => o,
        None => Origin::File(0),
    };
    let ln = match n.piece {
        Some(l) => l,
        None => black_bishop(),
    };
    let lm = match m.piece {
        Some(l) => l,
        None => black_bishop(),
    };
    lemma_chars_tell(on, ln, 0, 0);
    lemma_chars_tell(om, lm, 0, 0);
    lemma_chars_tell(on, lm, 0, 0);
    lemma_chars_tell(om, ln, 0, 0);
    if h > 0 {
        assert(n.capture <==> text[h - 1] == 'x');
        assert(m.capture <==> text[h - 1] == 'x');
    }
    assert(n.capture == m.capture);
    assert(n.origin == m.origin);
    assert(n.piece == m.piece);
}

/// A text that is read as a notation reads as that notation, and as no
/// other: whatever the search of the expression captured, the notation is
/// one that the grammar has, the text is exactly what the notation writes,
/// and no other notation of the grammar writes it.
pub proof fn lemma_parsed_is_the_reading(text: Seq<char>)
    requires
        parsed(text) is Some,
    ensures
        reads_as(text, parsed(text)->0),
        forall|n: Notation| #[trigger] reads_as(text, n) ==> n == parsed(text)->0,
{
    broadcast use Square::lemma_at_view;

    let groups = regex_captures(PATTERN@, text)->0;
    let read = read_groups(groups)->0;
    let n = parsed(text)->0;
    assert(in_grammar(read));
    assert(written(canonical(read)) =~= written(read));
    assert forall|m: Notation| #[trigger] reads_as(text, m) implies m == n by {
        lemma_reading_is_unique(text, n, m);
    }
}

/// A text that no notation of the grammar writes is not read as one.
pub proof fn lemma_unwritten_is_not_parsed(text: Seq<char>)
    requires
        forall|n: Notation| !#[trigger] reads_as(text, n),
    ensures
        parsed(text) is None,
{
    if parsed(text) is Some {
        lemma_parsed_is_the_reading(text);
    }
}

impl Letter {
    /// The piece letter that a character is, if it is one.
    pub fn from_char(c: char) -> (r: Option<Letter>)
        ensures
            r == letter_of(c),
    {
        match Piece::from_char(c) {
            Ok(kind) => Some(
                Letter {
                    kind,
                    color: if c == kind.upper_letter() {
                        Color::White
                    } else {
                        Color::Black
                    },
                },
            ),
            Err(_) => None,
        }
    }
}

impl Letter {
    /// The character of the letter.
    pub fn letter(&self) -> (r: char)
        ensures
            r == letter_char(*self),
    {
        match self.color {
            Color::White => self.kind.upper_letter(),
            Color::Black => self.kind.letter(),
        }
    }
}

impl Origin {
    /// The character that says where a move starts.
    pub fn letter(&self) -> (r: char)
        ensures
            r == origin_char(*self),
    {
        match self {
            Origin::File(col) => file_char_of(*col),
            Origin::Rank(row) => rank_char_of(*row),
        }
    }

    /// What a character says of where a move starts.
    pub fn from_char(c: char) -> (r: Option<Origin>)
        ensures
            r == origin_of(c),
    {
        match file_index(c) {
            Some(col) => Some(Origin::File(col)),
            None => match rank_index(c) {
                Some(row) => Some(Origin::Rank(row)),
                None => None,
            },
        }
    }
}

impl Notation {
    /// The one character of a group, if it has exactly one.
    fn single_char(group: &String) -> (r: Option<char>)
        ensures
            group@.len() == 1 ==> r == Some(group@[0]),
            group@.len() != 1 ==> r is None,
    {
        let text = group.as_str();
        if text.unicode_len() == 1 {
            Some(text.get_char(0))
        } else {
            None
        }
    }

    /// Reads the origin group.
    fn read_origin(group: &Option<String>) -> (r: Option<Option<Origin>>)
        ensures
            r == optional_char(group.deep_view(), |c: char| origin_of(c)),
    {
        match group {
            None => Some(None),
            Some(s) => match Notation::single_char(s) {
                Some(c) => match Origin::from_char(c) {
                    Some(o) => Some(Some(o)),
                    None => None,
                },
                None => None,
            },
        }
    }

    /// Reads the piece group.
    fn read_piece(group: &Option<String>) -> (r: Option<Option<Letter>>)
        ensures
            r == optional_char(group.deep_view(), |c: char| letter_of(c)),
    {
        match group {
            None => Some(None),
            Some(s) => match Notation::single_char(s) {
                Some(c) => match Letter::from_char(c) {
                    Some(l) => Some(Some(l)),
                    None => None,
                },
                None => None,
            },
        }
    }

    /// Reads the promotion group.
    fn read_promotion(group: &Option<String>) -> (r: Option<Option<Letter>>)
        ensures
            r == promotion_of(group.deep_view()),
    {
        match group {
            None => Some(None),
            Some(s) => {
                let text = s.as_str();
                if text.unicode_len() != 2 || text.get_char(0) != '=' {
                    return None;
                }
                match Letter::from_char(text.get_char(1)) {
                    Some(l) => match l.kind {
                        Piece::Knight | Piece::Bishop | Piece::Rook | Piece::Queen => Some(Some(l)),
                        _ => None,
                    },
                    None => None,
                }
            },
        }
    }

    /// Reads the destination group.
    fn read_destination(group: &Option<String>) -> (r: Option<Square>)
        ensures
            r == destination_of(group.deep_view()),
    {
        match group {
            None => None,
            Some(s) => {
                let text = s.as_str();
                if text.unicode_len() != 2 {
                    return None;
                }
                assert(s@ =~= seq![s@[0], s@[1]]);
                match Square::from_chars(text.get_char(0), text.get_char(1)) {
                    Ok(sq) => Some(sq),
                    Err(_) => None,
                }
            },
        }
    }

    /// Reads a notation from the capture groups of `PATTERN`.
    pub fn read(groups: &Vec<Option<String>>) -> (r: Option<Notation>)
        ensures
            r == read_groups(groups.deep_view()),
    {
        if groups.len() != GROUP_COUNT {
            return None;
        }
        let ghost view = groups.deep_view();
        assert(forall|i: int| 0 <= i < 7 ==> view[i] == #[trigger] groups@[i].deep_view());
        let origin = Notation::read_origin(&groups[GROUP_FROM]);
        let piece = Notation::read_piece(&groups[GROUP_PIECE]);
        let to = Notation::read_destination(&groups[GROUP_TO]);
        let promotion = Notation::read_promotion(&groups[GROUP_PROMOTE]);
        let capture = groups[GROUP_CAPTURE].is_some();
        match (origin, piece, to, promotion) {
            (Some(origin), Some(piece), Some(to), Some(promotion)) => Some(
                Notation { origin, piece, capture, to, promotion },
            ),
            _ => None,
        }
    }

    /// The notation with a leading `b` read as the grammar reads it.
    pub fn canonical(&self) -> (r: Notation)
        ensures
            r == canonical(*self),
    {
        let bishop = match self.piece {
            Some(l) => l.kind == Piece::Bishop && l.color == Color::Black,
            None => false,
        };
        if self.origin.is_none() && bishop {
            Notation {
                origin: Some(Origin::File(1)),
                piece: None,
                capture: self.capture,
                to: self.to,
                promotion: self.promotion,
            }
        } else {
            *self
        }
    }

    /// The text of the notation.
    pub fn write(&self) -> (r: Vec<char>)
        ensures
            r@ == written(*self),
    {
        let mut out: Vec<char> = Vec::new();
        if let Some(o) = self.origin {
            out.push(o.letter());
        }
        if let Some(l) = self.piece {
            out.push(l.letter());
        }
        if self.capture {
            out.push('x');
        }
        out.push(self.to.file());
        out.push(rank_char_of(self.to.rank() - 1));
        if let Some(l) = self.promotion {
            out.push('=');
            out.push(l.letter());
        }
        assert(out@ =~= written(*self));
        out
    }

    /// Reads a notation from the text of a move: matches the text against
    /// the grammar's expression, reads the capture groups, and makes sure
    /// that the text is what the notation writes.
    pub fn parse(text: &str) -> (r: Option<Notation>)
        ensures
            r == parsed(text@),
    {
        let groups = match captures(PATTERN, text) {
            Some(groups) => groups,
            None => {
                return None;
            },
        };
        match Notation::read(&groups) {
            Some(n) => {
                if same_chars(&n.write(), &chars_of(text)) {
                    Some(n.canonical())
                } else {
                    None
                }
            },
            None => None,
        }
    }
}

/// The letter of the column with the given number; `h` past the seventh.
fn file_char_of(col: u8) -> (r: char)
    ensures
        r == file_letter(col as int),
{
    if col == 0 {
        'a'
    } else if col == 1 {
        'b'
    } else if col == 2 {
        'c'
    } else if col == 3 {
        'd'
    } else if col == 4 {
        'e'
    } else if col == 5 {
        'f'
    } else if col == 6 {
        'g'
    } else {
        'h'
    }
}

/// The digit of the rank whose row has the given number; `8` past the seventh.
fn rank_char_of(row: u8) -> (r: char)
    ensures
        r == rank_digit(row as int),
{
    if row == 0 {
        '1'
    } else if row == 1 {
        '2'
    } else if row == 2 {
        '3'
    } else if row == 3 {
        '4'
    } else if row == 4 {
        '5'
    } else if row == 5 {
        '6'
    } else if row == 6 {
        '7'
    } else {
        '8'
    }
}

/// Whether two texts are the same.
pub fn same_chars(a: &Vec<char>, b: &Vec<char>) -> (r: bool)
    ensures
        r == (a@ == b@),
{
    if a.len() != b.len() {
        return false;
    }
    let mut i: usize = 0;
    while i < a.len()
        invariant
            i <= a.len(),
            a.len() == b.len(),
            forall|k: int| 0 <= k < i ==> a@[k] == b@[k],
        decreases a.len() - i,
    {
        if a[i] != b[i] {
            return false;
        }
        i += 1;
    }
    assert(a@ =~= b@);
    true
}

} // verus!
