use chess::{BitPiece, Color, ColorError, Piece, PieceError, Square, SquareError};

fn sq(text: &str) -> Square {
    Square::parse(text.to_owned()).unwrap()
}

#[test]
fn color_opposite_is_an_involution() {
    assert_eq!(Color::White.opposite(), Color::Black);
    assert_eq!(Color::Black.opposite(), Color::White);
    assert_eq!(Color::White.opposite().opposite(), Color::White);
}

#[test]
fn color_codes_and_letters() {
    assert_eq!(Color::from_value(0), Ok(Color::White));
    assert_eq!(Color::from_value(1), Ok(Color::Black));
    assert_eq!(Color::from_value(2), Err(ColorError::InvalidValue(2)));
    assert_eq!(Color::from_char('w'), Ok(Color::White));
    assert_eq!(Color::from_char('b'), Ok(Color::Black));
    assert_eq!(Color::from_char('W'), Err(ColorError::InvalidChar('W')));
    assert_eq!(Color::White.letter(), 'w');
    assert_eq!(Color::Black.letter(), 'b');
}

#[test]
fn piece_codes_and_letters() {
    let kinds =
        [Piece::Pawn, Piece::Knight, Piece::Bishop, Piece::Rook, Piece::Queen, Piece::King];
    for (i, kind) in kinds.iter().enumerate() {
        assert_eq!(kind.value() as usize, i + 1);
        assert_eq!(Piece::from_value(kind.value()), Ok(*kind));
        assert_eq!(Piece::from_char(kind.letter()), Ok(*kind));
        assert_eq!(Piece::from_char(kind.upper_letter()), Ok(*kind));
    }
    assert_eq!(Piece::Knight.letter(), 'n');
    assert_eq!(Piece::Knight.upper_letter(), 'N');
    assert_eq!(Piece::from_value(0), Err(PieceError::InvalidValue(0)));
    assert_eq!(Piece::from_value(7), Err(PieceError::InvalidValue(7)));
    assert_eq!(Piece::from_char('x'), Err(PieceError::InvalidChar('x')));
}

#[test]
fn square_rank_and_file() {
    let a1 = Square::from_index(0).unwrap();
    assert_eq!((a1.file(), a1.rank()), ('a', 1));
    let h8 = Square::from_index(63).unwrap();
    assert_eq!((h8.file(), h8.rank()), ('h', 8));
    let e4 = sq("e4");
    assert_eq!(e4.index(), 28);
    assert_eq!((e4.file(), e4.rank()), ('e', 4));
    assert_eq!(e4.text(), "e4");
    assert_eq!(Square::on(3, 4), e4);
}

#[test]
fn square_steps_stay_on_the_board() {
    let e4 = sq("e4");
    assert_eq!(e4.up(1), Some(sq("e5")));
    assert_eq!(e4.up(4), Some(sq("e8")));
    assert_eq!(e4.up(5), None);
    assert_eq!(e4.up(255), None);
    assert_eq!(e4.down(3), Some(sq("e1")));
    assert_eq!(e4.down(4), None);
    assert_eq!(e4.down(200), None);
    assert_eq!(e4.left(4), Some(sq("a4")));
    assert_eq!(e4.left(5), None);
    assert_eq!(e4.right(3), Some(sq("h4")));
    assert_eq!(e4.right(4), None);
    assert_eq!(e4.right(255), None);
    assert_eq!(e4.up(0), Some(e4));
    // No wrap-around from the h-file to the a-file of the next rank.
    assert_eq!(sq("h1").right(1), None);
    assert_eq!(sq("a2").left(1), None);
}

#[test]
fn square_text_errors() {
    assert_eq!(Square::parse("i1".to_owned()), Err(SquareError::InvalidFile('i')));
    assert_eq!(Square::parse("A1".to_owned()), Err(SquareError::InvalidFile('A')));
    assert_eq!(Square::parse("11".to_owned()), Err(SquareError::InvalidFile('1')));
    assert_eq!(Square::parse("a9".to_owned()), Err(SquareError::InvalidRank('9')));
    assert_eq!(Square::parse("a0".to_owned()), Err(SquareError::InvalidRank('0')));
    assert_eq!(Square::parse("ab".to_owned()), Err(SquareError::InvalidRank('b')));
    assert_eq!(
        Square::parse("abc".to_owned()),
        Err(SquareError::InvalidSquare("abc".to_owned()))
    );
    assert_eq!(Square::parse("".to_owned()), Err(SquareError::InvalidSquare("".to_owned())));
    assert_eq!(Square::from_index(64), Err(SquareError::InvalidIndex(64)));
    assert_eq!(Square::from_chars('h', '8'), Ok(Square::from_index(63).unwrap()));
}

#[test]
fn square_text_round_trip() {
    for i in 0..64u8 {
        let s = Square::from_index(i).unwrap();
        assert_eq!(Square::parse(s.text()), Ok(s));
        assert_eq!(s.index(), i);
    }
}

#[test]
fn bitpiece_packs_and_unpacks() {
    let p = BitPiece::new(Piece::Rook, Color::Black, false);
    assert_eq!(p.bits(), 0b0000_1001);
    assert!(!p.is_blank());
    assert_eq!(p.get_piece(), Piece::Rook);
    assert_eq!(p.get_color(), Color::Black);
    assert!(!p.has_moved());
    assert!(p.is_rook() && p.is_black());
    assert!(!p.is_pawn() && !p.is_knight() && !p.is_bishop() && !p.is_queen() && !p.is_king());
    assert!(!p.is_white());
    let q = BitPiece::new(Piece::King, Color::White, true);
    assert_eq!(q.bits(), 0b0001_1100);
    assert!(q.is_king() && q.is_white() && q.has_moved());
}

#[test]
fn bitpiece_blank() {
    let b = BitPiece::new_blank();
    assert!(b.is_blank());
    assert_eq!(b.bits(), 0);
    assert!(!b.is_pawn() && !b.is_king());
    assert!(!b.has_moved());
}

#[test]
fn bitpiece_moved_flag_is_one_way() {
    let mut p = BitPiece::new(Piece::Pawn, Color::White, false);
    p.set_moved();
    assert!(p.has_moved());
    assert_eq!(p, BitPiece::new(Piece::Pawn, Color::White, true));
    p.set_moved();
    assert_eq!(p, BitPiece::new(Piece::Pawn, Color::White, true));
    let mut b = BitPiece::new_blank();
    b.set_moved();
    assert!(b.is_blank());
}

#[test]
fn bitpiece_from_raw_bits_checks_the_kind() {
    assert_eq!(BitPiece::from_bits(0), Err(PieceError::InvalidValue(0)));
    assert_eq!(BitPiece::from_bits(1), Err(PieceError::InvalidValue(0)));
    assert_eq!(BitPiece::from_bits(0b0000_1110), Err(PieceError::InvalidValue(7)));
    assert_eq!(BitPiece::from_bits(0b0001_1111), Err(PieceError::InvalidValue(7)));
    let p = BitPiece::from_bits(0b0001_0101).unwrap();
    assert_eq!(p.get_piece(), Piece::Knight);
    assert_eq!(p.get_color(), Color::Black);
    assert!(p.has_moved());
    for kind in 1..=6u8 {
        assert!(BitPiece::from_bits(kind << 1).is_ok());
    }
}

#[test]
fn bitpiece_letters_tell_the_colour() {
    assert_eq!(BitPiece::from_char('N'), Ok(BitPiece::new(Piece::Knight, Color::White, false)));
    assert_eq!(BitPiece::from_char('n'), Ok(BitPiece::new(Piece::Knight, Color::Black, false)));
    assert_eq!(BitPiece::from_char('1'), Err(PieceError::InvalidChar('1')));
    assert_eq!(BitPiece::new(Piece::Queen, Color::White, true).letter(), 'Q');
    assert_eq!(BitPiece::new(Piece::Queen, Color::Black, false).letter(), 'q');
}
