use chess::{
    BitPiece, Board, CastleMove, Color, ColorError, Piece, PieceError, RawPieceMove, Square,
    SquareError, PROMOTION_PIECES,
};

fn at(text: &str) -> Square {
    Square::try_from(text.to_owned()).unwrap()
}

#[test]
fn conversions_by_the_standard_traits() {
    assert_eq!(Square::try_from(28u8), Ok(at("e4")));
    assert_eq!(Square::try_from(64u8), Err(SquareError::InvalidIndex(64)));
    assert_eq!(Square::try_from("h8".to_owned()).map(u8::from), Ok(63));
    assert_eq!(
        Square::try_from("h".to_owned()),
        Err(SquareError::InvalidSquare("h".to_owned()))
    );
    assert_eq!(Square::try_from("x1".to_owned()), Err(SquareError::InvalidFile('x')));
    assert_eq!(Square::try_from("a9".to_owned()), Err(SquareError::InvalidRank('9')));
    assert_eq!(u8::from(at("a2")), 8);
    assert_eq!(usize::from(at("h8")), 63);
    assert_eq!(Piece::try_from(4u8), Ok(Piece::Rook));
    assert_eq!(Piece::try_from(9u8), Err(PieceError::InvalidValue(9)));
    assert_eq!(Piece::try_from('q'), Ok(Piece::Queen));
    assert_eq!(Piece::try_from('Q'), Ok(Piece::Queen));
    assert_eq!(Piece::try_from('z'), Err(PieceError::InvalidChar('z')));
    assert_eq!(Color::try_from(1u8), Ok(Color::Black));
    assert_eq!(Color::try_from(7u8), Err(ColorError::InvalidValue(7)));
    assert_eq!(Color::try_from('w'), Ok(Color::White));
    assert_eq!(Color::try_from('x'), Err(ColorError::InvalidChar('x')));
    assert_eq!(BitPiece::try_from(0b0000_0100u8), Ok(BitPiece::new(Piece::Knight, Color::White, false)));
    assert_eq!(BitPiece::try_from(0u8), Err(PieceError::InvalidValue(0)));
    assert_eq!(BitPiece::try_from('k'), Ok(BitPiece::new(Piece::King, Color::Black, false)));
    assert_eq!(BitPiece::try_from('-'), Err(PieceError::InvalidChar('-')));
}

#[test]
fn promotion_pieces_are_the_four_officers() {
    assert_eq!(PROMOTION_PIECES, [Piece::Knight, Piece::Bishop, Piece::Rook, Piece::Queen]);
}

#[test]
fn board_is_indexed_by_squares() {
    let mut b = Board::default();
    assert_eq!(b[at("a1")], BitPiece::new(Piece::Rook, Color::White, false));
    assert_eq!(b[at("e8")], b.at(at("e8")));
    b[at("e4")] = BitPiece::new(Piece::Queen, Color::Black, true);
    assert_eq!(b.at(at("e4")), BitPiece::new(Piece::Queen, Color::Black, true));
    b.put(at("e4"), BitPiece::new_blank());
    assert_eq!(b, Board::default());
    assert_eq!(b.side_to_move(), Color::White);
    assert_eq!(b.en_passant_target(), None);
}

#[test]
fn raw_piece_move_is_castle() {
    let b = Board::from_fen("r3k2r/8/8/8/8/8/8/R3K2R w KQkq - 0 1".to_owned()).unwrap();
    let king = b[at("e1")];
    let mv = |to: &str| RawPieceMove { piece: king, from: at("e1"), to: at(to) };
    assert_eq!(mv("g1").is_castle(&b), Some(CastleMove::KingSide));
    assert_eq!(mv("c1").is_castle(&b), Some(CastleMove::QueenSide));
    assert_eq!(mv("f1").is_castle(&b), None);
    assert_eq!(mv("g2").is_castle(&b), None);
    let rook = RawPieceMove { piece: b[at("h1")], from: at("h1"), to: at("g1") };
    assert_eq!(rook.is_castle(&b), None);
    let d = Board::default();
    let blocked = RawPieceMove { piece: d[at("e1")], from: at("e1"), to: at("g1") };
    assert_eq!(blocked.is_castle(&d), None);
}
