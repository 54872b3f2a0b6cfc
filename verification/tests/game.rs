use chess::{
    BitPiece, Board, BoardError, BoardStatus, CastleMove, Color, FenError, Letter, Notation,
    Origin, Piece, PieceError, RawMove, Square,
};

fn sq(text: &str) -> Square {
    Square::parse(text.to_owned()).unwrap()
}

fn board(fen: &str) -> Board {
    Board::from_fen(fen.to_owned()).unwrap()
}

fn play(b: &mut Board, moves: &[&str]) {
    for m in moves {
        b.make_move((*m).to_owned()).unwrap();
    }
}

fn replies(b: &Board) -> usize {
    b.legal_moves().iter().filter(|mv| mv.mover_color() == b.turn).count()
}

#[test]
fn make_move() {
    let mut board1 = Board::default();
    assert_eq!(board1.fen_notation(), "rnbqkbnr/pppppppp/8/8/8/8/PPPPPPPP/RNBQKBNR w KQkq - 0 1");
    board1.make_move("e4".to_owned()).unwrap();
    assert_eq!(board1.fen_notation(), "rnbqkbnr/pppppppp/8/8/4P3/8/PPPP1PPP/RNBQKBNR b KQkq e3 0 1");
    board1.make_move("c5".to_owned()).unwrap();
    assert_eq!(board1.fen_notation(), "rnbqkbnr/pp1ppppp/8/2p5/4P3/8/PPPP1PPP/RNBQKBNR w KQkq c6 0 2");
    board1.make_move("Nf3".to_owned()).unwrap();
    assert_eq!(board1.fen_notation(), "rnbqkbnr/pp1ppppp/8/2p5/4P3/5N2/PPPP1PPP/RNBQKB1R b KQkq - 1 2");

    let mut board = Board::from_fen("2p5/1P6/8/8/8/8/5k2/K7 w KQkq - 0 1".into()).unwrap();
    board.make_move("xc8=Q".into()).unwrap();
    assert_eq!(board.fen_notation(), "2Q5/8/8/8/8/8/5k2/K7 b KQkq - 0 1");
}

#[test]
fn default_position_renders_exactly() {
    let b = Board::default();
    assert_eq!(b.fen_notation(), "rnbqkbnr/pppppppp/8/8/8/8/PPPPPPPP/RNBQKBNR w KQkq - 0 1");
    assert_eq!(b.turn, Color::White);
    assert_eq!(b.status, BoardStatus::Ongoing);
    assert_eq!(b.castling, 0b1111);
    assert_eq!(b.en_passant, None);
    assert_eq!(b.halfmove_clock, 0);
    assert_eq!(b.fullmove_number, 1);
    assert!(b.history.is_empty());
    assert_eq!(b.at(sq("e1")), BitPiece::new(Piece::King, Color::White, false));
    assert_eq!(b.at(sq("d8")), BitPiece::new(Piece::Queen, Color::Black, false));
    assert!(b.at(sq("e4")).is_blank());
}

#[test]
fn position_text_round_trip() {
    let d = Board::default();
    assert_eq!(Board::from_fen(d.fen_notation()), Ok(d));
    for fen in [
        "rnbqkbnr/pp1ppppp/8/2p5/4P3/5N2/PPPP1PPP/RNBQKB1R b KQkq - 1 2",
        "r3k2r/8/8/8/8/8/8/R3K2R w Kq e3 100 65535",
        "8/8/8/8/8/8/8/8 b - - 0 1",
        "2Q5/8/8/8/8/8/5k2/K7 b Qk a6 7 42",
    ] {
        let b = board(fen);
        assert_eq!(b.fen_notation(), fen);
        assert_eq!(Board::from_fen(b.fen_notation()), Ok(b));
    }
}

#[test]
fn position_text_after_moves_reads_back_the_same_position() {
    let mut b = Board::default();
    play(&mut b, &["e4", "c5", "Nf3", "d6", "Bb5", "cbd7"]);
    let again = board(&b.fen_notation());
    assert_eq!(again.fen_notation(), b.fen_notation());
    assert_eq!(again.turn, b.turn);
    assert_eq!(again.castling, b.castling);
    assert_eq!(again.en_passant, b.en_passant);
    assert_eq!(again.halfmove_clock, b.halfmove_clock);
    assert_eq!(again.fullmove_number, b.fullmove_number);
    for i in 0..64u8 {
        let s = Square::from_index(i).unwrap();
        assert_eq!(again.at(s).is_blank(), b.at(s).is_blank());
        if !b.at(s).is_blank() {
            assert_eq!(again.at(s).get_piece(), b.at(s).get_piece());
            assert_eq!(again.at(s).get_color(), b.at(s).get_color());
            assert!(!again.at(s).has_moved());
        }
    }
    // What the text does not hold is not read back.
    assert!(again.history.is_empty());
    assert_ne!(again, b);
}

#[test]
fn position_text_is_split_at_any_white_space() {
    let b = board("  8/8/8/8/8/8/8/8\tw \u{a0} -\n-  +5 007 ");
    assert_eq!(b.fen_notation(), "8/8/8/8/8/8/8/8 w - - 5 7");
}

#[test]
fn placement_may_leave_ranks_short() {
    let b = board("k/8/8/8/8/8/8/K w - - 0 1");
    assert_eq!(b.fen_notation(), "k7/8/8/8/8/8/8/K7 w - - 0 1");
    let b = board("4k w - - 0 1");
    assert_eq!(b.fen_notation(), "4k3/8/8/8/8/8/8/8 w - - 0 1");
}

#[test]
fn position_text_errors() {
    let err = |fen: &str| Board::from_fen(fen.to_owned()).unwrap_err();
    assert_eq!(err(""), BoardError::InvalidFEN(FenError::FieldCount));
    assert_eq!(err("8/8/8/8/8/8/8/8 w - - 0"), BoardError::InvalidFEN(FenError::FieldCount));
    assert_eq!(err("8/8/8/8/8/8/8/8 w - - 0 1 x"), BoardError::InvalidFEN(FenError::FieldCount));
    assert_eq!(
        err("8/8/8/8/8/8/8/7x w - - 0 1"),
        BoardError::InvalidFEN(FenError::Piece(PieceError::InvalidChar('x')))
    );
    assert_eq!(err("9/8/8/8/8/8/8/8 w - - 0 1"), BoardError::InvalidFEN(FenError::Placement));
    assert_eq!(err("8p/8/8/8/8/8/8/8 w - - 0 1"), BoardError::InvalidFEN(FenError::Placement));
    assert_eq!(err("ppppppppp/8 w - - 0 1"), BoardError::InvalidFEN(FenError::Placement));
    assert_eq!(err("8/8/8/8/8/8/8/8/8 w - - 0 1"), BoardError::InvalidFEN(FenError::Placement));
    assert_eq!(err("8/8/8/8/8/8/8/8 x - - 0 1"), BoardError::InvalidFEN(FenError::Turn));
    assert_eq!(err("8/8/8/8/8/8/8/8 W - - 0 1"), BoardError::InvalidFEN(FenError::Turn));
    assert_eq!(err("8/8/8/8/8/8/8/8 w KX - 0 1"), BoardError::InvalidFEN(FenError::Castling));
    assert_eq!(err("8/8/8/8/8/8/8/8 w K- - 0 1"), BoardError::InvalidFEN(FenError::Castling));
    assert_eq!(err("8/8/8/8/8/8/8/8 w - e9 0 1"), BoardError::InvalidFEN(FenError::EnPassant));
    assert_eq!(err("8/8/8/8/8/8/8/8 w - e 0 1"), BoardError::InvalidFEN(FenError::EnPassant));
    assert_eq!(err("8/8/8/8/8/8/8/8 w - - x 1"), BoardError::InvalidFEN(FenError::HalfmoveClock));
    assert_eq!(err("8/8/8/8/8/8/8/8 w - - 101 1"), BoardError::InvalidFEN(FenError::HalfmoveClock));
    assert_eq!(err("8/8/8/8/8/8/8/8 w - - 256 1"), BoardError::InvalidFEN(FenError::HalfmoveClock));
    assert_eq!(err("8/8/8/8/8/8/8/8 w - - -1 1"), BoardError::InvalidFEN(FenError::HalfmoveClock));
    assert_eq!(err("8/8/8/8/8/8/8/8 w - - + 1"), BoardError::InvalidFEN(FenError::HalfmoveClock));
    assert_eq!(err("8/8/8/8/8/8/8/8 w - - 0 0"), BoardError::InvalidFEN(FenError::FullmoveNumber));
    assert_eq!(
        err("8/8/8/8/8/8/8/8 w - - 0 65536"),
        BoardError::InvalidFEN(FenError::FullmoveNumber)
    );
    assert_eq!(err("8/8/8/8/8/8/8/8 w - - 0 1x"), BoardError::InvalidFEN(FenError::FullmoveNumber));
    // The first malformed field decides.
    assert_eq!(err("8/8/8/8/8/8/8/8 x KX e9 x 0"), BoardError::InvalidFEN(FenError::Turn));
}

#[test]
fn castling_field_accepts_any_order() {
    assert_eq!(board("8/8/8/8/8/8/8/8 w qkQK - 0 1").castling, 0b1111);
    assert_eq!(board("8/8/8/8/8/8/8/8 w kK - 0 1").castling, 0b1010);
    assert_eq!(board("8/8/8/8/8/8/8/8 w QQ - 0 1").castling, 0b0100);
    assert_eq!(board("8/8/8/8/8/8/8/8 w - - 0 1").castling, 0);
    assert_eq!(board("8/8/8/8/8/8/8/8 w kK - 0 1").fen_notation(), "8/8/8/8/8/8/8/8 w Kk - 0 1");
}

#[test]
fn e4_is_the_double_push_of_the_e_pawn() {
    let mut b = Board::default();
    let mv = b.parse_move("e4".to_owned()).unwrap();
    match mv {
        RawMove::Single(info) => {
            assert!(info.piece.is_pawn());
            assert_eq!((info.from, info.to), (sq("e2"), sq("e4")));
            assert_eq!(info.en_passant_square, Some(sq("e3")));
            assert_eq!(info.capture, None);
        }
        RawMove::Castle(_, _) => panic!("e4 is no castling"),
    }
    b.make_move("e4".to_owned()).unwrap();
    assert_eq!(b.en_passant, Some(sq("e3")));
    assert_eq!(b.turn, Color::Black);
    assert_eq!(b.history.len(), 1);
    let last = b.history[0];
    assert_eq!(last.piece, BitPiece::new(Piece::Pawn, Color::White, false));
    assert_eq!((last.from, last.to), (sq("e2"), sq("e4")));
    assert_eq!(last.en_passant_square, Some(sq("e3")));
    assert!(!last.check && !last.checkmate && !last.en_passant);
    assert_eq!(b.at(sq("e4")), BitPiece::new(Piece::Pawn, Color::White, true));
}

#[test]
fn a_single_push_opens_no_target() {
    let mut b = Board::default();
    play(&mut b, &["e3"]);
    assert_eq!(b.en_passant, None);
    assert_eq!(b.fen_notation(), "rnbqkbnr/pppppppp/8/8/8/4P3/PPPP1PPP/RNBQKBNR b KQkq - 0 1");
}

#[test]
fn en_passant_target_lives_for_one_ply() {
    let mut b = Board::default();
    play(&mut b, &["e4"]);
    assert_eq!(b.en_passant, Some(sq("e3")));
    play(&mut b, &["nf6"]);
    assert_eq!(b.en_passant, None);
    play(&mut b, &["d4"]);
    assert_eq!(b.en_passant, Some(sq("d3")));
    play(&mut b, &["c5"]);
    assert_eq!(b.en_passant, Some(sq("c6")));
    play(&mut b, &["Ke2"]);
    assert_eq!(b.en_passant, None);
}

#[test]
fn a_pawn_without_a_letter_is_meant() {
    // Both the pawn on f2 and the knight on g1 reach f3.
    let mut b = Board::default();
    play(&mut b, &["f3"]);
    assert!(b.history[0].piece.is_pawn());
    let mut b = Board::default();
    play(&mut b, &["Pf3"]);
    assert!(b.history[0].piece.is_pawn());
}

#[test]
fn ambiguous_illegal_and_malformed_notations() {
    let b = board("4k3/8/8/8/8/8/8/1N2KN2 w - - 0 1");
    assert_eq!(
        b.parse_move("Nd2".to_owned()),
        Err(BoardError::AmbiguousMove("Nd2".to_owned()))
    );
    // The origin file settles it.
    match b.parse_move("bNd2".to_owned()).unwrap() {
        RawMove::Single(info) => assert_eq!(info.from, sq("b1")),
        RawMove::Castle(_, _) => panic!("no castling"),
    }
    match b.parse_move("fNd2".to_owned()).unwrap() {
        RawMove::Single(info) => assert_eq!(info.from, sq("f1")),
        RawMove::Castle(_, _) => panic!("no castling"),
    }
    assert_eq!(b.parse_move("1Nd2".to_owned()), Err(BoardError::AmbiguousMove("1Nd2".to_owned())));
    assert_eq!(b.parse_move("2Nd2".to_owned()), Err(BoardError::IllegalMove("2Nd2".to_owned())));
    let d = Board::default();
    assert_eq!(d.parse_move("e5".to_owned()), Err(BoardError::IllegalMove("e5".to_owned())));
    assert_eq!(d.parse_move("Ke2".to_owned()), Err(BoardError::IllegalMove("Ke2".to_owned())));
    assert_eq!(d.parse_move("z9q".to_owned()), Err(BoardError::InvalidPattern("z9q".to_owned())));
    assert_eq!(d.parse_move("".to_owned()), Err(BoardError::InvalidPattern("".to_owned())));
    assert_eq!(d.parse_move("e4 ".to_owned()), Err(BoardError::InvalidPattern("e4 ".to_owned())));
    assert_eq!(d.parse_move("e8=K".to_owned()), Err(BoardError::InvalidPattern("e8=K".to_owned())));
    assert_eq!(d.parse_move("O-O".to_owned()), Err(BoardError::IllegalMove("O-O".to_owned())));
    assert_eq!(d.parse_move("O-O-O".to_owned()), Err(BoardError::IllegalMove("O-O-O".to_owned())));
    assert_eq!(d.parse_move("0-0".to_owned()), Err(BoardError::InvalidPattern("0-0".to_owned())));
}

#[test]
fn an_error_leaves_the_board_as_it_was() {
    let mut b = Board::default();
    let before = b.clone();
    assert!(b.make_move("e5".to_owned()).is_err());
    assert!(b.make_move("z9q".to_owned()).is_err());
    assert!(b.make_move("O-O".to_owned()).is_err());
    assert_eq!(b, before);
}

#[test]
fn piece_letter_case_is_the_side_to_move() {
    let mut b = Board::default();
    assert_eq!(b.parse_move("nf3".to_owned()), Err(BoardError::IllegalMove("nf3".to_owned())));
    play(&mut b, &["Nf3"]);
    assert_eq!(b.parse_move("Nf6".to_owned()), Err(BoardError::IllegalMove("Nf6".to_owned())));
    play(&mut b, &["nf6"]);
    assert_eq!(b.fen_notation(), "rnbqkb1r/pppppppp/5n2/8/8/5N2/PPPPPPPP/RNBQKB1R w KQkq - 2 2");
}

#[test]
fn capture_mark_asks_for_a_capture() {
    let mut b = Board::default();
    assert_eq!(b.parse_move("xe4".to_owned()), Err(BoardError::IllegalMove("xe4".to_owned())));
    play(&mut b, &["e4", "d5", "exd5"]);
    assert_eq!(b.fen_notation(), "rnbqkbnr/ppp1pppp/8/3P4/8/8/PPPP1PPP/RNBQKBNR b KQkq - 0 2");
    assert_eq!(b.history[2].capture, Some(BitPiece::new(Piece::Pawn, Color::Black, true)));
}

#[test]
fn en_passant_capture_removes_the_pawn() {
    let mut b = Board::default();
    play(&mut b, &["e4", "a6", "e5", "d5", "exd6"]);
    assert_eq!(b.fen_notation(), "rnbqkbnr/1pp1pppp/p2P4/8/8/8/PPPP1PPP/RNBQKBNR b KQkq - 0 3");
    let last = b.history[4];
    assert!(last.en_passant);
    assert_eq!(last.capture, Some(BitPiece::new(Piece::Pawn, Color::Black, true)));
    let mut b = Board::default();
    play(&mut b, &["h3", "e5", "h4", "e4", "d4", "exd3"]);
    assert_eq!(b.fen_notation(), "rnbqkbnr/pppp1ppp/8/8/7P/3p4/PPP1PPP1/RNBQKBNR w KQkq - 0 4");
}

#[test]
fn promotion_needs_its_letter() {
    let mut b = board("2p5/1P6/8/8/8/8/5k2/K7 w - - 0 1");
    assert_eq!(b.make_move("b8".to_owned()), Err(BoardError::IllegalMove("b8".to_owned())));
    assert_eq!(b.make_move("b8=q".to_owned()), Err(BoardError::IllegalMove("b8=q".to_owned())));
    assert_eq!(b.fen_notation(), "2p5/1P6/8/8/8/8/5k2/K7 w - - 0 1");
    b.make_move("b8=N".to_owned()).unwrap();
    assert_eq!(b.fen_notation(), "1Np5/8/8/8/8/8/5k2/K7 b - - 0 1");
    assert_eq!(b.at(sq("b8")), BitPiece::new(Piece::Knight, Color::White, true));
    assert_eq!(b.history[0].promotion, Some(BitPiece::new(Piece::Knight, Color::White, true)));
    assert_eq!(b.history[0].piece, BitPiece::new(Piece::Pawn, Color::White, false));
    // A move that does not reach the last rank cannot promote.
    let d = Board::default();
    assert_eq!(d.parse_move("e4=Q".to_owned()), Err(BoardError::IllegalMove("e4=Q".to_owned())));
}

#[test]
fn castling_moves_king_and_rook() {
    let mut b = board("r3k2r/8/8/8/8/8/8/R3K2R w KQkq - 0 1");
    match b.parse_move("O-O".to_owned()).unwrap() {
        RawMove::Castle(king, rook) => {
            assert_eq!((king.from, king.to), (sq("e1"), sq("g1")));
            assert_eq!((rook.from, rook.to), (sq("h1"), sq("f1")));
        }
        RawMove::Single(_) => panic!("O-O is a castling"),
    }
    play(&mut b, &["O-O"]);
    assert_eq!(b.fen_notation(), "r3k2r/8/8/8/8/8/8/R4RK1 b kq - 1 1");
    assert_eq!(b.history[0].castle, Some(CastleMove::KingSide));
    assert!(b.at(sq("g1")).has_moved() && b.at(sq("f1")).has_moved());
    play(&mut b, &["O-O-O"]);
    assert_eq!(b.fen_notation(), "2kr3r/8/8/8/8/8/8/R4RK1 w - - 2 2");
    assert_eq!(b.history[1].castle, Some(CastleMove::QueenSide));
}

#[test]
fn castling_through_an_attack_on_the_king_square_is_refused() {
    // After castling the king would stand on g1, which the rook on g8 attacks.
    let b = board("4k1r1/8/8/8/8/8/8/R3K2R w KQ - 0 1");
    assert_eq!(b.parse_move("O-O".to_owned()), Err(BoardError::IllegalMove("O-O".to_owned())));
    assert!(b.parse_move("O-O-O".to_owned()).is_ok());
}

#[test]
fn castling_rights_only_narrow() {
    let mut b = board("r3k2r/8/8/8/8/8/8/R3K2R w KQkq - 0 1");
    let mut seen = vec![b.castling];
    for m in ["Rb1", "rg8", "Rh2", "ke7", "Ra1", "ke8", "Ke2", "ra7"] {
        b.make_move(m.to_owned()).unwrap();
        seen.push(b.castling);
    }
    assert_eq!(
        seen,
        vec![0b1111, 0b1011, 0b1001, 0b0001, 0b0000, 0b0000, 0b0000, 0b0000, 0b0000]
    );
    for pair in seen.windows(2) {
        assert_eq!(pair[1] & !pair[0], 0);
    }
    assert_eq!(b.fen_notation(), "4k1r1/r7/8/8/8/8/4K2R/R7 w - - 8 5");
}

#[test]
fn halfmove_clock_counts_quiet_plies() {
    let mut b = Board::default();
    let mut seen = vec![];
    for m in ["Nf3", "nf6", "Nc3", "d5", "Nxd5", "nxd5", "Rg1", "nf6"] {
        b.make_move(m.to_owned()).unwrap();
        seen.push(b.halfmove_clock);
    }
    assert_eq!(seen, vec![1, 2, 3, 0, 0, 0, 1, 2]);
}

#[test]
fn fullmove_number_counts_up_after_black() {
    let mut b = Board::default();
    let mut seen = vec![];
    for m in ["e4", "e5", "Nf3", "nc6", "Bb5"] {
        b.make_move(m.to_owned()).unwrap();
        seen.push(b.fullmove_number);
    }
    assert_eq!(seen, vec![1, 2, 2, 3, 3]);
    assert_eq!(b.history.len(), 5);
}

#[test]
fn check_is_reported() {
    let mut b = Board::default();
    play(&mut b, &["e4", "f6", "Qh5"]);
    assert_eq!(b.status, BoardStatus::Check(Color::Black));
    assert!(b.history[2].check);
    assert!(!b.history[2].checkmate);
    assert_eq!(replies(&b), 1);
    play(&mut b, &["g6"]);
    assert_eq!(b.status, BoardStatus::Ongoing);
    assert!(!b.history[3].check);
}

#[test]
fn a_known_mate_is_checkmate() {
    let mut b = Board::default();
    play(&mut b, &["f3", "e5", "g4", "qh4"]);
    assert_eq!(b.status, BoardStatus::Checkmate(Color::White));
    assert_eq!(replies(&b), 0);
    assert!(b.history[3].checkmate);
    assert!(!b.history[3].check);
    assert_eq!(b.fen_notation(), "rnb1kbnr/pppp1ppp/8/4p3/6Pq/5P2/PPPPP2P/RNBQKBNR w KQkq - 1 3");
    assert_eq!(b.make_move("a3".to_owned()), Err(BoardError::IllegalMove("a3".to_owned())));
}

#[test]
fn a_known_stalemate_is_stalemate() {
    let mut b = board("7k/4Q3/6K1/8/8/8/8/8 w - - 0 1");
    play(&mut b, &["Qf7"]);
    assert_eq!(b.status, BoardStatus::Stalemate);
    assert_eq!(replies(&b), 0);
    assert!(!b.is_being_checked(Color::Black, &chess::Raw::gen_all_raw_moves(&b)));
    assert!(!b.history[0].check && !b.history[0].checkmate);
}

#[test]
fn status_returns_to_ongoing() {
    let mut b = board("4k3/8/8/8/8/8/4r3/4K3 w - - 0 1");
    play(&mut b, &["Kxe2"]);
    assert_eq!(b.status, BoardStatus::Ongoing);
}

#[test]
fn notation_is_read_from_capture_groups() {
    let g = |s: &str| Some(s.to_owned());
    let groups = vec![g("bNxd2"), g("b"), g("b"), g("N"), g("x"), g("d2"), None];
    assert_eq!(
        Notation::read(&groups),
        Some(Notation {
            origin: Some(Origin::File(1)),
            piece: Some(Letter { kind: Piece::Knight, color: Color::White }),
            capture: true,
            to: sq("d2"),
            promotion: None,
        })
    );
    let groups = vec![g("1e8=q"), g("1"), g("1"), None, None, g("e8"), g("=q")];
    assert_eq!(
        Notation::read(&groups),
        Some(Notation {
            origin: Some(Origin::Rank(0)),
            piece: None,
            capture: false,
            to: sq("e8"),
            promotion: Some(Letter { kind: Piece::Queen, color: Color::Black }),
        })
    );
    // Groups that the grammar cannot have produced are refused.
    assert_eq!(Notation::read(&vec![g("e4"), None, None, None, None, g("e4")]), None);
    assert_eq!(Notation::read(&vec![g("e4"), None, None, None, None, None, None]), None);
    assert_eq!(Notation::read(&vec![g("e9"), None, None, None, None, g("e9"), None]), None);
    assert_eq!(Notation::read(&vec![g("e4"), g("z"), None, None, None, g("e4"), None]), None);
    assert_eq!(Notation::read(&vec![g("e4"), None, None, g("x"), None, g("e4"), None]), None);
    assert_eq!(Notation::read(&vec![g("e8"), None, None, None, None, g("e8"), g("=K")]), None);
    assert_eq!(Notation::read(&vec![g("e8"), None, None, None, None, g("e8"), g("Q")]), None);
}

#[test]
fn notation_is_parsed_by_the_grammar() {
    assert_eq!(
        Notation::parse("e4"),
        Some(Notation { origin: None, piece: None, capture: false, to: sq("e4"), promotion: None })
    );
    assert_eq!(
        Notation::parse("Rxd4"),
        Some(Notation {
            origin: None,
            piece: Some(Letter { kind: Piece::Rook, color: Color::White }),
            capture: true,
            to: sq("d4"),
            promotion: None,
        })
    );
    // A leading `b` is read as the origin file where the rest still matches.
    assert_eq!(
        Notation::parse("bd7"),
        Some(Notation {
            origin: Some(Origin::File(1)),
            piece: None,
            capture: false,
            to: sq("d7"),
            promotion: None,
        })
    );
    assert_eq!(
        Notation::parse("b4"),
        Some(Notation { origin: None, piece: None, capture: false, to: sq("b4"), promotion: None })
    );
    assert_eq!(
        Notation::parse("7pxb8=N"),
        Some(Notation {
            origin: Some(Origin::Rank(6)),
            piece: Some(Letter { kind: Piece::Pawn, color: Color::Black }),
            capture: true,
            to: sq("b8"),
            promotion: Some(Letter { kind: Piece::Knight, color: Color::White }),
        })
    );
    assert_eq!(Notation::parse("z9q"), None);
    assert_eq!(Notation::parse("O-O"), None);
    assert_eq!(Notation::parse("e4e5"), None);
    assert_eq!(Notation::parse("xe4x"), None);
}

#[test]
fn resolve_takes_the_notation_as_given() {
    let b = Board::default();
    let n = Notation { origin: None, piece: None, capture: false, to: sq("e4"), promotion: None };
    assert_eq!(b.resolve("e4".to_owned(), Some(n)), b.parse_move("e4".to_owned()));
    assert_eq!(b.select(&n, "e4".to_owned()), b.parse_move("e4".to_owned()));
    assert_eq!(
        b.resolve("anything".to_owned(), None),
        Err(BoardError::InvalidPattern("anything".to_owned()))
    );
    assert_eq!(
        b.select_castling(CastleMove::KingSide, "O-O".to_owned()),
        Err(BoardError::IllegalMove("O-O".to_owned()))
    );
    let mut c = Board::default();
    c.play("e4".to_owned(), Some(n)).unwrap();
    assert_eq!(c.fen_notation(), "rnbqkbnr/pppppppp/8/8/4P3/8/PPPP1PPP/RNBQKBNR b KQkq e3 0 1");
}

#[test]
fn commit_makes_any_move() {
    let mut b = Board::default();
    let mv = b.parse_move("e4".to_owned()).unwrap();
    b.commit(mv, None);
    assert_eq!(b.fen_notation(), "rnbqkbnr/pppppppp/8/8/4P3/8/PPPP1PPP/RNBQKBNR b KQkq e3 0 1");
}

#[test]
fn a_pawn_becomes_neither_king_nor_pawn() {
    let mut b = board("2p5/1P6/8/8/8/8/5k2/K7 w - - 0 1");
    for kind in [Piece::King, Piece::Pawn] {
        let n = Notation {
            origin: None,
            piece: None,
            capture: false,
            to: sq("b8"),
            promotion: Some(Letter { kind, color: Color::White }),
        };
        assert_eq!(
            b.select(&n, "b8".to_owned()),
            Err(BoardError::IllegalMove("b8".to_owned()))
        );
        assert_eq!(
            b.play("b8".to_owned(), Some(n)),
            Err(BoardError::IllegalMove("b8".to_owned()))
        );
    }
    assert_eq!(b.fen_notation(), "2p5/1P6/8/8/8/8/5k2/K7 w - - 0 1");
}

#[test]
fn the_side_that_moved_is_never_left_in_check() {
    let mut b = Board::default();
    for m in ["e4", "e5", "Qh5", "nc6", "Bc4", "nf6", "Qxf7"] {
        let mover = b.turn;
        b.make_move(m.to_owned()).unwrap();
        assert!(!b.is_being_checked(mover, &chess::Raw::gen_all_raw_moves(&b)));
    }
    assert_eq!(b.status, BoardStatus::Checkmate(Color::Black));
    assert_eq!(b.standing(), b.status);
    assert_eq!(b.castling_rights(), 0b1111);
    assert_eq!(b.clocks(), (0, 4));
    assert_eq!(b.moves_made().len(), 7);
}

#[test]
fn a_whole_game_is_played_to_mate() {
    let mut b = Board::default();
    let moves = [
        "e4", "e5", "Nf3", "d6", "d4", "cbg4", "dxe5", "gbxf3", "Qxf3", "dxe5", "Bc4", "nf6",
        "Qb3", "qe7", "Nc3", "c6", "Bg5", "b5", "Nxb5", "cxb5", "Bxb5", "bnd7", "O-O-O", "rd8",
        "Rxd7", "rxd7", "Rd1", "qe6", "Bxd7", "nxd7", "Qb8", "nxb8", "Rd8",
    ];
    let checks = [20, 28, 30];
    for (i, m) in moves.iter().enumerate() {
        assert_eq!(b.status == BoardStatus::Ongoing, i == 0 || !checks.contains(&(i - 1)));
        b.make_move((*m).to_owned()).unwrap();
        assert_eq!(b.history.len(), i + 1);
        assert_eq!(b.history[i].check, checks.contains(&i));
    }
    assert_eq!(b.fen_notation(), "1n1Rkb1r/p4ppp/4q3/4p1B1/4P3/8/PPP2PPP/2K5 b k - 1 17");
    assert_eq!(b.status, BoardStatus::Checkmate(Color::Black));
    assert!(b.history[32].checkmate);
    assert_eq!(replies(&b), 0);
    assert_eq!(b.history[22].castle, Some(CastleMove::QueenSide));
}

#[test]
fn a_notation_writes_the_text_it_was_read_from() {
    for text in ["e4", "Nf3", "Rxd4", "e8=Q", "xc8=Q", "bd7", "cbd7", "1Nd2", "7pxb8=n", "hPxg8=R"] {
        let n = Notation::parse(text).unwrap();
        let written: String = n.write().iter().collect();
        assert_eq!(written, text);
    }
    assert!(chess::notation::same_chars(&vec!['e', '4'], &vec!['e', '4']));
    assert!(!chess::notation::same_chars(&vec!['e', '4'], &vec!['e', '5']));
    assert!(!chess::notation::same_chars(&vec!['e', '4'], &vec!['e']));
}

#[test]
fn a_leading_b_is_the_b_file() {
    let bishop = Notation {
        origin: None,
        piece: Some(Letter { kind: Piece::Bishop, color: Color::Black }),
        capture: true,
        to: sq("d7"),
        promotion: None,
    };
    let file = Notation { origin: Some(Origin::File(1)), piece: None, ..bishop };
    assert_eq!(bishop.canonical(), file);
    assert_eq!(file.canonical(), file);
    assert_eq!(bishop.write(), file.write());
    assert_eq!(Notation::parse("bxd7"), Some(file));
    let white = Notation {
        piece: Some(Letter { kind: Piece::Bishop, color: Color::White }),
        ..bishop
    };
    assert_eq!(white.canonical(), white);
    assert_eq!(Notation::parse("Bxd7"), Some(white));
}
