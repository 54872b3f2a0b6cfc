use chess::{
    BitPiece, Board, CaptureInfo, CastleMove, Color, Legal, Piece, Raw, RawMove, RawMoveInfo,
    RawPieceMove, Square, Walk, DD, HD, VD,
};

fn sq(text: &str) -> Square {
    Square::parse(text.to_owned()).unwrap()
}

fn board(fen: &str) -> Board {
    Board::from_fen(fen.to_owned()).unwrap()
}

fn targets(moves: &[RawMove]) -> Vec<String> {
    moves
        .iter()
        .map(|mv| match mv {
            RawMove::Single(info) => info.to.text(),
            RawMove::Castle(king, _) => king.to.text(),
        })
        .collect()
}

fn of_color(moves: &[RawMove], color: Color) -> Vec<RawMove> {
    moves.iter().copied().filter(|mv| mv.mover_color() == color).collect()
}

#[test]
fn walk_stops_before_a_friend() {
    let b = Board::default();
    assert_eq!(Walk::vertical(&b, sq("a1"), VD::Up, 7), vec![]);
    assert_eq!(Walk::horizontal(&b, sq("a1"), HD::Right, 7), vec![]);
    assert_eq!(Walk::diagonal(&b, sq("c1"), DD::UpRight, 7), vec![]);
}

#[test]
fn walk_from_an_empty_square_is_empty() {
    let b = Board::default();
    assert_eq!(Walk::vertical(&b, sq("e4"), VD::Up, 7), vec![]);
    assert_eq!(Walk::diagonal(&b, sq("e4"), DD::DownLeft, 7), vec![]);
}

#[test]
fn walk_stops_on_an_enemy() {
    let b = board("4k3/8/8/8/8/8/7p/4K2R w - - 0 1");
    assert_eq!(Walk::vertical(&b, sq("h1"), VD::Up, 7), vec![sq("h2")]);
    assert_eq!(Walk::horizontal(&b, sq("h1"), HD::Left, 7), vec![sq("g1"), sq("f1")]);
    assert_eq!(Walk::horizontal(&b, sq("h1"), HD::Right, 7), vec![]);
    assert_eq!(Walk::vertical(&b, sq("h1"), VD::Down, 7), vec![]);
}

#[test]
fn walk_clamps_the_offset() {
    let b = board("4k3/8/8/8/3Q4/8/8/4K3 w - - 0 1");
    assert_eq!(Walk::vertical(&b, sq("d4"), VD::Up, 0), vec![sq("d5")]);
    assert_eq!(Walk::vertical(&b, sq("d4"), VD::Up, 2), vec![sq("d5"), sq("d6")]);
    assert_eq!(
        Walk::vertical(&b, sq("d4"), VD::Up, 200),
        vec![sq("d5"), sq("d6"), sq("d7"), sq("d8")]
    );
    assert_eq!(
        Walk::diagonal(&b, sq("d4"), DD::UpRight, 7),
        vec![sq("e5"), sq("f6"), sq("g7"), sq("h8")]
    );
    assert_eq!(Walk::diagonal(&b, sq("d4"), DD::DownRight, 7), vec![sq("e3"), sq("f2"), sq("g1")]);
    assert_eq!(Walk::diagonal(&b, sq("d4"), DD::DownLeft, 7), vec![sq("c3"), sq("b2"), sq("a1")]);
    assert_eq!(Walk::diagonal(&b, sq("d4"), DD::UpLeft, 1), vec![sq("c5")]);
    assert_eq!(Walk::horizontal(&b, sq("d4"), HD::Left, 7), vec![sq("c4"), sq("b4"), sq("a4")]);
}

#[test]
fn start_position_has_twenty_moves_a_side() {
    let b = Board::default();
    let raw = Raw::gen_all_raw_moves(&b);
    assert_eq!(raw.len(), 40);
    assert_eq!(of_color(&raw, Color::White).len(), 20);
    assert_eq!(of_color(&raw, Color::Black).len(), 20);
    let legal = b.legal_moves();
    assert_eq!(legal, raw);
    assert_eq!(Legal::gen_all_legal_moves(&b), legal);
    assert_eq!(Legal::filter(&b, &raw), legal);
}

#[test]
fn pawn_advances_one_or_two() {
    let b = Board::default();
    let moves = Raw::gen_pawn_raw_moves(&b, sq("e2"));
    assert_eq!(targets(&moves), vec!["e3", "e4"]);
    let pawn = BitPiece::new(Piece::Pawn, Color::White, false);
    assert_eq!(
        moves[0],
        RawMove::Single(RawMoveInfo {
            piece: pawn,
            from: sq("e2"),
            to: sq("e3"),
            capture: None,
            promotion: false,
            castle: None,
            en_passant: false,
            en_passant_square: None,
        })
    );
    assert_eq!(
        moves[1],
        RawMove::Single(RawMoveInfo {
            piece: pawn,
            from: sq("e2"),
            to: sq("e4"),
            capture: None,
            promotion: false,
            castle: None,
            en_passant: false,
            en_passant_square: Some(sq("e3")),
        })
    );
    let black = Raw::gen_pawn_raw_moves(&b, sq("c7"));
    assert_eq!(targets(&black), vec!["c6", "c5"]);
}

#[test]
fn pawn_that_has_moved_advances_one() {
    let mut b = Board::default();
    b.make_move("e4".to_owned()).unwrap();
    assert_eq!(targets(&Raw::gen_pawn_raw_moves(&b, sq("e4"))), vec!["e5"]);
}

#[test]
fn pawn_is_blocked_by_any_piece() {
    let b = board("4k3/8/8/8/8/4p3/4P3/4K3 w - - 0 1");
    assert_eq!(Raw::gen_pawn_raw_moves(&b, sq("e2")), vec![]);
    let b = board("4k3/8/8/8/4p3/8/4P3/4K3 w - - 0 1");
    assert_eq!(targets(&Raw::gen_pawn_raw_moves(&b, sq("e2"))), vec!["e3"]);
}

#[test]
fn pawn_captures_diagonally() {
    let b = board("4k3/8/8/8/8/3p1n2/4P3/4K3 w - - 0 1");
    let moves = Raw::gen_pawn_raw_moves(&b, sq("e2"));
    assert_eq!(targets(&moves), vec!["e3", "e4", "d3", "f3"]);
    match moves[3] {
        RawMove::Single(info) => {
            assert_eq!(
                info.capture,
                Some(CaptureInfo {
                    piece: BitPiece::new(Piece::Knight, Color::Black, false),
                    square: sq("f3"),
                })
            );
            assert!(!info.en_passant);
            assert!(!info.promotion);
        }
        RawMove::Castle(_, _) => panic!("a pawn does not castle"),
    }
}

#[test]
fn pawn_captures_en_passant_behind_the_target() {
    let b = board("4k3/8/8/3pP3/8/8/8/4K3 w - d6 0 1");
    let moves = Raw::gen_pawn_raw_moves(&b, sq("e5"));
    assert_eq!(targets(&moves), vec!["e6", "e7", "d6"]);
    match moves[2] {
        RawMove::Single(info) => {
            assert!(info.en_passant);
            assert_eq!(
                info.capture,
                Some(CaptureInfo {
                    piece: BitPiece::new(Piece::Pawn, Color::Black, false),
                    square: sq("d5"),
                })
            );
        }
        RawMove::Castle(_, _) => panic!("a pawn does not castle"),
    }
    // For Black the captured pawn stands one row above the target.
    let b = board("4k3/8/8/8/3pP3/8/8/4K3 b - e3 0 1");
    let moves = Raw::gen_pawn_raw_moves(&b, sq("d4"));
    assert_eq!(targets(&moves), vec!["d3", "d2", "e3"]);
    match moves[2] {
        RawMove::Single(info) => {
            assert!(info.en_passant);
            assert_eq!(info.capture.unwrap().square, sq("e4"));
        }
        RawMove::Castle(_, _) => panic!("a pawn does not castle"),
    }
}

#[test]
fn en_passant_needs_a_pawn_to_capture() {
    let b = board("4k3/8/8/4P3/8/8/8/4K3 w - d6 0 1");
    assert_eq!(targets(&Raw::gen_pawn_raw_moves(&b, sq("e5"))), vec!["e6", "e7"]);
}

#[test]
fn pawn_on_the_seventh_may_promote() {
    let b = board("2p5/1P6/8/8/8/8/5k2/K7 w - - 0 1");
    let moves = Raw::gen_pawn_raw_moves(&b, sq("b7"));
    assert_eq!(targets(&moves), vec!["b8", "c8"]);
    for mv in moves {
        match mv {
            RawMove::Single(info) => assert!(info.promotion),
            RawMove::Castle(_, _) => panic!("a pawn does not castle"),
        }
    }
}

#[test]
fn knight_jumps_are_clipped_at_the_edge() {
    let b = Board::default();
    assert_eq!(targets(&Raw::gen_knight_raw_moves(&b, sq("b1"))), vec!["a3", "c3"]);
    assert_eq!(targets(&Raw::gen_knight_raw_moves(&b, sq("g8"))), vec!["f6", "h6"]);
    let b = board("4k3/8/8/8/3N4/8/8/4K3 w - - 0 1");
    assert_eq!(
        targets(&Raw::gen_knight_raw_moves(&b, sq("d4"))),
        vec!["c6", "e6", "c2", "e2", "b5", "f5", "b3", "f3"]
    );
    assert_eq!(Raw::gen_knight_raw_moves(&b, sq("d5")), vec![]);
}

#[test]
fn rook_bishop_and_queen_slide() {
    let b = board("4k3/8/8/8/3R4/8/8/4K3 w - - 0 1");
    assert_eq!(Raw::gen_rook_raw_moves(&b, sq("d4")).len(), 14);
    let b = board("4k3/8/8/8/3B4/8/8/4K3 w - - 0 1");
    assert_eq!(Raw::gen_bishop_raw_moves(&b, sq("d4")).len(), 13);
    let b = board("4k3/8/8/8/3Q4/8/8/4K3 w - - 0 1");
    let queen = Raw::gen_queen_raw_moves(&b, sq("d4"));
    assert_eq!(queen.len(), 27);
    assert_eq!(&queen[..13], &Raw::gen_bishop_raw_moves(&b, sq("d4"))[..]);
    assert_eq!(&queen[13..], &Raw::gen_rook_raw_moves(&b, sq("d4"))[..]);
    // The queen's generator answers for queens only.
    assert_eq!(Raw::gen_queen_raw_moves(&b, sq("e1")), vec![]);
    assert_eq!(Raw::gen_queen_raw_moves(&b, sq("a1")), vec![]);
}

#[test]
fn king_steps_and_castles() {
    let b = board("r3k2r/8/8/8/8/8/8/R3K2R w KQkq - 0 1");
    let moves = Raw::gen_king_raw_moves(&b, sq("e1"));
    assert_eq!(targets(&moves), vec!["e2", "d1", "f1", "d2", "f2", "c1", "g1"]);
    let king = BitPiece::new(Piece::King, Color::White, false);
    let rook = BitPiece::new(Piece::Rook, Color::White, false);
    let leg = |piece, from: &str, to: &str, side| RawMoveInfo {
        piece,
        from: sq(from),
        to: sq(to),
        capture: None,
        promotion: false,
        castle: Some(side),
        en_passant: false,
        en_passant_square: None,
    };
    assert_eq!(
        moves[5],
        RawMove::Castle(
            leg(king, "e1", "c1", CastleMove::QueenSide),
            leg(rook, "a1", "d1", CastleMove::QueenSide)
        )
    );
    assert_eq!(
        moves[6],
        RawMove::Castle(
            leg(king, "e1", "g1", CastleMove::KingSide),
            leg(rook, "h1", "f1", CastleMove::KingSide)
        )
    );
}

#[test]
fn castling_needs_an_empty_path_and_unmoved_pieces() {
    let b = Board::default();
    assert_eq!(Raw::gen_king_raw_moves(&b, sq("e1")), vec![]);
    let b = board("r3k2r/8/8/8/8/8/8/RN2K1NR w KQkq - 0 1");
    assert_eq!(targets(&Raw::gen_king_raw_moves(&b, sq("e1"))), vec!["e2", "d1", "f1", "d2", "f2"]);
    // A rook of the other colour in the corner does not do.
    let b = board("4k3/8/8/8/8/8/8/r3K2R w K - 0 1");
    let moves = Raw::gen_king_raw_moves(&b, sq("e1"));
    assert_eq!(targets(&moves), vec!["e2", "d1", "f1", "d2", "f2", "g1"]);
    // A king that has moved does not castle.
    let mut b = board("r3k2r/8/8/8/8/8/8/R3K2R w KQkq - 0 1");
    b.make_move("Ke2".to_owned()).unwrap();
    b.make_move("ke7".to_owned()).unwrap();
    b.make_move("Ke1".to_owned()).unwrap();
    b.make_move("ke8".to_owned()).unwrap();
    assert_eq!(targets(&Raw::gen_king_raw_moves(&b, sq("e1"))), vec!["e2", "d1", "f1", "d2", "f2"]);
}

#[test]
fn legal_moves_leave_the_king_safe() {
    // The white king is attacked by the rook on e2: it may take the rook
    // or step aside on the first rank, but not onto the second.
    let b = board("4k3/8/8/8/8/8/4r3/4K3 w - - 0 1");
    let legal = of_color(&b.legal_moves(), Color::White);
    assert_eq!(targets(&legal), vec!["e2", "d1", "f1"]);
    for mv in b.legal_moves() {
        assert!(Legal::is_safe(&b, mv));
        let mut after = b.clone();
        after.force_execute_raw_move(mv);
        let replies = Raw::gen_all_raw_moves(&after);
        assert!(!after.is_being_checked(mv.mover_color(), &replies));
    }
}

#[test]
fn a_pinned_piece_may_not_leave_the_line() {
    let b = board("4k3/4r3/8/8/8/8/4B3/4K3 w - - 0 1");
    let legal = of_color(&b.legal_moves(), Color::White);
    assert!(legal.iter().all(|mv| match mv {
        RawMove::Single(info) => info.piece.is_king(),
        RawMove::Castle(_, _) => false,
    }));
    assert_eq!(of_color(&Raw::gen_all_raw_moves(&b), Color::White).len(), 9 + 4);
    assert_eq!(legal.len(), 4);
}

#[test]
fn is_being_checked_looks_at_single_moves_of_the_other_side() {
    let b = board("4k3/8/8/8/8/8/4r3/4K3 w - - 0 1");
    let raw = Raw::gen_all_raw_moves(&b);
    assert!(b.is_being_checked(Color::White, &raw));
    assert!(!b.is_being_checked(Color::Black, &raw));
    assert!(!b.is_being_checked(Color::White, &vec![]));
    assert!(!b.is_being_checked(Color::White, &of_color(&raw, Color::White)));
}

#[test]
fn force_execute_relocates_and_marks_as_moved() {
    let mut b = Board::default();
    let mv = Raw::gen_pawn_raw_moves(&b, sq("e2"))[1];
    b.force_execute_raw_move(mv);
    assert!(b.at(sq("e2")).is_blank());
    assert_eq!(b.at(sq("e4")), BitPiece::new(Piece::Pawn, Color::White, true));
    assert_eq!(b.en_passant, Some(sq("e3")));
    // Nothing else is brought up to date.
    assert_eq!(b.turn, Color::White);
    assert_eq!(b.halfmove_clock, 0);
    assert!(b.history.is_empty());
}

#[test]
fn raw_piece_move_is_capture() {
    let b = board("4k3/8/8/8/8/3p4/4P3/4K3 w - - 0 1");
    let pawn = BitPiece::new(Piece::Pawn, Color::White, false);
    assert!(RawPieceMove { piece: pawn, from: sq("e2"), to: sq("d3") }.is_capture(&b));
    assert!(!RawPieceMove { piece: pawn, from: sq("e2"), to: sq("e3") }.is_capture(&b));
    assert!(!RawPieceMove { piece: pawn, from: sq("e2"), to: sq("e1") }.is_capture(&b));
}

#[test]
fn legs_of_a_castling_give_no_check() {
    let b = board("4k3/8/8/8/8/8/4r3/4K3 w - - 0 1");
    let rook = b.at(sq("e2"));
    let leg = RawMoveInfo {
        piece: rook,
        from: sq("e2"),
        to: sq("e1"),
        capture: None,
        promotion: false,
        castle: Some(CastleMove::KingSide),
        en_passant: false,
        en_passant_square: None,
    };
    assert!(b.is_being_checked(Color::White, &vec![RawMove::Single(leg)]));
    assert!(!b.is_being_checked(Color::White, &vec![RawMove::Castle(leg, leg)]));
}

#[test]
fn filter_keeps_the_order_of_the_candidates() {
    let b = board("4k3/8/8/8/8/8/4r3/4K3 w - - 0 1");
    let raw = Raw::gen_king_raw_moves(&b, sq("e1"));
    assert_eq!(targets(&raw), vec!["e2", "d1", "f1", "d2", "f2"]);
    assert_eq!(targets(&Legal::filter(&b, &raw)), vec!["e2", "d1", "f1"]);
    let mut reversed = raw.clone();
    reversed.reverse();
    assert_eq!(targets(&Legal::filter(&b, &reversed)), vec!["f1", "d1", "e2"]);
    assert_eq!(Legal::filter(&b, &vec![]), vec![]);
}
