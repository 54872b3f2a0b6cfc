//! What the generator says of a position depends on its layout alone.

use crate::chess_move::CastleMove;
use crate::color::Color;
use crate::movegen::legal::{keeps_king_safe, legal_among, legal_moves};
use crate::movegen::raw::{
    all_raw_moves, castling, diagonal_moves, forward, knight_jump, knight_moves, line_moves,
    moves_from, moves_up_to, pawn_advance, pawn_capture, pawn_moves, plain_move, straight_moves,
    RawMove,
};
use crate::movegen::walk::reach;
use crate::position::Position;
use crate::square::Square;
use vstd::prelude::*;

verus! {

/// Whether two positions have the same pieces on the same squares and the
/// same en-passant target.
pub open spec fn same_layout(p: Position, q: Position) -> bool {
    p.cells == q.cells && p.en_passant == q.en_passant
}

/// The moves along a line depend on the layout alone.
proof fn lemma_line_frame(
    p: Position,
    q: Position,
    from: Square,
    rows: int,
    cols: int,
    max_offset: u8,
)
    requires
        same_layout(p, q),
    ensures
        line_moves(p, from, rows, cols, max_offset) == line_moves(q, from, rows, cols, max_offset),
{
    assert(line_moves(p, from, rows, cols, max_offset) =~= line_moves(
        q,
        from,
        rows,
        cols,
        max_offset,
    ));
}

/// The moves of the piece on a square depend on the layout alone.
proof fn lemma_moves_from_frame(p: Position, q: Position, from: Square)
    requires
        same_layout(p, q),
    ensures
        moves_from(p, from) == moves_from(q, from),
{
    lemma_line_frame(p, q, from, 1, 0, 7);
    lemma_line_frame(p, q, from, -1, 0, 7);
    lemma_line_frame(p, q, from, 0, -1, 7);
    lemma_line_frame(p, q, from, 0, 1, 7);
    lemma_line_frame(p, q, from, 1, -1, 7);
    lemma_line_frame(p, q, from, 1, 1, 7);
    lemma_line_frame(p, q, from, -1, -1, 7);
    lemma_line_frame(p, q, from, -1, 1, 7);
    lemma_line_frame(p, q, from, 1, 0, 1);
    lemma_line_frame(p, q, from, -1, 0, 1);
    lemma_line_frame(p, q, from, 0, -1, 1);
    lemma_line_frame(p, q, from, 0, 1, 1);
    lemma_line_frame(p, q, from, 1, -1, 1);
    lemma_line_frame(p, q, from, 1, 1, 1);
    lemma_line_frame(p, q, from, -1, -1, 1);
    lemma_line_frame(p, q, from, -1, 1, 1);
    assert(straight_moves(p, from, 7) == straight_moves(q, from, 7));
    assert(diagonal_moves(p, from, 7) == diagonal_moves(q, from, 7));
    assert(straight_moves(p, from, 1) == straight_moves(q, from, 1));
    assert(diagonal_moves(p, from, 1) == diagonal_moves(q, from, 1));
    assert(castling(p, from, CastleMove::QueenSide) == castling(q, from, CastleMove::QueenSide));
    assert(castling(p, from, CastleMove::KingSide) == castling(q, from, CastleMove::KingSide));
    assert(knight_moves(p, from) == knight_moves(q, from)) by {
        assert(knight_jump(p, from, 2, -1) == knight_jump(q, from, 2, -1));
        assert(knight_jump(p, from, 2, 1) == knight_jump(q, from, 2, 1));
        assert(knight_jump(p, from, -2, -1) == knight_jump(q, from, -2, -1));
        assert(knight_jump(p, from, -2, 1) == knight_jump(q, from, -2, 1));
        assert(knight_jump(p, from, 1, -2) == knight_jump(q, from, 1, -2));
        assert(knight_jump(p, from, 1, 2) == knight_jump(q, from, 1, 2));
        assert(knight_jump(p, from, -1, -2) == knight_jump(q, from, -1, -2));
        assert(knight_jump(p, from, -1, 2) == knight_jump(q, from, -1, 2));
    }
    assert(pawn_moves(p, from) == pawn_moves(q, from)) by {
        let piece = p.cell(from);
        let rows = forward(piece.spec_color());
        let budget: u8 = if piece.spec_has_moved() {
            1
        } else {
            2
        };
        let fp = |to: Square| pawn_advance(p, from, to);
        let fq = |to: Square| pawn_advance(q, from, to);
        assert(fp =~= fq);
        let gp = |to: Square| pawn_capture(p, from, to);
        let gq = |to: Square| pawn_capture(q, from, to);
        assert(gp =~= gq);
        assert(reach(p, from, rows, 0, budget) == reach(q, from, rows, 0, budget));
        assert(reach(p, from, rows, -1, 1) == reach(q, from, rows, -1, 1));
        assert(reach(p, from, rows, 1, 1) == reach(q, from, rows, 1, 1));
    }
}

/// The moves of the pieces on the first squares depend on the layout alone.
proof fn lemma_moves_up_to_frame(p: Position, q: Position, count: nat)
    requires
        same_layout(p, q),
    ensures
        moves_up_to(p, count) == moves_up_to(q, count),
    decreases count,
{
    if count > 0 {
        lemma_moves_up_to_frame(p, q, (count - 1) as nat);
        lemma_moves_from_frame(p, q, Square::at(count - 1));
    }
}

/// Whether a move leaves the mover's king safe depends on the layout alone.
proof fn lemma_safe_frame(p: Position, q: Position, mv: RawMove)
    requires
        same_layout(p, q),
    ensures
        keeps_king_safe(p, mv) == keeps_king_safe(q, mv),
{
    let a = p.forced(mv);
    let b = q.forced(mv);
    assert(same_layout(a, b));
    lemma_moves_up_to_frame(a, b, 64);
    let c = mv.mover();
    if a.in_check(c) {
        let i = choose|i: int|
            0 <= i < all_raw_moves(a).len() && a.takes_king(c, #[trigger] all_raw_moves(a)[i]);
        assert(b.takes_king(c, all_raw_moves(b)[i]));
    }
    if b.in_check(c) {
        let i = choose|i: int|
            0 <= i < all_raw_moves(b).len() && b.takes_king(c, #[trigger] all_raw_moves(b)[i]);
        assert(a.takes_king(c, all_raw_moves(a)[i]));
    }
}

/// What the generator and the legality filter say of a position depends
/// on its layout alone: on the pieces on the squares and on the en-passant
/// target, and neither on the turn, the castling rights, the clocks, the
/// status nor the history.
pub proof fn lemma_moves_frame(p: Position, q: Position)
    requires
        same_layout(p, q),
    ensures
        all_raw_moves(p) == all_raw_moves(q),
        legal_moves(p) == legal_moves(q),
        forall|c: Color| #[trigger] p.in_check(c) == q.in_check(c),
        p.turn == q.turn ==> p.standing() == q.standing(),
{
    lemma_moves_up_to_frame(p, q, 64);
    let fp = |mv: RawMove| keeps_king_safe(p, mv);
    let fq = |mv: RawMove| keeps_king_safe(q, mv);
    assert forall|mv: RawMove| #[trigger] keeps_king_safe(p, mv) == keeps_king_safe(q, mv) by {
        lemma_safe_frame(p, q, mv);
    }
    assert(fp =~= fq);
    assert(legal_among(p, all_raw_moves(p)) == legal_among(q, all_raw_moves(q)));
    assert forall|c: Color| #[trigger] p.in_check(c) == q.in_check(c) by {
        if p.in_check(c) {
            let i = choose|i: int|
                0 <= i < all_raw_moves(p).len() && p.takes_king(c, #[trigger] all_raw_moves(p)[i]);
            assert(q.takes_king(c, all_raw_moves(q)[i]));
        }
        if q.in_check(c) {
            let i = choose|i: int|
                0 <= i < all_raw_moves(q).len() && q.takes_king(c, #[trigger] all_raw_moves(q)[i]);
            assert(p.takes_king(c, all_raw_moves(p)[i]));
        }
    }
    if p.turn == q.turn {
        if p.has_reply() {
            let i = choose|i: int|
                0 <= i < legal_moves(p).len() && (#[trigger] legal_moves(p)[i]).mover() == p.turn;
            assert(legal_moves(q)[i].mover() == q.turn);
        }
        if q.has_reply() {
            let i = choose|i: int|
                0 <= i < legal_moves(q).len() && (#[trigger] legal_moves(q)[i]).mover() == q.turn;
            assert(legal_moves(p)[i].mover() == p.turn);
        }
    }
}

} // verus!
