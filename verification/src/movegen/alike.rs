//! Whether a king is capturable depends only on what the attacker sees.

use crate::bitpiece::BitPiece;
use crate::chess_move::CastleMove;
use crate::color::Color;
use crate::movegen::raw::{
    all_raw_moves, bishop_moves, castling, diagonal_moves, forward, king_moves, knight_jump,
    knight_moves, line_moves, moves_from, moves_up_to, pawn_advance, pawn_capture,
    pawn_moves, plain_move, queen_moves, rook_moves, straight_moves, RawMove,
};
use crate::movegen::walk::{clamp_offset, lemma_ray_shape, ray, reach};
use crate::piece::Piece;
use crate::position::Position;
use crate::square::Square;
use vstd::prelude::*;

verus! {

/// Whether two boards look alike to the side that attacks the pieces of
/// the colour `color`: each cell is the same on both, or holds on both a
/// piece of that colour that is no king.
pub open spec fn alike(a: Seq<BitPiece>, b: Seq<BitPiece>, color: Color) -> bool {
    &&& a.len() == 64
    &&& b.len() == 64
    &&& forall|i: int|
        0 <= i < 64 ==> #[trigger] a[i] == b[i] || {
            &&& !a[i].spec_is_blank()
            &&& !b[i].spec_is_blank()
            &&& a[i].spec_color() == color
            &&& b[i].spec_color() == color
            &&& !a[i].holds(Piece::King)
            &&& !b[i].holds(Piece::King)
        }
}

/// Boards that look alike have the same rays.
proof fn lemma_ray_alike(
    a: Seq<BitPiece>,
    b: Seq<BitPiece>,
    color: Color,
    from: Square,
    walker: Color,
    rows: int,
    cols: int,
    budget: nat,
)
    requires
        alike(a, b, color),
        from.wf(),
        -1 <= rows <= 1,
        -1 <= cols <= 1,
    ensures
        ray(a, from, walker, rows, cols, budget) == ray(b, from, walker, rows, cols, budget),
    decreases budget,
{
    broadcast use Square::lemma_at_view;

    if budget > 0 {
        if let Some(next) = from.offset(rows, cols) {
            assert(a[next@] == b[next@] || (!a[next@].spec_is_blank() && !b[next@].spec_is_blank()
                && a[next@].spec_color() == b[next@].spec_color()));
            lemma_ray_alike(a, b, color, next, walker, rows, cols, (budget - 1) as nat);
        }
    }
}

/// A member of two lists that are joined is a member of one of them.
proof fn lemma_member_of_sum(x: Seq<RawMove>, y: Seq<RawMove>, mv: RawMove)
    ensures
        (x + y).contains(mv) <==> x.contains(mv) || y.contains(mv),
{
    if (x + y).contains(mv) {
        let i = choose|i: int| 0 <= i < (x + y).len() && (x + y)[i] == mv;
        if i < x.len() {
            assert(x[i] == mv);
        } else {
            assert(y[i - x.len()] == mv);
        }
    }
    if x.contains(mv) {
        let i = choose|i: int| 0 <= i < x.len() && x[i] == mv;
        assert((x + y)[i] == mv);
    }
    if y.contains(mv) {
        let i = choose|i: int| 0 <= i < y.len() && y[i] == mv;
        assert((x + y)[i + x.len()] == mv);
    }
}

/// What a list keeps of an item is a member of what it keeps of all.
proof fn lemma_kept_is_member(
    items: Seq<Square>,
    f: spec_fn(Square) -> Option<RawMove>,
    item: Square,
)
    requires
        items.contains(item),
        f(item) is Some,
    ensures
        items.filter_map(f).contains(f(item)->0),
    decreases items.len(),
{
    let rest = items.drop_last();
    let kept = rest.filter_map(f);
    if items.last() == item {
        let out = items.filter_map(f);
        assert(out == kept + seq![f(item)->0]);
        assert(out[out.len() - 1] == f(item)->0);
    } else {
        let i = choose|i: int| 0 <= i < items.len() && items[i] == item;
        assert(rest[i] == item);
        lemma_kept_is_member(rest, f, item);
        let j = choose|j: int| 0 <= j < kept.len() && kept[j] == f(item)->0;
        match f(items.last()) {
            Some(m) => {
                assert((kept + seq![m])[j] == f(item)->0);
            },
            None => {},
        }
    }
}

/// The attack along a line that takes a king on one board takes it on a
/// board that looks alike.
proof fn lemma_line_carries(
    a: Position,
    b: Position,
    color: Color,
    from: Square,
    rows: int,
    cols: int,
    max_offset: u8,
    mv: RawMove,
)
    requires
        alike(a.cells, b.cells, color),
        from.wf(),
        -1 <= rows <= 1,
        -1 <= cols <= 1,
        line_moves(b, from, rows, cols, max_offset).contains(mv),
        b.takes_king(color, mv),
    ensures
        a.cell(from) == b.cell(from),
        line_moves(a, from, rows, cols, max_offset).contains(plain_move(a, from, mv.lead().to)),
        a.takes_king(color, plain_move(a, from, mv.lead().to)),
{
    let moves = line_moves(b, from, rows, cols, max_offset);
    let targets = reach(b, from, rows, cols, max_offset);
    let i = choose|i: int| 0 <= i < moves.len() && moves[i] == mv;
    let to = targets[i];
    assert(mv == plain_move(b, from, to));
    assert(a.cells[from@] == b.cells[from@]);
    let walker = b.cell(from).spec_color();
    lemma_ray_alike(a.cells, b.cells, color, from, walker, rows, cols, clamp_offset(max_offset));
    lemma_ray_shape(b.cells, from, walker, rows, cols, clamp_offset(max_offset));
    assert(reach(a, from, rows, cols, max_offset) == targets);
    assert(to.wf());
    assert(a.cells[to@] == b.cells[to@]);
    assert(line_moves(a, from, rows, cols, max_offset)[i] == plain_move(a, from, to));
}

/// The attack along a rank or file that takes a king on one board takes it
/// on a board that looks alike.
proof fn lemma_straight_carries(
    a: Position,
    b: Position,
    color: Color,
    from: Square,
    max_offset: u8,
    mv: RawMove,
)
    requires
        alike(a.cells, b.cells, color),
        from.wf(),
        straight_moves(b, from, max_offset).contains(mv),
        b.takes_king(color, mv),
    ensures
        a.cell(from) == b.cell(from),
        straight_moves(a, from, max_offset).contains(plain_move(a, from, mv.lead().to)),
        a.takes_king(color, plain_move(a, from, mv.lead().to)),
{
    let m = plain_move(a, from, mv.lead().to);
    let b1 = line_moves(b, from, 1, 0, max_offset);
    let b2 = line_moves(b, from, -1, 0, max_offset);
    let b3 = line_moves(b, from, 0, -1, max_offset);
    let b4 = line_moves(b, from, 0, 1, max_offset);
    let a1 = line_moves(a, from, 1, 0, max_offset);
    let a2 = line_moves(a, from, -1, 0, max_offset);
    let a3 = line_moves(a, from, 0, -1, max_offset);
    let a4 = line_moves(a, from, 0, 1, max_offset);
    lemma_member_of_sum(b1 + b2 + b3, b4, mv);
    lemma_member_of_sum(b1 + b2, b3, mv);
    lemma_member_of_sum(b1, b2, mv);
    if b1.contains(mv) {
        lemma_line_carries(a, b, color, from, 1, 0, max_offset, mv);
    } else if b2.contains(mv) {
        lemma_line_carries(a, b, color, from, -1, 0, max_offset, mv);
    } else if b3.contains(mv) {
        lemma_line_carries(a, b, color, from, 0, -1, max_offset, mv);
    } else {
        lemma_line_carries(a, b, color, from, 0, 1, max_offset, mv);
    }
    lemma_member_of_sum(a1, a2, m);
    lemma_member_of_sum(a1 + a2, a3, m);
    lemma_member_of_sum(a1 + a2 + a3, a4, m);
}

/// The attack along a diagonal that takes a king on one board takes it on
/// a board that looks alike.
proof fn lemma_diagonal_carries(
    a: Position,
    b: Position,
    color: Color,
    from: Square,
    max_offset: u8,
    mv: RawMove,
)
    requires
        alike(a.cells, b.cells, color),
        from.wf(),
        diagonal_moves(b, from, max_offset).contains(mv),
        b.takes_king(color, mv),
    ensures
        a.cell(from) == b.cell(from),
        diagonal_moves(a, from, max_offset).contains(plain_move(a, from, mv.lead().to)),
        a.takes_king(color, plain_move(a, from, mv.lead().to)),
{
    let m = plain_move(a, from, mv.lead().to);
    let b1 = line_moves(b, from, 1, -1, max_offset);
    let b2 = line_moves(b, from, 1, 1, max_offset);
    let b3 = line_moves(b, from, -1, -1, max_offset);
    let b4 = line_moves(b, from, -1, 1, max_offset);
    let a1 = line_moves(a, from, 1, -1, max_offset);
    let a2 = line_moves(a, from, 1, 1, max_offset);
    let a3 = line_moves(a, from, -1, -1, max_offset);
    let a4 = line_moves(a, from, -1, 1, max_offset);
    lemma_member_of_sum(b1 + b2 + b3, b4, mv);
    lemma_member_of_sum(b1 + b2, b3, mv);
    lemma_member_of_sum(b1, b2, mv);
    if b1.contains(mv) {
        lemma_line_carries(a, b, color, from, 1, -1, max_offset, mv);
    } else if b2.contains(mv) {
        lemma_line_carries(a, b, color, from, 1, 1, max_offset, mv);
    } else if b3.contains(mv) {
        lemma_line_carries(a, b, color, from, -1, -1, max_offset, mv);
    } else {
        lemma_line_carries(a, b, color, from, -1, 1, max_offset, mv);
    }
    lemma_member_of_sum(a1, a2, m);
    lemma_member_of_sum(a1 + a2, a3, m);
    lemma_member_of_sum(a1 + a2 + a3, a4, m);
}

/// The jump of a knight that takes a king on one board takes it on a board
/// that looks alike.
proof fn lemma_jump_carries(
    a: Position,
    b: Position,
    color: Color,
    from: Square,
    rows: int,
    cols: int,
    mv: RawMove,
)
    requires
        alike(a.cells, b.cells, color),
        from.wf(),
        knight_jump(b, from, rows, cols).contains(mv),
        b.takes_king(color, mv),
    ensures
        a.cell(from) == b.cell(from),
        knight_jump(a, from, rows, cols).contains(plain_move(a, from, mv.lead().to)),
        a.takes_king(color, plain_move(a, from, mv.lead().to)),
{
    broadcast use Square::lemma_at_view;

    let to = from.offset(rows, cols)->0;
    assert(knight_jump(b, from, rows, cols)[0] == mv);
    assert(mv == plain_move(b, from, to));
    assert(a.cells[from@] == b.cells[from@]);
    assert(a.cells[to@] == b.cells[to@]);
    assert(knight_jump(a, from, rows, cols)[0] == plain_move(a, from, to));
}

/// The attack of a knight that takes a king on one board takes it on a
/// board that looks alike.
proof fn lemma_knight_carries(a: Position, b: Position, color: Color, from: Square, mv: RawMove)
    requires
        alike(a.cells, b.cells, color),
        from.wf(),
        knight_moves(b, from).contains(mv),
        b.takes_king(color, mv),
    ensures
        a.cell(from) == b.cell(from),
        knight_moves(a, from).contains(plain_move(a, from, mv.lead().to)),
        a.takes_king(color, plain_move(a, from, mv.lead().to)),
{
    let m = plain_move(a, from, mv.lead().to);
    let b1 = knight_jump(b, from, 2, -1);
    let b2 = knight_jump(b, from, 2, 1);
    let b3 = knight_jump(b, from, -2, -1);
    let b4 = knight_jump(b, from, -2, 1);
    let b5 = knight_jump(b, from, 1, -2);
    let b6 = knight_jump(b, from, 1, 2);
    let b7 = knight_jump(b, from, -1, -2);
    let b8 = knight_jump(b, from, -1, 2);
    let a1 = knight_jump(a, from, 2, -1);
    let a2 = knight_jump(a, from, 2, 1);
    let a3 = knight_jump(a, from, -2, -1);
    let a4 = knight_jump(a, from, -2, 1);
    let a5 = knight_jump(a, from, 1, -2);
    let a6 = knight_jump(a, from, 1, 2);
    let a7 = knight_jump(a, from, -1, -2);
    let a8 = knight_jump(a, from, -1, 2);
    assert(!b.cell(from).spec_is_blank());
    lemma_member_of_sum(b1 + b2 + b3 + b4 + b5 + b6 + b7, b8, mv);
    lemma_member_of_sum(b1 + b2 + b3 + b4 + b5 + b6, b7, mv);
    lemma_member_of_sum(b1 + b2 + b3 + b4 + b5, b6, mv);
    lemma_member_of_sum(b1 + b2 + b3 + b4, b5, mv);
    lemma_member_of_sum(b1 + b2 + b3, b4, mv);
    lemma_member_of_sum(b1 + b2, b3, mv);
    lemma_member_of_sum(b1, b2, mv);
    if b1.contains(mv) {
        lemma_jump_carries(a, b, color, from, 2, -1, mv);
    } else if b2.contains(mv) {
        lemma_jump_carries(a, b, color, from, 2, 1, mv);
    } else if b3.contains(mv) {
        lemma_jump_carries(a, b, color, from, -2, -1, mv);
    } else if b4.contains(mv) {
        lemma_jump_carries(a, b, color, from, -2, 1, mv);
    } else if b5.contains(mv) {
        lemma_jump_carries(a, b, color, from, 1, -2, mv);
    } else if b6.contains(mv) {
        lemma_jump_carries(a, b, color, from, 1, 2, mv);
    } else if b7.contains(mv) {
        lemma_jump_carries(a, b, color, from, -1, -2, mv);
    } else {
        lemma_jump_carries(a, b, color, from, -1, 2, mv);
    }
    lemma_member_of_sum(a1, a2, m);
    lemma_member_of_sum(a1 + a2, a3, m);
    lemma_member_of_sum(a1 + a2 + a3, a4, m);
    lemma_member_of_sum(a1 + a2 + a3 + a4, a5, m);
    lemma_member_of_sum(a1 + a2 + a3 + a4 + a5, a6, m);
    lemma_member_of_sum(a1 + a2 + a3 + a4 + a5 + a6, a7, m);
    lemma_member_of_sum(a1 + a2 + a3 + a4 + a5 + a6 + a7, a8, m);
}

/// The capture of a pawn to one side that takes a king on one board takes
/// it on a board that looks alike.
proof fn lemma_capture_carries(
    a: Position,
    b: Position,
    color: Color,
    from: Square,
    cols: int,
    mv: RawMove,
)
    requires
        alike(a.cells, b.cells, color),
        from.wf(),
        cols == 1 || cols == -1,
        reach(b, from, forward(b.cell(from).spec_color()), cols, 1).filter_map(
            |to: Square| pawn_capture(b, from, to),
        ).contains(mv),
        b.takes_king(color, mv),
    ensures
        a.cell(from) == b.cell(from),
        exists|m: RawMove|
            reach(a, from, forward(a.cell(from).spec_color()), cols, 1).filter_map(
                |to: Square| pawn_capture(a, from, to),
            ).contains(m) && a.takes_king(color, m),
{
    let walker = b.cell(from).spec_color();
    let rows = forward(walker);
    let targets = reach(b, from, rows, cols, 1);
    let fb = |to: Square| pawn_capture(b, from, to);
    let fa = |to: Square| pawn_capture(a, from, to);
    targets.lemma_filter_map_contains(fb, mv);
    let to = choose|to: Square| targets.contains(to) && fb(to) == Some(mv);
    assert(a.cells[from@] == b.cells[from@]);
    lemma_ray_alike(a.cells, b.cells, color, from, walker, rows, cols, clamp_offset(1));
    lemma_ray_shape(b.cells, from, walker, rows, cols, clamp_offset(1));
    let k = choose|k: int| 0 <= k < targets.len() && targets[k] == to;
    assert(to.wf());
    assert(a.cells[to@] == b.cells[to@]);
    assert(fa(to) is Some);
    lemma_kept_is_member(targets, fa, to);
    assert(a.takes_king(color, fa(to)->0));
}

/// The attack of a pawn that takes a king on one board takes it on a board
/// that looks alike.
proof fn lemma_pawn_carries(a: Position, b: Position, color: Color, from: Square, mv: RawMove)
    requires
        alike(a.cells, b.cells, color),
        from.wf(),
        pawn_moves(b, from).contains(mv),
        b.takes_king(color, mv),
    ensures
        a.cell(from) == b.cell(from),
        exists|m: RawMove| pawn_moves(a, from).contains(m) && a.takes_king(color, m),
{
    let piece = b.cell(from);
    let rows = forward(piece.spec_color());
    let budget: u8 = if piece.spec_has_moved() {
        1
    } else {
        2
    };
    let ahead = reach(b, from, rows, 0, budget);
    let fadv = |to: Square| pawn_advance(b, from, to);
    let b1 = ahead.filter_map(fadv);
    let b2 = reach(b, from, rows, -1, 1).filter_map(|to: Square| pawn_capture(b, from, to));
    let b3 = reach(b, from, rows, 1, 1).filter_map(|to: Square| pawn_capture(b, from, to));
    lemma_member_of_sum(b1 + b2, b3, mv);
    lemma_member_of_sum(b1, b2, mv);
    if b1.contains(mv) {
        ahead.lemma_filter_map_contains(fadv, mv);
        let to = choose|to: Square| ahead.contains(to) && fadv(to) == Some(mv);
        assert(b.cell(to).spec_is_blank());
        assert(false);
    }
    let cols: int = if b2.contains(mv) {
        -1
    } else {
        1
    };
    lemma_capture_carries(a, b, color, from, cols, mv);
    let a1 = reach(a, from, rows, 0, budget).filter_map(|to: Square| pawn_advance(a, from, to));
    let a2 = reach(a, from, rows, -1, 1).filter_map(|to: Square| pawn_capture(a, from, to));
    let a3 = reach(a, from, rows, 1, 1).filter_map(|to: Square| pawn_capture(a, from, to));
    let m = choose|m: RawMove|
        reach(a, from, rows, cols, 1).filter_map(|to: Square| pawn_capture(a, from, to)).contains(m)
            && a.takes_king(color, m);
    lemma_member_of_sum(a1, a2, m);
    lemma_member_of_sum(a1 + a2, a3, m);
}

/// The attack from a square that takes a king on one board takes it on a
/// board that looks alike.
proof fn lemma_attack_carries(a: Position, b: Position, color: Color, from: Square, mv: RawMove)
    requires
        alike(a.cells, b.cells, color),
        from.wf(),
        moves_from(b, from).contains(mv),
        b.takes_king(color, mv),
    ensures
        exists|m: RawMove| moves_from(a, from).contains(m) && a.takes_king(color, m),
{
    let piece = b.cell(from);
    let m = plain_move(a, from, mv.lead().to);
    assert(!piece.spec_is_blank());
    match piece.spec_piece() {
        Piece::Pawn => {
            lemma_pawn_carries(a, b, color, from, mv);
        },
        Piece::Knight => {
            lemma_knight_carries(a, b, color, from, mv);
            assert(moves_from(a, from).contains(m));
        },
        Piece::Bishop => {
            lemma_diagonal_carries(a, b, color, from, 7, mv);
            assert(moves_from(a, from).contains(m));
        },
        Piece::Rook => {
            lemma_straight_carries(a, b, color, from, 7, mv);
            assert(moves_from(a, from).contains(m));
        },
        Piece::Queen => {
            lemma_member_of_sum(bishop_moves(b, from), rook_moves(b, from), mv);
            if bishop_moves(b, from).contains(mv) {
                lemma_diagonal_carries(a, b, color, from, 7, mv);
            } else {
                lemma_straight_carries(a, b, color, from, 7, mv);
            }
            lemma_member_of_sum(bishop_moves(a, from), rook_moves(a, from), m);
            assert(queen_moves(a, from).contains(m));
            assert(moves_from(a, from).contains(m));
        },
        Piece::King => {
            let s = straight_moves(b, from, 1);
            let d = diagonal_moves(b, from, 1);
            let q = castling(b, from, CastleMove::QueenSide);
            let k = castling(b, from, CastleMove::KingSide);
            lemma_member_of_sum(s + d + q, k, mv);
            lemma_member_of_sum(s + d, q, mv);
            lemma_member_of_sum(s, d, mv);
            if q.contains(mv) {
                assert(q[0] == mv);
                assert(false);
            }
            if k.contains(mv) {
                assert(k[0] == mv);
                assert(false);
            }
            if s.contains(mv) {
                lemma_straight_carries(a, b, color, from, 1, mv);
            } else {
                lemma_diagonal_carries(a, b, color, from, 1, mv);
            }
            let sa = straight_moves(a, from, 1);
            let da = diagonal_moves(a, from, 1);
            let qa = castling(a, from, CastleMove::QueenSide);
            let ka = castling(a, from, CastleMove::KingSide);
            lemma_member_of_sum(sa, da, m);
            lemma_member_of_sum(sa + da, qa, m);
            lemma_member_of_sum(sa + da + qa, ka, m);
            assert(king_moves(a, from).contains(m));
            assert(moves_from(a, from).contains(m));
        },
    }
}

/// A pseudo-legal move is a move of the piece on one of the squares.
proof fn lemma_member_has_origin(pos: Position, count: nat, mv: RawMove)
    requires
        count <= 64,
        moves_up_to(pos, count).contains(mv),
    ensures
        exists|k: int| 0 <= k < count && moves_from(pos, Square::at(k)).contains(mv),
    decreases count,
{
    if count > 0 {
        let head = moves_up_to(pos, (count - 1) as nat);
        let tail = moves_from(pos, Square::at(count - 1));
        lemma_member_of_sum(head, tail, mv);
        if head.contains(mv) {
            lemma_member_has_origin(pos, (count - 1) as nat, mv);
        }
    }
}

/// A move of the piece on one of the squares is a pseudo-legal move.
proof fn lemma_origin_has_member(pos: Position, count: nat, k: int, mv: RawMove)
    requires
        0 <= k < count <= 64,
        moves_from(pos, Square::at(k)).contains(mv),
    ensures
        moves_up_to(pos, count).contains(mv),
    decreases count,
{
    let head = moves_up_to(pos, (count - 1) as nat);
    let tail = moves_from(pos, Square::at(count - 1));
    lemma_member_of_sum(head, tail, mv);
    if k < count - 1 {
        lemma_origin_has_member(pos, (count - 1) as nat, k, mv);
    }
}

/// Whether a king is capturable depends on what the attacker sees: where
/// two boards look alike to the side that attacks the pieces of a colour,
/// a king of that colour that is capturable on one is capturable on the
/// other. The en-passant targets of the two may differ.
pub proof fn lemma_check_carries(a: Position, b: Position, color: Color)
    requires
        alike(a.cells, b.cells, color),
        b.in_check(color),
    ensures
        a.in_check(color),
{
    broadcast use Square::lemma_at_view;

    let moves = all_raw_moves(b);
    let i = choose|i: int| 0 <= i < moves.len() && b.takes_king(color, #[trigger] moves[i]);
    let mv = moves[i];
    lemma_member_has_origin(b, 64, mv);
    let k = choose|k: int| 0 <= k < 64 && moves_from(b, Square::at(k)).contains(mv);
    lemma_attack_carries(a, b, color, Square::at(k), mv);
    let m = choose|m: RawMove|
        moves_from(a, Square::at(k)).contains(m) && a.takes_king(color, m);
    lemma_origin_has_member(a, 64, k, m);
    let j = choose|j: int| 0 <= j < all_raw_moves(a).len() && all_raw_moves(a)[j] == m;
    assert(a.takes_king(color, all_raw_moves(a)[j]));
}

} // verus!
