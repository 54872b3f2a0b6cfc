//! What holds of every move that the generator makes.

use crate::chess_move::CastleMove;
use crate::movegen::raw::{
    all_raw_moves, bishop_moves, castling, diagonal_moves, en_passant_victim, forward,
    is_last_rank, king_goal, king_moves, knight_jump, knight_moves, line_moves, moves_from,
    moves_up_to, pawn_advance, pawn_capture, pawn_moves, plain_move, rook_goal,
    rook_home, rook_moves, straight_moves, RawMove, RawMoveInfo,
};
use crate::movegen::walk::{clamp_offset, lemma_ray_shape, reach};
use crate::piece::Piece;
use crate::position::Position;
use crate::square::Square;
use vstd::prelude::*;

verus! {

/// What holds of every single move that the generator makes: it starts on
/// an occupied square of the board with the piece that stands there and
/// ends on a square of the board that holds no piece of the mover's
/// colour; what it captures is a piece of the other colour, on the
/// destination or, en passant, on the mover's row behind the target; only
/// a pawn promotes, and it does so exactly on its last rank; and the move
/// opens an en-passant target exactly if it is the advance of a pawn by
/// two rows, the target being the square that the pawn skips.
pub open spec fn sound_single(pos: Position, info: RawMoveInfo) -> bool {
    let color = info.piece.spec_color();
    &&& info.from.wf()
    &&& info.to.wf()
    &&& info.piece == pos.cell(info.from)
    &&& !info.piece.spec_is_blank()
    &&& info.castle is None
    &&& (pos.cell(info.to).spec_is_blank() || pos.cell(info.to).spec_color() != color)
    &&& match info.capture {
        Some(c) => {
            &&& c.square.wf()
            &&& c.piece == pos.cell(c.square)
            &&& !c.piece.spec_is_blank()
            &&& c.piece.spec_color() != color
            &&& if info.en_passant {
                &&& c.piece.holds(Piece::Pawn)
                &&& c.square.row() == info.from.row()
                &&& c.square.col() == info.to.col()
            } else {
                c.square == info.to
            }
        },
        None => pos.cell(info.to).spec_is_blank() && !info.en_passant,
    }
    &&& (info.en_passant ==> info.piece.holds(Piece::Pawn) && pos.en_passant == Some(info.to)
        && pos.cell(info.to).spec_is_blank())
    &&& (info.promotion <==> info.piece.holds(Piece::Pawn) && is_last_rank(color, info.to))
    &&& (info.en_passant_square is Some <==> info.piece.holds(Piece::Pawn) && info.to.row()
        == info.from.row() + 2 * forward(color) && info.to.col() == info.from.col())
    &&& (info.en_passant_square matches Some(s) ==> s.wf() && s.col() == info.from.col() && s.row()
        == info.from.row() + forward(color))
}

/// What holds of every castling that the generator makes: the king's leg
/// moves a king that has never moved from the e-file to the c-file or the
/// g-file, the rook's leg moves a rook of the same colour that has never
/// moved from the corner of the same row to the square that the king
/// passes, and the squares between the two are empty.
pub open spec fn sound_castle(pos: Position, king: RawMoveInfo, rook: RawMoveInfo) -> bool {
    &&& king.from.wf() && king.to.wf() && rook.from.wf() && rook.to.wf()
    &&& king.piece == pos.cell(king.from)
    &&& rook.piece == pos.cell(rook.from)
    &&& king.piece.holds(Piece::King)
    &&& rook.piece.holds(Piece::Rook)
    &&& rook.piece.spec_color() == king.piece.spec_color()
    &&& !king.piece.spec_has_moved()
    &&& !rook.piece.spec_has_moved()
    &&& king.castle is Some
    &&& rook.castle == king.castle
    &&& king.from.col() == 4
    &&& king.to.row() == king.from.row() && rook.from.row() == king.from.row() && rook.to.row()
        == king.from.row()
    &&& rook.from.col() == rook_home(king.castle->0)
    &&& king.to.col() == king_goal(king.castle->0)
    &&& rook.to.col() == rook_goal(king.castle->0)
    &&& pos.cell(king.to).spec_is_blank()
    &&& pos.cell(rook.to).spec_is_blank()
    &&& king.capture is None && rook.capture is None
    &&& !king.promotion && !rook.promotion
    &&& !king.en_passant && !rook.en_passant
    &&& king.en_passant_square is None && rook.en_passant_square is None
}

/// What holds of every move that the generator makes.
pub open spec fn sound(pos: Position, mv: RawMove) -> bool {
    match mv {
        RawMove::Single(info) => sound_single(pos, info),
        RawMove::Castle(king, rook) => sound_castle(pos, king, rook),
    }
}

/// Whether every move of a list is sound.
pub open spec fn all_sound(pos: Position, moves: Seq<RawMove>) -> bool {
    forall|i: int| 0 <= i < moves.len() ==> sound(pos, #[trigger] moves[i])
}

/// Two lists of sound moves make a list of sound moves.
proof fn lemma_all_sound_add(pos: Position, a: Seq<RawMove>, b: Seq<RawMove>)
    requires
        all_sound(pos, a),
        all_sound(pos, b),
    ensures
        all_sound(pos, a + b),
{
    assert forall|i: int| 0 <= i < (a + b).len() implies sound(pos, #[trigger] (a + b)[i]) by {
        if i < a.len() {
            assert((a + b)[i] == a[i]);
        } else {
            assert((a + b)[i] == b[i - a.len()]);
        }
    }
}

/// The plain moves along a line are sound, unless the piece is a pawn.
proof fn lemma_line_sound(pos: Position, from: Square, rows: int, cols: int, max_offset: u8)
    requires
        pos.cells.len() == 64,
        from.wf(),
        -1 <= rows <= 1,
        -1 <= cols <= 1,
        !pos.cell(from).holds(Piece::Pawn),
    ensures
        all_sound(pos, line_moves(pos, from, rows, cols, max_offset)),
{
    let targets = reach(pos, from, rows, cols, max_offset);
    let moves = line_moves(pos, from, rows, cols, max_offset);
    if !pos.cell(from).spec_is_blank() {
        lemma_ray_shape(
            pos.cells,
            from,
            pos.cell(from).spec_color(),
            rows,
            cols,
            clamp_offset(max_offset),
        );
    }
    assert forall|i: int| 0 <= i < moves.len() implies sound(pos, #[trigger] moves[i]) by {
        let to = targets[i];
        assert(moves[i] == plain_move(pos, from, to));
    }
}

/// The moves along ranks and files are sound, unless the piece is a pawn.
proof fn lemma_straight_sound(pos: Position, from: Square, max_offset: u8)
    requires
        pos.cells.len() == 64,
        from.wf(),
        !pos.cell(from).holds(Piece::Pawn),
    ensures
        all_sound(pos, straight_moves(pos, from, max_offset)),
{
    lemma_line_sound(pos, from, 1, 0, max_offset);
    lemma_line_sound(pos, from, -1, 0, max_offset);
    lemma_line_sound(pos, from, 0, -1, max_offset);
    lemma_line_sound(pos, from, 0, 1, max_offset);
    let a = line_moves(pos, from, 1, 0, max_offset);
    let b = line_moves(pos, from, -1, 0, max_offset);
    let c = line_moves(pos, from, 0, -1, max_offset);
    let d = line_moves(pos, from, 0, 1, max_offset);
    lemma_all_sound_add(pos, a, b);
    lemma_all_sound_add(pos, a + b, c);
    lemma_all_sound_add(pos, a + b + c, d);
}

/// The moves along diagonals are sound, unless the piece is a pawn.
proof fn lemma_diagonal_sound(pos: Position, from: Square, max_offset: u8)
    requires
        pos.cells.len() == 64,
        from.wf(),
        !pos.cell(from).holds(Piece::Pawn),
    ensures
        all_sound(pos, diagonal_moves(pos, from, max_offset)),
{
    lemma_line_sound(pos, from, 1, -1, max_offset);
    lemma_line_sound(pos, from, 1, 1, max_offset);
    lemma_line_sound(pos, from, -1, -1, max_offset);
    lemma_line_sound(pos, from, -1, 1, max_offset);
    let a = line_moves(pos, from, 1, -1, max_offset);
    let b = line_moves(pos, from, 1, 1, max_offset);
    let c = line_moves(pos, from, -1, -1, max_offset);
    let d = line_moves(pos, from, -1, 1, max_offset);
    lemma_all_sound_add(pos, a, b);
    lemma_all_sound_add(pos, a + b, c);
    lemma_all_sound_add(pos, a + b + c, d);
}

/// A jump of a knight is sound.
proof fn lemma_jump_sound(pos: Position, from: Square, rows: int, cols: int)
    requires
        pos.cells.len() == 64,
        from.wf(),
        !pos.cell(from).spec_is_blank(),
        !pos.cell(from).holds(Piece::Pawn),
    ensures
        all_sound(pos, knight_jump(pos, from, rows, cols)),
{
    broadcast use Square::lemma_at_view;

}

/// The moves of a knight are sound.
proof fn lemma_knight_sound(pos: Position, from: Square)
    requires
        pos.cells.len() == 64,
        from.wf(),
        !pos.cell(from).holds(Piece::Pawn),
    ensures
        all_sound(pos, knight_moves(pos, from)),
{
    if !pos.cell(from).spec_is_blank() {
        lemma_jump_sound(pos, from, 2, -1);
        lemma_jump_sound(pos, from, 2, 1);
        lemma_jump_sound(pos, from, -2, -1);
        lemma_jump_sound(pos, from, -2, 1);
        lemma_jump_sound(pos, from, 1, -2);
        lemma_jump_sound(pos, from, 1, 2);
        lemma_jump_sound(pos, from, -1, -2);
        lemma_jump_sound(pos, from, -1, 2);
        let a = knight_jump(pos, from, 2, -1);
        let b = knight_jump(pos, from, 2, 1);
        let c = knight_jump(pos, from, -2, -1);
        let d = knight_jump(pos, from, -2, 1);
        let e = knight_jump(pos, from, 1, -2);
        let f = knight_jump(pos, from, 1, 2);
        let g = knight_jump(pos, from, -1, -2);
        let h = knight_jump(pos, from, -1, 2);
        lemma_all_sound_add(pos, a, b);
        lemma_all_sound_add(pos, a + b, c);
        lemma_all_sound_add(pos, a + b + c, d);
        lemma_all_sound_add(pos, a + b + c + d, e);
        lemma_all_sound_add(pos, a + b + c + d + e, f);
        lemma_all_sound_add(pos, a + b + c + d + e + f, g);
        lemma_all_sound_add(pos, a + b + c + d + e + f + g, h);
    }
}

/// A castling is sound.
proof fn lemma_castling_sound(pos: Position, from: Square, side: CastleMove)
    requires
        pos.cells.len() == 64,
        from.wf(),
    ensures
        all_sound(pos, castling(pos, from, side)),
{
    broadcast use Square::lemma_at_view;

}

/// The moves of a king are sound.
proof fn lemma_king_sound(pos: Position, from: Square)
    requires
        pos.cells.len() == 64,
        from.wf(),
        !pos.cell(from).holds(Piece::Pawn),
    ensures
        all_sound(pos, king_moves(pos, from)),
{
    lemma_straight_sound(pos, from, 1);
    lemma_diagonal_sound(pos, from, 1);
    lemma_castling_sound(pos, from, CastleMove::QueenSide);
    lemma_castling_sound(pos, from, CastleMove::KingSide);
    let a = straight_moves(pos, from, 1);
    let b = diagonal_moves(pos, from, 1);
    let c = castling(pos, from, CastleMove::QueenSide);
    let d = castling(pos, from, CastleMove::KingSide);
    lemma_all_sound_add(pos, a, b);
    lemma_all_sound_add(pos, a + b, c);
    lemma_all_sound_add(pos, a + b + c, d);
}

/// The advances of a pawn are sound.
proof fn lemma_advances_sound(pos: Position, from: Square)
    requires
        pos.cells.len() == 64,
        from.wf(),
        pos.cell(from).holds(Piece::Pawn),
    ensures
        all_sound(
            pos,
            reach(
                pos,
                from,
                forward(pos.cell(from).spec_color()),
                0,
                if pos.cell(from).spec_has_moved() {
                    1u8
                } else {
                    2u8
                },
            ).filter_map(|to: Square| pawn_advance(pos, from, to)),
        ),
{
    broadcast use Square::lemma_at_view;

    let piece = pos.cell(from);
    let rows = forward(piece.spec_color());
    let budget: u8 = if piece.spec_has_moved() {
        1
    } else {
        2
    };
    let targets = reach(pos, from, rows, 0, budget);
    let f = |to: Square| pawn_advance(pos, from, to);
    let moves = targets.filter_map(f);
    lemma_ray_shape(pos.cells, from, piece.spec_color(), rows, 0, clamp_offset(budget));
    assert forall|i: int| 0 <= i < moves.len() implies sound(pos, #[trigger] moves[i]) by {
        let mv = moves[i];
        assert(moves.contains(mv));
        targets.lemma_filter_map_contains(f, mv);
        let to = choose|to: Square| targets.contains(to) && f(to) == Some(mv);
        let k = choose|k: int| 0 <= k < targets.len() && targets[k] == to;
        assert(to.row() == from.row() + (k + 1) * rows);
        assert(k == 0 || k == 1);
        assert(to.col() == from.col());
    }
}

/// The captures of a pawn to one side are sound.
proof fn lemma_captures_sound(pos: Position, from: Square, cols: int)
    requires
        pos.cells.len() == 64,
        from.wf(),
        pos.cell(from).holds(Piece::Pawn),
        cols == 1 || cols == -1,
    ensures
        all_sound(
            pos,
            reach(pos, from, forward(pos.cell(from).spec_color()), cols, 1).filter_map(
                |to: Square| pawn_capture(pos, from, to),
            ),
        ),
{
    broadcast use Square::lemma_at_view;

    let piece = pos.cell(from);
    let rows = forward(piece.spec_color());
    let targets = reach(pos, from, rows, cols, 1);
    let f = |to: Square| pawn_capture(pos, from, to);
    let moves = targets.filter_map(f);
    lemma_ray_shape(pos.cells, from, piece.spec_color(), rows, cols, clamp_offset(1));
    assert forall|i: int| 0 <= i < moves.len() implies sound(pos, #[trigger] moves[i]) by {
        let mv = moves[i];
        assert(moves.contains(mv));
        targets.lemma_filter_map_contains(f, mv);
        let to = choose|to: Square| targets.contains(to) && f(to) == Some(mv);
        let k = choose|k: int| 0 <= k < targets.len() && targets[k] == to;
        assert(k == 0);
        assert(to.row() == from.row() + rows);
        assert(to.col() == from.col() + cols);
        if let Some(v) = en_passant_victim(pos, piece.spec_color(), to) {
            assert(v.square@ == to@ - 8 * rows);
        }
    }
}

/// The moves of a pawn are sound.
proof fn lemma_pawn_sound(pos: Position, from: Square)
    requires
        pos.cells.len() == 64,
        from.wf(),
        pos.cell(from).holds(Piece::Pawn),
    ensures
        all_sound(pos, pawn_moves(pos, from)),
{
    lemma_advances_sound(pos, from);
    lemma_captures_sound(pos, from, -1);
    lemma_captures_sound(pos, from, 1);
    let piece = pos.cell(from);
    let rows = forward(piece.spec_color());
    let budget: u8 = if piece.spec_has_moved() {
        1
    } else {
        2
    };
    let a = reach(pos, from, rows, 0, budget).filter_map(|to: Square| pawn_advance(pos, from, to));
    let b = reach(pos, from, rows, -1, 1).filter_map(|to: Square| pawn_capture(pos, from, to));
    let c = reach(pos, from, rows, 1, 1).filter_map(|to: Square| pawn_capture(pos, from, to));
    lemma_all_sound_add(pos, a, b);
    lemma_all_sound_add(pos, a + b, c);
}

/// The moves of the piece on a square are sound.
proof fn lemma_moves_from_sound(pos: Position, from: Square)
    requires
        pos.cells.len() == 64,
        from.wf(),
    ensures
        all_sound(pos, moves_from(pos, from)),
{
    let piece = pos.cell(from);
    if !piece.spec_is_blank() {
        match piece.spec_piece() {
            Piece::Pawn => lemma_pawn_sound(pos, from),
            Piece::Knight => lemma_knight_sound(pos, from),
            Piece::Bishop => lemma_diagonal_sound(pos, from, 7),
            Piece::Rook => lemma_straight_sound(pos, from, 7),
            Piece::Queen => {
                lemma_diagonal_sound(pos, from, 7);
                lemma_straight_sound(pos, from, 7);
                lemma_all_sound_add(pos, bishop_moves(pos, from), rook_moves(pos, from));
            },
            Piece::King => lemma_king_sound(pos, from),
        }
    }
}

/// The moves of the pieces on the first squares are sound.
proof fn lemma_moves_up_to_sound(pos: Position, count: nat)
    requires
        pos.cells.len() == 64,
        count <= 64,
    ensures
        all_sound(pos, moves_up_to(pos, count)),
    decreases count,
{
    broadcast use Square::lemma_at_view;

    if count > 0 {
        lemma_moves_up_to_sound(pos, (count - 1) as nat);
        lemma_moves_from_sound(pos, Square::at(count - 1));
        lemma_all_sound_add(
            pos,
            moves_up_to(pos, (count - 1) as nat),
            moves_from(pos, Square::at(count - 1)),
        );
    }
}

/// Every pseudo-legal move is sound: it moves a piece that stands on the
/// board, by that piece's rule, onto a square that holds no piece of its
/// own colour, and says truly what it captures, whether it promotes, and
/// which en-passant target it opens.
pub proof fn lemma_raw_moves_sound(pos: Position, mv: RawMove)
    requires
        pos.cells.len() == 64,
        all_raw_moves(pos).contains(mv),
    ensures
        sound(pos, mv),
{
    lemma_moves_up_to_sound(pos, 64);
}

} // verus!
