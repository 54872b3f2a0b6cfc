//! The legality filter: a move is legal if, once it is tried on a copy of
//! the board, no pseudo-legal reply takes the mover's king.

use crate::board::Board;
use crate::movegen::raw::{all_raw_moves, Raw, RawMove};
use crate::position::Position;
use vstd::prelude::*;

verus! {

/// Whether a move leaves the king of the side that makes it safe: whether,
/// once its pieces are relocated, no pseudo-legal move of the other side
/// takes that king.
pub open spec fn keeps_king_safe(pos: Position, mv: RawMove) -> bool {
    !pos.forced(mv).in_check(mv.mover())
}

/// Those of the given moves that leave the mover's king safe, in order.
pub open spec fn legal_among(pos: Position, raw_moves: Seq<RawMove>) -> Seq<RawMove> {
    raw_moves.filter(|mv: RawMove| keeps_king_safe(pos, mv))
}

/// The legal moves of both colours: the pseudo-legal moves that leave the
/// mover's king safe.
pub open spec fn legal_moves(pos: Position) -> Seq<RawMove> {
    legal_among(pos, all_raw_moves(pos))
}

/// A move is legal exactly if it is pseudo-legal and leaves the mover's
/// king safe. So no legal move leaves the king of the side that makes it
/// capturable: once the pieces of a legal move are relocated, no
/// pseudo-legal move of the other side takes that king.
pub proof fn lemma_legal_moves_keep_king_safe(pos: Position, mv: RawMove)
    ensures
        legal_moves(pos).contains(mv) <==> all_raw_moves(pos).contains(mv) && keeps_king_safe(
            pos,
            mv,
        ),
        legal_moves(pos).contains(mv) ==> forall|reply: RawMove|
            all_raw_moves(pos.forced(mv)).contains(reply) ==> !pos.forced(mv).takes_king(
                mv.mover(),
                reply,
            ),
{
    let raw = all_raw_moves(pos);
    let pred = |m: RawMove| keeps_king_safe(pos, m);
    if legal_moves(pos).contains(mv) {
        raw.lemma_filter_contains_rev(pred, mv);
        let i = choose|i: int| 0 <= i < raw.filter(pred).len() && raw.filter(pred)[i] == mv;
        raw.lemma_filter_pred(pred, i);
        let after = pos.forced(mv);
        assert forall|reply: RawMove| all_raw_moves(after).contains(reply) implies !after.takes_king(
            mv.mover(),
            reply,
        ) by {
            let k = choose|k: int|
                0 <= k < all_raw_moves(after).len() && all_raw_moves(after)[k] == reply;
            assert(!after.checked_by(mv.mover(), all_raw_moves(after)));
        }
    }
    if raw.contains(mv) && keeps_king_safe(pos, mv) {
        let i = choose|i: int| 0 <= i < raw.len() && raw[i] == mv;
        raw.lemma_filter_contains(pred, i);
    }
}

/// The legality filter. It tries each candidate on a copy of the board and
/// asks the pseudo-legal generator for the replies; it never calls itself.
pub struct Legal;

impl Legal {
    /// The legal moves of both colours.
    pub fn gen_all_legal_moves(board: &Board) -> (r: Vec<RawMove>)
        ensures
            r@ == legal_moves(board@),
    {
        let raw_moves = Raw::gen_all_raw_moves(board);
        Legal::filter(board, &raw_moves)
    }

    /// Whether a move leaves the mover's king safe.
    pub fn is_safe(board: &Board, mv: RawMove) -> (r: bool)
        ensures
            r == keeps_king_safe(board@, mv),
    {
        let mut b = board.clone();
        b.force_execute_raw_move(mv);
        let replies = Raw::gen_all_raw_moves(&b);
        !b.is_being_checked(mv.mover_color(), &replies)
    }

    /// Those of the given moves that leave the mover's king safe, in order.
    pub fn filter(board: &Board, raw_moves: &Vec<RawMove>) -> (r: Vec<RawMove>)
        ensures
            r@ == legal_among(board@, raw_moves@),
    {
        let ghost pred = |mv: RawMove| keeps_king_safe(board@, mv);
        let mut kept: Vec<RawMove> = Vec::new();
        let mut i: usize = 0;
        assert(raw_moves@.take(0).filter(pred) =~= Seq::<RawMove>::empty()) by {
            reveal(Seq::filter);
        }
        while i < raw_moves.len()
            invariant
                i <= raw_moves.len(),
                pred == |mv: RawMove| keeps_king_safe(board@, mv),
                kept@ == raw_moves@.take(i as int).filter(pred),
            decreases raw_moves.len() - i,
        {
            let mv = raw_moves[i];
            proof {
                assert(raw_moves@.take(i + 1) =~= raw_moves@.take(i as int).push(mv));
                raw_moves@.take(i as int).lemma_filter_push(mv, pred);
            }
            if Legal::is_safe(board, mv) {
                kept.push(mv);
            }
            i += 1;
        }
        assert(raw_moves@.take(raw_moves.len() as int) =~= raw_moves@);
        kept
    }
}

} // verus!
