//! King movement: the eight unit steps, each checked on its own against
//! board edges and occupancy. Castling is neither generated nor accepted.

use vstd::prelude::*;

use crate::chessboard::Chessboard;
use crate::coords::Coordinate;
use crate::coords::Move;
use crate::coords::coord_in_bounds;
use crate::geometry::king_emission;
use crate::geometry::king_move_ok;
use crate::geometry::lemma_king_emission_membership;
use crate::geometry::lemma_seq_add_assoc;
use crate::geometry::offset_emission;
use crate::pieces::Color;
use crate::pieces::add_offset_to_moves;

verus! {

/// Appends the king's pseudo-legal moves from `position`: each of the eight
/// unit offsets whose target is on the board and free of an own-colored
/// piece. Castling moves are never produced.
pub fn append_legal_moves(
    position: Coordinate,
    color: Color,
    board: &Chessboard,
    moves: &mut Vec<Move>,
)
    requires
        board.wf(),
        coord_in_bounds(position),
    ensures
        final(moves)@ == old(moves)@ + king_emission(*board, color, position),
        forall|m: Move|
            final(moves)@.contains(m) <==> (old(moves)@.contains(m) || (m.from == position
                && m.special_move is None && king_move_ok(*board, color, position, m.to))),
{
    add_offset_to_moves(position, -1, -1, color, board, moves);
    add_offset_to_moves(position, -1, 0, color, board, moves);
    add_offset_to_moves(position, -1, 1, color, board, moves);
    add_offset_to_moves(position, 0, -1, color, board, moves);
    add_offset_to_moves(position, 0, 1, color, board, moves);
    add_offset_to_moves(position, 1, -1, color, board, moves);
    add_offset_to_moves(position, 1, 0, color, board, moves);
    add_offset_to_moves(position, 1, 1, color, board, moves);
    proof {
        let o = old(moves)@;
        let e1 = offset_emission(*board, color, position, -1, -1);
        let e2 = offset_emission(*board, color, position, -1, 0);
        let e3 = offset_emission(*board, color, position, -1, 1);
        let e4 = offset_emission(*board, color, position, 0, -1);
        let e5 = offset_emission(*board, color, position, 0, 1);
        let e6 = offset_emission(*board, color, position, 1, -1);
        let e7 = offset_emission(*board, color, position, 1, 0);
        let e8 = offset_emission(*board, color, position, 1, 1);
        lemma_seq_add_assoc(o, e1, e2);
        lemma_seq_add_assoc(o, (e1 + e2), e3);
        lemma_seq_add_assoc(o, ((e1 + e2) + e3), e4);
        lemma_seq_add_assoc(o, (((e1 + e2) + e3) + e4), e5);
        lemma_seq_add_assoc(o, ((((e1 + e2) + e3) + e4) + e5), e6);
        lemma_seq_add_assoc(o, (((((e1 + e2) + e3) + e4) + e5) + e6), e7);
        lemma_seq_add_assoc(o, ((((((e1 + e2) + e3) + e4) + e5) + e6) + e7), e8);
        assert(moves@ == o + king_emission(*board, color, position));
        assert forall|m: Move|
            moves@.contains(m) <==> (old(moves)@.contains(m) || (m.from == position
                && m.special_move is None && king_move_ok(*board, color, position, m.to))) by {
            lemma_king_emission_membership(*board, color, position, m);
            vstd::seq_lib::lemma_seq_concat_contains_all_elements(
                o,
                king_emission(*board, color, position),
                m,
            );
        }
    }
}

/// Checks a single king move: an untagged unit step to a distinct on-board
/// square not holding an own-colored piece. A castling move is never
/// accepted, whatever the castling rights say.
pub fn is_legal_move(mv: Move, color: Color, board: &Chessboard) -> (r: bool)
    requires
        board.wf(),
        coord_in_bounds(mv.from),
    ensures
        r == (mv.special_move is None && king_move_ok(*board, color, mv.from, mv.to)),
{
    if mv.special_move.is_some() {
        return false;
    }
    if mv.to.x > 7 || mv.to.y > 7 {
        return false;
    }
    if mv.from.x == mv.to.x && mv.from.y == mv.to.y {
        return false;
    }
    let adx = if mv.from.x >= mv.to.x {
        mv.from.x - mv.to.x
    } else {
        mv.to.x - mv.from.x
    };
    let ady = if mv.from.y >= mv.to.y {
        mv.from.y - mv.to.y
    } else {
        mv.to.y - mv.from.y
    };
    if adx > 1 || ady > 1 {
        return false;
    }
    let code = board.get_code(mv.to.x, mv.to.y);
    !(code < 12 && ((code < 6) == (color == Color::White)))
}

} // verus!
