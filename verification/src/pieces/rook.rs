//! Rook movement: ray casts along the four orthogonal directions.

use vstd::prelude::*;

use crate::chessboard::Chessboard;
use crate::coords::Coordinate;
use crate::coords::Move;
use crate::coords::coord_in_bounds;
use crate::geometry::lemma_rook_rays;
use crate::geometry::lemma_seq_add_assoc;
use crate::geometry::linear_move_ok;
use crate::geometry::ray_emission;
use crate::geometry::rook_emission;
use crate::pieces::Color;
use crate::pieces::PieceType;
use crate::pieces::add_line_to_moves;
use crate::pieces::is_legal_move_in_linear_movement;

verus! {

/// Appends the rook's pseudo-legal moves from `position`: everything the
/// four orthogonal ray casts emit, in cast order.
pub fn append_legal_moves(
    position: Coordinate,
    color: Color,
    board: &Chessboard,
    moves: &mut Vec<Move>,
)
    requires
        board.wf(),
        coord_in_bounds(position),
    ensures
        final(moves)@ == old(moves)@ + rook_emission(*board, color, position),
        forall|m: Move|
            final(moves)@.contains(m) <==> (old(moves)@.contains(m) || (m.from == position
                && m.special_move is None && linear_move_ok(
                *board,
                color,
                PieceType::Rook,
                position,
                m.to,
            ))),
{
    add_line_to_moves(position, (-1, 0), color, board, moves);
    add_line_to_moves(position, (1, 0), color, board, moves);
    add_line_to_moves(position, (0, 1), color, board, moves);
    add_line_to_moves(position, (0, -1), color, board, moves);
    proof {
        let o = old(moves)@;
        let e1 = ray_emission(*board, color, position, -1, 0, 1);
        let e2 = ray_emission(*board, color, position, 1, 0, 1);
        let e3 = ray_emission(*board, color, position, 0, 1, 1);
        let e4 = ray_emission(*board, color, position, 0, -1, 1);
        lemma_seq_add_assoc(o, e1, e2);
        lemma_seq_add_assoc(o, (e1 + e2), e3);
        lemma_seq_add_assoc(o, ((e1 + e2) + e3), e4);
        assert(moves@ == o + rook_emission(*board, color, position));
        assert forall|m: Move|
            moves@.contains(m) <==> (old(moves)@.contains(m) || (m.from == position
                && m.special_move is None && linear_move_ok(
                *board,
                color,
                PieceType::Rook,
                position,
                m.to,
            ))) by {
            lemma_rook_rays(*board, color, position, m.to);
        }
    }
}

/// Checks a single rook move against the sliding rule along ranks and files.
pub fn is_legal_move(mv: Move, color: Color, board: &Chessboard) -> (r: bool)
    requires
        board.wf(),
        coord_in_bounds(mv.from),
    ensures
        r == (mv.special_move is None && linear_move_ok(
            *board,
            color,
            PieceType::Rook,
            mv.from,
            mv.to,
        )),
{
    is_legal_move_in_linear_movement(mv, color, board, PieceType::Rook)
}

} // verus!
