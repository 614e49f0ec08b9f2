//! Queen movement: ray casts along all eight directions, the union of the
//! rook's and the bishop's geometry.

use vstd::prelude::*;

use crate::chessboard::Chessboard;
use crate::coords::Coordinate;
use crate::coords::Move;
use crate::coords::coord_in_bounds;
use crate::geometry::lemma_queen_rays;
use crate::geometry::lemma_seq_add_assoc;
use crate::geometry::linear_move_ok;
use crate::geometry::queen_emission;
use crate::geometry::ray_emission;
use crate::pieces::Color;
use crate::pieces::PieceType;
use crate::pieces::add_line_to_moves;
use crate::pieces::is_legal_move_in_linear_movement;

verus! {

/// Appends the queen's pseudo-legal moves from `position`: everything the
/// eight ray casts emit, in cast order.
pub fn append_legal_moves(
    position: Coordinate,
    color: Color,
    board: &Chessboard,
    moves: &mut Vec<Move>,
)
    requires
        board.wf(),
        coord_in_bounds(position),
    ensures
        final(moves)@ == old(moves)@ + queen_emission(*board, color, position),
        forall|m: Move|
            final(moves)@.contains(m) <==> (old(moves)@.contains(m) || (m.from == position
                && m.special_move is None && linear_move_ok(
                *board,
                color,
                PieceType::Queen,
                position,
                m.to,
            ))),
{
    add_line_to_moves(position, (-1, -1), color, board, moves);
    add_line_to_moves(position, (-1, 0), color, board, moves);
    add_line_to_moves(position, (-1, 1), color, board, moves);
    add_line_to_moves(position, (0, -1), color, board, moves);
    add_line_to_moves(position, (0, 1), color, board, moves);
    add_line_to_moves(position, (1, -1), color, board, moves);
    add_line_to_moves(position, (1, 0), color, board, moves);
    add_line_to_moves(position, (1, 1), color, board, moves);
    proof {
        let o = old(moves)@;
        let e1 = ray_emission(*board, color, position, -1, -1, 1);
        let e2 = ray_emission(*board, color, position, -1, 0, 1);
        let e3 = ray_emission(*board, color, position, -1, 1, 1);
        let e4 = ray_emission(*board, color, position, 0, -1, 1);
        let e5 = ray_emission(*board, color, position, 0, 1, 1);
        let e6 = ray_emission(*board, color, position, 1, -1, 1);
        let e7 = ray_emission(*board, color, position, 1, 0, 1);
        let e8 = ray_emission(*board, color, position, 1, 1, 1);
        lemma_seq_add_assoc(o, e1, e2);
        lemma_seq_add_assoc(o, (e1 + e2), e3);
        lemma_seq_add_assoc(o, ((e1 + e2) + e3), e4);
        lemma_seq_add_assoc(o, (((e1 + e2) + e3) + e4), e5);
        lemma_seq_add_assoc(o, ((((e1 + e2) + e3) + e4) + e5), e6);
        lemma_seq_add_assoc(o, (((((e1 + e2) + e3) + e4) + e5) + e6), e7);
        lemma_seq_add_assoc(o, ((((((e1 + e2) + e3) + e4) + e5) + e6) + e7), e8);
        assert(moves@ == o + queen_emission(*board, color, position));
        assert forall|m: Move|
            moves@.contains(m) <==> (old(moves)@.contains(m) || (m.from == position
                && m.special_move is None && linear_move_ok(
                *board,
                color,
                PieceType::Queen,
                position,
                m.to,
            ))) by {
            lemma_queen_rays(*board, color, position, m.to);
        }
    }
}

/// Checks a single queen move against the union of the rook's and bishop's
/// sliding rules.
pub fn is_legal_move(mv: Move, color: Color, board: &Chessboard) -> (r: bool)
    requires
        board.wf(),
        coord_in_bounds(mv.from),
    ensures
        r == (mv.special_move is None && linear_move_ok(
            *board,
            color,
            PieceType::Queen,
            mv.from,
            mv.to,
        )),
{
    is_legal_move_in_linear_movement(mv, color, board, PieceType::Queen)
}

} // verus!
