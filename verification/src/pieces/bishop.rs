//! Bishop movement: ray casts along the four diagonals.

use vstd::prelude::*;

use crate::chessboard::Chessboard;
use crate::coords::Coordinate;
use crate::coords::Move;
use crate::coords::coord_in_bounds;
use crate::geometry::bishop_emission;
use crate::geometry::lemma_bishop_rays;
use crate::geometry::lemma_seq_add_assoc;
use crate::geometry::linear_move_ok;
use crate::geometry::ray_emission;
use crate::pieces::Color;
use crate::pieces::PieceType;
use crate::pieces::add_line_to_moves;
use crate::pieces::is_legal_move_in_linear_movement;

verus! {

/// Appends the bishop's pseudo-legal moves from `position`: everything the
/// four diagonal ray casts emit, in cast order.
pub fn append_legal_moves(
    position: Coordinate,
    color: Color,
    board: &Chessboard,
    moves: &mut Vec<Move>,
)
    requires
        board.wf(),
        coord_in_bounds(position),
    ensures
        final(moves)@ == old(moves)@ + bishop_emission(*board, color, position),
        forall|m: Move|
            final(moves)@.contains(m) <==> (old(moves)@.contains(m) || (m.from == position
                && m.special_move is None && linear_move_ok(
                *board,
                color,
                PieceType::Bishop,
                position,
                m.to,
            ))),
{
    add_line_to_moves(position, (1, 1), color, board, moves);
    add_line_to_moves(position, (1, -1), color, board, moves);
    add_line_to_moves(position, (-1, 1), color, board, moves);
    add_line_to_moves(position, (-1, -1), color, board, moves);
    proof {
        let o = old(moves)@;
        let e1 = ray_emission(*board, color, position, 1, 1, 1);
        let e2 = ray_emission(*board, color, position, 1, -1, 1);
        let e3 = ray_emission(*board, color, position, -1, 1, 1);
        let e4 = ray_emission(*board, color, position, -1, -1, 1);
        lemma_seq_add_assoc(o, e1, e2);
        lemma_seq_add_assoc(o, (e1 + e2), e3);
        lemma_seq_add_assoc(o, ((e1 + e2) + e3), e4);
        assert(moves@ == o + bishop_emission(*board, color, position));
        assert forall|m: Move|
            moves@.contains(m) <==> (old(moves)@.contains(m) || (m.from == position
                && m.special_move is None && linear_move_ok(
                *board,
                color,
                PieceType::Bishop,
                position,
                m.to,
            ))) by {
            lemma_bishop_rays(*board, color, position, m.to);
        }
    }
}

/// Checks a single bishop move against the sliding rule along diagonals.
pub fn is_legal_move(mv: Move, color: Color, board: &Chessboard) -> (r: bool)
    requires
        board.wf(),
        coord_in_bounds(mv.from),
    ensures
        r == (mv.special_move is None && linear_move_ok(
            *board,
            color,
            PieceType::Bishop,
            mv.from,
            mv.to,
        )),
{
    is_legal_move_in_linear_movement(mv, color, board, PieceType::Bishop)
}

} // verus!
