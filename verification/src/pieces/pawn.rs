//! Pawn movement: one square forward onto an empty square, or one square
//! forward-diagonally onto an enemy piece. The initial two-square advance,
//! en-passant capture and promotion are not generated and not accepted; the
//! legality check takes the conservative rule of accepting exactly what the
//! generator produces.

use vstd::prelude::*;

use crate::chessboard::Chessboard;
use crate::coords::Coordinate;
use crate::coords::Move;
use crate::coords::coord_in_bounds;
use crate::geometry::lemma_seq_add_assoc;
use crate::geometry::pawn_capture_emission;
use crate::geometry::pawn_dir;
use crate::geometry::pawn_emission;
use crate::geometry::pawn_forward_emission;
use crate::geometry::pawn_move_ok;
use crate::pieces::Color;
use crate::pieces::EMPTY_CODE;

verus! {

broadcast use vstd::seq_lib::lemma_seq_contains_after_push;

/// Appends the pawn's pseudo-legal moves from `position`: the square ahead
/// when it is empty, then the two forward diagonals holding enemy pieces.
pub fn append_legal_moves(
    position: Coordinate,
    color: Color,
    board: &Chessboard,
    moves: &mut Vec<Move>,
)
    requires
        board.wf(),
        coord_in_bounds(position),
    ensures
        final(moves)@ == old(moves)@ + pawn_emission(*board, color, position),
        forall|m: Move|
            final(moves)@.contains(m) <==> (old(moves)@.contains(m) || (m.from == position
                && m.special_move is None && pawn_move_ok(*board, color, position, m.to))),
{
    let ghost o = moves@;
    let direction: i16 = match color {
        Color::White => 1,
        Color::Black => -1,
    };
    proof {
        assert(direction as int == pawn_dir(color));
    }
    let ny = position.y as i16 + direction;
    if ny < 0 || ny > 7 {
        proof {
            assert(moves@ =~= o + pawn_emission(*board, color, position));
        }
        return ;
    }
    let uy = ny as u8;
    if board.get_code(position.x, uy) == EMPTY_CODE {
        moves.push(Move::new(position.x, position.y, position.x, uy, None));
    }
    proof {
        assert(moves@ =~= o + pawn_forward_emission(*board, color, position));
    }
    let ghost o1 = moves@;
    if position.x >= 1 {
        let code = board.get_code(position.x - 1, uy);
        if code < 12 && ((code < 6) == (color == Color::Black)) {
            moves.push(Move::new(position.x, position.y, position.x - 1, uy, None));
        }
    }
    proof {
        assert(moves@ =~= o1 + pawn_capture_emission(*board, color, position, -1));
    }
    let ghost o2 = moves@;
    if position.x <= 6 {
        let code = board.get_code(position.x + 1, uy);
        if code < 12 && ((code < 6) == (color == Color::Black)) {
            moves.push(Move::new(position.x, position.y, position.x + 1, uy, None));
        }
    }
    proof {
        assert(moves@ =~= o2 + pawn_capture_emission(*board, color, position, 1));
        lemma_seq_add_assoc(
            o,
            pawn_forward_emission(*board, color, position),
            pawn_capture_emission(*board, color, position, -1),
        );
        lemma_seq_add_assoc(
            o,
            pawn_forward_emission(*board, color, position) + pawn_capture_emission(
                *board,
                color,
                position,
                -1,
            ),
            pawn_capture_emission(*board, color, position, 1),
        );
        assert(moves@ == o + pawn_emission(*board, color, position));
    }
}

/// Checks a single pawn move under the conservative rule: it accepts exactly
/// the moves the generator produces and rejects everything else.
pub fn is_legal_move(mv: Move, color: Color, board: &Chessboard) -> (r: bool)
    requires
        board.wf(),
        coord_in_bounds(mv.from),
    ensures
        r == (mv.special_move is None && pawn_move_ok(*board, color, mv.from, mv.to)),
{
    if mv.special_move.is_some() {
        return false;
    }
    if mv.to.x > 7 || mv.to.y > 7 {
        return false;
    }
    let direction: i16 = match color {
        Color::White => 1,
        Color::Black => -1,
    };
    if mv.to.y as i16 != mv.from.y as i16 + direction {
        return false;
    }
    if mv.to.x == mv.from.x {
        return board.get_code(mv.to.x, mv.to.y) == EMPTY_CODE;
    }
    let adx = if mv.from.x >= mv.to.x {
        mv.from.x - mv.to.x
    } else {
        mv.to.x - mv.from.x
    };
    if adx != 1 {
        return false;
    }
    let code = board.get_code(mv.to.x, mv.to.y);
    code < 12 && ((code < 6) == (color == Color::Black))
}

} // verus!
