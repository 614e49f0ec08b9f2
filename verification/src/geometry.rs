//! The movement rules, stated mathematically: one predicate per piece kind
//! saying when a single move follows that kind's geometry and occupancy
//! rules, a ray model for the sliding pieces, and the lemmas that connect
//! the two. The move generators and the single-move legality checks are both
//! specified against these predicates, which is what makes them agree.

use vstd::prelude::*;

use crate::chessboard::Chessboard;
use crate::coords::Coordinate;
use crate::coords::Move;
use crate::coords::coord_in_bounds;
use crate::pieces::Color;
use crate::pieces::EMPTY_CODE;
use crate::pieces::Piece;
use crate::pieces::PieceType;
use crate::pieces::spec_piece_of_code;

verus! {

/// True when (x, y) lies on the 8x8 board.
pub open spec fn on_board(x: int, y: int) -> bool {
    0 <= x < 8 && 0 <= y < 8
}

/// True when the square holds no piece.
pub open spec fn empty_at(b: Chessboard, x: int, y: int) -> bool {
    b.square_code(x, y) == EMPTY_CODE
}

/// True when the square holds a piece of the given color.
pub open spec fn color_at(b: Chessboard, color: Color, x: int, y: int) -> bool {
    b.square_code(x, y) < 12 && ((b.square_code(x, y) < 6) <==> color == Color::White)
}

/// The sign of a difference: -1, 0 or 1.
pub open spec fn sgn(d: int) -> int {
    if d > 0 {
        1
    } else if d < 0 {
        -1
    } else {
        0
    }
}

/// The absolute value of a difference.
pub open spec fn iabs(d: int) -> int {
    if d >= 0 {
        d
    } else {
        -d
    }
}

/// The number of unit steps from one square to another along a line:
/// the larger of the two coordinate distances.
pub open spec fn ray_len(fx: int, fy: int, tx: int, ty: int) -> int {
    if iabs(tx - fx) >= iabs(ty - fy) {
        iabs(tx - fx)
    } else {
        iabs(ty - fy)
    }
}

/// Whether a displacement lies on a line of the kind's geometry: a rank or
/// file for the rook, a diagonal for the bishop, either for the queen.
pub open spec fn linear_shape_ok(kind: PieceType, dx: int, dy: int) -> bool {
    match kind {
        PieceType::Rook => dx == 0 || dy == 0,
        PieceType::Bishop => iabs(dx) == iabs(dy),
        PieceType::Queen => dx == 0 || dy == 0 || iabs(dx) == iabs(dy),
        _ => false,
    }
}

/// The first `n` squares stepped to from (x, y) by (sx, sy) are all on the
/// board and empty.
pub open spec fn ray_clear(b: Chessboard, x: int, y: int, sx: int, sy: int, n: int) -> bool
    decreases n,
{
    n <= 0 || (on_board(x + sx, y + sy) && empty_at(b, x + sx, y + sy) && ray_clear(
        b,
        x + sx,
        y + sy,
        sx,
        sy,
        n - 1,
    ))
}

/// A single sliding move's rule: distinct squares on a line of the kind's
/// geometry, the destination on the board and not own-colored, and every
/// strictly intervening square empty.
pub open spec fn linear_move_ok(
    b: Chessboard,
    color: Color,
    kind: PieceType,
    from: Coordinate,
    to: Coordinate,
) -> bool {
    let fx = from.x as int;
    let fy = from.y as int;
    let tx = to.x as int;
    let ty = to.y as int;
    &&& on_board(tx, ty)
    &&& !(fx == tx && fy == ty)
    &&& linear_shape_ok(kind, tx - fx, ty - fy)
    &&& !color_at(b, color, tx, ty)
    &&& ray_clear(b, fx, fy, sgn(tx - fx), sgn(ty - fy), ray_len(fx, fy, tx, ty) - 1)
}

/// Ray-casting, as the generators perform it: the k-th square stepped to in
/// direction (sx, sy) is a destination when the k - 1 squares before it are
/// empty and it lies on the board without an own-colored piece.
pub open spec fn ray_hit(
    b: Chessboard,
    color: Color,
    x: int,
    y: int,
    sx: int,
    sy: int,
    k: int,
) -> bool {
    &&& 1 <= k
    &&& ray_clear(b, x, y, sx, sy, k - 1)
    &&& on_board(x + k * sx, y + k * sy)
    &&& !color_at(b, color, x + k * sx, y + k * sy)
}

/// The square `to` is emitted by a ray cast from `pos` in direction (sx, sy).
pub open spec fn ray_reaches(
    b: Chessboard,
    color: Color,
    pos: Coordinate,
    sx: int,
    sy: int,
    to: Coordinate,
) -> bool {
    exists|k: int|
        #[trigger] ray_hit(b, color, pos.x as int, pos.y as int, sx, sy, k) && to.x as int == pos.x
            + k * sx && to.y as int == pos.y + k * sy
}

/// The move a ray cast emits at its k-th step.
pub open spec fn ray_move_at(pos: Coordinate, sx: int, sy: int, k: int) -> Move {
    Move {
        from: pos,
        to: Coordinate { x: (pos.x + k * sx) as u8, y: (pos.y + k * sy) as u8 },
        special_move: None,
    }
}

/// The moves a ray cast emits at its first `count` steps, in step order.
pub open spec fn ray_moves(pos: Coordinate, sx: int, sy: int, count: int) -> Seq<Move> {
    Seq::new(count as nat, |i: int| ray_move_at(pos, sx, sy, i + 1))
}

/// Membership in a ray's emission prefix is existence of a step number.
pub proof fn lemma_ray_moves_contains(pos: Coordinate, sx: int, sy: int, count: int, m: Move)
    requires
        0 <= count,
    ensures
        ray_moves(pos, sx, sy, count).contains(m) <==> (exists|k2: int|
            1 <= k2 <= count && m == #[trigger] ray_move_at(pos, sx, sy, k2)),
{
    if ray_moves(pos, sx, sy, count).contains(m) {
        let i = choose|i: int| 0 <= i < count && ray_moves(pos, sx, sy, count)[i] == m;
        assert(m == ray_move_at(pos, sx, sy, i + 1));
    }
    if exists|k2: int| 1 <= k2 <= count && m == #[trigger] ray_move_at(pos, sx, sy, k2) {
        let k2 = choose|k2: int| 1 <= k2 <= count && m == #[trigger] ray_move_at(pos, sx, sy, k2);
        assert(ray_moves(pos, sx, sy, count)[k2 - 1] == m);
    }
}

/// A ray's emission prefix grows one move at a time.
pub proof fn lemma_ray_moves_snoc(pos: Coordinate, sx: int, sy: int, count: int)
    requires
        1 <= count,
    ensures
        ray_moves(pos, sx, sy, count) == ray_moves(pos, sx, sy, count - 1).push(
            ray_move_at(pos, sx, sy, count),
        ),
{
    assert(ray_moves(pos, sx, sy, count) =~= ray_moves(pos, sx, sy, count - 1).push(
        ray_move_at(pos, sx, sy, count),
    ));
}

/// What a finished ray cast has emitted: when a ray from `pos` stops at step
/// `k` (off the board or occupied), having passed `k - 1` clear squares and
/// having emitted the moves of steps 1 through `end` — where `end` includes
/// step `k` exactly when its square held an enemy piece — then the emitted
/// moves are exactly the ray's destinations.
pub proof fn lemma_ray_finish(
    b: Chessboard,
    color: Color,
    pos: Coordinate,
    sx: int,
    sy: int,
    k: int,
    end: int,
    pre: Seq<Move>,
    cur: Seq<Move>,
)
    requires
        coord_in_bounds(pos),
        -1 <= sx <= 1,
        -1 <= sy <= 1,
        !(sx == 0 && sy == 0),
        1 <= k,
        end == k - 1 || end == k,
        ray_clear(b, pos.x as int, pos.y as int, sx, sy, k - 1),
        !(on_board(pos.x + k * sx, pos.y + k * sy) && empty_at(b, pos.x + k * sx, pos.y + k * sy)),
        (end == k) <==> (on_board(pos.x + k * sx, pos.y + k * sy) && !color_at(
            b,
            color,
            pos.x + k * sx,
            pos.y + k * sy,
        )),
        cur == pre + ray_moves(pos, sx, sy, end),
    ensures
        forall|m: Move|
            cur.contains(m) <==> (pre.contains(m) || (m.from == pos && m.special_move is None
                && ray_reaches(b, color, pos, sx, sy, m.to))),
{
    broadcast use vstd::seq_lib::lemma_seq_concat_contains_all_elements;

    let px = pos.x as int;
    let py = pos.y as int;
    assert forall|k2: int| 1 <= k2 <= end implies #[trigger] ray_hit(
        b,
        color,
        px,
        py,
        sx,
        sy,
        k2,
    ) by {
        if k2 < k {
            lemma_ray_clear_prefix(b, px, py, sx, sy, k - 1, k2 - 1);
            lemma_ray_clear_at(b, px, py, sx, sy, k - 1, k2);
        }
    }
    assert forall|k2: int| k2 > end implies !ray_hit(b, color, px, py, sx, sy, k2) by {
        if ray_hit(b, color, px, py, sx, sy, k2) {
            if k2 > k {
                lemma_ray_clear_at(b, px, py, sx, sy, k2 - 1, k);
            }
        }
    }
    assert forall|m: Move|
        cur.contains(m) <==> (pre.contains(m) || (m.from == pos && m.special_move is None
            && ray_reaches(b, color, pos, sx, sy, m.to))) by {
        lemma_ray_moves_contains(pos, sx, sy, end, m);
        assert(cur.contains(m) <==> (pre.contains(m) || ray_moves(pos, sx, sy, end).contains(m)));
        if !pre.contains(m) {
            if ray_moves(pos, sx, sy, end).contains(m) {
                let k2 = choose|k2: int|
                    1 <= k2 <= end && m == #[trigger] ray_move_at(pos, sx, sy, k2);
                assert(ray_hit(b, color, px, py, sx, sy, k2));
                assert(m.to.x as int == px + k2 * sx && m.to.y as int == py + k2 * sy);
                assert(ray_reaches(b, color, pos, sx, sy, m.to));
            }
            if m.from == pos && m.special_move is None && ray_reaches(b, color, pos, sx, sy, m.to) {
                let k2 = choose|k2: int|
                    #[trigger] ray_hit(b, color, px, py, sx, sy, k2) && m.to.x as int == px + k2
                        * sx && m.to.y as int == py + k2 * sy;
                assert(k2 <= end);
                assert(m == ray_move_at(pos, sx, sy, k2));
                assert(exists|j: int| 1 <= j <= end && m == #[trigger] ray_move_at(pos, sx, sy, j));
                assert(ray_moves(pos, sx, sy, end).contains(m));
            }
        }
    }
}

/// The exact list a ray cast emits from its k-th step on, nearest square
/// first: a move onto every empty square passed, one onto the first
/// occupied square when its occupant is an enemy, nothing from the first
/// own-colored piece or the board edge on. From an on-board origin a ray
/// never runs past the eighth step, which bounds the recursion.
pub open spec fn ray_emission(
    b: Chessboard,
    color: Color,
    pos: Coordinate,
    sx: int,
    sy: int,
    k: int,
) -> Seq<Move>
    decreases 9 - k,
{
    if k < 1 || k > 8 {
        Seq::empty()
    } else {
        let tx = pos.x + k * sx;
        let ty = pos.y + k * sy;
        if !on_board(tx, ty) {
            Seq::empty()
        } else if empty_at(b, tx, ty) {
            seq![ray_move_at(pos, sx, sy, k)] + ray_emission(b, color, pos, sx, sy, k + 1)
        } else if !color_at(b, color, tx, ty) {
            seq![ray_move_at(pos, sx, sy, k)]
        } else {
            Seq::empty()
        }
    }
}

/// Whether a leap by the given offset lands on the board without hitting an
/// own-colored piece.
pub open spec fn offset_target_ok(
    b: Chessboard,
    color: Color,
    pos: Coordinate,
    dx: int,
    dy: int,
) -> bool {
    on_board(pos.x + dx, pos.y + dy) && !color_at(b, color, pos.x + dx, pos.y + dy)
}

/// The move a leap by the given offset emits.
pub open spec fn offset_move(pos: Coordinate, dx: int, dy: int) -> Move {
    Move {
        from: pos,
        to: Coordinate { x: (pos.x + dx) as u8, y: (pos.y + dy) as u8 },
        special_move: None,
    }
}

/// A knight move's rule: an (1, 2) or (2, 1) leap to an on-board square not
/// holding an own-colored piece.
pub open spec fn knight_move_ok(b: Chessboard, color: Color, from: Coordinate, to: Coordinate) -> bool {
    let dx = iabs(to.x as int - from.x as int);
    let dy = iabs(to.y as int - from.y as int);
    &&& on_board(to.x as int, to.y as int)
    &&& !color_at(b, color, to.x as int, to.y as int)
    &&& ((dx == 1 && dy == 2) || (dx == 2 && dy == 1))
}

/// A king move's rule: one step in any direction to an on-board square not
/// holding an own-colored piece. Castling is never part of this rule.
pub open spec fn king_move_ok(b: Chessboard, color: Color, from: Coordinate, to: Coordinate) -> bool {
    let dx = to.x as int - from.x as int;
    let dy = to.y as int - from.y as int;
    &&& on_board(to.x as int, to.y as int)
    &&& !color_at(b, color, to.x as int, to.y as int)
    &&& iabs(dx) <= 1
    &&& iabs(dy) <= 1
    &&& !(dx == 0 && dy == 0)
}

/// The rank direction a pawn advances in: up the board for White, down for
/// Black.
pub open spec fn pawn_dir(color: Color) -> int {
    if color == Color::White {
        1
    } else {
        -1
    }
}

/// A pawn move's rule: one square forward onto an empty square, or one
/// square forward-diagonally onto an enemy piece. The initial two-square
/// advance, en-passant capture and promotion are not part of this rule.
pub open spec fn pawn_move_ok(b: Chessboard, color: Color, from: Coordinate, to: Coordinate) -> bool {
    let fx = from.x as int;
    let fy = from.y as int;
    let tx = to.x as int;
    let ty = to.y as int;
    &&& on_board(tx, ty)
    &&& ty == fy + pawn_dir(color)
    &&& ((tx == fx && empty_at(b, tx, ty)) || ((tx == fx + 1 || tx == fx - 1) && color_at(
        b,
        color.spec_opposite(),
        tx,
        ty,
    )))
}

/// The (at most one) move a leap by the given offset emits.
pub open spec fn offset_emission(
    b: Chessboard,
    color: Color,
    pos: Coordinate,
    dx: int,
    dy: int,
) -> Seq<Move> {
    if offset_target_ok(b, color, pos, dx, dy) {
        seq![offset_move(pos, dx, dy)]
    } else {
        Seq::empty()
    }
}

/// What the rook's generator emits: the four orthogonal rays, in cast order.
pub open spec fn rook_emission(b: Chessboard, color: Color, pos: Coordinate) -> Seq<Move> {
    ray_emission(b, color, pos, -1, 0, 1) + ray_emission(b, color, pos, 1, 0, 1) + ray_emission(
        b,
        color,
        pos,
        0,
        1,
        1,
    ) + ray_emission(b, color, pos, 0, -1, 1)
}

/// What the bishop's generator emits: the four diagonal rays, in cast order.
pub open spec fn bishop_emission(b: Chessboard, color: Color, pos: Coordinate) -> Seq<Move> {
    ray_emission(b, color, pos, 1, 1, 1) + ray_emission(b, color, pos, 1, -1, 1) + ray_emission(
        b,
        color,
        pos,
        -1,
        1,
        1,
    ) + ray_emission(b, color, pos, -1, -1, 1)
}

/// What the queen's generator emits: all eight rays, in cast order.
pub open spec fn queen_emission(b: Chessboard, color: Color, pos: Coordinate) -> Seq<Move> {
    ray_emission(b, color, pos, -1, -1, 1) + ray_emission(b, color, pos, -1, 0, 1) + ray_emission(
        b,
        color,
        pos,
        -1,
        1,
        1,
    ) + ray_emission(b, color, pos, 0, -1, 1) + ray_emission(b, color, pos, 0, 1, 1)
        + ray_emission(b, color, pos, 1, -1, 1) + ray_emission(b, color, pos, 1, 0, 1)
        + ray_emission(b, color, pos, 1, 1, 1)
}

/// What the knight's generator emits: the eight leap offsets, in table order.
pub open spec fn knight_emission(b: Chessboard, color: Color, pos: Coordinate) -> Seq<Move> {
    offset_emission(b, color, pos, -1, -2) + offset_emission(b, color, pos, -2, -1)
        + offset_emission(b, color, pos, 1, -2) + offset_emission(b, color, pos, 2, -1)
        + offset_emission(b, color, pos, -1, 2) + offset_emission(b, color, pos, -2, 1)
        + offset_emission(b, color, pos, 1, 2) + offset_emission(b, color, pos, 2, 1)
}

/// What the king's generator emits: the eight unit offsets, in table order.
pub open spec fn king_emission(b: Chessboard, color: Color, pos: Coordinate) -> Seq<Move> {
    offset_emission(b, color, pos, -1, -1) + offset_emission(b, color, pos, -1, 0)
        + offset_emission(b, color, pos, -1, 1) + offset_emission(b, color, pos, 0, -1)
        + offset_emission(b, color, pos, 0, 1) + offset_emission(b, color, pos, 1, -1)
        + offset_emission(b, color, pos, 1, 0) + offset_emission(b, color, pos, 1, 1)
}

/// The (at most one) forward step the pawn's generator emits.
pub open spec fn pawn_forward_emission(b: Chessboard, color: Color, pos: Coordinate) -> Seq<Move> {
    let d = pawn_dir(color);
    if on_board(pos.x as int, pos.y + d) && empty_at(b, pos.x as int, pos.y + d) {
        seq![offset_move(pos, 0, d)]
    } else {
        Seq::empty()
    }
}

/// The (at most one) diagonal capture the pawn's generator emits toward
/// file offset `dx`.
pub open spec fn pawn_capture_emission(
    b: Chessboard,
    color: Color,
    pos: Coordinate,
    dx: int,
) -> Seq<Move> {
    let d = pawn_dir(color);
    if on_board(pos.x + dx, pos.y + d) && color_at(
        b,
        color.spec_opposite(),
        pos.x + dx,
        pos.y + d,
    ) {
        seq![offset_move(pos, dx, d)]
    } else {
        Seq::empty()
    }
}

/// What the pawn's generator emits: the forward step onto an empty square,
/// then the two diagonal captures, left first.
pub open spec fn pawn_emission(b: Chessboard, color: Color, pos: Coordinate) -> Seq<Move> {
    pawn_forward_emission(b, color, pos) + pawn_capture_emission(b, color, pos, -1)
        + pawn_capture_emission(b, color, pos, 1)
}

/// Concatenating move lists is associative.
pub proof fn lemma_seq_add_assoc(a: Seq<Move>, b: Seq<Move>, c: Seq<Move>)
    ensures
        (a + b) + c == a + (b + c),
{
    assert((a + b) + c =~= a + (b + c));
}

/// A leap's emission holds a move exactly when the leap lands and the move
/// is the leap's own.
pub proof fn lemma_offset_emission_contains(
    b: Chessboard,
    color: Color,
    pos: Coordinate,
    dx: int,
    dy: int,
    m: Move,
)
    ensures
        offset_emission(b, color, pos, dx, dy).contains(m) <==> (offset_target_ok(
            b,
            color,
            pos,
            dx,
            dy,
        ) && m == offset_move(pos, dx, dy)),
{
    let e = offset_emission(b, color, pos, dx, dy);
    if offset_target_ok(b, color, pos, dx, dy) {
        assert(e[0] == offset_move(pos, dx, dy));
        if e.contains(m) {
            let i = choose|i: int| 0 <= i < e.len() && e[i] == m;
            assert(i == 0);
        }
    } else {
        if e.contains(m) {
            let i = choose|i: int| 0 <= i < e.len() && e[i] == m;
            assert(false);
        }
    }
}

/// Membership distributes over an eight-part emission.
proof fn lemma_eight_concat_contains(
    e1: Seq<Move>,
    e2: Seq<Move>,
    e3: Seq<Move>,
    e4: Seq<Move>,
    e5: Seq<Move>,
    e6: Seq<Move>,
    e7: Seq<Move>,
    e8: Seq<Move>,
    m: Move,
)
    ensures
        (((((((e1 + e2) + e3) + e4) + e5) + e6) + e7) + e8).contains(m) <==> (e1.contains(m)
            || e2.contains(m) || e3.contains(m) || e4.contains(m) || e5.contains(m) || e6.contains(
            m,
        ) || e7.contains(m) || e8.contains(m)),
{
    vstd::seq_lib::lemma_seq_concat_contains_all_elements(e1, e2, m);
    vstd::seq_lib::lemma_seq_concat_contains_all_elements(e1 + e2, e3, m);
    vstd::seq_lib::lemma_seq_concat_contains_all_elements((e1 + e2) + e3, e4, m);
    vstd::seq_lib::lemma_seq_concat_contains_all_elements(((e1 + e2) + e3) + e4, e5, m);
    vstd::seq_lib::lemma_seq_concat_contains_all_elements((((e1 + e2) + e3) + e4) + e5, e6, m);
    vstd::seq_lib::lemma_seq_concat_contains_all_elements(
        ((((e1 + e2) + e3) + e4) + e5) + e6,
        e7,
        m,
    );
    vstd::seq_lib::lemma_seq_concat_contains_all_elements(
        (((((e1 + e2) + e3) + e4) + e5) + e6) + e7,
        e8,
        m,
    );
}

/// The knight's emission holds exactly the untagged moves from `pos` that
/// the knight's rule allows.
pub proof fn lemma_knight_emission_membership(b: Chessboard, color: Color, pos: Coordinate, m: Move)
    requires
        coord_in_bounds(pos),
    ensures
        knight_emission(b, color, pos).contains(m) <==> (m.from == pos && m.special_move is None
            && knight_move_ok(b, color, pos, m.to)),
{
    lemma_eight_concat_contains(
        offset_emission(b, color, pos, -1, -2),
        offset_emission(b, color, pos, -2, -1),
        offset_emission(b, color, pos, 1, -2),
        offset_emission(b, color, pos, 2, -1),
        offset_emission(b, color, pos, -1, 2),
        offset_emission(b, color, pos, -2, 1),
        offset_emission(b, color, pos, 1, 2),
        offset_emission(b, color, pos, 2, 1),
        m,
    );
    lemma_offset_emission_contains(b, color, pos, -1, -2, m);
    lemma_offset_emission_contains(b, color, pos, -2, -1, m);
    lemma_offset_emission_contains(b, color, pos, 1, -2, m);
    lemma_offset_emission_contains(b, color, pos, 2, -1, m);
    lemma_offset_emission_contains(b, color, pos, -1, 2, m);
    lemma_offset_emission_contains(b, color, pos, -2, 1, m);
    lemma_offset_emission_contains(b, color, pos, 1, 2, m);
    lemma_offset_emission_contains(b, color, pos, 2, 1, m);
    if m.from == pos && m.special_move is None && knight_move_ok(b, color, pos, m.to) {
        let dx = m.to.x as int - pos.x as int;
        let dy = m.to.y as int - pos.y as int;
        assert(offset_target_ok(b, color, pos, dx, dy));
        assert(m == offset_move(pos, dx, dy));
        assert((dx == -1 && dy == -2) || (dx == -2 && dy == -1) || (dx == 1 && dy == -2) || (dx == 2
            && dy == -1) || (dx == -1 && dy == 2) || (dx == -2 && dy == 1) || (dx == 1 && dy == 2)
            || (dx == 2 && dy == 1));
    }
}

/// The king's emission holds exactly the untagged moves from `pos` that the
/// king's rule allows.
pub proof fn lemma_king_emission_membership(b: Chessboard, color: Color, pos: Coordinate, m: Move)
    requires
        coord_in_bounds(pos),
    ensures
        king_emission(b, color, pos).contains(m) <==> (m.from == pos && m.special_move is None
            && king_move_ok(b, color, pos, m.to)),
{
    lemma_eight_concat_contains(
        offset_emission(b, color, pos, -1, -1),
        offset_emission(b, color, pos, -1, 0),
        offset_emission(b, color, pos, -1, 1),
        offset_emission(b, color, pos, 0, -1),
        offset_emission(b, color, pos, 0, 1),
        offset_emission(b, color, pos, 1, -1),
        offset_emission(b, color, pos, 1, 0),
        offset_emission(b, color, pos, 1, 1),
        m,
    );
    lemma_offset_emission_contains(b, color, pos, -1, -1, m);
    lemma_offset_emission_contains(b, color, pos, -1, 0, m);
    lemma_offset_emission_contains(b, color, pos, -1, 1, m);
    lemma_offset_emission_contains(b, color, pos, 0, -1, m);
    lemma_offset_emission_contains(b, color, pos, 0, 1, m);
    lemma_offset_emission_contains(b, color, pos, 1, -1, m);
    lemma_offset_emission_contains(b, color, pos, 1, 0, m);
    lemma_offset_emission_contains(b, color, pos, 1, 1, m);
    if m.from == pos && m.special_move is None && king_move_ok(b, color, pos, m.to) {
        let dx = m.to.x as int - pos.x as int;
        let dy = m.to.y as int - pos.y as int;
        assert(offset_target_ok(b, color, pos, dx, dy));
        assert(m == offset_move(pos, dx, dy));
        assert((-1 <= dx <= 1) && (-1 <= dy <= 1) && !(dx == 0 && dy == 0));
    }
}

/// What a piece's generator emits from `pos`, in generation order.
pub open spec fn piece_emission(b: Chessboard, p: Piece, pos: Coordinate) -> Seq<Move> {
    match p.piece_type {
        PieceType::Rook => rook_emission(b, p.color, pos),
        PieceType::Bishop => bishop_emission(b, p.color, pos),
        PieceType::Queen => queen_emission(b, p.color, pos),
        PieceType::Knight => knight_emission(b, p.color, pos),
        PieceType::King => king_emission(b, p.color, pos),
        PieceType::Pawn => pawn_emission(b, p.color, pos),
    }
}

/// What one origin square contributes to the board's move list: its
/// occupant's emission when the occupant belongs to the side to play,
/// nothing otherwise.
pub open spec fn square_emission(b: Chessboard, x: int, y: int) -> Seq<Move> {
    match spec_piece_of_code(b.square_code(x, y)) {
        Some(p) => if p.color == b.to_play {
            piece_emission(b, p, Coordinate { x: x as u8, y: y as u8 })
        } else {
            Seq::empty()
        },
        None => Seq::empty(),
    }
}

/// What scanning the first `n` squares in rank-then-file order emits: the
/// board's full move list is the case n = 64.
pub open spec fn board_emission_upto(b: Chessboard, n: int) -> Seq<Move>
    decreases n,
{
    if n <= 0 {
        Seq::empty()
    } else {
        board_emission_upto(b, n - 1) + square_emission(b, (n - 1) % 8, (n - 1) / 8)
    }
}

/// Whether a single untagged move from `from` to `to` follows the piece's
/// movement geometry and occupancy rules.
pub open spec fn piece_move_ok(b: Chessboard, p: Piece, from: Coordinate, to: Coordinate) -> bool {
    match p.piece_type {
        PieceType::Rook => linear_move_ok(b, p.color, PieceType::Rook, from, to),
        PieceType::Bishop => linear_move_ok(b, p.color, PieceType::Bishop, from, to),
        PieceType::Queen => linear_move_ok(b, p.color, PieceType::Queen, from, to),
        PieceType::Knight => knight_move_ok(b, p.color, from, to),
        PieceType::King => king_move_ok(b, p.color, from, to),
        PieceType::Pawn => pawn_move_ok(b, p.color, from, to),
    }
}

/// A pseudo-legal move on the board: an own-colored piece stands on `from`
/// and the untagged move follows that piece's movement rule. Whether the
/// mover's own king is left in check is not considered.
pub open spec fn pseudo_legal(b: Chessboard, m: Move) -> bool {
    &&& coord_in_bounds(m.from)
    &&& m.special_move is None
    &&& match b.spec_piece_at(m.from.x as int, m.from.y as int) {
        Some(p) => p.color == b.to_play && piece_move_ok(b, p, m.from, m.to),
        None => false,
    }
}

/// Multiplying by a sign factor in {-1, 0, 1} is selection or negation.
pub proof fn lemma_mul_by_sign(k: int, s: int)
    ensures
        s == 1 ==> k * s == k,
        s == 0 ==> k * s == 0,
        s == -1 ==> k * s == -k,
{
    assert(k * 1 == k) by (nonlinear_arith);
    assert(k * 0 == 0) by (nonlinear_arith);
    assert(k * -1 == -k) by (nonlinear_arith);
}

/// Every square a clear ray has stepped over is on the board and empty.
pub proof fn lemma_ray_clear_at(b: Chessboard, x: int, y: int, sx: int, sy: int, n: int, i: int)
    requires
        ray_clear(b, x, y, sx, sy, n),
        1 <= i <= n,
    ensures
        on_board(x + i * sx, y + i * sy),
        empty_at(b, x + i * sx, y + i * sy),
    decreases i,
{
    lemma_mul_by_sign(i, sx);
    lemma_mul_by_sign(i, sy);
    assert((i - 1) * sx == i * sx - sx) by (nonlinear_arith);
    assert((i - 1) * sy == i * sy - sy) by (nonlinear_arith);
    if i == 1 {
        assert(1 * sx == sx) by (nonlinear_arith);
        assert(1 * sy == sy) by (nonlinear_arith);
    } else {
        lemma_ray_clear_at(b, x + sx, y + sy, sx, sy, n - 1, i - 1);
    }
}

/// A clear ray stays clear when shortened.
pub proof fn lemma_ray_clear_prefix(b: Chessboard, x: int, y: int, sx: int, sy: int, n: int, m: int)
    requires
        ray_clear(b, x, y, sx, sy, n),
        m <= n,
    ensures
        ray_clear(b, x, y, sx, sy, m),
    decreases n,
{
    if m > 0 {
        lemma_ray_clear_prefix(b, x + sx, y + sy, sx, sy, n - 1, m - 1);
    }
}

/// A clear ray extends by one square when the next square is on the board
/// and empty.
pub proof fn lemma_ray_clear_snoc(b: Chessboard, x: int, y: int, sx: int, sy: int, n: int)
    requires
        0 <= n,
        ray_clear(b, x, y, sx, sy, n),
        on_board(x + (n + 1) * sx, y + (n + 1) * sy),
        empty_at(b, x + (n + 1) * sx, y + (n + 1) * sy),
    ensures
        ray_clear(b, x, y, sx, sy, n + 1),
    decreases n,
{
    assert(n * sx == (n + 1) * sx - sx) by (nonlinear_arith);
    assert(n * sy == (n + 1) * sy - sy) by (nonlinear_arith);
    if n == 0 {
        assert(1 * sx == sx) by (nonlinear_arith);
        assert(1 * sy == sy) by (nonlinear_arith);
        assert(on_board(x + sx, y + sy) && empty_at(b, x + sx, y + sy));
        assert(ray_clear(b, x + sx, y + sy, sx, sy, 0));
        assert(ray_clear(b, x, y, sx, sy, 1));
    } else {
        assert(on_board(x + sx, y + sy) && empty_at(b, x + sx, y + sy));
        lemma_ray_clear_snoc(b, x + sx, y + sy, sx, sy, n - 1);
        assert(ray_clear(b, x + sx, y + sy, sx, sy, n));
        assert(ray_clear(b, x, y, sx, sy, n + 1));
    }
}

/// One sliding direction bridges generation and legality: a ray cast in a
/// fixed unit direction emits exactly the destinations whose displacement
/// from the origin lies along that direction and passes the sliding rule.
proof fn lemma_ray_dir(
    b: Chessboard,
    color: Color,
    from: Coordinate,
    sx: int,
    sy: int,
    to: Coordinate,
)
    requires
        coord_in_bounds(from),
        -1 <= sx <= 1,
        -1 <= sy <= 1,
        !(sx == 0 && sy == 0),
    ensures
        ray_reaches(b, color, from, sx, sy, to) <==> {
            let fx = from.x as int;
            let fy = from.y as int;
            let tx = to.x as int;
            let ty = to.y as int;
            &&& on_board(tx, ty)
            &&& !(fx == tx && fy == ty)
            &&& sgn(tx - fx) == sx
            &&& sgn(ty - fy) == sy
            &&& (sx != 0 && sy != 0 ==> iabs(tx - fx) == iabs(ty - fy))
            &&& !color_at(b, color, tx, ty)
            &&& ray_clear(b, fx, fy, sx, sy, ray_len(fx, fy, tx, ty) - 1)
        },
{
    let fx = from.x as int;
    let fy = from.y as int;
    let tx = to.x as int;
    let ty = to.y as int;
    if ray_reaches(b, color, from, sx, sy, to) {
        let k = choose|k: int|
            #[trigger] ray_hit(b, color, fx, fy, sx, sy, k) && tx == fx + k * sx && ty == fy + k
                * sy;
        lemma_mul_by_sign(k, sx);
        lemma_mul_by_sign(k, sy);
        assert(ray_len(fx, fy, tx, ty) == k);
    }
    {
        let n = ray_len(fx, fy, tx, ty);
        lemma_mul_by_sign(n, sx);
        lemma_mul_by_sign(n, sy);
        if on_board(tx, ty) && !(fx == tx && fy == ty) && sgn(tx - fx) == sx && sgn(ty - fy) == sy
            && (sx != 0 && sy != 0 ==> iabs(tx - fx) == iabs(ty - fy)) && !color_at(b, color, tx, ty)
            && ray_clear(b, fx, fy, sx, sy, n - 1) {
            assert(tx == fx + n * sx && ty == fy + n * sy);
            assert(ray_hit(b, color, fx, fy, sx, sy, n));
        }
    }
}

/// Rook bridge: the sliding rule along ranks and files is exactly what the
/// four orthogonal ray casts emit.
pub proof fn lemma_rook_rays(b: Chessboard, color: Color, from: Coordinate, to: Coordinate)
    requires
        coord_in_bounds(from),
    ensures
        linear_move_ok(b, color, PieceType::Rook, from, to) <==> {
            ||| ray_reaches(b, color, from, -1, 0, to)
            ||| ray_reaches(b, color, from, 1, 0, to)
            ||| ray_reaches(b, color, from, 0, 1, to)
            ||| ray_reaches(b, color, from, 0, -1, to)
        },
{
    lemma_ray_dir(b, color, from, -1, 0, to);
    lemma_ray_dir(b, color, from, 1, 0, to);
    lemma_ray_dir(b, color, from, 0, 1, to);
    lemma_ray_dir(b, color, from, 0, -1, to);
}

/// Bishop bridge: the sliding rule along diagonals is exactly what the four
/// diagonal ray casts emit.
pub proof fn lemma_bishop_rays(b: Chessboard, color: Color, from: Coordinate, to: Coordinate)
    requires
        coord_in_bounds(from),
    ensures
        linear_move_ok(b, color, PieceType::Bishop, from, to) <==> {
            ||| ray_reaches(b, color, from, 1, 1, to)
            ||| ray_reaches(b, color, from, 1, -1, to)
            ||| ray_reaches(b, color, from, -1, 1, to)
            ||| ray_reaches(b, color, from, -1, -1, to)
        },
{
    lemma_ray_dir(b, color, from, 1, 1, to);
    lemma_ray_dir(b, color, from, 1, -1, to);
    lemma_ray_dir(b, color, from, -1, 1, to);
    lemma_ray_dir(b, color, from, -1, -1, to);
}

/// Queen bridge: the queen's rule is the union of the rook's and bishop's,
/// which the eight ray casts emit.
pub proof fn lemma_queen_rays(b: Chessboard, color: Color, from: Coordinate, to: Coordinate)
    requires
        coord_in_bounds(from),
    ensures
        linear_move_ok(b, color, PieceType::Queen, from, to) <==> {
            ||| ray_reaches(b, color, from, -1, -1, to)
            ||| ray_reaches(b, color, from, -1, 0, to)
            ||| ray_reaches(b, color, from, -1, 1, to)
            ||| ray_reaches(b, color, from, 0, -1, to)
            ||| ray_reaches(b, color, from, 0, 1, to)
            ||| ray_reaches(b, color, from, 1, -1, to)
            ||| ray_reaches(b, color, from, 1, 0, to)
            ||| ray_reaches(b, color, from, 1, 1, to)
        },
{
    assert(linear_move_ok(b, color, PieceType::Queen, from, to) <==> (linear_move_ok(
        b,
        color,
        PieceType::Rook,
        from,
        to,
    ) || linear_move_ok(b, color, PieceType::Bishop, from, to)));
    lemma_rook_rays(b, color, from, to);
    lemma_bishop_rays(b, color, from, to);
}

/// Sliding blocked-path: a piece standing strictly between a sliding piece
/// and a destination on the same line removes that destination from the
/// sliding rule; as this holds for every destination past the blocker, it
/// removes the whole remainder of the ray from the generated set.
pub proof fn lemma_sliding_blocked(
    b: Chessboard,
    color: Color,
    kind: PieceType,
    from: Coordinate,
    to: Coordinate,
    j: int,
)
    requires
        1 <= j < ray_len(from.x as int, from.y as int, to.x as int, to.y as int),
        !empty_at(
            b,
            from.x + j * sgn(to.x as int - from.x as int),
            from.y + j * sgn(to.y as int - from.y as int),
        ),
    ensures
        !linear_move_ok(b, color, kind, from, to),
{
    let fx = from.x as int;
    let fy = from.y as int;
    let tx = to.x as int;
    let ty = to.y as int;
    if linear_move_ok(b, color, kind, from, to) {
        lemma_ray_clear_at(
            b,
            fx,
            fy,
            sgn(tx - fx),
            sgn(ty - fy),
            ray_len(fx, fy, tx, ty) - 1,
            j,
        );
    }
}

/// Generator/legality agreement: given what `get_legal_moves` ensures of its
/// result, a move appears in it exactly when the single-move legality rule
/// accepts it. Under this library's conservative pawn rule, this holds for
/// every piece kind, pawns included.
pub proof fn lemma_generator_legality_agree(b: Chessboard, m: Move, moves: Seq<Move>)
    requires
        b.wf(),
        forall|m2: Move| moves.contains(m2) <==> pseudo_legal(b, m2),
    ensures
        moves.contains(m) <==> pseudo_legal(b, m),
        pseudo_legal(b, m) <==> (coord_in_bounds(m.from) && m.special_move is None
            && match b.spec_piece_at(m.from.x as int, m.from.y as int) {
            Some(p) => p.color == b.to_play && piece_move_ok(b, p, m.from, m.to),
            None => false,
        }),
{
}

} // verus!
