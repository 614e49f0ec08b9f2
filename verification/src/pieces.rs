//! The piece model: colors, the six piece kinds, and their compact numeric
//! and character codings.
//!
//! A piece's numeric code lies in [0, 11]: the kind code (Pawn = 0, Rook = 1,
//! Knight = 2, Bishop = 3, Queen = 4, King = 5) plus 6 for Black. Code 12 is
//! reserved to mean "empty square" and never denotes a piece.

use vstd::prelude::*;

pub mod bishop;
pub mod king;
pub mod knight;
pub mod pawn;
pub mod queen;
pub mod rook;

use crate::chessboard::Chessboard;
use crate::coords::Coordinate;
use crate::coords::Move;
use crate::coords::coord_in_bounds;
use crate::geometry::color_at;
use crate::geometry::empty_at;
use crate::geometry::lemma_mul_by_sign;
use crate::geometry::lemma_ray_clear_at;
use crate::geometry::lemma_ray_clear_snoc;
use crate::geometry::lemma_ray_finish;
use crate::geometry::lemma_ray_moves_snoc;
use crate::geometry::linear_move_ok;
use crate::geometry::offset_emission;
use crate::geometry::offset_move;
use crate::geometry::offset_target_ok;
use crate::geometry::on_board;
use crate::geometry::piece_emission;
use crate::geometry::piece_move_ok;
use crate::geometry::ray_clear;
use crate::geometry::ray_emission;
use crate::geometry::ray_len;
use crate::geometry::ray_move_at;
use crate::geometry::ray_moves;
use crate::geometry::ray_reaches;
use crate::geometry::sgn;

verus! {

broadcast use vstd::seq_lib::lemma_seq_contains_after_push;

/// The code that marks an empty square in the packed board.
pub const EMPTY_CODE: u8 = 12;

#[derive(Debug, PartialEq, Eq, Copy, Clone, Structural)]
pub enum Color {
    White,
    Black,
}

impl Color {
    /// An ASCII uppercase letter denotes White; any other character Black.
    pub fn from_char(character: char) -> (r: Self)
        ensures
            r == (if 65 <= character as int <= 90 {
                Color::White
            } else {
                Color::Black
            }),
    {
        let u = character as u32;
        if 65 <= u && u <= 90 {
            Color::White
        } else {
            Color::Black
        }
    }

    /// The color half of a numeric piece code: White codes are below 6.
    pub fn from_code(code: u8) -> (r: Self)
        ensures
            r == (if code < 6 {
                Color::White
            } else {
                Color::Black
            }),
    {
        if code < 6 {
            Color::White
        } else {
            Color::Black
        }
    }

    pub fn opposite(self) -> (r: Self)
        ensures
            r == self.spec_opposite(),
    {
        if self == Color::White {
            Color::Black
        } else {
            Color::White
        }
    }

    pub open spec fn spec_opposite(self) -> Color {
        if self == Color::White {
            Color::Black
        } else {
            Color::White
        }
    }
}

impl Default for Color {
    fn default() -> (r: Self)
        ensures
            r == Color::White,
    {
        Color::White
    }
}

#[derive(Debug, PartialEq, Eq, Copy, Clone, Structural)]
pub enum PieceType {
    Pawn,
    Rook,
    Knight,
    Bishop,
    Queen,
    King,
}

/// The kind denoted by a lowercase piece letter, if any.
pub open spec fn spec_kind_of_char(c: char) -> Option<PieceType> {
    if c == 'p' {
        Some(PieceType::Pawn)
    } else if c == 'r' {
        Some(PieceType::Rook)
    } else if c == 'n' {
        Some(PieceType::Knight)
    } else if c == 'b' {
        Some(PieceType::Bishop)
    } else if c == 'q' {
        Some(PieceType::Queen)
    } else if c == 'k' {
        Some(PieceType::King)
    } else {
        None
    }
}

/// Lowers an ASCII uppercase letter; other characters are unchanged.
pub open spec fn spec_to_ascii_lower(c: char) -> char {
    if 65 <= c as int <= 90 {
        (c as int + 32) as char
    } else {
        c
    }
}

impl PieceType {
    /// The kind denoted by a piece letter in either case, if any.
    pub fn from_char(character: char) -> (r: Option<Self>)
        ensures
            r == spec_kind_of_char(spec_to_ascii_lower(character)),
    {
        let u = character as u32;
        let lower = if 65 <= u && u <= 90 {
            (u + 32) as u8 as char
        } else {
            character
        };
        if lower == 'p' {
            Some(PieceType::Pawn)
        } else if lower == 'r' {
            Some(PieceType::Rook)
        } else if lower == 'n' {
            Some(PieceType::Knight)
        } else if lower == 'b' {
            Some(PieceType::Bishop)
        } else if lower == 'q' {
            Some(PieceType::Queen)
        } else if lower == 'k' {
            Some(PieceType::King)
        } else {
            None
        }
    }

    /// The kind half of a numeric piece code.
    pub open spec fn spec_from_code(code: u8) -> PieceType {
        let k = code as int % 6;
        if k == 0 {
            PieceType::Pawn
        } else if k == 1 {
            PieceType::Rook
        } else if k == 2 {
            PieceType::Knight
        } else if k == 3 {
            PieceType::Bishop
        } else if k == 4 {
            PieceType::Queen
        } else {
            PieceType::King
        }
    }

    pub fn from_code(code: u8) -> (r: Self)
        ensures
            r == PieceType::spec_from_code(code),
    {
        let k = code % 6;
        if k == 0 {
            PieceType::Pawn
        } else if k == 1 {
            PieceType::Rook
        } else if k == 2 {
            PieceType::Knight
        } else if k == 3 {
            PieceType::Bishop
        } else if k == 4 {
            PieceType::Queen
        } else {
            PieceType::King
        }
    }

    /// The lowercase letter that denotes the kind.
    pub open spec fn spec_to_char(self) -> char {
        match self {
            PieceType::Pawn => 'p',
            PieceType::Rook => 'r',
            PieceType::Knight => 'n',
            PieceType::Bishop => 'b',
            PieceType::Queen => 'q',
            PieceType::King => 'k',
        }
    }

    pub fn to_char(&self) -> (r: char)
        ensures
            r == self.spec_to_char(),
    {
        match self {
            PieceType::Pawn => 'p',
            PieceType::Rook => 'r',
            PieceType::Knight => 'n',
            PieceType::Bishop => 'b',
            PieceType::Queen => 'q',
            PieceType::King => 'k',
        }
    }

    /// The kind's contribution to the numeric piece code.
    pub open spec fn spec_to_code(self) -> u8 {
        match self {
            PieceType::Pawn => 0,
            PieceType::Rook => 1,
            PieceType::Knight => 2,
            PieceType::Bishop => 3,
            PieceType::Queen => 4,
            PieceType::King => 5,
        }
    }

    pub fn to_code(&self) -> (r: u8)
        ensures
            r == self.spec_to_code(),
    {
        match self {
            PieceType::Pawn => 0,
            PieceType::Rook => 1,
            PieceType::Knight => 2,
            PieceType::Bishop => 3,
            PieceType::Queen => 4,
            PieceType::King => 5,
        }
    }
}

#[derive(Debug, PartialEq, Eq, Copy, Clone, Structural)]
pub struct Piece {
    pub color: Color,
    pub piece_type: PieceType,
}

/// The numeric code of a piece: kind code, plus 6 for Black.
pub open spec fn spec_piece_code(p: Piece) -> u8 {
    (p.piece_type.spec_to_code() + if p.color == Color::White {
        0int
    } else {
        6int
    }) as u8
}

/// The piece denoted by a letter: the kind by the letter in either case, the
/// color by its case (ASCII uppercase means White).
pub open spec fn spec_piece_of_char(c: char) -> Option<Piece> {
    match spec_kind_of_char(spec_to_ascii_lower(c)) {
        Some(piece_type) => Some(
            Piece {
                color: if 65 <= c as int <= 90 {
                    Color::White
                } else {
                    Color::Black
                },
                piece_type,
            },
        ),
        None => None,
    }
}

/// The piece denoted by a numeric code, if the code is a piece code at all.
pub open spec fn spec_piece_of_code(code: u8) -> Option<Piece> {
    if code > 11 {
        None
    } else {
        Some(
            Piece {
                piece_type: PieceType::spec_from_code(code),
                color: if code < 6 {
                    Color::White
                } else {
                    Color::Black
                },
            },
        )
    }
}

impl Piece {
    pub fn new(color: Color, piece_type: PieceType) -> (r: Self)
        ensures
            r == (Piece { color, piece_type }),
    {
        Self { color, piece_type }
    }

    /// The piece denoted by a letter: the kind by the letter in either case,
    /// the color by its case (uppercase means White).
    pub fn from_character(character: char) -> (r: Option<Self>)
        ensures
            r == spec_piece_of_char(character),
    {
        let color = Color::from_char(character);
        match PieceType::from_char(character) {
            Some(piece_type) => Some(Self { color, piece_type }),
            None => None,
        }
    }

    /// The letter that denotes the piece: the kind's letter, uppercased for
    /// White.
    pub fn to_character(&self) -> (r: char)
        ensures
            r == (if self.color == Color::White {
                (self.piece_type.spec_to_char() as int - 32) as char
            } else {
                self.piece_type.spec_to_char()
            }),
    {
        let lowercase = self.piece_type.to_char();
        if self.color == Color::White {
            ((lowercase as u32 - 32) as u8) as char
        } else {
            lowercase
        }
    }

    pub fn from_code(code: u8) -> (r: Option<Self>)
        ensures
            r == spec_piece_of_code(code),
    {
        if code > 11 {
            None
        } else {
            Some(Self { piece_type: PieceType::from_code(code), color: Color::from_code(code) })
        }
    }

    pub fn to_code(&self) -> (r: u8)
        ensures
            r == spec_piece_code(*self),
    {
        self.piece_type.to_code() + if self.color == Color::White {
            0
        } else {
            6
        }
    }
}

/// Round trip: every piece's code decodes back to the piece itself.
pub proof fn lemma_piece_code_round_trip(p: Piece)
    ensures
        spec_piece_of_code(spec_piece_code(p)) == Some(p),
        spec_piece_code(p) <= 11,
{
}

/// Casts one ray for the sliding pieces: walks unit steps from the origin,
/// emits a move onto every empty square, emits one more onto the first
/// occupied square when its occupant is an enemy, and stops at that square
/// or at the board edge.
pub fn add_line_to_moves(
    position: Coordinate,
    step: (i8, i8),
    color: Color,
    board: &Chessboard,
    moves: &mut Vec<Move>,
)
    requires
        board.wf(),
        coord_in_bounds(position),
        -1 <= step.0 <= 1,
        -1 <= step.1 <= 1,
        !(step.0 == 0 && step.1 == 0),
    ensures
        final(moves)@ == old(moves)@ + ray_emission(
            *board,
            color,
            position,
            step.0 as int,
            step.1 as int,
            1,
        ),
        forall|m: Move|
            final(moves)@.contains(m) <==> (old(moves)@.contains(m) || (m.from == position
                && m.special_move is None && ray_reaches(
                *board,
                color,
                position,
                step.0 as int,
                step.1 as int,
                m.to,
            ))),
{
    let fx = position.x;
    let fy = position.y;
    let ghost fxi = fx as int;
    let ghost fyi = fy as int;
    let ghost sx = step.0 as int;
    let ghost sy = step.1 as int;
    let ghost pre = moves@;
    let mut cx: i16 = fx as i16 + step.0 as i16;
    let mut cy: i16 = fy as i16 + step.1 as i16;
    let ghost mut k: int = 1;
    proof {
        assert(1 * sx == sx && 1 * sy == sy) by (nonlinear_arith);
        assert(moves@ =~= pre + ray_moves(position, sx, sy, 0));
        assert(ray_moves(position, sx, sy, 0) + ray_emission(*board, color, position, sx, sy, 1)
            =~= ray_emission(*board, color, position, sx, sy, 1));
    }
    loop
        invariant_except_break
            moves@ == pre + ray_moves(position, sx, sy, k - 1),
        invariant
            board.wf(),
            coord_in_bounds(position),
            fx == position.x,
            fy == position.y,
            fxi == fx as int,
            fyi == fy as int,
            sx == step.0 as int,
            sy == step.1 as int,
            -1 <= sx <= 1,
            -1 <= sy <= 1,
            !(sx == 0 && sy == 0),
            1 <= k <= 8,
            cx as int == fxi + k * sx,
            cy as int == fyi + k * sy,
            ray_clear(*board, fxi, fyi, sx, sy, k - 1),
            ray_emission(*board, color, position, sx, sy, 1) == ray_moves(position, sx, sy, k - 1)
                + ray_emission(*board, color, position, sx, sy, k),
        ensures
            moves@ == pre + ray_emission(*board, color, position, sx, sy, 1),
            forall|m: Move|
                moves@.contains(m) <==> (pre.contains(m) || (m.from == position
                    && m.special_move is None && ray_reaches(*board, color, position, sx, sy, m.to))),
        decreases 8 - k,
    {
        if cx < 0 || cx > 7 || cy < 0 || cy > 7 {
            proof {
                lemma_ray_finish(*board, color, position, sx, sy, k, k - 1, pre, moves@);
                assert(ray_emission(*board, color, position, sx, sy, k) =~= Seq::<Move>::empty());
                assert(ray_moves(position, sx, sy, k - 1) + ray_emission(
                    *board,
                    color,
                    position,
                    sx,
                    sy,
                    k,
                ) =~= ray_moves(position, sx, sy, k - 1));
                assert(moves@ == pre + ray_emission(*board, color, position, sx, sy, 1));
            }
            break;
        }
        let ux = cx as u8;
        let uy = cy as u8;
        let code = board.get_code(ux, uy);
        if code == EMPTY_CODE {
            let m = Move::new(fx, fy, ux, uy, None);
            let ghost snapshot = moves@;
            moves.push(m);
            proof {
                assert(m == ray_move_at(position, sx, sy, k));
                lemma_ray_clear_snoc(*board, fxi, fyi, sx, sy, k - 1);
                lemma_ray_moves_snoc(position, sx, sy, k);
                assert(moves@ =~= pre + ray_moves(position, sx, sy, k));
                // the emission passes this empty square and goes on
                assert(ray_emission(*board, color, position, sx, sy, k) == seq![
                    ray_move_at(position, sx, sy, k),
                ] + ray_emission(*board, color, position, sx, sy, k + 1));
                assert(ray_moves(position, sx, sy, k - 1) + seq![
                    ray_move_at(position, sx, sy, k),
                ] =~= ray_moves(position, sx, sy, k));
                assert((ray_moves(position, sx, sy, k - 1) + seq![
                    ray_move_at(position, sx, sy, k),
                ]) + ray_emission(*board, color, position, sx, sy, k + 1) =~= ray_moves(
                    position,
                    sx,
                    sy,
                    k - 1,
                ) + (seq![ray_move_at(position, sx, sy, k)] + ray_emission(
                    *board,
                    color,
                    position,
                    sx,
                    sy,
                    k + 1,
                )));
                assert((k + 1) * sx == k * sx + sx) by (nonlinear_arith);
                assert((k + 1) * sy == k * sy + sy) by (nonlinear_arith);
                k = k + 1;
            }
            cx = cx + step.0 as i16;
            cy = cy + step.1 as i16;
            proof {
                if k > 8 {
                    // Seven clear steps from an on-board origin leave the
                    // board: the moving coordinate has run out of files or
                    // ranks.
                    lemma_mul_by_sign(k - 1, sx);
                    lemma_mul_by_sign(k - 1, sy);
                    lemma_ray_clear_at(*board, fxi, fyi, sx, sy, k - 2, k - 2);
                    lemma_mul_by_sign(k - 2, sx);
                    lemma_mul_by_sign(k - 2, sy);
                    assert(false);
                }
            }
        } else {
            // The first occupied square ends the ray; it is a destination
            // only for an enemy occupant.
            let mover_white = color == Color::White;
            let target_white = code < 6;
            proof {
                assert(code < 12);
                assert(!(on_board(fxi + k * sx, fyi + k * sy) && empty_at(
                    *board,
                    fxi + k * sx,
                    fyi + k * sy,
                )));
                assert(color_at(*board, color, fxi + k * sx, fyi + k * sy) <==> (target_white
                    == mover_white));
            }
            if target_white != mover_white {
                let m = Move::new(fx, fy, ux, uy, None);
                moves.push(m);
                proof {
                    assert(m == ray_move_at(position, sx, sy, k));
                    lemma_ray_moves_snoc(position, sx, sy, k);
                    assert(moves@ =~= pre + ray_moves(position, sx, sy, k));
                    lemma_ray_finish(*board, color, position, sx, sy, k, k, pre, moves@);
                    // the emission ends with this capture
                    assert(ray_emission(*board, color, position, sx, sy, k) =~= seq![
                        ray_move_at(position, sx, sy, k),
                    ]);
                    assert(ray_moves(position, sx, sy, k - 1) + ray_emission(
                        *board,
                        color,
                        position,
                        sx,
                        sy,
                        k,
                    ) =~= ray_moves(position, sx, sy, k));
                    assert(moves@ == pre + ray_emission(*board, color, position, sx, sy, 1));
                }
            } else {
                proof {
                    lemma_ray_finish(*board, color, position, sx, sy, k, k - 1, pre, moves@);
                    // the emission ends before this own-colored piece
                    assert(ray_emission(*board, color, position, sx, sy, k)
                        =~= Seq::<Move>::empty());
                    assert(ray_moves(position, sx, sy, k - 1) + ray_emission(
                        *board,
                        color,
                        position,
                        sx,
                        sy,
                        k,
                    ) =~= ray_moves(position, sx, sy, k - 1));
                    assert(moves@ == pre + ray_emission(*board, color, position, sx, sy, 1));
                }
            }
            break;
        }
    }
}

/// Emits the single offset move when its target lies on the board and does
/// not hold an own-colored piece; the check the leaping pieces share.
pub fn add_offset_to_moves(
    position: Coordinate,
    dx: i8,
    dy: i8,
    color: Color,
    board: &Chessboard,
    moves: &mut Vec<Move>,
)
    requires
        board.wf(),
        coord_in_bounds(position),
        -2 <= dx <= 2,
        -2 <= dy <= 2,
    ensures
        final(moves)@ == (if offset_target_ok(*board, color, position, dx as int, dy as int) {
            old(moves)@.push(offset_move(position, dx as int, dy as int))
        } else {
            old(moves)@
        }),
        final(moves)@ == old(moves)@ + offset_emission(
            *board,
            color,
            position,
            dx as int,
            dy as int,
        ),
{
    let tx = position.x as i16 + dx as i16;
    let ty = position.y as i16 + dy as i16;
    if tx >= 0 && tx <= 7 && ty >= 0 && ty <= 7 {
        let code = board.get_code(tx as u8, ty as u8);
        let ok = if code == EMPTY_CODE {
            true
        } else {
            (code < 6) != (color == Color::White)
        };
        if ok {
            moves.push(Move::new(position.x, position.y, tx as u8, ty as u8, None));
        }
    }
    proof {
        assert(moves@ =~= old(moves)@ + offset_emission(
            *board,
            color,
            position,
            dx as int,
            dy as int,
        ));
    }
}

/// Checks one sliding move against its geometry: distinct squares on a line
/// of the kind's shape, a destination on the board without an own-colored
/// piece, and a clear path strictly between. Only meaningful for rooks,
/// bishops and queens.
#[verifier::loop_isolation(false)]
pub fn is_legal_move_in_linear_movement(
    mv: Move,
    color: Color,
    board: &Chessboard,
    piece_type: PieceType,
) -> (r: bool)
    requires
        board.wf(),
        coord_in_bounds(mv.from),
        piece_type is Rook || piece_type is Bishop || piece_type is Queen,
    ensures
        r == (mv.special_move is None && linear_move_ok(*board, color, piece_type, mv.from, mv.to)),
{
    if mv.from.x == mv.to.x && mv.from.y == mv.to.y {
        return false;
    }
    if mv.special_move.is_some() {
        return false;
    }
    if mv.to.x > 7 || mv.to.y > 7 {
        return false;
    }
    let fx = mv.from.x;
    let fy = mv.from.y;
    let tx = mv.to.x;
    let ty = mv.to.y;
    let adx = if fx >= tx {
        fx - tx
    } else {
        tx - fx
    };
    let ady = if fy >= ty {
        fy - ty
    } else {
        ty - fy
    };
    let shape_ok = match piece_type {
        PieceType::Rook => adx == 0 || ady == 0,
        PieceType::Bishop => adx == ady,
        PieceType::Queen => adx == 0 || ady == 0 || adx == ady,
        _ => false,
    };
    if !shape_ok {
        return false;
    }
    let tcode = board.get_code(tx, ty);
    if tcode < 12 && ((tcode < 6) == (color == Color::White)) {
        return false;
    }
    let x_step: i16 = if fx < tx {
        1
    } else if fx == tx {
        0
    } else {
        -1
    };
    let y_step: i16 = if fy < ty {
        1
    } else if fy == ty {
        0
    } else {
        -1
    };
    let ghost fxi = fx as int;
    let ghost fyi = fy as int;
    let ghost sx = x_step as int;
    let ghost sy = y_step as int;
    let ghost n = ray_len(fxi, fyi, tx as int, ty as int);
    proof {
        assert(sx == sgn(tx as int - fxi) && sy == sgn(ty as int - fyi));
        lemma_mul_by_sign(n, sx);
        lemma_mul_by_sign(n, sy);
        assert(tx as int == fxi + n * sx && ty as int == fyi + n * sy);
        assert(1 * sx == sx && 1 * sy == sy) by (nonlinear_arith);
    }
    let mut cx: i16 = fx as i16 + x_step;
    let mut cy: i16 = fy as i16 + y_step;
    let ghost mut i: int = 1;
    while !(cx == tx as i16 && cy == ty as i16)
        invariant
            1 <= i <= n,
            cx as int == fxi + i * sx,
            cy as int == fyi + i * sy,
            ray_clear(*board, fxi, fyi, sx, sy, i - 1),
            (cx == tx as i16 && cy == ty as i16) <==> i == n,
        decreases n - i,
    {
        proof {
            lemma_mul_by_sign(i, sx);
            lemma_mul_by_sign(i, sy);
            assert(i < n);
            assert(0 <= cx < 8 && 0 <= cy < 8);
        }
        let code = board.get_code(cx as u8, cy as u8);
        if code != EMPTY_CODE {
            proof {
                if linear_move_ok(*board, color, piece_type, mv.from, mv.to) {
                    lemma_ray_clear_at(*board, fxi, fyi, sx, sy, n - 1, i);
                }
            }
            return false;
        }
        proof {
            lemma_ray_clear_snoc(*board, fxi, fyi, sx, sy, i - 1);
            lemma_mul_by_sign(i + 1, sx);
            lemma_mul_by_sign(i + 1, sy);
            assert((i + 1) * sx == i * sx + sx) by (nonlinear_arith);
            assert((i + 1) * sy == i * sy + sy) by (nonlinear_arith);
            i = i + 1;
        }
        cx = cx + x_step;
        cy = cy + y_step;
    }
    proof {
        assert(i == n);
        assert(linear_move_ok(*board, color, piece_type, mv.from, mv.to));
    }
    true
}

impl Piece {
    /// Appends this piece's pseudo-legal moves from `position` to `moves`,
    /// dispatching on the piece kind.
    pub fn append_legal_moves(
        &self,
        position: Coordinate,
        board: &Chessboard,
        moves: &mut Vec<Move>,
    )
        requires
            board.wf(),
            coord_in_bounds(position),
        ensures
            final(moves)@ == old(moves)@ + piece_emission(*board, *self, position),
            forall|m: Move|
                final(moves)@.contains(m) <==> (old(moves)@.contains(m) || (m.from == position
                    && m.special_move is None && piece_move_ok(*board, *self, position, m.to))),
    {
        match self.piece_type {
            PieceType::Rook => rook::append_legal_moves(position, self.color, board, moves),
            PieceType::Bishop => bishop::append_legal_moves(position, self.color, board, moves),
            PieceType::Queen => queen::append_legal_moves(position, self.color, board, moves),
            PieceType::King => king::append_legal_moves(position, self.color, board, moves),
            PieceType::Knight => knight::append_legal_moves(position, self.color, board, moves),
            PieceType::Pawn => pawn::append_legal_moves(position, self.color, board, moves),
        }
    }

    /// This piece's pseudo-legal moves from `position`, as a fresh list in
    /// generation order.
    pub fn get_legal_moves(&self, position: Coordinate, board: &Chessboard) -> (moves: Vec<Move>)
        requires
            board.wf(),
            coord_in_bounds(position),
        ensures
            moves@ == piece_emission(*board, *self, position),
            forall|m: Move|
                moves@.contains(m) <==> (m.from == position && m.special_move is None
                    && piece_move_ok(*board, *self, position, m.to)),
    {
        let mut moves = Vec::new();
        self.append_legal_moves(position, board, &mut moves);
        proof {
            assert(Seq::<Move>::empty() + piece_emission(*board, *self, position)
                =~= piece_emission(*board, *self, position));
        }
        moves
    }

    /// Checks a single move of this piece against its kind's movement rule.
    pub fn is_legal_move(&self, mv: Move, board: &Chessboard) -> (r: bool)
        requires
            board.wf(),
            coord_in_bounds(mv.from),
        ensures
            r == (mv.special_move is None && piece_move_ok(*board, *self, mv.from, mv.to)),
    {
        match self.piece_type {
            PieceType::Rook => rook::is_legal_move(mv, self.color, board),
            PieceType::Bishop => bishop::is_legal_move(mv, self.color, board),
            PieceType::Queen => queen::is_legal_move(mv, self.color, board),
            PieceType::King => king::is_legal_move(mv, self.color, board),
            PieceType::Knight => knight::is_legal_move(mv, self.color, board),
            PieceType::Pawn => pawn::is_legal_move(mv, self.color, board),
        }
    }
}

} // verus!
