//! The board state: a packed per-square code array, one occupancy bitboard
//! per piece code, and the bookkeeping that chess rules require (turn order,
//! castling rights, repetition history).
//!
//! The packed array is the primary representation; the bitboards are a
//! derived index that every mutation keeps bit-exact in sync, which is what
//! [`Chessboard::wf`] states. All mutations funnel through
//! [`Chessboard::set_code`], the single atomic update path.

use vstd::prelude::*;

use vstd::pervasive::unreached;

use crate::coords::Coordinate;
use crate::coords::Move;
use crate::coords::SpecialMove;
use crate::coords::coord_in_bounds;
use crate::fen::FenBoard;
use crate::fen::empty_squares;
use crate::fen::fen_castle;
use crate::fen::fen_clock;
use crate::fen::fen_move_number;
use crate::fen::fen_parse;
use crate::fen::fen_place;
use crate::fen::fen_tail;
use crate::geometry::board_emission_upto;
use crate::geometry::piece_emission;
use crate::geometry::pseudo_legal;
use crate::geometry::square_emission;
use crate::pieces::Color;
use crate::pieces::EMPTY_CODE;
use crate::pieces::Piece;
use crate::pieces::PieceType;
use crate::pieces::spec_piece_code;
use crate::pieces::spec_piece_of_code;

verus! {

/// The error returned by coordinate-indexed accessors when a file or rank
/// exceeds 7.
#[derive(Debug, PartialEq, Eq, Structural)]
pub struct OutsideOfChessboard;

/// The nibble of `word` at file `x`: four bits per file, file 0 lowest.
pub open spec fn nibble(word: u32, x: int) -> u8 {
    ((word >> ((4 * x) as u32)) & 15) as u8
}

/// The aggregate game state.
#[derive(Debug)]
pub struct Chessboard {
    /// One occupancy mask per piece code, in code order
    /// \[P, R, N, B, Q, K, p, r, n, b, q, k\]; bit index is `x + 8 * y`.
    pub piece_bitboards: [u64; 12],
    /// One row per rank; each square is 4 bits of the `u32`, holding a piece
    /// code in [0, 11] or 12 for an empty square.
    pub state: [u32; 8],
    /// Next player to play.
    pub to_play: Color,
    /// The last applied move, used to detect en-passant eligibility windows.
    pub last_move: Option<Move>,
    /// \[White king-side, White queen-side, Black king-side, Black queen-side\].
    pub castling: [bool; 4],
    /// Moves since the last pawn move or capture, as decoded from notation.
    pub halfmove_clock: u8,
    /// Full-move counter, as decoded from notation.
    pub move_number: u16,
    /// All positions (state, side to play) since the last irreversible move,
    /// kept to account for the repetition rule.
    pub previous_states: Vec<([u32; 8], Color)>,
}

impl Chessboard {
    /// The code stored at square (`x`, `y`): a piece code, or 12 for empty.
    pub open spec fn square_code(self, x: int, y: int) -> u8 {
        nibble(self.state[y], x)
    }

    /// Whether the occupancy bit of piece code `code` is set for square
    /// (`x`, `y`).
    pub open spec fn bit_at(self, code: int, x: int, y: int) -> bool {
        self.piece_bitboards[code] & (1u64 << ((x + 8 * y) as u64)) != 0
    }

    /// Well-formedness: every stored code is a piece code or the empty code,
    /// and each occupancy bit is set exactly when the packed array stores
    /// that piece code. So for every square, either all twelve masks have
    /// its bit clear and the square is empty, or exactly one mask has it
    /// set, matching the stored code.
    pub open spec fn wf(self) -> bool {
        &&& forall|x: int, y: int|
            0 <= x < 8 && 0 <= y < 8 ==> #[trigger] self.square_code(x, y) <= 12
        &&& forall|code: int, x: int, y: int|
            0 <= code < 12 && 0 <= x < 8 && 0 <= y < 8 ==> (#[trigger] self.bit_at(code, x, y)
                <==> self.square_code(x, y) == code as u8)
    }

    /// The piece on square (`x`, `y`), if any.
    pub open spec fn spec_piece_at(self, x: int, y: int) -> Option<Piece> {
        spec_piece_of_code(self.square_code(x, y))
    }

    /// The 64 stored codes as one sequence, indexed by `x + 8 * y`.
    pub open spec fn squares_seq(self) -> Seq<u8> {
        Seq::new(64, |i: int| self.square_code(i % 8, i / 8))
    }

    /// The board's abstraction in the decoder's terms.
    pub open spec fn fen_abstract(self) -> FenBoard {
        FenBoard {
            squares: self.squares_seq(),
            to_play: self.to_play,
            last_move: self.last_move,
            castling: self.castling@,
            halfmove_clock: self.halfmove_clock,
            move_number: self.move_number,
        }
    }
}

/// A square index splits uniquely into file and rank.
proof fn lemma_square_index(x: int, y: int)
    by (nonlinear_arith)
    requires
        0 <= x < 8,
        0 <= y < 8,
    ensures
        (x + 8 * y) % 8 == x,
        (x + 8 * y) / 8 == y,
        0 <= x + 8 * y < 64,
{
}

/// A flat index splits into an in-range file and rank.
proof fn lemma_index_split(i: int)
    by (nonlinear_arith)
    requires
        0 <= i < 64,
    ensures
        0 <= i % 8 < 8,
        0 <= i / 8 < 8,
        i == (i % 8) + 8 * (i / 8),
{
}

/// Writing one square's code updates one entry of the flat code sequence.
proof fn lemma_squares_seq_update(pre: Chessboard, post: Chessboard, x: int, y: int, code: u8)
    requires
        0 <= x < 8,
        0 <= y < 8,
        post.square_code(x, y) == code,
        forall|i: int, j: int|
            0 <= i < 8 && 0 <= j < 8 && !(i == x && j == y) ==> #[trigger] post.square_code(i, j)
                == pre.square_code(i, j),
    ensures
        post.squares_seq() == pre.squares_seq().update(x + 8 * y, code),
{
    lemma_square_index(x, y);
    assert forall|idx: int| 0 <= idx < 64 implies post.squares_seq()[idx] == pre.squares_seq()
        .update(x + 8 * y, code)[idx] by {
        lemma_index_split(idx);
        if idx == x + 8 * y {
            assert(idx % 8 == x && idx / 8 == y);
        } else {
            assert(!(idx % 8 == x && idx / 8 == y));
        }
    }
    assert(post.squares_seq() =~= pre.squares_seq().update(x + 8 * y, code));
}

/// Whether applying a move is irreversible: the mover is a pawn, a king
/// moving while its side still held a castling right, or a rook leaving a
/// home square whose right was still held. A move that exploits an
/// en-passant window is a pawn move and so already irreversible.
pub open spec fn spec_move_irreversible(pre: Chessboard, moved: Piece, m: Move) -> bool {
    ||| moved.piece_type == PieceType::Pawn
    ||| (moved.piece_type == PieceType::King && moved.color == Color::White && (pre.castling@[0]
        || pre.castling@[1]))
    ||| (moved.piece_type == PieceType::King && moved.color == Color::Black && (pre.castling@[2]
        || pre.castling@[3]))
    ||| (moved.piece_type == PieceType::Rook && moved.color == Color::White && ((pre.castling@[0]
        && m.from == Coordinate { x: 7, y: 0 }) || (pre.castling@[1] && m.from == Coordinate {
        x: 0,
        y: 0,
    })))
    ||| (moved.piece_type == PieceType::Rook && moved.color == Color::Black && ((pre.castling@[2]
        && m.from == Coordinate { x: 7, y: 7 }) || (pre.castling@[3] && m.from == Coordinate {
        x: 0,
        y: 7,
    })))
}

/// The castling rights after a move: a king move revokes both of its side's
/// rights, a rook move off a home square revokes that square's right, and
/// nothing else changes. No right is ever granted.
pub open spec fn spec_castling_after(pre: Chessboard, moved: Piece, m: Move) -> Seq<bool> {
    let c = pre.castling@;
    if moved.piece_type == PieceType::King && moved.color == Color::White {
        c.update(0, false).update(1, false)
    } else if moved.piece_type == PieceType::King && moved.color == Color::Black {
        c.update(2, false).update(3, false)
    } else if moved.piece_type == PieceType::Rook && moved.color == Color::White {
        if m.from == (Coordinate { x: 7, y: 0 }) {
            c.update(0, false)
        } else if m.from == (Coordinate { x: 0, y: 0 }) {
            c.update(1, false)
        } else {
            c
        }
    } else if moved.piece_type == PieceType::Rook && moved.color == Color::Black {
        if m.from == (Coordinate { x: 7, y: 7 }) {
            c.update(2, false)
        } else if m.from == (Coordinate { x: 0, y: 7 }) {
            c.update(3, false)
        } else {
            c
        }
    } else {
        c
    }
}

/// Castling-rights monotonicity: applying a move never grants a right that
/// was false before it — so once a right is false, no sequence of moves sets
/// it back to true.
pub proof fn lemma_castling_monotonic(pre: Chessboard, moved: Piece, m: Move, idx: int)
    requires
        0 <= idx < 4,
        pre.castling@.len() == 4,
    ensures
        spec_castling_after(pre, moved, m)[idx] ==> pre.castling@[idx],
{
}

/// Irreversibility and history: a move that is neither a pawn move, nor a
/// king move with rights held, nor a rights-revoking rook move appends
/// exactly one entry to the history; an irreversible move — every pawn move
/// among them — clears it.
pub proof fn lemma_history_growth(pre: Chessboard, post: Chessboard, moved: Piece, m: Move)
    requires
        post.previous_states@ == (if spec_move_irreversible(pre, moved, m) {
            Seq::<([u32; 8], Color)>::empty()
        } else {
            pre.previous_states@.push((post.state, post.to_play))
        }),
    ensures
        spec_move_irreversible(pre, moved, m) ==> post.previous_states@.len() == 0,
        !spec_move_irreversible(pre, moved, m) ==> post.previous_states@.len()
            == pre.previous_states@.len() + 1,
        moved.piece_type == PieceType::Pawn ==> post.previous_states@.len() == 0,
{
}

/// Two boards with the same packed array and bitboards store the same codes
/// and are equally well-formed, whatever their bookkeeping fields hold.
proof fn lemma_same_boards(a: Chessboard, b: Chessboard)
    requires
        b.state == a.state,
        b.piece_bitboards == a.piece_bitboards,
    ensures
        b.squares_seq() == a.squares_seq(),
        forall|x: int, y: int| #[trigger] b.square_code(x, y) == a.square_code(x, y),
        a.wf() ==> b.wf(),
{
    assert forall|x: int, y: int| #[trigger] b.square_code(x, y) == a.square_code(x, y) by {
        assert(b.state[y] == a.state[y]);
    }
    assert(b.squares_seq() =~= a.squares_seq());
    if a.wf() {
        assert forall|code: int, x: int, y: int|
            0 <= code < 12 && 0 <= x < 8 && 0 <= y < 8 implies (#[trigger] b.bit_at(code, x, y)
            <==> b.square_code(x, y) == code as u8) by {
            assert(b.piece_bitboards[code] == a.piece_bitboards[code]);
            assert(a.bit_at(code, x, y) <==> a.square_code(x, y) == code as u8);
        }
    }
}

/// Occupancy consistency: on a well-formed board, every square either stores
/// the empty code with all twelve occupancy bits clear, or stores a piece
/// code with exactly that one occupancy bit set.
pub proof fn lemma_occupancy_consistent(b: Chessboard, x: int, y: int)
    requires
        b.wf(),
        0 <= x < 8,
        0 <= y < 8,
    ensures
        b.square_code(x, y) == EMPTY_CODE ==> forall|c: int| 0 <= c < 12 ==> !b.bit_at(c, x, y),
        b.square_code(x, y) < 12 ==> b.bit_at(b.square_code(x, y) as int, x, y) && forall|c: int|
            0 <= c < 12 && c != b.square_code(x, y) ==> !b.bit_at(c, x, y),
{
}

proof fn lemma_u64_bit_or(b: u64, i: u64, j: u64)
    by (bit_vector)
    requires
        i < 64,
        j < 64,
    ensures
        ((b | (1u64 << i)) & (1u64 << j) != 0) <==> (i == j || b & (1u64 << j) != 0),
{
}

proof fn lemma_u64_bit_xor_clear(b: u64, i: u64, j: u64)
    by (bit_vector)
    requires
        i < 64,
        j < 64,
        b & (1u64 << i) != 0,
    ensures
        ((b ^ (1u64 << i)) & (1u64 << j) != 0) <==> (i != j && b & (1u64 << j) != 0),
{
}

proof fn lemma_nibble_update_same(w: u32, x: u32, c: u32)
    by (bit_vector)
    requires
        x < 8,
        c < 16,
    ensures
        (((w & !(15u32 << (4 * x))) | (c << (4 * x))) >> (4 * x)) & 15 == c,
{
}

proof fn lemma_nibble_update_other(w: u32, x: u32, x2: u32, c: u32)
    by (bit_vector)
    requires
        x < 8,
        x2 < 8,
        x != x2,
        c < 16,
    ensures
        (((w & !(15u32 << (4 * x))) | (c << (4 * x))) >> (4 * x2)) & 15 == (w >> (4 * x2)) & 15,
{
}

proof fn lemma_empty_row_nibble(x: u32)
    by (bit_vector)
    requires
        x < 8,
    ensures
        (0xCCCCCCCCu32 >> (4 * x)) & 15 == 12,
{
}

proof fn lemma_zero_bit(j: u64)
    by (bit_vector)
    ensures
        0u64 & (1u64 << j) == 0,
{
}

impl Default for Chessboard {
    /// The empty board: every square empty, all occupancy bits clear, White
    /// to play, no rights, no history.
    fn default() -> (r: Self)
        ensures
            r.wf(),
            forall|x: int, y: int|
                0 <= x < 8 && 0 <= y < 8 ==> #[trigger] r.square_code(x, y) == EMPTY_CODE,
            r.to_play == Color::White,
            r.last_move is None,
            r.castling@ =~= seq![false, false, false, false],
            r.halfmove_clock == 0,
            r.move_number == 0,
            r.previous_states@ =~= Seq::<([u32; 8], Color)>::empty(),
    {
        let r = Self {
            piece_bitboards: [0u64; 12],
            state: [0xCCCCCCCCu32; 8],
            to_play: Color::White,
            last_move: None,
            castling: [false, false, false, false],
            halfmove_clock: 0,
            move_number: 0,
            previous_states: Vec::new(),
        };
        proof {
            assert forall|x: int, y: int| 0 <= x < 8 && 0 <= y < 8 implies #[trigger] r.square_code(
                x,
                y,
            ) == EMPTY_CODE by {
                lemma_empty_row_nibble(x as u32);
                assert((4 * x) as u32 == 4 * (x as u32));
            }
            assert forall|code: int, x: int, y: int|
                0 <= code < 12 && 0 <= x < 8 && 0 <= y < 8 implies !(#[trigger] r.bit_at(
                code,
                x,
                y,
            )) by {
                lemma_zero_bit(((x + 8 * y) as u64));
            }
        }
        r
    }
}

impl Chessboard {
    /// Reads the code stored at a square. Very fast, but the caller keeps
    /// `x` and `y` in range; otherwise use [`Chessboard::get`].
    pub fn get_code(&self, x: u8, y: u8) -> (r: u8)
        requires
            x < 8,
            y < 8,
        ensures
            r == self.square_code(x as int, y as int),
    {
        let w = self.state[y as usize];
        let sh: u32 = 4 * (x as u32);
        let r = ((w >> sh) & 15) as u8;
        proof {
            assert((4 * (x as int)) as u32 == 4 * (x as u32));
        }
        r
    }

    /// Writes `code` into a square's nibble and keeps both occupancy masks
    /// in step: the previous occupant's bit (if it was a piece) is cleared
    /// and the new occupant's bit (if a piece) is set, in one atomic update
    /// path. Very fast, but the caller keeps `x` and `y` in range; otherwise
    /// use [`Chessboard::set`].
    pub fn set_code(&mut self, x: u8, y: u8, code: u8)
        requires
            old(self).wf(),
            x < 8,
            y < 8,
            code <= 12,
        ensures
            final(self).wf(),
            final(self).square_code(x as int, y as int) == code,
            forall|i: int, j: int|
                0 <= i < 8 && 0 <= j < 8 && !(i == x as int && j == y as int)
                    ==> #[trigger] final(self).square_code(i, j) == old(self).square_code(i, j),
            final(self).to_play == old(self).to_play,
            final(self).last_move == old(self).last_move,
            final(self).castling == old(self).castling,
            final(self).halfmove_clock == old(self).halfmove_clock,
            final(self).move_number == old(self).move_number,
            final(self).previous_states == old(self).previous_states,
    {
        let prev = self.get_code(x, y);
        let bit_index: u64 = (x as u64) + 8 * (y as u64);
        if prev < 12 {
            let b = self.piece_bitboards[prev as usize];
            self.piece_bitboards[prev as usize] = b ^ (1u64 << bit_index);
        }
        if code < 12 {
            let b = self.piece_bitboards[code as usize];
            self.piece_bitboards[code as usize] = b | (1u64 << bit_index);
        }
        let w = self.state[y as usize];
        let sh: u32 = 4 * (x as u32);
        self.state[y as usize] = (w & !(15u32 << sh)) | ((code as u32) << sh);
        proof {
            let xi = x as int;
            let yi = y as int;
            let pre = *old(self);
            let post = *self;
            assert(pre.square_code(xi, yi) == prev);
            // The updated row decodes to `code` at x and is unchanged elsewhere.
            lemma_nibble_update_same(w, x as u32, code as u32);
            assert((4 * xi) as u32 == 4 * (x as u32));
            assert(post.square_code(xi, yi) == code);
            assert forall|i: int, j: int|
                0 <= i < 8 && 0 <= j < 8 && !(i == xi && j == yi) implies #[trigger] post
                .square_code(i, j) == pre.square_code(i, j) by {
                if j == yi {
                    lemma_nibble_update_other(w, x as u32, i as u32, code as u32);
                    assert((4 * i) as u32 == 4 * (i as u32));
                }
            }
            // Each occupancy bit still matches the stored code.
            assert(((xi + 8 * yi) as u64) == bit_index);
            assert forall|c: int, i: int, j: int|
                0 <= c < 12 && 0 <= i < 8 && 0 <= j < 8 implies (#[trigger] post.bit_at(c, i, j)
                <==> post.square_code(i, j) == c as u8) by {
                let bj = (i + 8 * j) as u64;
                assert(0 <= i + 8 * j < 64);
                assert((bj == bit_index) <==> (i == xi && j == yi));
                let pre_b = pre.piece_bitboards[c];
                let post_b = post.piece_bitboards[c];
                assert(pre.bit_at(c, i, j) <==> pre.square_code(i, j) == c as u8);
                if c == prev as int && prev < 12 {
                    assert(pre.bit_at(c, xi, yi));
                    assert(pre_b & (1u64 << bit_index) != 0);
                    lemma_u64_bit_xor_clear(pre_b, bit_index, bj);
                    if c == code as int {
                        assert(post_b == (pre_b ^ (1u64 << bit_index)) | (1u64 << bit_index));
                        lemma_u64_bit_or(pre_b ^ (1u64 << bit_index), bit_index, bj);
                    } else {
                        assert(post_b == pre_b ^ (1u64 << bit_index));
                    }
                } else if c == code as int && code < 12 {
                    assert(post_b == pre_b | (1u64 << bit_index));
                    lemma_u64_bit_or(pre_b, bit_index, bj);
                } else {
                    assert(post_b == pre_b);
                }
            }
        }
    }

    /// Returns the piece on a square, or `None` for an empty square; fails
    /// with `OutsideOfChessboard` when `x` or `y` exceeds 7.
    pub fn get(&self, x: u8, y: u8) -> (r: Result<Option<Piece>, OutsideOfChessboard>)
        ensures
            r == (if x > 7 || y > 7 {
                Result::<Option<Piece>, OutsideOfChessboard>::Err(OutsideOfChessboard)
            } else {
                Result::<Option<Piece>, OutsideOfChessboard>::Ok(
                    self.spec_piece_at(x as int, y as int),
                )
            }),
    {
        if x > 7 || y > 7 {
            Err(OutsideOfChessboard)
        } else {
            Ok(Piece::from_code(self.get_code(x, y)))
        }
    }

    /// Places a piece on a square, or empties it for `None`; fails with
    /// `OutsideOfChessboard` when `x` or `y` exceeds 7, leaving the board
    /// unchanged.
    pub fn set(&mut self, x: u8, y: u8, piece: Option<Piece>) -> (r: Result<
        (),
        OutsideOfChessboard,
    >)
        requires
            old(self).wf(),
        ensures
            final(self).wf(),
            x > 7 || y > 7 ==> r is Err && *final(self) == *old(self),
            x <= 7 && y <= 7 ==> r is Ok && final(self).square_code(x as int, y as int) == (match piece {
                Some(p) => spec_piece_code(p),
                None => EMPTY_CODE,
            }),
            forall|i: int, j: int|
                0 <= i < 8 && 0 <= j < 8 && !(i == x as int && j == y as int)
                    ==> #[trigger] final(self).square_code(i, j) == old(self).square_code(i, j),
            final(self).to_play == old(self).to_play,
            final(self).last_move == old(self).last_move,
            final(self).castling == old(self).castling,
            final(self).halfmove_clock == old(self).halfmove_clock,
            final(self).move_number == old(self).move_number,
            final(self).previous_states == old(self).previous_states,
    {
        if x > 7 || y > 7 {
            Err(OutsideOfChessboard)
        } else {
            let code = match piece {
                Some(p) => p.to_code(),
                None => EMPTY_CODE,
            };
            self.set_code(x, y, code);
            Ok(())
        }
    }

    /// Creates a board from a position string of six space-separated fields,
    /// decoding exactly what [`fen_parse`] describes: piece placement, side
    /// to move, castling rights, en-passant target, halfmove clock and
    /// fullmove number. Any malformed input yields `None` rather than a
    /// partial board.
    pub fn from_fen(fen: &str) -> (r: Option<Self>)
        ensures
            match r {
                None => fen_parse(fen@) is None,
                Some(b) => {
                    &&& b.wf()
                    &&& fen_parse(fen@) == Some(b.fen_abstract())
                    &&& b.previous_states@ == Seq::<([u32; 8], Color)>::empty()
                },
            },
    {
        let mut chessboard = Chessboard::default();
        let n = fen.unicode_len();
        let ghost s = fen@;
        proof {
            assert(chessboard.squares_seq() =~= empty_squares());
        }

        // Field 1: piece placement, from the top rank downward. Only this
        // field touches the board; the remaining fields are gathered into
        // locals and written at the end.
        let mut i: usize = 0;
        let mut x: u8 = 0;
        let mut y: u8 = 7;
        loop
            invariant_except_break
                fen_place(s, 0, 0, 7, empty_squares()) == fen_place(
                    s,
                    i as int,
                    x as int,
                    y as int,
                    chessboard.squares_seq(),
                ),
                x <= 8,
            invariant
                chessboard.wf(),
                i <= n,
                y <= 7,
                n as int == s.len(),
                s == fen@,
                chessboard.to_play == Color::White,
                chessboard.last_move is None,
                chessboard.castling@ == seq![false, false, false, false],
                chessboard.halfmove_clock == 0,
                chessboard.move_number == 0,
                chessboard.previous_states@ == Seq::<([u32; 8], Color)>::empty(),
            ensures
                fen_place(s, 0, 0, 7, empty_squares()) == Some(
                    (chessboard.squares_seq(), i as int),
                ),
            decreases n - i,
        {
            if i >= n {
                return None;
            }
            let c = fen.get_char(i);
            i = i + 1;
            if c == ' ' {
                break ;
            }
            match Piece::from_character(c) {
                Some(piece) => {
                    let ghost pre = chessboard;
                    if chessboard.set(x, y, Some(piece)).is_err() {
                        return None;
                    }
                    proof {
                        lemma_squares_seq_update(
                            pre,
                            chessboard,
                            x as int,
                            y as int,
                            spec_piece_code(piece),
                        );
                    }
                    x = x + 1;
                },
                None => {
                    let u = c as u32;
                    if 48 <= u && u <= 57 {
                        let d = u - 48;
                        if x as u32 + d > 8 {
                            return None;
                        }
                        x = x + (d as u8);
                    } else if c == '/' {
                        if y == 0 {
                            return None;
                        }
                        y = y - 1;
                        x = 0;
                    } else {
                        return None;
                    }
                },
            }
        }
        let ghost placed = chessboard;
        let ghost i1 = i as int;

        // Field 2: side to move; 'b' selects Black, anything else White. The
        // following separator is skipped without being examined.
        if i >= n {
            return None;
        }
        let to_play = if fen.get_char(i) == 'b' {
            Color::Black
        } else {
            Color::White
        };
        i = i + 1;
        if i >= n {
            // The input ends where the separator was expected, so the
            // rights field that must follow cannot be read.
            proof {
                assert(fen_castle(s, i1 + 2, seq![false, false, false, false]) is None);
            }
            return None;
        }
        i = i + 1;

        // Field 3: castling rights, ended by a space.
        let mut castling: [bool; 4] = [false, false, false, false];
        proof {
            assert(castling@ =~= seq![false, false, false, false]);
        }
        loop
            invariant_except_break
                fen_castle(s, i1 + 2, seq![false, false, false, false]) == fen_castle(
                    s,
                    i as int,
                    castling@,
                ),
            invariant
                i <= n,
                n as int == s.len(),
                s == fen@,
                fen_place(s, 0, 0, 7, empty_squares()) == Some((placed.squares_seq(), i1)),
                0 <= i1 < s.len(),
                to_play == (if s[i1] == 'b' {
                    Color::Black
                } else {
                    Color::White
                }),
            ensures
                fen_castle(s, i1 + 2, seq![false, false, false, false]) == Some(
                    (castling@, i as int),
                ),
            decreases n - i,
        {
            if i >= n {
                return None;
            }
            let c = fen.get_char(i);
            i = i + 1;
            if c == ' ' {
                break ;
            }
            if c == 'K' {
                castling[0] = true;
            } else if c == 'Q' {
                castling[1] = true;
            } else if c == 'k' {
                castling[2] = true;
            } else if c == 'q' {
                castling[3] = true;
            }
        }
        let ghost castling_done = castling@;
        let ghost i2 = i as int;

        // Field 4: the en-passant target square, or '-' for none; a target
        // reconstructs the synthetic last move that made it available.
        let mut last_move: Option<Move> = None;
        if i >= n {
            return None;
        }
        let c = fen.get_char(i);
        i = i + 1;
        if c != '-' {
            if i >= n {
                return None;
            }
            let c2 = fen.get_char(i);
            i = i + 1;
            let u = c as u32;
            let u2 = c2 as u32;
            proof {
                assert(seq![s[i2], s[i2 + 1]].len() == 2);
            }
            if !(97 <= u && u <= 104 && 49 <= u2 && u2 <= 56) {
                return None;
            }
            let cx = (u - 97) as u8;
            let cy = (u2 - 49) as u8;
            if cy == 4 {
                last_move = Some(Move::new(cx, 2, cx, 4, Some(SpecialMove::EnPassant)));
            } else if cy == 5 {
                last_move = Some(Move::new(cx, 7, cx, 5, Some(SpecialMove::EnPassant)));
            } else {
                return None;
            }
        }
        let ghost i_tail = i as int + 1;
        proof {
            assert(fen_parse(s) == fen_tail(
                s,
                i_tail,
                placed.squares_seq(),
                to_play,
                last_move,
                castling_done,
            ));
        }
        // The separator after the field is skipped without being examined;
        // if the input ends here, the clock field cannot be read.
        if i >= n {
            proof {
                assert(fen_clock(s, i_tail, 0) is None);
            }
            return None;
        }
        i = i + 1;

        // Field 5: the halfmove clock, digits ended by a space.
        let mut clock: u32 = 0;
        loop
            invariant_except_break
                fen_clock(s, i_tail, 0) == fen_clock(s, i as int, clock as int),
                clock <= 255,
            invariant
                i <= n,
                n as int == s.len(),
                s == fen@,
                fen_parse(s) == fen_tail(
                    s,
                    i_tail,
                    placed.squares_seq(),
                    to_play,
                    last_move,
                    castling_done,
                ),
            ensures
                fen_clock(s, i_tail, 0) == Some((clock as int, i as int)),
                clock <= 255,
            decreases n - i,
        {
            if i >= n {
                return None;
            }
            let c = fen.get_char(i);
            i = i + 1;
            if c == ' ' {
                break ;
            }
            let u = c as u32;
            if u < 48 || u > 57 {
                return None;
            }
            clock = clock * 10 + (u - 48);
            if clock > 255 {
                return None;
            }
        }
        let ghost i3 = i as int;

        // Field 6: the fullmove number, digits to the end of the input.
        let mut number: u32 = 0;
        loop
            invariant_except_break
                fen_move_number(s, i3, 0) == fen_move_number(s, i as int, number as int),
                number <= 65535,
            invariant
                i <= n,
                n as int == s.len(),
                s == fen@,
                fen_parse(s) == fen_tail(
                    s,
                    i_tail,
                    placed.squares_seq(),
                    to_play,
                    last_move,
                    castling_done,
                ),
                fen_clock(s, i_tail, 0) == Some((clock as int, i3)),
                clock <= 255,
            ensures
                fen_move_number(s, i3, 0) == Some(number as int),
                number <= 65535,
            decreases n - i,
        {
            if i >= n {
                break ;
            }
            let c = fen.get_char(i);
            i = i + 1;
            let u = c as u32;
            if u < 48 || u > 57 {
                return None;
            }
            number = number * 10 + (u - 48);
            if number > 65535 {
                return None;
            }
        }

        // Write the gathered fields; the placement itself is untouched.
        chessboard.to_play = to_play;
        chessboard.last_move = last_move;
        chessboard.castling = castling;
        chessboard.halfmove_clock = clock as u8;
        chessboard.move_number = number as u16;
        proof {
            lemma_same_boards(placed, chessboard);
            assert(fen_parse(s) == Some(chessboard.fen_abstract()));
        }
        Some(chessboard)
    }

    /// Makes the move without checking that it is valid; to check validity,
    /// use [`Chessboard::get_legal_moves`] or [`Chessboard::is_legal_move`].
    /// Returns the moved piece and the captured piece if there was one.
    ///
    /// Flips the turn, lets castling rights decay as
    /// [`spec_castling_after`] states, clears the origin square and writes
    /// the moved piece onto the destination, then clears the repetition
    /// history for an irreversible move and extends it by the new position
    /// otherwise. The board-level effects of the special-move tags —
    /// relocating the rook for castling, removing the passed pawn for en
    /// passant, substituting the promoted piece — are not performed.
    pub fn make_move(&mut self, mv: Move) -> (r: (Piece, Option<Piece>))
        requires
            old(self).wf(),
            coord_in_bounds(mv.from),
            coord_in_bounds(mv.to),
            old(self).spec_piece_at(mv.from.x as int, mv.from.y as int) is Some,
        ensures
            final(self).wf(),
            Some(r.0) == old(self).spec_piece_at(mv.from.x as int, mv.from.y as int),
            r.1 == old(self).spec_piece_at(mv.to.x as int, mv.to.y as int),
            final(self).to_play == old(self).to_play.spec_opposite(),
            forall|i: int, j: int|
                0 <= i < 8 && 0 <= j < 8 ==> #[trigger] final(self).square_code(i, j) == (if i
                    == mv.to.x as int && j == mv.to.y as int {
                    spec_piece_code(r.0)
                } else if i == mv.from.x as int && j == mv.from.y as int {
                    EMPTY_CODE
                } else {
                    old(self).square_code(i, j)
                }),
            final(self).castling@ == spec_castling_after(*old(self), r.0, mv),
            final(self).last_move == old(self).last_move,
            final(self).halfmove_clock == old(self).halfmove_clock,
            final(self).move_number == old(self).move_number,
            final(self).previous_states@ == (if spec_move_irreversible(*old(self), r.0, mv) {
                Seq::<([u32; 8], Color)>::empty()
            } else {
                old(self).previous_states@.push((final(self).state, final(self).to_play))
            }),
    {
        let moved = match Piece::from_code(self.get_code(mv.from.x, mv.from.y)) {
            Some(p) => p,
            None => unreached(),
        };
        let captured = Piece::from_code(self.get_code(mv.to.x, mv.to.y));

        self.to_play = self.to_play.opposite();

        // Decide irreversibility and let the castling rights decay. A move
        // that exploits an en-passant window is a pawn capture, so the pawn
        // arm already covers it.
        let mut irreversible = false;
        match (moved.piece_type, moved.color) {
            (PieceType::Pawn, _) => {
                irreversible = true;
            },
            (PieceType::King, Color::White) => {
                if self.castling[0] || self.castling[1] {
                    irreversible = true;
                }
                self.castling[0] = false;
                self.castling[1] = false;
            },
            (PieceType::King, Color::Black) => {
                if self.castling[2] || self.castling[3] {
                    irreversible = true;
                }
                self.castling[2] = false;
                self.castling[3] = false;
            },
            (PieceType::Rook, Color::White) => {
                if self.castling[0] && mv.from.x == 7 && mv.from.y == 0 {
                    irreversible = true;
                    self.castling[0] = false;
                }
                if self.castling[1] && mv.from.x == 0 && mv.from.y == 0 {
                    irreversible = true;
                    self.castling[1] = false;
                }
            },
            (PieceType::Rook, Color::Black) => {
                if self.castling[2] && mv.from.x == 7 && mv.from.y == 7 {
                    irreversible = true;
                    self.castling[2] = false;
                }
                if self.castling[3] && mv.from.x == 0 && mv.from.y == 7 {
                    irreversible = true;
                    self.castling[3] = false;
                }
            },
            _ => {},
        }
        proof {
            assert(self.castling@ =~= spec_castling_after(*old(self), moved, mv));
            assert(irreversible == spec_move_irreversible(*old(self), moved, mv));
            lemma_same_boards(*old(self), *self);
        }

        self.set_code(mv.from.x, mv.from.y, EMPTY_CODE);
        self.set_code(mv.to.x, mv.to.y, moved.to_code());
        let ghost after_sets = *self;

        if irreversible {
            self.previous_states.clear();
        } else {
            let snapshot = self.state;
            let turn = self.to_play;
            self.previous_states.push((snapshot, turn));
        }
        proof {
            lemma_same_boards(after_sets, *self);
        }
        (moved, captured)
    }

    /// All pseudo-legal moves for the side to play: for every occupied
    /// square whose occupant's color equals `to_play`, the occupant's
    /// generated moves, scanning origins row-major by rank then file.
    pub fn get_legal_moves(&self) -> (moves: Vec<Move>)
        requires
            self.wf(),
        ensures
            moves@ == board_emission_upto(*self, 64),
            forall|m: Move| moves@.contains(m) <==> pseudo_legal(*self, m),
    {
        let mut moves: Vec<Move> = Vec::new();
        proof {
            assert(moves@ =~= board_emission_upto(*self, 0));
        }
        let mut y: u8 = 0;
        while y < 8
            invariant
                self.wf(),
                y <= 8,
                moves@ == board_emission_upto(*self, 8 * (y as int)),
                forall|m: Move|
                    #[trigger] moves@.contains(m) <==> (pseudo_legal(*self, m) && ((m.from.y as int)
                        < (y as int))),
            decreases 8 - y,
        {
            let mut x: u8 = 0;
            proof {
                assert forall|m: Move|
                    #[trigger] moves@.contains(m) <==> (pseudo_legal(*self, m) && ((m.from.y as int)
                        < (y as int) || (m.from.y == y && (m.from.x as int) < (x as int)))) by {
                    assert(moves@.contains(m) <==> (pseudo_legal(*self, m) && ((m.from.y as int)
                        < (y as int))));
                    assert(m.from.x as int >= 0);
                }
            }
            while x < 8
                invariant
                    self.wf(),
                    y < 8,
                    x <= 8,
                    moves@ == board_emission_upto(*self, 8 * (y as int) + x as int),
                    forall|m: Move|
                        #[trigger] moves@.contains(m) <==> (pseudo_legal(*self, m) && ((m.from.y as int)
                            < (y as int) || (m.from.y == y && (m.from.x as int) < (x as int)))),
                decreases 8 - x,
            {
                let ghost n = 8 * (y as int) + x as int;
                proof {
                    lemma_square_index(x as int, y as int);
                    assert(board_emission_upto(*self, n + 1) == board_emission_upto(*self, n)
                        + square_emission(*self, x as int, y as int));
                }
                let code = self.get_code(x, y);
                let mut moved = false;
                if code < 12 {
                    if let Some(piece) = Piece::from_code(code) {
                        if piece.color == self.to_play {
                            piece.append_legal_moves(Coordinate::new(x, y), self, &mut moves);
                            moved = true;
                            proof {
                                assert(square_emission(*self, x as int, y as int)
                                    == piece_emission(*self, piece, Coordinate { x, y }));
                                assert forall|m: Move|
                                    (m.from.x == x && m.from.y == y) implies (pseudo_legal(
                                    *self,
                                    m,
                                ) <==> (m.special_move is None && crate::geometry::piece_move_ok(
                                    *self,
                                    piece,
                                    m.from,
                                    m.to,
                                ))) by {}
                            }
                        }
                    }
                }
                proof {
                    if !moved {
                        assert(square_emission(*self, x as int, y as int) =~= Seq::<Move>::empty());
                        assert(moves@ =~= board_emission_upto(*self, n) + square_emission(
                            *self,
                            x as int,
                            y as int,
                        ));
                        assert forall|m: Move|
                            m.from.x == x && m.from.y == y implies !pseudo_legal(*self, m) by {}
                    }
                }
                x = x + 1;
            }
            y = y + 1;
        }
        moves
    }

    /// Checks a single move for the side to play: fails when `from` lies off
    /// the board; answers false when `from` is empty or holds an opponent's
    /// piece; otherwise checks the occupant's movement rule. This answers
    /// alike with membership in `get_legal_moves`.
    pub fn is_legal_move(&self, mv: Move) -> (r: Result<bool, OutsideOfChessboard>)
        requires
            self.wf(),
        ensures
            r == (if mv.from.x > 7 || mv.from.y > 7 {
                Result::<bool, OutsideOfChessboard>::Err(OutsideOfChessboard)
            } else {
                Result::<bool, OutsideOfChessboard>::Ok(pseudo_legal(*self, mv))
            }),
    {
        if mv.from.x > 7 || mv.from.y > 7 {
            return Err(OutsideOfChessboard);
        }
        let code = self.get_code(mv.from.x, mv.from.y);
        match Piece::from_code(code) {
            Some(piece) => {
                if piece.color == self.to_play {
                    Ok(piece.is_legal_move(mv, self))
                } else {
                    Ok(false)
                }
            },
            None => Ok(false),
        }
    }
}

} // verus!
