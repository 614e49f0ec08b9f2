//! The position-notation decoder's mathematical model: a character-by-
//! character parse of the six space-separated fields, which
//! `Chessboard::from_fen` is proved to implement exactly. Failure at any
//! point — a malformed character, premature end of input, an out-of-range
//! field — yields no result rather than a partial board.

use vstd::prelude::*;

use crate::coords::Coordinate;
use crate::coords::Move;
use crate::coords::SpecialMove;
use crate::coords::parse_coord;
use crate::pieces::Color;
use crate::pieces::spec_piece_code;
use crate::pieces::spec_piece_of_char;

verus! {

/// The abstract board a position string decodes to.
pub struct FenBoard {
    /// One code per square, indexed by `x + 8 * y`.
    pub squares: Seq<u8>,
    pub to_play: Color,
    pub last_move: Option<Move>,
    pub castling: Seq<bool>,
    pub halfmove_clock: u8,
    pub move_number: u16,
}

/// All 64 squares empty.
pub open spec fn empty_squares() -> Seq<u8> {
    Seq::new(64, |i: int| 12u8)
}

/// The value of an ASCII decimal digit, if the character is one.
pub open spec fn fen_digit(c: char) -> Option<int> {
    if 48 <= c as int <= 57 {
        Some(c as int - 48)
    } else {
        None
    }
}

/// The piece-placement field: a piece letter places a piece and advances one
/// file, a digit skips that many files, '/' starts the next rank down, and a
/// space ends the field. A placement off the board fails.
pub open spec fn fen_place(s: Seq<char>, i: int, x: int, y: int, sq: Seq<u8>) -> Option<
    (Seq<u8>, int),
>
    decreases s.len() - i,
{
    if i < 0 || i >= s.len() {
        None
    } else if s[i] == ' ' {
        Some((sq, i + 1))
    } else if spec_piece_of_char(s[i]) is Some {
        if 0 <= x <= 7 && 0 <= y <= 7 {
            fen_place(
                s,
                i + 1,
                x + 1,
                y,
                sq.update(x + 8 * y, spec_piece_code(spec_piece_of_char(s[i])->Some_0)),
            )
        } else {
            None
        }
    } else if fen_digit(s[i]) is Some {
        if x + fen_digit(s[i])->Some_0 <= 8 {
            fen_place(s, i + 1, x + fen_digit(s[i])->Some_0, y, sq)
        } else {
            None
        }
    } else if s[i] == '/' {
        if y >= 1 {
            fen_place(s, i + 1, 0, y - 1, sq)
        } else {
            None
        }
    } else {
        None
    }
}

/// The castling-rights field: each of K, Q, k, q grants the corresponding
/// right, other characters (including '-') are ignored, and a space ends the
/// field.
pub open spec fn fen_castle(s: Seq<char>, i: int, c: Seq<bool>) -> Option<(Seq<bool>, int)>
    decreases s.len() - i,
{
    if i < 0 || i >= s.len() {
        None
    } else if s[i] == ' ' {
        Some((c, i + 1))
    } else if s[i] == 'K' {
        fen_castle(s, i + 1, c.update(0, true))
    } else if s[i] == 'Q' {
        fen_castle(s, i + 1, c.update(1, true))
    } else if s[i] == 'k' {
        fen_castle(s, i + 1, c.update(2, true))
    } else if s[i] == 'q' {
        fen_castle(s, i + 1, c.update(3, true))
    } else {
        fen_castle(s, i + 1, c)
    }
}

/// The halfmove-clock field: a run of decimal digits accumulated into the
/// clock, ended by a space; a non-digit or a value over 255 fails.
pub open spec fn fen_clock(s: Seq<char>, i: int, acc: int) -> Option<(int, int)>
    decreases s.len() - i,
{
    if i < 0 || i >= s.len() {
        None
    } else if s[i] == ' ' {
        Some((acc, i + 1))
    } else if fen_digit(s[i]) is Some {
        if acc * 10 + fen_digit(s[i])->Some_0 <= 255 {
            fen_clock(s, i + 1, acc * 10 + fen_digit(s[i])->Some_0)
        } else {
            None
        }
    } else {
        None
    }
}

/// The fullmove-number field: decimal digits to the end of the input; a
/// non-digit or a value over 65535 fails. An empty remainder leaves zero.
pub open spec fn fen_move_number(s: Seq<char>, i: int, acc: int) -> Option<int>
    decreases s.len() - i,
{
    if i < 0 {
        None
    } else if i >= s.len() {
        Some(acc)
    } else if fen_digit(s[i]) is Some {
        if acc * 10 + fen_digit(s[i])->Some_0 <= 65535 {
            fen_move_number(s, i + 1, acc * 10 + fen_digit(s[i])->Some_0)
        } else {
            None
        }
    } else {
        None
    }
}

/// The synthetic last move the en-passant target square reconstructs: a
/// target on rank index 4 reads as a White two-square advance that just
/// landed there, one on rank index 5 as a Black advance; any other rank
/// fails.
pub open spec fn fen_en_passant_move(c: Coordinate) -> Option<Move> {
    if c.y == 4 {
        Some(
            Move {
                from: Coordinate { x: c.x, y: 2 },
                to: Coordinate { x: c.x, y: 4 },
                special_move: Some(SpecialMove::EnPassant),
            },
        )
    } else if c.y == 5 {
        Some(
            Move {
                from: Coordinate { x: c.x, y: 7 },
                to: Coordinate { x: c.x, y: 5 },
                special_move: Some(SpecialMove::EnPassant),
            },
        )
    } else {
        None
    }
}

/// The two numeric trailing fields, assembled onto the parsed board.
pub open spec fn fen_tail(
    s: Seq<char>,
    i: int,
    squares: Seq<u8>,
    to_play: Color,
    last_move: Option<Move>,
    castling: Seq<bool>,
) -> Option<FenBoard> {
    match fen_clock(s, i, 0) {
        None => None,
        Some((clock, i2)) => match fen_move_number(s, i2, 0) {
            None => None,
            Some(number) => Some(
                FenBoard {
                    squares,
                    to_play,
                    last_move,
                    castling,
                    halfmove_clock: clock as u8,
                    move_number: number as u16,
                },
            ),
        },
    }
}

/// What decoding a whole position string yields: the six fields read
/// strictly left to right — placement, side to move ('b' selects Black,
/// anything else White, with the following separator skipped unexamined),
/// castling rights, en-passant target ('-' for none), halfmove clock, and
/// fullmove number.
pub open spec fn fen_parse(s: Seq<char>) -> Option<FenBoard> {
    match fen_place(s, 0, 0, 7, empty_squares()) {
        None => None,
        Some((squares, i1)) => {
            if i1 >= s.len() {
                None
            } else {
                let to_play = if s[i1] == 'b' {
                    Color::Black
                } else {
                    Color::White
                };
                match fen_castle(s, i1 + 2, seq![false, false, false, false]) {
                    None => None,
                    Some((castling, i2)) => {
                        if i2 >= s.len() {
                            None
                        } else if s[i2] != '-' {
                            if i2 + 1 >= s.len() {
                                None
                            } else {
                                match parse_coord(seq![s[i2], s[i2 + 1]]) {
                                    None => None,
                                    Some(c) => match fen_en_passant_move(c) {
                                        None => None,
                                        Some(lm) => fen_tail(
                                            s,
                                            i2 + 3,
                                            squares,
                                            to_play,
                                            Some(lm),
                                            castling,
                                        ),
                                    },
                                }
                            }
                        } else {
                            fen_tail(s, i2 + 2, squares, to_play, None, castling)
                        }
                    },
                }
            }
        },
    }
}

} // verus!
