//! Squares and moves: the value types that the rest of the library speaks of.
//!
//! A square is a `Coordinate` with file `x` (0 = file 'a') and rank `y`
//! (0 = rank '1'); a `Move` is a pair of squares with an optional special tag.

use vstd::prelude::*;

verus! {

/// A square on the board: `x` is the file (0 = 'a'), `y` is the rank (0 = '1').
/// Both components must be at most 7 when used to index the board.
#[derive(Debug, PartialEq, Eq, Clone, Copy, Structural)]
pub struct Coordinate {
    pub x: u8,
    pub y: u8,
}

/// True when the square lies on the 8x8 board.
pub open spec fn coord_in_bounds(c: Coordinate) -> bool {
    c.x < 8 && c.y < 8
}

/// The two characters that denote a square: file letter 'a'..'h', then rank
/// digit '1'..'8'.
pub open spec fn coord_chars(c: Coordinate) -> Seq<char> {
    seq![(c.x + 97) as char, (c.y + 49) as char]
}

/// What parsing a square from text yields: exactly two characters, a file
/// letter 'a'..'h' and a rank digit '1'..'8'; anything else is rejected.
pub open spec fn parse_coord(s: Seq<char>) -> Option<Coordinate> {
    if s.len() == 2 && 97 <= s[0] as int <= 104 && 49 <= s[1] as int <= 56 {
        Some(Coordinate { x: (s[0] as int - 97) as u8, y: (s[1] as int - 49) as u8 })
    } else {
        None
    }
}

/// Relies on String::push: appends the given character to the end of the string.
#[verifier::external_body]
fn push_char(s: &mut String, c: char)
    ensures
        final(s)@ == old(s)@.push(c),
{
    s.push(c);
}

impl Coordinate {
    pub fn new(x: u8, y: u8) -> (r: Self)
        ensures
            r == (Coordinate { x, y }),
    {
        Self { x, y }
    }

    /// Parses a square from its two-character name; any malformed input,
    /// including a wrong length, yields `None`.
    pub fn from_string(string: &str) -> (r: Option<Self>)
        ensures
            r == parse_coord(string@),
    {
        if string.unicode_len() != 2 {
            return None;
        }
        let c0 = string.get_char(0) as u32;
        let c1 = string.get_char(1) as u32;
        if 97 <= c0 && c0 <= 104 && 49 <= c1 && c1 <= 56 {
            Some(Self { x: (c0 - 97) as u8, y: (c1 - 49) as u8 })
        } else {
            None
        }
    }

    /// Formats the square as its two-character name; the caller keeps both
    /// components in range.
    pub fn to_string(&self) -> (r: String)
        requires
            self.x < 8,
            self.y < 8,
        ensures
            r@ == coord_chars(*self),
    {
        let mut s = String::new();
        push_char(&mut s, (self.x + 97) as char);
        push_char(&mut s, (self.y + 49) as char);
        assert(s@ =~= coord_chars(*self));
        s
    }
}

/// Round trip: formatting any in-range square and parsing the result back
/// yields the same square.
pub proof fn lemma_coordinate_round_trip(c: Coordinate)
    requires
        c.x < 8,
        c.y < 8,
    ensures
        parse_coord(coord_chars(c)) == Some(c),
{
}

/// Moves that are too different from the others; they need special treatment.
#[derive(Debug, PartialEq, Eq, Clone, Copy, Structural)]
pub enum SpecialMove {
    EnPassant,
    Castling,
    TwoSquareAdvance,
    Promotion(crate::pieces::PieceType),
}

/// A move from one square to another, with at most one special tag.
/// Equality is structural; the tag is not part of the textual form.
#[derive(Debug, PartialEq, Eq, Clone, Copy, Structural)]
pub struct Move {
    pub from: Coordinate,
    pub to: Coordinate,
    pub special_move: Option<SpecialMove>,
}

/// What parsing a move from text yields: exactly four characters, split into
/// two square names; the tag is supplied by the caller, not parsed.
pub open spec fn parse_move(s: Seq<char>, special_move: Option<SpecialMove>) -> Option<Move> {
    if s.len() == 4 {
        match (parse_coord(s.subrange(0, 2)), parse_coord(s.subrange(2, 4))) {
            (Some(from), Some(to)) => Some(Move { from, to, special_move }),
            _ => None,
        }
    } else {
        None
    }
}

impl Move {
    pub fn new(from_x: u8, from_y: u8, to_x: u8, to_y: u8, special_move: Option<SpecialMove>) -> (r:
        Self)
        ensures
            r == (Move {
                from: Coordinate { x: from_x, y: from_y },
                to: Coordinate { x: to_x, y: to_y },
                special_move,
            }),
    {
        Self { from: Coordinate::new(from_x, from_y), to: Coordinate::new(to_x, to_y), special_move }
    }

    pub fn from_coordinates(from: Coordinate, to: Coordinate, special_move: Option<SpecialMove>) -> (r:
        Self)
        ensures
            r == (Move { from, to, special_move }),
    {
        Self { from, to, special_move }
    }

    /// The four-character concatenation of the two square names; the special
    /// tag is not serialized.
    pub fn to_string(&self) -> (r: String)
        requires
            coord_in_bounds(self.from),
            coord_in_bounds(self.to),
        ensures
            r@ == coord_chars(self.from) + coord_chars(self.to),
    {
        let mut s = self.from.to_string();
        let t = self.to.to_string();
        s.append(t.as_str());
        s
    }

    /// Parses a move from its four-character text; the caller supplies the
    /// special tag. Any malformed input, including a wrong length, yields
    /// `None`.
    pub fn from_string(string: &str, special_move: Option<SpecialMove>) -> (r: Option<Self>)
        ensures
            r == parse_move(string@, special_move),
    {
        if string.unicode_len() != 4 {
            return None;
        }
        let c0 = string.get_char(0) as u32;
        let c1 = string.get_char(1) as u32;
        let c2 = string.get_char(2) as u32;
        let c3 = string.get_char(3) as u32;
        proof {
            assert(string@.subrange(0, 2) =~= seq![string@[0], string@[1]]);
            assert(string@.subrange(2, 4) =~= seq![string@[2], string@[3]]);
        }
        if 97 <= c0 && c0 <= 104 && 49 <= c1 && c1 <= 56 && 97 <= c2 && c2 <= 104 && 49 <= c3
            && c3 <= 56 {
            Some(Self {
                from: Coordinate { x: (c0 - 97) as u8, y: (c1 - 49) as u8 },
                to: Coordinate { x: (c2 - 97) as u8, y: (c3 - 49) as u8 },
                special_move,
            })
        } else {
            None
        }
    }
}

/// Round trip: formatting a move with in-range squares and parsing the result
/// back yields the same squares, with whatever tag the parse is handed.
pub proof fn lemma_move_round_trip(m: Move, special_move: Option<SpecialMove>)
    requires
        coord_in_bounds(m.from),
        coord_in_bounds(m.to),
    ensures
        parse_move(coord_chars(m.from) + coord_chars(m.to), special_move) == Some(
            Move { from: m.from, to: m.to, special_move },
        ),
{
    let s = coord_chars(m.from) + coord_chars(m.to);
    assert(s.subrange(0, 2) =~= coord_chars(m.from));
    assert(s.subrange(2, 4) =~= coord_chars(m.to));
}

} // verus!
