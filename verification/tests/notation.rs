use chesskit::Color;
use chesskit::Coordinate;
use chesskit::Move;
use chesskit::Piece;
use chesskit::PieceType;

#[test]
fn coordinate_to_string() {
    assert_eq!(Coordinate::new(3, 5).to_string(), "d6");
    assert_eq!(Coordinate::new(0, 0).to_string(), "a1");
    assert_eq!(Coordinate::new(7, 7).to_string(), "h8");
}

#[test]
fn coordinate_from_string() {
    assert_eq!(Coordinate::from_string("d6"), Some(Coordinate::new(3, 5)));
    assert_eq!(Coordinate::from_string("a1"), Some(Coordinate::new(0, 0)));
    assert_eq!(Coordinate::from_string("h8"), Some(Coordinate::new(7, 7)));
}

#[test]
fn coordinate_from_string_rejects_malformed() {
    assert_eq!(Coordinate::from_string(""), None);
    assert_eq!(Coordinate::from_string("d"), None);
    assert_eq!(Coordinate::from_string("d6x"), None);
    assert_eq!(Coordinate::from_string("i1"), None);
    assert_eq!(Coordinate::from_string("a9"), None);
    assert_eq!(Coordinate::from_string("a0"), None);
    assert_eq!(Coordinate::from_string("6d"), None);
}

#[test]
fn coordinate_round_trip_all_squares() {
    for x in 0..8u8 {
        for y in 0..8u8 {
            let c = Coordinate::new(x, y);
            assert_eq!(Coordinate::from_string(&c.to_string()), Some(c));
        }
    }
}

#[test]
fn move_from_string_basic() {
    let mv = Move::from_string("e2e4", None).expect("move should parse");
    assert_eq!(mv, Move::new(4, 1, 4, 3, None));
    assert_eq!(mv.to_string(), "e2e4");
}

#[test]
fn move_from_string_rejects_malformed() {
    assert_eq!(Move::from_string("", None), None);
    assert_eq!(Move::from_string("e2e", None), None);
    assert_eq!(Move::from_string("e2e44", None), None);
    assert_eq!(Move::from_string("e2x4", None), None);
}

#[test]
fn move_from_coordinates_keeps_fields() {
    let from = Coordinate::new(1, 2);
    let to = Coordinate::new(3, 4);
    let mv = Move::from_coordinates(from, to, None);
    assert_eq!(mv.from, from);
    assert_eq!(mv.to, to);
    assert_eq!(mv.special_move, None);
    assert_eq!(mv.to_string(), "b3d5");
}

#[test]
fn color_from_char_and_opposite() {
    assert_eq!(Color::from_char('K'), Color::White);
    assert_eq!(Color::from_char('k'), Color::Black);
    assert_eq!(Color::from_char('5'), Color::Black);
    assert_eq!(Color::White.opposite(), Color::Black);
    assert_eq!(Color::Black.opposite(), Color::White);
    assert_eq!(Color::from_code(0), Color::White);
    assert_eq!(Color::from_code(5), Color::White);
    assert_eq!(Color::from_code(6), Color::Black);
    assert_eq!(Color::from_code(11), Color::Black);
}

#[test]
fn piece_type_chars_and_codes() {
    assert_eq!(PieceType::from_char('n'), Some(PieceType::Knight));
    assert_eq!(PieceType::from_char('N'), Some(PieceType::Knight));
    assert_eq!(PieceType::from_char('x'), None);
    assert_eq!(PieceType::Queen.to_char(), 'q');
    assert_eq!(PieceType::Pawn.to_code(), 0);
    assert_eq!(PieceType::King.to_code(), 5);
    assert_eq!(PieceType::from_code(3), PieceType::Bishop);
    assert_eq!(PieceType::from_code(9), PieceType::Bishop);
}

#[test]
fn piece_characters_and_codes_round_trip() {
    let white_rook = Piece::new(Color::White, PieceType::Rook);
    assert_eq!(Piece::from_character('R'), Some(white_rook));
    assert_eq!(white_rook.to_character(), 'R');
    assert_eq!(white_rook.to_code(), 1);
    assert_eq!(Piece::from_code(1), Some(white_rook));

    let black_queen = Piece::new(Color::Black, PieceType::Queen);
    assert_eq!(Piece::from_character('q'), Some(black_queen));
    assert_eq!(black_queen.to_character(), 'q');
    assert_eq!(black_queen.to_code(), 10);
    assert_eq!(Piece::from_code(10), Some(black_queen));

    assert_eq!(Piece::from_character('#'), None);
    assert_eq!(Piece::from_code(12), None);
    assert_eq!(Piece::from_code(200), None);
}
