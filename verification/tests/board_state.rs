use chesskit::Chessboard;
use chesskit::Color;
use chesskit::Coordinate;
use chesskit::Move;
use chesskit::OutsideOfChessboard;
use chesskit::Piece;
use chesskit::PieceType;

/// Every square holds either no occupancy bit at all (and the empty code),
/// or exactly one, matching the stored code.
fn assert_occupancy_consistent(board: &Chessboard) {
    for y in 0..8u8 {
        for x in 0..8u8 {
            let code = board.get_code(x, y);
            assert!(code <= 12, "square ({x}, {y}) holds code {code}");
            let bit = 1u64 << (x + 8 * y);
            let mut set_for: Vec<u8> = Vec::new();
            for piece_code in 0..12u8 {
                if board.piece_bitboards[piece_code as usize] & bit != 0 {
                    set_for.push(piece_code);
                }
            }
            if code == 12 {
                assert!(set_for.is_empty(), "empty square ({x}, {y}) has bits {set_for:?}");
            } else {
                assert_eq!(set_for, vec![code], "square ({x}, {y}) stores {code}");
            }
        }
    }
}

#[test]
fn set_and_get_round_trip() {
    let mut board = Chessboard::default();
    let knight = Piece::new(Color::Black, PieceType::Knight);
    assert_eq!(board.get(2, 3), Ok(None));
    assert_eq!(board.set(2, 3, Some(knight)), Ok(()));
    assert_eq!(board.get(2, 3), Ok(Some(knight)));
    assert_eq!(board.get_code(2, 3), 8);
    assert_eq!(board.set(2, 3, None), Ok(()));
    assert_eq!(board.get(2, 3), Ok(None));
}

#[test]
fn out_of_bounds_accessors_fail() {
    let mut board = Chessboard::default();
    assert_eq!(board.get(8, 0), Err(OutsideOfChessboard));
    assert_eq!(board.get(0, 8), Err(OutsideOfChessboard));
    assert_eq!(board.set(8, 0, None), Err(OutsideOfChessboard));
    assert_eq!(board.set(0, 255, None), Err(OutsideOfChessboard));
    let mv = Move::new(8, 0, 0, 0, None);
    assert_eq!(board.is_legal_move(mv), Err(OutsideOfChessboard));
}

#[test]
fn occupancy_stays_consistent_under_sets() {
    let mut board = Chessboard::default();
    assert_occupancy_consistent(&board);
    let steps: [(u8, u8, Option<(Color, PieceType)>); 8] = [
        (0, 0, Some((Color::White, PieceType::Rook))),
        (0, 0, Some((Color::Black, PieceType::Queen))),
        (7, 7, Some((Color::Black, PieceType::King))),
        (0, 0, None),
        (3, 4, Some((Color::White, PieceType::Pawn))),
        (3, 4, Some((Color::White, PieceType::Pawn))),
        (7, 7, None),
        (5, 2, Some((Color::Black, PieceType::Bishop))),
    ];
    for (x, y, piece) in steps {
        let piece = piece.map(|(color, kind)| Piece::new(color, kind));
        assert_eq!(board.set(x, y, piece), Ok(()));
        assert_occupancy_consistent(&board);
    }
}

#[test]
fn from_fen_reads_all_fields() {
    let board = Chessboard::from_fen("r1bqk2r/ppppbppp/2n5/4Rn2/8/5N2/PPPPBPPP/RNBQ2K1 w kq - 6 8")
        .expect("FEN is invalid");
    assert_eq!(board.to_play, Color::White);
    assert_eq!(board.castling, [false, false, true, true]);
    assert_eq!(board.last_move, None);
    assert_eq!(board.move_number, 8);
    assert!(board.previous_states.is_empty());
    assert_eq!(board.get(4, 4), Ok(Some(Piece::new(Color::White, PieceType::Rook))));
    assert_eq!(board.get(4, 6), Ok(Some(Piece::new(Color::Black, PieceType::Bishop))));
    assert_eq!(board.get(0, 7), Ok(Some(Piece::new(Color::Black, PieceType::Rook))));
    assert_eq!(board.get(6, 0), Ok(Some(Piece::new(Color::White, PieceType::King))));
    assert_eq!(board.get(4, 3), Ok(None));
    assert_occupancy_consistent(&board);
}

#[test]
fn from_fen_en_passant_field() {
    let board = Chessboard::from_fen("8/8/8/8/8/8/8/8 b - e6 4 11").expect("FEN is invalid");
    assert_eq!(board.to_play, Color::Black);
    assert_eq!(
        board.last_move,
        Some(Move::new(4, 7, 4, 5, Some(chesskit::SpecialMove::EnPassant)))
    );
    assert_eq!(board.move_number, 11);

    let white_advance = Chessboard::from_fen("8/8/8/8/8/8/8/8 w - c5 0 1").expect("FEN is invalid");
    assert_eq!(
        white_advance.last_move,
        Some(Move::new(2, 2, 2, 4, Some(chesskit::SpecialMove::EnPassant)))
    );

    // any other target rank is a parse failure
    assert!(Chessboard::from_fen("8/8/8/8/8/8/8/8 w - e3 0 1").is_none());
    assert!(Chessboard::from_fen("8/8/8/8/8/8/8/8 w - e7 0 1").is_none());
}

#[test]
fn from_fen_rejects_malformed() {
    assert!(Chessboard::from_fen("").is_none());
    assert!(Chessboard::from_fen("8/8/8/8/8/8/8/8").is_none());
    assert!(Chessboard::from_fen("8/8/8/8/8/8/8/8 w - -").is_none());
    assert!(Chessboard::from_fen("8/8/8/8/8/8/8/8 w - - x 1").is_none());
    assert!(Chessboard::from_fen("8/8/8/8/8/8/8/8 w - - 0 x").is_none());
    assert!(Chessboard::from_fen("8/8/8/8/8/8/8/8 w - - 999 1").is_none());
    assert!(Chessboard::from_fen("8/8/8/8/8/8/8/8/8 w - - 0 1").is_none());
    assert!(Chessboard::from_fen("9/8/8/8/8/8/8/8 w - - 0 1").is_none());
    assert!(Chessboard::from_fen("ppppppppp/8/8/8/8/8/8/8 w - - 0 1").is_none());
    assert!(Chessboard::from_fen("8/8/8/8/8/8/8/8 w - e 0 1").is_none());
}

#[test]
fn make_move_moves_and_captures() {
    let mut board =
        Chessboard::from_fen("8/8/8/8/2n5/n7/3N4/1N6 b - - 0 1").expect("FEN is invalid");
    let black_knight = Piece::new(Color::Black, PieceType::Knight);
    let white_knight = Piece::new(Color::White, PieceType::Knight);

    // a quiet move returns no capture and flips the turn
    let (moved, captured) = board.make_move(Move::new(0, 2, 2, 1, None));
    assert_eq!(moved, black_knight);
    assert_eq!(captured, None);
    assert_eq!(board.to_play, Color::White);
    assert_eq!(board.get(0, 2), Ok(None));
    assert_eq!(board.get(2, 1), Ok(Some(black_knight)));
    assert_occupancy_consistent(&board);

    // a capture returns the captured piece
    let (moved, captured) = board.make_move(Move::new(3, 1, 2, 3, None));
    assert_eq!(moved, white_knight);
    assert_eq!(captured, Some(black_knight));
    assert_eq!(board.to_play, Color::Black);
    assert_eq!(board.get(3, 1), Ok(None));
    assert_eq!(board.get(2, 3), Ok(Some(white_knight)));
    assert_occupancy_consistent(&board);
}

#[test]
fn history_grows_on_reversible_and_clears_on_pawn_moves() {
    let mut board =
        Chessboard::from_fen("8/8/8/8/2n5/n7/3NP3/1N6 b - - 0 1").expect("FEN is invalid");
    assert!(board.previous_states.is_empty());

    // knight moves are reversible: one entry each
    board.make_move(Move::new(0, 2, 2, 1, None));
    assert_eq!(board.previous_states.len(), 1);
    board.make_move(Move::new(3, 1, 2, 3, None));
    assert_eq!(board.previous_states.len(), 2);
    let entry = board.previous_states[1];
    assert_eq!(entry.1, board.to_play);

    // a pawn move is irreversible: the history clears
    board.make_move(Move::new(2, 1, 4, 0, None));
    assert_eq!(board.previous_states.len(), 3);
    board.make_move(Move::new(4, 1, 4, 2, None));
    assert!(board.previous_states.is_empty());
}

#[test]
fn castling_rights_decay_and_never_return() {
    let mut board =
        Chessboard::from_fen("r3k2r/8/8/8/8/8/8/R3K2R w KQkq - 0 1").expect("FEN is invalid");
    assert_eq!(board.castling, [true, true, true, true]);

    // the king-side rook leaving h1 revokes exactly White's king-side right
    board.make_move(Move::new(7, 0, 7, 3, None));
    assert_eq!(board.castling, [false, true, true, true]);
    assert!(board.previous_states.is_empty());

    // Black's king moving revokes both Black rights
    board.make_move(Move::new(4, 7, 4, 6, None));
    assert_eq!(board.castling, [false, true, false, false]);

    // moving the rook back does not restore the right
    board.make_move(Move::new(7, 3, 7, 0, None));
    assert_eq!(board.castling, [false, true, false, false]);

    // a rook returning to h8 grants nothing either
    board.make_move(Move::new(7, 7, 7, 5, None));
    board.make_move(Move::new(0, 0, 0, 3, None));
    board.make_move(Move::new(7, 5, 7, 7, None));
    assert_eq!(board.castling, [false, false, false, false]);
}

#[test]
fn reversible_rook_moves_keep_history() {
    // with no rights held, a rook move is reversible
    let mut board = Chessboard::from_fen("8/8/8/8/8/8/8/R7 w - - 0 1").expect("FEN is invalid");
    board.make_move(Move::new(0, 0, 0, 4, None));
    assert_eq!(board.previous_states.len(), 1);
    assert_eq!(board.castling, [false, false, false, false]);
}
