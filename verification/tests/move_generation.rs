use chesskit::Chessboard;
use chesskit::Color;
use chesskit::Coordinate;
use chesskit::Move;
use chesskit::Piece;
use chesskit::PieceType;
use chesskit::pieces::bishop;
use chesskit::pieces::king;
use chesskit::pieces::knight;
use chesskit::pieces::pawn;
use chesskit::pieces::queen;
use chesskit::pieces::rook;

#[test]
fn rook_legal_moves() {
    let position = Coordinate::new(4, 4);
    let chessboard =
        Chessboard::from_fen("r1bqk2r/ppppbppp/2n5/4Rn2/8/5N2/PPPPBPPP/RNBQ2K1 w kq - 6 8")
            .expect("FEN is invalid");
    assert_eq!(
        Piece::new(Color::White, PieceType::Rook).get_legal_moves(Coordinate::new(4, 4), &chessboard),
        vec![
            Move::new(position.x, position.y, 3, 4, None),
            Move::new(position.x, position.y, 2, 4, None),
            Move::new(position.x, position.y, 1, 4, None),
            Move::new(position.x, position.y, 0, 4, None),
            Move::new(position.x, position.y, 5, 4, None),
            Move::new(position.x, position.y, 4, 5, None),
            Move::new(position.x, position.y, 4, 6, None),
            Move::new(position.x, position.y, 4, 3, None),
            Move::new(position.x, position.y, 4, 2, None),
        ]
    );
}

#[test]
fn knight_board_legal_moves() {
    let chessboard =
        Chessboard::from_fen("8/8/8/8/2n5/n7/3N4/1N6 b - - 0 1").expect("FEN is invalid");
    assert_eq!(chessboard.to_play, Color::Black);
    let moves = chessboard.get_legal_moves();
    let expected = vec![
        // the knight on a3, scanned first (lower rank)
        Move::new(0, 2, 1, 0, None),
        Move::new(0, 2, 2, 1, None),
        Move::new(0, 2, 1, 4, None),
        // the knight on c4
        Move::new(2, 3, 1, 1, None),
        Move::new(2, 3, 3, 1, None),
        Move::new(2, 3, 4, 2, None),
        Move::new(2, 3, 1, 5, None),
        Move::new(2, 3, 0, 4, None),
        Move::new(2, 3, 3, 5, None),
        Move::new(2, 3, 4, 4, None),
    ];
    assert_eq!(moves, expected);
}

#[test]
fn generator_and_legality_agree_on_every_move() {
    let chessboard =
        Chessboard::from_fen("8/8/8/8/2n5/n7/3N4/1N6 b - - 0 1").expect("FEN is invalid");
    let moves = chessboard.get_legal_moves();
    for start_y in 0..8u8 {
        for start_x in 0..8u8 {
            for end_y in 0..8u8 {
                for end_x in 0..8u8 {
                    let mv = Move::new(start_x, start_y, end_x, end_y, None);
                    assert_eq!(chessboard.is_legal_move(mv), Ok(moves.contains(&mv)));
                }
            }
        }
    }
}

#[test]
fn generator_and_legality_agree_on_mixed_board() {
    let chessboard =
        Chessboard::from_fen("r1bqk2r/ppppbppp/2n5/4Rn2/8/5N2/PPPPBPPP/RNBQ2K1 w kq - 6 8")
            .expect("FEN is invalid");
    let moves = chessboard.get_legal_moves();
    for start_y in 0..8u8 {
        for start_x in 0..8u8 {
            for end_y in 0..8u8 {
                for end_x in 0..8u8 {
                    let mv = Move::new(start_x, start_y, end_x, end_y, None);
                    assert_eq!(chessboard.is_legal_move(mv), Ok(moves.contains(&mv)));
                }
            }
        }
    }
}

#[test]
fn sliding_piece_stops_at_blockers() {
    let mut board = Chessboard::default();
    let rook = Piece::new(Color::White, PieceType::Rook);
    board.set(3, 3, Some(rook)).unwrap();

    let up = |to_y: u8| Move::new(3, 3, 3, to_y, None);
    let open_moves = rook.get_legal_moves(Coordinate::new(3, 3), &board);
    assert!(open_moves.contains(&up(4)));
    assert!(open_moves.contains(&up(5)));
    assert!(open_moves.contains(&up(6)));
    assert!(open_moves.contains(&up(7)));
    assert_eq!(open_moves.len(), 14);

    // an enemy blocker on d6 can be captured, but d7 and d8 are gone
    board.set(3, 5, Some(Piece::new(Color::Black, PieceType::Pawn))).unwrap();
    let blocked = rook.get_legal_moves(Coordinate::new(3, 3), &board);
    assert!(blocked.contains(&up(4)));
    assert!(blocked.contains(&up(5)));
    assert!(!blocked.contains(&up(6)));
    assert!(!blocked.contains(&up(7)));

    // an own-colored blocker removes its own square as well
    board.set(3, 5, Some(Piece::new(Color::White, PieceType::Pawn))).unwrap();
    let own_blocked = rook.get_legal_moves(Coordinate::new(3, 3), &board);
    assert!(own_blocked.contains(&up(4)));
    assert!(!own_blocked.contains(&up(5)));
    assert!(!own_blocked.contains(&up(6)));
    assert!(!own_blocked.contains(&up(7)));
}

#[test]
fn bishop_and_queen_geometry() {
    let mut board = Chessboard::default();
    let bishop_piece = Piece::new(Color::Black, PieceType::Bishop);
    board.set(0, 0, Some(bishop_piece)).unwrap();
    let bishop_moves = bishop_piece.get_legal_moves(Coordinate::new(0, 0), &board);
    assert_eq!(bishop_moves.len(), 7);
    assert!(bishop_moves.contains(&Move::new(0, 0, 7, 7, None)));
    assert!(!bishop_moves.contains(&Move::new(0, 0, 0, 1, None)));

    let queen_piece = Piece::new(Color::Black, PieceType::Queen);
    let queen_moves = queen_piece.get_legal_moves(Coordinate::new(0, 0), &board);
    assert_eq!(queen_moves.len(), 21);

    // the queen accepts both rook-like and bishop-like moves
    assert!(queen::is_legal_move(Move::new(0, 0, 0, 5, None), Color::Black, &board));
    assert!(queen::is_legal_move(Move::new(0, 0, 5, 5, None), Color::Black, &board));
    assert!(!queen::is_legal_move(Move::new(0, 0, 1, 2, None), Color::Black, &board));
    assert!(rook::is_legal_move(Move::new(0, 0, 0, 5, None), Color::Black, &board));
    assert!(!rook::is_legal_move(Move::new(0, 0, 5, 5, None), Color::Black, &board));
    assert!(bishop::is_legal_move(Move::new(0, 0, 5, 5, None), Color::Black, &board));
    assert!(!bishop::is_legal_move(Move::new(0, 0, 0, 5, None), Color::Black, &board));
}

#[test]
fn king_moves_one_step_and_never_castles() {
    let board = Chessboard::from_fen("8/8/8/8/8/8/8/R3K2R w KQ - 0 1").expect("FEN is invalid");
    let king_piece = Piece::new(Color::White, PieceType::King);
    let moves = king_piece.get_legal_moves(Coordinate::new(4, 0), &board);
    let expected = vec![
        Move::new(4, 0, 3, 0, None),
        Move::new(4, 0, 3, 1, None),
        Move::new(4, 0, 4, 1, None),
        Move::new(4, 0, 5, 0, None),
        Move::new(4, 0, 5, 1, None),
    ];
    assert_eq!(moves, expected);
    // the two-square castling steps are never accepted, rights or not
    assert!(!king::is_legal_move(Move::new(4, 0, 6, 0, None), Color::White, &board));
    assert!(!king::is_legal_move(Move::new(4, 0, 2, 0, None), Color::White, &board));
}

#[test]
fn knight_module_legality() {
    let board = Chessboard::from_fen("8/8/8/8/2n5/n7/3N4/1N6 b - - 0 1").expect("FEN is invalid");
    assert!(knight::is_legal_move(Move::new(2, 3, 3, 1, None), Color::Black, &board));
    assert!(!knight::is_legal_move(Move::new(2, 3, 0, 2, None), Color::Black, &board));
    assert!(!knight::is_legal_move(Move::new(2, 3, 2, 5, None), Color::Black, &board));
    assert!(!knight::is_legal_move(
        Move::new(2, 3, 3, 1, Some(chesskit::SpecialMove::Castling)),
        Color::Black,
        &board
    ));
}

#[test]
fn pawn_moves_forward_and_captures_diagonally() {
    // a White pawn on d4 with enemies on c5 and d5 and a friend on e5
    let board = Chessboard::from_fen("8/8/8/2pp4/3PP3/8/8/8 w - - 0 1").expect("FEN is invalid");
    let pawn_piece = Piece::new(Color::White, PieceType::Pawn);
    let moves = pawn_piece.get_legal_moves(Coordinate::new(3, 3), &board);
    // forward is blocked; only the enemy on c5 can be taken
    assert_eq!(moves, vec![Move::new(3, 3, 2, 4, None)]);

    // with the file open, the single forward step appears
    let open = Chessboard::from_fen("8/8/8/2p5/3PP3/8/8/8 w - - 0 1").expect("FEN is invalid");
    let open_moves = pawn_piece.get_legal_moves(Coordinate::new(3, 3), &open);
    assert_eq!(
        open_moves,
        vec![Move::new(3, 3, 3, 4, None), Move::new(3, 3, 2, 4, None)]
    );

    // a Black pawn advances down the board
    let black = Chessboard::from_fen("8/8/8/2pp4/3PP3/8/8/8 b - - 0 1").expect("FEN is invalid");
    let black_pawn = Piece::new(Color::Black, PieceType::Pawn);
    let black_moves = black_pawn.get_legal_moves(Coordinate::new(2, 4), &black);
    assert_eq!(
        black_moves,
        vec![Move::new(2, 4, 2, 3, None), Move::new(2, 4, 3, 3, None)]
    );

    // the generator's exact set is what the legality check accepts
    assert!(pawn::is_legal_move(Move::new(3, 3, 2, 4, None), Color::White, &board));
    assert!(!pawn::is_legal_move(Move::new(3, 3, 3, 4, None), Color::White, &board));
    assert!(!pawn::is_legal_move(Move::new(3, 3, 4, 4, None), Color::White, &board));
    assert!(!pawn::is_legal_move(Move::new(3, 3, 3, 5, None), Color::White, &board));
}

#[test]
fn append_legal_moves_extends_in_place() {
    let board = Chessboard::from_fen("8/8/8/8/2n5/n7/3N4/1N6 b - - 0 1").expect("FEN is invalid");
    let mut moves: Vec<Move> = Vec::new();
    let black_knight = Piece::new(Color::Black, PieceType::Knight);
    black_knight.append_legal_moves(Coordinate::new(0, 2), &board, &mut moves);
    let first = moves.len();
    assert_eq!(first, 3);
    black_knight.append_legal_moves(Coordinate::new(2, 3), &board, &mut moves);
    assert_eq!(moves.len(), first + 7);
}
