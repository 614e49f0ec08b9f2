//! A chess position library: packed board representation, position-notation
//! decoding, pseudo-legal move generation, and verified move application.

pub mod chessboard;
pub mod coords;
pub mod fen;
pub mod geometry;
pub mod pieces;

pub use chessboard::Chessboard;
pub use chessboard::OutsideOfChessboard;
pub use coords::Coordinate;
pub use coords::Move;
pub use coords::SpecialMove;
pub use pieces::Color;
pub use pieces::Piece;
pub use pieces::PieceType;
