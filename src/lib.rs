//! A chess rule engine: board state, legal move generation, check and mate
//! detection, and move application with captures, en passant, promotion and
//! castling, all stated against a mathematical model of the board.

pub mod board;
pub mod board_move;
pub mod board_piece;
pub mod board_position;
pub mod board_side_effects;
pub mod display;
pub mod game;
pub mod kinds;
pub mod laws;
pub mod movers;
pub mod pieces;
pub mod rules;

pub use board::CheckerBoard;
pub use board_move::BoardMove;
pub use board_piece::BoardPiece;
pub use board_position::{BoardPosition, BoardPositionError};
pub use board_side_effects::BoardSideEffects;
pub use display::{get_pos_iter, get_sprite_index};
pub use game::ChessGame;
pub use kinds::{Bishop, King, Knight, Pawn, Queen, Rook};
pub use movers::{DiagonalMover, HorizontalVerticalMovement};
pub use pieces::{ChessPiece, CloneBox, Piece, PieceColor, PieceFactory, PieceType};
