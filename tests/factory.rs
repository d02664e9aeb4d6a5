use chess_engine::{
    Bishop, BoardMove, BoardPiece, BoardPosition, CheckerBoard, ChessGame, King, Knight, Pawn,
    Piece, PieceColor, PieceFactory, PieceType, Queen, Rook,
};
use std::str::FromStr;

fn square(s: &str) -> BoardPosition {
    BoardPosition::from_str(s).unwrap()
}

#[test]
fn can_build_pawn_from_type() {
    let pawn = PieceFactory::build(PieceType::Pawn, PieceColor::White);
    assert_eq!(pawn.piece_type(), PieceType::Pawn);
    assert_eq!(pawn.color(), PieceColor::White);
}

#[test]
fn can_build_knight_from_type() {
    let piece = PieceFactory::build(PieceType::Knight, PieceColor::Black);
    assert_eq!(piece.piece_type(), PieceType::Knight);
    assert_eq!(piece.color(), PieceColor::Black);
}

#[test]
fn can_build_king_from_type() {
    let piece = PieceFactory::build(PieceType::King, PieceColor::White);
    assert_eq!(piece.piece_type(), PieceType::King);
    assert_eq!(piece.color(), PieceColor::White);
}

#[test]
fn can_build_rook_from_type() {
    let pawn = PieceFactory::build(PieceType::Rook, PieceColor::Black);
    assert_eq!(pawn.piece_type(), PieceType::Rook);
    assert_eq!(pawn.color(), PieceColor::Black);
}

#[test]
fn can_build_bishop_from_type() {
    let pawn = PieceFactory::build(PieceType::Bishop, PieceColor::White);
    assert_eq!(pawn.piece_type(), PieceType::Bishop);
    assert_eq!(pawn.color(), PieceColor::White);
}
