use chess_engine::{
    Bishop, BoardMove, BoardPiece, BoardPosition, CheckerBoard, ChessGame, King, Knight, Pawn,
    Piece, PieceColor, PieceFactory, PieceType, Queen, Rook,
};
use std::str::FromStr;

fn square(s: &str) -> BoardPosition {
    BoardPosition::from_str(s).unwrap()
}

fn put_king_in_empty_board(pos: &str) -> Vec<BoardPosition> {
    let king = BoardPiece::build(PieceType::King, PieceColor::White, pos);
    let pieces = vec![king];
    let board = CheckerBoard::with_pieces(pieces);
    board.get_possible_moves(&square(pos))
}

#[test]
fn king_can_be_white() {
    let king = King::new(PieceColor::White);
    assert_eq!(king.color(), PieceColor::White);
}

#[test]
fn king_can_be_black() {
    let king = King::new(PieceColor::Black);
    assert_eq!(king.color(), PieceColor::Black);
}

#[test]
fn is_of_type_king() {
    let king = King::new(PieceColor::Black);
    assert_eq!(king.piece_type(), PieceType::King);
}

#[test]
fn white_is_black_opponent() {
    let king = King::new(PieceColor::Black);
    assert!(king.is_opponent(&PieceColor::White));
}

#[test]
fn king_black_is_white_opponent() {
    let king = King::new(PieceColor::White);
    assert!(king.is_opponent(&PieceColor::Black));
}

#[test]
fn can_move_up() {
    let moves = put_king_in_empty_board("d4");
    assert!(moves.contains(&square("d5")));
}

#[test]
fn can_move_down() {
    let moves = put_king_in_empty_board("d4");
    assert!(moves.contains(&square("d3")));
}

#[test]
fn can_move_left() {
    let moves = put_king_in_empty_board("d4");
    assert!(moves.contains(&square("c4")));
}

#[test]
fn can_move_right() {
    let moves = put_king_in_empty_board("d4");
    assert!(moves.contains(&square("e4")));
}

#[test]
fn can_move_upward_left() {
    let moves = put_king_in_empty_board("d4");
    assert!(moves.contains(&square("c5")));
}

#[test]
fn can_move_upward_right() {
    let moves = put_king_in_empty_board("d4");
    assert!(moves.contains(&square("e5")));
}

#[test]
fn can_move_downward_left() {
    let moves = put_king_in_empty_board("d4");
    assert!(moves.contains(&square("c3")));
}

#[test]
fn can_move_downward_right() {
    let moves = put_king_in_empty_board("d4");
    assert!(moves.contains(&square("e3")));
}

#[test]
fn cant_move_off_edge() {
    let edges = vec!["a4", "d1", "h4", "d8"];
    for edge in edges {
        let moves = put_king_in_empty_board(edge);
        assert_eq!(moves.len(), 5);
    }
}

#[test]
fn cant_move_off_corner() {
    let edges = vec!["a1", "a8", "h1", "h8"];
    for edge in edges {
        let moves = put_king_in_empty_board(edge);
        assert_eq!(moves.len(), 3);
    }
}

#[test]
fn cant_take_same_color() {
    let kd4 = BoardPiece::build(PieceType::King, PieceColor::White, "d4");
    let d5 = BoardPiece::build(PieceType::Pawn, PieceColor::White, "d5");
    let pieces = vec![kd4, d5];
    let board = CheckerBoard::with_pieces(pieces);
    let moves = board.get_possible_moves(&square("d4"));
    assert!(!moves.contains(&square("d5")));
}

#[test]
fn can_take_other_color() {
    let kd4 = BoardPiece::build(PieceType::King, PieceColor::White, "d4");
    let d5 = BoardPiece::build(PieceType::Pawn, PieceColor::Black, "d5");
    let pieces = vec![kd4, d5];
    let board = CheckerBoard::with_pieces(pieces);
    let moves = board.get_possible_moves(&square("d4"));
    assert!(moves.contains(&square("d5")));
}

#[test]
fn king_cant_move_into_check() {
    let kd4 = BoardPiece::build(PieceType::King, PieceColor::White, "d4");
    let d5 = BoardPiece::build(PieceType::Pawn, PieceColor::Black, "d5");
    let pieces = vec![kd4, d5];
    let board = CheckerBoard::with_pieces(pieces);
    let moves = board.get_possible_moves(&square("d4"));
    assert!(!moves.contains(&square("c4")));
    assert!(!moves.contains(&square("e4")));
}

#[test]
fn king_takes_is_empty_when_no_takes_in_move() {
    let ke2 = BoardPiece::build(PieceType::King, PieceColor::White, "e2");
    let mut board = CheckerBoard::with_pieces(vec![ke2]);
    let side_effects = board.move_piece(&square("e2"), &square("d3"));
    assert!(side_effects.takes.is_empty());
}

#[test]
fn king_takes_has_pos_taken() {
    let ke2 = BoardPiece::build(PieceType::King, PieceColor::White, "e2");
    let d3 = BoardPiece::build(PieceType::Pawn, PieceColor::Black, "d3");
    let mut board = CheckerBoard::with_pieces(vec![ke2, d3]);
    let side_effects = board.move_piece(&square("e2"), &square("d3"));
    assert!(side_effects.takes.contains(&square("d3")));
}

#[test]
fn cant_castle_if_there_is_no_rook_in_a_or_h() {
    let ke1 = BoardPiece::build(PieceType::King, PieceColor::White, "e1");
    let board = CheckerBoard::with_pieces(vec![ke1]);
    let moves = board.get_possible_moves(&square("e1"));
    assert!(!moves.contains(&square("c1")));
    assert!(!moves.contains(&square("g1")));
}

#[test]
fn can_castle_if_there_is_rook_of_same_color_in_a_or_h() {
    let ke1 = BoardPiece::build(PieceType::King, PieceColor::White, "e1");
    let ra1 = BoardPiece::build(PieceType::Rook, PieceColor::White, "a1");
    let rh1 = BoardPiece::build(PieceType::Rook, PieceColor::White, "h1");
    let board = CheckerBoard::with_pieces(vec![ke1, ra1, rh1]);
    let moves = board.get_possible_moves(&square("e1"));
    assert!(moves.contains(&square("c1")));
    assert!(moves.contains(&square("g1")));
}

#[test]
fn cant_castle_if_king_is_checked() {
    let ke1 = BoardPiece::build(PieceType::King, PieceColor::White, "e1");
    let ra1 = BoardPiece::build(PieceType::Rook, PieceColor::White, "a1");
    let rh1 = BoardPiece::build(PieceType::Rook, PieceColor::White, "h1");
    let re2 = BoardPiece::build(PieceType::Rook, PieceColor::Black, "e2");
    let board = CheckerBoard::with_pieces(vec![ke1, ra1, rh1, re2]);
    let moves = board.get_possible_moves(&square("e1"));
    assert!(!moves.contains(&square("c1")));
    assert!(!moves.contains(&square("g1")));
}
