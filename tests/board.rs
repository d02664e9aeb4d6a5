use chess_engine::{
    Bishop, BoardMove, BoardPiece, BoardPosition, CheckerBoard, ChessGame, King, Knight, Pawn,
    Piece, PieceColor, PieceFactory, PieceType, Queen, Rook,
};
use std::str::FromStr;

fn square(s: &str) -> BoardPosition {
    BoardPosition::from_str(s).unwrap()
}

fn assert_all_pos_have_pieces(
    board: CheckerBoard,
    rook_positions: impl Iterator<Item = BoardPosition>,
    piece_type: &PieceType,
    color: &PieceColor,
) {
    for pos in rook_positions {
        let piece = board.piece_at(&pos).unwrap();
        assert_eq!(piece.color(), *color);
        assert_eq!(piece.piece_type(), *piece_type);
    }
}

#[test]
fn new_board_is_empty() {
    let board = CheckerBoard::new();
    assert_eq!(board.is_empty(), true);
}

#[test]
fn it_can_spawn_pieces() {
    let mut board = CheckerBoard::new();
    let position = BoardPosition::new(0, 0);
    board.spawn(&position, PieceType::Pawn, PieceColor::Black);
    let piece = board.piece_at(&position).unwrap();
    assert_eq!(piece.color(), PieceColor::Black);
    assert_eq!(piece.piece_type(), PieceType::Pawn);
    assert_eq!(board.is_empty(), false);
}

#[test]
fn it_can_despawn_pieces() {
    let mut board = CheckerBoard::new();
    let position = BoardPosition::new(0, 0);
    board.spawn(&position, PieceType::Pawn, PieceColor::Black);
    board.despawn(&position);
    let piece = board.piece_at(&position);
    assert!(piece.is_none());
    assert_eq!(board.is_empty(), true);
}

#[test]
fn it_can_force_move_pieces() {
    let mut board = CheckerBoard::new();
    let position = BoardPosition::new(0, 0);
    board.spawn(&position, PieceType::Pawn, PieceColor::White);
    let new_position = BoardPosition::new(1, 1);
    board.force_move_piece(&position, &new_position);
    let piece_at_old_pos = board.piece_at(&position);
    assert!(piece_at_old_pos.is_none());
    let piece_at_new_pos = board.piece_at(&new_position).unwrap();
    assert_eq!(piece_at_new_pos.piece_type(), PieceType::Pawn);
    assert_eq!(piece_at_new_pos.color(), PieceColor::White);
}

#[test]
fn it_can_create_board_with_pieces() {
    let b2 = BoardPiece::build(PieceType::Pawn, PieceColor::Black, "b2");
    let pieces = vec![b2];
    let board = CheckerBoard::with_pieces(pieces);
    assert!(!board.is_empty());
    let piece = board.piece_at(&"b2".parse().unwrap()).unwrap();
    assert_eq!(piece.color(), PieceColor::Black);
    assert_eq!(piece.piece_type(), PieceType::Pawn);
}

#[test]
fn it_can_get_moves_from_pos() {
    let b2 = BoardPiece::build(PieceType::Pawn, PieceColor::White, "b2");
    let pieces = vec![b2];
    let board = CheckerBoard::with_pieces(pieces);
    let moves = board.get_possible_moves(&square("b2"));
    assert_eq!(moves.len(), 2);
}

#[test]
fn it_can_get_last_move() {
    let b2 = BoardPiece::build(PieceType::Pawn, PieceColor::White, "b2");
    let pieces = vec![b2];
    let mut board = CheckerBoard::with_pieces(pieces);
    board.move_piece(&square("b2"), &square("b3"));
    let last_move = board.get_last_move().unwrap();
    assert_eq!(last_move.from(), square("b2"));
    assert_eq!(last_move.to(), square("b3"));
}

#[test]
fn non_eight_row_is_not_last_row_for_white() {
    let board = CheckerBoard::new();
    for row in 0..7 {
        let pos = BoardPosition::new(0, row);
        assert!(!board.is_last_row_for_white(&pos));
    }
}

#[test]
fn eight_row_is_last_row_for_white() {
    let board = CheckerBoard::new();
    assert!(board.is_last_row_for_white(&square("a8")));
}

#[test]
fn non_first_row_is_not_last_row_for_black() {
    let board = CheckerBoard::new();
    for row in 1..=7 {
        let pos = BoardPosition::new(0, row);
        assert!(!board.is_last_row_for_black(&pos));
    }
}

#[test]
fn first_row_is_last_row_for_black() {
    let board = CheckerBoard::new();
    assert!(board.is_last_row_for_black(&square("a1")));
}

#[test]
fn non_first_column_is_not_far_left_side() {
    let board = CheckerBoard::new();
    for column in 1..=7 {
        let pos = BoardPosition::new(column, 0);
        assert!(!board.is_far_left_side(&pos));
    }
}

#[test]
fn first_column_is_far_left_side() {
    let board = CheckerBoard::new();
    assert!(board.is_far_left_side(&square("a1")));
}

#[test]
fn non_eight_column_is_not_far_right_side() {
    let board = CheckerBoard::new();
    for column in 0..7 {
        let pos = BoardPosition::new(column, 0);
        assert!(!board.is_far_right_side(&pos));
    }
}

#[test]
fn eight_column_is_far_right_side() {
    let board = CheckerBoard::new();
    assert!(board.is_far_right_side(&square("h1")));
}

#[test]
fn board_has_eight_width() {
    let board = CheckerBoard::new();
    assert_eq!(board.width(), 8);
}

#[test]
fn board_has_eight_length() {
    let board = CheckerBoard::new();
    assert_eq!(board.length(), 8);
}

#[test]
fn out_of_left_edge_is_not_valid() {
    let board = CheckerBoard::new();
    assert!(!board.is_pos_valid(&(-1, 0)));
}

#[test]
fn out_of_right_edge_is_not_valid() {
    let board = CheckerBoard::new();
    assert!(!board.is_pos_valid(&(8, 0)));
}

#[test]
fn out_of_bottom_edge_is_not_valid() {
    let board = CheckerBoard::new();
    assert!(!board.is_pos_valid(&(0, -1)));
}

#[test]
fn out_of_top_edge_is_not_valid() {
    let board = CheckerBoard::new();
    assert!(!board.is_pos_valid(&(0, 8)));
}

#[test]
fn pos_is_not_occupied_with_color_when_space_is_empty() {
    let board = CheckerBoard::new();
    assert!(board.pos_is_occupied_with_color(&square("a4"), &PieceColor::White));
}

#[test]
fn pos_is_not_occupied_with_color_when_opponent_occupies_space() {
    let pieces = vec![BoardPiece::build(PieceType::Pawn, PieceColor::Black, "a4")];
    let board = CheckerBoard::with_pieces(pieces);
    assert!(board.pos_is_occupied_with_color(&square("a4"), &PieceColor::White));
}

#[test]
fn pos_is_occupied_with_color() {
    let pieces = vec![BoardPiece::build(PieceType::Pawn, PieceColor::White, "a4")];
    let board = CheckerBoard::with_pieces(pieces);
    assert!(!board.pos_is_occupied_with_color(&square("a4"), &PieceColor::White));
}

#[test]
fn empty_board_no_one_is_checked() {
    let board = CheckerBoard::new();
    assert!(!board.is_checked(&PieceColor::White));
    assert!(!board.is_checked(&PieceColor::Black));
}

#[test]
fn king_not_being_attacked_board_is_not_checked() {
    let pieces = vec![
        BoardPiece::build(PieceType::Pawn, PieceColor::White, "e3"),
        BoardPiece::build(PieceType::King, PieceColor::Black, "e4"),
    ];
    let board = CheckerBoard::with_pieces(pieces);
    assert!(!board.is_checked(&PieceColor::Black));
}

#[test]
fn king_attacked_board_is_checked() {
    let pieces = vec![
        BoardPiece::build(PieceType::Pawn, PieceColor::White, "e4"),
        BoardPiece::build(PieceType::King, PieceColor::Black, "d5"),
    ];
    let board = CheckerBoard::with_pieces(pieces);
    assert!(board.is_checked(&PieceColor::Black));
}

#[test]
fn king_attacked_with_a_way_out_is_not_checkmated() {
    let pieces = vec![
        BoardPiece::build(PieceType::Pawn, PieceColor::White, "e4"),
        BoardPiece::build(PieceType::King, PieceColor::Black, "d5"),
    ];
    let board = CheckerBoard::with_pieces(pieces);
    assert!(!board.is_mated(&PieceColor::Black));
}

#[test]
fn king_attacked_with_no_way_out_is_checkmated() {
    let pieces = vec![
        BoardPiece::build(PieceType::Pawn, PieceColor::White, "a7"),
        BoardPiece::build(PieceType::Pawn, PieceColor::White, "b6"),
        BoardPiece::build(PieceType::King, PieceColor::White, "a6"),
        BoardPiece::build(PieceType::King, PieceColor::Black, "a8"),
    ];
    let mut board = CheckerBoard::with_pieces(pieces);
    board.move_piece(&square("b6"), &square("b7"));
    assert!(board.is_mated(&PieceColor::Black));
}

#[test]
fn king_un_attacked_with_no_way_out_is_not_checkmate() {
    let pieces = vec![
        BoardPiece::build(PieceType::King, PieceColor::White, "h1"),
        BoardPiece::build(PieceType::Pawn, PieceColor::Black, "h2"),
        BoardPiece::build(PieceType::King, PieceColor::Black, "g3"),
    ];
    let board = CheckerBoard::with_pieces(pieces);
    assert!(!board.is_mated(&PieceColor::White));
}

#[test]
fn king_un_attacked_with_no_way_out_is_draw() {
    let pieces = vec![
        BoardPiece::build(PieceType::King, PieceColor::White, "h1"),
        BoardPiece::build(PieceType::Pawn, PieceColor::Black, "h2"),
        BoardPiece::build(PieceType::King, PieceColor::Black, "g3"),
    ];
    let board = CheckerBoard::with_pieces(pieces);
    assert!(board.is_draw());
}

#[test]
fn default_board_has_all_white_pawns() {
    let board = CheckerBoard::default();
    for x in 0..board.width() {
        let piece = board.piece_at(&BoardPosition::new(x, 1)).unwrap();
        assert_eq!(piece.color(), PieceColor::White);
        assert_eq!(piece.piece_type(), PieceType::Pawn);
    }
}

#[test]
fn default_board_has_all_black_pawns() {
    let board = CheckerBoard::default();
    for x in 0..board.width() {
        let piece = board.piece_at(&BoardPosition::new(x, 6)).unwrap();
        assert_eq!(piece.color(), PieceColor::Black);
        assert_eq!(piece.piece_type(), PieceType::Pawn);
    }
}

#[test]
fn default_board_has_all_white_rooks() {
    let board = CheckerBoard::default();
    let rook_positions = [square("a1"), square("h1")];
    assert_all_pos_have_pieces(
        board,
        rook_positions.into_iter(),
        &PieceType::Rook,
        &PieceColor::White,
    );
}

#[test]
fn default_board_has_all_black_rooks() {
    let board = CheckerBoard::default();
    let rook_positions = [square("a8"), square("h8")];
    assert_all_pos_have_pieces(
        board,
        rook_positions.into_iter(),
        &PieceType::Rook,
        &PieceColor::Black,
    );
}

#[test]
fn default_board_has_all_white_knights() {
    let board = CheckerBoard::default();
    let knight_positions = [square("b1"), square("g1")];
    assert_all_pos_have_pieces(
        board,
        knight_positions.into_iter(),
        &PieceType::Knight,
        &PieceColor::White,
    );
}

#[test]
fn default_board_has_all_black_knights() {
    let board = CheckerBoard::default();
    let knight_positions = [square("b8"), square("g8")];
    assert_all_pos_have_pieces(
        board,
        knight_positions.into_iter(),
        &PieceType::Knight,
        &PieceColor::Black,
    );
}

#[test]
fn default_board_has_all_white_bishops() {
    let board = CheckerBoard::default();
    let bishop_positions = [square("c1"), square("f1")];
    assert_all_pos_have_pieces(
        board,
        bishop_positions.into_iter(),
        &PieceType::Bishop,
        &PieceColor::White,
    );
}

#[test]
fn default_board_has_all_black_bishops() {
    let board = CheckerBoard::default();
    let bishop_positions = [square("c8"), square("f8")];
    assert_all_pos_have_pieces(
        board,
        bishop_positions.into_iter(),
        &PieceType::Bishop,
        &PieceColor::Black,
    );
}

#[test]
fn default_board_has_white_king() {
    let board = CheckerBoard::default();
    let piece = board.piece_at(&square("e1")).unwrap();
    assert_eq!(piece.color(), PieceColor::White);
    assert_eq!(piece.piece_type(), PieceType::King);
}

#[test]
fn default_board_has_black_king() {
    let board = CheckerBoard::default();
    let piece = board.piece_at(&square("e8")).unwrap();
    assert_eq!(piece.color(), PieceColor::Black);
    assert_eq!(piece.piece_type(), PieceType::King);
}

#[test]
fn default_board_has_white_queen() {
    let board = CheckerBoard::default();
    let piece = board.piece_at(&square("d1")).unwrap();
    assert_eq!(piece.color(), PieceColor::White);
    assert_eq!(piece.piece_type(), PieceType::Queen);
}

#[test]
fn default_board_has_black_queen() {
    let board = CheckerBoard::default();
    let piece = board.piece_at(&square("d8")).unwrap();
    assert_eq!(piece.color(), PieceColor::Black);
    assert_eq!(piece.piece_type(), PieceType::Queen);
}

#[test]
fn first_turn_is_whites() {
    let board = CheckerBoard::default();
    assert_eq!(board.active_turn(), PieceColor::White)
}

#[test]
fn black_goes_second() {
    let mut board = CheckerBoard::default();
    board.move_piece(&square("e2"), &square("e4"));
    assert_eq!(board.active_turn(), PieceColor::Black)
}

#[test]
fn white_goes_third() {
    let mut board = CheckerBoard::default();
    board.move_piece(&square("e2"), &square("e4"));
    board.move_piece(&square("e7"), &square("e5"));
    assert_eq!(board.active_turn(), PieceColor::White)
}

#[test]
fn first_cant_move_black_pieces() {
    let mut board = CheckerBoard::default();
    board.move_piece(&square("e7"), &square("e5"));
    assert!(board.piece_at(&square("e5")).is_none())
}

#[test]
fn incorrect_move_is_invalid() {
    let board = CheckerBoard::default();
    assert!(!board.is_valid_move(&square("e2"), &square("e7")));
}

#[test]
fn out_of_order_move_is_invalid() {
    let board = CheckerBoard::default();
    assert!(!board.is_valid_move(&square("e7"), &square("e6")));
}

#[test]
fn can_not_move_if_move_is_invalid() {
    let mut board = CheckerBoard::default();
    board.move_piece(&square("e7"), &square("e6"));
    assert!(board.piece_at(&square("e6")).is_none());
    board.move_piece(&square("e2"), &square("c4"));
    assert!(board.piece_at(&square("c4")).is_none());
}

#[test]
fn move_piece_returns_empty_list_of_takes_when_no_takes_happen() {
    let mut board = CheckerBoard::default();
    let side_effects = board.move_piece(&square("e7"), &square("e6"));
    assert!(side_effects.takes.is_empty());
}

#[test]
fn side_effect_takes_removes_piece_from_board() {
    let d4 = BoardPiece::build(PieceType::Pawn, PieceColor::Black, "d4");
    let c2 = BoardPiece::build(PieceType::Pawn, PieceColor::White, "c2");
    let pieces = vec![d4, c2];
    let mut board = CheckerBoard::with_pieces(pieces);
    board.move_piece(&square("c2"), &square("c4"));
    board.move_piece(&square("d4"), &square("c3"));
    assert!(board.piece_at(&square("c4")).is_none());
}
