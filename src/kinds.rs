//! One type per kind of piece, each offering the capability set of `Piece`
//! by the rules of its kind.
use vstd::prelude::*;
use crate::board::CheckerBoard;
use crate::board_move::BoardMove;
use crate::board_piece::BoardPiece;
use crate::board_position::BoardPosition;
use crate::pieces::{ChessPiece, CloneBox, Piece, PieceColor, PieceType};
use crate::rules;

verus! {

/// A pawn of the given colour.
#[derive(Debug, Clone, Copy, PartialEq, Eq, Structural)]
pub struct Pawn {
    pub color: PieceColor,
}

impl Pawn {
    pub fn new(color: PieceColor) -> (r: Self)
        ensures
            r.color == color,
    {
        Self { color }
    }

    /// The kind and colour of this piece, as the board holds them.
    fn as_piece(&self) -> (r: ChessPiece)
        ensures
            r == self.spec_piece(),
    {
        ChessPiece { piece_type: PieceType::Pawn, color: self.color }
    }
}

impl Pawn {
    /// The squares this pawn on `from` attacks diagonally, whether or not
    /// they hold a piece.
    pub fn get_possible_take_positions(&self, from: &BoardPosition, board: &CheckerBoard) -> (r: Vec<
        BoardPosition,
    >)
        ensures
            r@ == rules::pawn_take_squares(self.color, from.col(), from.row()),
    {
        rules::pawn_take_positions(from, self.color)
    }

    /// The en passant square of this pawn on `from`, given the last move made.
    pub fn get_possible_en_passant_take(&self, from: &BoardPosition, last_move: Option<&BoardMove>) -> (r:
        Option<BoardPosition>)
        ensures
            r == rules::en_passant_target(
                self.color,
                from.col(),
                from.row(),
                match last_move {
                    Some(m) => Some(*m),
                    None => None,
                },
            ),
    {
        let last = match last_move {
            Some(m) => Some(*m),
            None => None,
        };
        rules::en_passant_square(self.color, from, last)
    }
}

impl Piece for Pawn {
    open spec fn spec_piece(&self) -> ChessPiece {
        ChessPiece { piece_type: PieceType::Pawn, color: self.color }
    }

    fn color(&self) -> (r: PieceColor) {
        self.color
    }

    fn piece_type(&self) -> (r: PieceType) {
        PieceType::Pawn
    }

    fn get_all_moves(&self, board: &CheckerBoard, from: &BoardPosition) -> (r: Vec<BoardPosition>) {
        rules::all_moves(self.as_piece(), board, from)
    }

    fn is_opponent(&self, color: &PieceColor) -> (r: bool) {
        self.color != *color
    }

    fn takes(&self, board: &CheckerBoard, from: &BoardPosition, to: &BoardPosition) -> (r: Vec<
        BoardPosition,
    >) {
        rules::takes(self.as_piece(), board, from, to)
    }

    fn side_effects(&self, board: &CheckerBoard, from: &BoardPosition, to: &BoardPosition) -> (r:
        Vec<BoardPiece>) {
        rules::side_effects(self.as_piece(), to)
    }
}

impl CloneBox for Pawn {
    fn clone_box(&self) -> (r: ChessPiece) {
        self.as_piece()
    }
}

/// A knight of the given colour.
#[derive(Debug, Clone, Copy, PartialEq, Eq, Structural)]
pub struct Knight {
    pub color: PieceColor,
}

impl Knight {
    pub fn new(color: PieceColor) -> (r: Self)
        ensures
            r.color == color,
    {
        Self { color }
    }

    /// The kind and colour of this piece, as the board holds them.
    fn as_piece(&self) -> (r: ChessPiece)
        ensures
            r == self.spec_piece(),
    {
        ChessPiece { piece_type: PieceType::Knight, color: self.color }
    }
}

impl Piece for Knight {
    open spec fn spec_piece(&self) -> ChessPiece {
        ChessPiece { piece_type: PieceType::Knight, color: self.color }
    }

    fn color(&self) -> (r: PieceColor) {
        self.color
    }

    fn piece_type(&self) -> (r: PieceType) {
        PieceType::Knight
    }

    fn get_all_moves(&self, board: &CheckerBoard, from: &BoardPosition) -> (r: Vec<BoardPosition>) {
        rules::all_moves(self.as_piece(), board, from)
    }

    fn is_opponent(&self, color: &PieceColor) -> (r: bool) {
        self.color != *color
    }

    fn takes(&self, board: &CheckerBoard, from: &BoardPosition, to: &BoardPosition) -> (r: Vec<
        BoardPosition,
    >) {
        rules::takes(self.as_piece(), board, from, to)
    }

    fn side_effects(&self, board: &CheckerBoard, from: &BoardPosition, to: &BoardPosition) -> (r:
        Vec<BoardPiece>) {
        rules::side_effects(self.as_piece(), to)
    }
}

impl CloneBox for Knight {
    fn clone_box(&self) -> (r: ChessPiece) {
        self.as_piece()
    }
}

/// A bishop of the given colour.
#[derive(Debug, Clone, Copy, PartialEq, Eq, Structural)]
pub struct Bishop {
    pub color: PieceColor,
}

impl Bishop {
    pub fn new(color: PieceColor) -> (r: Self)
        ensures
            r.color == color,
    {
        Self { color }
    }

    /// The kind and colour of this piece, as the board holds them.
    fn as_piece(&self) -> (r: ChessPiece)
        ensures
            r == self.spec_piece(),
    {
        ChessPiece { piece_type: PieceType::Bishop, color: self.color }
    }
}

impl Piece for Bishop {
    open spec fn spec_piece(&self) -> ChessPiece {
        ChessPiece { piece_type: PieceType::Bishop, color: self.color }
    }

    fn color(&self) -> (r: PieceColor) {
        self.color
    }

    fn piece_type(&self) -> (r: PieceType) {
        PieceType::Bishop
    }

    fn get_all_moves(&self, board: &CheckerBoard, from: &BoardPosition) -> (r: Vec<BoardPosition>) {
        rules::all_moves(self.as_piece(), board, from)
    }

    fn is_opponent(&self, color: &PieceColor) -> (r: bool) {
        self.color != *color
    }

    fn takes(&self, board: &CheckerBoard, from: &BoardPosition, to: &BoardPosition) -> (r: Vec<
        BoardPosition,
    >) {
        rules::takes(self.as_piece(), board, from, to)
    }

    fn side_effects(&self, board: &CheckerBoard, from: &BoardPosition, to: &BoardPosition) -> (r:
        Vec<BoardPiece>) {
        rules::side_effects(self.as_piece(), to)
    }
}

impl CloneBox for Bishop {
    fn clone_box(&self) -> (r: ChessPiece) {
        self.as_piece()
    }
}

/// A rook of the given colour.
#[derive(Debug, Clone, Copy, PartialEq, Eq, Structural)]
pub struct Rook {
    pub color: PieceColor,
}

impl Rook {
    pub fn new(color: PieceColor) -> (r: Self)
        ensures
            r.color == color,
    {
        Self { color }
    }

    /// The kind and colour of this piece, as the board holds them.
    fn as_piece(&self) -> (r: ChessPiece)
        ensures
            r == self.spec_piece(),
    {
        ChessPiece { piece_type: PieceType::Rook, color: self.color }
    }
}

impl Piece for Rook {
    open spec fn spec_piece(&self) -> ChessPiece {
        ChessPiece { piece_type: PieceType::Rook, color: self.color }
    }

    fn color(&self) -> (r: PieceColor) {
        self.color
    }

    fn piece_type(&self) -> (r: PieceType) {
        PieceType::Rook
    }

    fn get_all_moves(&self, board: &CheckerBoard, from: &BoardPosition) -> (r: Vec<BoardPosition>) {
        rules::all_moves(self.as_piece(), board, from)
    }

    fn is_opponent(&self, color: &PieceColor) -> (r: bool) {
        self.color != *color
    }

    fn takes(&self, board: &CheckerBoard, from: &BoardPosition, to: &BoardPosition) -> (r: Vec<
        BoardPosition,
    >) {
        rules::takes(self.as_piece(), board, from, to)
    }

    fn side_effects(&self, board: &CheckerBoard, from: &BoardPosition, to: &BoardPosition) -> (r:
        Vec<BoardPiece>) {
        rules::side_effects(self.as_piece(), to)
    }
}

impl CloneBox for Rook {
    fn clone_box(&self) -> (r: ChessPiece) {
        self.as_piece()
    }
}

/// A queen of the given colour.
#[derive(Debug, Clone, Copy, PartialEq, Eq, Structural)]
pub struct Queen {
    pub color: PieceColor,
}

impl Queen {
    pub fn new(color: PieceColor) -> (r: Self)
        ensures
            r.color == color,
    {
        Self { color }
    }

    /// The kind and colour of this piece, as the board holds them.
    fn as_piece(&self) -> (r: ChessPiece)
        ensures
            r == self.spec_piece(),
    {
        ChessPiece { piece_type: PieceType::Queen, color: self.color }
    }
}

impl Piece for Queen {
    open spec fn spec_piece(&self) -> ChessPiece {
        ChessPiece { piece_type: PieceType::Queen, color: self.color }
    }

    fn color(&self) -> (r: PieceColor) {
        self.color
    }

    fn piece_type(&self) -> (r: PieceType) {
        PieceType::Queen
    }

    fn get_all_moves(&self, board: &CheckerBoard, from: &BoardPosition) -> (r: Vec<BoardPosition>) {
        rules::all_moves(self.as_piece(), board, from)
    }

    fn is_opponent(&self, color: &PieceColor) -> (r: bool) {
        self.color != *color
    }

    fn takes(&self, board: &CheckerBoard, from: &BoardPosition, to: &BoardPosition) -> (r: Vec<
        BoardPosition,
    >) {
        rules::takes(self.as_piece(), board, from, to)
    }

    fn side_effects(&self, board: &CheckerBoard, from: &BoardPosition, to: &BoardPosition) -> (r:
        Vec<BoardPiece>) {
        rules::side_effects(self.as_piece(), to)
    }
}

impl CloneBox for Queen {
    fn clone_box(&self) -> (r: ChessPiece) {
        self.as_piece()
    }
}

/// A king of the given colour.
#[derive(Debug, Clone, Copy, PartialEq, Eq, Structural)]
pub struct King {
    pub color: PieceColor,
}

impl King {
    pub fn new(color: PieceColor) -> (r: Self)
        ensures
            r.color == color,
    {
        Self { color }
    }

    /// The kind and colour of this piece, as the board holds them.
    fn as_piece(&self) -> (r: ChessPiece)
        ensures
            r == self.spec_piece(),
    {
        ChessPiece { piece_type: PieceType::King, color: self.color }
    }
}

impl Piece for King {
    open spec fn spec_piece(&self) -> ChessPiece {
        ChessPiece { piece_type: PieceType::King, color: self.color }
    }

    fn color(&self) -> (r: PieceColor) {
        self.color
    }

    fn piece_type(&self) -> (r: PieceType) {
        PieceType::King
    }

    fn get_all_moves(&self, board: &CheckerBoard, from: &BoardPosition) -> (r: Vec<BoardPosition>) {
        rules::all_moves(self.as_piece(), board, from)
    }

    fn is_opponent(&self, color: &PieceColor) -> (r: bool) {
        self.color != *color
    }

    fn takes(&self, board: &CheckerBoard, from: &BoardPosition, to: &BoardPosition) -> (r: Vec<
        BoardPosition,
    >) {
        rules::takes(self.as_piece(), board, from, to)
    }

    fn side_effects(&self, board: &CheckerBoard, from: &BoardPosition, to: &BoardPosition) -> (r:
        Vec<BoardPiece>) {
        rules::side_effects(self.as_piece(), to)
    }
}

impl CloneBox for King {
    fn clone_box(&self) -> (r: ChessPiece) {
        self.as_piece()
    }
}

} // verus!
