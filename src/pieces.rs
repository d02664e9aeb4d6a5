//! Piece colours and kinds, the capability set that every piece offers, and
//! the factory that builds a piece of a given kind.
use vstd::prelude::*;
use crate::board::CheckerBoard;
use crate::board_piece::BoardPiece;
use crate::board_position::BoardPosition;
use crate::rules::{pseudo_moves, spawned_on_move, takes_on_move};
use crate::rules;

verus! {

#[derive(Debug, Clone, Copy, PartialEq, Eq, Structural, Hash)]
pub enum PieceColor {
    White,
    Black,
}

#[derive(Debug, Clone, Copy, PartialEq, Eq, Structural, Hash)]
pub enum PieceType {
    Pawn,
    Knight,
    King,
    Rook,
    Bishop,
    Queen,
}

/// A piece as the board holds it: its kind and its colour.
#[derive(Debug, Clone, Copy, PartialEq, Eq, Structural)]
pub struct ChessPiece {
    pub piece_type: PieceType,
    pub color: PieceColor,
}

/// The colour that moves against `c`.
pub open spec fn opponent(c: PieceColor) -> PieceColor {
    match c {
        PieceColor::White => PieceColor::Black,
        PieceColor::Black => PieceColor::White,
    }
}

/// What every kind of piece can tell about itself and its moves.
pub trait Piece {
    /// The kind and colour that this piece stands for.
    spec fn spec_piece(&self) -> ChessPiece;

    fn color(&self) -> (r: PieceColor)
        ensures
            r == self.spec_piece().color,
    ;

    fn piece_type(&self) -> (r: PieceType)
        ensures
            r == self.spec_piece().piece_type,
    ;

    /// Every destination the movement rules allow from `from`, before the
    /// filter that keeps the mover's king out of check.
    fn get_all_moves(&self, board: &CheckerBoard, from: &BoardPosition) -> (r: Vec<BoardPosition>)
        ensures
            r@ == pseudo_moves(self.spec_piece(), board.occ(), board.last_move(), *from),
    ;

    fn is_opponent(&self, color: &PieceColor) -> (r: bool)
        ensures
            r == (self.spec_piece().color != *color),
    ;

    /// The squares whose pieces are removed when this piece moves `from` to `to`.
    fn takes(&self, board: &CheckerBoard, from: &BoardPosition, to: &BoardPosition) -> (r: Vec<
        BoardPosition,
    >)
        ensures
            r@ == takes_on_move(self.spec_piece(), board.occ(), board.last_move(), *from, *to),
    ;

    /// The pieces placed on the board after this piece moves to `to` (promotion).
    fn side_effects(&self, board: &CheckerBoard, from: &BoardPosition, to: &BoardPosition) -> (r:
        Vec<BoardPiece>)
        ensures
            r@ == spawned_on_move(self.spec_piece(), *to),
    ;
}

impl Piece for ChessPiece {
    open spec fn spec_piece(&self) -> ChessPiece {
        *self
    }

    fn color(&self) -> (r: PieceColor) {
        self.color
    }

    fn piece_type(&self) -> (r: PieceType) {
        self.piece_type
    }

    fn get_all_moves(&self, board: &CheckerBoard, from: &BoardPosition) -> (r: Vec<BoardPosition>) {
        rules::all_moves(*self, board, from)
    }

    fn is_opponent(&self, color: &PieceColor) -> (r: bool) {
        self.color != *color
    }

    fn takes(&self, board: &CheckerBoard, from: &BoardPosition, to: &BoardPosition) -> (r: Vec<
        BoardPosition,
    >) {
        rules::takes(*self, board, from, to)
    }

    fn side_effects(&self, board: &CheckerBoard, from: &BoardPosition, to: &BoardPosition) -> (r:
        Vec<BoardPiece>) {
        rules::side_effects(*self, to)
    }
}

/// Turns any piece into the value that the board holds for it.
pub trait CloneBox: Piece {
    fn clone_box(&self) -> (r: ChessPiece)
        ensures
            r == self.spec_piece(),
    ;
}

impl CloneBox for ChessPiece {
    fn clone_box(&self) -> (r: ChessPiece) {
        *self
    }
}

/// Builds pieces by kind, so that callers never name the kind's own type.
pub struct PieceFactory;

impl PieceFactory {
    pub fn build(piece_type: PieceType, color: PieceColor) -> (r: ChessPiece)
        ensures
            r == (ChessPiece { piece_type, color }),
    {
        ChessPiece { piece_type, color }
    }
}

} // verus!
