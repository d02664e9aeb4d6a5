//! One entry of the move history.
use vstd::prelude::*;
use crate::board_position::BoardPosition;
use crate::pieces::PieceType;

verus! {

/// A move that was made: the kind of the piece that moved, and its two squares.
#[derive(Debug, Clone, Copy, PartialEq, Eq, Structural)]
pub struct BoardMove {
    pub piece_type: PieceType,
    pub from: BoardPosition,
    pub to: BoardPosition,
}

impl BoardMove {
    pub fn new(piece_type: PieceType, from: BoardPosition, to: BoardPosition) -> (r: Self)
        ensures
            r == (BoardMove { piece_type, from, to }),
    {
        BoardMove { piece_type, from, to }
    }

    pub fn from(&self) -> (r: BoardPosition)
        ensures
            r == self.from,
    {
        self.from
    }

    pub fn to(&self) -> (r: BoardPosition)
        ensures
            r == self.to,
    {
        self.to
    }

    pub fn piece_type(&self) -> (r: PieceType)
        ensures
            r == self.piece_type,
    {
        self.piece_type
    }
}

} // verus!
