//! A piece together with the square it stands on.
use vstd::prelude::*;
use crate::board_position::{BoardPosition, parse_square};
use crate::pieces::{ChessPiece, PieceColor, PieceType};

verus! {

#[derive(Debug, Clone, Copy, PartialEq, Eq, Structural)]
pub struct BoardPiece {
    pub position: BoardPosition,
    pub piece: ChessPiece,
}

impl BoardPiece {
    /// A piece of the given kind and colour on the square named `position`
    /// ("a1" to "h8"); the name must be a valid square.
    pub fn build(piece_type: PieceType, color: PieceColor, position: &str) -> (r: Self)
        requires
            parse_square(position@) is Some,
        ensures
            r.position == parse_square(position@)->0,
            r.piece == (ChessPiece { piece_type, color }),
    {
        let parsed = BoardPosition::parse(position);
        match parsed {
            Ok(pos) => BoardPiece { position: pos, piece: ChessPiece { piece_type, color } },
            Err(_) => {
                assert(false);
                BoardPiece {
                    position: BoardPosition::new(0, 0),
                    piece: ChessPiece { piece_type, color },
                }
            },
        }
    }

    pub fn pos(&self) -> (r: BoardPosition)
        ensures
            r == self.position,
    {
        self.position
    }

    pub fn piece(&self) -> (r: ChessPiece)
        ensures
            r == self.piece,
    {
        self.piece
    }
}

} // verus!
