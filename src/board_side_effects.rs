//! What a move did beyond moving its piece.
use vstd::prelude::*;
use crate::board_piece::BoardPiece;
use crate::board_position::BoardPosition;

verus! {

/// The squares whose pieces a move removed, and the pieces it placed.
pub struct BoardSideEffects {
    pub takes: Vec<BoardPosition>,
    pub updates: Vec<BoardPiece>,
}

} // verus!
