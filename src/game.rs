//! The game around a board.
use vstd::prelude::*;

verus! {

/// A game in progress; no rule ends it yet.
pub struct ChessGame;

impl ChessGame {
    pub fn new() -> (r: Self) {
        Self {}
    }

    pub fn is_over(&self) -> (r: bool)
        ensures
            !r,
    {
        false
    }
}

} // verus!
