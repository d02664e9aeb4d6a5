//! What a front end needs to draw the board: the squares to lay out and the
//! sprite that shows each piece.
use vstd::prelude::*;
use crate::board::CheckerBoard;
use crate::board_position::{BoardPosition, at, group_position};
use crate::pieces::{ChessPiece, PieceColor, PieceType};

verus! {

broadcast use group_position;

/// The index of a piece's picture in the sprite sheet: black pieces take
/// 0 to 5 and white pieces 6 to 11, in the order pawn, rook, bishop, knight,
/// king, queen.
pub open spec fn sprite_of(p: ChessPiece) -> usize {
    let base: usize = match p.color {
        PieceColor::White => 6,
        PieceColor::Black => 0,
    };
    let offset: usize = match p.piece_type {
        PieceType::Pawn => 0,
        PieceType::Rook => 1,
        PieceType::Bishop => 2,
        PieceType::Knight => 3,
        PieceType::King => 4,
        PieceType::Queen => 5,
    };
    (base + offset) as usize
}

/// The sprite of the piece on `pos`, if any.
pub fn get_sprite_index(board: &CheckerBoard, pos: &BoardPosition) -> (r: Option<usize>)
    ensures
        r == match board.square(*pos) {
            None => None,
            Some(p) => Some(sprite_of(p)),
        },
{
    match board.piece_at(pos) {
        None => None,
        Some(piece) => {
            let base: usize = match piece.color {
                PieceColor::White => 6,
                PieceColor::Black => 0,
            };
            let offset: usize = match piece.piece_type {
                PieceType::Pawn => 0,
                PieceType::Rook => 1,
                PieceType::Bishop => 2,
                PieceType::Knight => 3,
                PieceType::King => 4,
                PieceType::Queen => 5,
            };
            Some(base + offset)
        },
    }
}

/// Every square of the board, file by file, each file from its first rank up.
pub fn get_pos_iter(board: &CheckerBoard) -> (r: Vec<BoardPosition>)
    ensures
        r@.len() == 64,
        forall|i: int| 0 <= i < 64 ==> #[trigger] r@[i] == at(i / 8, i % 8),
{
    let mut positions: Vec<BoardPosition> = Vec::new();
    let mut x: u8 = 0;
    while x < board.width()
        invariant
            x <= 8,
            positions@.len() == 8 * x,
            forall|i: int| 0 <= i < 8 * x ==> #[trigger] positions@[i] == at(i / 8, i % 8),
        decreases 8 - x,
    {
        let mut y: u8 = 0;
        while y < board.length()
            invariant
                x < 8,
                y <= 8,
                positions@.len() == 8 * x + y,
                forall|i: int| 0 <= i < 8 * x + y ==> #[trigger] positions@[i] == at(i / 8, i % 8),
            decreases 8 - y,
        {
            positions.push(BoardPosition::new(x, y));
            proof {
                let i = 8 * x + y;
                assert(i / 8 == x && i % 8 == y) by (nonlinear_arith)
                    requires
                        i == 8 * x + y,
                        0 <= y < 8,
                ;
            }
            y = y + 1;
        }
        x = x + 1;
    }
    positions
}

} // verus!
