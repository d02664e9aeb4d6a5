//! The movement rules of the six kinds of pieces, stated over the colours on
//! the 64 squares and the last move made, and the executable generators that
//! meet them.
use vstd::prelude::*;
use crate::board::CheckerBoard;
use crate::board_move::BoardMove;
use crate::board_piece::BoardPiece;
use crate::board_position::{BoardPosition, at, in_bounds, group_position};
use crate::movers::{orthogonal_moves, diagonal_moves};
use crate::pieces::{ChessPiece, PieceColor, PieceType};

verus! {

broadcast use group_position;

/// The colour of the piece on square (x, y), if any; `occ` lists the squares
/// rank by rank, file by file.
pub open spec fn color_at(occ: Seq<Option<PieceColor>>, x: int, y: int) -> Option<PieceColor> {
    occ[y * 8 + x]
}

/// A piece of `color` may end its move on (x, y): the square is empty or holds
/// an opposing piece.
pub open spec fn accepts(occ: Seq<Option<PieceColor>>, x: int, y: int, color: PieceColor) -> bool {
    match color_at(occ, x, y) {
        None => true,
        Some(c) => c != color,
    }
}

/// (x, y) holds a piece of the colour opposing `color`.
pub open spec fn holds_opponent(occ: Seq<Option<PieceColor>>, x: int, y: int, color: PieceColor) -> bool {
    match color_at(occ, x, y) {
        None => false,
        Some(c) => c != color,
    }
}

pub open spec fn knight_offsets() -> Seq<(int, int)> {
    seq![(1, 2), (1, -2), (-1, 2), (-1, -2), (2, 1), (2, -1), (-2, 1), (-2, -1)]
}

pub open spec fn king_offsets() -> Seq<(int, int)> {
    seq![(0, 1), (0, -1), (-1, 0), (1, 0), (-1, 1), (1, 1), (-1, -1), (1, -1)]
}

/// The squares one offset away from (x, y), in the order of `offs`, that are on
/// the board and accept a piece of `color`.
pub open spec fn step_moves(
    occ: Seq<Option<PieceColor>>,
    color: PieceColor,
    x: int,
    y: int,
    offs: Seq<(int, int)>,
) -> Seq<BoardPosition>
    decreases offs.len(),
{
    if offs.len() == 0 {
        seq![]
    } else {
        let prev = step_moves(occ, color, x, y, offs.drop_last());
        let nx = x + offs.last().0;
        let ny = y + offs.last().1;
        if in_bounds(nx, ny) && accepts(occ, nx, ny, color) {
            prev.push(at(nx, ny))
        } else {
            prev
        }
    }
}

/// +1 for White, which moves up the ranks; -1 for Black.
pub open spec fn forward(color: PieceColor) -> int {
    match color {
        PieceColor::White => 1,
        PieceColor::Black => -1,
    }
}

/// The rank on which a pawn of `color` promotes.
pub open spec fn last_rank(color: PieceColor) -> int {
    match color {
        PieceColor::White => 7,
        PieceColor::Black => 0,
    }
}

/// The rank from which a pawn of `color` may advance two squares.
pub open spec fn start_rank(color: PieceColor) -> int {
    match color {
        PieceColor::White => 1,
        PieceColor::Black => 6,
    }
}

/// A pawn's straight advances: one square, or two from its starting rank,
/// stopping at the first occupied square.
pub open spec fn pawn_advances(occ: Seq<Option<PieceColor>>, color: PieceColor, x: int, y: int) -> Seq<
    BoardPosition,
> {
    let d = forward(color);
    if y == last_rank(color) || color_at(occ, x, y + d) is Some {
        seq![]
    } else if y == start_rank(color) && color_at(occ, x, y + 2 * d) is None {
        seq![at(x, y + d), at(x, y + 2 * d)]
    } else {
        seq![at(x, y + d)]
    }
}

/// The one-square list of (x, y) when it holds an opponent of `color`.
pub open spec fn capture_if(occ: Seq<Option<PieceColor>>, color: PieceColor, x: int, y: int) -> Seq<
    BoardPosition,
> {
    if holds_opponent(occ, x, y, color) {
        seq![at(x, y)]
    } else {
        seq![]
    }
}

/// The squares a pawn of `color` on (x, y) attacks diagonally, left one first.
pub open spec fn pawn_take_squares(color: PieceColor, x: int, y: int) -> Seq<BoardPosition> {
    let ny = y + forward(color);
    if y == last_rank(color) {
        seq![]
    } else if x == 0 {
        seq![at(x + 1, ny)]
    } else if x == 7 {
        seq![at(x - 1, ny)]
    } else {
        seq![at(x - 1, ny), at(x + 1, ny)]
    }
}

/// A pawn's diagonal captures, left one first.
pub open spec fn pawn_captures(occ: Seq<Option<PieceColor>>, color: PieceColor, x: int, y: int) -> Seq<
    BoardPosition,
> {
    let ny = y + forward(color);
    if y == last_rank(color) {
        seq![]
    } else if x == 0 {
        capture_if(occ, color, x + 1, ny)
    } else if x == 7 {
        capture_if(occ, color, x - 1, ny)
    } else {
        capture_if(occ, color, x - 1, ny) + capture_if(occ, color, x + 1, ny)
    }
}

pub open spec fn abs(a: int) -> int {
    if a < 0 {
        -a
    } else {
        a
    }
}

/// The en passant square of a pawn of `color` on (x, y): when the last move
/// was a pawn advancing two ranks to a square beside it, the square behind
/// that pawn as seen from this one.
pub open spec fn en_passant_target(
    color: PieceColor,
    x: int,
    y: int,
    last: Option<BoardMove>,
) -> Option<BoardPosition> {
    match last {
        None => None,
        Some(m) => {
            let tx = m.to.col();
            let ty = m.to.row() + forward(color);
            if m.piece_type == PieceType::Pawn && m.to.row() == y && abs(x - m.to.col()) == 1
                && abs(m.from.row() - m.to.row()) == 2 && in_bounds(m.to.col(), m.to.row())
                && in_bounds(tx, ty) {
                Some(at(tx, ty))
            } else {
                None
            }
        },
    }
}

pub open spec fn option_seq(o: Option<BoardPosition>) -> Seq<BoardPosition> {
    match o {
        Some(p) => seq![p],
        None => seq![],
    }
}

/// All destinations of a pawn: advances, then captures, then en passant.
pub open spec fn pawn_moves(
    occ: Seq<Option<PieceColor>>,
    color: PieceColor,
    x: int,
    y: int,
    last: Option<BoardMove>,
) -> Seq<BoardPosition> {
    pawn_advances(occ, color, x, y) + pawn_captures(occ, color, x, y) + option_seq(
        en_passant_target(color, x, y, last),
    )
}

/// The destinations that the movement rules of `piece` allow from `from`.
pub open spec fn pseudo_moves(
    piece: ChessPiece,
    occ: Seq<Option<PieceColor>>,
    last: Option<BoardMove>,
    from: BoardPosition,
) -> Seq<BoardPosition> {
    let x = from.col();
    let y = from.row();
    let c = piece.color;
    match piece.piece_type {
        PieceType::Pawn => pawn_moves(occ, c, x, y, last),
        PieceType::Knight => step_moves(occ, c, x, y, knight_offsets()),
        PieceType::King => step_moves(occ, c, x, y, king_offsets()),
        PieceType::Rook => orthogonal_moves(occ, c, x, y),
        PieceType::Bishop => diagonal_moves(occ, c, x, y),
        PieceType::Queen => orthogonal_moves(occ, c, x, y) + diagonal_moves(occ, c, x, y),
    }
}

/// The squares emptied when `piece` moves `from` to `to`: the destination if
/// occupied, and for a pawn taking en passant the square of the pawn taken.
pub open spec fn takes_on_move(
    piece: ChessPiece,
    occ: Seq<Option<PieceColor>>,
    last: Option<BoardMove>,
    from: BoardPosition,
    to: BoardPosition,
) -> Seq<BoardPosition> {
    let base = if color_at(occ, to.col(), to.row()) is Some {
        seq![to]
    } else {
        seq![]
    };
    if piece.piece_type == PieceType::Pawn && en_passant_target(
        piece.color,
        from.col(),
        from.row(),
        last,
    ) == Some(to) {
        base.push(at(to.col(), to.row() - forward(piece.color)))
    } else {
        base
    }
}

/// The pieces placed after `piece` lands on `to`: a queen of its colour when a
/// pawn reaches its last rank.
pub open spec fn spawned_on_move(piece: ChessPiece, to: BoardPosition) -> Seq<BoardPiece> {
    if piece.piece_type == PieceType::Pawn && to.row() == last_rank(piece.color) {
        seq![
            BoardPiece {
                position: to,
                piece: ChessPiece { piece_type: PieceType::Queen, color: piece.color },
            },
        ]
    } else {
        seq![]
    }
}

fn knight_offset(i: usize) -> (r: (i8, i8))
    requires
        i < 8,
    ensures
        r.0 as int == knight_offsets()[i as int].0,
        r.1 as int == knight_offsets()[i as int].1,
{
    if i == 0 {
        (1, 2)
    } else if i == 1 {
        (1, -2)
    } else if i == 2 {
        (-1, 2)
    } else if i == 3 {
        (-1, -2)
    } else if i == 4 {
        (2, 1)
    } else if i == 5 {
        (2, -1)
    } else if i == 6 {
        (-2, 1)
    } else {
        (-2, -1)
    }
}

fn king_offset(i: usize) -> (r: (i8, i8))
    requires
        i < 8,
    ensures
        r.0 as int == king_offsets()[i as int].0,
        r.1 as int == king_offsets()[i as int].1,
{
    if i == 0 {
        (0, 1)
    } else if i == 1 {
        (0, -1)
    } else if i == 2 {
        (-1, 0)
    } else if i == 3 {
        (1, 0)
    } else if i == 4 {
        (-1, 1)
    } else if i == 5 {
        (1, 1)
    } else if i == 6 {
        (-1, -1)
    } else {
        (1, -1)
    }
}

/// The single-step destinations of a knight (`knight` true) or a king.
pub fn step_targets(board: &CheckerBoard, from: &BoardPosition, color: PieceColor, knight: bool) -> (r: Vec<
    BoardPosition,
>)
    ensures
        r@ == step_moves(
            board.occ(),
            color,
            from.col(),
            from.row(),
            if knight {
                knight_offsets()
            } else {
                king_offsets()
            },
        ),
{
    let ghost offs = if knight {
        knight_offsets()
    } else {
        king_offsets()
    };
    let x = from.x() as i8;
    let y = from.y() as i8;
    let mut moves: Vec<BoardPosition> = Vec::new();
    let mut i: usize = 0;
    while i < 8
        invariant
            0 <= i <= 8,
            offs.len() == 8,
            x == from.col(),
            y == from.row(),
            0 <= x < 8,
            0 <= y < 8,
            offs == (if knight {
                knight_offsets()
            } else {
                king_offsets()
            }),
            moves@ == step_moves(board.occ(), color, x as int, y as int, offs.take(i as int)),
        decreases 8 - i,
    {
        let (dx, dy) = if knight {
            knight_offset(i)
        } else {
            king_offset(i)
        };
        let nx = x + dx;
        let ny = y + dy;
        proof {
            assert(offs.take(i + 1).drop_last() =~= offs.take(i as int));
            assert(offs.take(i + 1).last() == offs[i as int]);
        }
        if 0 <= nx && nx < 8 && 0 <= ny && ny < 8 {
            let pos = BoardPosition::new(nx as u8, ny as u8);
            let p = board.piece_at(&pos);
            let ok = match p {
                None => true,
                Some(q) => q.color != color,
            };
            if ok {
                moves.push(pos);
            }
        }
        i = i + 1;
    }
    proof {
        assert(offs.take(8) =~= offs);
    }
    moves
}

/// The straight advances of a pawn.
fn pawn_forward(board: &CheckerBoard, x: u8, y: u8, color: PieceColor, moves: &mut Vec<BoardPosition>)
    requires
        x < 8,
        y < 8,
    ensures
        final(moves)@ == old(moves)@ + pawn_advances(board.occ(), color, x as int, y as int),
{
    let last: u8 = if color == PieceColor::White { 7 } else { 0 };
    if y == last {
        return;
    }
    let one: u8 = if color == PieceColor::White { y + 1 } else { y - 1 };
    let one_step = BoardPosition::new(x, one);
    if board.piece_at(&one_step).is_some() {
        return;
    }
    moves.push(one_step);
    let start: u8 = if color == PieceColor::White { 1 } else { 6 };
    if y == start {
        let two: u8 = if color == PieceColor::White { y + 2 } else { y - 2 };
        let two_steps = BoardPosition::new(x, two);
        if board.piece_at(&two_steps).is_none() {
            moves.push(two_steps);
        }
    }
}

/// Appends (x, y) when it holds an opponent of `color`.
fn push_capture(board: &CheckerBoard, x: u8, y: u8, color: PieceColor, moves: &mut Vec<BoardPosition>)
    requires
        x < 8,
        y < 8,
    ensures
        final(moves)@ == old(moves)@ + capture_if(board.occ(), color, x as int, y as int),
{
    let pos = BoardPosition::new(x, y);
    match board.piece_at(&pos) {
        Some(q) => {
            if q.color != color {
                moves.push(pos);
            }
        },
        None => {},
    }
}

/// The squares a pawn of `color` on `from` attacks diagonally.
pub fn pawn_take_positions(from: &BoardPosition, color: PieceColor) -> (r: Vec<BoardPosition>)
    ensures
        r@ == pawn_take_squares(color, from.col(), from.row()),
{
    let x = from.x();
    let y = from.y();
    let last: u8 = if color == PieceColor::White { 7 } else { 0 };
    if y == last {
        return Vec::new();
    }
    let ny: u8 = if color == PieceColor::White { y + 1 } else { y - 1 };
    if x == 0 {
        vec![BoardPosition::new(x + 1, ny)]
    } else if x == 7 {
        vec![BoardPosition::new(x - 1, ny)]
    } else {
        vec![BoardPosition::new(x - 1, ny), BoardPosition::new(x + 1, ny)]
    }
}

/// The diagonal captures of a pawn.
fn pawn_diagonals(board: &CheckerBoard, x: u8, y: u8, color: PieceColor, moves: &mut Vec<BoardPosition>)
    requires
        x < 8,
        y < 8,
    ensures
        final(moves)@ == old(moves)@ + pawn_captures(board.occ(), color, x as int, y as int),
{
    let last: u8 = if color == PieceColor::White { 7 } else { 0 };
    if y == last {
        return;
    }
    let ny: u8 = if color == PieceColor::White { y + 1 } else { y - 1 };
    let ghost start = moves@;
    if x == 0 {
        push_capture(board, x + 1, ny, color, moves);
    } else if x == 7 {
        push_capture(board, x - 1, ny, color, moves);
    } else {
        push_capture(board, x - 1, ny, color, moves);
        push_capture(board, x + 1, ny, color, moves);
        assert(moves@ =~= start + pawn_captures(board.occ(), color, x as int, y as int));
    }
}

/// The en passant square of a pawn of `color` on `from`, given the last move.
pub fn en_passant_square(color: PieceColor, from: &BoardPosition, last: Option<BoardMove>) -> (r: Option<
    BoardPosition,
>)
    ensures
        r == en_passant_target(color, from.col(), from.row(), last),
{
    match last {
        None => None,
        Some(m) => {
            let tx = m.to.x();
            let ty = m.to.y();
            let fy = m.from.y();
            let x = from.x();
            let y = from.y();
            let beside = if x > tx { x - tx == 1 } else { tx - x == 1 };
            let two = if fy > ty { fy - ty == 2 } else { ty - fy == 2 };
            let in_range = if color == PieceColor::White { ty < 7 } else { ty > 0 };
            if m.piece_type == PieceType::Pawn && ty == y && beside && two && in_range {
                let ny: u8 = if color == PieceColor::White { ty + 1 } else { ty - 1 };
                Some(BoardPosition::new(tx, ny))
            } else {
                None
            }
        },
    }
}

/// Every destination of a pawn of `color` on `from`.
pub fn pawn_targets(board: &CheckerBoard, from: &BoardPosition, color: PieceColor) -> (r: Vec<BoardPosition>)
    ensures
        r@ == pawn_moves(board.occ(), color, from.col(), from.row(), board.last_move()),
{
    let x = from.x();
    let y = from.y();
    let mut moves: Vec<BoardPosition> = Vec::new();
    pawn_forward(board, x, y, color, &mut moves);
    pawn_diagonals(board, x, y, color, &mut moves);
    match en_passant_square(color, from, board.get_last_move()) {
        Some(t) => moves.push(t),
        None => {},
    }
    assert(moves@ =~= pawn_moves(board.occ(), color, x as int, y as int, board.last_move()));
    moves
}

/// The destinations that the movement rules of `piece` allow from `from`.
pub fn all_moves(piece: ChessPiece, board: &CheckerBoard, from: &BoardPosition) -> (r: Vec<BoardPosition>)
    ensures
        r@ == pseudo_moves(piece, board.occ(), board.last_move(), *from),
{
    match piece.piece_type {
        PieceType::Pawn => pawn_targets(board, from, piece.color),
        PieceType::Knight => step_targets(board, from, piece.color, true),
        PieceType::King => step_targets(board, from, piece.color, false),
        PieceType::Rook => crate::movers::orthogonal_targets(board, from, piece.color),
        PieceType::Bishop => crate::movers::diagonal_targets(board, from, piece.color),
        PieceType::Queen => {
            let mut moves = crate::movers::orthogonal_targets(board, from, piece.color);
            let mut diag = crate::movers::diagonal_targets(board, from, piece.color);
            moves.append(&mut diag);
            moves
        },
    }
}

/// The squares emptied when `piece` moves `from` to `to`.
pub fn takes(piece: ChessPiece, board: &CheckerBoard, from: &BoardPosition, to: &BoardPosition) -> (r: Vec<
    BoardPosition,
>)
    ensures
        r@ == takes_on_move(piece, board.occ(), board.last_move(), *from, *to),
{
    let mut r: Vec<BoardPosition> = Vec::new();
    if board.piece_at(to).is_some() {
        r.push(*to);
    }
    if piece.piece_type == PieceType::Pawn {
        match en_passant_square(piece.color, from, board.get_last_move()) {
            Some(t) => {
                if t.x() == to.x() && t.y() == to.y() {
                    let ty = to.y();
                    let vy: u8 = if piece.color == PieceColor::White { ty - 1 } else { ty + 1 };
                    r.push(BoardPosition::new(to.x(), vy));
                }
            },
            None => {},
        }
    }
    r
}

/// The pieces placed after `piece` lands on `to`.
pub fn side_effects(piece: ChessPiece, to: &BoardPosition) -> (r: Vec<BoardPiece>)
    ensures
        r@ == spawned_on_move(piece, *to),
{
    let last: u8 = if piece.color == PieceColor::White { 7 } else { 0 };
    if piece.piece_type == PieceType::Pawn && to.y() == last {
        let queen = ChessPiece { piece_type: PieceType::Queen, color: piece.color };
        vec![BoardPiece { position: *to, piece: queen }]
    } else {
        Vec::new()
    }
}

} // verus!
