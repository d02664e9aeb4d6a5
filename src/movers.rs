//! The sliding pieces' ray walkers: a ray continues over empty squares, takes
//! in the first opposing piece and stops before the first piece of the mover.
use vstd::prelude::*;
use crate::board::CheckerBoard;
use crate::board_position::{BoardPosition, at, in_bounds, group_position};
use crate::pieces::PieceColor;
use crate::rules::color_at;

verus! {

broadcast use group_position;

/// The squares reached from (x, y) by repeated steps of (dx, dy), at most
/// `fuel` of them: empty squares are passed, an opposing piece is the last
/// square, a piece of `color` ends the ray before it.
pub open spec fn ray(
    occ: Seq<Option<PieceColor>>,
    color: PieceColor,
    x: int,
    y: int,
    dx: int,
    dy: int,
    fuel: nat,
) -> Seq<BoardPosition>
    decreases fuel,
{
    let nx = x + dx;
    let ny = y + dy;
    if fuel == 0 || !in_bounds(nx, ny) {
        seq![]
    } else {
        match color_at(occ, nx, ny) {
            None => seq![at(nx, ny)] + ray(occ, color, nx, ny, dx, dy, (fuel - 1) as nat),
            Some(c) => if c != color {
                seq![at(nx, ny)]
            } else {
                seq![]
            },
        }
    }
}

/// A whole ray: seven steps cross the board.
pub open spec fn full_ray(
    occ: Seq<Option<PieceColor>>,
    color: PieceColor,
    x: int,
    y: int,
    dx: int,
    dy: int,
) -> Seq<BoardPosition> {
    ray(occ, color, x, y, dx, dy, 7)
}

/// The rays right, left, up and down, in that order.
pub open spec fn orthogonal_moves(occ: Seq<Option<PieceColor>>, color: PieceColor, x: int, y: int) -> Seq<
    BoardPosition,
> {
    full_ray(occ, color, x, y, 1, 0) + full_ray(occ, color, x, y, -1, 0) + full_ray(
        occ,
        color,
        x,
        y,
        0,
        1,
    ) + full_ray(occ, color, x, y, 0, -1)
}

/// The rays up-left, up-right, down-left and down-right, in that order.
pub open spec fn diagonal_moves(occ: Seq<Option<PieceColor>>, color: PieceColor, x: int, y: int) -> Seq<
    BoardPosition,
> {
    full_ray(occ, color, x, y, -1, 1) + full_ray(occ, color, x, y, 1, 1) + full_ray(
        occ,
        color,
        x,
        y,
        -1,
        -1,
    ) + full_ray(occ, color, x, y, 1, -1)
}

/// How many steps of (dx, dy) fit between (x, y) and the edge it heads for.
spec fn steps_to_edge(x: int, y: int, dx: int, dy: int) -> int {
    if dx > 0 {
        7 - x
    } else if dx < 0 {
        x
    } else if dy > 0 {
        7 - y
    } else {
        y
    }
}

/// One square of a ray: records (x, y) when a piece of `color` may end there,
/// and tells whether the ray stops at it.
pub fn stop_at(board: &CheckerBoard, color: PieceColor, moves: &mut Vec<BoardPosition>, x: u8, y: u8) -> (r:
    bool)
    requires
        x < 8,
        y < 8,
    ensures
        r == (color_at(board.occ(), x as int, y as int) is Some),
        final(moves)@ == match color_at(board.occ(), x as int, y as int) {
            None => old(moves)@.push(at(x as int, y as int)),
            Some(c) => if c != color {
                old(moves)@.push(at(x as int, y as int))
            } else {
                old(moves)@
            },
        },
{
    let pos = BoardPosition::new(x, y);
    match board.piece_at(&pos) {
        None => {
            moves.push(pos);
            false
        },
        Some(piece) => {
            if color != piece.color {
                moves.push(pos);
            }
            true
        },
    }
}

/// Appends the ray from `from` in direction (dx, dy).
pub fn walk_ray(
    board: &CheckerBoard,
    from: &BoardPosition,
    color: PieceColor,
    dx: i8,
    dy: i8,
    moves: &mut Vec<BoardPosition>,
)
    requires
        -1 <= dx <= 1,
        -1 <= dy <= 1,
        dx != 0 || dy != 0,
    ensures
        final(moves)@ == old(moves)@ + full_ray(
            board.occ(),
            color,
            from.col(),
            from.row(),
            dx as int,
            dy as int,
        ),
{
    let ghost occ = board.occ();
    let ghost start = moves@;
    let ghost whole = full_ray(occ, color, from.col(), from.row(), dx as int, dy as int);
    let mut x: i8 = from.x() as i8;
    let mut y: i8 = from.y() as i8;
    let ghost mut fuel: nat = 7;
    loop
        invariant_except_break
            -1 <= dx <= 1,
            -1 <= dy <= 1,
            dx != 0 || dy != 0,
            occ == board.occ(),
            whole == full_ray(occ, color, from.col(), from.row(), dx as int, dy as int),
            0 <= x < 8,
            0 <= y < 8,
            steps_to_edge(x as int, y as int, dx as int, dy as int) <= fuel,
            start + whole == moves@ + ray(occ, color, x as int, y as int, dx as int, dy as int, fuel),
        ensures
            moves@ == start + whole,
        decreases fuel,
    {
        let nx = x + dx;
        let ny = y + dy;
        if nx < 0 || nx >= 8 || ny < 0 || ny >= 8 {
            assert(moves@ =~= start + whole);
            break;
        }
        assert(fuel > 0);
        let ghost rest = ray(occ, color, nx as int, ny as int, dx as int, dy as int, (fuel - 1) as nat);
        if stop_at(board, color, moves, nx as u8, ny as u8) {
            assert(moves@ =~= start + whole);
            break;
        }
        assert(start + whole =~= moves@ + rest);
        x = nx;
        y = ny;
        proof {
            fuel = (fuel - 1) as nat;
        }
    }
}

/// The rook's destinations from `from`.
pub fn orthogonal_targets(board: &CheckerBoard, from: &BoardPosition, color: PieceColor) -> (r: Vec<
    BoardPosition,
>)
    ensures
        r@ == orthogonal_moves(board.occ(), color, from.col(), from.row()),
{
    let mut moves: Vec<BoardPosition> = Vec::new();
    walk_ray(board, from, color, 1, 0, &mut moves);
    walk_ray(board, from, color, -1, 0, &mut moves);
    walk_ray(board, from, color, 0, 1, &mut moves);
    walk_ray(board, from, color, 0, -1, &mut moves);
    assert(moves@ =~= orthogonal_moves(board.occ(), color, from.col(), from.row()));
    moves
}

/// The bishop's destinations from `from`.
pub fn diagonal_targets(board: &CheckerBoard, from: &BoardPosition, color: PieceColor) -> (r: Vec<
    BoardPosition,
>)
    ensures
        r@ == diagonal_moves(board.occ(), color, from.col(), from.row()),
{
    let mut moves: Vec<BoardPosition> = Vec::new();
    walk_ray(board, from, color, -1, 1, &mut moves);
    walk_ray(board, from, color, 1, 1, &mut moves);
    walk_ray(board, from, color, -1, -1, &mut moves);
    walk_ray(board, from, color, 1, -1, &mut moves);
    assert(moves@ =~= diagonal_moves(board.occ(), color, from.col(), from.row()));
    moves
}

/// Walks the four diagonals from a square for a piece of the given colour.
pub struct DiagonalMover<'a> {
    pub board: &'a CheckerBoard,
    pub color: &'a PieceColor,
    pub pos: &'a BoardPosition,
}

impl<'a> DiagonalMover<'a> {
    pub fn new(board: &'a CheckerBoard, pos: &'a BoardPosition, color: &'a PieceColor) -> (r: Self)
        ensures
            *r.board == *board,
            *r.pos == *pos,
            *r.color == *color,
    {
        Self { board, color, pos }
    }

    /// The diagonal destinations: up-left, up-right, down-left, then down-right.
    pub fn get_diagonal_moves(&self) -> (r: Vec<BoardPosition>)
        ensures
            r@ == diagonal_moves(self.board.occ(), *self.color, self.pos.col(), self.pos.row()),
    {
        let mut moves: Vec<BoardPosition> = Vec::new();
        self.add_up_left_diagonal_moves(&mut moves);
        self.add_up_right_diagonal_moves(&mut moves);
        self.add_down_left_diagonal_moves(&mut moves);
        self.add_down_right_diagonal_moves(&mut moves);
        assert(moves@ =~= diagonal_moves(self.board.occ(), *self.color, self.pos.col(), self.pos.row()));
        moves
    }

    /// Records (x, y) when the piece may end there; tells whether the walk stops.
    pub fn it_should_stop_moving(&self, moves: &mut Vec<BoardPosition>, x: u8, y: u8) -> (r: bool)
        requires
            x < 8,
            y < 8,
        ensures
            r == (color_at(self.board.occ(), x as int, y as int) is Some),
            final(moves)@ == match color_at(self.board.occ(), x as int, y as int) {
                None => old(moves)@.push(at(x as int, y as int)),
                Some(c) => if c != *self.color {
                    old(moves)@.push(at(x as int, y as int))
                } else {
                    old(moves)@
                },
            },
    {
        stop_at(self.board, *self.color, moves, x, y)
    }

    pub fn add_up_left_diagonal_moves(&self, moves: &mut Vec<BoardPosition>)
        ensures
            final(moves)@ == old(moves)@ + full_ray(self.board.occ(), *self.color, self.pos.col(), self.pos.row(), -1, 1),
    {
        walk_ray(self.board, self.pos, *self.color, -1, 1, moves);
    }

    pub fn add_up_right_diagonal_moves(&self, moves: &mut Vec<BoardPosition>)
        ensures
            final(moves)@ == old(moves)@ + full_ray(self.board.occ(), *self.color, self.pos.col(), self.pos.row(), 1, 1),
    {
        walk_ray(self.board, self.pos, *self.color, 1, 1, moves);
    }

    pub fn add_down_left_diagonal_moves(&self, moves: &mut Vec<BoardPosition>)
        ensures
            final(moves)@ == old(moves)@ + full_ray(self.board.occ(), *self.color, self.pos.col(), self.pos.row(), -1, -1),
    {
        walk_ray(self.board, self.pos, *self.color, -1, -1, moves);
    }

    pub fn add_down_right_diagonal_moves(&self, moves: &mut Vec<BoardPosition>)
        ensures
            final(moves)@ == old(moves)@ + full_ray(self.board.occ(), *self.color, self.pos.col(), self.pos.row(), 1, -1),
    {
        walk_ray(self.board, self.pos, *self.color, 1, -1, moves);
    }
}

/// Walks the rank and the file through a square for a piece of the given colour.
pub struct HorizontalVerticalMovement<'a> {
    pub board: &'a CheckerBoard,
    pub color: &'a PieceColor,
    pub pos: &'a BoardPosition,
}

impl<'a> HorizontalVerticalMovement<'a> {
    pub fn new(board: &'a CheckerBoard, pos: &'a BoardPosition, color: &'a PieceColor) -> (r: Self)
        ensures
            *r.board == *board,
            *r.pos == *pos,
            *r.color == *color,
    {
        Self { board, color, pos }
    }

    /// The straight destinations: right, left, up, then down.
    pub fn get_moves(&self) -> (r: Vec<BoardPosition>)
        ensures
            r@ == orthogonal_moves(self.board.occ(), *self.color, self.pos.col(), self.pos.row()),
    {
        let mut moves: Vec<BoardPosition> = Vec::new();
        self.add_horizontal_moves(&mut moves);
        self.add_vertical_moves(&mut moves);
        assert(moves@ =~= orthogonal_moves(self.board.occ(), *self.color, self.pos.col(), self.pos.row()));
        moves
    }

    /// The moves along the rank: right, then left.
    fn add_horizontal_moves(&self, moves: &mut Vec<BoardPosition>)
        ensures
            final(moves)@ == old(moves)@ + full_ray(self.board.occ(), *self.color, self.pos.col(), self.pos.row(), 1, 0)
                + full_ray(self.board.occ(), *self.color, self.pos.col(), self.pos.row(), -1, 0),
    {
        let ghost start = moves@;
        walk_ray(self.board, self.pos, *self.color, 1, 0, moves);
        walk_ray(self.board, self.pos, *self.color, -1, 0, moves);
        assert(moves@ =~= start + full_ray(self.board.occ(), *self.color, self.pos.col(), self.pos.row(), 1, 0)
                + full_ray(self.board.occ(), *self.color, self.pos.col(), self.pos.row(), -1, 0));
    }

    /// The moves along the file: up, then down.
    fn add_vertical_moves(&self, moves: &mut Vec<BoardPosition>)
        ensures
            final(moves)@ == old(moves)@ + full_ray(self.board.occ(), *self.color, self.pos.col(), self.pos.row(), 0, 1)
                + full_ray(self.board.occ(), *self.color, self.pos.col(), self.pos.row(), 0, -1),
    {
        let ghost start = moves@;
        walk_ray(self.board, self.pos, *self.color, 0, 1, moves);
        walk_ray(self.board, self.pos, *self.color, 0, -1, moves);
        assert(moves@ =~= start + full_ray(self.board.occ(), *self.color, self.pos.col(), self.pos.row(), 0, 1)
                + full_ray(self.board.occ(), *self.color, self.pos.col(), self.pos.row(), 0, -1));
    }
}

} // verus!
