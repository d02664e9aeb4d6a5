//! The board: which piece stands on each of the 64 squares, and the moves made.
use vstd::prelude::*;
use crate::board_move::BoardMove;
use crate::board_piece::BoardPiece;
use crate::board_position::{BoardPosition, at, in_bounds, group_position};
use crate::board_side_effects::BoardSideEffects;
use crate::pieces::{ChessPiece, Piece, PieceColor, PieceType};
use crate::rules::{pseudo_moves, takes_on_move, spawned_on_move, color_at};

verus! {

broadcast use group_position;

/// The index of square (x, y) among the 64 squares, rank by rank.
pub open spec fn square_index(x: int, y: int) -> int {
    y * 8 + x
}

/// The colour of what a square holds.
pub open spec fn color_of(c: Option<ChessPiece>) -> Option<PieceColor> {
    match c {
        Some(p) => Some(p.color),
        None => None,
    }
}


/// The colours on each of the 64 squares of `cells`.
pub open spec fn occ_of(cells: Seq<Option<ChessPiece>>) -> Seq<Option<PieceColor>> {
    Seq::new(64, |i: int| color_of(cells[i]))
}

/// The square with index `i`.
pub open spec fn position_of(i: int) -> BoardPosition {
    at(i % 8, i / 8)
}

/// The index of square `p`.
pub open spec fn index_of(p: BoardPosition) -> int {
    square_index(p.col(), p.row())
}

/// The first of the squares below `n` that holds the king of `color`.
pub open spec fn king_index(cells: Seq<Option<ChessPiece>>, color: PieceColor, n: int) -> Option<int>
    decreases n,
{
    if n <= 0 {
        None
    } else {
        match king_index(cells, color, n - 1) {
            Some(k) => Some(k),
            None => if cells[n - 1] == Some(ChessPiece { piece_type: PieceType::King, color }) {
                Some(n - 1)
            } else {
                None
            },
        }
    }
}

/// Some piece opposing `color` on a square below `n` can move to `target`.
pub open spec fn attacked_upto(
    cells: Seq<Option<ChessPiece>>,
    last: Option<BoardMove>,
    color: PieceColor,
    target: BoardPosition,
    n: int,
) -> bool
    decreases n,
{
    if n <= 0 {
        false
    } else {
        attacked_upto(cells, last, color, target, n - 1) || match cells[n - 1] {
            Some(p) => p.color != color && pseudo_moves(p, occ_of(cells), last, position_of(n - 1)).contains(
                target,
            ),
            None => false,
        }
    }
}

/// The king of `color` stands on a square that an opposing piece can move to.
pub open spec fn checked_in(cells: Seq<Option<ChessPiece>>, last: Option<BoardMove>, color: PieceColor) -> bool {
    match king_index(cells, color, 64) {
        None => false,
        Some(k) => attacked_upto(cells, last, color, position_of(k), 64),
    }
}

/// The squares after the piece on `from`, if any, is put on `to`, nothing else changing.
pub open spec fn force_moved(cells: Seq<Option<ChessPiece>>, from: BoardPosition, to: BoardPosition) -> Seq<
    Option<ChessPiece>,
> {
    let p = cells[index_of(from)];
    if p is Some {
        cells.update(index_of(from), None).update(index_of(to), p)
    } else {
        cells
    }
}

/// Moving `from` to `to` leaves the king of `color` out of check.
pub open spec fn safe_after(
    cells: Seq<Option<ChessPiece>>,
    last: Option<BoardMove>,
    color: PieceColor,
    from: BoardPosition,
    to: BoardPosition,
) -> bool {
    !checked_in(force_moved(cells, from, to), last, color)
}

/// The destinations of `s`, in order, that leave the king of `color` out of check.
pub open spec fn keep_safe(
    cells: Seq<Option<ChessPiece>>,
    last: Option<BoardMove>,
    color: PieceColor,
    from: BoardPosition,
    s: Seq<BoardPosition>,
) -> Seq<BoardPosition>
    decreases s.len(),
{
    if s.len() == 0 {
        seq![]
    } else {
        let prev = keep_safe(cells, last, color, from, s.drop_last());
        if safe_after(cells, last, color, from, s.last()) {
            prev.push(s.last())
        } else {
            prev
        }
    }
}

pub open spec fn holds_rook(c: Option<ChessPiece>) -> bool {
    c is Some && c->0.piece_type == PieceType::Rook
}

/// The castling squares offered to `piece`: for a king not in check, c1 when a
/// rook stands on a1 and g1 when a rook stands on h1.
pub open spec fn castling_squares(cells: Seq<Option<ChessPiece>>, last: Option<BoardMove>, piece: ChessPiece) -> Seq<
    BoardPosition,
> {
    if piece.piece_type == PieceType::King && !checked_in(cells, last, piece.color) {
        (if holds_rook(cells[0]) {
            seq![at(2, 0)]
        } else {
            seq![]
        }) + (if holds_rook(cells[7]) {
            seq![at(6, 0)]
        } else {
            seq![]
        })
    } else {
        seq![]
    }
}

/// The legal destinations of the piece on `from`.
pub open spec fn possible_moves(cells: Seq<Option<ChessPiece>>, last: Option<BoardMove>, from: BoardPosition) -> Seq<
    BoardPosition,
> {
    match cells[index_of(from)] {
        None => seq![],
        Some(p) => keep_safe(cells, last, p.color, from, pseudo_moves(p, occ_of(cells), last, from))
            + castling_squares(cells, last, p),
    }
}

/// The legal destinations of the pieces of `color` on the squares below `n`, square by square.
pub open spec fn moves_for_color(
    cells: Seq<Option<ChessPiece>>,
    last: Option<BoardMove>,
    color: PieceColor,
    n: int,
) -> Seq<BoardPosition>
    decreases n,
{
    if n <= 0 {
        seq![]
    } else {
        moves_for_color(cells, last, color, n - 1) + match cells[n - 1] {
            Some(p) => if p.color == color {
                possible_moves(cells, last, position_of(n - 1))
            } else {
                seq![]
            },
            None => seq![],
        }
    }
}

/// The piece that stands on `to` once `piece` has moved there: a pawn reaching
/// its last rank becomes a queen.
pub open spec fn landing(piece: ChessPiece, to: BoardPosition) -> ChessPiece {
    if spawned_on_move(piece, to).len() > 0 {
        ChessPiece { piece_type: PieceType::Queen, color: piece.color }
    } else {
        piece
    }
}

/// The squares after the piece on `from` moves to `to`, taking what it takes.
pub open spec fn moved_cells(
    cells: Seq<Option<ChessPiece>>,
    last: Option<BoardMove>,
    from: BoardPosition,
    to: BoardPosition,
) -> Seq<Option<ChessPiece>> {
    let p = cells[index_of(from)]->0;
    let t = takes_on_move(p, occ_of(cells), last, from, to);
    Seq::new(
        64,
        |i: int|
            if i == index_of(to) {
                Some(landing(p, to))
            } else if i == index_of(from) || t.contains(position_of(i)) {
                None
            } else {
                cells[i]
            },
    )
}

/// The pieces of the first and last ranks, file a to file h.
pub open spec fn back_rank() -> Seq<PieceType> {
    seq![
        PieceType::Rook,
        PieceType::Knight,
        PieceType::Bishop,
        PieceType::Queen,
        PieceType::King,
        PieceType::Bishop,
        PieceType::Knight,
        PieceType::Rook,
    ]
}

/// The squares of the starting position: White on ranks 1 and 2, Black on
/// ranks 7 and 8, pawns in front of the back rank.
pub open spec fn standard_square(x: int, y: int) -> Option<ChessPiece> {
    let color = if y <= 1 {
        PieceColor::White
    } else {
        PieceColor::Black
    };
    if y == 1 || y == 6 {
        Some(ChessPiece { piece_type: PieceType::Pawn, color })
    } else if y == 0 || y == 7 {
        Some(ChessPiece { piece_type: back_rank()[x], color })
    } else {
        None
    }
}

/// The squares after placing each of `list` in turn, a later piece replacing
/// an earlier one on the same square.
pub open spec fn seeded(list: Seq<BoardPiece>) -> Seq<Option<ChessPiece>>
    decreases list.len(),
{
    if list.len() == 0 {
        Seq::new(64, |i: int| None::<ChessPiece>)
    } else {
        seeded(list.drop_last()).update(index_of(list.last().position), Some(list.last().piece))
    }
}

/// The square with index `i` is read back from its coordinates, and the
/// reverse.
pub proof fn lemma_index(i: int)
    requires
        0 <= i < 64,
    ensures
        0 <= i % 8 < 8,
        0 <= i / 8 < 8,
        square_index(i % 8, i / 8) == i,
        index_of(position_of(i)) == i,
{
    assert(0 <= i % 8 < 8 && 0 <= i / 8 < 8 && (i / 8) * 8 + i % 8 == i) by (nonlinear_arith)
        requires
            0 <= i < 64,
    ;
}

/// A square of the board is the square of its own index.
pub proof fn lemma_position(p: BoardPosition)
    requires
        p.valid(),
    ensures
        0 <= index_of(p) < 64,
        position_of(index_of(p)) == p,
{
    let x = p.col();
    let y = p.row();
    assert((y * 8 + x) % 8 == x && (y * 8 + x) / 8 == y && 0 <= y * 8 + x < 64) by (nonlinear_arith)
        requires
            0 <= x < 8,
            0 <= y < 8,
    ;
}

pub struct CheckerBoard {
    moves: Vec<BoardMove>,
    pieces: [Option<ChessPiece>; 64],
}

impl CheckerBoard {
    /// What each square holds, rank by rank: square (x, y) at index 8y + x.
    pub closed spec fn cells(self) -> Seq<Option<ChessPiece>> {
        self.pieces@
    }

    /// The moves made on this board, oldest first.
    pub closed spec fn history(self) -> Seq<BoardMove> {
        self.moves@
    }

    /// What square `p` holds.
    pub open spec fn square(self, p: BoardPosition) -> Option<ChessPiece> {
        self.cells()[square_index(p.col(), p.row())]
    }

    /// The colour on each of the 64 squares.
    pub open spec fn occ(self) -> Seq<Option<PieceColor>> {
        Seq::new(64, |i: int| color_of(self.cells()[i]))
    }

    /// The latest move, if any was made.
    pub open spec fn last_move(self) -> Option<BoardMove> {
        if self.history().len() == 0 {
            None
        } else {
            Some(self.history().last())
        }
    }

    /// A board with no pieces and no moves.
    pub fn new() -> (r: Self)
        ensures
            r.cells() == Seq::new(64, |i: int| None::<ChessPiece>),
            r.history() == Seq::<BoardMove>::empty(),
    {
        let pieces: [Option<ChessPiece>; 64] = [None; 64];
        assert(pieces@ =~= Seq::new(64, |i: int| None::<ChessPiece>));
        CheckerBoard { moves: Vec::new(), pieces }
    }

    pub fn piece_at(&self, position: &BoardPosition) -> (r: Option<ChessPiece>)
        ensures
            r == self.square(*position),
            r == self.cells()[square_index(position.col(), position.row())],
            color_of(r) == color_at(self.occ(), position.col(), position.row()),
            self.cells().len() == 64,
    {
        let i = position.y() as usize * 8 + position.x() as usize;
        self.pieces[i]
    }

    pub fn get_last_move(&self) -> (r: Option<BoardMove>)
        ensures
            r == self.last_move(),
    {
        let n = self.moves.len();
        if n == 0 {
            None
        } else {
            Some(self.moves[n - 1])
        }
    }
}


/// The square with index `i`.
fn position_at(i: usize) -> (r: BoardPosition)
    requires
        i < 64,
    ensures
        r == position_of(i as int),
        index_of(r) == i,
{
    proof {
        lemma_index(i as int);
    }
    BoardPosition::new((i % 8) as u8, (i / 8) as u8)
}

/// The piece of the starting position on square (x, y).
fn standard_piece(x: u8, y: u8) -> (r: Option<ChessPiece>)
    requires
        x < 8,
    ensures
        r == standard_square(x as int, y as int),
{
    let color = if y <= 1 {
        PieceColor::White
    } else {
        PieceColor::Black
    };
    if y == 1 || y == 6 {
        Some(ChessPiece { piece_type: PieceType::Pawn, color })
    } else if y == 0 || y == 7 {
        let kind = if x == 0 || x == 7 {
            PieceType::Rook
        } else if x == 1 || x == 6 {
            PieceType::Knight
        } else if x == 2 || x == 5 {
            PieceType::Bishop
        } else if x == 3 {
            PieceType::Queen
        } else {
            PieceType::King
        };
        Some(ChessPiece { piece_type: kind, color })
    } else {
        None
    }
}

impl Clone for CheckerBoard {
    fn clone(&self) -> (r: Self)
        ensures
            r.cells() == self.cells(),
            r.history() == self.history(),
    {
        let mut moves: Vec<BoardMove> = Vec::new();
        let mut j: usize = 0;
        while j < self.moves.len()
            invariant
                j <= self.moves.len(),
                moves@ == self.moves@.take(j as int),
            decreases self.moves.len() - j,
        {
            moves.push(self.moves[j]);
            j = j + 1;
            assert(moves@ =~= self.moves@.take(j as int));
        }
        assert(moves@ =~= self.moves@);
        CheckerBoard { moves, pieces: self.pieces }
    }
}

impl CheckerBoard {
    /// Places `c` on square `p`.
    fn put(&mut self, p: &BoardPosition, c: Option<ChessPiece>)
        ensures
            final(self).cells() == old(self).cells().update(index_of(*p), c),
            final(self).history() == old(self).history(),
    {
        let i = p.y() as usize * 8 + p.x() as usize;
        self.pieces[i] = c;
    }

    /// The starting position, with no moves made.
    pub fn default() -> (r: Self)
        ensures
            r.cells() == Seq::new(64, |i: int| standard_square(i % 8, i / 8)),
            r.history() == Seq::<BoardMove>::empty(),
    {
        let mut pieces: [Option<ChessPiece>; 64] = [None; 64];
        let mut i: usize = 0;
        while i < 64
            invariant
                i <= 64,
                forall|j: int| 0 <= j < i ==> pieces@[j] == #[trigger] standard_square(j % 8, j / 8),
            decreases 64 - i,
        {
            pieces[i] = standard_piece((i % 8) as u8, (i / 8) as u8);
            i = i + 1;
        }
        assert(pieces@ =~= Seq::new(64, |j: int| standard_square(j % 8, j / 8)));
        CheckerBoard { moves: Vec::new(), pieces }
    }

    /// A board holding the given pieces, a later one replacing an earlier one
    /// on the same square, with no moves made.
    pub fn with_pieces(pieces: Vec<BoardPiece>) -> (r: Self)
        ensures
            r.cells() == seeded(pieces@),
            r.history() == Seq::<BoardMove>::empty(),
    {
        let mut board = CheckerBoard::new();
        let mut i: usize = 0;
        while i < pieces.len()
            invariant
                i <= pieces.len(),
                board.cells() == seeded(pieces@.take(i as int)),
                board.history() == Seq::<BoardMove>::empty(),
            decreases pieces.len() - i,
        {
            let bp = pieces[i];
            board.put(&bp.position, Some(bp.piece));
            proof {
                assert(pieces@.take(i + 1).drop_last() =~= pieces@.take(i as int));
            }
            i = i + 1;
        }
        proof {
            assert(pieces@.take(pieces@.len() as int) =~= pieces@);
        }
        board
    }

    /// True when no square holds a piece.
    pub fn is_empty(&self) -> (r: bool)
        ensures
            r == (forall|i: int| 0 <= i < 64 ==> #[trigger] self.cells()[i] is None),
    {
        let mut i: usize = 0;
        while i < 64
            invariant
                i <= 64,
                forall|j: int| 0 <= j < i ==> #[trigger] self.cells()[j] is None,
            decreases 64 - i,
        {
            if self.pieces[i].is_some() {
                return false;
            }
            i = i + 1;
        }
        true
    }

    /// Puts a new piece of the given kind and colour on `position`, replacing
    /// what stood there.
    pub fn spawn(&mut self, position: &BoardPosition, piece_type: PieceType, color: PieceColor)
        ensures
            final(self).cells() == old(self).cells().update(
                index_of(*position),
                Some(ChessPiece { piece_type, color }),
            ),
            final(self).history() == old(self).history(),
    {
        self.put(position, Some(ChessPiece { piece_type, color }));
    }

    /// Removes whatever stands on `position`.
    pub fn despawn(&mut self, position: &BoardPosition)
        ensures
            final(self).cells() == old(self).cells().update(index_of(*position), None),
            final(self).history() == old(self).history(),
    {
        self.put(position, None);
    }

    /// Puts the piece on `from`, if any, on `to`, without recording a move or
    /// taking anything else.
    pub fn force_move_piece(&mut self, from: &BoardPosition, to: &BoardPosition)
        ensures
            final(self).cells() == force_moved(old(self).cells(), *from, *to),
            final(self).history() == old(self).history(),
    {
        let piece = self.piece_at(from);
        if piece.is_some() {
            self.put(from, None);
            self.put(to, piece);
        }
    }

    pub fn is_last_row_for_white(&self, board_position: &BoardPosition) -> (r: bool)
        ensures
            r == (board_position.row() == 7),
    {
        board_position.y() + 1 == self.length()
    }

    pub fn is_last_row_for_black(&self, board_position: &BoardPosition) -> (r: bool)
        ensures
            r == (board_position.row() == 0),
    {
        board_position.y() == 0
    }

    pub fn is_far_left_side(&self, from: &BoardPosition) -> (r: bool)
        ensures
            r == (from.col() == 0),
    {
        from.x() == 0
    }

    pub fn is_far_right_side(&self, from: &BoardPosition) -> (r: bool)
        ensures
            r == (from.col() == 7),
    {
        from.x() + 1 == self.width()
    }

    pub fn width(&self) -> (r: u8)
        ensures
            r == 8,
    {
        8
    }

    pub fn length(&self) -> (r: u8)
        ensures
            r == 8,
    {
        8
    }

    /// True when the signed coordinates lie on the board.
    pub fn is_pos_valid(&self, position: &(i8, i8)) -> (r: bool)
        ensures
            r == in_bounds(position.0 as int, position.1 as int),
    {
        position.0 >= 0 && position.0 < self.width() as i8 && position.1 >= 0 && position.1
            < self.length() as i8
    }

    /// True when a piece of `color` may end a move on `pos`: the square is
    /// empty or holds an opposing piece.
    pub fn pos_is_occupied_with_color(&self, pos: &BoardPosition, color: &PieceColor) -> (r: bool)
        ensures
            r == crate::rules::accepts(self.occ(), pos.col(), pos.row(), *color),
    {
        match self.piece_at(pos) {
            None => true,
            Some(piece) => piece.is_opponent(color),
        }
    }
}

/// Every board has 64 squares.
pub proof fn lemma_cells_len(b: CheckerBoard)
    ensures
        b.cells().len() == 64,
{
}

/// Once a square is attacked from below `n`, it is attacked from below any larger bound.
proof fn lemma_attacked_grows(
    cells: Seq<Option<ChessPiece>>,
    last: Option<BoardMove>,
    color: PieceColor,
    target: BoardPosition,
    n: int,
    m: int,
)
    requires
        n <= m,
        attacked_upto(cells, last, color, target, n),
    ensures
        attacked_upto(cells, last, color, target, m),
    decreases m - n,
{
    if n < m {
        lemma_attacked_grows(cells, last, color, target, n, m - 1);
    }
}

/// True when `p` is one of `v`.
pub fn contains_pos(v: &Vec<BoardPosition>, p: &BoardPosition) -> (r: bool)
    ensures
        r == v@.contains(*p),
{
    let mut i: usize = 0;
    while i < v.len()
        invariant
            i <= v.len(),
            forall|j: int| 0 <= j < i ==> v@[j] != *p,
        decreases v.len() - i,
    {
        if v[i] == *p {
            assert(v@[i as int] == *p);
            return true;
        }
        i = i + 1;
    }
    false
}

impl CheckerBoard {
    /// True when the king of `color` is attacked by an opposing piece.
    pub fn is_checked(&self, color: &PieceColor) -> (r: bool)
        ensures
            r == checked_in(self.cells(), self.last_move(), *color),
    {
        let ghost cells = self.cells();
        let ghost last = self.last_move();
        let mut king: Option<BoardPosition> = None;
        let mut i: usize = 0;
        while i < 64
            invariant
                i <= 64,
                cells == self.cells(),
                king is Some <==> king_index(cells, *color, i as int) is Some,
                king is Some ==> king->0 == position_of(king_index(cells, *color, i as int)->0),
            decreases 64 - i,
        {
            if king.is_none() {
                match self.pieces[i] {
                    Some(piece) => {
                        if Self::is_king(&piece, color) {
                            king = Some(position_at(i));
                        }
                    },
                    None => {},
                }
            }
            i = i + 1;
        }
        let target = match king {
            None => {
                return false;
            },
            Some(k) => k,
        };
        let mut found = false;
        let mut j: usize = 0;
        while j < 64 && !found
            invariant
                j <= 64,
                cells == self.cells(),
                last == self.last_move(),
                found == attacked_upto(cells, last, *color, target, j as int),
            decreases 64 - j,
        {
            match self.pieces[j] {
                Some(piece) => {
                    if piece.is_opponent(color) {
                        let from = position_at(j);
                        let moves = piece.get_all_moves(self, &from);
                        found = contains_pos(&moves, &target);
                    }
                },
                None => {},
            }
            j = j + 1;
        }
        proof {
            if found {
                lemma_attacked_grows(cells, last, *color, target, j as int, 64);
            }
        }
        found
    }

    /// The legal destinations of the piece on `from`: the moves its rules
    /// allow that leave its king out of check, and for a king the castling
    /// squares. Empty when `from` holds no piece.
    pub fn get_possible_moves(&self, from: &BoardPosition) -> (r: Vec<BoardPosition>)
        ensures
            r@ == possible_moves(self.cells(), self.last_move(), *from),
    {
        let ghost cells = self.cells();
        let ghost last = self.last_move();
        let piece = match self.piece_at(from) {
            None => {
                return Vec::new();
            },
            Some(p) => p,
        };
        let all = piece.get_all_moves(self, from);
        assert(self.occ() =~= occ_of(cells));
        let mut moves: Vec<BoardPosition> = Vec::new();
        let mut i: usize = 0;
        while i < all.len()
            invariant
                i <= all.len(),
                cells == self.cells(),
                last == self.last_move(),
                moves@ == keep_safe(cells, last, piece.color, *from, all@.take(i as int)),
            decreases all.len() - i,
        {
            let to = all[i];
            let mut prediction = self.clone();
            prediction.force_move_piece(from, &to);
            let safe = !prediction.is_checked(&piece.color);
            proof {
                assert(all@.take(i + 1).drop_last() =~= all@.take(i as int));
                assert(all@.take(i + 1).last() == to);
            }
            if safe {
                moves.push(to);
            }
            i = i + 1;
        }
        proof {
            assert(all@.take(all@.len() as int) =~= all@);
        }
        let ghost filtered = moves@;
        if piece.piece_type == PieceType::King && !self.is_checked(&piece.color) {
            let a1 = BoardPosition::new(0, 0);
            let h1 = BoardPosition::new(self.width() - 1, 0);
            let left = self.piece_at(&a1);
            let right = self.piece_at(&h1);
            match left {
                Some(p) => {
                    if p.piece_type == PieceType::Rook {
                        moves.push(BoardPosition::new(2, 0));
                    }
                },
                None => {},
            }
            match right {
                Some(p) => {
                    if p.piece_type == PieceType::Rook {
                        moves.push(BoardPosition::new(6, 0));
                    }
                },
                None => {},
            }
            assert(moves@ =~= filtered + castling_squares(cells, last, piece));
        } else {
            assert(moves@ =~= filtered + castling_squares(cells, last, piece));
        }
        moves
    }
}

impl CheckerBoard {
    /// The colour to move: White when an even number of moves has been made.
    pub open spec fn turn(self) -> PieceColor {
        if self.history().len() % 2 == 0 {
            PieceColor::White
        } else {
            PieceColor::Black
        }
    }

    /// The legal destinations of the piece on `from`.
    pub open spec fn possible(self, from: BoardPosition) -> Seq<BoardPosition> {
        possible_moves(self.cells(), self.last_move(), from)
    }

    /// The king of `color` is in check.
    pub open spec fn in_check(self, color: PieceColor) -> bool {
        checked_in(self.cells(), self.last_move(), color)
    }

    /// The legal destinations of all pieces of `color`, square by square.
    pub open spec fn legal_moves(self, color: PieceColor) -> Seq<BoardPosition> {
        moves_for_color(self.cells(), self.last_move(), color, 64)
    }

    /// Moving `from` to `to` is legal now: `from` holds a piece of the colour
    /// to move and `to` is among its legal destinations.
    pub open spec fn legal(self, from: BoardPosition, to: BoardPosition) -> bool {
        match self.square(from) {
            None => false,
            Some(p) => p.color == self.turn() && self.possible(from).contains(to),
        }
    }

    /// The legal destinations of all pieces of `color`, square by square.
    pub fn get_moves_for_color(&self, color: &PieceColor) -> (r: Vec<BoardPosition>)
        ensures
            r@ == self.legal_moves(*color),
    {
        let ghost cells = self.cells();
        let ghost last = self.last_move();
        let mut moves: Vec<BoardPosition> = Vec::new();
        let mut i: usize = 0;
        while i < 64
            invariant
                i <= 64,
                cells == self.cells(),
                last == self.last_move(),
                moves@ == moves_for_color(cells, last, *color, i as int),
            decreases 64 - i,
        {
            match self.pieces[i] {
                Some(piece) => {
                    if !piece.is_opponent(color) {
                        let from = position_at(i);
                        let mut more = self.get_possible_moves(&from);
                        moves.append(&mut more);
                    }
                },
                None => {},
            }
            assert(moves@ =~= moves_for_color(cells, last, *color, i + 1));
            i = i + 1;
        }
        moves
    }

    /// True when `color` is in check and has no legal move.
    pub fn is_mated(&self, color: &PieceColor) -> (r: bool)
        ensures
            r == (self.in_check(*color) && self.legal_moves(*color).len() == 0),
    {
        if !self.is_checked(color) {
            return false;
        }
        let possible_moves = self.get_moves_for_color(color);
        possible_moves.len() == 0
    }

    /// True when either colour has no legal move.
    pub fn is_draw(&self) -> (r: bool)
        ensures
            r == (self.legal_moves(PieceColor::Black).len() == 0 || self.legal_moves(
                PieceColor::White,
            ).len() == 0),
    {
        let black = self.get_moves_for_color(&PieceColor::Black);
        if black.len() == 0 {
            return true;
        }
        let white = self.get_moves_for_color(&PieceColor::White);
        white.len() == 0
    }

    /// The colour to move.
    pub fn active_turn(&self) -> (r: PieceColor)
        ensures
            r == self.turn(),
    {
        if self.moves.len() % 2 == 0 {
            PieceColor::White
        } else {
            PieceColor::Black
        }
    }

    /// True when moving `from` to `to` is legal now.
    pub fn is_valid_move(&self, from: &BoardPosition, to: &BoardPosition) -> (r: bool)
        ensures
            r == self.legal(*from, *to),
    {
        match self.piece_at(from) {
            Some(piece) => {
                if piece.color != self.active_turn() {
                    return false;
                }
            },
            None => {},
        }
        let moves = self.get_possible_moves(from);
        contains_pos(&moves, to)
    }

    fn is_king(piece: &ChessPiece, color: &PieceColor) -> (r: bool)
        ensures
            r == (piece.piece_type == PieceType::King && piece.color == *color),
    {
        piece.piece_type == PieceType::King && piece.color == *color
    }
}

impl CheckerBoard {
    /// Makes the move `from` to `to` when it is legal: the pieces on the
    /// squares it takes are removed, the move is recorded, the piece lands on
    /// `to`, and a pawn reaching its last rank becomes a queen. An illegal move
    /// changes nothing and reports no effects.
    pub fn move_piece(&mut self, from: &BoardPosition, to: &BoardPosition) -> (r: BoardSideEffects)
        ensures
            old(self).legal(*from, *to) ==> {
                let p = old(self).square(*from)->0;
                &&& final(self).cells() == moved_cells(
                    old(self).cells(),
                    old(self).last_move(),
                    *from,
                    *to,
                )
                &&& final(self).history() == old(self).history().push(
                    BoardMove { piece_type: p.piece_type, from: *from, to: *to },
                )
                &&& r.takes@ == takes_on_move(p, old(self).occ(), old(self).last_move(), *from, *to)
                &&& r.updates@ == spawned_on_move(p, *to)
            },
            !old(self).legal(*from, *to) ==> {
                &&& final(self).cells() == old(self).cells()
                &&& final(self).history() == old(self).history()
                &&& r.takes@.len() == 0
                &&& r.updates@.len() == 0
            },
    {
        if !self.is_valid_move(from, to) {
            return BoardSideEffects { takes: Vec::new(), updates: Vec::new() };
        }
        let piece = match self.piece_at(from) {
            Some(p) => p,
            None => {
                return BoardSideEffects { takes: Vec::new(), updates: Vec::new() };
            },
        };
        let ghost cells0 = self.cells();
        let ghost last0 = self.last_move();
        let takes = piece.takes(self, from, to);
        let updates = piece.side_effects(self, from, to);
        let from_i = from.y() as usize * 8 + from.x() as usize;
        let to_i = to.y() as usize * 8 + to.x() as usize;
        self.put(from, None);
        let mut i: usize = 0;
        while i < takes.len()
            invariant
                i <= takes.len(),
                from_i == index_of(*from),
                self.cells().len() == 64,
                cells0.len() == 64,
                forall|k: int|
                    0 <= k < 64 ==> #[trigger] self.cells()[k] == if k == from_i || takes@.take(
                        i as int,
                    ).contains(position_of(k)) {
                        None
                    } else {
                        cells0[k]
                    },
                self.history() == old(self).history(),
            decreases takes.len() - i,
        {
            let t = takes[i];
            // reading its coordinates shows that `t` lies on the board
            t.x();
            t.y();
            self.put(&t, None);
            proof {
                lemma_position(t);
                assert(takes@.take(i + 1) =~= takes@.take(i as int).push(t));
                assert forall|k: int| 0 <= k < 64 implies #[trigger] self.cells()[k] == if k
                    == from_i || takes@.take(i + 1).contains(position_of(k)) {
                    None
                } else {
                    cells0[k]
                } by {
                    lemma_index(k);
                    if position_of(k) == t {
                        assert(k == index_of(t));
                    }
                    if k != index_of(t) {
                        assert(position_of(k) != t);
                        assert(takes@.take(i + 1).contains(position_of(k)) == takes@.take(
                            i as int,
                        ).contains(position_of(k)));
                    } else {
                        assert(takes@.take(i + 1)[i as int] == position_of(k));
                    }
                }
            }
            i = i + 1;
        }
        proof {
            assert(takes@.take(takes@.len() as int) =~= takes@);
        }
        self.moves.push(BoardMove::new(piece.piece_type, *from, *to));
        self.put(to, Some(piece));
        let ghost placed = self.cells();
        let mut j: usize = 0;
        while j < updates.len()
            invariant
                j <= updates.len(),
                updates@ == spawned_on_move(piece, *to),
                updates@.len() <= 1,
                j == 0 ==> self.cells() == placed,
                j > 0 ==> self.cells() == placed.update(index_of(*to), Some(landing(piece, *to))),
                self.history() == old(self).history().push(
                    BoardMove { piece_type: piece.piece_type, from: *from, to: *to },
                ),
            decreases updates.len() - j,
        {
            let u = updates[j];
            self.put(&u.position, Some(u.piece));
            j = j + 1;
        }
        proof {
            let target = moved_cells(cells0, last0, *from, *to);
            assert(cells0 =~= old(self).cells());
            assert forall|k: int| 0 <= k < 64 implies #[trigger] self.cells()[k] == target[k] by {
                lemma_index(k);
            }
            assert(self.cells() =~= target);
        }
        BoardSideEffects { takes, updates }
    }
}
} // verus!
