//! Properties that hold of the engine as a whole, stated over the model of
//! the board and proved.
use vstd::prelude::*;
use crate::board::{
    attacked_upto, castling_squares, checked_in, force_moved, index_of, keep_safe, king_index,
    lemma_cells_len, lemma_index, lemma_position, moved_cells, occ_of, position_of,
    possible_moves, safe_after, CheckerBoard,
};
use crate::board_move::BoardMove;
use crate::board::square_index;
use crate::board_position::{BoardPosition, at, in_bounds, group_position};
use crate::pieces::{ChessPiece, PieceColor, PieceType, opponent};
use crate::rules::{
    abs, capture_if, color_at, en_passant_target, forward, holds_opponent, option_seq, pawn_advances,
    pawn_captures, pawn_moves, pseudo_moves, takes_on_move,
};

verus! {

broadcast use group_position;

/// Each square of the board names its own cell: reading square `s` reads the
/// cell whose coordinates are those of `s`, and two squares share a cell only
/// when they are the same square.
pub proof fn law_square_addresses(s: BoardPosition, t: BoardPosition)
    requires
        s.valid(),
        t.valid(),
    ensures
        0 <= index_of(s) < 64,
        position_of(index_of(s)) == s,
        index_of(s) == index_of(t) <==> s == t,
{
    lemma_position(s);
    lemma_position(t);
}

proof fn lemma_keep_safe_within(
    cells: Seq<Option<ChessPiece>>,
    last: Option<BoardMove>,
    color: PieceColor,
    from: BoardPosition,
    s: Seq<BoardPosition>,
    to: BoardPosition,
)
    requires
        keep_safe(cells, last, color, from, s).contains(to),
    ensures
        s.contains(to),
    decreases s.len(),
{
    if s.len() > 0 {
        let prev = keep_safe(cells, last, color, from, s.drop_last());
        if prev.contains(to) {
            lemma_keep_safe_within(cells, last, color, from, s.drop_last(), to);
            let k = choose|k: int| 0 <= k < s.drop_last().len() && s.drop_last()[k] == to;
            assert(s[k] == to);
        } else {
            assert(s[s.len() - 1] == to);
        }
    }
}

/// Every legal destination of a piece is one that its movement rules allow,
/// or one of the castling squares.
pub proof fn law_legal_within_rules(b: CheckerBoard, from: BoardPosition, to: BoardPosition)
    requires
        b.possible(from).contains(to),
    ensures
        b.square(from) is Some,
        pseudo_moves(b.square(from)->0, b.occ(), b.last_move(), from).contains(to)
            || castling_squares(b.cells(), b.last_move(), b.square(from)->0).contains(to),
{
    let p = b.square(from)->0;
    let cells = b.cells();
    let last = b.last_move();
    assert(b.occ() =~= occ_of(cells));
    let kept = keep_safe(cells, last, p.color, from, pseudo_moves(p, occ_of(cells), last, from));
    let castles = castling_squares(cells, last, p);
    let all = possible_moves(cells, last, from);
    assert(all == kept + castles);
    let k = choose|k: int| 0 <= k < all.len() && all[k] == to;
    if k < kept.len() {
        assert(kept[k] == to);
        lemma_keep_safe_within(cells, last, p.color, from, pseudo_moves(p, occ_of(cells), last, from), to);
    } else {
        assert(castles[k - kept.len()] == to);
    }
}

/// Each recorded move hands the turn to the other colour, so after `n` moves
/// White is to move exactly when `n` is even.
pub proof fn law_turn_alternates(before: CheckerBoard, after: CheckerBoard, m: BoardMove)
    requires
        after.history() == before.history().push(m),
    ensures
        after.turn() == opponent(before.turn()),
        after.turn() == PieceColor::White <==> after.history().len() % 2 == 0,
{
}

/// How many of the first `k` steps of `boards` recorded a move.
pub open spec fn recorded_moves(boards: Seq<CheckerBoard>, k: int) -> int
    decreases k,
{
    if k <= 0 {
        0
    } else {
        recorded_moves(boards, k - 1) + if boards[k].history().len() != boards[k - 1].history().len() {
            1int
        } else {
            0int
        }
    }
}

/// Turn alternation over a game: starting from a board with no moves made
/// (as `new`, `default` and `with_pieces` give), where each step either records
/// one move (a successful `move_piece`) or leaves the history as it was (a
/// rejected one), White is to move after `n` successful moves exactly when `n`
/// is even.
pub proof fn law_turn_after_moves(boards: Seq<CheckerBoard>)
    requires
        boards.len() > 0,
        boards[0].history().len() == 0,
        forall|i: int|
            #![trigger boards[i + 1]]
            0 <= i < boards.len() - 1 ==> boards[i + 1].history() == boards[i].history() || exists|
                m: BoardMove,
            | boards[i + 1].history() == #[trigger] boards[i].history().push(m),
    ensures
        boards.last().history().len() == recorded_moves(boards, boards.len() - 1),
        boards.last().turn() == PieceColor::White <==> recorded_moves(boards, boards.len() - 1) % 2
            == 0,
    decreases boards.len(),
{
    if boards.len() > 1 {
        let front = boards.drop_last();
        assert forall|i: int|
            #![trigger front[i + 1]]
            0 <= i < front.len() - 1 implies front[i + 1].history() == front[i].history() || exists|
                m: BoardMove,
            | front[i + 1].history() == #[trigger] front[i].history().push(m) by {
            assert(front[i + 1] == boards[i + 1]);
        }
        law_turn_after_moves(front);
        assert forall|k: int| 0 <= k <= front.len() - 1 implies recorded_moves(front, k)
            == recorded_moves(boards, k) by {
            lemma_recorded_prefix(boards, front, k);
        }
        let n = boards.len() - 1;
        assert(boards[n - 1] == front.last());
        assert(boards[(n - 1) + 1] == boards[n]);
        if boards[n].history() != boards[n - 1].history() {
            let m = choose|m: BoardMove| boards[n].history() == #[trigger] boards[n - 1].history().push(m);
            assert(boards[n].history() == boards[n - 1].history().push(m));
        }
    }
}

proof fn lemma_recorded_prefix(boards: Seq<CheckerBoard>, front: Seq<CheckerBoard>, k: int)
    requires
        boards.len() > 0,
        front == boards.drop_last(),
        0 <= k <= front.len() - 1,
    ensures
        recorded_moves(front, k) == recorded_moves(boards, k),
    decreases k,
{
    if k > 0 {
        lemma_recorded_prefix(boards, front, k - 1);
        assert(front[k] == boards[k]);
        assert(front[k - 1] == boards[k - 1]);
    }
}

/// A legal move onto a square held by an opposing piece takes that piece.
pub proof fn law_capture_takes_target(b: CheckerBoard, from: BoardPosition, to: BoardPosition)
    requires
        b.possible(from).contains(to),
        b.square(from) is Some,
        holds_opponent(b.occ(), to.col(), to.row(), b.square(from)->0.color),
    ensures
        takes_on_move(b.square(from)->0, b.occ(), b.last_move(), from, to).contains(to),
{
    let t = takes_on_move(b.square(from)->0, b.occ(), b.last_move(), from, to);
    assert(t[0] == to);
}

/// The square reflected across the line between the fourth and fifth ranks.
pub open spec fn mirror(p: BoardPosition) -> BoardPosition {
    at(p.col(), 7 - p.row())
}

pub open spec fn swap_color(c: Option<PieceColor>) -> Option<PieceColor> {
    match c {
        Some(c) => Some(opponent(c)),
        None => None,
    }
}

/// The board reflected across the line between the fourth and fifth ranks,
/// with every piece changing colour.
pub open spec fn mirror_occ(occ: Seq<Option<PieceColor>>) -> Seq<Option<PieceColor>> {
    Seq::new(64, |i: int| swap_color(occ[square_index(i % 8, 7 - i / 8)]))
}

/// A move reflected across the line between the fourth and fifth ranks.
pub open spec fn mirror_move(last: Option<BoardMove>) -> Option<BoardMove> {
    match last {
        Some(m) => Some(BoardMove { piece_type: m.piece_type, from: mirror(m.from), to: mirror(m.to) }),
        None => None,
    }
}

proof fn lemma_mirror_color(occ: Seq<Option<PieceColor>>, a: int, b: int)
    requires
        occ.len() == 64,
        in_bounds(a, b),
    ensures
        color_at(mirror_occ(occ), a, b) == swap_color(color_at(occ, a, 7 - b)),
{
    assert((b * 8 + a) % 8 == a && (b * 8 + a) / 8 == b) by (nonlinear_arith)
        requires
            0 <= a < 8,
            0 <= b < 8,
    ;
}

proof fn lemma_mirror_capture(occ: Seq<Option<PieceColor>>, a: int, b: int)
    requires
        occ.len() == 64,
        in_bounds(a, b),
    ensures
        capture_if(occ, PieceColor::Black, a, b) =~= capture_if(
            mirror_occ(occ),
            PieceColor::White,
            a,
            7 - b,
        ).map_values(|p: BoardPosition| mirror(p)),
{
    lemma_mirror_color(occ, a, 7 - b);
}

proof fn lemma_mirror_advances(occ: Seq<Option<PieceColor>>, x: int, y: int)
    requires
        occ.len() == 64,
        in_bounds(x, y),
    ensures
        pawn_advances(occ, PieceColor::Black, x, y) =~= pawn_advances(
            mirror_occ(occ),
            PieceColor::White,
            x,
            7 - y,
        ).map_values(|p: BoardPosition| mirror(p)),
{
    if y > 0 {
        lemma_mirror_color(occ, x, 8 - y);
        if y == 6 {
            lemma_mirror_color(occ, x, 9 - y);
        }
    }
}

proof fn lemma_mirror_captures(occ: Seq<Option<PieceColor>>, x: int, y: int)
    requires
        occ.len() == 64,
        in_bounds(x, y),
    ensures
        pawn_captures(occ, PieceColor::Black, x, y) =~= pawn_captures(
            mirror_occ(occ),
            PieceColor::White,
            x,
            7 - y,
        ).map_values(|p: BoardPosition| mirror(p)),
{
    let f = |p: BoardPosition| mirror(p);
    if y > 0 {
        if x > 0 {
            lemma_mirror_capture(occ, x - 1, y - 1);
        }
        if x < 7 {
            lemma_mirror_capture(occ, x + 1, y - 1);
        }
        if 0 < x < 7 {
            let l = capture_if(mirror_occ(occ), PieceColor::White, x - 1, 8 - y);
            let r = capture_if(mirror_occ(occ), PieceColor::White, x + 1, 8 - y);
            assert((l + r).map_values(f) =~= l.map_values(f) + r.map_values(f));
        }
    }
}

proof fn lemma_mirror_en_passant(last: Option<BoardMove>, x: int, y: int)
    requires
        in_bounds(x, y),
        last is Some ==> last->0.from.valid() && last->0.to.valid(),
    ensures
        option_seq(en_passant_target(PieceColor::Black, x, y, last)) =~= option_seq(
            en_passant_target(PieceColor::White, x, 7 - y, mirror_move(last)),
        ).map_values(|p: BoardPosition| mirror(p)),
{
}

/// The pawn rules are symmetric: the moves of a black pawn are the moves of a
/// white pawn on the mirrored board, where every piece has changed colour and
/// ranks are counted from the other side, mirrored back.
pub proof fn law_pawn_mirror(occ: Seq<Option<PieceColor>>, last: Option<BoardMove>, x: int, y: int)
    requires
        occ.len() == 64,
        in_bounds(x, y),
        last is Some ==> last->0.from.valid() && last->0.to.valid(),
    ensures
        pawn_moves(occ, PieceColor::Black, x, y, last) == pawn_moves(
            mirror_occ(occ),
            PieceColor::White,
            x,
            7 - y,
            mirror_move(last),
        ).map_values(|p: BoardPosition| mirror(p)),
{
    let mocc = mirror_occ(occ);
    let f = |p: BoardPosition| mirror(p);
    let w = 7 - y;
    lemma_mirror_advances(occ, x, y);
    lemma_mirror_captures(occ, x, y);
    lemma_mirror_en_passant(last, x, y);
    let a = pawn_advances(mocc, PieceColor::White, x, w);
    let c = pawn_captures(mocc, PieceColor::White, x, w);
    let e = option_seq(en_passant_target(PieceColor::White, x, w, mirror_move(last)));
    assert((a + c + e).map_values(f) =~= a.map_values(f) + c.map_values(f) + e.map_values(f));
    assert(pawn_moves(occ, PieceColor::Black, x, y, last) =~= (a + c + e).map_values(f));
}

proof fn lemma_keep_safe_safe(
    cells: Seq<Option<ChessPiece>>,
    last: Option<BoardMove>,
    color: PieceColor,
    from: BoardPosition,
    s: Seq<BoardPosition>,
    to: BoardPosition,
)
    requires
        keep_safe(cells, last, color, from, s).contains(to),
    ensures
        safe_after(cells, last, color, from, to),
    decreases s.len(),
{
    if s.len() > 0 {
        let prev = keep_safe(cells, last, color, from, s.drop_last());
        if prev.contains(to) {
            lemma_keep_safe_safe(cells, last, color, from, s.drop_last(), to);
        } else {
            assert(s.last() == to);
        }
    }
}

proof fn lemma_king_index_found(cells: Seq<Option<ChessPiece>>, color: PieceColor, n: int)
    requires
        king_index(cells, color, n) is Some,
    ensures
        0 <= king_index(cells, color, n)->0 < n,
        cells[king_index(cells, color, n)->0] == Some(
            ChessPiece { piece_type: PieceType::King, color },
        ),
    decreases n,
{
    if n > 0 && king_index(cells, color, n - 1) is Some {
        lemma_king_index_found(cells, color, n - 1);
    }
}

proof fn lemma_king_index_same(
    a: Seq<Option<ChessPiece>>,
    b: Seq<Option<ChessPiece>>,
    color: PieceColor,
    n: int,
)
    requires
        forall|i: int|
            0 <= i < n ==> (a[i] == Some(ChessPiece { piece_type: PieceType::King, color })) == (
            b[i] == Some(ChessPiece { piece_type: PieceType::King, color })),
    ensures
        king_index(a, color, n) == king_index(b, color, n),
    decreases n,
{
    if n > 0 {
        lemma_king_index_same(a, b, color, n - 1);
    }
}

/// What the squares of `a` attack is attacked on `b` too, when the two differ
/// only on squares holding pieces of `color`, and no en passant square given by
/// `last_a` is `target`.
proof fn lemma_attacked_carries(
    a: Seq<Option<ChessPiece>>,
    last_a: Option<BoardMove>,
    b: Seq<Option<ChessPiece>>,
    last_b: Option<BoardMove>,
    color: PieceColor,
    target: BoardPosition,
    n: int,
)
    requires
        n <= 64,
        occ_of(a) == occ_of(b),
        forall|i: int|
            0 <= i < 64 && a[i] != b[i] ==> (a[i] is Some && a[i]->0.color == color),
        forall|x: int, y: int|
            #![trigger en_passant_target(opponent(color), x, y, last_a)]
            en_passant_target(opponent(color), x, y, last_a) != Some(target),
        attacked_upto(a, last_a, color, target, n),
    ensures
        attacked_upto(b, last_b, color, target, n),
    decreases n,
{
    if n > 0 {
        if attacked_upto(a, last_a, color, target, n - 1) {
            lemma_attacked_carries(a, last_a, b, last_b, color, target, n - 1);
        } else {
            let i = n - 1;
            let q = a[i]->0;
            let from = position_of(i);
            assert(b[i] == a[i]);
            let occ = occ_of(a);
            if q.piece_type == PieceType::Pawn {
                let x = from.col();
                let y = from.row();
                assert(q.color == opponent(color));
                let adv = pawn_advances(occ, q.color, x, y);
                let cap = pawn_captures(occ, q.color, x, y);
                let ea = option_seq(en_passant_target(q.color, x, y, last_a));
                let eb = option_seq(en_passant_target(q.color, x, y, last_b));
                assert(pawn_moves(occ, q.color, x, y, last_a) == adv + cap + ea);
                let k = choose|k: int| 0 <= k < (adv + cap + ea).len() && (adv + cap + ea)[k] == target;
                assert(k < adv.len() + cap.len());
                assert((adv + cap + eb)[k] == target);
            }
        }
    }
}

/// The square a pawn passes over when it advances two ranks is empty.
proof fn lemma_two_step_passes_empty(
    occ: Seq<Option<PieceColor>>,
    color: PieceColor,
    from: BoardPosition,
    last: Option<BoardMove>,
    to: BoardPosition,
)
    requires
        from.valid(),
        to.valid(),
        pawn_moves(occ, color, from.col(), from.row(), last).contains(to),
        abs(from.row() - to.row()) == 2,
    ensures
        to.col() == from.col(),
        to.row() == from.row() + 2 * forward(color),
        color_at(occ, from.col(), from.row() + forward(color)) is None,
{
    let x = from.col();
    let y = from.row();
    let adv = pawn_advances(occ, color, x, y);
    let cap = pawn_captures(occ, color, x, y);
    let e = option_seq(en_passant_target(color, x, y, last));
    let all = adv + cap + e;
    let k = choose|k: int| 0 <= k < all.len() && all[k] == to;
    if k >= adv.len() + cap.len() {
        assert(e[k - adv.len() - cap.len()] == to);
    } else if k >= adv.len() {
        assert(cap[k - adv.len()] == to);
    } else {
        assert(adv[k] == to);
    }
}

/// The squares a pawn takes are symmetric too: what a black pawn takes on a
/// move is what a white pawn takes on the mirrored move over the mirrored
/// board, mirrored back, the pawn taken en passant included.
pub proof fn law_pawn_takes_mirror(
    occ: Seq<Option<PieceColor>>,
    last: Option<BoardMove>,
    from: BoardPosition,
    to: BoardPosition,
)
    requires
        occ.len() == 64,
        from.valid(),
        to.valid(),
        last is Some ==> last->0.from.valid() && last->0.to.valid(),
    ensures
        takes_on_move(
            ChessPiece { piece_type: PieceType::Pawn, color: PieceColor::Black },
            occ,
            last,
            from,
            to,
        ) == takes_on_move(
            ChessPiece { piece_type: PieceType::Pawn, color: PieceColor::White },
            mirror_occ(occ),
            mirror_move(last),
            mirror(from),
            mirror(to),
        ).map_values(|p: BoardPosition| mirror(p)),
{
    let f = |p: BoardPosition| mirror(p);
    let mocc = mirror_occ(occ);
    let mlast = mirror_move(last);
    let mfrom = mirror(from);
    let mto = mirror(to);
    lemma_mirror_color(occ, to.col(), 7 - to.row());
    assert(mirror(mto) == to);
    assert(mfrom.col() == from.col() && mfrom.row() == 7 - from.row());
    assert(mto.col() == to.col() && mto.row() == 7 - to.row());
    lemma_mirror_en_passant(last, from.col(), from.row());
    let eb = en_passant_target(PieceColor::Black, from.col(), from.row(), last);
    let ew = en_passant_target(PieceColor::White, mfrom.col(), mfrom.row(), mlast);
    assert(option_seq(eb) =~= option_seq(ew).map_values(f));
    if ew is Some {
        assert(option_seq(eb)[0] == mirror(ew->0));
        assert(eb == Some(mirror(ew->0)));
        let t = ew->0;
        assert(t.valid());
        assert(mirror(mirror(t)) == t);
        assert((eb == Some(to)) == (ew == Some(mto)));
    } else {
        assert(eb is None);
    }
    let bt = takes_on_move(ChessPiece { piece_type: PieceType::Pawn, color: PieceColor::Black }, occ, last, from, to);
    let wt = takes_on_move(
        ChessPiece { piece_type: PieceType::Pawn, color: PieceColor::White },
        mocc,
        mlast,
        mfrom,
        mto,
    );
    if eb == Some(to) {
        assert(mirror(at(mto.col(), mto.row() - 1)) == at(to.col(), to.row() + 1));
    }
    assert(bt =~= wt.map_values(f));
}

/// A legal move never leaves the mover's own king in check. Castling and en
/// passant captures are left out: the castling squares are offered without
/// that check, and an en passant capture empties a second square.
pub proof fn law_legal_move_keeps_king_safe(
    before: CheckerBoard,
    after: CheckerBoard,
    from: BoardPosition,
    to: BoardPosition,
)
    requires
        from.valid(),
        to.valid(),
        before.legal(from, to),
        !castling_squares(before.cells(), before.last_move(), before.square(from)->0).contains(to),
        !(before.square(from)->0.piece_type == PieceType::Pawn && en_passant_target(
            before.square(from)->0.color,
            from.col(),
            from.row(),
            before.last_move(),
        ) == Some(to)),
        after.cells() == moved_cells(before.cells(), before.last_move(), from, to),
        after.history() == before.history().push(
            BoardMove { piece_type: before.square(from)->0.piece_type, from, to },
        ),
    ensures
        !after.in_check(before.square(from)->0.color),
{
    let cells = before.cells();
    let last = before.last_move();
    let p = before.square(from)->0;
    let c = p.color;
    let occ = occ_of(cells);
    lemma_cells_len(before);
    lemma_cells_len(after);
    lemma_position(from);
    lemma_position(to);
    assert(before.occ() =~= occ);
    // the move is one of the moves kept by the self-check filter
    let pseudo = pseudo_moves(p, occ, last, from);
    let kept = keep_safe(cells, last, c, from, pseudo);
    let castles = castling_squares(cells, last, p);
    assert(before.possible(from) == kept + castles);
    let k = choose|k: int| 0 <= k < (kept + castles).len() && (kept + castles)[k] == to;
    if k >= kept.len() {
        assert(castles[k - kept.len()] == to);
    }
    assert(kept[k] == to);
    lemma_keep_safe_safe(cells, last, c, from, pseudo, to);
    lemma_keep_safe_within(cells, last, c, from, pseudo, to);
    let f = force_moved(cells, from, to);
    let a = after.cells();
    let last_a = after.last_move();
    let ti = index_of(to);
    let fi = index_of(from);
    // the squares after the move differ from the forced move only on the destination
    let t = takes_on_move(p, occ, last, from, to);
    assert forall|i: int| 0 <= i < 64 && i != ti implies a[i] == f[i] by {
        lemma_index(i);
        if t.contains(position_of(i)) {
            let j = choose|j: int| 0 <= j < t.len() && t[j] == position_of(i);
            assert(t[j] == to);
        }
    }
    assert(a[ti] is Some && a[ti]->0.color == c);
    assert(f[ti] == Some(p));
    assert(occ_of(a) =~= occ_of(f));
    lemma_king_index_same(a, f, c, 64);
    if checked_in(a, last_a, c) {
        let ki = king_index(a, c, 64)->0;
        lemma_king_index_found(a, c, 64);
        let target = position_of(ki);
        assert forall|x: int, y: int|
            #![trigger en_passant_target(opponent(c), x, y, last_a)]
            en_passant_target(opponent(c), x, y, last_a) != Some(target) by {
            if en_passant_target(opponent(c), x, y, last_a) == Some(target) {
                assert(p.piece_type == PieceType::Pawn);
                lemma_two_step_passes_empty(occ, c, from, last, to);
                lemma_index(ki);
                let skipped = square_index(from.col(), from.row() + forward(c));
                assert(a[skipped] is None);
            }
        }
        lemma_attacked_carries(a, last_a, f, last, c, target, 64);
        assert(checked_in(f, last, c));
    }
}

} // verus!
