//! What check and checkmate mean, in terms of the pieces on the board.
use vstd::prelude::*;

use crate::game::GameView;
use crate::board::{cell, is_black, is_white, on_board, pos_moves, set_cell, Board};
use crate::rules::{
    after_cand, after_mate, check_state, mate_records_check, attacks, cands_of, cell_cands, in_check, is_mate, king_square, lands_ok, last_in_row,
    last_in_rows, mate_cands, row_cands_from, rows_cands_from, side_piece, Quad,
};

verus! {

proof fn lemma_last_in_row(b: Board, v: usize, r: int, n: nat)
    requires
        0 <= r < 8,
        n <= 8,
    ensures
        match last_in_row(b, v, r, n) {
            Some(t) => t.0 as int == r && 0 <= t.1 < n && cell(b, r, t.1 as int) == v && forall|c: int|
                t.1 < c < n ==> #[trigger] cell(b, r, c) != v,
            None => forall|c: int| 0 <= c < n ==> #[trigger] cell(b, r, c) != v,
        },
    decreases n,
{
    if n > 0 {
        lemma_last_in_row(b, v, r, (n - 1) as nat);
    }
}

proof fn lemma_last_in_rows(b: Board, v: usize, m: nat)
    requires
        m <= 8,
    ensures
        match last_in_rows(b, v, m) {
            Some(t) => 0 <= t.0 < m && 0 <= t.1 < 8 && cell(b, t.0 as int, t.1 as int) == v && forall|
                r: int,
                c: int,
            | 0 <= r < m && 0 <= c < 8 && (r > t.0 || (r == t.0 && c > t.1)) ==> #[trigger] cell(b, r, c) != v,
            None => forall|r: int, c: int| 0 <= r < m && 0 <= c < 8 ==> #[trigger] cell(b, r, c) != v,
        },
    decreases m,
{
    if m > 0 {
        lemma_last_in_rows(b, v, (m - 1) as nat);
        lemma_last_in_row(b, v, m - 1, 8);
    }
}

/// The king's square is the last square, in reading order, that holds its
/// code; there is none when no square holds it.
pub proof fn law_king_square_is_the_last_such_square(b: Board, v: usize)
    ensures
        match king_square(b, v) {
            Some(t) => on_board(t.0 as int, t.1 as int) && cell(b, t.0 as int, t.1 as int) == v && forall|
                r: int,
                c: int,
            | on_board(r, c) && (r > t.0 || (r == t.0 && c > t.1)) ==> #[trigger] cell(b, r, c) != v,
            None => forall|r: int, c: int| on_board(r, c) ==> #[trigger] cell(b, r, c) != v,
        },
{
    lemma_last_in_rows(b, v, 8);
}

/// A pawn gives check to the other king standing diagonally in front of
/// it: a white pawn on (`r`, `c`) to the black king on row `r - 1`, a
/// black pawn to the white king on row `r + 1`, in column `c - 1` or
/// `c + 1`.
pub proof fn law_pawn_gives_check(b: Board, r: int, c: int)
    requires
        on_board(r, c),
    ensures
        cell(b, r, c) == 12 && (king_square(b, 5) == Some(((r - 1) as i32, (c - 1) as i32)) || king_square(
            b,
            5,
        ) == Some(((r - 1) as i32, (c + 1) as i32))) ==> in_check(b, 5),
        cell(b, r, c) == 6 && (king_square(b, 11) == Some(((r + 1) as i32, (c - 1) as i32)) || king_square(
            b,
            11,
        ) == Some(((r + 1) as i32, (c + 1) as i32))) ==> in_check(b, 11),
{
    reveal(in_check);
    if cell(b, r, c) == 12 && (king_square(b, 5) == Some(((r - 1) as i32, (c - 1) as i32)) || king_square(
        b,
        5,
    ) == Some(((r - 1) as i32, (c + 1) as i32))) {
        assert(attacks(b, 5, r, c, king_square(b, 5)->Some_0));
    }
    if cell(b, r, c) == 6 && (king_square(b, 11) == Some(((r + 1) as i32, (c - 1) as i32)) || king_square(
        b,
        11,
    ) == Some(((r + 1) as i32, (c + 1) as i32))) {
        assert(attacks(b, 11, r, c, king_square(b, 11)->Some_0));
    }
}

/// A piece other than a pawn gives check to the other king when the
/// king's square is among its generated moves.
pub proof fn law_reaching_piece_gives_check(b: Board, r: int, c: int)
    requires
        on_board(r, c),
    ensures
        7 <= cell(b, r, c) <= 11 && king_square(b, 5) is Some && pos_moves(b, cell(b, r, c) as i32, r, c).contains(
            king_square(b, 5)->Some_0,
        ) ==> in_check(b, 5),
        1 <= cell(b, r, c) <= 5 && king_square(b, 11) is Some && pos_moves(b, cell(b, r, c) as i32, r, c).contains(
            king_square(b, 11)->Some_0,
        ) ==> in_check(b, 11),
{
    reveal(in_check);
    if 7 <= cell(b, r, c) <= 11 && king_square(b, 5) is Some && pos_moves(b, cell(b, r, c) as i32, r, c).contains(
        king_square(b, 5)->Some_0,
    ) {
        assert(attacks(b, 5, r, c, king_square(b, 5)->Some_0));
    }
    if 1 <= cell(b, r, c) <= 5 && king_square(b, 11) is Some && pos_moves(b, cell(b, r, c) as i32, r, c).contains(
        king_square(b, 11)->Some_0,
    ) {
        assert(attacks(b, 11, r, c, king_square(b, 11)->Some_0));
    }
}

/// The other side threatens square `t`, as the checking rule reads it:
/// a piece other than a pawn by its generated moves, a pawn by its two
/// diagonal squares in front.
pub open spec fn threatened_by(b: Board, k: i32, r: int, c: int, t: (i32, i32)) -> bool {
    let v = cell(b, r, c);
    if k == 5 {
        (7 <= v <= 11 && pos_moves(b, v as i32, r, c).contains(t)) || (v == 12 && t.0 == r - 1 && (t.1 == c
            - 1 || t.1 == c + 1))
    } else {
        (1 <= v <= 5 && pos_moves(b, v as i32, r, c).contains(t)) || (v == 6 && t.0 == r + 1 && (t.1 == c
            - 1 || t.1 == c + 1))
    }
}

/// A king is in check exactly when it stands on the board and a piece of
/// the other side threatens its square; only codes 5 and 11 are kings.
pub proof fn law_check_needs_an_attacker(b: Board, k: i32)
    ensures
        in_check(b, k) <==> (k == 5 || k == 11) && king_square(b, k as usize) is Some && exists|r: int, c: int|
            on_board(r, c) && #[trigger] threatened_by(b, k, r, c, king_square(b, k as usize)->Some_0),
{
    reveal(in_check);
    if k == 5 || k == 11 {
        if let Some(t) = king_square(b, k as usize) {
            assert forall|r: int, c: int| on_board(r, c) implies #[trigger] attacks(b, k, r, c, t)
                == threatened_by(b, k, r, c, t) by {}
            if in_check(b, k) {
                let (r, c) = choose|r: int, c: int| on_board(r, c) && #[trigger] attacks(b, k, r, c, t);
                assert(threatened_by(b, k, r, c, t));
            }
            if exists|r: int, c: int| on_board(r, c) && #[trigger] threatened_by(b, k, r, c, t) {
                let (r, c) = choose|r: int, c: int| on_board(r, c) && #[trigger] threatened_by(b, k, r, c, t);
                assert(attacks(b, k, r, c, t));
            }
        }
    }
}

proof fn lemma_cands_of(b: Board, r: int, c: int, ms: Seq<(i32, i32)>, q: Quad)
    ensures
        cands_of(b, r, c, ms).contains(q) <==> q.0 == r && q.1 == c && on_board(q.2, q.3) && lands_ok(
            cell(b, r, c),
            cell(b, q.2, q.3),
        ) && ms.contains((q.2 as i32, q.3 as i32)),
    decreases ms.len(),
{
    if ms.len() > 0 {
        let m = ms[0];
        let rest = cands_of(b, r, c, ms.drop_first());
        lemma_cands_of(b, r, c, ms.drop_first(), q);
        let ok = on_board(m.0 as int, m.1 as int) && lands_ok(cell(b, r, c), cell(b, m.0 as int, m.1 as int));
        let head: Quad = (r, c, m.0 as int, m.1 as int);
        if ok {
            assert(cands_of(b, r, c, ms) == seq![head] + rest);
            crate::movement::lemma_contains_concat(seq![head], rest, q);
            assert(seq![head].contains(q) <==> q == head) by {
                if seq![head].contains(q) {
                    assert(seq![head][0] == q);
                }
                if q == head {
                    assert(seq![head][0] == q);
                }
            }
        }
        crate::movement::lemma_contains_concat(seq![m], ms.drop_first(), (q.2 as i32, q.3 as i32));
        assert(ms == seq![m] + ms.drop_first());
        assert(seq![m].contains((q.2 as i32, q.3 as i32)) <==> m == (q.2 as i32, q.3 as i32)) by {
            if seq![m].contains((q.2 as i32, q.3 as i32)) {
                assert(seq![m][0] == (q.2 as i32, q.3 as i32));
            }
            if m == (q.2 as i32, q.3 as i32) {
                assert(seq![m][0] == m);
            }
        }
    }
}

proof fn lemma_cell_cands(b: Board, k: i32, r: int, c: int, q: Quad)
    ensures
        cell_cands(b, k, r, c).contains(q) <==> q.0 == r && q.1 == c && side_piece(k, cell(b, r, c))
            && on_board(q.2, q.3) && lands_ok(cell(b, r, c), cell(b, q.2, q.3)) && pos_moves(
            b,
            cell(b, r, c) as i32,
            r,
            c,
        ).contains((q.2 as i32, q.3 as i32)),
{
    lemma_cands_of(b, r, c, pos_moves(b, cell(b, r, c) as i32, r, c), q);
}

proof fn lemma_row_cands(b: Board, k: i32, r: int, c0: int, q: Quad)
    ensures
        row_cands_from(b, k, r, c0).contains(q) <==> q.0 == r && c0 <= q.1 < 8 && cell_cands(
            b,
            k,
            r,
            q.1,
        ).contains(q),
    decreases 8 - c0,
{
    if c0 < 8 {
        lemma_row_cands(b, k, r, c0 + 1, q);
        lemma_cell_cands(b, k, r, c0, q);
        lemma_cell_cands(b, k, r, q.1, q);
        crate::movement::lemma_contains_concat(cell_cands(b, k, r, c0), row_cands_from(b, k, r, c0 + 1), q);
    }
}

proof fn lemma_rows_cands(b: Board, k: i32, r0: int, q: Quad)
    ensures
        rows_cands_from(b, k, r0).contains(q) <==> r0 <= q.0 < 8 && 0 <= q.1 < 8 && cell_cands(
            b,
            k,
            q.0,
            q.1,
        ).contains(q),
    decreases 8 - r0,
{
    if r0 < 8 {
        lemma_rows_cands(b, k, r0 + 1, q);
        lemma_row_cands(b, k, r0, 0, q);
        crate::movement::lemma_contains_concat(row_cands_from(b, k, r0, 0), rows_cands_from(b, k, r0 + 1), q);
    }
}

/// The board after the piece on (`r`, `c`) goes to (`tr`, `tc`), taking
/// whatever stood there.
pub open spec fn moved(b: Board, r: int, c: int, tr: int, tc: int) -> Board {
    set_cell(set_cell(b, tr, tc, cell(b, r, c)), r, c, 0)
}

/// A try to get king `k` out of check: a piece of its side on (`r`, `c`)
/// goes to one of its generated moves (`tr`, `tc`) on the board, onto an
/// empty square or onto a piece of the other side.
pub open spec fn escape_try(b: Board, k: i32, r: int, c: int, tr: int, tc: int) -> bool {
    let v = cell(b, r, c);
    let w = cell(b, tr, tc);
    &&& on_board(r, c)
    &&& on_board(tr, tc)
    &&& (k == 5 && is_black(v) && (w == 0 || is_white(w))) || (k == 11 && is_white(v) && (w == 0 || is_black(w)))
    &&& pos_moves(b, v as i32, r, c).contains((tr as i32, tc as i32))
}

/// King `k` is mated exactly when every try of its side, captures
/// included, leaves it in check.
pub proof fn law_mate_means_no_escape(b: Board, k: i32)
    ensures
        is_mate(b, k) <==> forall|r: int, c: int, tr: int, tc: int|
            #[trigger] escape_try(b, k, r, c, tr, tc) ==> in_check(moved(b, r, c, tr, tc), k),
{
    reveal(is_mate);
    let cs = mate_cands(b, k);
    assert forall|q: Quad| #[trigger] cs.contains(q) <==> escape_try(b, k, q.0, q.1, q.2, q.3) by {
        lemma_rows_cands(b, k, 0, q);
        lemma_cell_cands(b, k, q.0, q.1, q);
    }
    if is_mate(b, k) {
        assert forall|r: int, c: int, tr: int, tc: int| #[trigger] escape_try(b, k, r, c, tr, tc) implies in_check(
            moved(b, r, c, tr, tc),
            k,
        ) by {
            let q: Quad = (r, c, tr, tc);
            assert(cs.contains(q));
            let j = choose|j: int| 0 <= j < cs.len() && cs[j] == q;
            assert(in_check(after_cand(b, cs[j]), k));
        }
    }
    if forall|r: int, c: int, tr: int, tc: int|
        #[trigger] escape_try(b, k, r, c, tr, tc) ==> in_check(moved(b, r, c, tr, tc), k) {
        assert forall|j: int| 0 <= j < cs.len() implies in_check(#[trigger] after_cand(b, cs[j]), k) by {
            let q = cs[j];
            assert(cs.contains(q));
            assert(escape_try(b, k, q.0, q.1, q.2, q.3));
        }
    }
}

/// The checkmate search records a check on king `k` when it tries a move
/// that leaves the king in check: always when the king is mated and its
/// side has a move to try, never when there is none. Nothing but the
/// state changes.
pub proof fn law_mate_search_records_check(g: GameView, k: i32)
    ensures
        is_mate(g.board, k) && (exists|r: int, c: int, tr: int, tc: int| #[trigger] escape_try(g.board, k, r, c, tr, tc))
            ==> after_mate(g, k) == (GameView { game_state: check_state(k), ..g }),
        !(exists|r: int, c: int, tr: int, tc: int| #[trigger] escape_try(g.board, k, r, c, tr, tc))
            ==> after_mate(g, k) == g,
        after_mate(g, k) == g || after_mate(g, k) == (GameView { game_state: check_state(k), ..g }),
{
    reveal(mate_records_check);
    reveal(is_mate);
    let b = g.board;
    let cs = mate_cands(b, k);
    if exists|r: int, c: int, tr: int, tc: int| #[trigger] escape_try(b, k, r, c, tr, tc) {
        let (r, c, tr, tc) = choose|r: int, c: int, tr: int, tc: int| #[trigger] escape_try(b, k, r, c, tr, tc);
        let q: Quad = (r, c, tr, tc);
        lemma_rows_cands(b, k, 0, q);
        lemma_cell_cands(b, k, r, c, q);
        assert(cs.contains(q));
        if is_mate(b, k) {
            assert(in_check(after_cand(b, cs[0]), k));
        }
    } else {
        if cs.len() > 0 {
            let q = cs[0];
            assert(cs.contains(q));
            lemma_rows_cands(b, k, 0, q);
            lemma_cell_cands(b, k, q.0, q.1, q);
            assert(escape_try(b, k, q.0, q.1, q.2, q.3));
        }
    }
}

} // verus!
