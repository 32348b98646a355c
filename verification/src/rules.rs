//! Check, checkmate, and whether a move may be played.
use vstd::prelude::*;

use crate::board::{
    cell, get_pos_moves, holds_square, is_black, is_white, no_black_pawn_on_home_rank, on_board,
    pos_moves, set_cell, Board,
};
use crate::game::{Game, GameState, GameView, MoveInfo, Round};

verus! {

// ---------------------------------------------------------------------------
// Where a king stands
// ---------------------------------------------------------------------------

/// The last square holding `v` among columns `0..n` of row `r`.
pub open spec fn last_in_row(b: Board, v: usize, r: int, n: nat) -> Option<(i32, i32)>
    decreases n,
{
    if n == 0 {
        None
    } else if cell(b, r, n - 1) == v {
        Some((r as i32, (n - 1) as i32))
    } else {
        last_in_row(b, v, r, (n - 1) as nat)
    }
}

/// The last square, in reading order, holding `v` among rows `0..m`.
pub open spec fn last_in_rows(b: Board, v: usize, m: nat) -> Option<(i32, i32)>
    decreases m,
{
    if m == 0 {
        None
    } else {
        match last_in_row(b, v, m - 1, 8) {
            Some(p) => Some(p),
            None => last_in_rows(b, v, (m - 1) as nat),
        }
    }
}

/// The square of the king coded `v`: the last one in reading order when the
/// board holds more than one.
pub open spec fn king_square(b: Board, v: usize) -> Option<(i32, i32)> {
    last_in_rows(b, v, 8)
}

// ---------------------------------------------------------------------------
// Check
// ---------------------------------------------------------------------------

/// The piece on (`r`, `c`) threatens square `t` of the king coded `k`:
/// a piece of the other side may go there, a pawn by its diagonal steps
/// forward.
pub open spec fn attacks(b: Board, k: i32, r: int, c: int, t: (i32, i32)) -> bool {
    let v = cell(b, r, c);
    if k == 11 {
        if 1 <= v <= 5 {
            pos_moves(b, v as i32, r, c).contains(t)
        } else if v == 6 {
            t == ((r + 1) as i32, (c + 1) as i32) || t == ((r + 1) as i32, (c - 1) as i32)
        } else {
            false
        }
    } else if k == 5 {
        if 7 <= v <= 11 {
            pos_moves(b, v as i32, r, c).contains(t)
        } else if v == 12 {
            t == ((r - 1) as i32, (c + 1) as i32) || t == ((r - 1) as i32, (c - 1) as i32)
        } else {
            false
        }
    } else {
        false
    }
}

/// Some piece of the board threatens square `t` of king `k`.
pub open spec fn attacked(b: Board, k: i32, t: (i32, i32)) -> bool {
    exists|r: int, c: int| on_board(r, c) && #[trigger] attacks(b, k, r, c, t)
}

/// The king coded `k` (5 black, 11 white) stands on the board and is
/// threatened.
#[verifier::opaque]
pub open spec fn in_check(b: Board, k: i32) -> bool {
    if k == 5 || k == 11 {
        match king_square(b, k as usize) {
            Some(t) => attacked(b, k, t),
            None => false,
        }
    } else {
        false
    }
}

/// The state that a check on king `k` records.
pub open spec fn check_state(k: i32) -> GameState {
    if k == 5 {
        GameState::BlackCheck
    } else {
        GameState::WhiteCheck
    }
}

/// The game after asking whether king `k` is in check.
pub open spec fn after_check(g: GameView, k: i32) -> GameView {
    if in_check(g.board, k) {
        GameView { game_state: check_state(k), ..g }
    } else {
        g
    }
}

fn find_piece(b: &Board, v: usize) -> (r: Option<(i32, i32)>)
    ensures
        r == king_square(*b, v),
{
    let mut found: Option<(i32, i32)> = None;
    let mut row: usize = 0;
    while row < 8
        invariant
            row <= 8,
            found == last_in_rows(*b, v, row as nat),
        decreases 8 - row,
    {
        let mut col: usize = 0;
        let ghost before = found;
        while col < 8
            invariant
                row < 8,
                col <= 8,
                before == last_in_rows(*b, v, row as nat),
                found == (match last_in_row(*b, v, row as int, col as nat) {
                    Some(p) => Some(p),
                    None => before,
                }),
            decreases 8 - col,
        {
            if b[row][col] == v {
                found = Some((row as i32, col as i32));
            }
            col += 1;
        }
        row += 1;
    }
    found
}

/// Whether the piece on (`row`, `col`) threatens `t` of king `k`.
fn piece_attacks(b: &Board, k: i32, row: usize, col: usize, t: (i32, i32)) -> (r: bool)
    requires
        row < 8,
        col < 8,
    ensures
        r == attacks(*b, k, row as int, col as int, t),
{
    let v = b[row][col];
    let r = row as i32;
    let c = col as i32;
    if k == 11 {
        if 1 <= v && v <= 5 {
            let ms = get_pos_moves(b, v as i32, r, c);
            holds_square(&ms, t)
        } else if v == 6 {
            (t.0 == r + 1 && t.1 == c + 1) || (t.0 == r + 1 && t.1 == c - 1)
        } else {
            false
        }
    } else if k == 5 {
        if 7 <= v && v <= 11 {
            let ms = get_pos_moves(b, v as i32, r, c);
            holds_square(&ms, t)
        } else if v == 12 {
            (t.0 == r - 1 && t.1 == c + 1) || (t.0 == r - 1 && t.1 == c - 1)
        } else {
            false
        }
    } else {
        false
    }
}

/// Whether some piece threatens `t` of king `k`.
fn square_attacked(b: &Board, k: i32, t: (i32, i32)) -> (r: bool)
    ensures
        r == attacked(*b, k, t),
{
    let mut row: usize = 0;
    while row < 8
        invariant
            row <= 8,
            forall|rr: int, cc: int| 0 <= rr < row && 0 <= cc < 8 ==> !#[trigger] attacks(*b, k, rr, cc, t),
        decreases 8 - row,
    {
        let mut col: usize = 0;
        while col < 8
            invariant
                row < 8,
                col <= 8,
                forall|rr: int, cc: int| 0 <= rr < row && 0 <= cc < 8 ==> !#[trigger] attacks(*b, k, rr, cc, t),
                forall|cc: int| 0 <= cc < col ==> !#[trigger] attacks(*b, k, row as int, cc, t),
            decreases 8 - col,
        {
            if piece_attacks(b, k, row, col, t) {
                assert(on_board(row as int, col as int));
                return true;
            }
            col += 1;
        }
        row += 1;
    }
    assert forall|rr: int, cc: int| on_board(rr, cc) implies !#[trigger] attacks(*b, k, rr, cc, t) by {}
    false
}

/// Whether king `k` of board `b` is in check.
pub fn king_in_check(b: &Board, k: i32) -> (r: bool)
    ensures
        r == in_check(*b, k),
{
    reveal(in_check);
    if k == 5 || k == 11 {
        match find_piece(b, k as usize) {
            Some(t) => square_attacked(b, k, t),
            None => false,
        }
    } else {
        false
    }
}

/// Whether king `k` (5 black, 11 white) is in check; when it is, the game
/// records that check.
pub fn check(se: &mut Game, k: i32) -> (r: bool)
    ensures
        r == in_check(old(se)@.board, k),
        final(se)@ == after_check(old(se)@, k),
{
    let r = king_in_check(&se.board, k);
    if r {
        if k == 5 {
            se.game_state = GameState::BlackCheck;
        } else {
            se.game_state = GameState::WhiteCheck;
        }
    }
    r
}

// ---------------------------------------------------------------------------
// Checkmate
// ---------------------------------------------------------------------------

/// A candidate move: from (`.0`, `.1`) to (`.2`, `.3`).
pub type Quad = (int, int, int, int);

/// The piece coded `v` belongs to the side of king `k`.
pub open spec fn side_piece(k: i32, v: usize) -> bool {
    (k == 5 && is_black(v)) || (k == 11 && is_white(v))
}

/// A piece coded `from` may land on a square holding `to`: black onto an
/// empty or white square, white onto an empty or black one.
pub open spec fn lands_ok(from: usize, to: usize) -> bool {
    (is_black(from) && (to == 0 || is_white(to))) || (is_white(from) && to <= 6)
}

/// The candidates, in order, of the piece on (`r`, `c`) among the squares `ms`.
pub open spec fn cands_of(b: Board, r: int, c: int, ms: Seq<(i32, i32)>) -> Seq<Quad>
    decreases ms.len(),
{
    if ms.len() == 0 {
        seq![]
    } else {
        let m = ms[0];
        let rest = cands_of(b, r, c, ms.drop_first());
        if on_board(m.0 as int, m.1 as int) && lands_ok(cell(b, r, c), cell(b, m.0 as int, m.1 as int)) {
            seq![(r, c, m.0 as int, m.1 as int)] + rest
        } else {
            rest
        }
    }
}

/// The candidate moves of the piece on (`r`, `c`) for the side of king `k`.
pub open spec fn cell_cands(b: Board, k: i32, r: int, c: int) -> Seq<Quad> {
    if side_piece(k, cell(b, r, c)) {
        cands_of(b, r, c, pos_moves(b, cell(b, r, c) as i32, r, c))
    } else {
        seq![]
    }
}

/// The candidates of the pieces on columns `c..8` of row `r`.
pub open spec fn row_cands_from(b: Board, k: i32, r: int, c: int) -> Seq<Quad>
    decreases 8 - c,
{
    if c >= 8 {
        seq![]
    } else {
        cell_cands(b, k, r, c) + row_cands_from(b, k, r, c + 1)
    }
}

/// The candidates of the pieces on rows `r..8`.
pub open spec fn rows_cands_from(b: Board, k: i32, r: int) -> Seq<Quad>
    decreases 8 - r,
{
    if r >= 8 {
        seq![]
    } else {
        row_cands_from(b, k, r, 0) + rows_cands_from(b, k, r + 1)
    }
}

/// Every move, in reading order of the pieces, that the side of king `k`
/// may try to escape a check with.
pub open spec fn mate_cands(b: Board, k: i32) -> Seq<Quad> {
    rows_cands_from(b, k, 0)
}

/// `b` after the candidate move `q`.
pub open spec fn after_cand(b: Board, q: Quad) -> Board {
    set_cell(set_cell(b, q.2, q.3, cell(b, q.0, q.1)), q.0, q.1, 0)
}

/// No candidate move takes king `k` out of check.
#[verifier::opaque]
pub open spec fn is_mate(b: Board, k: i32) -> bool {
    forall|j: int|
        0 <= j < mate_cands(b, k).len() ==> in_check(#[trigger] after_cand(b, mate_cands(b, k)[j]), k)
}

/// The search tries at least one candidate that leaves king `k` in check,
/// which records that check.
#[verifier::opaque]
pub open spec fn mate_records_check(b: Board, k: i32) -> bool {
    mate_cands(b, k).len() > 0 && in_check(after_cand(b, mate_cands(b, k)[0]), k)
}

/// Generating the candidates of king `k`'s side reads only the board.
pub open spec fn mate_defined(b: Board, k: i32) -> bool {
    k == 5 ==> no_black_pawn_on_home_rank(b)
}

/// The game after the checkmate search for king `k`.
pub open spec fn after_mate(g: GameView, k: i32) -> GameView {
    if mate_records_check(g.board, k) {
        GameView { game_state: check_state(k), ..g }
    } else {
        g
    }
}

/// Searches the candidates in order: (no escape found, some candidate left
/// the king in check).
pub(crate) fn mate_search(b: &Board, k: i32) -> (r: (bool, bool))
    requires
        mate_defined(*b, k),
    ensures
        r.0 == is_mate(*b, k),
        r.1 == mate_records_check(*b, k),
{
    reveal(is_mate);
    reveal(mate_records_check);
    let ghost full = mate_cands(*b, k);
    let ghost mut done: Seq<Quad> = seq![];
    let mut tried_any = false;
    let mut row: usize = 0;
    while row < 8
        invariant
            row <= 8,
            mate_defined(*b, k),
            full == mate_cands(*b, k),
            done + rows_cands_from(*b, k, row as int) == full,
            forall|j: int| 0 <= j < done.len() ==> in_check(#[trigger] after_cand(*b, done[j]), k),
            tried_any == (done.len() > 0),
        decreases 8 - row,
    {
        let mut col: usize = 0;
        assert(rows_cands_from(*b, k, row as int) == row_cands_from(*b, k, row as int, 0)
            + rows_cands_from(*b, k, row + 1));
        assert(done + rows_cands_from(*b, k, row as int) =~= done + row_cands_from(*b, k, row as int, 0)
            + rows_cands_from(*b, k, row + 1));
        while col < 8
            invariant
                row < 8,
                col <= 8,
                mate_defined(*b, k),
                full == mate_cands(*b, k),
                done + row_cands_from(*b, k, row as int, col as int) + rows_cands_from(*b, k, row + 1)
                    == full,
                forall|j: int| 0 <= j < done.len() ==> in_check(#[trigger] after_cand(*b, done[j]), k),
                tried_any == (done.len() > 0),
            decreases 8 - col,
        {
            let v = b[row][col];
            assert(row_cands_from(*b, k, row as int, col as int) == cell_cands(*b, k, row as int, col as int)
                + row_cands_from(*b, k, row as int, col + 1));
            assert(done + row_cands_from(*b, k, row as int, col as int) + rows_cands_from(*b, k, row + 1)
                =~= done + cell_cands(*b, k, row as int, col as int) + row_cands_from(*b, k, row as int, col + 1)
                + rows_cands_from(*b, k, row + 1));
            if (k == 5 && 1 <= v && v <= 6) || (k == 11 && 7 <= v && v <= 12) {
                assert(v != 6 || row != 0) by {
                    if v == 6 {
                        assert(cell(*b, 0, col as int) != 6);
                    }
                }
                let ms = get_pos_moves(b, v as i32, row as i32, col as i32);
                let ghost rest = row_cands_from(*b, k, row as int, col + 1) + rows_cands_from(*b, k, row + 1);
                let mut t: usize = 0;
                assert(ms@.skip(0) =~= ms@);
                assert(cell_cands(*b, k, row as int, col as int) == cands_of(*b, row as int, col as int, ms@));
                assert(done + cell_cands(*b, k, row as int, col as int) + row_cands_from(*b, k, row as int, col + 1)
                    + rows_cands_from(*b, k, row + 1) =~= done + cands_of(*b, row as int, col as int, ms@.skip(0)) + rest);
                while t < ms.len()
                    invariant
                        row < 8,
                        col < 8,
                        v == cell(*b, row as int, col as int),
                        side_piece(k, v),
                        ms@ == pos_moves(*b, v as i32, row as int, col as int),
                        t <= ms.len(),
                        full == mate_cands(*b, k),
                        done + cands_of(*b, row as int, col as int, ms@.skip(t as int)) + rest == full,
                        forall|j: int| 0 <= j < done.len() ==> in_check(#[trigger] after_cand(*b, done[j]), k),
                        tried_any == (done.len() > 0),
                    decreases ms.len() - t,
                {
                    let m = ms[t];
                    assert(ms@.skip(t as int).drop_first() =~= ms@.skip(t + 1));
                    assert(ms@.skip(t as int)[0] == m);
                    if 0 <= m.0 && m.0 < 8 && 0 <= m.1 && m.1 < 8 {
                        let x = m.0 as usize;
                        let y = m.1 as usize;
                        let w = b[x][y];
                        if (1 <= v && v <= 6 && (w == 0 || (7 <= w && w <= 12))) || (7 <= v && v <= 12
                            && w <= 6) {
                            let ghost q: Quad = (row as int, col as int, x as int, y as int);
                            let mut nb = *b;
                            nb[x][y] = nb[row][col];
                            nb[row][col] = 0;
                            assert(nb == after_cand(*b, q));
                            let escapes = !king_in_check(&nb, k);
                            assert(done + cands_of(*b, row as int, col as int, ms@.skip(t as int)) + rest
                                =~= done.push(q) + cands_of(*b, row as int, col as int, ms@.skip(t + 1)) + rest);
                            if escapes {
                                assert(full[done.len() as int] == q);
                                assert(!in_check(after_cand(*b, full[done.len() as int]), k));
                                proof {
                                    reveal(is_mate);
                                    reveal(mate_records_check);
                                }
                                assert(tried_any ==> full[0] == done[0]);
                                assert(tried_any ==> in_check(after_cand(*b, done[0]), k));
                                return (false, tried_any);
                            }
                            proof {
                                done = done.push(q);
                            }
                            tried_any = true;
                        }
                    }
                    t += 1;
                }
                assert(ms@.skip(t as int) =~= Seq::<(i32, i32)>::empty());
                assert(done + cands_of(*b, row as int, col as int, ms@.skip(t as int)) + rest =~= done
                    + row_cands_from(*b, k, row as int, col + 1) + rows_cands_from(*b, k, row + 1));
            } else {
                assert(cell_cands(*b, k, row as int, col as int) =~= Seq::<Quad>::empty());
                assert(done + cell_cands(*b, k, row as int, col as int) + row_cands_from(*b, k, row as int, col + 1)
                    + rows_cands_from(*b, k, row + 1) =~= done + row_cands_from(*b, k, row as int, col + 1)
                    + rows_cands_from(*b, k, row + 1));
            }
            col += 1;
        }
        assert(row_cands_from(*b, k, row as int, 8) =~= Seq::<Quad>::empty());
        assert(done + row_cands_from(*b, k, row as int, 8) + rows_cands_from(*b, k, row + 1) =~= done
            + rows_cands_from(*b, k, row + 1));
        row += 1;
    }
    assert(rows_cands_from(*b, k, 8) =~= Seq::<Quad>::empty());
    assert(done =~= full);
    (true, tried_any)
}

/// Whether king `k` is checkmated: no move of its side, tried in order,
/// leaves it out of check.  Each tried move that leaves it in check
/// records that check in the game; the board ends as it was.
pub fn mate(se: &mut Game, k: i32) -> (r: bool)
    requires
        mate_defined(old(se)@.board, k),
    ensures
        r == is_mate(old(se)@.board, k),
        final(se)@ == after_mate(old(se)@, k),
{
    let (r, recorded) = mate_search(&se.board, k);
    if recorded {
        if k == 5 {
            se.game_state = GameState::BlackCheck;
        } else {
            se.game_state = GameState::WhiteCheck;
        }
    }
    r
}

// ---------------------------------------------------------------------------
// Whether a move may be played
// ---------------------------------------------------------------------------

/// The decisions that `can_move` takes before generating the piece's moves:
/// `Some(answer)`, or `None` when the generated moves decide.
pub open spec fn can_move_early(g: GameView, or: int, oc: int, nr: int, nc: int) -> Option<bool> {
    let b = g.board;
    let p = cell(b, or, oc);
    let t = cell(b, nr, nc);
    if p == 0 {
        Some(false)
    } else if is_black(p) && g.round == Round::White {
        Some(false)
    } else if is_white(p) && g.round == Round::Black {
        Some(false)
    } else if g.game_state != GameState::BlackCheck && p == 5 && t == 1 && !g.bk_moved && ((nc == 0
        && !g.lbr_moved && cell(b, 0, 1) == 0 && cell(b, 0, 2) == 0 && cell(b, 0, 3) == 0) || (nc == 7
        && !g.rbr_moved && cell(b, 0, 5) == 0 && cell(b, 0, 6) == 0)) {
        Some(true)
    } else if g.game_state != GameState::WhiteCheck && p == 11 && t == 7 && !g.wk_moved && ((nc == 0
        && !g.lwr_moved && cell(b, 7, 1) == 0 && cell(b, 7, 2) == 0 && cell(b, 7, 3) == 0) || (nc == 7
        && !g.rwr_moved && cell(b, 7, 5) == 0 && cell(b, 7, 6) == 0)) {
        Some(true)
    } else if g.game_state != GameState::WhiteCheck && ((is_black(p) && is_black(t)) || (is_white(p)
        && is_white(t))) {
        Some(false)
    } else {
        None
    }
}

/// The piece on (`or`, `oc`) may go to (`nr`, `nc`): it belongs to the side
/// to move and castles, or the square is among its generated moves.
pub open spec fn can_move_spec(g: GameView, or: int, oc: int, nr: int, nc: int) -> bool {
    match can_move_early(g, or, oc, nr, nc) {
        Some(r) => r,
        None => pos_moves(g.board, cell(g.board, or, oc) as i32, or, oc).contains((nr as i32, nc as i32)),
    }
}

/// Deciding the move looks at the target square: the piece belongs to the
/// side to move, and it is the black king while black is not in check, or
/// a piece of either side while white is not in check.
pub open spec fn reads_target(g: GameView, or: int, oc: int) -> bool {
    let p = cell(g.board, or, oc);
    &&& p != 0
    &&& !(is_black(p) && g.round == Round::White)
    &&& !(is_white(p) && g.round == Round::Black)
    &&& ((p == 5 && g.game_state != GameState::BlackCheck) || (1 <= p <= 12 && g.game_state
        != GameState::WhiteCheck))
}

/// Deciding the move reads only squares of the board: the starting square
/// is on it, so is the target wherever it is looked at, and no black pawn
/// on row 0 has its moves generated.
pub open spec fn can_move_defined(g: GameView, or: int, oc: int, nr: int, nc: int) -> bool {
    &&& on_board(or, oc)
    &&& (on_board(nr, nc) || !reads_target(g, or, oc))
    &&& (can_move_early(g, or, oc, nr, nc) is Some || !((cell(g.board, or, oc) as i32) == 6 && or
        == 0))
}

/// The game after asking whether a move may be played: a refused move is
/// recorded as invalid.
pub open spec fn after_can_move(g: GameView, or: int, oc: int, nr: int, nc: int) -> GameView {
    if can_move_spec(g, or, oc, nr, nc) {
        g
    } else {
        GameView { move_info: MoveInfo::InValid, ..g }
    }
}

/// The early decisions of [`can_move`].
pub fn can_move_early_exec(se: &Game, or: u32, oc: u32, nr: u32, nc: u32) -> (r: Option<bool>)
    requires
        or < 8,
        oc < 8,
        (nr < 8 && nc < 8) || !reads_target(se@, or as int, oc as int),
    ensures
        r == can_move_early(se@, or as int, oc as int, nr as int, nc as int),
{
    let b = &se.board;
    let p = b[or as usize][oc as usize];
    if p == 0 {
        Some(false)
    } else if 1 <= p && p <= 6 && se.round == Round::White {
        Some(false)
    } else if 7 <= p && p <= 12 && se.round == Round::Black {
        Some(false)
    } else if se.game_state != GameState::BlackCheck && p == 5 && b[nr as usize][nc as usize] == 1
        && !se.bk_moved && ((nc == 0 && !se.lbr_moved && b[0][1] == 0 && b[0][2] == 0 && b[0][3]
        == 0) || (nc == 7 && !se.rbr_moved && b[0][5] == 0 && b[0][6] == 0)) {
        Some(true)
    } else if se.game_state != GameState::WhiteCheck && p == 11 && b[nr as usize][nc as usize] == 7
        && !se.wk_moved && ((nc == 0 && !se.lwr_moved && b[7][1] == 0 && b[7][2] == 0 && b[7][3]
        == 0) || (nc == 7 && !se.rwr_moved && b[7][5] == 0 && b[7][6] == 0)) {
        Some(true)
    } else if se.game_state != GameState::WhiteCheck && 1 <= p && p <= 12 && ((p <= 6 && 1
        <= b[nr as usize][nc as usize] && b[nr as usize][nc as usize] <= 6) || (7 <= p && 7
        <= b[nr as usize][nc as usize] && b[nr as usize][nc as usize] <= 12)) {
        Some(false)
    } else {
        None
    }
}

/// Whether the piece on (`or`, `oc`) may go to (`nr`, `nc`); a refused
/// move is recorded as invalid.
pub fn can_move(se: &mut Game, or: u32, oc: u32, nr: u32, nc: u32) -> (r: bool)
    requires
        can_move_defined(old(se)@, or as int, oc as int, nr as int, nc as int),
    ensures
        r == can_move_spec(old(se)@, or as int, oc as int, nr as int, nc as int),
        final(se)@ == after_can_move(old(se)@, or as int, oc as int, nr as int, nc as int),
{
    let r = match can_move_early_exec(se, or, oc, nr, nc) {
        Some(r) => r,
        None => {
            let p = se.board[or as usize][oc as usize];
            let ms = get_pos_moves(&se.board, p as i32, or as i32, oc as i32);
            holds_square(&ms, (nr as i32, nc as i32))
        },
    };
    if !r {
        se.move_info = MoveInfo::InValid;
    }
    r
}

} // verus!
