//! How each piece moves, stated square by square: which targets the
//! generated moves hold, in terms of the board alone.
use vstd::prelude::*;

use crate::board::{bishop_moves, cell, is_black, king_moves, knight_moves, on_board, pos_moves, ray, rook_moves, Board};

verus! {

/// A sequence joined from two holds exactly what either part holds.
pub proof fn lemma_contains_concat<A>(s: Seq<A>, u: Seq<A>, x: A)
    ensures
        (s + u).contains(x) <==> s.contains(x) || u.contains(x),
{
    if (s + u).contains(x) {
        let i = choose|i: int| 0 <= i < (s + u).len() && (s + u)[i] == x;
        if i < s.len() {
            assert(s[i] == x);
        } else {
            assert(u[i - s.len()] == x);
        }
    }
    if s.contains(x) {
        let i = choose|i: int| 0 <= i < s.len() && s[i] == x;
        assert((s + u)[i] == x);
    }
    if u.contains(x) {
        let i = choose|i: int| 0 <= i < u.len() && u[i] == x;
        assert((s + u)[i + s.len()] == x);
    }
}

proof fn lemma_contains_when(b: bool, m: (i32, i32), x: (i32, i32))
    ensures
        crate::board::when(b, m).contains(x) <==> b && x == m,
{
    if b {
        assert(crate::board::when(b, m)[0] == m);
    }
}

/// A white pawn on (`r`, `c`) goes one row up onto an empty square, two
/// rows up from row 6 over two empty squares, and diagonally up, left or
/// right, onto a black piece; from row 0 it goes nowhere.
pub proof fn law_white_pawn_targets(b: Board, r: int, c: int, t: (i32, i32))
    requires
        on_board(r, c),
    ensures
        pos_moves(b, 12, r, c).contains(t) <==> r != 0 && {
            ||| t.0 == r - 1 && t.1 == c && cell(b, r - 1, c) == 0
            ||| r == 6 && t.0 == r - 2 && t.1 == c && cell(b, r - 1, c) == 0 && cell(b, r - 2, c) == 0
            ||| c != 0 && t.0 == r - 1 && t.1 == c - 1 && is_black(cell(b, r - 1, c - 1))
            ||| c != 7 && t.0 == r - 1 && t.1 == c + 1 && is_black(cell(b, r - 1, c + 1))
        },
{
    if r != 0 {
        let w1 = crate::board::when(cell(b, r - 1, c) == 0, ((r - 1) as i32, c as i32));
        let w2 = crate::board::when(
            r == 6 && cell(b, r - 1, c) == 0 && cell(b, r - 2, c) == 0,
            ((r - 2) as i32, c as i32),
        );
        let w3 = crate::board::when(c != 0 && is_black(cell(b, r - 1, c - 1)), ((r - 1) as i32, (c - 1) as i32));
        let w4 = crate::board::when(c != 7 && is_black(cell(b, r - 1, c + 1)), ((r - 1) as i32, (c + 1) as i32));
        lemma_contains_concat(w1 + w2 + w3, w4, t);
        lemma_contains_concat(w1 + w2, w3, t);
        lemma_contains_concat(w1, w2, t);
        lemma_contains_when(cell(b, r - 1, c) == 0, ((r - 1) as i32, c as i32), t);
        lemma_contains_when(
            r == 6 && cell(b, r - 1, c) == 0 && cell(b, r - 2, c) == 0,
            ((r - 2) as i32, c as i32),
            t,
        );
        lemma_contains_when(c != 0 && is_black(cell(b, r - 1, c - 1)), ((r - 1) as i32, (c - 1) as i32), t);
        lemma_contains_when(c != 7 && is_black(cell(b, r - 1, c + 1)), ((r - 1) as i32, (c + 1) as i32), t);
    }
}

/// A black pawn on (`r`, `c`), off row 0, goes one row down onto an empty
/// square and two rows down from row 1 over two empty squares; diagonally
/// it goes one row up, left or right, onto a black piece; from row 7 it
/// goes nowhere.
pub proof fn law_black_pawn_targets(b: Board, r: int, c: int, t: (i32, i32))
    requires
        on_board(r, c),
        r != 0,
    ensures
        pos_moves(b, 6, r, c).contains(t) <==> r != 7 && {
            ||| t.0 == r + 1 && t.1 == c && cell(b, r + 1, c) == 0
            ||| r == 1 && t.0 == r + 2 && t.1 == c && cell(b, r + 1, c) == 0 && cell(b, r + 2, c) == 0
            ||| c != 0 && t.0 == r - 1 && t.1 == c - 1 && is_black(cell(b, r - 1, c - 1))
            ||| c != 7 && t.0 == r - 1 && t.1 == c + 1 && is_black(cell(b, r - 1, c + 1))
        },
{
    if r != 7 {
        let w1 = crate::board::when(cell(b, r + 1, c) == 0, ((r + 1) as i32, c as i32));
        let w2 = crate::board::when(
            r == 1 && cell(b, r + 1, c) == 0 && cell(b, r + 2, c) == 0,
            ((r + 2) as i32, c as i32),
        );
        let w3 = crate::board::when(c != 0 && is_black(cell(b, r - 1, c - 1)), ((r - 1) as i32, (c - 1) as i32));
        let w4 = crate::board::when(c != 7 && is_black(cell(b, r - 1, c + 1)), ((r - 1) as i32, (c + 1) as i32));
        lemma_contains_concat(w1 + w2 + w3, w4, t);
        lemma_contains_concat(w1 + w2, w3, t);
        lemma_contains_concat(w1, w2, t);
        lemma_contains_when(cell(b, r + 1, c) == 0, ((r + 1) as i32, c as i32), t);
        lemma_contains_when(
            r == 1 && cell(b, r + 1, c) == 0 && cell(b, r + 2, c) == 0,
            ((r + 2) as i32, c as i32),
            t,
        );
        lemma_contains_when(c != 0 && is_black(cell(b, r - 1, c - 1)), ((r - 1) as i32, (c - 1) as i32), t);
        lemma_contains_when(c != 7 && is_black(cell(b, r - 1, c + 1)), ((r - 1) as i32, (c + 1) as i32), t);
    }
}

/// The distance between two whole numbers.
pub open spec fn dist(x: int, y: int) -> int {
    if x >= y {
        x - y
    } else {
        y - x
    }
}

/// A knight on (`r`, `c`) jumps to exactly the squares one row and two
/// columns, or two rows and one column, away, on the board or not.
pub proof fn law_knight_targets(b: Board, piece: i32, r: int, c: int, t: (i32, i32))
    requires
        piece == 2 || piece == 8,
        i32::MIN + 2 <= r <= i32::MAX - 2,
        i32::MIN + 2 <= c <= i32::MAX - 2,
    ensures
        pos_moves(b, piece, r, c).contains(t) <==> {
            ||| dist(t.0 as int, r) == 1 && dist(t.1 as int, c) == 2
            ||| dist(t.0 as int, r) == 2 && dist(t.1 as int, c) == 1
        },
{
    let s = knight_moves(r, c);
    if s.contains(t) {
        let i = choose|i: int| 0 <= i < s.len() && s[i] == t;
        assert(0 <= i < 8);
    }
    if dist(t.0 as int, r) == 1 && dist(t.1 as int, c) == 2 || dist(t.0 as int, r) == 2 && dist(
        t.1 as int,
        c,
    ) == 1 {
        if t.0 == r - 1 && t.1 == c + 2 {
            assert(s[0] == t);
        } else if t.0 == r + 1 && t.1 == c + 2 {
            assert(s[1] == t);
        } else if t.0 == r - 1 && t.1 == c - 2 {
            assert(s[2] == t);
        } else if t.0 == r + 1 && t.1 == c - 2 {
            assert(s[3] == t);
        } else if t.0 == r - 2 && t.1 == c + 1 {
            assert(s[4] == t);
        } else if t.0 == r - 2 && t.1 == c - 1 {
            assert(s[5] == t);
        } else if t.0 == r + 2 && t.1 == c + 1 {
            assert(s[6] == t);
        } else {
            assert(s[7] == t);
        }
    }
}

/// A king on (`r`, `c`) steps to exactly the eight neighbouring squares,
/// on the board or not; castling is no generated move.
pub proof fn law_king_targets(b: Board, piece: i32, r: int, c: int, t: (i32, i32))
    requires
        piece == 5 || piece == 11,
        i32::MIN + 1 <= r <= i32::MAX - 1,
        i32::MIN + 1 <= c <= i32::MAX - 1,
    ensures
        pos_moves(b, piece, r, c).contains(t) <==> dist(t.0 as int, r) <= 1 && dist(t.1 as int, c) <= 1
            && !(t.0 == r && t.1 == c),
{
    let s = king_moves(r, c);
    if s.contains(t) {
        let i = choose|i: int| 0 <= i < s.len() && s[i] == t;
        assert(0 <= i < 8);
    }
    if dist(t.0 as int, r) <= 1 && dist(t.1 as int, c) <= 1 && !(t.0 == r && t.1 == c) {
        if t.0 == r - 1 && t.1 == c {
            assert(s[0] == t);
        } else if t.0 == r - 1 && t.1 == c - 1 {
            assert(s[1] == t);
        } else if t.0 == r - 1 && t.1 == c + 1 {
            assert(s[2] == t);
        } else if t.0 == r && t.1 == c + 1 {
            assert(s[3] == t);
        } else if t.0 == r && t.1 == c - 1 {
            assert(s[4] == t);
        } else if t.0 == r + 1 && t.1 == c {
            assert(s[5] == t);
        } else if t.0 == r + 1 && t.1 == c - 1 {
            assert(s[6] == t);
        } else {
            assert(s[7] == t);
        }
    }
}

/// `k` steps from `x` in direction `d` (down or right when positive).
pub open spec fn step(x: int, d: int, k: int) -> int {
    if d > 0 {
        x + k
    } else if d < 0 {
        x - k
    } else {
        x
    }
}

/// Every square strictly before the `k`-th step from (`r`, `c`) in
/// direction (`dr`, `dc`) is on the board and empty.
pub open spec fn clear_before(b: Board, r: int, c: int, dr: int, dc: int, k: int) -> bool {
    forall|j: int|
        0 < j < k ==> on_board(step(r, dr, j), step(c, dc, j)) && #[trigger] cell(b, step(r, dr, j), step(c, dc, j))
            == 0
}

/// `t` is the `k`-th step from (`r`, `c`) in direction (`dr`, `dc`).
pub open spec fn at_step(r: int, c: int, dr: int, dc: int, k: int, t: (i32, i32)) -> bool {
    t.0 as int == step(r, dr, k) && t.1 as int == step(c, dc, k)
}

/// From (`r`, `c`) in direction (`dr`, `dc`), square `t` lies on the board
/// some steps away with nothing standing before it: it is empty, or the
/// first piece met.
pub open spec fn in_line_of_sight(b: Board, r: int, c: int, dr: int, dc: int, t: (i32, i32)) -> bool {
    exists|k: int|
        1 <= k && on_board(t.0 as int, t.1 as int) && #[trigger] at_step(r, c, dr, dc, k, t) && clear_before(
            b,
            r,
            c,
            dr,
            dc,
            k,
        )
}

proof fn lemma_ray_contains(b: Board, r: int, c: int, dr: int, dc: int, n: nat, t: (i32, i32))
    requires
        -1 <= dr <= 1,
        -1 <= dc <= 1,
    ensures
        ray(b, r, c, dr, dc, n).contains(t) <==> exists|k: int|
            1 <= k <= n && on_board(t.0 as int, t.1 as int) && #[trigger] at_step(r, c, dr, dc, k, t)
                && clear_before(b, r, c, dr, dc, k),
    decreases n,
{
    if n > 0 {
        let nr = r + dr;
        let nc = c + dc;
        assert(step(r, dr, 1) == nr && step(c, dc, 1) == nc);
        if !on_board(nr, nc) {
            if exists|k: int|
                1 <= k <= n && on_board(t.0 as int, t.1 as int) && #[trigger] at_step(r, c, dr, dc, k, t)
                    && clear_before(b, r, c, dr, dc, k) {
                let k = choose|k: int|
                    1 <= k <= n && on_board(t.0 as int, t.1 as int) && #[trigger] at_step(r, c, dr, dc, k, t)
                        && clear_before(b, r, c, dr, dc, k);
                if k > 1 {
                    assert(cell(b, step(r, dr, 1), step(c, dc, 1)) == 0);
                }
            }
        } else if cell(b, nr, nc) != 0 {
            let s = ray(b, r, c, dr, dc, n);
            assert(s == seq![(nr as i32, nc as i32)]);
            if s.contains(t) {
                assert(s[0] == t);
                assert(at_step(r, c, dr, dc, 1, t));
                assert(clear_before(b, r, c, dr, dc, 1));
            }
            if exists|k: int|
                1 <= k <= n && on_board(t.0 as int, t.1 as int) && #[trigger] at_step(r, c, dr, dc, k, t)
                    && clear_before(b, r, c, dr, dc, k) {
                let k = choose|k: int|
                    1 <= k <= n && on_board(t.0 as int, t.1 as int) && #[trigger] at_step(r, c, dr, dc, k, t)
                        && clear_before(b, r, c, dr, dc, k);
                if k > 1 {
                    assert(cell(b, step(r, dr, 1), step(c, dc, 1)) == 0);
                }
                assert(s[0] == t);
            }
        } else {
            let rest = ray(b, nr, nc, dr, dc, (n - 1) as nat);
            let s = ray(b, r, c, dr, dc, n);
            assert(s == seq![(nr as i32, nc as i32)] + rest);
            lemma_ray_contains(b, nr, nc, dr, dc, (n - 1) as nat, t);
            lemma_contains_concat(seq![(nr as i32, nc as i32)], rest, t);
            if s.contains(t) {
                if t == (nr as i32, nc as i32) {
                    assert(at_step(r, c, dr, dc, 1, t));
                    assert(clear_before(b, r, c, dr, dc, 1));
                } else {
                    assert(seq![(nr as i32, nc as i32)].contains(t) ==> seq![(nr as i32, nc as i32)][0] == t);
                    assert(rest.contains(t));
                    let k = choose|k: int|
                        1 <= k <= n - 1 && on_board(t.0 as int, t.1 as int) && #[trigger] at_step(
                            nr,
                            nc,
                            dr,
                            dc,
                            k,
                            t,
                        ) && clear_before(b, nr, nc, dr, dc, k);
                    assert(at_step(r, c, dr, dc, k + 1, t));
                    assert forall|j: int| 0 < j < k + 1 implies on_board(step(r, dr, j), step(c, dc, j))
                        && #[trigger] cell(b, step(r, dr, j), step(c, dc, j)) == 0 by {
                        if j > 1 {
                            assert(step(nr, dr, j - 1) == step(r, dr, j));
                            assert(step(nc, dc, j - 1) == step(c, dc, j));
                            assert(cell(b, step(nr, dr, j - 1), step(nc, dc, j - 1)) == 0);
                        }
                    }
                }
            }
            if exists|k: int|
                1 <= k <= n && on_board(t.0 as int, t.1 as int) && #[trigger] at_step(r, c, dr, dc, k, t)
                    && clear_before(b, r, c, dr, dc, k) {
                let k = choose|k: int|
                    1 <= k <= n && on_board(t.0 as int, t.1 as int) && #[trigger] at_step(r, c, dr, dc, k, t)
                        && clear_before(b, r, c, dr, dc, k);
                if k == 1 {
                    assert(seq![(nr as i32, nc as i32)][0] == t);
                } else {
                    assert(at_step(nr, nc, dr, dc, k - 1, t));
                    assert forall|j: int| 0 < j < k - 1 implies on_board(step(nr, dr, j), step(nc, dc, j))
                        && #[trigger] cell(b, step(nr, dr, j), step(nc, dc, j)) == 0 by {
                        assert(step(nr, dr, j) == step(r, dr, j + 1));
                        assert(step(nc, dc, j) == step(c, dc, j + 1));
                        assert(cell(b, step(r, dr, j + 1), step(c, dc, j + 1)) == 0);
                    }
                    assert(clear_before(b, nr, nc, dr, dc, k - 1));
                }
            }
        }
    }
}

/// From a square on the board, a ray holds exactly the squares in line of
/// sight in its direction.
proof fn lemma_ray_sight(b: Board, r: int, c: int, dr: int, dc: int, t: (i32, i32))
    requires
        on_board(r, c),
        -1 <= dr <= 1,
        -1 <= dc <= 1,
        dr != 0 || dc != 0,
    ensures
        ray(b, r, c, dr, dc, 7).contains(t) <==> in_line_of_sight(b, r, c, dr, dc, t),
{
    lemma_ray_contains(b, r, c, dr, dc, 7, t);
    if in_line_of_sight(b, r, c, dr, dc, t) {
        let k = choose|k: int|
            1 <= k && on_board(t.0 as int, t.1 as int) && #[trigger] at_step(r, c, dr, dc, k, t)
                && clear_before(b, r, c, dr, dc, k);
        assert(k <= 7);
        assert(1 <= k <= 7 && on_board(t.0 as int, t.1 as int) && at_step(r, c, dr, dc, k, t)
            && clear_before(b, r, c, dr, dc, k));
    }
}

/// A rook on (`r`, `c`) goes to exactly the squares in line of sight along
/// its row or its column.
pub proof fn law_rook_targets(b: Board, piece: i32, r: int, c: int, t: (i32, i32))
    requires
        piece == 1 || piece == 7,
        on_board(r, c),
    ensures
        pos_moves(b, piece, r, c).contains(t) <==> {
            ||| in_line_of_sight(b, r, c, 1, 0, t)
            ||| in_line_of_sight(b, r, c, -1, 0, t)
            ||| in_line_of_sight(b, r, c, 0, -1, t)
            ||| in_line_of_sight(b, r, c, 0, 1, t)
        },
{
    lemma_straight_rays(b, r, c, t);
}

proof fn lemma_straight_rays(b: Board, r: int, c: int, t: (i32, i32))
    requires
        on_board(r, c),
    ensures
        rook_moves(b, r, c).contains(t) <==> {
            ||| in_line_of_sight(b, r, c, 1, 0, t)
            ||| in_line_of_sight(b, r, c, -1, 0, t)
            ||| in_line_of_sight(b, r, c, 0, -1, t)
            ||| in_line_of_sight(b, r, c, 0, 1, t)
        },
{
    let d = ray(b, r, c, 1, 0, 7);
    let u = ray(b, r, c, -1, 0, 7);
    let l = ray(b, r, c, 0, -1, 7);
    let rr = ray(b, r, c, 0, 1, 7);
    lemma_contains_concat(d + u + l, rr, t);
    lemma_contains_concat(d + u, l, t);
    lemma_contains_concat(d, u, t);
    lemma_ray_sight(b, r, c, 1, 0, t);
    lemma_ray_sight(b, r, c, -1, 0, t);
    lemma_ray_sight(b, r, c, 0, -1, t);
    lemma_ray_sight(b, r, c, 0, 1, t);
}

proof fn lemma_diagonal_rays(b: Board, r: int, c: int, t: (i32, i32))
    requires
        on_board(r, c),
    ensures
        bishop_moves(b, r, c).contains(t) <==> {
            ||| in_line_of_sight(b, r, c, -1, -1, t)
            ||| in_line_of_sight(b, r, c, -1, 1, t)
            ||| in_line_of_sight(b, r, c, 1, -1, t)
            ||| in_line_of_sight(b, r, c, 1, 1, t)
        },
{
    let ul = ray(b, r, c, -1, -1, 7);
    let ur = ray(b, r, c, -1, 1, 7);
    let dl = ray(b, r, c, 1, -1, 7);
    let dr = ray(b, r, c, 1, 1, 7);
    lemma_contains_concat(ul + ur + dl, dr, t);
    lemma_contains_concat(ul + ur, dl, t);
    lemma_contains_concat(ul, ur, t);
    lemma_ray_sight(b, r, c, -1, -1, t);
    lemma_ray_sight(b, r, c, -1, 1, t);
    lemma_ray_sight(b, r, c, 1, -1, t);
    lemma_ray_sight(b, r, c, 1, 1, t);
}

/// A bishop on (`r`, `c`) goes to exactly the squares in line of sight
/// along its two diagonals.
pub proof fn law_bishop_targets(b: Board, piece: i32, r: int, c: int, t: (i32, i32))
    requires
        piece == 3 || piece == 9,
        on_board(r, c),
    ensures
        pos_moves(b, piece, r, c).contains(t) <==> {
            ||| in_line_of_sight(b, r, c, -1, -1, t)
            ||| in_line_of_sight(b, r, c, -1, 1, t)
            ||| in_line_of_sight(b, r, c, 1, -1, t)
            ||| in_line_of_sight(b, r, c, 1, 1, t)
        },
{
    lemma_diagonal_rays(b, r, c, t);
}

/// A queen on (`r`, `c`) goes to exactly the squares in line of sight in
/// any of the eight directions.
pub proof fn law_queen_targets(b: Board, piece: i32, r: int, c: int, t: (i32, i32))
    requires
        piece == 4 || piece == 10,
        on_board(r, c),
    ensures
        pos_moves(b, piece, r, c).contains(t) <==> {
            ||| in_line_of_sight(b, r, c, -1, -1, t)
            ||| in_line_of_sight(b, r, c, -1, 1, t)
            ||| in_line_of_sight(b, r, c, 1, -1, t)
            ||| in_line_of_sight(b, r, c, 1, 1, t)
            ||| in_line_of_sight(b, r, c, 1, 0, t)
            ||| in_line_of_sight(b, r, c, -1, 0, t)
            ||| in_line_of_sight(b, r, c, 0, -1, t)
            ||| in_line_of_sight(b, r, c, 0, 1, t)
        },
{
    lemma_diagonal_rays(b, r, c, t);
    lemma_straight_rays(b, r, c, t);
    lemma_contains_concat(bishop_moves(b, r, c), rook_moves(b, r, c), t);
}

/// Codes other than 1 to 12 have no moves.
pub proof fn law_unknown_codes_stay(b: Board, piece: i32, r: int, c: int)
    requires
        !(1 <= piece <= 12),
    ensures
        pos_moves(b, piece, r, c).len() == 0,
{
}

} // verus!
