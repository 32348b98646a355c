//! The board, its piece codes, and the squares each piece can reach.
//!
//! Cell codes: 0 is empty, 1 rook, 2 knight, 3 bishop, 4 queen, 5 king,
//! 6 pawn for black; 7 to 12 are the same pieces for white.  Row 0 is
//! black's home rank, row 7 white's.
use vstd::prelude::*;

verus! {

/// An 8 by 8 board of piece codes, indexed by row, then column.
pub type Board = [[usize; 8]; 8];

/// The code that stands on square (`r`, `c`).
pub open spec fn cell(b: Board, r: int, c: int) -> usize {
    b[r][c]
}

/// `b` with square (`r`, `c`) holding `v`.
pub open spec fn set_cell(b: Board, r: int, c: int, v: usize) -> Board {
    vstd::array::spec_array_update(b, r, vstd::array::spec_array_update(b[r], c, v))
}

pub open spec fn on_board(r: int, c: int) -> bool {
    0 <= r < 8 && 0 <= c < 8
}

pub open spec fn is_black(v: usize) -> bool {
    1 <= v <= 6
}

pub open spec fn is_white(v: usize) -> bool {
    7 <= v <= 12
}

/// Two boards are the same position.
#[verifier::opaque]
pub open spec fn same_board(a: Board, b: Board) -> bool {
    a == b
}

/// No black pawn stands on row 0 (black's home rank).
pub open spec fn no_black_pawn_on_home_rank(b: Board) -> bool {
    forall|c: int| 0 <= c < 8 ==> #[trigger] cell(b, 0, c) != 6
}

/// The squares met walking from (`r`, `c`) in steps of (`dr`, `dc`), at most
/// `n` steps: it stops before leaving the board and after the first
/// occupied square, which it includes.
pub open spec fn ray(b: Board, r: int, c: int, dr: int, dc: int, n: nat) -> Seq<(i32, i32)>
    decreases n,
{
    if n == 0 {
        seq![]
    } else {
        let nr = r + dr;
        let nc = c + dc;
        if !on_board(nr, nc) {
            seq![]
        } else if cell(b, nr, nc) != 0 {
            seq![(nr as i32, nc as i32)]
        } else {
            seq![(nr as i32, nc as i32)] + ray(b, nr, nc, dr, dc, (n - 1) as nat)
        }
    }
}

/// Straight rays in the order down, up, left, right.
pub open spec fn rook_moves(b: Board, r: int, c: int) -> Seq<(i32, i32)> {
    ray(b, r, c, 1, 0, 7) + ray(b, r, c, -1, 0, 7) + ray(b, r, c, 0, -1, 7) + ray(b, r, c, 0, 1, 7)
}

/// Diagonal rays in the order up-left, up-right, down-left, down-right.
pub open spec fn bishop_moves(b: Board, r: int, c: int) -> Seq<(i32, i32)> {
    ray(b, r, c, -1, -1, 7) + ray(b, r, c, -1, 1, 7) + ray(b, r, c, 1, -1, 7) + ray(b, r, c, 1, 1, 7)
}

/// The eight knight jumps, on the board or not.
pub open spec fn knight_moves(r: int, c: int) -> Seq<(i32, i32)> {
    seq![
        ((r - 1) as i32, (c + 2) as i32),
        ((r + 1) as i32, (c + 2) as i32),
        ((r - 1) as i32, (c - 2) as i32),
        ((r + 1) as i32, (c - 2) as i32),
        ((r - 2) as i32, (c + 1) as i32),
        ((r - 2) as i32, (c - 1) as i32),
        ((r + 2) as i32, (c + 1) as i32),
        ((r + 2) as i32, (c - 1) as i32),
    ]
}

/// The eight neighbouring squares, on the board or not.
pub open spec fn king_moves(r: int, c: int) -> Seq<(i32, i32)> {
    seq![
        ((r - 1) as i32, c as i32),
        ((r - 1) as i32, (c - 1) as i32),
        ((r - 1) as i32, (c + 1) as i32),
        (r as i32, (c + 1) as i32),
        (r as i32, (c - 1) as i32),
        ((r + 1) as i32, c as i32),
        ((r + 1) as i32, (c - 1) as i32),
        ((r + 1) as i32, (c + 1) as i32),
    ]
}

pub open spec fn when(b: bool, m: (i32, i32)) -> Seq<(i32, i32)> {
    if b {
        seq![m]
    } else {
        seq![]
    }
}

/// Black pawn: one step down onto an empty square, two from row 1 over two
/// empty squares, and the two squares diagonally above that hold a black
/// piece.
pub open spec fn black_pawn_moves(b: Board, r: int, c: int) -> Seq<(i32, i32)> {
    if r == 7 {
        seq![]
    } else {
        when(cell(b, r + 1, c) == 0, ((r + 1) as i32, c as i32)) + when(
            r == 1 && cell(b, r + 1, c) == 0 && cell(b, r + 2, c) == 0,
            ((r + 2) as i32, c as i32),
        ) + when(c != 0 && is_black(cell(b, r - 1, c - 1)), ((r - 1) as i32, (c - 1) as i32))
            + when(c != 7 && is_black(cell(b, r - 1, c + 1)), ((r - 1) as i32, (c + 1) as i32))
    }
}

/// White pawn: one step up onto an empty square, two from row 6 over two
/// empty squares, and the two squares diagonally above that hold a black
/// piece.
pub open spec fn white_pawn_moves(b: Board, r: int, c: int) -> Seq<(i32, i32)> {
    if r == 0 {
        seq![]
    } else {
        when(cell(b, r - 1, c) == 0, ((r - 1) as i32, c as i32)) + when(
            r == 6 && cell(b, r - 1, c) == 0 && cell(b, r - 2, c) == 0,
            ((r - 2) as i32, c as i32),
        ) + when(c != 0 && is_black(cell(b, r - 1, c - 1)), ((r - 1) as i32, (c - 1) as i32))
            + when(c != 7 && is_black(cell(b, r - 1, c + 1)), ((r - 1) as i32, (c + 1) as i32))
    }
}

/// The squares, in order, that the piece coded `piece` standing on
/// (`r`, `c`) may go to.  Knight and king squares may lie off the board.
pub open spec fn pos_moves(b: Board, piece: i32, r: int, c: int) -> Seq<(i32, i32)> {
    if piece == 1 || piece == 7 {
        rook_moves(b, r, c)
    } else if piece == 2 || piece == 8 {
        knight_moves(r, c)
    } else if piece == 3 || piece == 9 {
        bishop_moves(b, r, c)
    } else if piece == 4 || piece == 10 {
        bishop_moves(b, r, c) + rook_moves(b, r, c)
    } else if piece == 5 || piece == 11 {
        king_moves(r, c)
    } else if piece == 6 {
        black_pawn_moves(b, r, c)
    } else if piece == 12 {
        white_pawn_moves(b, r, c)
    } else {
        seq![]
    }
}

/// Generating moves for `piece` on (`r`, `c`) reads only squares on the
/// board and computes only coordinates that fit in an `i32`.  Rooks,
/// bishops, queens and pawns read the board from their own square, which
/// must be on it, and a black pawn may not stand on row 0; knights and
/// kings never read the board; other codes have no moves at all.
pub open spec fn pos_moves_defined(piece: i32, r: int, c: int) -> bool {
    if piece == 2 || piece == 8 {
        i32::MIN + 2 <= r <= i32::MAX - 2 && i32::MIN + 2 <= c <= i32::MAX - 2
    } else if piece == 5 || piece == 11 {
        i32::MIN + 1 <= r <= i32::MAX - 1 && i32::MIN + 1 <= c <= i32::MAX - 1
    } else if 1 <= piece <= 12 {
        on_board(r, c) && !(piece == 6 && r == 0)
    } else {
        true
    }
}

/// Every square of a ray lies on the board.
pub proof fn lemma_ray_on_board(b: Board, r: int, c: int, dr: int, dc: int, n: nat)
    ensures
        forall|i: int|
            0 <= i < ray(b, r, c, dr, dc, n).len() ==> on_board(
                #[trigger] ray(b, r, c, dr, dc, n)[i].0 as int,
                ray(b, r, c, dr, dc, n)[i].1 as int,
            ),
    decreases n,
{
    if n > 0 {
        let nr = r + dr;
        let nc = c + dc;
        if on_board(nr, nc) && cell(b, nr, nc) == 0 {
            lemma_ray_on_board(b, nr, nc, dr, dc, (n - 1) as nat);
            let rest = ray(b, nr, nc, dr, dc, (n - 1) as nat);
            assert forall|i: int| 0 <= i < ray(b, r, c, dr, dc, n).len() implies on_board(
                #[trigger] ray(b, r, c, dr, dc, n)[i].0 as int,
                ray(b, r, c, dr, dc, n)[i].1 as int,
            ) by {
                if i > 0 {
                    assert(ray(b, r, c, dr, dc, n)[i] == rest[i - 1]);
                }
            }
        }
    }
}

/// Rooks, bishops and queens only list squares on the board.
pub proof fn law_sliding_moves_stay_on_board(b: Board, piece: i32, r: int, c: int)
    requires
        piece == 1 || piece == 7 || piece == 3 || piece == 9 || piece == 4 || piece == 10,
    ensures
        forall|i: int|
            0 <= i < pos_moves(b, piece, r, c).len() ==> on_board(
                #[trigger] pos_moves(b, piece, r, c)[i].0 as int,
                pos_moves(b, piece, r, c)[i].1 as int,
            ),
{
    let d = ray(b, r, c, 1, 0, 7);
    let u = ray(b, r, c, -1, 0, 7);
    let l = ray(b, r, c, 0, -1, 7);
    let rr = ray(b, r, c, 0, 1, 7);
    let ul = ray(b, r, c, -1, -1, 7);
    let ur = ray(b, r, c, -1, 1, 7);
    let dl = ray(b, r, c, 1, -1, 7);
    let dr = ray(b, r, c, 1, 1, 7);
    lemma_ray_on_board(b, r, c, 1, 0, 7);
    lemma_ray_on_board(b, r, c, -1, 0, 7);
    lemma_ray_on_board(b, r, c, 0, -1, 7);
    lemma_ray_on_board(b, r, c, 0, 1, 7);
    lemma_ray_on_board(b, r, c, -1, -1, 7);
    lemma_ray_on_board(b, r, c, -1, 1, 7);
    lemma_ray_on_board(b, r, c, 1, -1, 7);
    lemma_ray_on_board(b, r, c, 1, 1, 7);
    let all = ul + ur + dl + dr + (d + u + l + rr);
    assert forall|i: int| 0 <= i < all.len() implies on_board(#[trigger] all[i].0 as int, all[i].1 as int) by {
        if i < ul.len() {
            assert(all[i] == ul[i]);
        } else if i < ul.len() + ur.len() {
            assert(all[i] == ur[i - ul.len()]);
        } else if i < ul.len() + ur.len() + dl.len() {
            assert(all[i] == dl[i - ul.len() - ur.len()]);
        } else if i < ul.len() + ur.len() + dl.len() + dr.len() {
            assert(all[i] == dr[i - ul.len() - ur.len() - dl.len()]);
        } else {
            let j = i - (ul.len() + ur.len() + dl.len() + dr.len());
            if j < d.len() {
                assert(all[i] == d[j]);
            } else if j < d.len() + u.len() {
                assert(all[i] == u[j - d.len()]);
            } else if j < d.len() + u.len() + l.len() {
                assert(all[i] == l[j - d.len() - u.len()]);
            } else {
                assert(all[i] == rr[j - d.len() - u.len() - l.len()]);
            }
        }
    }
    let rook = d + u + l + rr;
    assert forall|i: int| 0 <= i < rook.len() implies on_board(#[trigger] rook[i].0 as int, rook[i].1 as int) by {
        assert(rook[i] == all[i + ul.len() + ur.len() + dl.len() + dr.len()]);
    }
    let bishop = ul + ur + dl + dr;
    assert forall|i: int| 0 <= i < bishop.len() implies on_board(#[trigger] bishop[i].0 as int, bishop[i].1 as int) by {
        assert(bishop[i] == all[i]);
    }
    assert(all =~= bishop + rook);
}

/// Appends the squares of one ray to `moves`.
fn push_ray(b: &Board, moves: &mut Vec<(i32, i32)>, row: i32, col: i32, dr: i32, dc: i32)
    requires
        on_board(row as int, col as int),
        -1 <= dr <= 1,
        -1 <= dc <= 1,
    ensures
        final(moves)@ == old(moves)@ + ray(*b, row as int, col as int, dr as int, dc as int, 7),
{
    let ghost target = old(moves)@ + ray(*b, row as int, col as int, dr as int, dc as int, 7);
    let mut cr = row;
    let mut cc = col;
    let mut n: u32 = 7;
    let mut stopped = false;
    while n > 0 && !stopped
        invariant
            on_board(cr as int, cc as int),
            -1 <= dr <= 1,
            -1 <= dc <= 1,
            n <= 7,
            stopped ==> moves@ == target,
            !stopped ==> moves@ + ray(*b, cr as int, cc as int, dr as int, dc as int, n as nat)
                == target,
        decreases n,
    {
        let nr = cr + dr;
        let nc = cc + dc;
        if nr < 0 || nr >= 8 || nc < 0 || nc >= 8 {
            assert(moves@ + Seq::<(i32, i32)>::empty() =~= moves@);
            stopped = true;
        } else {
            moves.push((nr, nc));
            if b[nr as usize][nc as usize] != 0 {
                stopped = true;
            } else {
                assert(ray(*b, cr as int, cc as int, dr as int, dc as int, n as nat) == seq![(nr, nc)]
                    + ray(*b, nr as int, nc as int, dr as int, dc as int, (n - 1) as nat));
                cr = nr;
                cc = nc;
            }
        }
        n = n - 1;
    }
    if !stopped {
        assert(moves@ + Seq::<(i32, i32)>::empty() =~= moves@);
    }
}

fn push_when(moves: &mut Vec<(i32, i32)>, b: bool, m: (i32, i32))
    ensures
        final(moves)@ == old(moves)@ + when(b, m),
{
    if b {
        moves.push(m);
    } else {
        assert(old(moves)@ + seq![] =~= old(moves)@);
    }
}

/// The squares that `piece` standing on (`row`, `col`) of `b` may go to.
pub fn get_pos_moves(b: &Board, piece: i32, row: i32, col: i32) -> (moves: Vec<(i32, i32)>)
    requires
        pos_moves_defined(piece, row as int, col as int),
    ensures
        moves@ == pos_moves(*b, piece, row as int, col as int),
{
    let mut moves: Vec<(i32, i32)> = Vec::new();
    if piece == 1 || piece == 7 {
        push_ray(b, &mut moves, row, col, 1, 0);
        push_ray(b, &mut moves, row, col, -1, 0);
        push_ray(b, &mut moves, row, col, 0, -1);
        push_ray(b, &mut moves, row, col, 0, 1);
        assert(moves@ =~= rook_moves(*b, row as int, col as int));
    } else if piece == 2 || piece == 8 {
        moves.push((row - 1, col + 2));
        moves.push((row + 1, col + 2));
        moves.push((row - 1, col - 2));
        moves.push((row + 1, col - 2));
        moves.push((row - 2, col + 1));
        moves.push((row - 2, col - 1));
        moves.push((row + 2, col + 1));
        moves.push((row + 2, col - 1));
        assert(moves@ =~= knight_moves(row as int, col as int));
    } else if piece == 3 || piece == 9 {
        push_ray(b, &mut moves, row, col, -1, -1);
        push_ray(b, &mut moves, row, col, -1, 1);
        push_ray(b, &mut moves, row, col, 1, -1);
        push_ray(b, &mut moves, row, col, 1, 1);
        assert(moves@ =~= bishop_moves(*b, row as int, col as int));
    } else if piece == 4 || piece == 10 {
        push_ray(b, &mut moves, row, col, -1, -1);
        push_ray(b, &mut moves, row, col, -1, 1);
        push_ray(b, &mut moves, row, col, 1, -1);
        push_ray(b, &mut moves, row, col, 1, 1);
        push_ray(b, &mut moves, row, col, 1, 0);
        push_ray(b, &mut moves, row, col, -1, 0);
        push_ray(b, &mut moves, row, col, 0, -1);
        push_ray(b, &mut moves, row, col, 0, 1);
        assert(moves@ =~= bishop_moves(*b, row as int, col as int) + rook_moves(
            *b,
            row as int,
            col as int,
        ));
    } else if piece == 5 || piece == 11 {
        moves.push((row - 1, col));
        moves.push((row - 1, col - 1));
        moves.push((row - 1, col + 1));
        moves.push((row, col + 1));
        moves.push((row, col - 1));
        moves.push((row + 1, col));
        moves.push((row + 1, col - 1));
        moves.push((row + 1, col + 1));
        assert(moves@ =~= king_moves(row as int, col as int));
    } else if piece == 6 {
        if row == 7 {
            return moves;
        }
        let r = row as usize;
        let c = col as usize;
        push_when(&mut moves, b[r + 1][c] == 0, (row + 1, col));
        push_when(&mut moves, row == 1 && b[r + 1][c] == 0 && b[r + 2][c] == 0, (row + 2, col));
        push_when(&mut moves, c != 0 && 1 <= b[r - 1][c - 1] && b[r - 1][c - 1] <= 6, (row - 1, col - 1));
        push_when(&mut moves, c != 7 && 1 <= b[r - 1][c + 1] && b[r - 1][c + 1] <= 6, (row - 1, col + 1));
        assert(moves@ =~= black_pawn_moves(*b, row as int, col as int));
    } else if piece == 12 {
        if row == 0 {
            return moves;
        }
        let r = row as usize;
        let c = col as usize;
        push_when(&mut moves, b[r - 1][c] == 0, (row - 1, col));
        push_when(&mut moves, row == 6 && b[r - 1][c] == 0 && b[r - 2][c] == 0, (row - 2, col));
        push_when(&mut moves, c != 0 && 1 <= b[r - 1][c - 1] && b[r - 1][c - 1] <= 6, (row - 1, col - 1));
        push_when(&mut moves, c != 7 && 1 <= b[r - 1][c + 1] && b[r - 1][c + 1] <= 6, (row - 1, col + 1));
        assert(moves@ =~= white_pawn_moves(*b, row as int, col as int));
    }
    moves
}

/// Whether `moves` holds the square `t`.
pub fn holds_square(moves: &Vec<(i32, i32)>, t: (i32, i32)) -> (r: bool)
    ensures
        r == moves@.contains(t),
{
    let mut i: usize = 0;
    while i < moves.len()
        invariant
            i <= moves.len(),
            forall|j: int| 0 <= j < i ==> moves@[j] != t,
        decreases moves.len() - i,
    {
        let m = moves[i];
        if m.0 == t.0 && m.1 == t.1 {
            assert(moves@[i as int] == t);
            return true;
        }
        i += 1;
    }
    false
}

/// Whether the two boards hold the same code on every square.
pub fn boards_equal(a: &Board, b: &Board) -> (r: bool)
    ensures
        r == same_board(*a, *b),
{
    reveal(same_board);
    let mut i: usize = 0;
    while i < 8
        invariant
            i <= 8,
            forall|k: int, j: int| 0 <= k < i && 0 <= j < 8 ==> a[k][j] == b[k][j],
        decreases 8 - i,
    {
        let mut j: usize = 0;
        while j < 8
            invariant
                j <= 8,
                i < 8,
                forall|k: int, jj: int| 0 <= k < i && 0 <= jj < 8 ==> a[k][jj] == b[k][jj],
                forall|jj: int| 0 <= jj < j ==> a[i as int][jj] == b[i as int][jj],
            decreases 8 - j,
        {
            if a[i][j] != b[i][j] {
                proof {
                    reveal(same_board);
                }
                assert(cell(*a, i as int, j as int) != cell(*b, i as int, j as int));
                return false;
            }
            j += 1;
        }
        i += 1;
    }
    assert forall|k: int| 0 <= k < 8 implies a[k] =~= b[k] by {}
    assert(*a =~= *b);
    true
}

/// Whether no black pawn stands on row 0.
pub fn home_rank_free_of_black_pawns(b: &Board) -> (r: bool)
    ensures
        r == no_black_pawn_on_home_rank(*b),
{
    let mut c: usize = 0;
    while c < 8
        invariant
            c <= 8,
            forall|j: int| 0 <= j < c ==> cell(*b, 0, j) != 6,
        decreases 8 - c,
    {
        if b[0][c] == 6 {
            assert(cell(*b, 0, c as int) == 6);
            return false;
        }
        c += 1;
    }
    true
}

} // verus!
