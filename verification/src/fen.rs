//! The position in Forsyth-Edwards notation, as the engine is asked about it.
use vstd::prelude::*;

use crate::board::Board;
use crate::command::{bo_cmd_to_fen_cmd, fen_square};
use crate::game::{Game, GameView, Round};
use crate::text::{push_char, push_text};

verus! {

/// The letter of piece code `v` (1 to 12): lower case black, upper case white.
pub open spec fn piece_letter(v: usize) -> char {
    if v == 1 {
        'r'
    } else if v == 2 {
        'n'
    } else if v == 3 {
        'b'
    } else if v == 4 {
        'q'
    } else if v == 5 {
        'k'
    } else if v == 6 {
        'p'
    } else if v == 7 {
        'R'
    } else if v == 8 {
        'N'
    } else if v == 9 {
        'B'
    } else if v == 10 {
        'Q'
    } else if v == 11 {
        'K'
    } else {
        'P'
    }
}

pub open spec fn digit_char(n: nat) -> char {
    (('0' as int) + n) as char
}

/// The decimal digits of `n`.
pub open spec fn decimal(n: nat) -> Seq<char>
    decreases n,
{
    if n < 10 {
        seq![digit_char(n)]
    } else {
        decimal(n / 10) + seq![digit_char(n % 10)]
    }
}

/// A run of `z` empty squares: its length, or nothing when there is none.
pub open spec fn empties(z: nat) -> Seq<char> {
    if z > 0 {
        decimal(z)
    } else {
        seq![]
    }
}

/// The text of the cells `cells` of one row, with `zeros` empty squares
/// pending before them: a letter per piece, the length of each run of empty
/// squares before a piece, and, when `flush`, of the run that ends the row.
/// Codes above 12 are skipped.
pub open spec fn row_text(cells: Seq<usize>, zeros: nat, flush: bool) -> Seq<char>
    decreases cells.len(),
{
    if cells.len() == 0 {
        if flush {
            empties(zeros)
        } else {
            seq![]
        }
    } else {
        let v = cells[0];
        let rest = cells.drop_first();
        if v == 0 {
            row_text(rest, zeros + 1, flush)
        } else if 1 <= v <= 12 {
            empties(zeros) + seq![piece_letter(v)] + row_text(rest, 0, flush)
        } else {
            row_text(rest, zeros, flush)
        }
    }
}

/// Rows `r..8`, separated by `/`; the empty squares that end row 7 are not
/// written.
pub open spec fn placement_from(b: Board, r: int) -> Seq<char>
    decreases 8 - r,
{
    if r >= 8 || r < 0 {
        seq![]
    } else {
        (if r > 0 {
            seq!['/']
        } else {
            seq![]
        }) + row_text(b[r]@, 0, r != 7) + placement_from(b, r + 1)
    }
}

pub open spec fn when_text(b: bool, s: Seq<char>) -> Seq<char> {
    if b {
        s
    } else {
        seq![]
    }
}

/// Castling rights: `KQ` for white while its king has not moved, `kq` for
/// black, each letter while its rook has not moved, and `-` once all six
/// pieces have moved.
pub open spec fn castling_text(g: GameView) -> Seq<char> {
    when_text(!g.wk_moved, when_text(!g.rwr_moved, seq!['K']) + when_text(!g.lwr_moved, seq!['Q']))
        + when_text(!g.bk_moved, when_text(!g.rbr_moved, seq!['k']) + when_text(!g.lbr_moved, seq!['q']))
        + when_text(
        g.wk_moved && g.bk_moved && g.lwr_moved && g.rwr_moved && g.lbr_moved && g.rbr_moved,
        seq!['-'],
    )
}

/// The square a pawn just passed, or `-`.
pub open spec fn en_passant_text(ep: Seq<i32>) -> Seq<char> {
    if ep.len() != 0 {
        fen_square(ep[0] as int, ep[1] as int)
    } else {
        seq!['-']
    }
}

/// `fen <placement> <w|b> <castling> <en passant> - <move number>`.
pub open spec fn fen_text(g: GameView) -> Seq<char> {
    seq!['f', 'e', 'n', ' '] + placement_from(g.board, 0) + seq![' '] + seq![
        if g.round == Round::White {
            'w'
        } else {
            'b'
        },
    ] + seq![' '] + castling_text(g) + seq![' '] + en_passant_text(g.last_en_passant) + seq![
        ' ',
        '-',
        ' ',
    ] + decimal((g.half_moves / 2) as nat)
}

/// The squares a piece-placement text accounts for: a digit that many
/// empty squares, any other character one piece.
pub open spec fn squares_covered(s: Seq<char>) -> int
    decreases s.len(),
{
    if s.len() == 0 {
        0
    } else {
        (if '0' <= s[0] <= '9' {
            s[0] as int - '0' as int
        } else {
            1
        }) + squares_covered(s.drop_first())
    }
}

proof fn lemma_squares_covered_concat(s: Seq<char>, u: Seq<char>)
    ensures
        squares_covered(s + u) == squares_covered(s) + squares_covered(u),
    decreases s.len(),
{
    if s.len() > 0 {
        assert((s + u).drop_first() =~= s.drop_first() + u);
        lemma_squares_covered_concat(s.drop_first(), u);
    }
}

proof fn lemma_row_text_covers(cells: Seq<usize>, zeros: nat)
    requires
        zeros + cells.len() <= 9,
        forall|i: int| 0 <= i < cells.len() ==> cells[i] <= 12,
    ensures
        squares_covered(row_text(cells, zeros, true)) == zeros + cells.len(),
    decreases cells.len(),
{
    if cells.len() == 0 {
        if zeros > 0 {
            assert(squares_covered(decimal(zeros).drop_first()) == 0);
        }
    } else {
        let v = cells[0];
        let rest = cells.drop_first();
        if v == 0 {
            lemma_row_text_covers(rest, zeros + 1);
        } else {
            lemma_row_text_covers(rest, 0);
            let e = empties(zeros);
            lemma_squares_covered_concat(e + seq![piece_letter(v)], row_text(rest, 0, true));
            lemma_squares_covered_concat(e, seq![piece_letter(v)]);
            assert(squares_covered(seq![piece_letter(v)].drop_first()) == 0);
            if zeros > 0 {
                assert(squares_covered(decimal(zeros).drop_first()) == 0);
            }
        }
    }
}

/// Every row but the last is written as exactly eight squares: its
/// pieces, one letter each, and its runs of empty squares, counted.
pub proof fn law_rows_cover_eight_squares(b: Board, r: int)
    requires
        0 <= r < 7,
        forall|c: int| 0 <= c < 8 ==> b[r][c] <= 12,
    ensures
        squares_covered(row_text(b[r]@, 0, true)) == 8,
{
    lemma_row_text_covers(b[r]@, 0);
}

/// A white piece is written with the capital of the letter of the black
/// piece of the same kind, and black letters are lower case.
pub proof fn law_white_letters_are_capitals(v: usize)
    requires
        1 <= v <= 6,
    ensures
        'a' <= piece_letter(v) <= 'z',
        piece_letter((v + 6) as usize) as int == piece_letter(v) as int - 32,
{
}

/// The decimal digits of a number are digits, and read back as it.
pub proof fn law_decimal_reads_back(n: nat)
    ensures
        forall|i: int| 0 <= i < decimal(n).len() ==> '0' <= #[trigger] decimal(n)[i] <= '9',
        decimal_value(decimal(n)) == n,
    decreases n,
{
    if n >= 10 {
        law_decimal_reads_back(n / 10);
        let d = decimal(n / 10);
        let last = seq![digit_char(n % 10)];
        assert(decimal(n) == d + last);
        assert((d + last).drop_last() =~= d);
        assert((d + last).last() == digit_char(n % 10));
        assert(digit_char(n % 10) as int == '0' as int + n % 10);
        assert(n == (n / 10) * 10 + n % 10) by (nonlinear_arith);
        assert(decimal_value(d + last) == decimal_value(d) * 10 + (n % 10));
        assert forall|i: int| 0 <= i < decimal(n).len() implies '0' <= #[trigger] decimal(n)[i] <= '9' by {
            if i < d.len() {
                assert(decimal(n)[i] == d[i]);
            }
        }
    } else {
        assert(decimal(n).drop_last() =~= Seq::<char>::empty());
        assert(digit_char(n) as int == '0' as int + n);
        assert(decimal(n) == seq![digit_char(n)]);
        assert(decimal_value(decimal(n)) == decimal_value(Seq::<char>::empty()) * 10 + n);
    }
}

/// The number written by decimal digits `s`.
pub open spec fn decimal_value(s: Seq<char>) -> int
    decreases s.len(),
{
    if s.len() == 0 {
        0
    } else {
        decimal_value(s.drop_last()) * 10 + (s.last() as int - '0' as int)
    }
}

/// Castling rights name each side's king side (`K`, `k`) and queen side
/// (`Q`, `q`) exactly while that king and the rook of that side have not
/// moved; `-` stands exactly when every king and rook has moved.
pub proof fn law_castling_letters(g: GameView)
    ensures
        castling_text(g).contains('K') <==> !g.wk_moved && !g.rwr_moved,
        castling_text(g).contains('Q') <==> !g.wk_moved && !g.lwr_moved,
        castling_text(g).contains('k') <==> !g.bk_moved && !g.rbr_moved,
        castling_text(g).contains('q') <==> !g.bk_moved && !g.lbr_moved,
        castling_text(g).contains('-') <==> g.wk_moved && g.bk_moved && g.lwr_moved && g.rwr_moved
            && g.lbr_moved && g.rbr_moved,
{
    let wk = when_text(!g.rwr_moved, seq!['K']);
    let wq = when_text(!g.lwr_moved, seq!['Q']);
    let bk = when_text(!g.rbr_moved, seq!['k']);
    let bq = when_text(!g.lbr_moved, seq!['q']);
    let w = when_text(!g.wk_moved, wk + wq);
    let b = when_text(!g.bk_moved, bk + bq);
    let dash = when_text(
        g.wk_moved && g.bk_moved && g.lwr_moved && g.rwr_moved && g.lbr_moved && g.rbr_moved,
        seq!['-'],
    );
    let all: Seq<char> = seq!['K', 'Q', 'k', 'q', '-'];
    assert forall|ch: char| all.contains(ch) implies (castling_text(g).contains(ch) <==> w.contains(ch)
        || b.contains(ch) || dash.contains(ch)) by {
        crate::movement::lemma_contains_concat(w + b, dash, ch);
        crate::movement::lemma_contains_concat(w, b, ch);
    }
    assert forall|ch: char| all.contains(ch) implies (w.contains(ch) <==> !g.wk_moved && (wk.contains(ch)
        || wq.contains(ch))) && (b.contains(ch) <==> !g.bk_moved && (bk.contains(ch) || bq.contains(ch))) by {
        crate::movement::lemma_contains_concat(wk, wq, ch);
        crate::movement::lemma_contains_concat(bk, bq, ch);
    }
    assert forall|ch: char, x: char, f: bool| #[trigger] when_text(f, seq![x]).contains(ch) <==> f && ch == x by {
        if f && ch == x {
            assert(seq![x][0] == ch);
        }
    }
    assert forall|ch: char| #[trigger] dash.contains(ch) ==> ch == '-' by {}
    assert(all.contains('K') && all.contains('Q') && all.contains('k') && all.contains('q') && all.contains('-')) by {
        assert(all[0] == 'K');
        assert(all[1] == 'Q');
        assert(all[2] == 'k');
        assert(all[3] == 'q');
        assert(all[4] == '-');
    }
}

/// The black pieces, codes 1 to 6, are written `r`, `n`, `b`, `q`, `k`,
/// `p`, in that order.
pub proof fn law_black_letters(v: usize)
    requires
        1 <= v <= 6,
    ensures
        piece_letter(v) == seq!['r', 'n', 'b', 'q', 'k', 'p'][v - 1],
{
}

/// Appends the decimal digits of `n`.
pub fn push_decimal(s: &mut String, n: u64)
    ensures
        final(s)@ == old(s)@ + decimal(n as nat),
    decreases n,
{
    if n < 10 {
        push_char(s, (48u8 + (n as u8)) as char);
    } else {
        push_decimal(s, n / 10);
        push_char(s, (48u8 + ((n % 10) as u8)) as char);
        assert(s@ =~= old(s)@ + decimal(n as nat));
    }
}

fn letter_of(v: usize) -> (c: char)
    requires
        1 <= v <= 12,
    ensures
        c == piece_letter(v),
{
    match v {
        1 => 'r',
        2 => 'n',
        3 => 'b',
        4 => 'q',
        5 => 'k',
        6 => 'p',
        7 => 'R',
        8 => 'N',
        9 => 'B',
        10 => 'Q',
        11 => 'K',
        _ => 'P',
    }
}

/// Appends the text of row `r`.
fn push_row(s: &mut String, b: &Board, r: usize)
    requires
        r < 8,
    ensures
        final(s)@ == old(s)@ + row_text(b[r as int]@, 0, r != 7),
{
    let ghost target = old(s)@ + row_text(b[r as int]@, 0, r != 7);
    let mut zeros: u64 = 0;
    let mut col: usize = 0;
    assert(b[r as int]@.skip(0) =~= b[r as int]@);
    while col < 8
        invariant
            r < 8,
            col <= 8,
            zeros <= col,
            s@ + row_text(b[r as int]@.skip(col as int), zeros as nat, r != 7) == target,
        decreases 8 - col,
    {
        let v = b[r][col];
        let ghost cells = b[r as int]@.skip(col as int);
        let ghost rest = b[r as int]@.skip(col + 1);
        let ghost z = zeros as nat;
        assert(cells.drop_first() =~= rest);
        assert(cells[0] == v);
        if v == 0 {
            zeros = zeros + 1;
        } else if 1 <= v && v <= 12 {
            let ghost before = s@;
            if zeros > 0 {
                push_decimal(s, zeros);
            } else {
                assert(s@ + Seq::<char>::empty() =~= s@);
            }
            push_char(s, letter_of(v));
            assert(s@ =~= before + empties(z) + seq![piece_letter(v)]);
            assert(row_text(cells, z, r != 7) == empties(z) + seq![piece_letter(v)] + row_text(rest, 0, r != 7));
            assert(before + row_text(cells, z, r != 7) =~= s@ + row_text(rest, 0, r != 7));
            zeros = 0;
        }
        col += 1;
    }
    assert(b[r as int]@.skip(8) =~= Seq::<usize>::empty());
    if r != 7 && zeros > 0 {
        push_decimal(s, zeros);
    } else {
        assert(s@ + Seq::<char>::empty() =~= s@);
    }
}

fn push_placement(fen: &mut String, b: &Board)
    ensures
        final(fen)@ == old(fen)@ + placement_from(*b, 0),
{
    let mut row: usize = 0;
    while row < 8
        invariant
            row <= 8,
            fen@ + placement_from(*b, row as int) == old(fen)@ + placement_from(*b, 0),
        decreases 8 - row,
    {
        let ghost before = fen@;
        if row > 0 {
            push_char(fen, '/');
        }
        push_row(fen, b, row);
        assert(fen@ + placement_from(*b, row + 1) =~= before + placement_from(*b, row as int));
        row += 1;
    }
    assert(fen@ =~= old(fen)@ + placement_from(*b, 0));
}

fn push_castling(fen: &mut String, se: &Game)
    ensures
        final(fen)@ == old(fen)@ + castling_text(se@),
{
    if !se.wk_moved {
        if !se.rwr_moved {
            push_char(fen, 'K');
        }
        if !se.lwr_moved {
            push_char(fen, 'Q');
        }
    }
    if !se.bk_moved {
        if !se.rbr_moved {
            push_char(fen, 'k');
        }
        if !se.lbr_moved {
            push_char(fen, 'q');
        }
    }
    if se.wk_moved && se.bk_moved && se.lwr_moved && se.rwr_moved && se.lbr_moved && se.rbr_moved {
        push_char(fen, '-');
    }
    assert(fen@ =~= old(fen)@ + castling_text(se@));
}

fn push_en_passant(fen: &mut String, ep: &Vec<i32>)
    requires
        ep@.len() != 1,
    ensures
        final(fen)@ == old(fen)@ + en_passant_text(ep@),
{
    if ep.len() != 0 {
        let square = bo_cmd_to_fen_cmd(ep);
        push_text(fen, square.as_str());
    } else {
        push_char(fen, '-');
        assert(fen@ =~= old(fen)@ + seq!['-']);
    }
}

/// The position of the game in Forsyth-Edwards notation, prefixed with
/// `fen `, for the engine.
pub fn board_to_fen(se: &Game) -> (fen: String)
    requires
        se@.last_en_passant.len() != 1,
    ensures
        fen@ == fen_text(se@),
{
    let mut fen = String::new();
    push_char(&mut fen, 'f');
    push_char(&mut fen, 'e');
    push_char(&mut fen, 'n');
    push_char(&mut fen, ' ');
    let ghost s0 = fen@;
    push_placement(&mut fen, &se.board);
    let ghost s1 = fen@;
    push_char(&mut fen, ' ');
    if se.round == Round::White {
        push_char(&mut fen, 'w');
    } else {
        push_char(&mut fen, 'b');
    }
    push_char(&mut fen, ' ');
    let ghost s2 = fen@;
    push_castling(&mut fen, se);
    let ghost s3 = fen@;
    push_char(&mut fen, ' ');
    push_en_passant(&mut fen, &se.last_en_passant);
    let ghost s4 = fen@;
    push_char(&mut fen, ' ');
    push_char(&mut fen, '-');
    push_char(&mut fen, ' ');
    let ghost s5 = fen@;
    push_decimal(&mut fen, se.half_moves / 2);
    assert(s0 =~= seq!['f', 'e', 'n', ' ']);
    assert(fen@ =~= fen_text(se@));
    fen
}

} // verus!
