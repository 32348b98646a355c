//! Move commands typed by the player (`row:col>row:col`) and squares in
//! algebraic notation (`e4`).
use vstd::prelude::*;

use crate::text::push_char;

verus! {

broadcast use vstd::string::group_string_axioms;

/// A row or column digit of a command: `0` to `7`.
pub open spec fn is_coord(ch: char) -> bool {
    '0' <= ch <= '7'
}

/// The command has the shape `r:c>r:c` with every coordinate from 0 to 7.
pub open spec fn valid_command(s: Seq<char>) -> bool {
    &&& s.len() == 7
    &&& is_coord(s[0])
    &&& s[1] == ':'
    &&& is_coord(s[2])
    &&& s[3] == '>'
    &&& is_coord(s[4])
    &&& s[5] == ':'
    &&& is_coord(s[6])
}

pub open spec fn is_decimal_digit(ch: char) -> bool {
    '0' <= ch <= '9'
}

pub open spec fn digit_value(ch: char) -> int {
    ch as int - '0' as int
}

/// Reading the command needs decimal digits at positions 0, 2, 4 and 6.
pub open spec fn parse_cmd_defined(s: Seq<char>) -> bool {
    &&& s.len() >= 7
    &&& is_decimal_digit(s[0])
    &&& is_decimal_digit(s[2])
    &&& is_decimal_digit(s[4])
    &&& is_decimal_digit(s[6])
}

/// The origin row and column and the target row and column of a command.
pub open spec fn parsed_command(s: Seq<char>) -> (int, int, int, int) {
    (digit_value(s[0]), digit_value(s[2]), digit_value(s[4]), digit_value(s[6]))
}

/// The file letter of column `c`, `a` for column 0; nothing off the board.
pub open spec fn file_char(c: int) -> Seq<char> {
    if 0 <= c < 8 {
        seq![(('a' as int) + c) as char]
    } else {
        seq![]
    }
}

/// The rank digit of row `r`, `8` for row 0; nothing off the board.
pub open spec fn rank_char(r: int) -> Seq<char> {
    if 0 <= r < 8 {
        seq![(('8' as int) - r) as char]
    } else {
        seq![]
    }
}

/// The algebraic name of square (`r`, `c`).
pub open spec fn fen_square(r: int, c: int) -> Seq<char> {
    file_char(c) + rank_char(r)
}

/// The row of a rank digit `1` to `8`, as a one-element sequence.
pub open spec fn rank_index(ch: char) -> Seq<i32> {
    if '1' <= ch <= '8' {
        seq![(('8' as int) - (ch as int)) as i32]
    } else {
        seq![]
    }
}

/// The column of a file letter `a` to `h`, as a one-element sequence.
pub open spec fn file_index(ch: char) -> Seq<i32> {
    if 'a' <= ch <= 'h' {
        seq![((ch as int) - ('a' as int)) as i32]
    } else {
        seq![]
    }
}

/// The row, then the column, named by the first two characters of an
/// algebraic square; a character that names nothing adds nothing.
pub open spec fn board_square(s: Seq<char>) -> Seq<i32> {
    rank_index(s[1]) + file_index(s[0])
}

/// Whether `ch` is one of the digits `0` to `7`.
pub fn contains_07(ch: char) -> (r: bool)
    ensures
        r == is_coord(ch),
{
    '0' <= ch && ch <= '7'
}

/// Whether `cmd` is a move command `r:c>r:c` with coordinates 0 to 7.
pub fn valid(cmd: String) -> (r: bool)
    ensures
        r == valid_command(cmd@),
{
    let s = cmd.as_str();
    if !s.is_ascii() {
        assert(valid_command(s@) ==> vstd::utf8::is_ascii_chars(s@));
        return false;
    }
    // For ASCII text the byte length and the character count agree.
    if s.unicode_len() != 7 {
        return false;
    }
    contains_07(s.get_char(0)) && s.get_char(1) == ':' && contains_07(s.get_char(2)) && s.get_char(3)
        == '>' && contains_07(s.get_char(4)) && s.get_char(5) == ':' && contains_07(s.get_char(6))
}

fn digit_of(ch: char) -> (r: u32)
    requires
        is_decimal_digit(ch),
    ensures
        r == digit_value(ch),
{
    (ch as u32) - ('0' as u32)
}

/// The origin row, origin column, target row and target column of a
/// command.
pub fn parse_cmd(cmd: String) -> (r: (u32, u32, u32, u32))
    requires
        parse_cmd_defined(cmd@),
    ensures
        (r.0 as int, r.1 as int, r.2 as int, r.3 as int) == parsed_command(cmd@),
{
    let s = cmd.as_str();
    let og_r = digit_of(s.get_char(0));
    let og_c = digit_of(s.get_char(2));
    let n_r = digit_of(s.get_char(4));
    let n_c = digit_of(s.get_char(6));
    (og_r, og_c, n_r, n_c)
}

/// The algebraic name of the square (`c[0]`, `c[1]`): file letter, then
/// rank digit; a coordinate off the board adds nothing.
pub fn bo_cmd_to_fen_cmd(c: &Vec<i32>) -> (r: String)
    requires
        c@.len() >= 2,
    ensures
        r@ == fen_square(c@[0] as int, c@[1] as int),
{
    let mut cmd = String::new();
    let col = c[1];
    if 0 <= col && col < 8 {
        push_char(&mut cmd, (97u8 + (col as u8)) as char);
    }
    let row = c[0];
    if 0 <= row && row < 8 {
        push_char(&mut cmd, (56u8 - (row as u8)) as char);
    }
    assert(cmd@ =~= fen_square(c@[0] as int, c@[1] as int));
    cmd
}

/// The row and column named by an algebraic square such as `e4`.
pub fn fen_cmd_to_bo_cmd(c: String) -> (r: Vec<i32>)
    requires
        c@.len() >= 2,
    ensures
        r@ == board_square(c@),
{
    let s = c.as_str();
    let mut cmd: Vec<i32> = Vec::new();
    let rank = s.get_char(1);
    if '1' <= rank && rank <= '8' {
        cmd.push((('8' as u32) - (rank as u32)) as i32);
    }
    let file = s.get_char(0);
    if 'a' <= file && file <= 'h' {
        cmd.push(((file as u32) - ('a' as u32)) as i32);
    }
    assert(cmd@ =~= board_square(c@));
    cmd
}

/// A square on the board named in algebraic notation reads back as the
/// same square.
pub proof fn lemma_square_round_trip(r: int, c: int)
    requires
        0 <= r < 8,
        0 <= c < 8,
    ensures
        board_square(fen_square(r, c)) == seq![r as i32, c as i32],
{
    let s = fen_square(r, c);
    assert(s[0] == (('a' as int) + c) as char);
    assert(s[1] == (('8' as int) - r) as char);
    assert(board_square(s) =~= seq![r as i32, c as i32]);
}

/// An algebraic square `a1` to `h8` read as a row and column names itself
/// again.
pub proof fn lemma_algebraic_round_trip(s: Seq<char>)
    requires
        s.len() == 2,
        'a' <= s[0] <= 'h',
        '1' <= s[1] <= '8',
    ensures
        board_square(s).len() == 2,
        fen_square(board_square(s)[0] as int, board_square(s)[1] as int) == s,
{
    let q = board_square(s);
    assert(q[0] == (('8' as int) - (s[1] as int)) as i32);
    assert(q[1] == ((s[0] as int) - ('a' as int)) as i32);
    assert(fen_square(q[0] as int, q[1] as int) =~= s);
}

/// A valid command reads as four coordinates on the board.
pub proof fn lemma_valid_command_on_board(s: Seq<char>)
    requires
        valid_command(s),
    ensures
        parse_cmd_defined(s),
        0 <= parsed_command(s).0 < 8,
        0 <= parsed_command(s).1 < 8,
        0 <= parsed_command(s).2 < 8,
        0 <= parsed_command(s).3 < 8,
{
}

/// The digit that writes a coordinate from 0 to 7.
pub open spec fn coord_char(n: int) -> char {
    (('0' as int) + n) as char
}

/// The command that moves (`or`, `oc`) to (`nr`, `nc`).
pub open spec fn command_text(or: int, oc: int, nr: int, nc: int) -> Seq<char> {
    seq![coord_char(or), ':', coord_char(oc), '>', coord_char(nr), ':', coord_char(nc)]
}

/// Every move between squares of the board has a command, which is valid
/// and reads back as that move; and every valid command is the command of
/// the move it reads as.
pub proof fn law_commands_name_moves(or: int, oc: int, nr: int, nc: int, s: Seq<char>)
    ensures
        0 <= or < 8 && 0 <= oc < 8 && 0 <= nr < 8 && 0 <= nc < 8 ==> valid_command(command_text(or, oc, nr, nc))
            && parsed_command(command_text(or, oc, nr, nc)) == (or, oc, nr, nc),
        valid_command(s) ==> s == command_text(
            parsed_command(s).0,
            parsed_command(s).1,
            parsed_command(s).2,
            parsed_command(s).3,
        ),
{
    if valid_command(s) {
        let q = parsed_command(s);
        assert(s =~= command_text(q.0, q.1, q.2, q.3));
    }
}

/// A square on the board is named by two characters: its file letter,
/// `a` for column 0 counting right, and its rank digit, `8` for row 0
/// counting down.
pub proof fn law_square_names(r: int, c: int)
    requires
        0 <= r < 8,
        0 <= c < 8,
    ensures
        fen_square(r, c).len() == 2,
        fen_square(r, c)[0] as int - 'a' as int == c,
        '8' as int - fen_square(r, c)[1] as int == r,
{
}

} // verus!
