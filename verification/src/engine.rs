//! Talking to the chess engine: the script that asks it for a move, and
//! reading the move out of its answer.
use vstd::prelude::*;

use crate::command::{board_square, fen_cmd_to_bo_cmd};
use crate::text::{push_char, push_text, text_chars};

verus! {

/// The text of the script before the position.
pub open spec fn script_head() -> Seq<char> {
    "\n         stockfish << EOF\n         uci\n         position "@
}

/// The text of the script after the position.
pub open spec fn script_tail() -> Seq<char> {
    "\n         go movetime 6000\n         ucinewgame\n         EOF\n         "@
}

/// The shell script that feeds `fen` to the engine and lets it think for
/// six seconds.
pub fn engine_script(fen: &str) -> (script: String)
    ensures
        script@ == script_head() + fen@ + script_tail(),
{
    let mut script = String::new();
    push_text(&mut script, "\n         stockfish << EOF\n         uci\n         position ");
    push_text(&mut script, fen);
    push_text(&mut script, "\n         go movetime 6000\n         ucinewgame\n         EOF\n         ");
    assert(script@ =~= script_head() + fen@ + script_tail());
    script
}

pub open spec fn best_move_word() -> Seq<char> {
    seq!['b', 'e', 's', 't', 'm', 'o', 'v', 'e']
}

/// The first position at or after `i` where `pat` occurs in `s`.
pub open spec fn find_from(s: Seq<char>, pat: Seq<char>, i: int) -> Option<int>
    decreases s.len() + 1 - i,
{
    if i < 0 || i + pat.len() > s.len() {
        None
    } else if s.subrange(i, i + pat.len()) == pat {
        Some(i)
    } else {
        find_from(s, pat, i + 1)
    }
}

/// Where the engine's answer first says `bestmove`.
pub open spec fn best_move_at(s: Seq<char>) -> Option<int> {
    find_from(s, best_move_word(), 0)
}

/// Reading the answer stays within it: when it says `bestmove`, it is
/// ASCII and at least 14 characters run from there to its end.
pub open spec fn best_move_defined(s: Seq<char>) -> bool {
    match best_move_at(s) {
        Some(i) => vstd::utf8::is_ascii_chars(s) && s.len() - i >= 14,
        None => true,
    }
}

/// The five characters that follow `bestmove ` (the move and the
/// character after it), or nothing when the answer has no `bestmove`.
pub open spec fn best_move_text(s: Seq<char>) -> Seq<char> {
    match best_move_at(s) {
        Some(i) => s.subrange(i + 9, i + 14),
        None => seq![],
    }
}

fn word_at(cs: &Vec<char>, i: usize) -> (r: bool)
    requires
        i + 8 <= cs.len(),
    ensures
        r == (cs@.subrange(i as int, i + 8) == best_move_word()),
{
    let r = cs[i] == 'b' && cs[i + 1] == 'e' && cs[i + 2] == 's' && cs[i + 3] == 't' && cs[i + 4]
        == 'm' && cs[i + 5] == 'o' && cs[i + 6] == 'v' && cs[i + 7] == 'e';
    if r {
        assert(cs@.subrange(i as int, i + 8) =~= best_move_word());
    } else {
        assert(cs@.subrange(i as int, i + 8) != best_move_word()) by {
            if cs@.subrange(i as int, i + 8) == best_move_word() {
                assert(cs@.subrange(i as int, i + 8)[0] == cs@[i as int]);
                assert(cs@.subrange(i as int, i + 8)[1] == cs@[i + 1]);
                assert(cs@.subrange(i as int, i + 8)[2] == cs@[i + 2]);
                assert(cs@.subrange(i as int, i + 8)[3] == cs@[i + 3]);
                assert(cs@.subrange(i as int, i + 8)[4] == cs@[i + 4]);
                assert(cs@.subrange(i as int, i + 8)[5] == cs@[i + 5]);
                assert(cs@.subrange(i as int, i + 8)[6] == cs@[i + 6]);
                assert(cs@.subrange(i as int, i + 8)[7] == cs@[i + 7]);
            }
        }
    }
    r
}

/// The move in the engine's answer: the five characters after
/// `bestmove `, or the empty string when the answer has no `bestmove`.
pub fn parse_best_move(output: &str) -> (best: String)
    requires
        best_move_defined(output@),
    ensures
        best@ == best_move_text(output@),
{
    let cs = text_chars(output);
    let n = cs.len();
    let mut i: usize = 0;
    while i <= n && n - i >= 8
        invariant
            cs@ == output@,
            best_move_defined(output@),
            n == cs@.len(),
            i <= n,
            find_from(cs@, best_move_word(), 0) == find_from(cs@, best_move_word(), i as int),
        decreases n - i,
    {
        if word_at(&cs, i) {
            assert(find_from(cs@, best_move_word(), i as int) == Some(i as int));
            assert(best_move_at(output@) == Some(i as int));
            assert(i + 14 <= n);
            let mut best = String::new();
            let mut j: usize = i + 9;
            while j < i + 14
                invariant
                    cs@ == output@,
                    n == cs@.len(),
                    i + 14 <= n,
                    i + 9 <= j <= i + 14,
                    best@ == cs@.subrange(i + 9, j as int),
                decreases i + 14 - j,
            {
                push_char(&mut best, cs[j]);
                assert(best@ =~= cs@.subrange(i + 9, j + 1));
                j += 1;
            }
            return best;
        }
        i += 1;
    }
    String::new()
}

/// The squares (row and column each) of the engine's move `best`: its
/// first two characters name the origin, the next two the target.
pub fn engine_move_squares(best: &str) -> (squares: (Vec<i32>, Vec<i32>))
    requires
        best@.len() >= 4,
    ensures
        squares.0@ == board_square(best@.subrange(0, 2)),
        squares.1@ == board_square(best@.subrange(2, 4)),
{
    let cs = text_chars(best);
    let mut m1 = String::new();
    push_char(&mut m1, cs[0]);
    push_char(&mut m1, cs[1]);
    let mut m2 = String::new();
    push_char(&mut m2, cs[2]);
    push_char(&mut m2, cs[3]);
    assert(m1@ =~= best@.subrange(0, 2));
    assert(m2@ =~= best@.subrange(2, 4));
    (fen_cmd_to_bo_cmd(m1), fen_cmd_to_bo_cmd(m2))
}

/// The answer is read from the first place where it says `bestmove`:
/// there the word stands, and no earlier place holds it; when none is
/// found, no place holds it.
pub proof fn law_best_move_is_found_first(s: Seq<char>)
    ensures
        match best_move_at(s) {
            Some(i) => 0 <= i && i + 8 <= s.len() && s.subrange(i, i + 8) == best_move_word() && forall|j: int|
                0 <= j < i ==> #[trigger] s.subrange(j, j + 8) != best_move_word(),
            None => forall|j: int| 0 <= j && j + 8 <= s.len() ==> #[trigger] s.subrange(j, j + 8) != best_move_word(),
        },
{
    lemma_find_from(s, 0);
}

proof fn lemma_find_from(s: Seq<char>, i: int)
    requires
        0 <= i,
    ensures
        match find_from(s, best_move_word(), i) {
            Some(k) => i <= k && k + 8 <= s.len() && s.subrange(k, k + 8) == best_move_word() && forall|j: int|
                i <= j < k ==> #[trigger] s.subrange(j, j + 8) != best_move_word(),
            None => forall|j: int| i <= j && j + 8 <= s.len() ==> #[trigger] s.subrange(j, j + 8) != best_move_word(),
        },
    decreases s.len() + 1 - i,
{
    if i + 8 <= s.len() && s.subrange(i, i + 8) != best_move_word() {
        lemma_find_from(s, i + 1);
    }
}

} // verus!
