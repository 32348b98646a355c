//! What a played move records between two people, and what a take-back
//! against the engine restores.
use vstd::prelude::*;

use crate::board::{cell, is_black, is_white, on_board, same_board, set_cell, Board};
use crate::game::{GameState, GameView, MoveInfo, Round};
use crate::rules::{in_check, is_mate};
use crate::turn::{
    ai_board, ai_game, own_check_info, promoted_code, ai_revert_board, apply_move, en_passant_after, other_side, own_king, pvp_game, pvp_promotion,
    record_capture, rook_flags, sat_inc, state_after_reply, Promotion,
};

verus! {

/// A move between two people that leaves the mover's king safe lands on
/// the board as `apply_move` says, is valid, counts a half move and passes
/// the turn. A white piece taking a black one adds the taken code to
/// white's captures, and the other way round; a move onto an empty square
/// records no capture.
pub proof fn law_pvp_move_records_captures(g: GameView, or: int, oc: int, nr: int, nc: int)
    requires
        on_board(or, oc),
        on_board(nr, nc),
        !(or == nr && oc == nc),
        !in_check(apply_move(g.board, or, oc, nr, nc), own_king(g.round)),
    ensures
        ({
            let p = cell(g.board, or, oc);
            let t = cell(g.board, nr, nc);
            let h = pvp_game(g, or, oc, nr, nc);
            &&& h.board == apply_move(g.board, or, oc, nr, nc)
            &&& h.round == other_side(g.round)
            &&& h.move_info == MoveInfo::Valid
            &&& h.half_moves == sat_inc(g.half_moves)
            &&& is_white(p) && is_black(t) ==> h.white_captures == g.white_captures.push(t as i32)
                && h.black_captures == g.black_captures
            &&& is_black(p) && is_white(t) ==> h.black_captures == g.black_captures.push(t as i32)
                && h.white_captures == g.white_captures
            &&& t == 0 ==> h.white_captures == g.white_captures && h.black_captures == g.black_captures
        }),
{
    reveal(record_capture);
    reveal(rook_flags);
    reveal(same_board);
    reveal(apply_move);
    let p = cell(g.board, or, oc);
    let t = cell(g.board, nr, nc);
    let b1 = apply_move(g.board, or, oc, nr, nc);
    if (is_white(p) && is_black(t)) || (is_black(p) && is_white(t)) {
        assert(cell(b1, nr, nc) == p);
        assert(b1 != g.board);
    }
}

/// After a safe move between two people, the other king's fate is
/// recorded: mated, the mover has won; in check, that check; otherwise the
/// game goes on.
pub proof fn law_pvp_move_records_the_reply(g: GameView, or: int, oc: int, nr: int, nc: int)
    requires
        !in_check(apply_move(g.board, or, oc, nr, nc), own_king(g.round)),
    ensures
        ({
            let b1 = apply_move(g.board, or, oc, nr, nc);
            let k: i32 = if g.round == Round::White {
                5
            } else {
                11
            };
            let h = pvp_game(g, or, oc, nr, nc);
            &&& in_check(b1, k) && is_mate(b1, k) ==> h.game_state == if g.round == Round::White {
                GameState::WhiteWon
            } else {
                GameState::BlackWon
            }
            &&& in_check(b1, k) && !is_mate(b1, k) ==> h.game_state == if g.round == Round::White {
                GameState::BlackCheck
            } else {
                GameState::WhiteCheck
            }
            &&& !in_check(b1, k) ==> h.game_state == GameState::Playing
        }),
{
    reveal(record_capture);
    reveal(rook_flags);
    reveal(state_after_reply);
}

/// After a safe move between two people, a pawn's double step leaves the
/// square it passed (row between, same column) as the passed square; any
/// other move keeps the one there was.
pub proof fn law_pvp_move_notes_the_passed_square(g: GameView, or: int, oc: int, nr: int, nc: int)
    requires
        !in_check(apply_move(g.board, or, oc, nr, nc), own_king(g.round)),
    ensures
        ({
            let p = cell(g.board, or, oc);
            let h = pvp_game(g, or, oc, nr, nc);
            &&& p == 12 && nr == or - 2 ==> h.last_en_passant == seq![(nr + 1) as i32, nc as i32]
            &&& p == 6 && nr == or + 2 ==> h.last_en_passant == seq![(nr - 1) as i32, nc as i32]
            &&& !(p == 12 && nr == or - 2) && !(p == 6 && nr == or + 2) ==> h.last_en_passant
                == g.last_en_passant
        }),
{
    reveal(record_capture);
    reveal(rook_flags);
    reveal(en_passant_after);
}

/// Between two people, a safe move of a pawn of the side to move onto the
/// far row (row 0 for white, row 7 for black) waits for its promotion on
/// its target square; no other move does.
pub proof fn law_pvp_promotion(g: GameView, or: int, oc: int, nr: int, nc: int)
    requires
        on_board(nr, nc),
    ensures
        ({
            let p = cell(g.board, or, oc);
            let safe = !in_check(apply_move(g.board, or, oc, nr, nc), own_king(g.round));
            pvp_promotion(g, or, oc, nr, nc) == if safe && g.round == Round::White && p == 12 && nr == 0 {
                Some(Promotion { row: 0, col: nc as usize, side: Round::White })
            } else if safe && g.round == Round::Black && p == 6 && nr == 7 {
                Some(Promotion { row: 7, col: nc as usize, side: Round::Black })
            } else {
                None::<Promotion>
            }
        }),
{
}

/// Between two people, a rook corner once marked stays marked; a safe move
/// that changes the board and leaves the black left corner without its
/// rook marks it; a move that leaves the board as it was, or all four
/// corners with their rooks, marks nothing; the kings are never marked.
pub proof fn law_pvp_move_marks_rook_corners(g: GameView, or: int, oc: int, nr: int, nc: int)
    requires
        !in_check(apply_move(g.board, or, oc, nr, nc), own_king(g.round)),
    ensures
        ({
            let b1 = apply_move(g.board, or, oc, nr, nc);
            let h = pvp_game(g, or, oc, nr, nc);
            &&& g.lbr_moved ==> h.lbr_moved
            &&& g.rbr_moved ==> h.rbr_moved
            &&& g.lwr_moved ==> h.lwr_moved
            &&& g.rwr_moved ==> h.rwr_moved
            &&& b1 != g.board && cell(b1, 0, 0) != 1 ==> h.lbr_moved
            &&& (b1 == g.board || (cell(b1, 0, 0) == 1 && cell(b1, 0, 7) == 1 && cell(b1, 7, 0) == 7 && cell(
                b1,
                7,
                7,
            ) == 7)) ==> h.lbr_moved == g.lbr_moved && h.rbr_moved == g.rbr_moved && h.lwr_moved
                == g.lwr_moved && h.rwr_moved == g.rwr_moved
            &&& h.wk_moved == g.wk_moved && h.bk_moved == g.bk_moved
        }),
{
    reveal(record_capture);
    reveal(rook_flags);
    reveal(same_board);
}

/// Against the engine, a taken-back move gives back the position before
/// it: any move but a castling one leaves that position as it was, and a
/// castling king that stood on column 4 of its home row, with the rook in
/// the corner it was taken onto and, on the king side, the two squares
/// between empty, finds them all there again.
pub proof fn law_take_back_restores(b: Board, or: int, oc: int, nr: int, nc: int, r: Round)
    requires
        ({
            let p = cell(b, or, oc);
            let t = cell(b, nr, nc);
            let castles = if r == Round::White {
                p == 11 && t == 7
            } else {
                p == 5 && t == 1
            };
            let home: int = if r == Round::White {
                7
            } else {
                0
            };
            castles ==> {
                &&& cell(b, home, 4) == p
                &&& (nc == 0 || nc == 7) ==> cell(b, home, nc) == t
                &&& nc == 7 ==> cell(b, home, 5) == 0 && cell(b, home, 6) == 0
            }
        }),
    ensures
        ai_revert_board(b, or, oc, nr, nc, r) == b,
{
    reveal(ai_revert_board);
    let home: int = if r == Round::White {
        7
    } else {
        0
    };
    assert forall|i: int, j: int, v: usize| 0 <= i < 8 && 0 <= j < 8 && cell(b, i, j) == v implies set_cell(
        b,
        i,
        j,
        v,
    ) == b by {
        assert(set_cell(b, i, j, v)[i] =~= b[i]);
        assert(set_cell(b, i, j, v) =~= b);
    }
}

/// Against the engine, a move that leaves the mover's king safe stays on
/// the board and keeps the turn for the engine's reply; one that leaves it
/// in check is taken back, recorded as such, and the turn passes. A move
/// that leaves no king in check is valid, counts a half move and notes the
/// passed square. On the resulting board a mated black king means white
/// has won and a mated white king that black has won; a king in check
/// without mate is recorded as in check, black looked at first.
pub proof fn law_ai_move_records(g: GameView, or: int, oc: int, nr: int, nc: int)
    ensures
        ({
            let b1 = apply_move(g.board, or, oc, nr, nc);
            let own = own_king(g.round);
            let h = ai_game(g, or, oc, nr, nc);
            let b3 = h.board;
            &&& !in_check(b1, own) ==> b3 == b1 && h.round == g.round
            &&& in_check(b1, own) ==> b3 == ai_revert_board(g.board, or, oc, nr, nc, g.round) && h.round
                == other_side(g.round) && h.move_info == own_check_info(g.round)
            &&& !in_check(b1, 5) && !in_check(b1, 11) ==> h.move_info == MoveInfo::Valid && h.half_moves
                == sat_inc(g.half_moves) && h.last_en_passant == en_passant_after(
                g.board,
                or,
                oc,
                nr,
                nc,
                g.last_en_passant,
            )
            &&& in_check(b3, 5) && is_mate(b3, 5) ==> h.game_state == GameState::WhiteWon
            &&& in_check(b3, 5) && !is_mate(b3, 5) ==> h.game_state == GameState::BlackCheck
            &&& !in_check(b3, 5) && in_check(b3, 11) && is_mate(b3, 11) ==> h.game_state == GameState::BlackWon
            &&& !in_check(b3, 5) && in_check(b3, 11) && !is_mate(b3, 11) ==> h.game_state
                == GameState::WhiteCheck
        }),
{
    reveal(record_capture);
    reveal(rook_flags);
    assert(ai_game(g, or, oc, nr, nc).board == ai_board(g, or, oc, nr, nc));
}

/// A promoted pawn becomes a piece of its own side: choices 1 to 4 give
/// a rook, knight, bishop or queen, the white one six codes above the
/// black one.
pub proof fn law_promotion_keeps_the_side(choice: i32)
    requires
        1 <= choice <= 4,
    ensures
        is_white(promoted_code(Round::White, choice)),
        is_black(promoted_code(Round::Black, choice)),
        promoted_code(Round::White, choice) == promoted_code(Round::Black, choice) + 6,
{
}

} // verus!
