//! What holds of every move: what a refused move leaves alone, what a move
//! into check undoes, and the shapes of the state that every move keeps.
use vstd::prelude::*;

use crate::board::{cell, is_black, is_white, on_board, pos_moves, set_cell, Board};
use crate::command::{parsed_command, valid_command};
use crate::game::{initial_board, key_step, GameState, GameView, KeyAction, Modes, MoveInfo, Round};
use crate::rules::{after_can_move, after_check, after_mate, can_move_spec, in_check};
use crate::turn::{
    ai_board, ai_game, ai_reference, ai_revert_board, ai_taken_back, apply_move, en_passant_after,
    own_check_info, own_king, other_side, player_move_spec, pvp_game, record_capture, rook_flags,
    sat_inc, Promotion,
};

verus! {

/// Every square holds a piece code from 0 to 12.
pub open spec fn codes_in_range(b: Board) -> bool {
    forall|r: int, c: int| on_board(r, c) ==> #[trigger] cell(b, r, c) <= 12
}

/// The remembered double-step square is absent or a row and a column.
pub open spec fn passed_square_shape(ep: Seq<i32>) -> bool {
    ep.len() == 0 || ep.len() == 2
}

/// The restart key starts the same new game whatever game was in
/// progress: only the mode, the debug switch and the mode screen carry
/// over, and the board is the starting position with white to move.
pub proof fn law_restart_forgets_the_game(g: GameView, h: GameView)
    requires
        g.mode == h.mode,
        g.debug == h.debug,
        g.mode_screen == h.mode_screen,
    ensures
        key_step(g, 'r') == key_step(h, 'r'),
        key_step(g, 'r').0.board == initial_board(),
        key_step(g, 'r').0.round == Round::White,
        key_step(g, 'r').0.game_started,
        key_step(g, 'r').1 == KeyAction::ShowGame,
{
}

/// Asking whether a king is in check, whether it is mated, or whether a
/// move may be played never moves a piece, never passes the turn and
/// never touches the captures.
pub proof fn law_questions_keep_the_position(g: GameView, k: i32, or: int, oc: int, nr: int, nc: int)
    ensures
        after_check(g, k).board == g.board,
        after_check(g, k).round == g.round,
        after_check(g, k).white_captures == g.white_captures,
        after_check(g, k).black_captures == g.black_captures,
        after_mate(g, k).board == g.board,
        after_mate(g, k).round == g.round,
        after_mate(g, k).white_captures == g.white_captures,
        after_mate(g, k).black_captures == g.black_captures,
        after_can_move(g, or, oc, nr, nc).board == g.board,
        after_can_move(g, or, oc, nr, nc).round == g.round,
        after_can_move(g, or, oc, nr, nc).game_state == g.game_state,
{
}

/// A command that is not `r:c>r:c`, or a move that may not be played,
/// changes nothing but the move info, which records an invalid move.
pub proof fn law_refused_move_changes_nothing_else(g: GameView, cmd: Seq<char>)
    requires
        !valid_command(cmd) || !can_move_spec(
            g,
            parsed_command(cmd).0,
            parsed_command(cmd).1,
            parsed_command(cmd).2,
            parsed_command(cmd).3,
        ),
    ensures
        player_move_spec(g, cmd) == (GameView { move_info: MoveInfo::InValid, ..g }, None::<Promotion>),
{
}

/// Between two people, a move that would leave the mover's own king in
/// check is taken back: the board, the turn, the captures and the rook
/// corners stay as they were, the move info names the king, and no pawn
/// is promoted.
pub proof fn law_move_into_check_is_taken_back(g: GameView, cmd: Seq<char>)
    requires
        valid_command(cmd),
        g.mode == Modes::PvP,
        ({
            let (or, oc, nr, nc) = parsed_command(cmd);
            &&& can_move_spec(g, or, oc, nr, nc)
            &&& in_check(apply_move(g.board, or, oc, nr, nc), own_king(g.round))
        }),
    ensures
        player_move_spec(g, cmd).0.board == g.board,
        player_move_spec(g, cmd).0.round == g.round,
        player_move_spec(g, cmd).0.white_captures == g.white_captures,
        player_move_spec(g, cmd).0.black_captures == g.black_captures,
        player_move_spec(g, cmd).0.move_info == own_check_info(g.round),
        player_move_spec(g, cmd).0.game_state == GameState::Playing,
        player_move_spec(g, cmd).1 is None,
{
}

/// Between two people, a move that leaves the mover's king safe is played
/// as `apply_move` says, is recorded as valid, counts one half move and
/// passes the turn.
pub proof fn law_safe_move_passes_the_turn(g: GameView, cmd: Seq<char>)
    requires
        valid_command(cmd),
        g.mode == Modes::PvP,
        ({
            let (or, oc, nr, nc) = parsed_command(cmd);
            &&& can_move_spec(g, or, oc, nr, nc)
            &&& !in_check(apply_move(g.board, or, oc, nr, nc), own_king(g.round))
        }),
    ensures
        ({
            let (or, oc, nr, nc) = parsed_command(cmd);
            let h = player_move_spec(g, cmd).0;
            &&& h.board == apply_move(g.board, or, oc, nr, nc)
            &&& h.round == other_side(g.round)
            &&& h.move_info == MoveInfo::Valid
            &&& h.half_moves == sat_inc(g.half_moves)
        }),
{
    reveal(record_capture);
    reveal(rook_flags);
}

proof fn lemma_set_cell_in_range(b: Board, r: int, c: int, v: usize)
    requires
        codes_in_range(b),
        on_board(r, c),
        v <= 12,
    ensures
        codes_in_range(set_cell(b, r, c, v)),
{
    assert forall|i: int, j: int| on_board(i, j) implies #[trigger] cell(set_cell(b, r, c, v), i, j)
        <= 12 by {
        assert(cell(b, i, j) <= 12);
    }
}

proof fn lemma_apply_move_in_range(b: Board, or: int, oc: int, nr: int, nc: int)
    requires
        codes_in_range(b),
        on_board(or, oc),
        on_board(nr, nc),
    ensures
        codes_in_range(apply_move(b, or, oc, nr, nc)),
{
    reveal(apply_move);
    let og = cell(b, or, oc);
    let t = cell(b, nr, nc);
    if og == 5 && t == 1 {
        lemma_set_cell_in_range(b, 0, 4, 1);
        lemma_set_cell_in_range(set_cell(b, 0, 4, 1), 0, 0, 5);
        lemma_set_cell_in_range(set_cell(b, 0, 4, 1), 0, 7, 5);
    } else if og == 11 && t == 7 {
        lemma_set_cell_in_range(b, 7, 4, 7);
        lemma_set_cell_in_range(set_cell(b, 7, 4, 7), 7, 0, 11);
        lemma_set_cell_in_range(set_cell(b, 7, 4, 7), 7, 7, 11);
    } else {
        assert(og <= 12);
        lemma_set_cell_in_range(b, nr, nc, og);
        lemma_set_cell_in_range(set_cell(b, nr, nc, og), or, oc, 0);
    }
}

proof fn lemma_revert_in_range(b: Board, or: int, oc: int, nr: int, nc: int, r: Round)
    requires
        codes_in_range(b),
    ensures
        codes_in_range(ai_revert_board(b, or, oc, nr, nc, r)),
{
    reveal(ai_revert_board);
    let b1 = set_cell(b, 7, 4, 11);
    lemma_set_cell_in_range(b, 7, 4, 11);
    lemma_set_cell_in_range(b1, 7, 0, 7);
    lemma_set_cell_in_range(b1, 7, 7, 7);
    lemma_set_cell_in_range(set_cell(b1, 7, 7, 7), 7, 5, 0);
    lemma_set_cell_in_range(set_cell(set_cell(b1, 7, 7, 7), 7, 5, 0), 7, 6, 0);
    let b2 = set_cell(b, 0, 0, 1);
    lemma_set_cell_in_range(b, 0, 0, 1);
    lemma_set_cell_in_range(b2, 0, 4, 5);
    let b3 = set_cell(b, 0, 4, 5);
    lemma_set_cell_in_range(b, 0, 4, 5);
    lemma_set_cell_in_range(b3, 0, 7, 1);
    lemma_set_cell_in_range(set_cell(b3, 0, 7, 1), 0, 5, 0);
    lemma_set_cell_in_range(set_cell(set_cell(b3, 0, 7, 1), 0, 5, 0), 0, 6, 0);
}

/// A played command keeps every square's code between 0 and 12, and keeps
/// the remembered double-step square absent or a row and a column.
pub proof fn law_move_keeps_state_shape(g: GameView, cmd: Seq<char>)
    requires
        codes_in_range(g.board),
        passed_square_shape(g.last_en_passant),
    ensures
        codes_in_range(player_move_spec(g, cmd).0.board),
        passed_square_shape(player_move_spec(g, cmd).0.last_en_passant),
{
    reveal(record_capture);
    reveal(rook_flags);
    reveal(en_passant_after);
    if valid_command(cmd) {
        let (or, oc, nr, nc) = parsed_command(cmd);
        if can_move_spec(g, or, oc, nr, nc) {
            lemma_apply_move_in_range(g.board, or, oc, nr, nc);
            lemma_revert_in_range(g.board, or, oc, nr, nc, g.round);
            if g.mode == Modes::PvP {
                assert(codes_in_range(pvp_game(g, or, oc, nr, nc).board));
            } else {
                assert(ai_board(g, or, oc, nr, nc) == if ai_taken_back(g, or, oc, nr, nc) {
                    ai_reference(g, or, oc, nr, nc)
                } else {
                    apply_move(g.board, or, oc, nr, nc)
                });
                assert(codes_in_range(ai_game(g, or, oc, nr, nc).board));
            }
        }
    }
}

/// A move puts the moving piece on its target and empties its origin. A
/// black king taken onto a black rook, or a white king onto a white rook,
/// castles instead: in column 0 or 7 the king lands on that corner of its
/// home row and the rook on column 4 of it; in another column nothing
/// moves. No other square changes.
pub proof fn law_move_touches_only_its_squares(b: Board, or: int, oc: int, nr: int, nc: int, r: int, c: int)
    requires
        on_board(or, oc),
        on_board(nr, nc),
        on_board(r, c),
    ensures
        ({
            let og = cell(b, or, oc);
            let t = cell(b, nr, nc);
            let after = cell(apply_move(b, or, oc, nr, nc), r, c);
            if og == 5 && t == 1 {
                after == if (nc == 0 || nc == 7) && r == 0 && c == nc {
                    5
                } else if (nc == 0 || nc == 7) && r == 0 && c == 4 {
                    1
                } else {
                    cell(b, r, c)
                }
            } else if og == 11 && t == 7 {
                after == if (nc == 0 || nc == 7) && r == 7 && c == nc {
                    11
                } else if (nc == 0 || nc == 7) && r == 7 && c == 4 {
                    7
                } else {
                    cell(b, r, c)
                }
            } else {
                after == if r == or && c == oc {
                    0
                } else if r == nr && c == nc {
                    og
                } else {
                    cell(b, r, c)
                }
            }
        }),
{
    reveal(apply_move);
}

/// The piece of the side to move may go onto an empty square or onto a
/// piece of the other side exactly when that square is among its
/// generated moves.
pub proof fn law_move_follows_generated_moves(g: GameView, or: int, oc: int, nr: int, nc: int)
    requires
        ({
            let p = cell(g.board, or, oc);
            let t = cell(g.board, nr, nc);
            &&& (is_black(p) && g.round == Round::Black) || (is_white(p) && g.round == Round::White)
            &&& t == 0 || (is_black(p) && is_white(t)) || (is_white(p) && is_black(t))
        }),
    ensures
        can_move_spec(g, or, oc, nr, nc) == pos_moves(g.board, cell(g.board, or, oc) as i32, or, oc).contains(
            (nr as i32, nc as i32),
        ),
{
}

/// A move from an empty square, or of a piece of the side not to move, is
/// refused; so, unless white is in check, is a move onto a piece of the
/// mover's own side, but for a king onto a rook of its side.
pub proof fn law_refused_move_kinds(g: GameView, or: int, oc: int, nr: int, nc: int)
    ensures
        ({
            let p = cell(g.board, or, oc);
            let t = cell(g.board, nr, nc);
            &&& p == 0 ==> !can_move_spec(g, or, oc, nr, nc)
            &&& is_black(p) && g.round == Round::White ==> !can_move_spec(g, or, oc, nr, nc)
            &&& is_white(p) && g.round == Round::Black ==> !can_move_spec(g, or, oc, nr, nc)
            &&& g.game_state != GameState::WhiteCheck && is_black(p) && is_black(t) && !(p == 5 && t == 1)
                ==> !can_move_spec(g, or, oc, nr, nc)
            &&& g.game_state != GameState::WhiteCheck && is_white(p) && is_white(t) && !(p == 11 && t == 7)
                ==> !can_move_spec(g, or, oc, nr, nc)
        }),
{
}

/// A king of the side to move taken onto a rook of its side, while white
/// is not in check, castles exactly when its own side is not in check, the
/// king has not moved, and the rook is in column 0 or 7, has not moved,
/// and has only empty squares of the king's home row between it and
/// column 4; otherwise the move is refused.
pub proof fn law_castling_rule(g: GameView, or: int, oc: int, nr: int, nc: int)
    requires
        g.game_state != GameState::WhiteCheck,
    ensures
        ({
            let b = g.board;
            let p = cell(b, or, oc);
            let t = cell(b, nr, nc);
            &&& g.round == Round::Black && p == 5 && t == 1 ==> (can_move_spec(g, or, oc, nr, nc) <==> (g.game_state
                != GameState::BlackCheck && !g.bk_moved && ((nc == 0 && !g.lbr_moved && cell(b, 0, 1) == 0
                && cell(b, 0, 2) == 0 && cell(b, 0, 3) == 0) || (nc == 7 && !g.rbr_moved && cell(b, 0, 5) == 0
                && cell(b, 0, 6) == 0))))
            &&& g.round == Round::White && p == 11 && t == 7 ==> (can_move_spec(g, or, oc, nr, nc) <==> (
            !g.wk_moved && ((nc == 0 && !g.lwr_moved && cell(b, 7, 1) == 0 && cell(b, 7, 2) == 0 && cell(
                b,
                7,
                3,
            ) == 0) || (nc == 7 && !g.rwr_moved && cell(b, 7, 5) == 0 && cell(b, 7, 6) == 0))))
        }),
{
}

/// The keys of the start screen: `q` always quits; before a game starts,
/// `h` and `s` show the help and start screens, `o` opens the mode screen
/// and, there, `n` switches between the two modes, so that two presses
/// give the mode back; once a game runs, `m` asks for a move and `d`
/// switches debugging on or off, while `h`, `s`, `o` and `n` do nothing.
/// No key but `r` touches the position.
pub proof fn law_keys_of_the_start_screen(g: GameView, key: char)
    ensures
        key_step(g, 'q') == (g, KeyAction::Quit),
        !g.game_started ==> key_step(g, 'h') == (g, KeyAction::ShowHelp) && key_step(g, 's') == (
        g,
        KeyAction::ShowStart,
        ) && key_step(g, 'o') == (GameView { mode_screen: true, ..g }, KeyAction::ShowModes) && key_step(
            g,
            'm',
        ) == (g, KeyAction::Nothing) && key_step(g, 'd') == (g, KeyAction::Nothing),
        !g.game_started && g.mode_screen ==> key_step(g, 'n').1 == KeyAction::ShowModes && key_step(
            g,
            'n',
        ).0.mode != g.mode && key_step(key_step(g, 'n').0, 'n').0 == g,
        !g.game_started && !g.mode_screen ==> key_step(g, 'n') == (g, KeyAction::Nothing),
        g.game_started ==> key_step(g, 'm') == (g, KeyAction::Move) && key_step(g, 'd') == (
        GameView { debug: !g.debug, ..g },
        KeyAction::ShowInfo,
        ) && key_step(g, 'h') == (g, KeyAction::Nothing) && key_step(g, 's') == (g, KeyAction::Nothing)
            && key_step(g, 'o') == (g, KeyAction::Nothing) && key_step(g, 'n') == (g, KeyAction::Nothing),
        key != 'r' ==> key_step(g, key).0.board == g.board && key_step(g, key).0.round == g.round
            && key_step(g, key).0.game_started == g.game_started,
        key != 'q' && key != 'r' && key != 'h' && key != 's' && key != 'm' && key != 'd' && key != 'o' && key
            != 'n' ==> key_step(g, key) == (g, KeyAction::Nothing),
{
}

/// Asking about a check records it on the king asked about: black's check
/// as `BlackCheck`, white's as `WhiteCheck`, and nothing else changes; no
/// check leaves the game as it was. A refused move is recorded as invalid,
/// and an allowed one leaves the game as it was.
pub proof fn law_answers_are_recorded(g: GameView, or: int, oc: int, nr: int, nc: int)
    ensures
        after_check(g, 5) == if in_check(g.board, 5) {
            GameView { game_state: GameState::BlackCheck, ..g }
        } else {
            g
        },
        after_check(g, 11) == if in_check(g.board, 11) {
            GameView { game_state: GameState::WhiteCheck, ..g }
        } else {
            g
        },
        after_can_move(g, or, oc, nr, nc) == if can_move_spec(g, or, oc, nr, nc) {
            g
        } else {
            GameView { move_info: MoveInfo::InValid, ..g }
        },
{
}

} // verus!
