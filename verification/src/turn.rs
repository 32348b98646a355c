//! Playing a move: the player's command, a pawn's promotion, and the
//! engine's reply.
use vstd::prelude::*;

use crate::board::{
    same_board, boards_equal, cell, get_pos_moves, holds_square, home_rank_free_of_black_pawns, is_black,
    is_white, no_black_pawn_on_home_rank, on_board, set_cell, Board,
};
use crate::command::{parse_cmd, parsed_command, valid, valid_command, lemma_valid_command_on_board};
use crate::game::{Game, GameState, GameView, MoveInfo, Modes, Round};
use crate::rules::{
    can_move, can_move_defined, can_move_early_exec, can_move_spec, check, check_state, in_check,
    is_mate, king_in_check, mate_search,
};

verus! {

/// A pawn that reached the last row and waits for the piece it becomes.
#[derive(Clone, Copy, Debug, PartialEq, Eq, Structural)]
pub struct Promotion {
    pub row: usize,
    pub col: usize,
    /// The side whose pawn it is.
    pub side: Round,
}

/// What became of a player's command.
#[derive(Clone, Copy, Debug, PartialEq, Eq, Structural)]
pub struct MoveOutcome {
    /// The command was well formed and the move allowed, so it was played
    /// (and, against the engine, perhaps taken back).
    pub played: bool,
    /// The pawn that waits for its promotion.
    pub promotion: Option<Promotion>,
}

/// The board after moving (`or`, `oc`) to (`nr`, `nc`).  A black king taken
/// onto a black rook on row 0, or a white king onto a white rook on row 7,
/// castles: on column 0 or 7 king and rook trade places (king square
/// fixed at column 4); on any other column nothing moves.
#[verifier::opaque]
pub open spec fn apply_move(b: Board, or: int, oc: int, nr: int, nc: int) -> Board {
    let og = cell(b, or, oc);
    let t = cell(b, nr, nc);
    if og == 5 && t == 1 {
        if nc == 0 {
            set_cell(set_cell(b, 0, 4, 1), 0, 0, 5)
        } else if nc == 7 {
            set_cell(set_cell(b, 0, 4, 1), 0, 7, 5)
        } else {
            b
        }
    } else if og == 11 && t == 7 {
        if nc == 0 {
            set_cell(set_cell(b, 7, 4, 7), 7, 0, 11)
        } else if nc == 7 {
            set_cell(set_cell(b, 7, 4, 7), 7, 7, 11)
        } else {
            b
        }
    } else {
        set_cell(set_cell(b, nr, nc, og), or, oc, 0)
    }
}

/// The square a pawn passed on a double step, or `ep` unchanged.
#[verifier::opaque]
pub open spec fn en_passant_after(old_b: Board, or: int, oc: int, nr: int, nc: int, ep: Seq<i32>) -> Seq<
    i32,
> {
    let p = cell(old_b, or, oc);
    if p == 6 && nr == or + 2 {
        seq![(nr - 1) as i32, nc as i32]
    } else if p == 12 && nr + 2 == or {
        seq![(nr + 1) as i32, nc as i32]
    } else {
        ep
    }
}

/// One more half move, holding at the largest count.
pub open spec fn sat_inc(h: u64) -> u64 {
    if h < u64::MAX {
        (h + 1) as u64
    } else {
        h
    }
}

/// When the board changed, a piece of one side moved onto a piece of the
/// other: the taken code joins the captures of the side that took it.
#[verifier::opaque]
pub open spec fn record_capture(g: GameView, old_b: Board, or: int, oc: int, nr: int, nc: int) -> GameView {
    let p = cell(old_b, or, oc);
    let t = cell(old_b, nr, nc);
    let changed = !same_board(old_b, g.board);
    GameView {
        black_captures: if changed && is_black(p) && is_white(t) {
            g.black_captures.push(t as i32)
        } else {
            g.black_captures
        },
        white_captures: if changed && is_white(p) && is_black(t) {
            g.white_captures.push(t as i32)
        } else {
            g.white_captures
        },
        ..g
    }
}

pub open spec fn other_side(r: Round) -> Round {
    if r == Round::White {
        Round::Black
    } else {
        Round::White
    }
}

/// When the board changed, the first rook corner (black left, black right,
/// white left, white right) that no longer holds its rook is marked as
/// moved.
#[verifier::opaque]
pub open spec fn rook_flags(g: GameView, old_b: Board) -> GameView {
    let b = g.board;
    let changed = !same_board(b, old_b);
    let c1 = changed && cell(b, 0, 0) != 1;
    let c2 = changed && !c1 && cell(b, 0, 7) != 1;
    let c3 = changed && !c1 && !c2 && cell(b, 7, 0) != 7;
    let c4 = changed && !c1 && !c2 && !c3 && cell(b, 7, 7) != 7;
    GameView {
        lbr_moved: g.lbr_moved || c1,
        rbr_moved: g.rbr_moved || c2,
        lwr_moved: g.lwr_moved || c3,
        rwr_moved: g.rwr_moved || c4,
        ..g
    }
}

/// The king of the side to move.
pub open spec fn own_king(r: Round) -> i32 {
    if r == Round::White {
        11
    } else {
        5
    }
}

/// The other king.
pub open spec fn other_king(r: Round) -> i32 {
    if r == Round::White {
        5
    } else {
        11
    }
}

/// What the other side's check amounts to: mate wins for the mover.
#[verifier::opaque]
pub open spec fn state_after_reply(b: Board, r: Round) -> GameState {
    let k = other_king(r);
    if in_check(b, k) {
        if is_mate(b, k) {
            if r == Round::White {
                GameState::WhiteWon
            } else {
                GameState::BlackWon
            }
        } else {
            check_state(k)
        }
    } else {
        GameState::Playing
    }
}

/// The move info that records a move left the mover's king in check.
pub open spec fn own_check_info(r: Round) -> MoveInfo {
    if r == Round::White {
        MoveInfo::WhiteCheck
    } else {
        MoveInfo::BlackCheck
    }
}

/// A pawn that reached the far row.
pub open spec fn promotion_of(old_b: Board, or: int, oc: int, nr: int, nc: int, r: Round) -> Option<
    Promotion,
> {
    let p = cell(old_b, or, oc);
    if r == Round::White && p == 12 && nr == 0 {
        Some(Promotion { row: nr as usize, col: nc as usize, side: Round::White })
    } else if r == Round::Black && p == 6 && nr == 7 {
        Some(Promotion { row: nr as usize, col: nc as usize, side: Round::Black })
    } else {
        None
    }
}

/// A move between two people.  A move that leaves the mover's king in
/// check is taken back: only the move info and the state change, and the
/// same side moves again.  Otherwise the other side's check or mate is
/// recorded, the pawn double step and the move counter are noted, the
/// capture is recorded, the turn passes and the rook corners are marked.
pub open spec fn pvp_game(g: GameView, or: int, oc: int, nr: int, nc: int) -> GameView {
    let old_b = g.board;
    let b1 = apply_move(old_b, or, oc, nr, nc);
    if in_check(b1, own_king(g.round)) {
        GameView { move_info: own_check_info(g.round), game_state: GameState::Playing, ..g }
    } else {
        let g2 = GameView {
            board: b1,
            game_state: state_after_reply(b1, g.round),
            move_info: MoveInfo::Valid,
            last_en_passant: en_passant_after(old_b, or, oc, nr, nc, g.last_en_passant),
            half_moves: sat_inc(g.half_moves),
            ..g
        };
        rook_flags(
            GameView {
                round: other_side(g.round),
                ..record_capture(g2, old_b, or, oc, nr, nc)
            },
            old_b,
        )
    }
}

/// The pawn of a move between two people that waits for its promotion.
pub open spec fn pvp_promotion(g: GameView, or: int, oc: int, nr: int, nc: int) -> Option<Promotion> {
    let b1 = apply_move(g.board, or, oc, nr, nc);
    if in_check(b1, own_king(g.round)) {
        None
    } else {
        promotion_of(g.board, or, oc, nr, nc, g.round)
    }
}

/// The move that the side playing the engine takes back was a castling
/// (king onto its own rook).
pub open spec fn ai_castles(old_b: Board, or: int, oc: int, nr: int, nc: int, r: Round) -> bool {
    let p = cell(old_b, or, oc);
    let t = cell(old_b, nr, nc);
    if r == Round::White {
        p == 11 && t == 7
    } else {
        p == 5 && t == 1
    }
}

/// The board that a taken-back move leaves: the position before the move,
/// with a castling king and rook put back on fixed squares.
#[verifier::opaque]
pub open spec fn ai_revert_board(old_b: Board, or: int, oc: int, nr: int, nc: int, r: Round) -> Board {
    if ai_castles(old_b, or, oc, nr, nc, r) {
        if r == Round::White {
            if nc == 0 {
                set_cell(set_cell(old_b, 7, 4, 11), 7, 0, 7)
            } else if nc == 7 {
                set_cell(set_cell(set_cell(set_cell(old_b, 7, 4, 11), 7, 7, 7), 7, 5, 0), 7, 6, 0)
            } else {
                old_b
            }
        } else {
            if nc == 0 {
                set_cell(set_cell(old_b, 0, 0, 1), 0, 4, 5)
            } else if nc == 7 {
                set_cell(set_cell(set_cell(set_cell(old_b, 0, 4, 5), 0, 7, 1), 0, 5, 0), 0, 6, 0)
            } else {
                old_b
            }
        }
    } else {
        old_b
    }
}

/// The board after a move against the engine, and its take-back if it left
/// the mover's king in check.
pub open spec fn ai_board(g: GameView, or: int, oc: int, nr: int, nc: int) -> Board {
    let b1 = apply_move(g.board, or, oc, nr, nc);
    if in_check(b1, own_king(g.round)) {
        ai_revert_board(g.board, or, oc, nr, nc, g.round)
    } else {
        b1
    }
}

/// The state once a check on either king (black first) and a mate are
/// looked for on `b`; `s` when no king is in check.
pub open spec fn checked_state(b: Board, s: GameState) -> GameState {
    if in_check(b, 5) {
        if is_mate(b, 5) {
            GameState::WhiteWon
        } else {
            GameState::BlackCheck
        }
    } else if in_check(b, 11) {
        if is_mate(b, 11) {
            GameState::BlackWon
        } else {
            GameState::WhiteCheck
        }
    } else {
        s
    }
}

/// A move against the engine left no king in check.
pub open spec fn ai_quiet(g: GameView, or: int, oc: int, nr: int, nc: int) -> bool {
    let b1 = apply_move(g.board, or, oc, nr, nc);
    !in_check(b1, 5) && !in_check(b1, 11)
}

/// A move against the engine left the mover's own king in check.
pub open spec fn ai_taken_back(g: GameView, or: int, oc: int, nr: int, nc: int) -> bool {
    in_check(apply_move(g.board, or, oc, nr, nc), own_king(g.round))
}

/// The board that captures and rook corners are measured against: the
/// position before the move, or the one a take-back puts together.
pub open spec fn ai_reference(g: GameView, or: int, oc: int, nr: int, nc: int) -> Board {
    if ai_taken_back(g, or, oc, nr, nc) {
        ai_revert_board(g.board, or, oc, nr, nc, g.round)
    } else {
        g.board
    }
}

/// The state that a move against the engine records before looking for
/// a mate.
pub open spec fn ai_state(g: GameView, or: int, oc: int, nr: int, nc: int) -> GameState {
    let b1 = apply_move(g.board, or, oc, nr, nc);
    if ai_taken_back(g, or, oc, nr, nc) {
        if ai_castles(g.board, or, oc, nr, nc, g.round) {
            GameState::Playing
        } else {
            check_state(own_king(g.round))
        }
    } else if in_check(b1, 5) {
        GameState::BlackCheck
    } else if in_check(b1, 11) {
        GameState::WhiteCheck
    } else {
        GameState::Playing
    }
}

/// A move against the engine.  A move that leaves no king in check is
/// valid and notes the pawn double step and the move counter; one that
/// leaves a king in check records that check.  A move that leaves the
/// mover's own king in check is taken back and hands the turn over.  Then
/// the capture, a check and a mate on the resulting board, and the rook
/// corners are recorded.
pub open spec fn ai_game(g: GameView, or: int, oc: int, nr: int, nc: int) -> GameView {
    let quiet = ai_quiet(g, or, oc, nr, nc);
    let taken_back = ai_taken_back(g, or, oc, nr, nc);
    let old2 = ai_reference(g, or, oc, nr, nc);
    let b3 = ai_board(g, or, oc, nr, nc);
    let g3 = GameView {
        board: b3,
        game_state: checked_state(b3, ai_state(g, or, oc, nr, nc)),
        move_info: if taken_back {
            own_check_info(g.round)
        } else if quiet {
            MoveInfo::Valid
        } else {
            g.move_info
        },
        last_en_passant: if quiet {
            en_passant_after(g.board, or, oc, nr, nc, g.last_en_passant)
        } else {
            g.last_en_passant
        },
        half_moves: if quiet {
            sat_inc(g.half_moves)
        } else {
            g.half_moves
        },
        ..g
    };
    rook_flags(
        GameView {
            round: if taken_back {
                other_side(g.round)
            } else {
                g.round
            },
            ..record_capture(g3, old2, or, oc, nr, nc)
        },
        old2,
    )
}

/// Playing a move that `can_move` allowed reads only squares of the board:
/// every checkmate search on the black king meets no black pawn on row 0.
pub open spec fn turn_defined(g: GameView, or: int, oc: int, nr: int, nc: int) -> bool {
    let b1 = apply_move(g.board, or, oc, nr, nc);
    if g.mode == Modes::PvP {
        (g.round == Round::White && !in_check(b1, 11) && in_check(b1, 5)) ==> no_black_pawn_on_home_rank(
            b1,
        )
    } else {
        let b4 = ai_board(g, or, oc, nr, nc);
        in_check(b4, 5) ==> no_black_pawn_on_home_rank(b4)
    }
}

/// The game after the player's command `cmd`, and the pawn waiting for its
/// promotion, if any.  A command that is not `r:c>r:c`, or a move that may
/// not be played, only records an invalid move.
pub open spec fn player_move_spec(g: GameView, cmd: Seq<char>) -> (GameView, Option<Promotion>) {
    if !valid_command(cmd) {
        (GameView { move_info: MoveInfo::InValid, ..g }, None)
    } else {
        let (or, oc, nr, nc) = parsed_command(cmd);
        if !can_move_spec(g, or, oc, nr, nc) {
            (GameView { move_info: MoveInfo::InValid, ..g }, None)
        } else if g.mode == Modes::PvP {
            (pvp_game(g, or, oc, nr, nc), pvp_promotion(g, or, oc, nr, nc))
        } else {
            (ai_game(g, or, oc, nr, nc), None)
        }
    }
}

/// `cmd` is well formed and names a move that may be played.
pub open spec fn move_played(g: GameView, cmd: Seq<char>) -> bool {
    valid_command(cmd) && {
        let (or, oc, nr, nc) = parsed_command(cmd);
        can_move_spec(g, or, oc, nr, nc)
    }
}

/// Playing `cmd` reads only squares of the board.
pub open spec fn player_move_defined(g: GameView, cmd: Seq<char>) -> bool {
    valid_command(cmd) ==> {
        let (or, oc, nr, nc) = parsed_command(cmd);
        &&& can_move_defined(g, or, oc, nr, nc)
        &&& (can_move_spec(g, or, oc, nr, nc) ==> turn_defined(g, or, oc, nr, nc))
    }
}

/// The code a pawn becomes: for white the choices 1 to 4 (rook, knight,
/// bishop, queen) become 7 to 10; any other choice, and every black
/// choice, is the code itself.
pub open spec fn promoted_code(side: Round, choice: i32) -> usize {
    if side == Round::White && 1 <= choice <= 4 {
        (choice + 6) as usize
    } else {
        choice as usize
    }
}

fn apply_move_exec(b: &mut Board, or: u32, oc: u32, nr: u32, nc: u32)
    requires
        or < 8,
        oc < 8,
        nr < 8,
        nc < 8,
    ensures
        *final(b) == apply_move(*old(b), or as int, oc as int, nr as int, nc as int),
{
    reveal(apply_move);
    let og = b[or as usize][oc as usize];
    let t = b[nr as usize][nc as usize];
    if og == 5 && t == 1 {
        if nc == 0 {
            b[0][4] = 1;
            b[0][0] = 5;
        } else if nc == 7 {
            b[0][4] = 1;
            b[0][7] = 5;
        }
    } else if og == 11 && t == 7 {
        if nc == 0 {
            b[7][4] = 7;
            b[7][0] = 11;
        } else if nc == 7 {
            b[7][4] = 7;
            b[7][7] = 11;
        }
    } else {
        b[nr as usize][nc as usize] = og;
        b[or as usize][oc as usize] = 0;
    }
}

fn ai_revert_board_exec(old_b: &Board, or: u32, oc: u32, nr: u32, nc: u32, r: Round) -> (nb: Board)
    requires
        or < 8,
        oc < 8,
        nr < 8,
        nc < 8,
    ensures
        nb == ai_revert_board(*old_b, or as int, oc as int, nr as int, nc as int, r),
{
    reveal(ai_revert_board);
    let mut nb = *old_b;
    let p = old_b[or as usize][oc as usize];
    let t = old_b[nr as usize][nc as usize];
    if r == Round::White {
        if p == 11 && t == 7 {
            if nc == 0 {
                nb[7][4] = 11;
                nb[7][0] = 7;
            } else if nc == 7 {
                nb[7][4] = 11;
                nb[7][7] = 7;
                nb[7][5] = 0;
                nb[7][6] = 0;
            }
        }
    } else {
        if p == 5 && t == 1 {
            if nc == 0 {
                nb[0][0] = 1;
                nb[0][4] = 5;
            } else if nc == 7 {
                nb[0][4] = 5;
                nb[0][7] = 1;
                nb[0][5] = 0;
                nb[0][6] = 0;
            }
        }
    }
    nb
}

fn square_vec(r: i32, c: i32) -> (v: Vec<i32>)
    ensures
        v@ == seq![r, c],
{
    let mut v = Vec::new();
    v.push(r);
    v.push(c);
    assert(v@ =~= seq![r, c]);
    v
}

fn ep_vec(old_b: &Board, or: u32, oc: u32, nr: u32, nc: u32, ep: &Vec<i32>) -> (r: Vec<i32>)
    requires
        or < 8,
        oc < 8,
        nr < 8,
        nc < 8,
    ensures
        r@ == en_passant_after(*old_b, or as int, oc as int, nr as int, nc as int, ep@),
{
    reveal(en_passant_after);
    let p = old_b[or as usize][oc as usize];
    if p == 6 && nr == or + 2 {
        square_vec(nr as i32 - 1, nc as i32)
    } else if p == 12 && nr + 2 == or {
        square_vec(nr as i32 + 1, nc as i32)
    } else {
        ep.clone()
    }
}

fn sat_inc_exec(h: u64) -> (r: u64)
    ensures
        r == sat_inc(h),
{
    if h < u64::MAX {
        h + 1
    } else {
        h
    }
}

fn other_side_exec(r: Round) -> (o: Round)
    ensures
        o == other_side(r),
{
    if r == Round::White {
        Round::Black
    } else {
        Round::White
    }
}

/// The state after the mover's move when its own king is safe.
fn reply_state(b: &Board, r: Round) -> (s: GameState)
    requires
        (r == Round::White && in_check(*b, 5)) ==> no_black_pawn_on_home_rank(*b),
    ensures
        s == state_after_reply(*b, r),
{
    reveal(state_after_reply);
    let k: i32 = if r == Round::White {
        5
    } else {
        11
    };
    if king_in_check(b, k) {
        let (m, _) = mate_search(b, k);
        if m {
            if r == Round::White {
                GameState::WhiteWon
            } else {
                GameState::BlackWon
            }
        } else if k == 5 {
            GameState::BlackCheck
        } else {
            GameState::WhiteCheck
        }
    } else {
        GameState::Playing
    }
}

fn checked_state_exec(b: &Board, s: GameState) -> (r: GameState)
    requires
        in_check(*b, 5) ==> no_black_pawn_on_home_rank(*b),
    ensures
        r == checked_state(*b, s),
{
    if king_in_check(b, 5) {
        let (m, _) = mate_search(b, 5);
        if m {
            GameState::WhiteWon
        } else {
            GameState::BlackCheck
        }
    } else if king_in_check(b, 11) {
        let (m, _) = mate_search(b, 11);
        if m {
            GameState::BlackWon
        } else {
            GameState::WhiteCheck
        }
    } else {
        s
    }
}

/// Which rook corners `rook_flags` marks.
fn rook_marks(b: &Board, old_b: &Board) -> (m: (bool, bool, bool, bool))
    ensures
        ({
            let changed = !same_board(*b, *old_b);
            let c1 = changed && cell(*b, 0, 0) != 1;
            let c2 = changed && !c1 && cell(*b, 0, 7) != 1;
            let c3 = changed && !c1 && !c2 && cell(*b, 7, 0) != 7;
            let c4 = changed && !c1 && !c2 && !c3 && cell(*b, 7, 7) != 7;
            m == (c1, c2, c3, c4)
        }),
{
    let changed = !boards_equal(b, old_b);
    let c1 = changed && b[0][0] != 1;
    let c2 = changed && !c1 && b[0][7] != 1;
    let c3 = changed && !c1 && !c2 && b[7][0] != 7;
    let c4 = changed && !c1 && !c2 && !c3 && b[7][7] != 7;
    (c1, c2, c3, c4)
}

/// Which side's captures `record_capture` adds to: (black took, white took).
fn capture_marks(b: &Board, old_b: &Board, or: u32, oc: u32, nr: u32, nc: u32) -> (m: (bool, bool))
    requires
        or < 8,
        oc < 8,
        nr < 8,
        nc < 8,
    ensures
        ({
            let p = cell(*old_b, or as int, oc as int);
            let t = cell(*old_b, nr as int, nc as int);
            let changed = !same_board(*old_b, *b);
            m == (changed && is_black(p) && is_white(t), changed && is_white(p) && is_black(t))
        }),
{
    let changed = !boards_equal(old_b, b);
    let p = old_b[or as usize][oc as usize];
    let t = old_b[nr as usize][nc as usize];
    (changed && 1 <= p && p <= 6 && 7 <= t && t <= 12, changed && 7 <= p && p <= 12 && 1 <= t && t
        <= 6)
}

impl Game {
    /// Records what a move leaves behind: the board, the captures, the turn
    /// and the rook corners.
    fn settle(self, b: Board, old_b: &Board, or: u32, oc: u32, nr: u32, nc: u32, round: Round) -> (g: Game)
        requires
            or < 8,
            oc < 8,
            nr < 8,
            nc < 8,
        ensures
            ({
                let g1 = record_capture(GameView { board: b, ..self@ }, *old_b, or as int, oc as int, nr as int, nc as int);
                g@ == rook_flags(GameView { round, ..g1 }, *old_b)
            }),
    {
        reveal(record_capture);
        reveal(rook_flags);
        let mut g = self;
        let (black_took, white_took) = capture_marks(&b, old_b, or, oc, nr, nc);
        let (m1, m2, m3, m4) = rook_marks(&b, old_b);
        let t = old_b[nr as usize][nc as usize] as i32;
        g.board = b;
        if black_took {
            g.black_captures.push(t);
        }
        if white_took {
            g.white_captures.push(t);
        }
        g.round = round;
        g.lbr_moved = g.lbr_moved || m1;
        g.rbr_moved = g.rbr_moved || m2;
        g.lwr_moved = g.lwr_moved || m3;
        g.rwr_moved = g.rwr_moved || m4;
        g
    }

    #[verifier::rlimit(40)]
    fn pvp_played(self, or: u32, oc: u32, nr: u32, nc: u32) -> (res: (Game, Option<Promotion>))
        requires
            or < 8,
            oc < 8,
            nr < 8,
            nc < 8,
            self@.mode == Modes::PvP,
            turn_defined(self@, or as int, oc as int, nr as int, nc as int),
        ensures
            res.0@ == pvp_game(self@, or as int, oc as int, nr as int, nc as int),
            res.1 == pvp_promotion(self@, or as int, oc as int, nr as int, nc as int),
    {
        let mut g = self;
        let old_board = g.board;
        let mut b1 = old_board;
        apply_move_exec(&mut b1, or, oc, nr, nc);
        let r = g.round;
        let own: i32 = if r == Round::White {
            11
        } else {
            5
        };
        if king_in_check(&b1, own) {
            g.move_info = if r == Round::White {
                MoveInfo::WhiteCheck
            } else {
                MoveInfo::BlackCheck
            };
            g.game_state = GameState::Playing;
            return (g, None);
        }
        let state = reply_state(&b1, r);
        let ep = ep_vec(&old_board, or, oc, nr, nc, &g.last_en_passant);
        let p = old_board[or as usize][oc as usize];
        let promo = if r == Round::White && p == 12 && nr == 0 {
            Some(Promotion { row: nr as usize, col: nc as usize, side: Round::White })
        } else if r == Round::Black && p == 6 && nr == 7 {
            Some(Promotion { row: nr as usize, col: nc as usize, side: Round::Black })
        } else {
            None
        };
        g.game_state = state;
        g.move_info = MoveInfo::Valid;
        g.last_en_passant = ep;
        g.half_moves = sat_inc_exec(g.half_moves);
        (g.settle(b1, &old_board, or, oc, nr, nc, other_side_exec(r)), promo)
    }

    fn ai_positions(&self, or: u32, oc: u32, nr: u32, nc: u32) -> (res: (bool, bool, Board, Board, GameState))
        requires
            or < 8,
            oc < 8,
            nr < 8,
            nc < 8,
        ensures
            res == (
                ai_quiet(self@, or as int, oc as int, nr as int, nc as int),
                ai_taken_back(self@, or as int, oc as int, nr as int, nc as int),
                ai_reference(self@, or as int, oc as int, nr as int, nc as int),
                ai_board(self@, or as int, oc as int, nr as int, nc as int),
                ai_state(self@, or as int, oc as int, nr as int, nc as int),
            ),
    {
        let old_board = self.board;
        let mut b1 = old_board;
        apply_move_exec(&mut b1, or, oc, nr, nc);
        let r = self.round;
        let c5 = king_in_check(&b1, 5);
        let c11 = king_in_check(&b1, 11);
        let taken_back = if r == Round::White {
            c11
        } else {
            c5
        };
        let castles = if r == Round::White {
            old_board[or as usize][oc as usize] == 11 && old_board[nr as usize][nc as usize] == 7
        } else {
            old_board[or as usize][oc as usize] == 5 && old_board[nr as usize][nc as usize] == 1
        };
        let old2 = if taken_back {
            ai_revert_board_exec(&old_board, or, oc, nr, nc, r)
        } else {
            old_board
        };
        let b3 = if taken_back {
            old2
        } else {
            b1
        };
        let state3 = if taken_back {
            if castles {
                GameState::Playing
            } else if r == Round::White {
                GameState::WhiteCheck
            } else {
                GameState::BlackCheck
            }
        } else if c5 {
            GameState::BlackCheck
        } else if c11 {
            GameState::WhiteCheck
        } else {
            GameState::Playing
        };
        (!c5 && !c11, taken_back, old2, b3, state3)
    }

    fn ai_played(self, or: u32, oc: u32, nr: u32, nc: u32) -> (res: Game)
        requires
            or < 8,
            oc < 8,
            nr < 8,
            nc < 8,
            self@.mode != Modes::PvP,
            turn_defined(self@, or as int, oc as int, nr as int, nc as int),
        ensures
            res@ == ai_game(self@, or as int, oc as int, nr as int, nc as int),
    {
        let mut g = self;
        let (quiet, taken_back, old2, b3, state3) = g.ai_positions(or, oc, nr, nc);
        let old_board = g.board;
        let r = g.round;
        let state5 = checked_state_exec(&b3, state3);
        let info = if taken_back {
            if r == Round::White {
                MoveInfo::WhiteCheck
            } else {
                MoveInfo::BlackCheck
            }
        } else if quiet {
            MoveInfo::Valid
        } else {
            g.move_info
        };
        if quiet {
            let ep = ep_vec(&old_board, or, oc, nr, nc, &g.last_en_passant);
            g.last_en_passant = ep;
            g.half_moves = sat_inc_exec(g.half_moves);
        }
        g.game_state = state5;
        g.move_info = info;
        let round3 = if taken_back {
            other_side_exec(r)
        } else {
            r
        };
        g.settle(b3, &old2, or, oc, nr, nc, round3)
    }

    /// Plays the player's command `cmd` (`row:col>row:col`); says whether a
    /// move was played and which pawn waits for its promotion, if any.
    pub fn player_move(&mut self, cmd: String) -> (out: MoveOutcome)
        requires
            player_move_defined(old(self)@, cmd@),
        ensures
            (final(self)@, out.promotion) == player_move_spec(old(self)@, cmd@),
            out.played == move_played(old(self)@, cmd@),
    {
        if !valid(cmd.clone()) {
            self.move_info = MoveInfo::InValid;
            return MoveOutcome { played: false, promotion: None };
        }
        proof {
            lemma_valid_command_on_board(cmd@);
        }
        let (or, oc, nr, nc) = parse_cmd(cmd);
        if !can_move(self, or, oc, nr, nc) {
            self.move_info = MoveInfo::InValid;
            return MoveOutcome { played: false, promotion: None };
        }
        let mut g = Game::new();
        core::mem::swap(self, &mut g);
        if g.mode == Modes::PvP {
            let (g2, promo) = g.pvp_played(or, oc, nr, nc);
            *self = g2;
            MoveOutcome { played: true, promotion: promo }
        } else {
            *self = g.ai_played(or, oc, nr, nc);
            MoveOutcome { played: true, promotion: None }
        }
    }

    /// Whether playing `cmd` reads only squares of the board.
    pub fn move_defined(&self, cmd: &String) -> (r: bool)
        ensures
            r == player_move_defined(self@, cmd@),
    {
        if !valid(cmd.clone()) {
            return true;
        }
        proof {
            lemma_valid_command_on_board(cmd@);
        }
        let (or, oc, nr, nc) = parse_cmd(cmd.clone());
        match can_move_early_exec(self, or, oc, nr, nc) {
            Some(allowed) => {
                if !allowed {
                    return true;
                }
            },
            None => {
                let p = self.board[or as usize][oc as usize];
                if (p as i32) == 6 && or == 0 {
                    return false;
                }
                let ms = get_pos_moves(&self.board, p as i32, or as i32, oc as i32);
                if !holds_square(&ms, (nr as i32, nc as i32)) {
                    return true;
                }
            },
        }
        let mut b1 = self.board;
        apply_move_exec(&mut b1, or, oc, nr, nc);
        if self.mode == Modes::PvP {
            if self.round == Round::White && !king_in_check(&b1, 11) && king_in_check(&b1, 5) {
                home_rank_free_of_black_pawns(&b1)
            } else {
                true
            }
        } else {
            let own: i32 = if self.round == Round::White {
                11
            } else {
                5
            };
            let b4 = if king_in_check(&b1, own) {
                ai_revert_board_exec(&self.board, or, oc, nr, nc, self.round)
            } else {
                b1
            };
            if king_in_check(&b4, 5) {
                home_rank_free_of_black_pawns(&b4)
            } else {
                true
            }
        }
    }

    /// Plays `cmd` when playing it reads only squares of the board; `None`,
    /// with the game unchanged, otherwise.
    pub fn try_player_move(&mut self, cmd: String) -> (r: Option<MoveOutcome>)
        ensures
            r is None <==> !player_move_defined(old(self)@, cmd@),
            r is None ==> final(self)@ == old(self)@,
            r matches Some(out) ==> (final(self)@, out.promotion) == player_move_spec(old(self)@, cmd@)
                && out.played == move_played(old(self)@, cmd@),
    {
        if self.move_defined(&cmd) {
            Some(self.player_move(cmd))
        } else {
            None
        }
    }

    /// Turns the pawn of `p` into the piece chosen on the promotion screen
    /// (1 rook, 2 knight, 3 bishop, 4 queen).
    pub fn promote(&mut self, p: Promotion, choice: i32)
        requires
            p.row < 8,
            p.col < 8,
        ensures
            final(self)@ == (GameView {
                board: set_cell(old(self)@.board, p.row as int, p.col as int, promoted_code(p.side, choice)),
                ..old(self)@
            }),
    {
        let code: usize = if p.side == Round::White && 1 <= choice && choice <= 4 {
            (choice + 6) as usize
        } else {
            choice as usize
        };
        self.board[p.row][p.col] = code;
    }

    /// After a move against the engine: when neither king is in check (black
    /// asked first), it is the engine's turn, played as black.  Each check
    /// found is recorded.
    pub fn engine_turn(&mut self) -> (r: bool)
        ensures
            r == (!in_check(old(self)@.board, 5) && !in_check(old(self)@.board, 11)),
            final(self)@ == (if in_check(old(self)@.board, 5) {
                GameView { game_state: GameState::BlackCheck, ..old(self)@ }
            } else if in_check(old(self)@.board, 11) {
                GameView { game_state: GameState::WhiteCheck, ..old(self)@ }
            } else {
                GameView { round: Round::Black, ..old(self)@ }
            }),
    {
        if check(self, 5) {
            return false;
        }
        if check(self, 11) {
            return false;
        }
        self.round = Round::Black;
        true
    }

    /// Plays the engine's move from square `from` to square `to` (row, then
    /// column) and hands the turn back to white.
    pub fn apply_engine_move(&mut self, from: &Vec<i32>, to: &Vec<i32>)
        requires
            from@.len() >= 2,
            to@.len() >= 2,
            on_board(from@[0] as int, from@[1] as int),
            on_board(to@[0] as int, to@[1] as int),
        ensures
            final(self)@ == (GameView {
                board: set_cell(
                    set_cell(
                        old(self)@.board,
                        to@[0] as int,
                        to@[1] as int,
                        cell(old(self)@.board, from@[0] as int, from@[1] as int),
                    ),
                    from@[0] as int,
                    from@[1] as int,
                    0,
                ),
                half_moves: sat_inc(old(self)@.half_moves),
                round: Round::White,
                ..old(self)@
            }),
    {
        let fr = from[0] as usize;
        let fc = from[1] as usize;
        let og = self.board[fr][fc];
        self.board[to[0] as usize][to[1] as usize] = og;
        self.board[fr][fc] = 0;
        if self.half_moves < u64::MAX {
            self.half_moves = self.half_moves + 1;
        }
        self.round = Round::White;
    }
}

} // verus!
