use mamut_chess::board::Board;
use mamut_chess::engine::{engine_move_squares, engine_script, parse_best_move};
use mamut_chess::fen::{board_to_fen, push_decimal};
use mamut_chess::game::{command_key, promotion_choice, Game, GameState, KeyAction, Modes, MoveInfo, Round};
use mamut_chess::turn::{MoveOutcome, Promotion};

fn empty_board() -> Board {
    [[0; 8]; 8]
}

fn codes_in_range(g: &Game) -> bool {
    g.board.iter().all(|row| row.iter().all(|&v| v <= 12))
}

#[test]
fn initial_position_in_fen() {
    let g = Game::new();
    assert_eq!(board_to_fen(&g), "fen r3k2r/pppppppp/8/8/8/8/PPPPPPPP/R3K2R w KQkq - - 1");
}

#[test]
fn fen_drops_the_empty_squares_that_end_the_last_row() {
    let mut g = Game::new();
    g.board = empty_board();
    g.board[0][4] = 5;
    g.board[7][4] = 11;
    assert_eq!(board_to_fen(&g), "fen 4k3/8/8/8/8/8/8/4K w KQkq - - 1");
}

#[test]
fn fen_skips_unknown_codes_and_shows_rights_turn_and_count() {
    let mut g = Game::new();
    g.board = empty_board();
    g.board[0][0] = 0;
    g.board[0][1] = 99;
    g.board[0][2] = 0;
    g.board[0][3] = 4;
    g.board[7][7] = 10;
    g.round = Round::Black;
    g.wk_moved = true;
    g.bk_moved = true;
    g.lwr_moved = true;
    g.rwr_moved = true;
    g.lbr_moved = true;
    g.rbr_moved = true;
    g.last_en_passant = vec![2, 3];
    g.half_moves = 25;
    assert_eq!(board_to_fen(&g), "fen 2q4/8/8/8/8/8/8/7Q b - d6 - 12");
}

#[test]
fn fen_castling_letters_follow_each_flag() {
    let mut g = Game::new();
    g.rwr_moved = true;
    g.lbr_moved = true;
    assert!(board_to_fen(&g).contains(" w Qk - - 1"));
    let mut g = Game::new();
    g.wk_moved = true;
    assert!(board_to_fen(&g).contains(" w kq - - 1"));
}

#[test]
fn decimal_digits() {
    let mut s = String::from("x");
    push_decimal(&mut s, 0);
    push_decimal(&mut s, 7);
    push_decimal(&mut s, 10);
    push_decimal(&mut s, 18446744073709551615);
    assert_eq!(s, "x071018446744073709551615");
}

#[test]
fn pawn_double_step_between_people() {
    let mut g = Game::new();
    let promo = g.player_move("6:4>4:4".to_string()).promotion;
    assert_eq!(promo, None);
    assert_eq!(g.board[4][4], 12);
    assert_eq!(g.board[6][4], 0);
    assert_eq!(g.round, Round::Black);
    assert_eq!(g.move_info, MoveInfo::Valid);
    assert_eq!(g.game_state, GameState::Playing);
    assert_eq!(g.last_en_passant, vec![5, 4]);
    assert_eq!(g.half_moves, 3);
    assert_eq!(board_to_fen(&g), "fen r3k2r/pppppppp/8/8/4P3/8/PPPP1PPP/R3K2R b KQkq e3 - 1");
    let promo = g.player_move("1:3>3:3".to_string()).promotion;
    assert_eq!(promo, None);
    assert_eq!(g.round, Round::White);
    assert_eq!(g.last_en_passant, vec![2, 3]);
    assert_eq!(g.half_moves, 4);
    assert_eq!(board_to_fen(&g), "fen r3k2r/ppp1pppp/8/3p4/4P3/8/PPPP1PPP/R3K2R w KQkq d6 - 2");
}

#[test]
fn malformed_command_only_records_an_invalid_move() {
    let mut g = Game::new();
    let before = g.board;
    assert_eq!(g.player_move("9:9>0:0".to_string()).promotion, None);
    assert_eq!(g.move_info, MoveInfo::InValid);
    assert_eq!(g.board, before);
    assert_eq!(g.round, Round::White);
    assert_eq!(g.half_moves, 2);
}

#[test]
fn refused_move_only_records_an_invalid_move() {
    let mut g = Game::new();
    let before = g.board;
    assert_eq!(g.player_move("1:0>2:0".to_string()).promotion, None);
    assert_eq!(g.move_info, MoveInfo::InValid);
    assert_eq!(g.board, before);
    assert_eq!(g.round, Round::White);
    assert!(g.white_captures.is_empty() && g.black_captures.is_empty());
}

#[test]
fn move_into_check_is_taken_back() {
    let mut g = Game::new();
    g.board = empty_board();
    g.board[7][4] = 11;
    g.board[6][4] = 7;
    g.board[0][4] = 1;
    g.board[0][0] = 5;
    let before = g.board;
    assert_eq!(g.player_move("6:4>6:0".to_string()).promotion, None);
    assert_eq!(g.board, before);
    assert_eq!(g.round, Round::White);
    assert_eq!(g.move_info, MoveInfo::WhiteCheck);
    assert_eq!(g.game_state, GameState::Playing);
    assert_eq!(g.half_moves, 2);
}

#[test]
fn capture_is_recorded_for_the_side_that_took() {
    let mut g = Game::new();
    g.board = empty_board();
    g.board[7][4] = 11;
    g.board[0][4] = 5;
    g.board[4][0] = 7;
    g.board[4][3] = 2;
    assert_eq!(g.player_move("4:0>4:3".to_string()).promotion, None);
    assert_eq!(g.board[4][3], 7);
    assert_eq!(g.board[4][0], 0);
    assert_eq!(g.white_captures, vec![2]);
    assert!(g.black_captures.is_empty());
    assert_eq!(g.round, Round::Black);
    // The first rook corner without its rook is marked as moved.
    assert!(g.lbr_moved);
    assert!(!g.rbr_moved && !g.lwr_moved && !g.rwr_moved);
    assert!(codes_in_range(&g));
}

#[test]
fn back_rank_mate_wins_for_white() {
    let mut g = Game::new();
    g.board = empty_board();
    g.board[0][7] = 5;
    g.board[2][6] = 11;
    g.board[7][0] = 7;
    assert_eq!(g.player_move("7:0>0:0".to_string()).promotion, None);
    assert_eq!(g.game_state, GameState::WhiteWon);
    assert_eq!(g.move_info, MoveInfo::Valid);
    assert_eq!(g.round, Round::Black);
}

#[test]
fn check_without_mate_is_recorded() {
    let mut g = Game::new();
    g.board = empty_board();
    g.board[0][7] = 5;
    g.board[7][0] = 11;
    g.board[7][6] = 7;
    assert_eq!(g.player_move("7:6>0:6".to_string()).promotion, None);
    assert_eq!(g.game_state, GameState::BlackCheck);
}

#[test]
fn black_mates_white() {
    let mut g = Game::new();
    g.board = empty_board();
    g.board[7][7] = 11;
    g.board[5][6] = 5;
    g.board[0][0] = 1;
    g.round = Round::Black;
    assert_eq!(g.player_move("0:0>7:0".to_string()).promotion, None);
    assert_eq!(g.game_state, GameState::BlackWon);
    assert_eq!(g.round, Round::White);
}

#[test]
fn white_pawn_promotes() {
    let mut g = Game::new();
    g.board = empty_board();
    g.board[1][3] = 12;
    g.board[4][7] = 5;
    g.board[7][0] = 11;
    let promo = g.player_move("1:3>0:3".to_string()).promotion;
    assert_eq!(promo, Some(Promotion { row: 0, col: 3, side: Round::White }));
    assert_eq!(g.board[0][3], 12);
    g.promote(promo.unwrap(), 4);
    assert_eq!(g.board[0][3], 10);
    assert_eq!(g.round, Round::Black);
}

#[test]
fn promotion_codes() {
    let white = Promotion { row: 0, col: 0, side: Round::White };
    let black = Promotion { row: 7, col: 0, side: Round::Black };
    for (choice, w, b) in [(1, 7, 1), (2, 8, 2), (3, 9, 3), (4, 10, 4)] {
        let mut g = Game::new();
        g.promote(white, choice);
        assert_eq!(g.board[0][0], w);
        g.promote(black, choice);
        assert_eq!(g.board[7][0], b);
    }
    let mut g = Game::new();
    g.promote(black, -1);
    assert_eq!(g.board[7][0], usize::MAX);
}

#[test]
fn black_pawn_promotion_is_requested() {
    let mut g = Game::new();
    g.board = empty_board();
    g.board[6][2] = 6;
    g.board[0][7] = 5;
    g.board[3][0] = 11;
    g.round = Round::Black;
    let promo = g.player_move("6:2>7:2".to_string()).promotion;
    assert_eq!(promo, Some(Promotion { row: 7, col: 2, side: Round::Black }));
    g.promote(promo.unwrap(), 2);
    assert_eq!(g.board[7][2], 2);
}

#[test]
fn castling_swaps_king_and_rook() {
    let mut g = Game::new();
    assert_eq!(g.player_move("7:4>7:7".to_string()).promotion, None);
    assert_eq!(g.board[7], [7, 0, 0, 0, 7, 0, 0, 11]);
    assert!(g.rwr_moved);
    assert_eq!(g.round, Round::Black);
    assert!(board_to_fen(&g).contains(" b Qkq - - 1"));
}

#[test]
fn moves_keep_codes_and_passed_square_shape() {
    let mut g = Game::new();
    for cmd in ["6:4>4:4", "1:3>3:3", "4:4>3:3", "0:0>1:0", "7:0>1:0", "9:9>9:9", "6:0>5:0"] {
        g.player_move(cmd.to_string());
        assert!(codes_in_range(&g));
        assert!(g.last_en_passant.is_empty() || g.last_en_passant.len() == 2);
    }
}

#[test]
fn outcome_says_whether_a_move_was_played() {
    let mut g = Game::new();
    assert_eq!(g.player_move("6:4>4:5".to_string()), MoveOutcome { played: false, promotion: None });
    assert_eq!(g.player_move("bad".to_string()), MoveOutcome { played: false, promotion: None });
    let mut g = Game::new();
    g.board = empty_board();
    g.board[7][4] = 11;
    g.board[6][4] = 7;
    g.board[0][4] = 1;
    g.board[0][0] = 5;
    // A move taken back was still played.
    assert_eq!(g.player_move("6:4>6:0".to_string()), MoveOutcome { played: true, promotion: None });
}

#[test]
fn playing_against_the_engine() {
    let mut g = Game::new();
    g.mode = Modes::AI;
    assert_eq!(g.player_move("6:4>4:4".to_string()).promotion, None);
    assert_eq!(g.round, Round::White);
    assert_eq!(g.move_info, MoveInfo::Valid);
    assert_eq!(g.half_moves, 3);
    assert!(g.engine_turn());
    assert_eq!(g.round, Round::Black);
    let fen = board_to_fen(&g);
    assert_eq!(fen, "fen r3k2r/pppppppp/8/8/4P3/8/PPPP1PPP/R3K2R b KQkq e3 - 1");
    let best = parse_best_move("info depth 1 score cp 0\nbestmove e7e5 ponder d2d4\n");
    assert_eq!(best, "e7e5 ");
    let (from, to) = engine_move_squares(&best);
    assert_eq!(from, vec![1, 4]);
    assert_eq!(to, vec![3, 4]);
    g.apply_engine_move(&from, &to);
    assert_eq!(g.board[3][4], 6);
    assert_eq!(g.board[1][4], 0);
    assert_eq!(g.round, Round::White);
    assert_eq!(g.half_moves, 4);
}

#[test]
fn engine_waits_while_a_king_is_in_check() {
    let mut g = Game::new();
    g.board = empty_board();
    g.board[0][4] = 5;
    g.board[7][0] = 11;
    g.board[3][4] = 7;
    assert!(!g.engine_turn());
    assert_eq!(g.game_state, GameState::BlackCheck);
    assert_eq!(g.round, Round::White);
}

#[test]
fn engine_mode_takes_back_a_move_into_check() {
    let mut g = Game::new();
    g.mode = Modes::AI;
    g.board = empty_board();
    g.board[7][4] = 11;
    g.board[6][4] = 7;
    g.board[0][4] = 1;
    g.board[0][0] = 5;
    let before = g.board;
    g.player_move("6:4>6:0".to_string()).promotion;
    assert_eq!(g.board, before);
    assert_eq!(g.round, Round::Black);
    assert_eq!(g.move_info, MoveInfo::WhiteCheck);
    assert_eq!(g.game_state, GameState::WhiteCheck);
    assert_eq!(g.half_moves, 2);
}

#[test]
fn engine_answer_without_a_move() {
    assert_eq!(parse_best_move("info string no engine here"), "");
    assert_eq!(parse_best_move(""), "");
    assert_eq!(parse_best_move("ünïcode without the word"), "");
}

#[test]
fn engine_script_text() {
    assert_eq!(
        engine_script("fen 8/8/8/8/8/8/8/8 w - - - 1"),
        "\n         stockfish << EOF\n         uci\n         position fen 8/8/8/8/8/8/8/8 w - - - 1\n         go movetime 6000\n         ucinewgame\n         EOF\n         "
    );
}

#[test]
fn move_that_would_read_off_the_board_is_refused_untouched() {
    let mut g = Game::new();
    g.board = empty_board();
    g.board[0][0] = 6;
    g.board[0][7] = 5;
    g.board[7][0] = 11;
    g.board[5][7] = 7;
    let before = g.board;
    assert!(!g.move_defined(&"5:7>4:7".to_string()));
    assert_eq!(g.try_player_move("5:7>4:7".to_string()), None);
    assert_eq!(g.board, before);
    assert_eq!(g.move_info, MoveInfo::Null);
    assert!(g.move_defined(&"5:7>5:6".to_string()));
    assert_eq!(
        g.try_player_move("5:7>5:6".to_string()),
        Some(MoveOutcome { played: true, promotion: None })
    );
    assert_eq!(g.board[5][6], 7);
}

#[test]
fn black_pawn_on_row_zero_cannot_be_asked_about() {
    let mut g = Game::new();
    g.board = empty_board();
    g.board[0][3] = 6;
    g.board[4][7] = 5;
    g.board[7][0] = 11;
    g.round = Round::Black;
    assert!(!g.move_defined(&"0:3>1:3".to_string()));
    g.round = Round::White;
    assert!(g.move_defined(&"0:3>1:3".to_string()));
}

#[test]
fn keys_before_and_after_the_game_starts() {
    let mut g = Game::new();
    assert_eq!(g.handle_key('h'), KeyAction::ShowHelp);
    assert_eq!(g.handle_key('s'), KeyAction::ShowStart);
    assert_eq!(g.handle_key('m'), KeyAction::Nothing);
    assert_eq!(g.handle_key('d'), KeyAction::Nothing);
    assert_eq!(g.handle_key('n'), KeyAction::Nothing);
    assert_eq!(g.handle_key('o'), KeyAction::ShowModes);
    assert!(g.mode_screen);
    assert_eq!(g.handle_key('n'), KeyAction::ShowModes);
    assert_eq!(g.mode, Modes::AI);
    assert_eq!(g.handle_key('n'), KeyAction::ShowModes);
    assert_eq!(g.mode, Modes::PvP);
    assert_eq!(g.handle_key('r'), KeyAction::ShowGame);
    assert!(g.game_started);
    assert_eq!(g.handle_key('h'), KeyAction::Nothing);
    assert_eq!(g.handle_key('o'), KeyAction::Nothing);
    assert_eq!(g.handle_key('n'), KeyAction::Nothing);
    assert_eq!(g.handle_key('m'), KeyAction::Move);
    assert_eq!(g.handle_key('d'), KeyAction::ShowInfo);
    assert!(g.debug);
    assert_eq!(g.handle_key('d'), KeyAction::ShowInfo);
    assert!(!g.debug);
    assert_eq!(g.handle_key('x'), KeyAction::Nothing);
    assert_eq!(g.handle_key('q'), KeyAction::Quit);
    assert!(g.game_started);
}

#[test]
fn promotion_keys() {
    assert_eq!(promotion_choice('R'), Some(1));
    assert_eq!(promotion_choice('n'), Some(2));
    assert_eq!(promotion_choice('B'), Some(3));
    assert_eq!(promotion_choice('q'), Some(4));
    assert_eq!(promotion_choice('x'), None);
}

#[test]
fn typing_a_command() {
    let mut cmd = String::new();
    for k in "6:4>4:4".chars() {
        assert!(!command_key(&mut cmd, k));
    }
    assert!(command_key(&mut cmd, 'e'));
    assert_eq!(cmd, "6:4>4:4");
    assert!(command_key(&mut cmd, 'q'));
    assert_eq!(cmd, "6:4>4:4");
}

#[test]
fn restart_key_begins_a_new_game() {
    let mut g = Game::new();
    g.handle_key('o');
    g.handle_key('n');
    assert_eq!(g.handle_key('r'), KeyAction::ShowGame);
    g.handle_key('d');
    g.player_move("6:4>4:4".to_string());
    g.player_move("1:3>3:3".to_string());
    g.white_captures.push(6);
    g.black_captures.push(12);
    g.wk_moved = true;
    g.lbr_moved = true;
    g.game_state = GameState::BlackCheck;
    g.move_info = MoveInfo::Valid;
    assert_eq!(g.handle_key('r'), KeyAction::ShowGame);
    let fresh = Game::new();
    assert!(g.game_started);
    assert_eq!(g.board, fresh.board);
    assert_eq!(g.round, Round::White);
    assert_eq!(g.game_state, GameState::Playing);
    assert_eq!(g.move_info, MoveInfo::Null);
    assert!(g.white_captures.is_empty() && g.black_captures.is_empty());
    assert!(!g.wk_moved && !g.bk_moved && !g.lwr_moved && !g.rwr_moved && !g.lbr_moved && !g.rbr_moved);
    assert!(g.last_en_passant.is_empty());
    assert_eq!(g.half_moves, 2);
    assert_eq!(g.mode, Modes::AI);
    assert!(g.debug);
}
