use mamut_chess::board::{boards_equal, get_pos_moves, holds_square, Board};
use mamut_chess::game::{Game, GameState, MoveInfo, Round};
use mamut_chess::rules::{can_move, check, king_in_check, mate};

fn empty_board() -> Board {
    [[0; 8]; 8]
}

#[test]
fn rook_rays_stop_at_the_first_piece() {
    let g = Game::new();
    let moves = get_pos_moves(&g.board, 7, 7, 0);
    assert_eq!(moves, vec![(6, 0), (7, 1), (7, 2), (7, 3), (7, 4)]);
}

#[test]
fn rook_on_an_empty_board_reaches_fourteen_squares() {
    let mut b = empty_board();
    b[3][3] = 1;
    let moves = get_pos_moves(&b, 1, 3, 3);
    assert_eq!(
        moves,
        vec![
            (4, 3), (5, 3), (6, 3), (7, 3),
            (2, 3), (1, 3), (0, 3),
            (3, 2), (3, 1), (3, 0),
            (3, 4), (3, 5), (3, 6), (3, 7),
        ]
    );
}

#[test]
fn knight_and_king_squares_are_not_filtered() {
    let b = empty_board();
    assert_eq!(
        get_pos_moves(&b, 2, 0, 1),
        vec![(-1, 3), (1, 3), (-1, -1), (1, -1), (-2, 2), (-2, 0), (2, 2), (2, 0)]
    );
    assert_eq!(
        get_pos_moves(&b, 11, 7, 4),
        vec![(6, 4), (6, 3), (6, 5), (7, 5), (7, 3), (8, 4), (8, 3), (8, 5)]
    );
}

#[test]
fn bishop_and_queen_rays() {
    let mut b = empty_board();
    b[1][1] = 6;
    let bishop = get_pos_moves(&b, 9, 3, 3);
    assert_eq!(
        bishop,
        vec![
            (2, 2), (1, 1),
            (2, 4), (1, 5), (0, 6),
            (4, 2), (5, 1), (6, 0),
            (4, 4), (5, 5), (6, 6), (7, 7),
        ]
    );
    let queen = get_pos_moves(&b, 10, 3, 3);
    assert_eq!(queen.len(), 12 + 14);
    assert_eq!(&queen[..12], &bishop[..]);
}

#[test]
fn pawn_moves_on_the_initial_board() {
    let g = Game::new();
    assert_eq!(get_pos_moves(&g.board, 12, 6, 0), vec![(5, 0), (4, 0)]);
    // The black pawn lists the black king diagonally behind it.
    assert_eq!(get_pos_moves(&g.board, 6, 1, 3), vec![(2, 3), (3, 3), (0, 4)]);
    assert_eq!(get_pos_moves(&g.board, 6, 7, 3), Vec::<(i32, i32)>::new());
    assert_eq!(get_pos_moves(&g.board, 12, 0, 3), Vec::<(i32, i32)>::new());
}

#[test]
fn white_pawn_takes_black_pieces_diagonally() {
    let mut b = empty_board();
    b[4][4] = 12;
    b[3][3] = 2;
    b[3][5] = 8;
    b[3][4] = 1;
    assert_eq!(get_pos_moves(&b, 12, 4, 4), vec![(3, 3)]);
}

#[test]
fn unknown_codes_have_no_moves() {
    let b = empty_board();
    assert_eq!(get_pos_moves(&b, 0, 3, 3), Vec::<(i32, i32)>::new());
    assert_eq!(get_pos_moves(&b, 13, 3, 3), Vec::<(i32, i32)>::new());
}

#[test]
fn helpers_compare_boards_and_find_squares() {
    let g = Game::new();
    let mut b = g.board;
    assert!(boards_equal(&g.board, &b));
    b[3][3] = 1;
    assert!(!boards_equal(&g.board, &b));
    assert!(holds_square(&vec![(1, 2), (3, 4)], (3, 4)));
    assert!(!holds_square(&vec![(1, 2), (3, 4)], (4, 3)));
}

fn lone_kings() -> Game {
    let mut g = Game::new();
    g.board = empty_board();
    g.board[0][4] = 5;
    g.board[7][4] = 11;
    g
}

#[test]
fn check_records_the_king_in_check() {
    let mut g = lone_kings();
    g.board[4][4] = 7;
    assert!(check(&mut g, 5));
    assert_eq!(g.game_state, GameState::BlackCheck);
    assert!(!check(&mut g, 11));
    assert_eq!(g.game_state, GameState::BlackCheck);
}

#[test]
fn check_by_pawns_and_without_a_king() {
    let mut g = lone_kings();
    g.board[6][3] = 6;
    assert!(check(&mut g, 11));
    assert_eq!(g.game_state, GameState::WhiteCheck);
    let mut h = Game::new();
    h.board = empty_board();
    h.board[3][3] = 7;
    assert!(!check(&mut h, 5));
    assert!(!check(&mut h, 11));
    assert!(!check(&mut h, 3));
    assert_eq!(h.game_state, GameState::Playing);
}

#[test]
fn initial_position_has_no_check() {
    let g = Game::new();
    assert!(!king_in_check(&g.board, 5));
    assert!(!king_in_check(&g.board, 11));
}

fn back_rank_mate() -> Game {
    let mut g = Game::new();
    g.board = empty_board();
    g.board[0][7] = 5;
    g.board[2][6] = 11;
    g.board[0][0] = 7;
    g
}

#[test]
fn mate_finds_a_back_rank_mate() {
    let mut g = back_rank_mate();
    let before = g.board;
    assert!(mate(&mut g, 5));
    assert_eq!(g.board, before);
    assert_eq!(g.game_state, GameState::BlackCheck);
}

#[test]
fn mate_finds_an_escape() {
    let mut g = back_rank_mate();
    g.board[2][6] = 0;
    g.board[3][0] = 11;
    let before = g.board;
    assert!(!mate(&mut g, 5));
    assert_eq!(g.board, before);
}

#[test]
fn mate_with_an_immediate_escape_records_nothing() {
    let mut g = lone_kings();
    assert!(!mate(&mut g, 5));
    assert_eq!(g.game_state, GameState::Playing);
}

#[test]
fn can_move_refuses_empty_squares_and_the_wrong_side() {
    let mut g = Game::new();
    assert!(!can_move(&mut g, 3, 3, 4, 4));
    assert_eq!(g.move_info, MoveInfo::InValid);
    let mut g = Game::new();
    assert!(!can_move(&mut g, 1, 0, 2, 0));
    assert_eq!(g.move_info, MoveInfo::InValid);
    let mut g = Game::new();
    g.round = Round::Black;
    assert!(!can_move(&mut g, 6, 0, 5, 0));
    assert_eq!(g.move_info, MoveInfo::InValid);
}

#[test]
fn can_move_accepts_generated_moves() {
    let mut g = Game::new();
    assert!(can_move(&mut g, 6, 4, 4, 4));
    assert_eq!(g.move_info, MoveInfo::Null);
    assert!(!can_move(&mut g, 6, 4, 3, 4));
    assert_eq!(g.move_info, MoveInfo::InValid);
}

#[test]
fn can_move_refuses_landing_on_own_piece() {
    let mut g = Game::new();
    assert!(!can_move(&mut g, 7, 0, 6, 0));
    assert_eq!(g.move_info, MoveInfo::InValid);
}

#[test]
fn can_move_allows_castling_onto_own_rook() {
    let mut g = Game::new();
    assert!(can_move(&mut g, 7, 4, 7, 7));
    assert!(can_move(&mut g, 7, 4, 7, 0));
    let mut g = Game::new();
    g.rwr_moved = true;
    assert!(!can_move(&mut g, 7, 4, 7, 7));
    let mut g = Game::new();
    g.round = Round::Black;
    assert!(can_move(&mut g, 0, 4, 0, 0));
    g.game_state = GameState::BlackCheck;
    assert!(!can_move(&mut g, 0, 4, 0, 0));
}

#[test]
fn sliding_pieces_list_only_squares_on_the_board() {
    let g = Game::new();
    for piece in [1, 7, 3, 9, 4, 10] {
        for r in 0..8 {
            for c in 0..8 {
                for (x, y) in get_pos_moves(&g.board, piece, r, c) {
                    assert!((0..8).contains(&x) && (0..8).contains(&y));
                }
            }
        }
    }
}

#[test]
fn knights_and_kings_list_squares_from_anywhere() {
    let b = empty_board();
    assert_eq!(
        get_pos_moves(&b, 2, 9, -3),
        vec![(8, -1), (10, -1), (8, -5), (10, -5), (7, -2), (7, -4), (11, -2), (11, -4)]
    );
    assert_eq!(
        get_pos_moves(&b, 11, -1, 8),
        vec![(-2, 8), (-2, 7), (-2, 9), (-1, 9), (-1, 7), (0, 8), (0, 7), (0, 9)]
    );
}

#[test]
fn unknown_codes_off_the_board_have_no_moves() {
    let b = empty_board();
    assert_eq!(get_pos_moves(&b, 0, 100, -100), Vec::<(i32, i32)>::new());
    assert_eq!(get_pos_moves(&b, 42, i32::MAX, i32::MIN), Vec::<(i32, i32)>::new());
}

#[test]
fn can_move_in_white_check_ignores_an_off_board_target() {
    let mut g = Game::new();
    g.game_state = GameState::WhiteCheck;
    assert!(!can_move(&mut g, 6, 4, 9, 4));
    assert_eq!(g.move_info, MoveInfo::InValid);
    assert_eq!(g.board, Game::new().board);
}
