use mamut_chess::command::{bo_cmd_to_fen_cmd, contains_07, fen_cmd_to_bo_cmd, parse_cmd, valid};

#[test]
fn contains_07_accepts_board_digits_only() {
    for c in ['0', '1', '2', '3', '4', '5', '6', '7'] {
        assert!(contains_07(c));
    }
    for c in ['8', '9', 'a', ':', '-', ' '] {
        assert!(!contains_07(c));
    }
}

#[test]
fn valid_accepts_well_formed_commands() {
    assert!(valid("6:4>4:4".to_string()));
    assert!(valid("0:0>7:7".to_string()));
}

#[test]
fn valid_rejects_malformed_commands() {
    assert!(!valid("".to_string()));
    assert!(!valid("6:4>4:".to_string()));
    assert!(!valid("6:4>4:44".to_string()));
    assert!(!valid("8:4>4:4".to_string()));
    assert!(!valid("6:9>4:4".to_string()));
    assert!(!valid("6-4>4:4".to_string()));
    assert!(!valid("6:4<4:4".to_string()));
    assert!(!valid("6;4>4:4".to_string()));
    assert!(!valid("-:4>4:4".to_string()));
    assert!(!valid("é:4>4:4".to_string()));
    assert!(!valid("6:4>4:é".to_string()));
}

#[test]
fn parse_cmd_reads_four_coordinates() {
    assert_eq!(parse_cmd("6:4>4:4".to_string()), (6, 4, 4, 4));
    assert_eq!(parse_cmd("0:7>3:1".to_string()), (0, 7, 3, 1));
}

#[test]
fn board_square_names() {
    assert_eq!(bo_cmd_to_fen_cmd(&vec![5, 4]), "e3");
    assert_eq!(bo_cmd_to_fen_cmd(&vec![0, 0]), "a8");
    assert_eq!(bo_cmd_to_fen_cmd(&vec![7, 7]), "h1");
    assert_eq!(bo_cmd_to_fen_cmd(&vec![2, 3]), "d6");
}

#[test]
fn board_square_names_skip_off_board_coordinates() {
    assert_eq!(bo_cmd_to_fen_cmd(&vec![8, 4]), "e");
    assert_eq!(bo_cmd_to_fen_cmd(&vec![3, -1]), "5");
    assert_eq!(bo_cmd_to_fen_cmd(&vec![9, 9]), "");
}

#[test]
fn algebraic_squares_read_as_row_and_column() {
    assert_eq!(fen_cmd_to_bo_cmd("e2".to_string()), vec![6, 4]);
    assert_eq!(fen_cmd_to_bo_cmd("a8".to_string()), vec![0, 0]);
    assert_eq!(fen_cmd_to_bo_cmd("h1".to_string()), vec![7, 7]);
    assert_eq!(fen_cmd_to_bo_cmd("e2e4".to_string()), vec![6, 4]);
}

#[test]
fn algebraic_squares_skip_characters_that_name_nothing() {
    assert_eq!(fen_cmd_to_bo_cmd("z2".to_string()), vec![6]);
    assert_eq!(fen_cmd_to_bo_cmd("e9".to_string()), vec![4]);
    assert_eq!(fen_cmd_to_bo_cmd("??".to_string()), Vec::<i32>::new());
}

#[test]
fn square_round_trip_from_board() {
    for r in 0..8 {
        for c in 0..8 {
            let name = bo_cmd_to_fen_cmd(&vec![r, c]);
            assert_eq!(fen_cmd_to_bo_cmd(name), vec![r, c]);
        }
    }
}

#[test]
fn square_round_trip_from_algebraic() {
    for f in ['a', 'b', 'c', 'd', 'e', 'f', 'g', 'h'] {
        for r in ['1', '2', '3', '4', '5', '6', '7', '8'] {
            let name: String = [f, r].iter().collect();
            let sq = fen_cmd_to_bo_cmd(name.clone());
            assert_eq!(bo_cmd_to_fen_cmd(&sq), name);
        }
    }
}

#[test]
fn valid_commands_parse_onto_the_board() {
    for cmd in ["0:0>7:7", "3:5>2:6", "7:0>0:7"] {
        assert!(valid(cmd.to_string()));
        let (a, b, c, d) = parse_cmd(cmd.to_string());
        assert!(a < 8 && b < 8 && c < 8 && d < 8);
    }
}
