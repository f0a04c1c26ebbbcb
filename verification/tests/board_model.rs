use tictactoe::game::{Board, GameResult, TileState, O_SPRITE_INDEX, X_SPRITE_INDEX};

#[test]
fn place_then_query_every_cell() {
    // Placing a move then querying returns the placed state, and exactly one
    // cell changed.
    for col in 0..3 {
        for row in 0..3 {
            let mut b = Board::new();
            b.update_tile(col, row, TileState::X);
            for c in 0..3 {
                for r in 0..3 {
                    let expected = if c == col && r == row {
                        TileState::X
                    } else {
                        TileState::Empty
                    };
                    assert_eq!(b.get_tile(c, r), expected);
                }
            }
        }
    }
}

#[test]
fn overwrite_changes_only_that_cell() {
    let mut b = Board::new();
    b.update_tile(1, 2, TileState::O);
    b.update_tile(1, 2, TileState::X);
    assert_eq!(b.get_tile(1, 2), TileState::X);
    assert_eq!(b.get_tile(2, 1), TileState::Empty);
}

#[test]
fn sprite_indices() {
    assert_eq!(TileState::X.get_sprite(), X_SPRITE_INDEX);
    assert_eq!(TileState::O.get_sprite(), O_SPRITE_INDEX);
    assert_eq!(X_SPRITE_INDEX, 1);
    assert_eq!(O_SPRITE_INDEX, 2);
}

fn line_cells(l: usize) -> [(usize, usize); 3] {
    // (col, row) triples of the eight winning lines: rows, columns, diagonals.
    match l {
        0 => [(0, 0), (1, 0), (2, 0)],
        1 => [(0, 1), (1, 1), (2, 1)],
        2 => [(0, 2), (1, 2), (2, 2)],
        3 => [(0, 0), (0, 1), (0, 2)],
        4 => [(1, 0), (1, 1), (1, 2)],
        5 => [(2, 0), (2, 1), (2, 2)],
        6 => [(0, 0), (1, 1), (2, 2)],
        _ => [(2, 0), (1, 1), (0, 2)],
    }
}

#[test]
fn each_winning_line_reports_its_player() {
    // A board with one line filled identically by one player and all else
    // empty reports a win for that player.
    for l in 0..8 {
        for p in [TileState::X, TileState::O] {
            let mut b = Board::new();
            for (c, r) in line_cells(l) {
                b.update_tile(c, r, p);
            }
            assert_eq!(b.check_win(), Some(p));
            assert_eq!(b.game_result(), GameResult::Won(p));
        }
    }
}

#[test]
fn empty_board_reports_no_win() {
    let b = Board::new();
    assert_eq!(b.check_win(), None);
    assert_eq!(b.game_result(), GameResult::InProgress);
    for r in 0..3 {
        assert!(!b.check_row_win(r));
        assert!(!b.check_column_win(r));
    }
    assert!(!b.check_left_diagonal());
    assert!(!b.check_right_diagonal());
}

#[test]
fn mixed_line_reports_no_win() {
    let mut b = Board::new();
    b.update_tile(0, 0, TileState::X);
    b.update_tile(1, 0, TileState::O);
    b.update_tile(2, 0, TileState::X);
    assert!(!b.check_row_win(0));
    assert_eq!(b.check_win(), None);
}

#[test]
fn four_checks_match_their_lines() {
    let mut b = Board::new();
    b.update_tile(0, 1, TileState::O);
    b.update_tile(1, 1, TileState::O);
    b.update_tile(2, 1, TileState::O);
    assert!(b.check_row_win(1));
    assert!(!b.check_row_win(0));
    assert!(!b.check_column_win(1));

    let mut b = Board::new();
    b.update_tile(2, 0, TileState::X);
    b.update_tile(2, 1, TileState::X);
    b.update_tile(2, 2, TileState::X);
    assert!(b.check_column_win(2));
    assert!(!b.check_row_win(0));

    let mut b = Board::new();
    b.update_tile(0, 0, TileState::O);
    b.update_tile(1, 1, TileState::O);
    b.update_tile(2, 2, TileState::O);
    assert!(b.check_left_diagonal());
    assert!(!b.check_right_diagonal());

    let mut b = Board::new();
    b.update_tile(2, 0, TileState::X);
    b.update_tile(1, 1, TileState::X);
    b.update_tile(0, 2, TileState::X);
    assert!(b.check_right_diagonal());
    assert!(!b.check_left_diagonal());
}

#[test]
fn full_board_without_line_is_a_draw() {
    // O X O
    // O X X
    // X O O   (rows top to bottom; no line is uniform)
    let mut b = Board::new();
    let layout = [
        (0, 0, TileState::O),
        (1, 0, TileState::X),
        (2, 0, TileState::O),
        (0, 1, TileState::O),
        (1, 1, TileState::X),
        (2, 1, TileState::X),
        (0, 2, TileState::X),
        (1, 2, TileState::O),
        (2, 2, TileState::O),
    ];
    for (c, r, p) in layout {
        b.update_tile(c, r, p);
    }
    assert!(b.is_full());
    assert_eq!(b.check_win(), None);
    assert_eq!(b.game_result(), GameResult::Draw);
}

#[test]
fn nearly_full_board_is_in_progress() {
    let mut b = Board::new();
    b.update_tile(0, 0, TileState::X);
    b.update_tile(1, 1, TileState::O);
    assert!(!b.is_full());
    assert_eq!(b.game_result(), GameResult::InProgress);
}
