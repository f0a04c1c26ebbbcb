use tictactoe::game::{GameResult, GameState, RenderGroup, TileState};
use tictactoe::input::{InputEvent, InputHandler, MouseButtonKind, ScreenSize};

fn session() -> (GameState, InputHandler) {
    let mut gs = GameState::new(vec![7, 8, 9]);
    assert!(gs.register_ent(-750, 750, 1500, 1500, 0));
    let inp = InputHandler::new(ScreenSize { width: 800, height: 600 });
    (gs, inp)
}

/// Press the left button with the pointer over the centre of cell
/// (col, row) and run one frame.
fn click(gs: &mut GameState, inp: &mut InputHandler, col: u32, row: u32) -> GameResult {
    // Cell centres sit at -0.5, 0, 0.5 in NDC; a 800x600 window maps those
    // to these device pixels.
    let px = [200, 400, 600][col as usize];
    let py = [450, 300, 150][row as usize];
    inp.register_event(&InputEvent::CursorMoved { x: px, y: py });
    inp.register_event(&InputEvent::MouseInput { button: MouseButtonKind::Left, pressed: true });
    let res = gs.update(inp);
    inp.register_event(&InputEvent::MouseInput { button: MouseButtonKind::Left, pressed: false });
    res
}

#[test]
fn first_player_wins_column_zero_after_five_moves() {
    // Moves at (0,0), (1,1), (0,1), (1,2), (0,2) by alternating players give
    // the first player (O) all of column 0 on the fifth move.
    let (mut gs, mut inp) = session();
    assert_eq!(click(&mut gs, &mut inp, 0, 0), GameResult::InProgress);
    assert_eq!(click(&mut gs, &mut inp, 1, 1), GameResult::InProgress);
    assert_eq!(click(&mut gs, &mut inp, 0, 1), GameResult::InProgress);
    assert_eq!(click(&mut gs, &mut inp, 1, 2), GameResult::InProgress);
    assert_eq!(click(&mut gs, &mut inp, 0, 2), GameResult::Won(TileState::O));
}

#[test]
fn held_button_does_not_replay_an_occupied_cell() {
    let (mut gs, mut inp) = session();
    assert_eq!(click(&mut gs, &mut inp, 1, 1), GameResult::InProgress);
    let before = gs.get_meshes();
    // Same cell again: the move is rejected and nothing changes.
    assert_eq!(click(&mut gs, &mut inp, 1, 1), GameResult::InProgress);
    assert_eq!(gs.get_meshes(), before);
}

#[test]
fn pointer_outside_the_board_is_a_no_op() {
    let (mut gs, mut inp) = session();
    inp.register_event(&InputEvent::CursorMoved { x: 0, y: 0 });
    inp.register_event(&InputEvent::MouseInput { button: MouseButtonKind::Left, pressed: true });
    assert_eq!(gs.update(&inp), GameResult::InProgress);
    assert_eq!(gs.get_meshes().len(), 1);
}

#[test]
fn released_button_is_a_no_op() {
    let (mut gs, mut inp) = session();
    inp.register_event(&InputEvent::CursorMoved { x: 400, y: 300 });
    assert_eq!(gs.update(&inp), GameResult::InProgress);
    assert_eq!(gs.get_meshes().len(), 1);
}

#[test]
fn moves_after_a_win_are_rejected() {
    let (mut gs, mut inp) = session();
    click(&mut gs, &mut inp, 0, 0);
    click(&mut gs, &mut inp, 1, 1);
    click(&mut gs, &mut inp, 0, 1);
    click(&mut gs, &mut inp, 1, 2);
    assert_eq!(click(&mut gs, &mut inp, 0, 2), GameResult::Won(TileState::O));
    let before = gs.get_meshes();
    assert_eq!(click(&mut gs, &mut inp, 2, 2), GameResult::Won(TileState::O));
    assert_eq!(gs.get_meshes(), before);
}

#[test]
fn placements_carry_position_size_and_resolved_handle() {
    let (mut gs, mut inp) = session();
    let meshes = gs.get_meshes();
    assert_eq!(meshes.len(), 1);
    assert_eq!(
        meshes[0],
        RenderGroup { x: -750, y: 750, width: 1500, height: 1500, sprite_handle: 7 }
    );
    // First move is O's; its mark lands at the top-left of cell (1, 1) and
    // resolves sprite index 2 to handle 9.
    click(&mut gs, &mut inp, 1, 1);
    let meshes = gs.get_meshes();
    assert_eq!(meshes.len(), 2);
    assert_eq!(
        meshes[1],
        RenderGroup { x: -250, y: 250, width: 500, height: 500, sprite_handle: 9 }
    );
    // Second move is X's: sprite index 1, handle 8; cell (0, 0) top-left.
    click(&mut gs, &mut inp, 0, 0);
    let meshes = gs.get_meshes();
    assert_eq!(meshes.len(), 3);
    assert_eq!(
        meshes[2],
        RenderGroup { x: -750, y: -250, width: 500, height: 500, sprite_handle: 8 }
    );
}

#[test]
fn rejected_placement_leaves_the_list_alone() {
    let (mut gs, _) = session();
    assert!(!gs.register_ent(0, 0, 500, 500, 3));
    assert_eq!(gs.get_meshes().len(), 1);
}

#[test]
fn full_game_without_line_ends_in_a_draw() {
    // Alternating O and X fill the board to
    //   O X O
    //   O X X
    //   X O O
    // with no uniform line; the ninth move reports a draw.
    let (mut gs, mut inp) = session();
    let o_moves = [(0, 0), (2, 0), (0, 1), (1, 2), (2, 2)];
    let x_moves = [(1, 0), (1, 1), (2, 1), (0, 2)];
    for i in 0..4 {
        assert_eq!(click(&mut gs, &mut inp, o_moves[i].0, o_moves[i].1), GameResult::InProgress);
        assert_eq!(click(&mut gs, &mut inp, x_moves[i].0, x_moves[i].1), GameResult::InProgress);
    }
    assert_eq!(click(&mut gs, &mut inp, o_moves[4].0, o_moves[4].1), GameResult::Draw);
    // One grid placement plus nine marks.
    assert_eq!(gs.get_meshes().len(), 10);
}
