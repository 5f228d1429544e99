use terminal_tac_toe::game::App;

fn fresh() -> App {
    App::default()
}

#[test]
fn default_state() {
    let app = fresh();
    assert_eq!(app.gamestate, [0u8; 9]);
    assert_eq!(app.cursor_pos, 0);
    assert!(!app.x_turn);
    assert!(!app.exit);
    assert_eq!(app.turn, 0);
    assert_eq!(app.won, 0);
    assert!(!app.ai_mode);
    assert!(!app.start);
}

#[test]
fn cursor_moves_and_edges() {
    let mut app = fresh();
    app.cursor_pos = 4;
    app.move_cursor(0);
    assert_eq!(app.cursor_pos, 1);
    app.move_cursor(1);
    assert_eq!(app.cursor_pos, 0);
    // at the top-left corner, up and left are ignored
    app.move_cursor(0);
    assert_eq!(app.cursor_pos, 0);
    app.move_cursor(1);
    assert_eq!(app.cursor_pos, 0);
    app.move_cursor(2);
    assert_eq!(app.cursor_pos, 3);
    app.move_cursor(3);
    assert_eq!(app.cursor_pos, 4);
    // at the bottom-right corner, down and right are ignored
    app.cursor_pos = 8;
    app.move_cursor(2);
    assert_eq!(app.cursor_pos, 8);
    app.move_cursor(3);
    assert_eq!(app.cursor_pos, 8);
    // an unknown direction does nothing
    app.move_cursor(7);
    assert_eq!(app.cursor_pos, 8);
}

#[test]
fn select_plays_only_empty_cells() {
    let mut app = fresh();
    app.x_turn = true;
    app.select();
    assert_eq!(app.gamestate[0], 1);
    assert!(!app.x_turn);
    assert_eq!(app.turn, 1);
    // the same cell again: occupied, nothing happens
    app.select();
    assert_eq!(app.gamestate[0], 1);
    assert!(!app.x_turn);
    assert_eq!(app.turn, 1);
    // O plays the next cell
    app.cursor_pos = 4;
    app.select();
    assert_eq!(app.gamestate[4], 2);
    assert!(app.x_turn);
    assert_eq!(app.turn, 2);
}

#[test]
fn key_events_drive_the_game() {
    let mut app = fresh();
    app.handle_key_event('2');
    assert!(app.start);
    assert!(app.ai_mode);

    let mut app = fresh();
    app.handle_key_event('1');
    assert!(app.start);
    assert!(!app.ai_mode);

    app.x_turn = true;
    app.handle_key_event('s');
    assert_eq!(app.cursor_pos, 3);
    app.handle_key_event('d');
    assert_eq!(app.cursor_pos, 4);
    app.handle_key_event(' ');
    assert_eq!(app.gamestate[4], 1);
    assert_eq!(app.turn, 1);
    assert!(!app.x_turn);

    app.handle_key_event('z');
    assert_eq!(app.gamestate[4], 1);
    assert_eq!(app.turn, 1);

    app.handle_key_event('q');
    assert!(app.exit);
}

#[test]
fn check_state_finds_row_win() {
    let mut app = fresh();
    app.gamestate = [1, 1, 1, 2, 2, 0, 0, 0, 0];
    app.turn = 5;
    app.check_state();
    assert_eq!(app.won, 1);
}

#[test]
fn check_state_finds_column_win() {
    let mut app = fresh();
    app.gamestate = [2, 1, 1, 2, 0, 0, 2, 0, 0];
    app.turn = 5;
    app.check_state();
    assert_eq!(app.won, 2);
}

#[test]
fn check_state_finds_diagonal_win() {
    let mut app = fresh();
    app.gamestate = [1, 2, 2, 2, 1, 0, 0, 0, 1];
    app.turn = 6;
    app.check_state();
    assert_eq!(app.won, 1);
}

#[test]
fn check_state_waits_for_turn_four() {
    let mut app = fresh();
    app.gamestate = [1, 1, 1, 0, 0, 0, 0, 0, 0];
    app.turn = 3;
    app.check_state();
    assert_eq!(app.won, 0);
}

#[test]
fn check_state_empty_row_masks_later_lines() {
    // an all-empty first row counts as all-equal and ends the scan
    // before the winning bottom row is ever looked at
    let mut app = fresh();
    app.gamestate = [0, 0, 0, 2, 1, 2, 1, 1, 1];
    app.turn = 6;
    app.check_state();
    assert_eq!(app.won, 0);
}

#[test]
fn check_state_turn_nine_draw_outranks_diagonal() {
    // on the ninth turn the draw verdict overwrites a diagonal win
    let mut app = fresh();
    app.gamestate = [1, 2, 2, 2, 1, 1, 2, 1, 1];
    app.turn = 9;
    app.check_state();
    assert_eq!(app.won, 3);
}

#[test]
fn ai_takes_its_winning_cell() {
    let mut app = fresh();
    app.gamestate = [2, 2, 0, 1, 1, 0, 0, 0, 0];
    app.turn = 4;
    app.x_turn = false;
    app.run_ai_player();
    assert_eq!(app.gamestate[2], 2);
    assert!(app.x_turn);
    assert_eq!(app.turn, 5);
}

#[test]
fn ai_blocks_the_opponent() {
    let mut app = fresh();
    app.gamestate = [1, 1, 0, 0, 2, 0, 0, 0, 0];
    app.turn = 3;
    app.x_turn = false;
    app.run_ai_player();
    assert_eq!(app.gamestate[2], 2);
}

#[test]
fn ai_does_nothing_on_x_turn() {
    let mut app = fresh();
    app.gamestate = [1, 0, 0, 0, 2, 0, 0, 0, 0];
    app.turn = 2;
    app.x_turn = true;
    app.run_ai_player();
    assert_eq!(app.gamestate, [1, 0, 0, 0, 2, 0, 0, 0, 0]);
    assert_eq!(app.turn, 2);
}

#[test]
fn ai_passes_when_every_cell_loses() {
    // X has forked: whatever O plays scores at least the bar of 10, so
    // the computer leaves the board untouched
    let mut app = fresh();
    app.gamestate = [1, 0, 1, 0, 1, 2, 0, 2, 0];
    app.turn = 5;
    app.x_turn = false;
    app.run_ai_player();
    assert_eq!(app.gamestate, [1, 0, 1, 0, 1, 2, 0, 2, 0]);
    assert_eq!(app.turn, 5);
    assert!(!app.x_turn);
}
