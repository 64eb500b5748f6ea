use tictactoe::game::{Game, Mode};
use tictactoe::terminal::{move_cursor, Ansi};

const TERMINAL_SIZE: (u16, u16) = (80, 24);

#[test]
fn test_ansi_format() {
    assert_eq!(Ansi::HideCursor.to_string(), "\x1B[?25l");
    assert_eq!(Ansi::ShowCursor.to_string(), "\x1B[?25h");
    assert_eq!(Ansi::ClearScreen.to_string(), "\x1B[2J");
    assert_eq!(Ansi::MoveCursor(10, 20).to_string(), "\x1B[20;10H");
}

#[test]
fn test_move_cursor_free_mode() {
    let mut game = Game::new(Mode::Local, true);
    game.free_cursor = true;
    game.cursor_pos = (5, 5);

    // Test arrow up
    move_cursor(&mut game, b'[', b'A', TERMINAL_SIZE);
    assert_eq!(game.cursor_pos, (5, 4));

    // Test arrow down
    move_cursor(&mut game, b'[', b'B', TERMINAL_SIZE);
    assert_eq!(game.cursor_pos, (5, 5));

    // Test arrow right
    move_cursor(&mut game, b'[', b'C', TERMINAL_SIZE);
    assert_eq!(game.cursor_pos, (6, 5));

    // Test arrow left
    move_cursor(&mut game, b'[', b'D', TERMINAL_SIZE);
    assert_eq!(game.cursor_pos, (5, 5));

    // Test boundary conditions
    game.cursor_pos = (1, 1);
    move_cursor(&mut game, b'[', b'D', TERMINAL_SIZE);
    assert_eq!(game.cursor_pos, (1, 1)); // Should not go below 1

    move_cursor(&mut game, b'[', b'A', TERMINAL_SIZE);
    assert_eq!(game.cursor_pos, (1, 1)); // Should not go below 1
}

#[test]
fn test_move_cursor_fixed_mode() {
    let mut game = Game::new(Mode::Local, true);

    // Set up symbol slots
    game.symbol_slots = [
        (3, 2),
        (7, 2),
        (11, 2),
        (3, 4),
        (7, 4),
        (11, 4),
        (3, 6),
        (7, 6),
        (11, 6),
    ];

    game.free_cursor = false;
    game.cursor_pos = (7, 4); // Middle slot

    // Test arrow up
    move_cursor(&mut game, b'[', b'A', TERMINAL_SIZE);
    assert_eq!(game.cursor_pos, (7, 2));

    // Test arrow down
    move_cursor(&mut game, b'[', b'B', TERMINAL_SIZE);
    assert_eq!(game.cursor_pos, (7, 4));

    // Test arrow right
    move_cursor(&mut game, b'[', b'C', TERMINAL_SIZE);
    assert_eq!(game.cursor_pos, (11, 4));

    // Test arrow left
    move_cursor(&mut game, b'[', b'D', TERMINAL_SIZE);
    assert_eq!(game.cursor_pos, (7, 4));
}

#[test]
fn cursor_moves_with_large_coordinates() {
    assert_eq!(Ansi::MoveCursor(65535, 1).to_string(), "\x1B[1;65535H");
    let mut game = Game::new(Mode::Local, false);
    game.free_cursor = true;
    game.cursor_pos = (80, 24);
    move_cursor(&mut game, b'[', b'C', TERMINAL_SIZE);
    move_cursor(&mut game, b'[', b'B', TERMINAL_SIZE);
    assert_eq!(game.cursor_pos, (80, 24));
    move_cursor(&mut game, b'O', b'A', TERMINAL_SIZE);
    assert_eq!(game.cursor_pos, (80, 24));
}

#[test]
fn fixed_cursor_stays_on_the_board() {
    let mut game = Game::new(Mode::Local, false);
    game.cursor_pos = (3, 2);
    move_cursor(&mut game, b'[', b'D', TERMINAL_SIZE);
    move_cursor(&mut game, b'[', b'A', TERMINAL_SIZE);
    assert_eq!(game.cursor_pos, (3, 2));
    game.cursor_pos = (5, 5);
    move_cursor(&mut game, b'[', b'A', TERMINAL_SIZE);
    assert_eq!(game.cursor_pos, (5, 5));
}
