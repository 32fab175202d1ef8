use tetris::engine::Tetris;
use tetris::piece::{PieceKind, Tetromino};

#[test]
fn two_nonadjacent_full_rows_score_200_and_shift() {
    let mut game = Tetris::new();
    game.start();
    game.current_tetromino = None;
    game.score = 0;
    for c in 0..10 {
        game.board[10][c] = 1;
        game.board[15][c] = 1;
    }
    // Markers to watch the shifting: one above both full rows, one between
    // them, one below both.
    game.board[8][2] = 7;
    game.board[12][0] = 5;
    game.board[20][6] = 9;
    game.clear_full_lines();
    assert_eq!(game.score, 200);
    // Rows above a cleared row move down one place per clear below... the
    // marker at row 8 sat above both full rows, so it moves down twice.
    assert_eq!(game.board[10][2], 7);
    // The marker at row 12 sat below the first full row and above the
    // second, so it moves down once.
    assert_eq!(game.board[13][0], 5);
    // The marker at row 20 sat below both full rows and stays put.
    assert_eq!(game.board[20][6], 9);
    // No full row remains and the top of the field is empty.
    for r in 4..24 {
        assert!((0..10).any(|c| game.board[r][c] == 0));
    }
    for c in 0..10 {
        assert_eq!(game.board[4][c], 0);
        assert_eq!(game.board[5][c], 0);
    }
}

#[test]
fn single_full_row_scores_100() {
    let mut game = Tetris::new();
    game.start();
    game.current_tetromino = None;
    for c in 0..10 {
        game.board[23][c] = 1;
    }
    game.clear_full_lines();
    assert_eq!(game.score, 100);
    for c in 0..10 {
        assert_eq!(game.board[23][c], 0);
    }
}

#[test]
fn no_full_rows_scores_nothing() {
    let mut game = Tetris::new();
    game.start();
    game.current_tetromino = None;
    for c in 0..9 {
        game.board[23][c] = 1;
    }
    game.clear_full_lines();
    assert_eq!(game.score, 0);
    assert_eq!(game.board[23][0], 1);
    assert_eq!(game.board[23][9], 0);
}

#[test]
fn adjacent_full_rows_both_clear() {
    let mut game = Tetris::new();
    game.start();
    game.current_tetromino = None;
    for c in 0..10 {
        game.board[22][c] = 1;
        game.board[23][c] = 1;
    }
    game.board[21][3] = 5;
    game.clear_full_lines();
    assert_eq!(game.score, 200);
    assert_eq!(game.board[23][3], 5);
    assert_eq!(game.board[22][3], 0);
}

#[test]
fn score_saturates_at_counter_maximum() {
    let mut game = Tetris::new();
    game.start();
    game.current_tetromino = None;
    game.score = u32::MAX - 50;
    for c in 0..10 {
        game.board[23][c] = 1;
    }
    game.clear_full_lines();
    assert_eq!(game.score, u32::MAX);
}

#[test]
fn lock_writes_piece_cells_into_visible_board() {
    let mut game = Tetris::new();
    game.start();
    game.current_tetromino = Some(Tetromino::new(PieceKind::T));
    game.tetromino_x = 4;
    game.tetromino_y = 10;
    game.lock_tetromino();
    assert!(game.current_tetromino.is_none());
    assert_eq!(game.board[10][5], 1);
    assert_eq!(game.board[11][4], 1);
    assert_eq!(game.board[11][5], 1);
    assert_eq!(game.board[11][6], 1);
    assert_eq!(game.score, 0);
}

#[test]
fn lock_in_hidden_buffer_writes_nothing() {
    let mut game = Tetris::new();
    game.start();
    game.current_tetromino = Some(Tetromino::new(PieceKind::J));
    // J occupies shape rows 0 and 1; anchor row 1 keeps every cell in the
    // hidden buffer rows 1 and 2.
    game.tetromino_x = 3;
    game.tetromino_y = 1;
    game.lock_tetromino();
    assert!(game.current_tetromino.is_none());
    for r in 0..24 {
        for c in 0..10 {
            assert_eq!(game.board[r][c], 0);
        }
    }
}

#[test]
fn blocked_spawn_after_buffer_lock_triggers_game_over() {
    let mut game = Tetris::new();
    game.start();
    game.current_tetromino = Some(Tetromino::new(PieceKind::J));
    game.tetromino_x = 3;
    game.tetromino_y = 1;
    game.lock_tetromino();
    // Stack reaching the top: the look-ahead two rows below the spawn
    // anchor hits row 4.
    for c in 0..10 {
        game.board[4][c] = 1;
    }
    game.spawn_piece(PieceKind::J);
    assert!(game.is_game_over());
    assert!(game.current_tetromino.is_none());
}
