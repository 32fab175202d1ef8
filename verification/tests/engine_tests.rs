use tetris::engine::Tetris;
use tetris::piece::{OrientationState, PieceKind, Tetromino};

#[test]
fn new_session_is_empty_and_playing() {
    let game = Tetris::new();
    assert!(!game.is_game_over());
    assert!(game.current_tetromino.is_none());
    assert_eq!(game.score, 0);
    assert_eq!(game.board.len(), 24);
    for r in 0..24 {
        assert_eq!(game.board[r].len(), 10);
        for c in 0..10 {
            assert_eq!(game.board[r][c], 0);
        }
    }
}

#[test]
fn start_clears_board_and_spawns_at_spawn_anchor() {
    let mut game = Tetris::new();
    game.board[20][5] = 1;
    game.score = 700;
    game.game_over = true;
    game.start();
    assert!(!game.is_game_over());
    assert_eq!(game.score, 0);
    assert_eq!(game.tetromino_x, 3);
    assert_eq!(game.tetromino_y, 1);
    let t = game.current_tetromino.as_ref().unwrap();
    assert!(t.state == OrientationState::Spawn);
    assert_eq!(t.shape, Tetromino::new(t.kind).shape);
    for r in 0..24 {
        for c in 0..10 {
            assert_eq!(game.board[r][c], 0);
        }
    }
}

#[test]
fn random_draw_always_yields_a_fresh_piece() {
    let mut game = Tetris::new();
    for _ in 0..20 {
        let t = game.get_random_type().unwrap();
        assert!(t.state == OrientationState::Spawn);
        assert_eq!(t.shape, Tetromino::new(t.kind).shape);
    }
}

#[test]
fn lateral_moves_respect_walls() {
    let mut game = Tetris::new();
    game.start();
    game.spawn_piece(PieceKind::T);
    // T occupies columns x..x+3: it can reach x = 0 on the left.
    for _ in 0..12 {
        game.move_left();
    }
    assert_eq!(game.tetromino_x, 0);
    // And x = 7 on the right.
    for _ in 0..12 {
        game.move_right();
    }
    assert_eq!(game.tetromino_x, 7);
}

#[test]
fn lateral_move_blocked_by_stack_is_a_no_op() {
    let mut game = Tetris::new();
    game.start();
    game.spawn_piece(PieceKind::T);
    game.tetromino_x = 3;
    game.tetromino_y = 10;
    // A wall of cells immediately left of the piece.
    for r in 4..24 {
        game.board[r][3] = 1;
    }
    game.move_left();
    assert_eq!(game.tetromino_x, 3);
    assert_eq!(game.tetromino_y, 10);
}

#[test]
fn moves_without_active_piece_do_nothing() {
    let mut game = Tetris::new();
    game.move_left();
    game.move_right();
    game.move_down();
    game.rotate_clockwise();
    game.rotate_counterclockwise();
    assert!(game.current_tetromino.is_none());
    assert_eq!(game.tetromino_x, 0);
    assert_eq!(game.tetromino_y, 0);
    assert_eq!(game.score, 0);
    assert!(!game.is_game_over());
}

#[test]
fn piece_dropped_at_left_wall_locks_in_bottom_left_corner() {
    let mut game = Tetris::new();
    game.start();
    game.spawn_piece(PieceKind::J);
    for _ in 0..12 {
        game.move_left();
    }
    assert_eq!(game.tetromino_x, 0);
    let mut locked = false;
    for _ in 0..40 {
        game.move_down();
        if game.board[23][0] != 0 {
            locked = true;
            break;
        }
    }
    assert!(locked);
    // J's bottom row filled columns 0..3 of the bottom board row.
    assert!(game.board[23][0] != 0);
    assert!(game.board[23][1] != 0);
    assert!(game.board[23][2] != 0);
    assert!(game.board[22][0] != 0);
    // Locking spawned a fresh piece at the spawn anchor.
    assert!(!game.is_game_over());
    assert!(game.current_tetromino.is_some());
    assert_eq!(game.tetromino_x, 3);
    assert_eq!(game.tetromino_y, 1);
}

#[test]
fn completing_the_bottom_row_scores_100_and_clears_it() {
    let mut game = Tetris::new();
    game.start();
    game.spawn_piece(PieceKind::I);
    // Stand the I piece upright (it occupies column 2 of its grid) and
    // park it against the left wall so it fills column 0.
    game.rotate_clockwise();
    for _ in 0..12 {
        game.move_left();
    }
    assert_eq!(game.tetromino_x, -2);
    // The bottom visible row lacks only the corner cell.
    for c in 1..10 {
        game.board[23][c] = 1;
    }
    let mut cleared = false;
    for _ in 0..40 {
        game.move_down();
        if game.score >= 100 {
            cleared = true;
            break;
        }
    }
    assert!(cleared);
    assert_eq!(game.score, 100);
    // The completed row is gone; what remains of the upright piece
    // shifted down one row into the cleared space.
    assert_eq!(game.board[23][0], 1);
    for c in 1..10 {
        assert_eq!(game.board[23][c], 0);
    }
    assert_eq!(game.board[21][0], 1);
    assert_eq!(game.board[22][0], 1);
    // A fresh empty row entered at the top of the visible field.
    for c in 0..10 {
        assert_eq!(game.board[4][c], 0);
    }
}

#[test]
fn gravity_locks_piece_and_respawns() {
    let mut game = Tetris::new();
    game.start();
    game.spawn_piece(PieceKind::O);
    // O at columns 3..5 falls 21 rows and locks at rows 22 and 23.
    for _ in 0..40 {
        game.move_down();
        if game.current_tetromino.is_none() || game.tetromino_y == 1 {
            break;
        }
    }
    assert!(game.board[23][3] != 0);
    assert!(game.board[23][4] != 0);
    assert!(game.board[22][3] != 0);
    assert!(game.board[22][4] != 0);
}

#[test]
fn score_accumulates_across_clears() {
    let mut game = Tetris::new();
    game.start();
    game.current_tetromino = None;
    for c in 0..10 {
        game.board[23][c] = 1;
    }
    game.clear_full_lines();
    assert_eq!(game.score, 100);
    for c in 0..10 {
        game.board[23][c] = 1;
    }
    game.clear_full_lines();
    assert_eq!(game.score, 200);
}
