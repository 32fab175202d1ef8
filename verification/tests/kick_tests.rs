use tetris::engine::Tetris;
use tetris::kicks::{kick_candidates, try_wall_kick};
use tetris::piece::{OrientationState, PieceKind, Tetromino};

#[test]
fn square_piece_uses_single_trivial_candidate() {
    let c = kick_candidates(PieceKind::O, 0, 1).unwrap();
    assert_eq!(c, vec![(0i8, 0i8)]);
    // The square piece bypasses the tables even for a non-key transition.
    let c2 = kick_candidates(PieceKind::O, 0, 2).unwrap();
    assert_eq!(c2, vec![(0i8, 0i8)]);
}

#[test]
fn i_table_spawn_to_clockwise_candidates() {
    let c = kick_candidates(PieceKind::I, 0, 1).unwrap();
    assert_eq!(c, vec![(0i8, 0i8), (-2, 0), (1, 0), (-2, -1), (1, 2)]);
}

#[test]
fn shared_table_spawn_to_clockwise_candidates() {
    let c = kick_candidates(PieceKind::T, 0, 1).unwrap();
    assert_eq!(c, vec![(0i8, 0i8), (-1, 0), (-1, 1), (0, -2), (-1, -2)]);
}

#[test]
fn missing_transition_key_yields_none() {
    assert!(kick_candidates(PieceKind::T, 0, 2).is_none());
    assert!(kick_candidates(PieceKind::I, 2, 0).is_none());
}

#[test]
fn wall_kick_tries_candidates_in_table_order() {
    // Build a board where, for the T piece's Spawn -> clockwise rotation at
    // anchor (3, 10), the first two candidates (0,0) and (-1,0) collide and
    // the third, (-1, 1), is the first that fits.  The rotated T occupies
    // cells (0,1), (1,1), (1,2), (2,1) of its grid.
    let mut game = Tetris::new();
    game.board[10][4] = 1; // kills candidate (0,0): cell (10, 4)
    game.board[10][3] = 1; // kills candidate (-1,0): cell (10, 3)
    let t = Tetromino::new(PieceKind::T);
    let r = try_wall_kick(&t, &game.board, 10, 3, (0, 1), true);
    // The third candidate displaces the anchor by (-1, +1).
    assert_eq!(r, Some((2, 11)));
}

#[test]
fn wall_kick_picks_first_candidate_on_open_board() {
    let game = Tetris::new();
    let t = Tetromino::new(PieceKind::T);
    let r = try_wall_kick(&t, &game.board, 10, 3, (0, 1), true);
    assert_eq!(r, Some((3, 10)));
}

#[test]
fn wall_kick_fails_when_every_candidate_collides() {
    // Fill everything around: no candidate placement can fit.
    let mut game = Tetris::new();
    for r in 4..24 {
        for c in 0..10 {
            game.board[r][c] = 1;
        }
    }
    let t = Tetromino::new(PieceKind::T);
    let r = try_wall_kick(&t, &game.board, 10, 3, (0, 1), true);
    assert!(r.is_none());
}

#[test]
fn engine_rotation_commits_third_candidate() {
    let mut game = Tetris::new();
    game.start();
    game.spawn_piece(PieceKind::T);
    game.tetromino_x = 3;
    game.tetromino_y = 10;
    game.board[10][4] = 1;
    game.board[10][3] = 1;
    game.rotate_clockwise();
    assert_eq!(game.tetromino_x, 2);
    assert_eq!(game.tetromino_y, 11);
    let t = game.current_tetromino.as_ref().unwrap();
    assert!(t.state == OrientationState::RotateClockwise);
    assert_eq!(t.shape, vec![vec![0u8, 1, 0], vec![0, 1, 1], vec![0, 1, 0]]);
}

#[test]
fn rejected_rotation_leaves_session_unchanged() {
    let mut game = Tetris::new();
    game.start();
    game.spawn_piece(PieceKind::T);
    game.tetromino_x = 3;
    game.tetromino_y = 10;
    for r in 4..24 {
        for c in 0..10 {
            game.board[r][c] = 1;
        }
    }
    game.rotate_clockwise();
    assert_eq!(game.tetromino_x, 3);
    assert_eq!(game.tetromino_y, 10);
    let t = game.current_tetromino.as_ref().unwrap();
    assert!(t.state == OrientationState::Spawn);
}

#[test]
fn square_piece_rotation_keeps_shape_and_anchor() {
    let mut game = Tetris::new();
    game.start();
    game.spawn_piece(PieceKind::O);
    game.tetromino_x = 4;
    game.tetromino_y = 10;
    // Crowd the board everywhere except the piece's own cells.
    for r in 4..24 {
        for c in 0..10 {
            game.board[r][c] = 1;
        }
    }
    game.board[10][4] = 0;
    game.board[10][5] = 0;
    game.board[11][4] = 0;
    game.board[11][5] = 0;
    game.rotate_clockwise();
    assert_eq!(game.tetromino_x, 4);
    assert_eq!(game.tetromino_y, 10);
    let t = game.current_tetromino.as_ref().unwrap();
    assert_eq!(t.shape, vec![vec![1u8, 1], vec![1, 1]]);
    game.rotate_counterclockwise();
    game.rotate_counterclockwise();
    assert_eq!(game.tetromino_x, 4);
    assert_eq!(game.tetromino_y, 10);
    let t = game.current_tetromino.as_ref().unwrap();
    assert_eq!(t.shape, vec![vec![1u8, 1], vec![1, 1]]);
}
