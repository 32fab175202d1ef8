use tetris::board::check_collision;
use tetris::engine::Tetris;
use tetris::piece::{PieceKind, Tetromino};

#[test]
fn no_collision_on_empty_board() {
    let game = Tetris::new();
    let t = Tetromino::new(PieceKind::J);
    assert!(!check_collision(&t, &game.board, 5, 3));
}

#[test]
fn collision_past_left_wall() {
    let game = Tetris::new();
    let t = Tetromino::new(PieceKind::J);
    assert!(check_collision(&t, &game.board, 5, -1));
}

#[test]
fn collision_past_right_wall() {
    let game = Tetris::new();
    let t = Tetromino::new(PieceKind::I);
    // The I piece occupies columns x..x+4, so x = 7 reaches column 10.
    assert!(check_collision(&t, &game.board, 5, 7));
    assert!(!check_collision(&t, &game.board, 5, 6));
}

#[test]
fn collision_below_bottom_row() {
    let game = Tetris::new();
    let t = Tetromino::new(PieceKind::J);
    // J occupies shape rows 0 and 1; y = 23 puts a cell on row 24.
    assert!(check_collision(&t, &game.board, 23, 3));
    assert!(!check_collision(&t, &game.board, 22, 3));
}

#[test]
fn collision_with_occupied_cell() {
    let mut game = Tetris::new();
    game.board[10][3] = 1;
    let t = Tetromino::new(PieceKind::J);
    // J's occupied cells at anchor (3, 9) include board cell (10, 3).
    assert!(check_collision(&t, &game.board, 9, 3));
    assert!(!check_collision(&t, &game.board, 7, 3));
}

#[test]
fn negative_rows_never_collide() {
    let game = Tetris::new();
    let t = Tetromino::new(PieceKind::J);
    // The hidden space above row 0 has no lower bound check.
    assert!(!check_collision(&t, &game.board, -2, 3));
}
