use tetris::piece::{OrientationState, PieceKind, Tetromino};

#[test]
fn orientation_cycles_clockwise() {
    let mut s = OrientationState::Spawn;
    assert_eq!(s.value(), 0);
    s = s.next_clockwise();
    assert_eq!(s.value(), 1);
    s = s.next_clockwise();
    assert_eq!(s.value(), 2);
    s = s.next_clockwise();
    assert_eq!(s.value(), 3);
    s = s.next_clockwise();
    assert_eq!(s.value(), 0);
}

#[test]
fn orientation_cycles_counterclockwise() {
    let mut s = OrientationState::Spawn;
    s = s.next_counterclockwise();
    assert_eq!(s.value(), 3);
    s = s.next_counterclockwise();
    assert_eq!(s.value(), 2);
    s = s.next_counterclockwise();
    assert_eq!(s.value(), 1);
    s = s.next_counterclockwise();
    assert_eq!(s.value(), 0);
}

#[test]
fn single_clockwise_rotation_of_t() {
    let mut t = Tetromino::new(PieceKind::T);
    t.rotate_clockwise();
    assert_eq!(t.shape, vec![vec![0u8, 1, 0], vec![0, 1, 1], vec![0, 1, 0]]);
    assert!(t.state == OrientationState::RotateClockwise);
}

#[test]
fn four_clockwise_rotations_restore_piece() {
    for kind in [
        PieceKind::I,
        PieceKind::J,
        PieceKind::L,
        PieceKind::O,
        PieceKind::S,
        PieceKind::T,
        PieceKind::Z,
    ] {
        let original = Tetromino::new(kind);
        let mut t = Tetromino::new(kind);
        t.rotate_clockwise();
        t.rotate_clockwise();
        t.rotate_clockwise();
        t.rotate_clockwise();
        assert_eq!(t.shape, original.shape);
        assert!(t.state == OrientationState::Spawn);
    }
}

#[test]
fn four_counterclockwise_rotations_restore_piece() {
    for kind in [
        PieceKind::I,
        PieceKind::J,
        PieceKind::L,
        PieceKind::O,
        PieceKind::S,
        PieceKind::T,
        PieceKind::Z,
    ] {
        let original = Tetromino::new(kind);
        let mut t = Tetromino::new(kind);
        t.rotate_counterclockwise();
        t.rotate_counterclockwise();
        t.rotate_counterclockwise();
        t.rotate_counterclockwise();
        assert_eq!(t.shape, original.shape);
        assert!(t.state == OrientationState::Spawn);
    }
}

#[test]
fn clockwise_then_counterclockwise_is_identity() {
    let original = Tetromino::new(PieceKind::S);
    let mut t = Tetromino::new(PieceKind::S);
    t.rotate_clockwise();
    t.rotate_counterclockwise();
    assert_eq!(t.shape, original.shape);
    assert!(t.state == OrientationState::Spawn);
}
