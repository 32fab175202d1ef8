//! The game session: board, active piece, anchor, score and game-over
//! flag, with the operations that drive play — spawning, gravity steps,
//! lateral movement, rotation with wall-kick resolution, locking and
//! line-clear scoring.

use rand::seq::SliceRandom;
use vstd::prelude::*;

use crate::board::{
    board_wf, check_collision, clear_full_rows, clear_rows_from, collides, empty_board,
    empty_board_spec, lemma_no_collision_bounds, lock_grid, lock_piece,
};
use crate::board::lemma_collides_high_above;
use crate::kicks::{
    first_fit, kick_candidates_spec, lemma_first_fit_props, lemma_kick_entries_bounded,
    lemma_kick_vertical_after_horizontal, try_wall_kick,
};
use crate::piece::{
    iter_cw, kind_shape, lemma_kind_shape_wf, lemma_orbit_step_ccw, lemma_orbit_step_cw,
    lemma_rotate_preserves_wf, lemma_square_orbit, lemma_square_shape_fixed, rotate_ccw_spec,
    rotate_cw_spec, OrientationState, PieceKind, Tetromino,
};

verus! {

/// The game session.  Rows `0..4` of the board are the hidden spawn
/// buffer; the anchor (`tetromino_x`, `tetromino_y`) is the board position
/// of the active piece's shape grid's top-left corner.
pub struct Tetris {
    pub board: Vec<Vec<u8>>,
    pub current_tetromino: Option<Tetromino>,
    pub tetromino_x: i32,
    pub tetromino_y: i32,
    pub game_over: bool,
    pub score: u32,
}

/// The score after awarding 100 points per cleared line, saturating at the
/// counter's maximum.
pub open spec fn add_points(score: u32, lines: int) -> u32 {
    if score + lines * 100 <= u32::MAX {
        (score + lines * 100) as u32
    } else {
        u32::MAX
    }
}

/// What spawning a piece of the given kind does to a session whose board
/// view is `b`: the look-ahead collision test two rows below the spawn
/// anchor decides between a fresh active piece at (3, 1) and game over
/// with no active piece.
pub open spec fn spawn_outcome(
    b: Seq<Seq<u8>>,
    pre_game_over: bool,
    post: Tetris,
    kind: PieceKind,
) -> bool {
    if collides(kind_shape(kind), b, 3, 3) {
        &&& post.game_over
        &&& post.current_tetromino is None
        &&& post.tetromino_x == 0
        &&& post.tetromino_y == 0
    } else {
        &&& post.game_over == pre_game_over
        &&& post.tetromino_x == 3
        &&& post.tetromino_y == 1
        &&& post.current_tetromino matches Some(t) && t.kind == kind && t.state
            == OrientationState::Spawn && t.shape.deep_view() == kind_shape(kind)
    }
}

/// A lateral move by `dx` columns: committed exactly when the shifted
/// placement does not collide, otherwise a silent no-op.
pub open spec fn move_lateral_post(pre: Tetris, post: Tetris, dx: int) -> bool {
    match pre.current_tetromino {
        None => post == pre,
        Some(t) => if collides(
            t.shape.deep_view(),
            pre.board.deep_view(),
            pre.tetromino_y as int,
            pre.tetromino_x + dx,
        ) {
            post == pre
        } else {
            &&& post.board == pre.board
            &&& post.current_tetromino == pre.current_tetromino
            &&& post.tetromino_x == pre.tetromino_x + dx
            &&& post.tetromino_y == pre.tetromino_y
            &&& post.game_over == pre.game_over
            &&& post.score == pre.score
        },
    }
}

/// A gravity step: move the piece one row down when that does not collide;
/// otherwise lock it into the board, clear full lines awarding 100 points
/// each, and spawn the next (randomly drawn) piece.
pub open spec fn move_down_post(pre: Tetris, post: Tetris) -> bool {
    match pre.current_tetromino {
        None => post == pre,
        Some(t) => {
            let s = t.shape.deep_view();
            let b = pre.board.deep_view();
            if !collides(s, b, pre.tetromino_y + 1, pre.tetromino_x as int) {
                &&& post.board == pre.board
                &&& post.current_tetromino == pre.current_tetromino
                &&& post.tetromino_x == pre.tetromino_x
                &&& post.tetromino_y == pre.tetromino_y + 1
                &&& post.game_over == pre.game_over
                &&& post.score == pre.score
            } else {
                let locked = lock_grid(b, s, pre.tetromino_y as int, pre.tetromino_x as int);
                let outcome = clear_rows_from(locked, 4);
                &&& post.board.deep_view() == outcome.0
                &&& post.score == add_points(pre.score, outcome.1)
                &&& exists|k: PieceKind| #[trigger] spawn_outcome(
                    outcome.0,
                    pre.game_over,
                    post,
                    k,
                )
            }
        },
    }
}

/// A rotation attempt: look up the transition's candidate list, rotate the
/// shape, and commit the first non-colliding candidate displacement; when
/// the lookup fails or every candidate collides the session is unchanged.
pub open spec fn rotate_post(pre: Tetris, post: Tetris, clockwise: bool) -> bool {
    match pre.current_tetromino {
        None => post == pre,
        Some(t) => {
            let from = t.state.value_spec() as int;
            let to = if clockwise {
                (from + 1) % 4
            } else {
                (from + 3) % 4
            };
            let rot = if clockwise {
                rotate_cw_spec(t.shape.deep_view())
            } else {
                rotate_ccw_spec(t.shape.deep_view())
            };
            match kick_candidates_spec(t.kind, from, to) {
                None => post == pre,
                Some(cands) => match first_fit(
                    cands,
                    rot,
                    pre.board.deep_view(),
                    pre.tetromino_y as int,
                    pre.tetromino_x as int,
                ) {
                    None => post == pre,
                    Some(idx) => {
                        &&& post.board == pre.board
                        &&& post.score == pre.score
                        &&& post.game_over == pre.game_over
                        &&& post.tetromino_x == pre.tetromino_x + cands[idx].0
                        &&& post.tetromino_y == pre.tetromino_y + cands[idx].1
                        &&& post.current_tetromino matches Some(t2) && t2.kind == t.kind
                            && t2.state == (if clockwise {
                            t.state.next_clockwise_spec()
                        } else {
                            t.state.next_counterclockwise_spec()
                        }) && t2.shape.deep_view() == rot
                    },
                },
            }
        },
    }
}

impl Tetris {
    /// Session well-formedness: the board has its fixed dimensions, the
    /// active piece's shape is the rotation orbit member its orientation
    /// state counts, and the anchor stays in the narrow band that movement
    /// and kick resolution can ever commit.
    pub open spec fn wf(self) -> bool {
        &&& board_wf(self.board.deep_view())
        &&& (self.current_tetromino matches Some(t) ==> t.wf())
        &&& -3 <= self.tetromino_x <= 9
        &&& -8 <= self.tetromino_y <= 23
    }

    /// A fresh session: empty board, no active piece, nothing scored.
    pub fn new() -> (t: Tetris)
        ensures
            t.wf(),
            t.board.deep_view() == empty_board_spec(),
            t.current_tetromino is None,
            t.tetromino_x == 0,
            t.tetromino_y == 0,
            !t.game_over,
            t.score == 0,
    {
        Tetris {
            board: empty_board(),
            current_tetromino: None,
            tetromino_x: 0,
            tetromino_y: 0,
            game_over: false,
            score: 0,
        }
    }

    pub fn is_game_over(&self) -> (r: bool)
        ensures
            r == self.game_over,
    {
        self.game_over
    }

    /// Restart: clear the board, draw a random piece at the spawn anchor,
    /// clear the game-over flag and reset the score.
    pub fn start(&mut self)
        ensures
            final(self).wf(),
            final(self).board.deep_view() == empty_board_spec(),
            final(self).score == 0,
            !final(self).game_over,
            final(self).tetromino_x == 3,
            final(self).tetromino_y == 1,
            final(self).current_tetromino matches Some(t) && t.wf() && t.state
                == OrientationState::Spawn && t.shape.deep_view() == kind_shape(t.kind),
    {
        self.board = empty_board();
        let fresh = self.get_random_type();
        self.current_tetromino = fresh;
        self.tetromino_x = 3;
        self.tetromino_y = 1;
        self.game_over = false;
        self.score = 0;
    }

    /// Draw the next piece: a full bag of the seven kinds is shuffled four
    /// times over and the first element taken, a uniform random pick.
    pub fn get_random_type(&mut self) -> (r: Option<Tetromino>)
        ensures
            *final(self) == *old(self),
            r matches Some(t) && t.wf() && t.state == OrientationState::Spawn
                && t.shape.deep_view() == kind_shape(t.kind),
    {
        let mut tetromino_bag: Vec<PieceKind> = Vec::new();
        tetromino_bag.push(PieceKind::I);
        tetromino_bag.push(PieceKind::J);
        tetromino_bag.push(PieceKind::L);
        tetromino_bag.push(PieceKind::O);
        tetromino_bag.push(PieceKind::S);
        tetromino_bag.push(PieceKind::T);
        tetromino_bag.push(PieceKind::Z);
        shuffle_kinds(&mut tetromino_bag);
        shuffle_kinds(&mut tetromino_bag);
        shuffle_kinds(&mut tetromino_bag);
        shuffle_kinds(&mut tetromino_bag);
        let kind = tetromino_bag[0];
        Some(Tetromino::new(kind))
    }

    /// Put a fresh piece of the given kind at the spawn anchor (3, 1),
    /// with the look-ahead collision test two rows below: a hit there
    /// means the stack has reached the spawn region, so the session goes
    /// to game over with no active piece.
    pub fn spawn_piece(&mut self, kind: PieceKind)
        requires
            old(self).wf(),
        ensures
            final(self).wf(),
            final(self).board == old(self).board,
            final(self).score == old(self).score,
            spawn_outcome(old(self).board.deep_view(), old(self).game_over, *final(self), kind),
    {
        let t = Tetromino::new(kind);
        self.tetromino_x = 3;
        self.tetromino_y = 1;
        if check_collision(&t, &self.board, self.tetromino_y + 2, self.tetromino_x) {
            self.game_over = true;
            self.current_tetromino = None;
            self.tetromino_x = 0;
            self.tetromino_y = 0;
        } else {
            self.current_tetromino = Some(t);
        }
        proof {
            lemma_kind_shape_wf(kind);
        }
    }

    /// Spawn the next randomly drawn piece.
    fn spawn_tetromino(&mut self)
        requires
            old(self).wf(),
        ensures
            final(self).wf(),
            final(self).board == old(self).board,
            final(self).score == old(self).score,
            exists|k: PieceKind| #[trigger] spawn_outcome(
                old(self).board.deep_view(),
                old(self).game_over,
                *final(self),
                k,
            ),
    {
        let fresh = self.get_random_type();
        match fresh {
            Some(t) => {
                let kind = t.kind;
                self.spawn_piece(kind);
                proof {
                    assert(spawn_outcome(
                        old(self).board.deep_view(),
                        old(self).game_over,
                        *self,
                        kind,
                    ));
                }
            },
            None => {
                proof {
                    assert(false);
                }
            },
        }
    }

    /// Lock the active piece into the board, clear full lines (awarding
    /// score), and drop the active piece; a no-op without an active piece.
    pub fn lock_tetromino(&mut self)
        requires
            old(self).wf(),
        ensures
            final(self).wf(),
            match old(self).current_tetromino {
                None => *final(self) == *old(self),
                Some(t) => {
                    let locked = lock_grid(
                        old(self).board.deep_view(),
                        t.shape.deep_view(),
                        old(self).tetromino_y as int,
                        old(self).tetromino_x as int,
                    );
                    let outcome = clear_rows_from(locked, 4);
                    &&& final(self).board.deep_view() == outcome.0
                    &&& final(self).score == add_points(old(self).score, outcome.1)
                    &&& final(self).current_tetromino is None
                    &&& final(self).tetromino_x == old(self).tetromino_x
                    &&& final(self).tetromino_y == old(self).tetromino_y
                    &&& final(self).game_over == old(self).game_over
                },
            },
    {
        match &self.current_tetromino {
            Some(t) => {
                lock_piece(&mut self.board, t, self.tetromino_y, self.tetromino_x);
            },
            None => {
                return;
            },
        }
        self.clear_full_lines();
        self.current_tetromino = None;
    }

    /// Scan the visible rows top to bottom, delete every row that is full
    /// when visited, and award 100 points per deleted row (the score
    /// saturates rather than overflow its counter).
    pub fn clear_full_lines(&mut self)
        requires
            old(self).wf(),
        ensures
            final(self).wf(),
            final(self).board.deep_view() == clear_rows_from(old(self).board.deep_view(), 4).0,
            final(self).score == add_points(
                old(self).score,
                clear_rows_from(old(self).board.deep_view(), 4).1,
            ),
            final(self).current_tetromino == old(self).current_tetromino,
            final(self).tetromino_x == old(self).tetromino_x,
            final(self).tetromino_y == old(self).tetromino_y,
            final(self).game_over == old(self).game_over,
    {
        let lines_cleared = clear_full_rows(&mut self.board);
        if lines_cleared > 0 {
            let points: u32 = lines_cleared * 100;
            self.score = if self.score <= u32::MAX - points {
                self.score + points
            } else {
                u32::MAX
            };
        }
    }

    /// Gravity: one row down when free, otherwise lock, clear and respawn.
    pub fn move_down(&mut self)
        requires
            old(self).wf(),
        ensures
            final(self).wf(),
            move_down_post(*old(self), *final(self)),
    {
        let collided = match &self.current_tetromino {
            Some(t) => {
                let new_y = self.tetromino_y + 1;
                if !check_collision(t, &self.board, new_y, self.tetromino_x) {
                    proof {
                        lemma_no_collision_bounds(
                            t.shape.deep_view(),
                            self.board.deep_view(),
                            new_y as int,
                            self.tetromino_x as int,
                        );
                    }
                    self.tetromino_y = new_y;
                    false
                } else {
                    true
                }
            },
            None => {
                return;
            },
        };
        if collided {
            self.lock_tetromino();
            self.spawn_tetromino();
        }
    }

    /// Shift the active piece one column left when free; a silent no-op on
    /// collision or without an active piece.
    pub fn move_left(&mut self)
        requires
            old(self).wf(),
        ensures
            final(self).wf(),
            move_lateral_post(*old(self), *final(self), -1),
    {
        match &self.current_tetromino {
            Some(t) => {
                let new_x = self.tetromino_x - 1;
                if !check_collision(t, &self.board, self.tetromino_y, new_x) {
                    proof {
                        lemma_no_collision_bounds(
                            t.shape.deep_view(),
                            self.board.deep_view(),
                            self.tetromino_y as int,
                            new_x as int,
                        );
                    }
                    self.tetromino_x = new_x;
                }
            },
            None => {},
        }
    }

    /// Shift the active piece one column right when free; a silent no-op
    /// on collision or without an active piece.
    pub fn move_right(&mut self)
        requires
            old(self).wf(),
        ensures
            final(self).wf(),
            move_lateral_post(*old(self), *final(self), 1),
    {
        match &self.current_tetromino {
            Some(t) => {
                let new_x = self.tetromino_x + 1;
                if !check_collision(t, &self.board, self.tetromino_y, new_x) {
                    proof {
                        lemma_no_collision_bounds(
                            t.shape.deep_view(),
                            self.board.deep_view(),
                            self.tetromino_y as int,
                            new_x as int,
                        );
                    }
                    self.tetromino_x = new_x;
                }
            },
            None => {},
        }
    }

    /// Rotate the active piece a quarter turn clockwise, with wall-kick
    /// resolution; on failure the session is unchanged.
    pub fn rotate_clockwise(&mut self)
        requires
            old(self).wf(),
        ensures
            final(self).wf(),
            rotate_post(*old(self), *final(self), true),
    {
        let result = match &self.current_tetromino {
            Some(t) => {
                let current_rotation = t.state.value();
                let target_rotation = (current_rotation + 1) % 4;
                try_wall_kick(
                    t,
                    &self.board,
                    self.tetromino_y,
                    self.tetromino_x,
                    (current_rotation, target_rotation),
                    true,
                )
            },
            None => {
                return;
            },
        };
        if let Some((new_x, new_y)) = result {
            proof {
                self.lemma_commit_rotation(*old(self), new_x, new_y, true);
            }
            match &mut self.current_tetromino {
                Some(t) => {
                    t.rotate_clockwise();
                },
                None => {},
            }
            self.tetromino_x = new_x;
            self.tetromino_y = new_y;
        }
    }

    /// Rotate the active piece a quarter turn counterclockwise, with
    /// wall-kick resolution; on failure the session is unchanged.
    pub fn rotate_counterclockwise(&mut self)
        requires
            old(self).wf(),
        ensures
            final(self).wf(),
            rotate_post(*old(self), *final(self), false),
    {
        let result = match &self.current_tetromino {
            Some(t) => {
                let current_rotation = t.state.value();
                let target_rotation = (current_rotation + 3) % 4;
                try_wall_kick(
                    t,
                    &self.board,
                    self.tetromino_y,
                    self.tetromino_x,
                    (current_rotation, target_rotation),
                    false,
                )
            },
            None => {
                return;
            },
        };
        if let Some((new_x, new_y)) = result {
            proof {
                self.lemma_commit_rotation(*old(self), new_x, new_y, false);
            }
            match &mut self.current_tetromino {
                Some(t) => {
                    t.rotate_counterclockwise();
                },
                None => {},
            }
            self.tetromino_x = new_x;
            self.tetromino_y = new_y;
        }
    }

    /// A committed kick result keeps the anchor inside the band that
    /// session well-formedness demands: the new placement does not
    /// collide, which bounds the columns and the bottom; and a piece far
    /// above the board never commits a vertical displacement, because a
    /// purely horizontal candidate with the same column offset comes
    /// earlier in every table row and collides identically up there.
    proof fn lemma_commit_rotation(self, pre: Tetris, new_x: i32, new_y: i32, clockwise: bool)
        requires
            pre.wf(),
            self == pre,
            pre.current_tetromino matches Some(t) && ({
                let from = t.state.value_spec() as int;
                let to = if clockwise {
                    (from + 1) % 4
                } else {
                    (from + 3) % 4
                };
                let rot = if clockwise {
                    rotate_cw_spec(t.shape.deep_view())
                } else {
                    rotate_ccw_spec(t.shape.deep_view())
                };
                match kick_candidates_spec(t.kind, from, to) {
                    Some(cands) => match first_fit(
                        cands,
                        rot,
                        pre.board.deep_view(),
                        pre.tetromino_y as int,
                        pre.tetromino_x as int,
                    ) {
                        Some(idx) => new_x == pre.tetromino_x + cands[idx].0 && new_y
                            == pre.tetromino_y + cands[idx].1,
                        None => false,
                    },
                    None => false,
                }
            }),
        ensures
            -3 <= new_x <= 9,
            -8 <= new_y <= 23,
            ({
                let t = pre.current_tetromino->0;
                let rot = if clockwise {
                    rotate_cw_spec(t.shape.deep_view())
                } else {
                    rotate_ccw_spec(t.shape.deep_view())
                };
                crate::piece::shape_wf(rot) && rot == iter_cw(
                    (if clockwise {
                        t.state.next_clockwise_spec()
                    } else {
                        t.state.next_counterclockwise_spec()
                    }).value_spec() as int,
                    kind_shape(t.kind),
                )
            }),
    {
        let t = pre.current_tetromino->0;
        let from = t.state.value_spec() as int;
        let to = if clockwise {
            (from + 1) % 4
        } else {
            (from + 3) % 4
        };
        let s = t.shape.deep_view();
        let rot = if clockwise {
            rotate_cw_spec(s)
        } else {
            rotate_ccw_spec(s)
        };
        let b = pre.board.deep_view();
        let y = pre.tetromino_y as int;
        let x = pre.tetromino_x as int;
        let cands = kick_candidates_spec(t.kind, from, to)->0;
        let idx = first_fit(cands, rot, b, y, x)->0;

        lemma_rotate_preserves_wf(s);
        if clockwise {
            lemma_orbit_step_cw(t.kind, from);
        } else {
            lemma_orbit_step_ccw(t.kind, from);
        }
        crate::piece::lemma_orientation_cycle(t.state);

        lemma_first_fit_props(cands, rot, b, y, x);
        lemma_kick_entries_bounded(t.kind, from, to);
        lemma_no_collision_bounds(rot, b, y + cands[idx].1, x + cands[idx].0);

        if y <= -7 && cands[idx].1 != 0 {
            lemma_kick_vertical_after_horizontal(t.kind, from, to);
            let jj = choose|j: int|
                0 <= j < idx && (#[trigger] cands[j]).0 == cands[idx].0 && cands[j].1 == 0;
            assert(collides(rot, b, y + cands[jj].1, x + cands[jj].0));
            lemma_collides_high_above(rot, b, y, y + cands[idx].1, x + cands[idx].0);
            assert(false);
        }
    }
}

/// The square piece never changes shape or anchor under rotation,
/// whatever the board looks like: its shape is a fixed point of both
/// rotations and it bypasses the kick tables with the single in-place
/// candidate, so a successful rotation commits a zero displacement and a
/// failed one leaves the session untouched.
pub proof fn lemma_square_piece_rotation(pre: Tetris, post: Tetris, clockwise: bool)
    requires
        pre.wf(),
        pre.current_tetromino matches Some(t) && t.kind == PieceKind::O,
        rotate_post(pre, post, clockwise),
    ensures
        post.tetromino_x == pre.tetromino_x,
        post.tetromino_y == pre.tetromino_y,
        post.current_tetromino matches Some(t2) && t2.shape.deep_view()
            == pre.current_tetromino->0.shape.deep_view(),
{
    let t = pre.current_tetromino->0;
    let from = t.state.value_spec() as int;
    let to = if clockwise {
        (from + 1) % 4
    } else {
        (from + 3) % 4
    };
    let s = t.shape.deep_view();
    lemma_square_orbit(from);
    lemma_square_shape_fixed();
    let rot = if clockwise {
        rotate_cw_spec(s)
    } else {
        rotate_ccw_spec(s)
    };
    assert(rot == s);
    let cands = kick_candidates_spec(t.kind, from, to)->0;
    match first_fit(cands, rot, pre.board.deep_view(), pre.tetromino_y as int, pre.tetromino_x as int) {
        None => {},
        Some(idx) => {
            lemma_first_fit_props(cands, rot, pre.board.deep_view(), pre.tetromino_y as int, pre.tetromino_x as int);
            assert(cands[idx] == (0i8, 0i8));
        },
    }
}

/// Relies on `rand::seq::SliceRandom::shuffle`: it permutes the elements
/// of the slice in place, so the new contents are a rearrangement of the
/// old ones and the length is unchanged.
#[verifier::external_body]
fn shuffle_kinds(bag: &mut Vec<PieceKind>)
    ensures
        final(bag)@.to_multiset() == old(bag)@.to_multiset(),
        final(bag)@.len() == old(bag)@.len(),
{
    bag.shuffle(&mut rand::thread_rng());
}

} // verus!
