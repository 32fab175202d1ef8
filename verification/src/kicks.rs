//! Wall-kick tables and kick resolution.
//!
//! Two immutable tables keyed by (current, target) orientation value pairs,
//! one for the I piece and one shared by J, L, T, S and Z; the square piece
//! bypasses both with the single trivial candidate.  Resolution tries the
//! five (column, row) offset candidates in table order and commits the
//! first whose rotated placement does not collide.

use vstd::prelude::*;

use crate::board::{board_wf, check_collision, collides};
use crate::piece::{
    grid_wf, rotate_ccw_spec, rotate_cw_spec, rotate_grid_ccw, rotate_grid_cw, PieceKind,
    Tetromino,
};

verus! {

/// Kick table for the I piece: (current, target) orientation values to the
/// ordered candidate list of (column offset, row offset) displacements.
pub open spec fn kick_table_i(from: int, to: int) -> Option<Seq<(i8, i8)>> {
    if from == 0 && to == 1 {
        Some(seq![(0i8, 0i8), (-2i8, 0i8), (1i8, 0i8), (-2i8, -1i8), (1i8, 2i8)])
    } else if from == 1 && to == 0 {
        Some(seq![(0i8, 0i8), (2i8, 0i8), (-1i8, 0i8), (2i8, 1i8), (-1i8, -2i8)])
    } else if from == 1 && to == 2 {
        Some(seq![(0i8, 0i8), (-1i8, 0i8), (2i8, 0i8), (-1i8, 2i8), (2i8, -1i8)])
    } else if from == 2 && to == 1 {
        Some(seq![(0i8, 0i8), (1i8, 0i8), (-2i8, 0i8), (1i8, -2i8), (-2i8, 1i8)])
    } else if from == 2 && to == 3 {
        Some(seq![(0i8, 0i8), (2i8, 0i8), (-1i8, 0i8), (2i8, 1i8), (-1i8, -2i8)])
    } else if from == 3 && to == 2 {
        Some(seq![(0i8, 0i8), (-2i8, 0i8), (1i8, 0i8), (-2i8, -1i8), (1i8, 2i8)])
    } else if from == 3 && to == 0 {
        Some(seq![(0i8, 0i8), (1i8, 0i8), (-2i8, 0i8), (1i8, -2i8), (-2i8, 1i8)])
    } else if from == 0 && to == 3 {
        Some(seq![(0i8, 0i8), (-1i8, 0i8), (2i8, 0i8), (-1i8, 2i8), (2i8, -1i8)])
    } else {
        None
    }
}

/// Kick table shared by the J, L, T, S and Z pieces.
pub open spec fn kick_table_jltsz(from: int, to: int) -> Option<Seq<(i8, i8)>> {
    if from == 0 && to == 1 {
        Some(seq![(0i8, 0i8), (-1i8, 0i8), (-1i8, 1i8), (0i8, -2i8), (-1i8, -2i8)])
    } else if from == 1 && to == 0 {
        Some(seq![(0i8, 0i8), (1i8, 0i8), (1i8, -1i8), (0i8, 2i8), (1i8, 2i8)])
    } else if from == 1 && to == 2 {
        Some(seq![(0i8, 0i8), (1i8, 0i8), (1i8, -1i8), (0i8, 2i8), (1i8, 2i8)])
    } else if from == 2 && to == 1 {
        Some(seq![(0i8, 0i8), (-1i8, 0i8), (-1i8, 1i8), (0i8, -2i8), (-1i8, -2i8)])
    } else if from == 2 && to == 3 {
        Some(seq![(0i8, 0i8), (1i8, 0i8), (1i8, 1i8), (0i8, -2i8), (1i8, -2i8)])
    } else if from == 3 && to == 2 {
        Some(seq![(0i8, 0i8), (-1i8, 0i8), (-1i8, -1i8), (0i8, 2i8), (-1i8, 2i8)])
    } else if from == 3 && to == 0 {
        Some(seq![(0i8, 0i8), (-1i8, 0i8), (-1i8, -1i8), (0i8, 2i8), (-1i8, 2i8)])
    } else if from == 0 && to == 3 {
        Some(seq![(0i8, 0i8), (1i8, 0i8), (1i8, 1i8), (0i8, -2i8), (1i8, -2i8)])
    } else {
        None
    }
}

/// The candidate list a piece of the given kind uses for a transition: the
/// square piece always rotates in place, the I piece uses its own table,
/// and every other kind the shared table.  `None` when the transition pair
/// is not a table key.
pub open spec fn kick_candidates_spec(kind: PieceKind, from: int, to: int) -> Option<
    Seq<(i8, i8)>,
> {
    if kind == PieceKind::O {
        Some(seq![(0i8, 0i8)])
    } else if kind == PieceKind::I {
        kick_table_i(from, to)
    } else {
        kick_table_jltsz(from, to)
    }
}

fn cand_list1(a: (i8, i8)) -> (r: Vec<(i8, i8)>)
    ensures
        r@ == seq![a],
{
    let mut v: Vec<(i8, i8)> = Vec::new();
    v.push(a);
    proof {
        assert(v@ =~= seq![a]);
    }
    v
}

fn cand_list5(a: (i8, i8), b: (i8, i8), c: (i8, i8), d: (i8, i8), e: (i8, i8)) -> (r: Vec<
    (i8, i8),
>)
    ensures
        r@ == seq![a, b, c, d, e],
{
    let mut v: Vec<(i8, i8)> = Vec::new();
    v.push(a);
    v.push(b);
    v.push(c);
    v.push(d);
    v.push(e);
    proof {
        assert(v@ =~= seq![a, b, c, d, e]);
    }
    v
}

/// Candidate-list lookup as executable code, exactly `kick_candidates_spec`.
pub fn kick_candidates(kind: PieceKind, from: u8, to: u8) -> (r: Option<Vec<(i8, i8)>>)
    ensures
        (match r {
            Some(v) => kick_candidates_spec(kind, from as int, to as int) == Some(v@),
            None => kick_candidates_spec(kind, from as int, to as int) is None,
        }),
{
    if kind == PieceKind::O {
        return Some(cand_list1((0, 0)));
    }
    if kind == PieceKind::I {
        if from == 0 && to == 1 {
            return Some(cand_list5((0, 0), (-2, 0), (1, 0), (-2, -1), (1, 2)));
        }
        if from == 1 && to == 0 {
            return Some(cand_list5((0, 0), (2, 0), (-1, 0), (2, 1), (-1, -2)));
        }
        if from == 1 && to == 2 {
            return Some(cand_list5((0, 0), (-1, 0), (2, 0), (-1, 2), (2, -1)));
        }
        if from == 2 && to == 1 {
            return Some(cand_list5((0, 0), (1, 0), (-2, 0), (1, -2), (-2, 1)));
        }
        if from == 2 && to == 3 {
            return Some(cand_list5((0, 0), (2, 0), (-1, 0), (2, 1), (-1, -2)));
        }
        if from == 3 && to == 2 {
            return Some(cand_list5((0, 0), (-2, 0), (1, 0), (-2, -1), (1, 2)));
        }
        if from == 3 && to == 0 {
            return Some(cand_list5((0, 0), (1, 0), (-2, 0), (1, -2), (-2, 1)));
        }
        if from == 0 && to == 3 {
            return Some(cand_list5((0, 0), (-1, 0), (2, 0), (-1, 2), (2, -1)));
        }
        return None;
    }
    if from == 0 && to == 1 {
        return Some(cand_list5((0, 0), (-1, 0), (-1, 1), (0, -2), (-1, -2)));
    }
    if from == 1 && to == 0 {
        return Some(cand_list5((0, 0), (1, 0), (1, -1), (0, 2), (1, 2)));
    }
    if from == 1 && to == 2 {
        return Some(cand_list5((0, 0), (1, 0), (1, -1), (0, 2), (1, 2)));
    }
    if from == 2 && to == 1 {
        return Some(cand_list5((0, 0), (-1, 0), (-1, 1), (0, -2), (-1, -2)));
    }
    if from == 2 && to == 3 {
        return Some(cand_list5((0, 0), (1, 0), (1, 1), (0, -2), (1, -2)));
    }
    if from == 3 && to == 2 {
        return Some(cand_list5((0, 0), (-1, 0), (-1, -1), (0, 2), (-1, 2)));
    }
    if from == 3 && to == 0 {
        return Some(cand_list5((0, 0), (-1, 0), (-1, -1), (0, 2), (-1, 2)));
    }
    if from == 0 && to == 3 {
        return Some(cand_list5((0, 0), (1, 0), (1, 1), (0, -2), (1, -2)));
    }
    None
}

/// The index of the first candidate whose displaced placement of shape `s`
/// does not collide with board `b`, or `None` when every candidate
/// collides.  This is the whole of kick resolution: candidates encode
/// priority, so the first fit wins.
pub open spec fn first_fit(
    cands: Seq<(i8, i8)>,
    s: Seq<Seq<u8>>,
    b: Seq<Seq<u8>>,
    y: int,
    x: int,
) -> Option<int>
    decreases cands.len(),
{
    if cands.len() == 0 {
        None
    } else if !collides(s, b, y + cands[0].1, x + cands[0].0) {
        Some(0int)
    } else {
        match first_fit(cands.subrange(1, cands.len() as int), s, b, y, x) {
            Some(i) => Some(i + 1),
            None => None,
        }
    }
}

/// What the first fit means: the chosen candidate does not collide, every
/// candidate before it in table order collides, and when the result is
/// `None` every candidate collides.
pub proof fn lemma_first_fit_props(
    cands: Seq<(i8, i8)>,
    s: Seq<Seq<u8>>,
    b: Seq<Seq<u8>>,
    y: int,
    x: int,
)
    ensures
        match first_fit(cands, s, b, y, x) {
            Some(i) => 0 <= i < cands.len() && !collides(s, b, y + cands[i].1, x + cands[i].0)
                && forall|j: int|
                0 <= j < i ==> collides(s, b, y + (#[trigger] cands[j]).1, x + cands[j].0),
            None => forall|j: int|
                0 <= j < cands.len() ==> collides(
                    s,
                    b,
                    y + (#[trigger] cands[j]).1,
                    x + cands[j].0,
                ),
        },
    decreases cands.len(),
{
    if cands.len() == 0 {
    } else if !collides(s, b, y + cands[0].1, x + cands[0].0) {
    } else {
        let sub = cands.subrange(1, cands.len() as int);
        lemma_first_fit_props(sub, s, b, y, x);
        match first_fit(sub, s, b, y, x) {
            Some(isub) => {
                assert forall|j: int| 0 <= j < isub + 1 implies collides(
                    s,
                    b,
                    y + (#[trigger] cands[j]).1,
                    x + cands[j].0,
                ) by {
                    if j > 0 {
                        assert(sub[j - 1] == cands[j]);
                        assert(collides(s, b, y + sub[j - 1].1, x + sub[j - 1].0));
                    }
                }
            },
            None => {
                assert forall|j: int| 0 <= j < cands.len() implies collides(
                    s,
                    b,
                    y + (#[trigger] cands[j]).1,
                    x + cands[j].0,
                ) by {
                    if j > 0 {
                        assert(sub[j - 1] == cands[j]);
                        assert(collides(s, b, y + sub[j - 1].1, x + sub[j - 1].0));
                    }
                }
            },
        }
    }
}

/// If every candidate before `k` collides and `k` does not, the first fit
/// is exactly `k`.
pub proof fn lemma_first_fit_found(
    cands: Seq<(i8, i8)>,
    s: Seq<Seq<u8>>,
    b: Seq<Seq<u8>>,
    y: int,
    x: int,
    k: int,
)
    requires
        0 <= k < cands.len(),
        !collides(s, b, y + cands[k].1, x + cands[k].0),
        forall|j: int| 0 <= j < k ==> collides(s, b, y + (#[trigger] cands[j]).1, x + cands[j].0),
    ensures
        first_fit(cands, s, b, y, x) == Some(k),
    decreases k,
{
    if k == 0 {
    } else {
        let sub = cands.subrange(1, cands.len() as int);
        assert(forall|j: int| 0 <= j < sub.len() ==> #[trigger] sub[j] == cands[j + 1]);
        lemma_first_fit_found(sub, s, b, y, x, k - 1);
    }
}

/// If every candidate collides, there is no fit.
pub proof fn lemma_first_fit_none(
    cands: Seq<(i8, i8)>,
    s: Seq<Seq<u8>>,
    b: Seq<Seq<u8>>,
    y: int,
    x: int,
)
    requires
        forall|j: int|
            0 <= j < cands.len() ==> collides(s, b, y + (#[trigger] cands[j]).1, x + cands[j].0),
    ensures
        first_fit(cands, s, b, y, x) is None,
    decreases cands.len(),
{
    if cands.len() == 0 {
    } else {
        let sub = cands.subrange(1, cands.len() as int);
        assert(forall|j: int| 0 <= j < sub.len() ==> #[trigger] sub[j] == cands[j + 1]);
        lemma_first_fit_none(sub, s, b, y, x);
    }
}

/// Every table candidate displaces by at most two columns and two rows.
pub proof fn lemma_kick_entries_bounded(kind: PieceKind, from: int, to: int)
    ensures
        match kick_candidates_spec(kind, from, to) {
            Some(cands) => 1 <= cands.len() <= 5 && forall|k: int|
                0 <= k < cands.len() ==> -2 <= (#[trigger] cands[k]).0 <= 2 && -2 <= cands[k].1
                    <= 2,
            None => true,
        },
{
}

/// Shape of every I-table row: the first three candidates are purely
/// horizontal and the two vertical ones repeat the columns of candidates 1
/// and 2.
proof fn lemma_row_shape_i(c: Seq<(i8, i8)>)
    requires
        c.len() == 5,
        c[0].1 == 0,
        c[1].1 == 0,
        c[2].1 == 0,
        c[3].0 == c[1].0,
        c[4].0 == c[2].0,
    ensures
        forall|k: int|
            0 <= k < c.len() && (#[trigger] c[k]).1 != 0 ==> exists|j: int|
                0 <= j < k && (#[trigger] c[j]).0 == c[k].0 && c[j].1 == 0,
{
    assert forall|k: int| 0 <= k < c.len() && (#[trigger] c[k]).1 != 0 implies exists|j: int|
        0 <= j < k && (#[trigger] c[j]).0 == c[k].0 && c[j].1 == 0 by {
        if k == 3 {
            assert(0 <= 1 < k && c[1].0 == c[k].0 && c[1].1 == 0);
        }
        if k == 4 {
            assert(0 <= 2 < k && c[2].0 == c[k].0 && c[2].1 == 0);
        }
    }
}

/// Shape of every shared-table row: candidates 0 and 1 are purely
/// horizontal, candidates 2 and 4 repeat the column of candidate 1, and
/// candidate 3 repeats the column of candidate 0.
proof fn lemma_row_shape_jltsz(c: Seq<(i8, i8)>)
    requires
        c.len() == 5,
        c[0].1 == 0,
        c[1].1 == 0,
        c[2].0 == c[1].0,
        c[3].0 == c[0].0,
        c[4].0 == c[1].0,
    ensures
        forall|k: int|
            0 <= k < c.len() && (#[trigger] c[k]).1 != 0 ==> exists|j: int|
                0 <= j < k && (#[trigger] c[j]).0 == c[k].0 && c[j].1 == 0,
{
    assert forall|k: int| 0 <= k < c.len() && (#[trigger] c[k]).1 != 0 implies exists|j: int|
        0 <= j < k && (#[trigger] c[j]).0 == c[k].0 && c[j].1 == 0 by {
        if k == 2 {
            assert(0 <= 1 < k && c[1].0 == c[k].0 && c[1].1 == 0);
        }
        if k == 3 {
            assert(0 <= 0 < k && c[0].0 == c[k].0 && c[0].1 == 0);
        }
        if k == 4 {
            assert(0 <= 1 < k && c[1].0 == c[k].0 && c[1].1 == 0);
        }
    }
}

/// In every candidate list, a candidate with a vertical component is
/// preceded by a purely horizontal candidate with the same column offset.
/// Hence far above the stack, where only columns can collide, kick
/// resolution never commits a vertical displacement.
pub proof fn lemma_kick_vertical_after_horizontal(kind: PieceKind, from: int, to: int)
    ensures
        match kick_candidates_spec(kind, from, to) {
            Some(cands) => forall|k: int|
                0 <= k < cands.len() && (#[trigger] cands[k]).1 != 0 ==> exists|j: int|
                    0 <= j < k && (#[trigger] cands[j]).0 == cands[k].0 && cands[j].1 == 0,
            None => true,
        },
{
    match kick_candidates_spec(kind, from, to) {
        Some(cands) => {
            if kind == PieceKind::O {
                assert(cands[0].1 == 0);
            } else if kind == PieceKind::I {
                lemma_row_shape_i(cands);
            } else {
                lemma_row_shape_jltsz(cands);
            }
        },
        None => {},
    }
}

/// Kick resolution: look up the candidate list for the transition (the
/// square piece always uses the single in-place candidate), and return the
/// first candidate displacement under which the rotated piece does not
/// collide, as the prospective (column, row) anchor; `None` when the
/// transition has no table entry or every candidate collides, in which
/// case the rotation is rejected.
pub fn try_wall_kick(
    tetromino: &Tetromino,
    board: &Vec<Vec<u8>>,
    y_to_check: i32,
    x_to_check: i32,
    transition: (u8, u8),
    clockwise: bool,
) -> (r: Option<(i32, i32)>)
    requires
        grid_wf(tetromino.shape.deep_view()),
        board_wf(board.deep_view()),
        i32::MIN + 132 <= y_to_check <= i32::MAX - 132,
        i32::MIN + 132 <= x_to_check <= i32::MAX - 132,
    ensures
        ({
            let rot = if clockwise {
                rotate_cw_spec(tetromino.shape.deep_view())
            } else {
                rotate_ccw_spec(tetromino.shape.deep_view())
            };
            match kick_candidates_spec(tetromino.kind, transition.0 as int, transition.1 as int) {
                Some(cands) => match first_fit(
                    cands,
                    rot,
                    board.deep_view(),
                    y_to_check as int,
                    x_to_check as int,
                ) {
                    Some(idx) => r matches Some(p) && p.0 == x_to_check + cands[idx].0 && p.1
                        == y_to_check + cands[idx].1,
                    None => r is None,
                },
                None => r is None,
            }
        }),
{
    let ghost b = board.deep_view();
    let ghost y = y_to_check as int;
    let ghost x = x_to_check as int;
    let cands = match kick_candidates(tetromino.kind, transition.0, transition.1) {
        Some(c) => c,
        None => {
            return None;
        },
    };
    let rotated = if clockwise {
        rotate_grid_cw(&tetromino.shape)
    } else {
        rotate_grid_ccw(&tetromino.shape)
    };
    let ghost rot = rotated.deep_view();
    proof {
        assert(grid_wf(rot));
    }
    let probe = Tetromino {
        kind: tetromino.kind,
        shape: rotated,
        state: if clockwise {
            tetromino.state.next_clockwise()
        } else {
            tetromino.state.next_counterclockwise()
        },
    };
    let mut k: usize = 0;
    while k < cands.len()
        invariant
            0 <= k <= cands@.len(),
            probe.shape.deep_view() == rot,
            kick_candidates_spec(tetromino.kind, transition.0 as int, transition.1 as int)
                == Some(cands@),
            rot == (if clockwise {
                rotate_cw_spec(tetromino.shape.deep_view())
            } else {
                rotate_ccw_spec(tetromino.shape.deep_view())
            }),
            grid_wf(rot),
            board_wf(b),
            b == board.deep_view(),
            y == y_to_check as int,
            x == x_to_check as int,
            i32::MIN + 132 <= y_to_check <= i32::MAX - 132,
            i32::MIN + 132 <= x_to_check <= i32::MAX - 132,
            forall|j: int|
                0 <= j < k ==> collides(rot, b, y + (#[trigger] cands@[j]).1, x + cands@[j].0),
        decreases cands@.len() - k,
    {
        let cand = cands[k];
        let new_y = y_to_check + cand.1 as i32;
        let new_x = x_to_check + cand.0 as i32;
        if !check_collision(&probe, board, new_y, new_x) {
            proof {
                lemma_first_fit_found(cands@, rot, b, y, x, k as int);
            }
            return Some((new_x, new_y));
        }
        k += 1;
    }
    proof {
        lemma_first_fit_none(cands@, rot, b, y, x);
    }
    None
}

} // verus!
