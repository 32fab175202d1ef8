//! The board: a fixed 24 x 10 occupancy grid of cells (0 = empty), with
//! collision testing, piece locking into the visible region, and full-line
//! scanning and compaction.
//!
//! Rows 0..4 are a hidden spawn buffer above the visible play field; rows
//! 4..24 are visible.

use vstd::prelude::*;

use crate::piece::{grid_wf, shape_wf, Tetromino};

verus! {

pub const ROW_COUNT: usize = 24;

pub const COLUMN_COUNT: usize = 10;

/// A well-formed board: 24 rows of 10 cells each.
pub open spec fn board_wf(b: Seq<Seq<u8>>) -> bool {
    &&& b.len() == ROW_COUNT
    &&& forall|r: int| 0 <= r < b.len() ==> (#[trigger] b[r]).len() == COLUMN_COUNT
}

/// A single target cell collides when its column is out of `[0, 10)`, its
/// row is below the bottom row, or the board cell there is already
/// occupied.  A negative row lies in the open space above the board and
/// never collides by position alone.
pub open spec fn cell_collision(b: Seq<Seq<u8>>, r: int, c: int) -> bool {
    ||| c < 0
    ||| c >= COLUMN_COUNT
    ||| r >= ROW_COUNT
    ||| (0 <= r && b[r][c] != 0)
}

/// A shape anchored at (row `y`, column `x`) collides with the board when
/// at least one of its occupied cells maps to a colliding board cell.
pub open spec fn collides(s: Seq<Seq<u8>>, b: Seq<Seq<u8>>, y: int, x: int) -> bool {
    exists|i: int, j: int|
        0 <= i < s.len() && 0 <= j < s.len() && #[trigger] s[i][j] != 0 && cell_collision(
            b,
            y + i,
            x + j,
        )
}

/// Collision test of a piece against the board at the given anchor, exactly
/// the predicate `collides`.
pub fn check_collision(
    tetromino: &Tetromino,
    board: &Vec<Vec<u8>>,
    y_to_check: i32,
    x_to_check: i32,
) -> (r: bool)
    requires
        grid_wf(tetromino.shape.deep_view()),
        board_wf(board.deep_view()),
        y_to_check <= i32::MAX - 4,
        x_to_check <= i32::MAX - 4,
    ensures
        r == collides(
            tetromino.shape.deep_view(),
            board.deep_view(),
            y_to_check as int,
            x_to_check as int,
        ),
{
    let ghost s = tetromino.shape.deep_view();
    let ghost b = board.deep_view();
    let ghost y = y_to_check as int;
    let ghost x = x_to_check as int;
    let n = tetromino.shape.len();
    let mut i: usize = 0;
    while i < n
        invariant
            0 <= i <= n,
            n == s.len(),
            s == tetromino.shape.deep_view(),
            b == board.deep_view(),
            y == y_to_check as int,
            x == x_to_check as int,
            grid_wf(s),
            board_wf(b),
            y_to_check <= i32::MAX - 4,
            x_to_check <= i32::MAX - 4,
            forall|a: int, c: int|
                0 <= a < i && 0 <= c < n ==> !(#[trigger] s[a][c] != 0 && cell_collision(
                    b,
                    y + a,
                    x + c,
                )),
        decreases n - i,
    {
        let row = &tetromino.shape[i];
        proof {
            assert(row@ =~= s[i as int]);
        }
        let mut j: usize = 0;
        while j < n
            invariant
                0 <= i < n,
                0 <= j <= n,
                n == s.len(),
                s == tetromino.shape.deep_view(),
                b == board.deep_view(),
                y == y_to_check as int,
                x == x_to_check as int,
                grid_wf(s),
                board_wf(b),
                y_to_check <= i32::MAX - 4,
                x_to_check <= i32::MAX - 4,
                row@ == s[i as int],
                forall|a: int, c: int|
                    0 <= a < i && 0 <= c < n ==> !(#[trigger] s[a][c] != 0 && cell_collision(
                        b,
                        y + a,
                        x + c,
                    )),
                forall|c: int|
                    0 <= c < j ==> !(#[trigger] s[i as int][c] != 0 && cell_collision(
                        b,
                        y + i,
                        x + c,
                    )),
            decreases n - j,
        {
            if row[j] != 0 {
                let board_y: i32 = y_to_check + (i as i32);
                let board_x: i32 = x_to_check + (j as i32);
                if board_x < 0 {
                    proof {
                        assert(s[i as int][j as int] != 0 && cell_collision(b, y + i, x + j));
                    }
                    return true;
                }
                if board_x > (COLUMN_COUNT as i32) - 1 {
                    proof {
                        assert(s[i as int][j as int] != 0 && cell_collision(b, y + i, x + j));
                    }
                    return true;
                }
                if board_y > (ROW_COUNT as i32) - 1 {
                    proof {
                        assert(s[i as int][j as int] != 0 && cell_collision(b, y + i, x + j));
                    }
                    return true;
                }
                if board_y >= 0 {
                    let brow = &board[board_y as usize];
                    proof {
                        assert(brow@ =~= b[board_y as int]);
                    }
                    if brow[board_x as usize] != 0 {
                        proof {
                            assert(s[i as int][j as int] != 0 && cell_collision(b, y + i, x + j));
                        }
                        return true;
                    }
                }
            }
            j += 1;
        }
        i += 1;
    }
    proof {
        assert(!collides(s, b, y, x));
    }
    false
}

/// A placement that does not collide keeps every occupied cell inside the
/// columns and above the bottom row, which bounds the anchor itself.
pub proof fn lemma_no_collision_bounds(s: Seq<Seq<u8>>, b: Seq<Seq<u8>>, y: int, x: int)
    requires
        shape_wf(s),
        !collides(s, b, y, x),
    ensures
        -3 <= x <= 9,
        y <= 23,
{
    let (i, j): (int, int) = choose|i: int, j: int|
        0 <= i < s.len() && 0 <= j < s.len() && #[trigger] s[i][j] != 0;
    assert(!(s[i][j] != 0 && cell_collision(b, y + i, x + j)));
    assert(!cell_collision(b, y + i, x + j));
}

/// Far enough above the board every shape cell has a negative row, so
/// whether a placement collides does not depend on the anchor row at all:
/// only the columns can collide.
pub proof fn lemma_collides_high_above(
    s: Seq<Seq<u8>>,
    b: Seq<Seq<u8>>,
    y1: int,
    y2: int,
    x: int,
)
    requires
        y1 + s.len() <= 0,
        y2 + s.len() <= 0,
    ensures
        collides(s, b, y1, x) == collides(s, b, y2, x),
{
    if collides(s, b, y1, x) {
        let (i, j): (int, int) = choose|i: int, j: int|
            0 <= i < s.len() && 0 <= j < s.len() && #[trigger] s[i][j] != 0 && cell_collision(
                b,
                y1 + i,
                x + j,
            );
        assert(cell_collision(b, y2 + i, x + j));
        assert(collides(s, b, y2, x));
    }
    if collides(s, b, y2, x) {
        let (i, j): (int, int) = choose|i: int, j: int|
            0 <= i < s.len() && 0 <= j < s.len() && #[trigger] s[i][j] != 0 && cell_collision(
                b,
                y2 + i,
                x + j,
            );
        assert(cell_collision(b, y1 + i, x + j));
        assert(collides(s, b, y1, x));
    }
}

/// The board after locking shape `s` anchored at (`y`, `x`): every occupied
/// shape cell whose target row lies in the visible region `[4, 24)` and
/// whose column is in bounds is written; cells landing in the hidden buffer
/// or out of bounds are silently discarded.
pub open spec fn lock_cell(
    b: Seq<Seq<u8>>,
    s: Seq<Seq<u8>>,
    y: int,
    x: int,
    r: int,
    c: int,
) -> u8 {
    if 4 <= r && 0 <= r - y < s.len() && 0 <= c - x < s.len() && s[r - y][c - x] != 0 {
        s[r - y][c - x]
    } else {
        b[r][c]
    }
}

pub open spec fn lock_grid(b: Seq<Seq<u8>>, s: Seq<Seq<u8>>, y: int, x: int) -> Seq<Seq<u8>> {
    Seq::new(b.len(), |r: int| Seq::new(b[r].len(), |c: int| lock_cell(b, s, y, x, r, c)))
}

/// Write the piece's occupied cells into the board at anchor (`y`, `x`).
pub fn lock_piece(board: &mut Vec<Vec<u8>>, tetromino: &Tetromino, y: i32, x: i32)
    requires
        board_wf(old(board).deep_view()),
        grid_wf(tetromino.shape.deep_view()),
        i32::MIN + 32 <= y,
        i32::MIN + 32 <= x,
    ensures
        final(board).deep_view() == lock_grid(
            old(board).deep_view(),
            tetromino.shape.deep_view(),
            y as int,
            x as int,
        ),
        board_wf(final(board).deep_view()),
{
    let ghost b0 = old(board).deep_view();
    let ghost s = tetromino.shape.deep_view();
    let ghost yy = y as int;
    let ghost xx = x as int;
    let n = tetromino.shape.len();
    let mut nb: Vec<Vec<u8>> = Vec::new();
    let mut r: usize = 0;
    while r < ROW_COUNT
        invariant
            0 <= r <= ROW_COUNT,
            n == s.len(),
            s == tetromino.shape.deep_view(),
            grid_wf(s),
            board_wf(b0),
            b0 == board.deep_view(),
            i32::MIN + 32 <= y,
            i32::MIN + 32 <= x,
            yy == y as int,
            xx == x as int,
            nb@.len() == r,
            forall|a: int| 0 <= a < r ==> (#[trigger] nb@[a])@ == lock_grid(b0, s, yy, xx)[a],
        decreases ROW_COUNT - r,
    {
        let brow = &board[r];
        proof {
            assert(brow@ =~= b0[r as int]);
        }
        let mut row: Vec<u8> = Vec::new();
        let mut c: usize = 0;
        while c < COLUMN_COUNT
            invariant
                0 <= c <= COLUMN_COUNT,
                0 <= r < ROW_COUNT,
                n == s.len(),
                s == tetromino.shape.deep_view(),
                grid_wf(s),
                board_wf(b0),
                i32::MIN + 32 <= y,
                i32::MIN + 32 <= x,
                yy == y as int,
                xx == x as int,
                brow@ == b0[r as int],
                row@.len() == c,
                forall|d: int| 0 <= d < c ==> row@[d] == lock_cell(b0, s, yy, xx, r as int, d),
            decreases COLUMN_COUNT - c,
        {
            let mut v: u8 = brow[c];
            if r >= 4 {
                let di: i32 = (r as i32) - y;
                let dj: i32 = (c as i32) - x;
                if 0 <= di && di < n as i32 && 0 <= dj && dj < n as i32 {
                    let srow = &tetromino.shape[di as usize];
                    proof {
                        assert(srow@ =~= s[di as int]);
                    }
                    let sv = srow[dj as usize];
                    if sv != 0 {
                        v = sv;
                    }
                }
            }
            proof {
                assert(v == lock_cell(b0, s, yy, xx, r as int, c as int));
            }
            row.push(v);
            c += 1;
        }
        proof {
            assert(row@ =~= lock_grid(b0, s, yy, xx)[r as int]);
        }
        nb.push(row);
        r += 1;
    }
    *board = nb;
    proof {
        assert forall|a: int| 0 <= a < ROW_COUNT implies board.deep_view()[a] == lock_grid(
            b0,
            s,
            yy,
            xx,
        )[a] by {
            assert(board@[a].deep_view() =~= board@[a]@);
        }
        assert(board.deep_view() =~~= lock_grid(b0, s, yy, xx));
    }
}

/// Locking a piece whose occupied cells all land above the visible region
/// (rows `0..4`) writes nothing at all: the board is unchanged.
pub proof fn lemma_lock_above_visible(b: Seq<Seq<u8>>, s: Seq<Seq<u8>>, y: int, x: int)
    requires
        board_wf(b),
        grid_wf(s),
        forall|i: int, j: int|
            0 <= i < s.len() && 0 <= j < s.len() && #[trigger] s[i][j] != 0 ==> y + i < 4,
    ensures
        lock_grid(b, s, y, x) == b,
{
    assert forall|r: int| 0 <= r < b.len() implies #[trigger] lock_grid(b, s, y, x)[r] =~= b[r] by {
        assert forall|c: int| 0 <= c < b[r].len() implies lock_cell(b, s, y, x, r, c) == b[r][c] by {
            if 4 <= r && 0 <= r - y < s.len() && 0 <= c - x < s.len() && s[r - y][c - x] != 0 {
                assert(y + (r - y) < 4);
            }
        }
    }
    assert(lock_grid(b, s, y, x) =~~= b);
}

/// A full row: every cell occupied.
pub open spec fn row_full(row: Seq<u8>) -> bool {
    forall|c: int| 0 <= c < row.len() ==> row[c] != 0
}

pub fn row_is_full(row: &Vec<u8>) -> (r: bool)
    ensures
        r == row_full(row@),
{
    let mut c: usize = 0;
    while c < row.len()
        invariant
            0 <= c <= row@.len(),
            forall|d: int| 0 <= d < c ==> row@[d] != 0,
        decreases row@.len() - c,
    {
        if row[c] == 0 {
            return false;
        }
        c += 1;
    }
    true
}

/// The board after deleting row `y`: rows `1..=y` each take the contents of
/// the row above them; row 0 keeps its contents (it is always empty in
/// play, so this inserts a fresh empty row at the top).
pub open spec fn shift_rows_down(b: Seq<Seq<u8>>, y: int) -> Seq<Seq<u8>> {
    Seq::new(b.len(), |k: int| if 1 <= k <= y { b[k - 1] } else { b[k] })
}

/// One top-to-bottom scan over rows `y..24`, deleting each row found full
/// at the moment it is visited and counting the deletions.  A row shifted
/// into an already-visited index is not re-checked.
pub open spec fn clear_rows_from(b: Seq<Seq<u8>>, y: int) -> (Seq<Seq<u8>>, int)
    decreases ROW_COUNT - y,
{
    if y < 4 || y >= ROW_COUNT {
        (b, 0int)
    } else {
        let stepped = if row_full(b[y]) {
            shift_rows_down(b, y)
        } else {
            b
        };
        let rest = clear_rows_from(stepped, y + 1);
        (
            rest.0,
            rest.1 + if row_full(b[y]) {
                1int
            } else {
                0int
            },
        )
    }
}

/// Scan the rows from the top of the hidden buffer boundary downward,
/// deleting every row that is full when visited, and return how many rows
/// were deleted.
pub fn clear_full_rows(board: &mut Vec<Vec<u8>>) -> (cleared: u32)
    requires
        board_wf(old(board).deep_view()),
    ensures
        board_wf(final(board).deep_view()),
        final(board).deep_view() == clear_rows_from(old(board).deep_view(), 4).0,
        cleared == clear_rows_from(old(board).deep_view(), 4).1,
        cleared <= 20,
{
    let ghost b0 = old(board).deep_view();
    let mut cleared: u32 = 0;
    let mut y: usize = 4;
    while y < ROW_COUNT
        invariant
            4 <= y <= ROW_COUNT,
            board_wf(board.deep_view()),
            cleared <= y - 4,
            clear_rows_from(b0, 4).0 == clear_rows_from(board.deep_view(), y as int).0,
            clear_rows_from(b0, 4).1 == cleared + clear_rows_from(board.deep_view(), y as int).1,
        decreases ROW_COUNT - y,
    {
        let ghost prev = board.deep_view();
        let full = row_is_full(&board[y]);
        proof {
            assert(board@[y as int]@ =~= prev[y as int]);
        }
        if full {
            cleared = cleared + 1;
            shift_down(board, y);
        }
        proof {
            assert(clear_rows_from(prev, y as int).0 == clear_rows_from(
                board.deep_view(),
                y as int + 1,
            ).0);
        }
        y += 1;
    }
    proof {
        assert(clear_rows_from(board.deep_view(), ROW_COUNT as int).0 == board.deep_view());
    }
    cleared
}

/// Delete row `y` by shifting every row above it down one place.
fn shift_down(board: &mut Vec<Vec<u8>>, y: usize)
    requires
        board_wf(old(board).deep_view()),
        4 <= y < ROW_COUNT,
    ensures
        final(board).deep_view() == shift_rows_down(old(board).deep_view(), y as int),
        board_wf(final(board).deep_view()),
{
    let ghost b0 = old(board).deep_view();
    let mut nb: Vec<Vec<u8>> = Vec::new();
    let mut k: usize = 0;
    while k < ROW_COUNT
        invariant
            0 <= k <= ROW_COUNT,
            4 <= y < ROW_COUNT,
            board_wf(b0),
            b0 == board.deep_view(),
            nb@.len() == k,
            forall|a: int| 0 <= a < k ==> (#[trigger] nb@[a])@ == shift_rows_down(b0, y as int)[a],
        decreases ROW_COUNT - k,
    {
        let src = if 1 <= k && k <= y {
            copy_row(&board[k - 1])
        } else {
            copy_row(&board[k])
        };
        proof {
            if 1 <= k && k <= y {
                assert(board@[k - 1]@ =~= b0[k as int - 1]);
            } else {
                assert(board@[k as int]@ =~= b0[k as int]);
            }
            assert(src@ =~= shift_rows_down(b0, y as int)[k as int]);
        }
        nb.push(src);
        k += 1;
    }
    *board = nb;
    proof {
        assert forall|a: int| 0 <= a < ROW_COUNT implies board.deep_view()[a] == shift_rows_down(
            b0,
            y as int,
        )[a] by {
            assert(board@[a].deep_view() =~= board@[a]@);
        }
        assert(board.deep_view() =~~= shift_rows_down(b0, y as int));
    }
}

/// An element-for-element copy of one board row.
pub fn copy_row(row: &Vec<u8>) -> (r: Vec<u8>)
    ensures
        r@ == row@,
{
    let mut r: Vec<u8> = Vec::new();
    let mut i: usize = 0;
    while i < row.len()
        invariant
            0 <= i <= row@.len(),
            r@.len() == i,
            forall|j: int| 0 <= j < i ==> r@[j] == row@[j],
        decreases row@.len() - i,
    {
        r.push(row[i]);
        i += 1;
    }
    proof {
        assert(r@ =~= row@);
    }
    r
}

/// A fresh, entirely empty board.
pub open spec fn empty_board_spec() -> Seq<Seq<u8>> {
    Seq::new(ROW_COUNT as nat, |r: int| Seq::new(COLUMN_COUNT as nat, |c: int| 0u8))
}

pub fn empty_board() -> (b: Vec<Vec<u8>>)
    ensures
        b.deep_view() == empty_board_spec(),
        board_wf(b.deep_view()),
{
    let mut b: Vec<Vec<u8>> = Vec::new();
    let mut r: usize = 0;
    while r < ROW_COUNT
        invariant
            0 <= r <= ROW_COUNT,
            b@.len() == r,
            forall|a: int| 0 <= a < r ==> (#[trigger] b@[a])@ =~= Seq::new(
                COLUMN_COUNT as nat,
                |c: int| 0u8,
            ),
        decreases ROW_COUNT - r,
    {
        let mut row: Vec<u8> = Vec::new();
        let mut c: usize = 0;
        while c < COLUMN_COUNT
            invariant
                0 <= c <= COLUMN_COUNT,
                row@.len() == c,
                forall|d: int| 0 <= d < c ==> row@[d] == 0u8,
            decreases COLUMN_COUNT - c,
        {
            row.push(0);
            c += 1;
        }
        proof {
            assert(row@ =~= Seq::new(COLUMN_COUNT as nat, |c: int| 0u8));
        }
        b.push(row);
        r += 1;
    }
    proof {
        assert forall|a: int| 0 <= a < ROW_COUNT implies b.deep_view()[a] =~= empty_board_spec()[a] by {
            assert(b@[a].deep_view() =~= b@[a]@);
        }
        assert(b.deep_view() =~~= empty_board_spec());
    }
    b
}

} // verus!
