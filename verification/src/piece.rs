//! Piece geometry: the seven tetromino kinds, their canonical occupancy
//! grids, the four-state orientation machine, and rotation as a pure
//! transform on square grids.

use vstd::prelude::*;

verus! {

/// The seven tetromino kinds.
#[derive(Clone, Copy, PartialEq, Eq, Structural, Debug)]
pub enum PieceKind {
    I,
    J,
    L,
    O,
    S,
    T,
    Z,
}

/// One of the four discrete rotation states of an active piece, cyclic
/// under clockwise (+1 mod 4) and counterclockwise (+3 mod 4) transitions.
#[derive(Clone, Copy, PartialEq, Eq, Structural, Debug)]
pub enum OrientationState {
    Spawn,
    RotateClockwise,
    RotateCounterClockwise,
    Rotate180,
}

impl OrientationState {
    /// Numeric encoding used as the key half of wall-kick transition pairs.
    pub open spec fn value_spec(self) -> u8 {
        match self {
            OrientationState::Spawn => 0,
            OrientationState::RotateClockwise => 1,
            OrientationState::Rotate180 => 2,
            OrientationState::RotateCounterClockwise => 3,
        }
    }

    pub fn value(&self) -> (v: u8)
        ensures
            v == self.value_spec(),
    {
        match self {
            OrientationState::Spawn => 0,
            OrientationState::RotateClockwise => 1,
            OrientationState::Rotate180 => 2,
            OrientationState::RotateCounterClockwise => 3,
        }
    }

    pub open spec fn next_clockwise_spec(self) -> OrientationState {
        match self {
            OrientationState::Spawn => OrientationState::RotateClockwise,
            OrientationState::RotateClockwise => OrientationState::Rotate180,
            OrientationState::Rotate180 => OrientationState::RotateCounterClockwise,
            OrientationState::RotateCounterClockwise => OrientationState::Spawn,
        }
    }

    pub fn next_clockwise(&self) -> (r: OrientationState)
        ensures
            r == self.next_clockwise_spec(),
    {
        match self {
            OrientationState::Spawn => OrientationState::RotateClockwise,
            OrientationState::RotateClockwise => OrientationState::Rotate180,
            OrientationState::Rotate180 => OrientationState::RotateCounterClockwise,
            OrientationState::RotateCounterClockwise => OrientationState::Spawn,
        }
    }

    pub open spec fn next_counterclockwise_spec(self) -> OrientationState {
        match self {
            OrientationState::Spawn => OrientationState::RotateCounterClockwise,
            OrientationState::RotateCounterClockwise => OrientationState::Rotate180,
            OrientationState::Rotate180 => OrientationState::RotateClockwise,
            OrientationState::RotateClockwise => OrientationState::Spawn,
        }
    }

    pub fn next_counterclockwise(&self) -> (r: OrientationState)
        ensures
            r == self.next_counterclockwise_spec(),
    {
        match self {
            OrientationState::Spawn => OrientationState::RotateCounterClockwise,
            OrientationState::RotateCounterClockwise => OrientationState::Rotate180,
            OrientationState::Rotate180 => OrientationState::RotateClockwise,
            OrientationState::RotateClockwise => OrientationState::Spawn,
        }
    }
}

/// The two transition functions are mutual inverses forming a 4-cycle:
/// stepping clockwise then counterclockwise (or the other way round) is the
/// identity, and four equal steps in either direction return to the start.
pub proof fn lemma_orientation_cycle(s: OrientationState)
    ensures
        s.next_clockwise_spec().next_counterclockwise_spec() == s,
        s.next_counterclockwise_spec().next_clockwise_spec() == s,
        s.next_clockwise_spec().next_clockwise_spec().next_clockwise_spec().next_clockwise_spec()
            == s,
        s.next_counterclockwise_spec().next_counterclockwise_spec().next_counterclockwise_spec().next_counterclockwise_spec()
            == s,
        s.next_clockwise_spec().value_spec() == (s.value_spec() + 1) % 4,
        s.next_counterclockwise_spec().value_spec() == (s.value_spec() + 3) % 4,
{
}

/// A square occupancy grid of side 2 to 4 (every row as long as the grid
/// is high).
pub open spec fn grid_wf(s: Seq<Seq<u8>>) -> bool {
    &&& 2 <= s.len() <= 4
    &&& forall|i: int| 0 <= i < s.len() ==> (#[trigger] s[i]).len() == s.len()
}

/// At least one occupied cell.
pub open spec fn has_filled_cell(s: Seq<Seq<u8>>) -> bool {
    exists|i: int, j: int| 0 <= i < s.len() && 0 <= j < s.len() && #[trigger] s[i][j] != 0
}

/// A well-formed piece shape: a square grid with at least one occupied cell.
pub open spec fn shape_wf(s: Seq<Seq<u8>>) -> bool {
    grid_wf(s) && has_filled_cell(s)
}

/// The canonical spawn-orientation shape of each kind.
pub open spec fn kind_shape(kind: PieceKind) -> Seq<Seq<u8>> {
    match kind {
        PieceKind::I => seq![
            seq![0u8, 0u8, 0u8, 0u8],
            seq![1u8, 1u8, 1u8, 1u8],
            seq![0u8, 0u8, 0u8, 0u8],
            seq![0u8, 0u8, 0u8, 0u8],
        ],
        PieceKind::J => seq![seq![1u8, 0u8, 0u8], seq![1u8, 1u8, 1u8], seq![0u8, 0u8, 0u8]],
        PieceKind::L => seq![seq![0u8, 0u8, 1u8], seq![1u8, 1u8, 1u8], seq![0u8, 0u8, 0u8]],
        PieceKind::O => seq![seq![1u8, 1u8], seq![1u8, 1u8]],
        PieceKind::S => seq![seq![0u8, 1u8, 1u8], seq![1u8, 1u8, 0u8], seq![0u8, 0u8, 0u8]],
        PieceKind::T => seq![seq![0u8, 1u8, 0u8], seq![1u8, 1u8, 1u8], seq![0u8, 0u8, 0u8]],
        PieceKind::Z => seq![seq![1u8, 1u8, 0u8], seq![0u8, 1u8, 1u8], seq![0u8, 0u8, 0u8]],
    }
}

/// Every canonical shape is a well-formed square grid.
pub proof fn lemma_kind_shape_wf(kind: PieceKind)
    ensures
        shape_wf(kind_shape(kind)),
{
    let s = kind_shape(kind);
    match kind {
        PieceKind::I => {
            assert(s[1][0] != 0);
        },
        PieceKind::J => {
            assert(s[0][0] != 0);
        },
        PieceKind::L => {
            assert(s[0][2] != 0);
        },
        PieceKind::O => {
            assert(s[0][0] != 0);
        },
        PieceKind::S => {
            assert(s[0][1] != 0);
        },
        PieceKind::T => {
            assert(s[0][1] != 0);
        },
        PieceKind::Z => {
            assert(s[0][0] != 0);
        },
    }
}

/// Clockwise rotation of a square grid: transpose and reverse the rows,
/// so the result at (i, j) is the source at (n-1-j, i).
pub open spec fn rotate_cw_spec(s: Seq<Seq<u8>>) -> Seq<Seq<u8>> {
    Seq::new(s.len(), |i: int| Seq::new(s.len(), |j: int| s[s.len() - 1 - j][i]))
}

/// Counterclockwise rotation of a square grid: the result at (i, j) is the
/// source at (j, n-1-i).
pub open spec fn rotate_ccw_spec(s: Seq<Seq<u8>>) -> Seq<Seq<u8>> {
    Seq::new(s.len(), |i: int| Seq::new(s.len(), |j: int| s[j][s.len() - 1 - i]))
}

/// Rotation preserves well-formedness of a shape.
pub proof fn lemma_rotate_preserves_wf(s: Seq<Seq<u8>>)
    requires
        shape_wf(s),
    ensures
        shape_wf(rotate_cw_spec(s)),
        shape_wf(rotate_ccw_spec(s)),
{
    let n = s.len() as int;
    let cw = rotate_cw_spec(s);
    let ccw = rotate_ccw_spec(s);
    let (i, j): (int, int) = choose|i: int, j: int|
        0 <= i < s.len() && 0 <= j < s.len() && #[trigger] s[i][j] != 0;
    assert(cw[j][n - 1 - i] == s[i][j]);
    assert(ccw[n - 1 - j][i] == s[i][j]);
}

/// The two rotations are mutual inverses on square grids.
pub proof fn lemma_rotate_inverse(s: Seq<Seq<u8>>)
    requires
        grid_wf(s),
    ensures
        rotate_ccw_spec(rotate_cw_spec(s)) == s,
        rotate_cw_spec(rotate_ccw_spec(s)) == s,
{
    let n = s.len() as int;
    let cw = rotate_cw_spec(s);
    let ccw = rotate_ccw_spec(s);
    assert(rotate_ccw_spec(cw) =~~= s);
    assert(rotate_cw_spec(ccw) =~~= s);
}

/// Four clockwise rotations (likewise four counterclockwise rotations)
/// return a square grid to its original contents.
pub proof fn lemma_rotate_four(s: Seq<Seq<u8>>)
    requires
        grid_wf(s),
    ensures
        rotate_cw_spec(rotate_cw_spec(rotate_cw_spec(rotate_cw_spec(s)))) == s,
        rotate_ccw_spec(rotate_ccw_spec(rotate_ccw_spec(rotate_ccw_spec(s)))) == s,
{
    let n = s.len() as int;
    let c1 = rotate_cw_spec(s);
    let c2 = rotate_cw_spec(c1);
    let c3 = rotate_cw_spec(c2);
    let c4 = rotate_cw_spec(c3);
    assert(c4 =~~= s);
    let w1 = rotate_ccw_spec(s);
    let w2 = rotate_ccw_spec(w1);
    let w3 = rotate_ccw_spec(w2);
    let w4 = rotate_ccw_spec(w3);
    assert(w4 =~~= s);
}

/// The square piece's canonical shape is a fixed point of both rotations.
pub proof fn lemma_square_shape_fixed()
    ensures
        rotate_cw_spec(kind_shape(PieceKind::O)) == kind_shape(PieceKind::O),
        rotate_ccw_spec(kind_shape(PieceKind::O)) == kind_shape(PieceKind::O),
{
    let s = kind_shape(PieceKind::O);
    assert(rotate_cw_spec(s) =~~= s);
    assert(rotate_ccw_spec(s) =~~= s);
}

/// The shape reached from a canonical shape by `k` clockwise quarter turns.
pub open spec fn iter_cw(k: int, s: Seq<Seq<u8>>) -> Seq<Seq<u8>>
    decreases k,
{
    if k <= 0 {
        s
    } else {
        rotate_cw_spec(iter_cw(k - 1, s))
    }
}

/// Every grid in the rotation orbit of a well-formed shape is well-formed.
pub proof fn lemma_iter_cw_wf(k: int, s: Seq<Seq<u8>>)
    requires
        shape_wf(s),
        0 <= k,
    ensures
        shape_wf(iter_cw(k, s)),
    decreases k,
{
    if k > 0 {
        lemma_iter_cw_wf(k - 1, s);
        lemma_rotate_preserves_wf(iter_cw(k - 1, s));
    }
}

/// Rotating a piece four times clockwise returns it to its original shape
/// and orientation; likewise four counterclockwise rotations.  (Each
/// executable rotation replaces the shape by `rotate_cw_spec` or
/// `rotate_ccw_spec` of it and steps the orientation state once.)
pub proof fn lemma_four_quarter_turns_restore(t: Tetromino)
    requires
        grid_wf(t.shape.deep_view()),
    ensures
        rotate_cw_spec(rotate_cw_spec(rotate_cw_spec(rotate_cw_spec(t.shape.deep_view()))))
            == t.shape.deep_view(),
        rotate_ccw_spec(rotate_ccw_spec(rotate_ccw_spec(rotate_ccw_spec(t.shape.deep_view()))))
            == t.shape.deep_view(),
        t.state.next_clockwise_spec().next_clockwise_spec().next_clockwise_spec().next_clockwise_spec()
            == t.state,
        t.state.next_counterclockwise_spec().next_counterclockwise_spec().next_counterclockwise_spec().next_counterclockwise_spec()
            == t.state,
{
    lemma_rotate_four(t.shape.deep_view());
    lemma_orientation_cycle(t.state);
}

/// Stepping the orbit clockwise: one more clockwise turn from the shape at
/// orientation value `v` gives the shape at orientation value `(v+1) % 4`.
pub proof fn lemma_orbit_step_cw(kind: PieceKind, v: int)
    requires
        0 <= v < 4,
    ensures
        rotate_cw_spec(iter_cw(v, kind_shape(kind))) == iter_cw((v + 1) % 4, kind_shape(kind)),
{
    let base = kind_shape(kind);
    lemma_kind_shape_wf(kind);
    if v == 3 {
        lemma_rotate_four(base);
        assert(iter_cw(0, base) == base);
        assert(iter_cw(1, base) == rotate_cw_spec(base));
        assert(iter_cw(2, base) == rotate_cw_spec(iter_cw(1, base)));
        assert(iter_cw(3, base) == rotate_cw_spec(iter_cw(2, base)));
    }
}

/// Stepping the orbit counterclockwise: one counterclockwise turn from the
/// shape at orientation value `v` gives the shape at value `(v+3) % 4`.
pub proof fn lemma_orbit_step_ccw(kind: PieceKind, v: int)
    requires
        0 <= v < 4,
    ensures
        rotate_ccw_spec(iter_cw(v, kind_shape(kind))) == iter_cw((v + 3) % 4, kind_shape(kind)),
{
    let base = kind_shape(kind);
    lemma_kind_shape_wf(kind);
    if v == 0 {
        lemma_rotate_four(base);
        assert(iter_cw(0, base) == base);
        assert(iter_cw(1, base) == rotate_cw_spec(base));
        assert(iter_cw(2, base) == rotate_cw_spec(iter_cw(1, base)));
        assert(iter_cw(3, base) == rotate_cw_spec(iter_cw(2, base)));
        assert(rotate_cw_spec(iter_cw(3, base)) == base);
        lemma_iter_cw_wf(3, base);
        lemma_rotate_inverse(iter_cw(3, base));
    } else {
        lemma_iter_cw_wf(v - 1, base);
        lemma_rotate_inverse(iter_cw(v - 1, base));
        assert(iter_cw(v, base) == rotate_cw_spec(iter_cw(v - 1, base)));
    }
}

/// The square piece's whole rotation orbit is its canonical shape.
pub proof fn lemma_square_orbit(v: int)
    requires
        0 <= v,
    ensures
        iter_cw(v, kind_shape(PieceKind::O)) == kind_shape(PieceKind::O),
    decreases v,
{
    if v > 0 {
        lemma_square_orbit(v - 1);
        lemma_square_shape_fixed();
    }
}

/// An active piece: its kind, the current (rotated) occupancy grid, and the
/// orientation state that grid corresponds to.
pub struct Tetromino {
    pub kind: PieceKind,
    pub shape: Vec<Vec<u8>>,
    pub state: OrientationState,
}

impl Tetromino {
    /// The shape grid is exactly the canonical shape of the kind turned
    /// clockwise as many quarter turns as the orientation state counts.
    pub open spec fn wf(self) -> bool {
        &&& self.shape.deep_view() == iter_cw(
            self.state.value_spec() as int,
            kind_shape(self.kind),
        )
        &&& shape_wf(self.shape.deep_view())
    }

    /// A fresh piece of the given kind in spawn orientation with its
    /// canonical shape.
    pub fn new(kind: PieceKind) -> (t: Tetromino)
        ensures
            t.kind == kind,
            t.state == OrientationState::Spawn,
            t.shape.deep_view() == kind_shape(kind),
            t.wf(),
    {
        let shape = match kind {
            PieceKind::I => {
                let mut s: Vec<Vec<u8>> = Vec::new();
                s.push(grid_row4(0, 0, 0, 0));
                s.push(grid_row4(1, 1, 1, 1));
                s.push(grid_row4(0, 0, 0, 0));
                s.push(grid_row4(0, 0, 0, 0));
                s
            },
            PieceKind::J => {
                let mut s: Vec<Vec<u8>> = Vec::new();
                s.push(grid_row3(1, 0, 0));
                s.push(grid_row3(1, 1, 1));
                s.push(grid_row3(0, 0, 0));
                s
            },
            PieceKind::L => {
                let mut s: Vec<Vec<u8>> = Vec::new();
                s.push(grid_row3(0, 0, 1));
                s.push(grid_row3(1, 1, 1));
                s.push(grid_row3(0, 0, 0));
                s
            },
            PieceKind::O => {
                let mut s: Vec<Vec<u8>> = Vec::new();
                s.push(grid_row2(1, 1));
                s.push(grid_row2(1, 1));
                s
            },
            PieceKind::S => {
                let mut s: Vec<Vec<u8>> = Vec::new();
                s.push(grid_row3(0, 1, 1));
                s.push(grid_row3(1, 1, 0));
                s.push(grid_row3(0, 0, 0));
                s
            },
            PieceKind::T => {
                let mut s: Vec<Vec<u8>> = Vec::new();
                s.push(grid_row3(0, 1, 0));
                s.push(grid_row3(1, 1, 1));
                s.push(grid_row3(0, 0, 0));
                s
            },
            PieceKind::Z => {
                let mut s: Vec<Vec<u8>> = Vec::new();
                s.push(grid_row3(1, 1, 0));
                s.push(grid_row3(0, 1, 1));
                s.push(grid_row3(0, 0, 0));
                s
            },
        };
        proof {
            assert(shape.deep_view() =~~= kind_shape(kind));
            lemma_kind_shape_wf(kind);
        }
        Tetromino { kind, shape, state: OrientationState::Spawn }
    }

    /// Replace the shape by its clockwise rotation and step the orientation.
    pub fn rotate_clockwise(&mut self)
        requires
            grid_wf(old(self).shape.deep_view()),
        ensures
            final(self).kind == old(self).kind,
            final(self).state == old(self).state.next_clockwise_spec(),
            final(self).shape.deep_view() == rotate_cw_spec(old(self).shape.deep_view()),
    {
        self.shape = rotate_grid_cw(&self.shape);
        self.state = self.state.next_clockwise();
    }

    /// Replace the shape by its counterclockwise rotation and step the
    /// orientation.
    pub fn rotate_counterclockwise(&mut self)
        requires
            grid_wf(old(self).shape.deep_view()),
        ensures
            final(self).kind == old(self).kind,
            final(self).state == old(self).state.next_counterclockwise_spec(),
            final(self).shape.deep_view() == rotate_ccw_spec(old(self).shape.deep_view()),
    {
        self.shape = rotate_grid_ccw(&self.shape);
        self.state = self.state.next_counterclockwise();
    }
}

fn grid_row2(a: u8, b: u8) -> (r: Vec<u8>)
    ensures
        r@ == seq![a, b],
{
    let mut v: Vec<u8> = Vec::new();
    v.push(a);
    v.push(b);
    proof {
        assert(v@ =~= seq![a, b]);
    }
    v
}

fn grid_row3(a: u8, b: u8, c: u8) -> (r: Vec<u8>)
    ensures
        r@ == seq![a, b, c],
{
    let mut v: Vec<u8> = Vec::new();
    v.push(a);
    v.push(b);
    v.push(c);
    proof {
        assert(v@ =~= seq![a, b, c]);
    }
    v
}

fn grid_row4(a: u8, b: u8, c: u8, d: u8) -> (r: Vec<u8>)
    ensures
        r@ == seq![a, b, c, d],
{
    let mut v: Vec<u8> = Vec::new();
    v.push(a);
    v.push(b);
    v.push(c);
    v.push(d);
    proof {
        assert(v@ =~= seq![a, b, c, d]);
    }
    v
}

/// Clockwise rotation of a square grid as executable code.
pub fn rotate_grid_cw(s: &Vec<Vec<u8>>) -> (r: Vec<Vec<u8>>)
    requires
        grid_wf(s.deep_view()),
    ensures
        r.deep_view() == rotate_cw_spec(s.deep_view()),
{
    let n = s.len();
    let mut r: Vec<Vec<u8>> = Vec::new();
    for i in 0..n
        invariant
            n == s@.len(),
            grid_wf(s.deep_view()),
            r@.len() == i,
            forall|a: int| 0 <= a < i ==> (#[trigger] r@[a])@ == rotate_cw_spec(
                s.deep_view(),
            )[a],
    {
        let mut row: Vec<u8> = Vec::new();
        for j in 0..n
            invariant
                n == s@.len(),
                grid_wf(s.deep_view()),
                0 <= i < n,
                row@.len() == j,
                forall|b: int| 0 <= b < j ==> row@[b] == s.deep_view()[n - 1 - b][i as int],
        {
            let src = &s[n - 1 - j];
            assert(src@ =~= s.deep_view()[n - 1 - j]);
            row.push(src[i]);
        }
        proof {
            assert(row@ =~= rotate_cw_spec(s.deep_view())[i as int]);
        }
        r.push(row);
    }
    proof {
        assert forall|a: int| 0 <= a < n implies r.deep_view()[a] == rotate_cw_spec(
            s.deep_view(),
        )[a] by {
            assert(r@[a].deep_view() =~= r@[a]@);
        }
        assert(r.deep_view() =~~= rotate_cw_spec(s.deep_view()));
    }
    r
}

/// Counterclockwise rotation of a square grid as executable code.
pub fn rotate_grid_ccw(s: &Vec<Vec<u8>>) -> (r: Vec<Vec<u8>>)
    requires
        grid_wf(s.deep_view()),
    ensures
        r.deep_view() == rotate_ccw_spec(s.deep_view()),
{
    let n = s.len();
    let mut r: Vec<Vec<u8>> = Vec::new();
    for i in 0..n
        invariant
            n == s@.len(),
            grid_wf(s.deep_view()),
            r@.len() == i,
            forall|a: int| 0 <= a < i ==> (#[trigger] r@[a])@ == rotate_ccw_spec(
                s.deep_view(),
            )[a],
    {
        let mut row: Vec<u8> = Vec::new();
        for j in 0..n
            invariant
                n == s@.len(),
                grid_wf(s.deep_view()),
                0 <= i < n,
                row@.len() == j,
                forall|b: int| 0 <= b < j ==> row@[b] == s.deep_view()[b as int][n - 1 - i],
        {
            let src = &s[j];
            assert(src@ =~= s.deep_view()[j as int]);
            row.push(src[n - 1 - i]);
        }
        proof {
            assert(row@ =~= rotate_ccw_spec(s.deep_view())[i as int]);
        }
        r.push(row);
    }
    proof {
        assert forall|a: int| 0 <= a < n implies r.deep_view()[a] == rotate_ccw_spec(
            s.deep_view(),
        )[a] by {
            assert(r@[a].deep_view() =~= r@[a]@);
        }
        assert(r.deep_view() =~~= rotate_ccw_spec(s.deep_view()));
    }
    r
}

} // verus!
