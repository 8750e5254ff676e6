use vstd::prelude::*;

verus! {

/// Side length of a piece's occupancy matrix.
pub const TETRO_BLOCKS: usize = 3;

/// A piece's occupancy matrix: `TETRO_BLOCKS` rows of `TETRO_BLOCKS` booleans,
/// row-major, `true` marking an occupied cell.
pub struct TetroShape {
    pub rows: Vec<Vec<bool>>,
}

impl View for TetroShape {
    type V = Seq<Seq<bool>>;

    open spec fn view(&self) -> Seq<Seq<bool>> {
        self.rows@.map_values(|r: Vec<bool>| r@)
    }
}

/// The view of a shape is its row vectors' views, row by row.
pub proof fn lemma_shape_view(s: &TetroShape)
    ensures
        s@.len() == s.rows@.len(),
        forall|i: int| 0 <= i < s.rows@.len() ==> s@[i] == (#[trigger] s.rows@[i])@,
{
}

/// A well-formed occupancy matrix is exactly `TETRO_BLOCKS` by `TETRO_BLOCKS`.
pub open spec fn shape_wf(m: Seq<Seq<bool>>) -> bool {
    &&& m.len() == TETRO_BLOCKS
    &&& forall|y: int| 0 <= y < TETRO_BLOCKS ==> (#[trigger] m[y]).len() == TETRO_BLOCKS
}

/// Whether the matrix `m` occupies the cell in row `y`, column `x`.
/// Out-of-range coordinates are never occupied.
pub open spec fn occupies(m: Seq<Seq<bool>>, y: int, x: int) -> bool {
    &&& 0 <= y < TETRO_BLOCKS
    &&& 0 <= x < TETRO_BLOCKS
    &&& m[y][x]
}

/// One clockwise rotation: cell (y, x) of the source lands in cell
/// (x, TETRO_BLOCKS - 1 - y) of the result.
pub open spec fn rotate_cw_spec(m: Seq<Seq<bool>>) -> Seq<Seq<bool>> {
    Seq::new(
        TETRO_BLOCKS as nat,
        |y: int| Seq::new(TETRO_BLOCKS as nat, |x: int| m[TETRO_BLOCKS - 1 - x][y]),
    )
}

/// One counter-clockwise rotation: cell (y, x) of the source lands in cell
/// (TETRO_BLOCKS - 1 - x, y) of the result.
pub open spec fn rotate_ccw_spec(m: Seq<Seq<bool>>) -> Seq<Seq<bool>> {
    Seq::new(
        TETRO_BLOCKS as nat,
        |y: int| Seq::new(TETRO_BLOCKS as nat, |x: int| m[x][TETRO_BLOCKS - 1 - y]),
    )
}

/// The matrix a rotation produces, by direction: `1` turns clockwise,
/// anything else counter-clockwise.
pub open spec fn rotate_spec(m: Seq<Seq<bool>>, direction: int) -> Seq<Seq<bool>> {
    if direction == 1 {
        rotate_cw_spec(m)
    } else {
        rotate_ccw_spec(m)
    }
}

/// Rotates an occupancy matrix a quarter turn, clockwise for `direction == 1`
/// and counter-clockwise otherwise. Pure: the input matrix is left as it is.
pub fn rotate_tetromino(tetro_shape: &TetroShape, direction: i32) -> (r: TetroShape)
    requires
        shape_wf(tetro_shape@),
    ensures
        shape_wf(r@),
        r@ == rotate_spec(tetro_shape@, direction as int),
{
    let ghost target = rotate_spec(tetro_shape@, direction as int);
    proof {
        lemma_shape_view(tetro_shape);
    }
    let mut rows: Vec<Vec<bool>> = Vec::new();
    let mut y: usize = 0;
    while y < TETRO_BLOCKS
        invariant
            shape_wf(tetro_shape@),
            target == rotate_spec(tetro_shape@, direction as int),
            tetro_shape.rows@.len() == TETRO_BLOCKS,
            forall|i: int| 0 <= i < TETRO_BLOCKS ==> tetro_shape@[i] == (#[trigger] tetro_shape.rows@[i])@,
            y <= TETRO_BLOCKS,
            rows@.len() == y,
            forall|i: int| 0 <= i < y ==> (#[trigger] rows@[i])@ == target[i],
        decreases TETRO_BLOCKS - y,
    {
        let mut row: Vec<bool> = Vec::new();
        let mut x: usize = 0;
        while x < TETRO_BLOCKS
            invariant
                shape_wf(tetro_shape@),
                target == rotate_spec(tetro_shape@, direction as int),
                tetro_shape.rows@.len() == TETRO_BLOCKS,
                forall|i: int| 0 <= i < TETRO_BLOCKS ==> tetro_shape@[i] == (#[trigger] tetro_shape.rows@[i])@,
                y < TETRO_BLOCKS,
                x <= TETRO_BLOCKS,
                row@.len() == x,
                forall|j: int| 0 <= j < x ==> row@[j] == target[y as int][j],
            decreases TETRO_BLOCKS - x,
        {
            let cell = if direction == 1 {
                tetro_shape.rows[TETRO_BLOCKS - 1 - x][y]
            } else {
                tetro_shape.rows[x][TETRO_BLOCKS - 1 - y]
            };
            row.push(cell);
            x = x + 1;
        }
        proof {
            assert(row@ =~= target[y as int]);
        }
        rows.push(row);
        y = y + 1;
    }
    let r = TetroShape { rows };
    proof {
        assert(r@ =~= target);
    }
    r
}

/// The five piece types of the shape catalog.
#[derive(Clone, Copy, PartialEq, Eq, Structural, Debug)]
pub enum TetrominoType {
    T,
    L,
    S,
    O,
    I,
}

impl TetrominoType {
    /// The catalog matrix of each piece type, in its source orientation.
    pub open spec fn shape_matrix(self) -> Seq<Seq<bool>> {
        match self {
            TetrominoType::T => seq![
                seq![false, false, false],
                seq![false, true, false],
                seq![true, true, true],
            ],
            TetrominoType::L => seq![
                seq![false, true, false],
                seq![false, true, false],
                seq![false, true, true],
            ],
            TetrominoType::S => seq![
                seq![false, true, false],
                seq![false, true, true],
                seq![false, false, true],
            ],
            TetrominoType::O => seq![
                seq![false, false, false],
                seq![false, true, true],
                seq![false, true, true],
            ],
            TetrominoType::I => seq![
                seq![false, true, false],
                seq![false, true, false],
                seq![false, true, false],
            ],
        }
    }

    /// The piece type selected by a draw `n`; any out-of-range draw maps to `I`.
    pub open spec fn tetro_type_of(n: int) -> TetrominoType {
        if n == 0 {
            TetrominoType::T
        } else if n == 1 {
            TetrominoType::L
        } else if n == 2 {
            TetrominoType::S
        } else if n == 3 {
            TetrominoType::O
        } else {
            TetrominoType::I
        }
    }

    /// Turns a shape index into a piece type.
    pub fn get_tetro_type(n: usize) -> (t: TetrominoType)
        ensures
            t == TetrominoType::tetro_type_of(n as int),
    {
        match n {
            0 => TetrominoType::T,
            1 => TetrominoType::L,
            2 => TetrominoType::S,
            3 => TetrominoType::O,
            _ => TetrominoType::I,
        }
    }

    /// Builds the catalog occupancy matrix of this piece type.
    pub fn get_shape(self) -> (s: TetroShape)
        ensures
            s@ == self.shape_matrix(),
            shape_wf(s@),
    {
        let rows: Vec<Vec<bool>> = match self {
            TetrominoType::T => vec![
                vec![false, false, false],
                vec![false, true, false],
                vec![true, true, true],
            ],
            TetrominoType::L => vec![
                vec![false, true, false],
                vec![false, true, false],
                vec![false, true, true],
            ],
            TetrominoType::S => vec![
                vec![false, true, false],
                vec![false, true, true],
                vec![false, false, true],
            ],
            TetrominoType::O => vec![
                vec![false, false, false],
                vec![false, true, true],
                vec![false, true, true],
            ],
            TetrominoType::I => vec![
                vec![false, true, false],
                vec![false, true, false],
                vec![false, true, false],
            ],
        };
        let s = TetroShape { rows };
        proof {
            lemma_shape_view(&s);
            assert(s@ =~~= self.shape_matrix());
        }
        s
    }
}

/// Every catalog matrix is well formed and occupies its centre cell.
pub proof fn lemma_shape_matrix_wf(t: TetrominoType)
    ensures
        shape_wf(t.shape_matrix()),
        occupies(t.shape_matrix(), 1, 1),
{
}

/// Law: four clockwise quarter turns reproduce the original matrix exactly.
pub proof fn lemma_rotate_cw_four_times(m: Seq<Seq<bool>>)
    requires
        shape_wf(m),
    ensures
        rotate_cw_spec(rotate_cw_spec(rotate_cw_spec(rotate_cw_spec(m)))) == m,
{
    assert(rotate_cw_spec(rotate_cw_spec(rotate_cw_spec(rotate_cw_spec(m)))) =~~= m);
}

} // verus!
