use vstd::prelude::*;
use crate::block::BlockType;
use crate::piece::Tetromino;
use crate::shape::{lemma_shape_view, occupies, TETRO_BLOCKS};

verus! {

/// Board width, in cells.
pub const GAME_BLOCKS_X: usize = 10;

/// Board height, in cells; row 0 is the top.
pub const GAME_BLOCKS_Y: usize = 20;

/// Points awarded for each cleared row.
pub const POINTS_PER_ROW: u64 = 10;

/// The persistent state of a game session: the grid of locked cells
/// (row-major, row 0 at the top), the score, and whether the session is
/// still running (it stops when a freshly spawned piece is already blocked).
pub struct GameBoard {
    pub board: Vec<Vec<BlockType>>,
    pub score: u64,
    pub running: bool,
}

/// A well-formed grid is exactly `GAME_BLOCKS_Y` rows of `GAME_BLOCKS_X` cells.
pub open spec fn grid_wf(g: Seq<Seq<BlockType>>) -> bool {
    &&& g.len() == GAME_BLOCKS_Y
    &&& forall|y: int| 0 <= y < GAME_BLOCKS_Y ==> (#[trigger] g[y]).len() == GAME_BLOCKS_X
}

impl GameBoard {
    /// The grid as a mathematical sequence of rows.
    pub open spec fn grid(self) -> Seq<Seq<BlockType>> {
        self.board@.map_values(|r: Vec<BlockType>| r@)
    }

    pub open spec fn wf(self) -> bool {
        grid_wf(self.grid())
    }
}

/// The grid of a board is its row vectors' views, row by row.
pub proof fn lemma_board_grid(b: &GameBoard)
    ensures
        b.grid().len() == b.board@.len(),
        forall|i: int| 0 <= i < b.board@.len() ==> b.grid()[i] == (#[trigger] b.board@[i])@,
{
}

/// A row is completed when none of its cells is `Empty`.
pub open spec fn row_full(row: Seq<BlockType>) -> bool {
    forall|x: int| 0 <= x < GAME_BLOCKS_X ==> (#[trigger] row[x]) != BlockType::Empty
}

/// A row of empty cells, as shifted in at the top after a clear.
pub open spec fn empty_row() -> Seq<BlockType> {
    Seq::new(GAME_BLOCKS_X as nat, |x: int| BlockType::Empty)
}

/// Builds an all-empty row.
fn make_empty_row() -> (r: Vec<BlockType>)
    ensures
        r@ == empty_row(),
{
    let r = vec![BlockType::Empty; GAME_BLOCKS_X];
    proof {
        assert(r@ =~= empty_row());
    }
    r
}

/// Decides whether a row is completed.
fn row_is_full(row: &Vec<BlockType>) -> (b: bool)
    requires
        row@.len() == GAME_BLOCKS_X,
    ensures
        b == row_full(row@),
{
    let mut x: usize = 0;
    while x < GAME_BLOCKS_X
        invariant
            row@.len() == GAME_BLOCKS_X,
            x <= GAME_BLOCKS_X,
            forall|j: int| 0 <= j < x ==> (#[trigger] row@[j]) != BlockType::Empty,
        decreases GAME_BLOCKS_X - x,
    {
        if row[x] == BlockType::Empty {
            return false;
        }
        x = x + 1;
    }
    true
}

/// Whether some occupied cell of matrix `m`, anchored at (pos_x, pos_y),
/// lies on the board cell in row `r`, column `c`.
pub open spec fn covers(m: Seq<Seq<bool>>, pos_x: int, pos_y: int, r: int, c: int) -> bool {
    exists|y: int, x: int| occupies(m, y, x) && pos_y + y == r && pos_x + x == c
}

/// The grid after locking: every covered cell takes the piece's colour and
/// every other cell keeps its value.
pub open spec fn lock_spec(
    g: Seq<Seq<BlockType>>,
    m: Seq<Seq<bool>>,
    pos_x: int,
    pos_y: int,
    color: BlockType,
) -> Seq<Seq<BlockType>> {
    Seq::new(
        g.len(),
        |r: int|
            Seq::new(
                g[r].len(),
                |c: int|
                    if covers(m, pos_x, pos_y, r, c) {
                        color
                    } else {
                        g[r][c]
                    },
            ),
    )
}

/// Law: after a lock, every cell an occupied piece cell covers holds the
/// piece's colour, and no other cell is altered.
pub proof fn lemma_lock_spec_cells(
    g: Seq<Seq<BlockType>>,
    m: Seq<Seq<bool>>,
    pos_x: int,
    pos_y: int,
    color: BlockType,
)
    requires
        grid_wf(g),
    ensures
        grid_wf(lock_spec(g, m, pos_x, pos_y, color)),
        forall|y: int, x: int|
            occupies(m, y, x) && 0 <= pos_y + y < GAME_BLOCKS_Y && 0 <= pos_x + x < GAME_BLOCKS_X
                ==> lock_spec(g, m, pos_x, pos_y, color)[pos_y + y][pos_x + x] == color,
        forall|r: int, c: int|
            0 <= r < GAME_BLOCKS_Y && 0 <= c < GAME_BLOCKS_X && !covers(m, pos_x, pos_y, r, c)
                ==> lock_spec(g, m, pos_x, pos_y, color)[r][c] == g[r][c],
{
    let locked = lock_spec(g, m, pos_x, pos_y, color);
    assert forall|y: int, x: int|
        occupies(m, y, x) && 0 <= pos_y + y < GAME_BLOCKS_Y && 0 <= pos_x + x
            < GAME_BLOCKS_X implies locked[pos_y + y][pos_x + x] == color by {
        assert(covers(m, pos_x, pos_y, pos_y + y, pos_x + x));
    }
}

/// The grid after clearing row `y`: rows 0..y move down one step into 1..=y,
/// an empty row takes the top, and rows below `y` stay put.
pub open spec fn shift_down(g: Seq<Seq<BlockType>>, y: int) -> Seq<Seq<BlockType>> {
    Seq::new(
        g.len(),
        |r: int|
            if r == 0 {
                empty_row()
            } else if r <= y {
                g[r - 1]
            } else {
                g[r]
            },
    )
}

/// Number of completed rows among rows 0..=y.
pub open spec fn full_count(g: Seq<Seq<BlockType>>, y: int) -> nat
    decreases y + 1,
{
    if y < 0 {
        0
    } else if row_full(g[y]) {
        full_count(g, y - 1) + 1
    } else {
        full_count(g, y - 1)
    }
}

/// Shifting down at `y` replaces rows 0..=y by an empty row and rows 0..y,
/// so up to `k <= y` the completed rows are exactly those of rows 0..k.
pub proof fn lemma_full_count_shift_down(g: Seq<Seq<BlockType>>, y: int, k: int)
    requires
        0 <= k <= y < g.len(),
    ensures
        full_count(shift_down(g, y), k) == full_count(g, k - 1),
    decreases k,
{
    if k == 0 {
        assert(!row_full(empty_row())) by {
            assert(empty_row()[0] == BlockType::Empty);
        }
        assert(shift_down(g, y)[0] == empty_row());
        assert(full_count(shift_down(g, y), -1) == 0);
        assert(full_count(g, -1) == 0);
    } else {
        lemma_full_count_shift_down(g, y, k - 1);
        assert(shift_down(g, y)[k] == g[k - 1]);
    }
}

/// The grid and clear count that the bottom-up scan produces when started at
/// row `y`: a completed row is removed (everything above shifts down one and
/// an empty row enters at the top) and the same index is examined again; on an
/// incomplete row the scan moves up. The scan stops above row 0, so row 0
/// itself is never cleared: a piece locked into the very top row stays there.
pub open spec fn clear_from(g: Seq<Seq<BlockType>>, y: int) -> (Seq<Seq<BlockType>>, nat)
    decreases y, full_count(g, y),
{
    if y <= 0 || y >= g.len() {
        (g, 0)
    } else if row_full(g[y]) {
        proof {
            lemma_full_count_shift_down(g, y, y);
        }
        let shifted = shift_down(g, y);
        (clear_from(shifted, y).0, clear_from(shifted, y).1 + 1)
    } else {
        clear_from(g, y - 1)
    }
}

/// The scan never clears more rows than were completed at its start.
proof fn lemma_clear_from_count(g: Seq<Seq<BlockType>>, y: int)
    ensures
        clear_from(g, y).1 <= full_count(g, y),
    decreases y, full_count(g, y),
{
    if y <= 0 || y >= g.len() {
    } else if row_full(g[y]) {
        lemma_full_count_shift_down(g, y, y);
        lemma_clear_from_count(shift_down(g, y), y);
    } else {
        lemma_clear_from_count(g, y - 1);
    }
}

/// Law: when no row in 1..=y is completed, the scan clears nothing and the
/// grid and score stand unchanged.
pub proof fn lemma_clear_no_full_rows(g: Seq<Seq<BlockType>>, y: int)
    requires
        y < g.len(),
        forall|r: int| 1 <= r <= y ==> !row_full(#[trigger] g[r]),
    ensures
        clear_from(g, y) == (g, 0nat),
    decreases y,
{
    if y > 0 {
        lemma_clear_no_full_rows(g, y - 1);
    }
}

/// Law: when exactly one row `f` below the top is completed, the scan removes
/// exactly that row's worth of cells — every row above `f` shifts down one
/// step, an empty row enters at the top, everything below `f` stands — and
/// counts exactly one clear.
pub proof fn lemma_clear_single_full_row(g: Seq<Seq<BlockType>>, y: int, f: int)
    requires
        1 <= f <= y < g.len(),
        row_full(g[f]),
        forall|r: int| 0 <= r <= y && r != f ==> !row_full(#[trigger] g[r]),
    ensures
        clear_from(g, y) == (shift_down(g, f), 1nat),
    decreases y - f,
{
    if y == f {
        let shifted = shift_down(g, f);
        assert(!row_full(empty_row())) by {
            assert(empty_row()[0] == BlockType::Empty);
        }
        assert forall|r: int| 1 <= r <= f implies !row_full(#[trigger] shifted[r]) by {
            assert(shifted[r] == g[r - 1]);
        }
        lemma_clear_no_full_rows(shifted, f);
    } else {
        lemma_clear_single_full_row(g, y - 1, f);
    }
}

/// At most `y + 1` rows (rows 0..=y) can be completed.
proof fn lemma_full_count_bound(g: Seq<Seq<BlockType>>, y: int)
    requires
        -1 <= y,
    ensures
        full_count(g, y) <= y + 1,
    decreases y + 1,
{
    if y >= 0 {
        lemma_full_count_bound(g, y - 1);
    }
}

impl GameBoard {
    /// A fresh session: an all-empty grid, zero score, running.
    pub fn new() -> (gb: GameBoard)
        ensures
            gb.wf(),
            gb.score == 0,
            gb.running,
            forall|y: int| 0 <= y < GAME_BLOCKS_Y ==> #[trigger] gb.grid()[y] == empty_row(),
    {
        let mut board: Vec<Vec<BlockType>> = Vec::new();
        let mut y: usize = 0;
        while y < GAME_BLOCKS_Y
            invariant
                y <= GAME_BLOCKS_Y,
                board@.len() == y,
                forall|i: int| 0 <= i < y ==> (#[trigger] board@[i])@ == empty_row(),
            decreases GAME_BLOCKS_Y - y,
        {
            board.push(make_empty_row());
            y = y + 1;
        }
        let gb = GameBoard { board, score: 0, running: true };
        proof {
            lemma_board_grid(&gb);
        }
        gb
    }

    /// Scans rows from the bottom upward and removes every completed one:
    /// the rows above it shift down a step and an empty row enters at the top,
    /// after which the same row index is examined again, so simultaneous
    /// clears accumulate. Awards `POINTS_PER_ROW` points per cleared row.
    /// Row 0 is never cleared (the scan stops above it).
    pub fn clear_completed_rows(&mut self)
        requires
            old(self).wf(),
            old(self).score + POINTS_PER_ROW * GAME_BLOCKS_Y <= u64::MAX,
        ensures
            final(self).wf(),
            final(self).grid() == clear_from(old(self).grid(), GAME_BLOCKS_Y - 1).0,
            final(self).score == old(self).score + POINTS_PER_ROW * clear_from(
                old(self).grid(),
                GAME_BLOCKS_Y - 1,
            ).1,
            final(self).running == old(self).running,
    {
        let ghost g0 = old(self).grid();
        proof {
            lemma_clear_from_count(g0, GAME_BLOCKS_Y - 1);
            lemma_full_count_bound(g0, GAME_BLOCKS_Y - 1);
        }
        let mut y: usize = GAME_BLOCKS_Y - 1;
        let mut cleared: u64 = 0;
        while y > 0
            invariant
                self.wf(),
                self.score == old(self).score,
                self.running == old(self).running,
                old(self).score + POINTS_PER_ROW * GAME_BLOCKS_Y <= u64::MAX,
                y <= GAME_BLOCKS_Y - 1,
                clear_from(g0, GAME_BLOCKS_Y - 1).1 <= GAME_BLOCKS_Y,
                clear_from(g0, GAME_BLOCKS_Y - 1).0 == clear_from(self.grid(), y as int).0,
                clear_from(g0, GAME_BLOCKS_Y - 1).1 == cleared + clear_from(
                    self.grid(),
                    y as int,
                ).1,
            decreases y, full_count(self.grid(), y as int),
        {
            let ghost g_pre = self.grid();
            proof {
                lemma_board_grid(self);
            }
            if row_is_full(&self.board[y]) {
                self.board.remove(y);
                self.board.insert(0, make_empty_row());
                cleared = cleared + 1;
                proof {
                    lemma_board_grid(self);
                    assert(self.grid() =~~= shift_down(g_pre, y as int));
                    lemma_full_count_shift_down(g_pre, y as int, y as int);
                }
            } else {
                y = y - 1;
            }
        }
        proof {
            assert(clear_from(self.grid(), 0).0 == self.grid());
            assert(clear_from(self.grid(), 0).1 == 0);
        }
        self.score = self.score + POINTS_PER_ROW * cleared;
    }

    /// Writes the piece's colour into every board cell its occupied cells
    /// cover. The caller must already have confirmed that the piece sits
    /// legally on the grid (`in_bounds`): locking itself re-checks nothing.
    pub fn lock(&mut self, piece: &Tetromino)
        requires
            old(self).wf(),
            piece.wf(),
            piece.in_bounds(),
        ensures
            final(self).wf(),
            final(self).grid() == lock_spec(
                old(self).grid(),
                piece.shape@,
                piece.pos_x as int,
                piece.pos_y as int,
                piece.color,
            ),
            final(self).score == old(self).score,
            final(self).running == old(self).running,
    {
        let ghost g0 = old(self).grid();
        let ghost m = piece.shape@;
        let ghost px = piece.pos_x as int;
        let ghost py = piece.pos_y as int;
        proof {
            lemma_shape_view(&piece.shape);
        }
        let mut y: usize = 0;
        while y < TETRO_BLOCKS
            invariant
                self.wf(),
                self.score == old(self).score,
                self.running == old(self).running,
                piece.wf(),
                piece.in_bounds(),
                m == piece.shape@,
                px == piece.pos_x as int,
                py == piece.pos_y as int,
                piece.shape.rows@.len() == TETRO_BLOCKS,
                forall|i: int|
                    0 <= i < TETRO_BLOCKS ==> m[i] == (#[trigger] piece.shape.rows@[i])@,
                self.board@.len() == GAME_BLOCKS_Y,
                forall|i: int|
                    0 <= i < GAME_BLOCKS_Y ==> self.grid()[i] == (#[trigger] self.board@[i])@,
                y <= TETRO_BLOCKS,
                forall|r: int, c: int|
                    0 <= r < GAME_BLOCKS_Y && 0 <= c < GAME_BLOCKS_X && !covers(m, px, py, r, c)
                        ==> self.grid()[r][c] == g0[r][c],
                forall|yy: int, xx: int|
                    occupies(m, yy, xx) && yy < y ==> self.grid()[py + yy][px + xx] == piece.color,
            decreases TETRO_BLOCKS - y,
        {
            let mut x: usize = 0;
            while x < TETRO_BLOCKS
                invariant
                    self.wf(),
                    self.score == old(self).score,
                    self.running == old(self).running,
                    piece.wf(),
                    piece.in_bounds(),
                    m == piece.shape@,
                    px == piece.pos_x as int,
                    py == piece.pos_y as int,
                    piece.shape.rows@.len() == TETRO_BLOCKS,
                    forall|i: int|
                        0 <= i < TETRO_BLOCKS ==> m[i] == (#[trigger] piece.shape.rows@[i])@,
                    self.board@.len() == GAME_BLOCKS_Y,
                    forall|i: int|
                        0 <= i < GAME_BLOCKS_Y ==> self.grid()[i] == (#[trigger] self.board@[i])@,
                    y < TETRO_BLOCKS,
                    x <= TETRO_BLOCKS,
                    forall|r: int, c: int|
                        0 <= r < GAME_BLOCKS_Y && 0 <= c < GAME_BLOCKS_X && !covers(
                            m,
                            px,
                            py,
                            r,
                            c,
                        ) ==> self.grid()[r][c] == g0[r][c],
                    forall|yy: int, xx: int|
                        occupies(m, yy, xx) && (yy < y || (yy == y && xx < x)) ==> self.grid()[py
                            + yy][px + xx] == piece.color,
                decreases TETRO_BLOCKS - x,
            {
                if piece.shape.rows[y][x] {
                    proof {
                        assert(occupies(m, y as int, x as int));
                    }
                    let row = (piece.pos_y + y as i32) as usize;
                    let col = (piece.pos_x + x as i32) as usize;
                    self.board[row][col] = piece.color;
                    proof {
                        assert(covers(m, px, py, row as int, col as int));
                    }
                }
                x = x + 1;
            }
            y = y + 1;
        }
        proof {
            let locked = lock_spec(g0, m, px, py, piece.color);
            assert forall|r: int| 0 <= r < GAME_BLOCKS_Y implies self.grid()[r] =~= locked[r] by {
                assert forall|c: int|
                    0 <= c < GAME_BLOCKS_X implies self.grid()[r][c] == locked[r][c] by {
                    if covers(m, px, py, r, c) {
                        let (yy, xx) = choose|yy: int, xx: int|
                            occupies(m, yy, xx) && py + yy == r && px + xx == c;
                        assert(self.grid()[py + yy][px + xx] == piece.color);
                    }
                }
            }
            assert(self.grid() =~= locked);
        }
    }
}

} // verus!
