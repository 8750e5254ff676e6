use vstd::prelude::*;
use crate::block::BlockType;
use crate::board::{GAME_BLOCKS_X, GAME_BLOCKS_Y};
use crate::shape::{lemma_shape_matrix_wf, occupies, shape_wf, TetroShape, TetrominoType};

verus! {

/// The active, falling piece: an occupancy matrix, the board coordinates of
/// the matrix's top-left cell, and a colour.
pub struct Tetromino {
    pub pos_x: i32,
    pub pos_y: i32,
    pub shape: TetroShape,
    pub color: BlockType,
}

impl Tetromino {
    /// A playable piece: a square matrix that occupies at least one cell.
    /// Every catalog shape does; a matrix with no occupied cell would make
    /// every move legal and let the position run off without bound.
    pub open spec fn wf(self) -> bool {
        &&& shape_wf(self.shape@)
        &&& exists|y: int, x: int| occupies(self.shape@, y, x)
    }

    /// The piece sits legally over the grid: its anchor row is not above the
    /// top, and every occupied cell maps to a cell of the board. Maintained by
    /// every action and demanded by locking, which writes those cells.
    pub open spec fn in_bounds(self) -> bool {
        &&& self.pos_y >= 0
        &&& forall|y: int, x: int|
            occupies(self.shape@, y, x) ==> 0 <= self.pos_x + x < GAME_BLOCKS_X && self.pos_y + y
                < GAME_BLOCKS_Y
    }
}

/// What holds of every freshly spawned piece, whatever the random draws were:
/// it stands at the spawn position, with a catalog shape and a piece colour.
pub open spec fn spawned(t: Tetromino) -> bool {
    &&& t.pos_x == GAME_BLOCKS_X as int / 3
    &&& t.pos_y == 0
    &&& exists|n: int|
        0 <= n < 5 && t.shape@ == TetrominoType::tetro_type_of(n).shape_matrix()
    &&& exists|c: int| 0 <= c < 3 && t.color == BlockType::block_type_of(c)
}

/// Builds the piece that the draws `shape_id` and `color_id` select, at the
/// spawn position. Deterministic, so a caller (or a test) can supply the
/// indices itself instead of drawing them at random.
pub fn new_tetromino(shape_id: usize, color_id: usize) -> (t: Tetromino)
    ensures
        t.wf(),
        t.in_bounds(),
        t.pos_x == GAME_BLOCKS_X as int / 3,
        t.pos_y == 0,
        t.shape@ == TetrominoType::tetro_type_of(shape_id as int).shape_matrix(),
        t.color == BlockType::block_type_of(color_id as int),
{
    let tetro_shape = TetrominoType::get_tetro_type(shape_id).get_shape();
    let t = Tetromino {
        pos_x: (GAME_BLOCKS_X as i32) / 3,
        pos_y: 0,
        shape: tetro_shape,
        color: BlockType::get_block_type(color_id),
    };
    proof {
        lemma_shape_matrix_wf(TetrominoType::tetro_type_of(shape_id as int));
        assert(occupies(t.shape@, 1, 1));
    }
    t
}

/// Relies on `rand::random`: draws an arbitrary `u32` from the thread-local
/// generator. Nothing can be promised of the value.
#[verifier::external_body]
fn random_u32() -> u32 {
    rand::random()
}

/// Spawns a new piece at the spawn position, with shape and colour drawn
/// uniformly from the catalog's five shapes and three colours.
pub fn generate_tetromino() -> (t: Tetromino)
    ensures
        t.wf(),
        t.in_bounds(),
        spawned(t),
{
    let color_id = (random_u32() % 3) as usize;
    let shape_id = (random_u32() % 5) as usize;
    let t = new_tetromino(shape_id, color_id);
    proof {
        assert(0 <= shape_id < 5 && t.shape@ == TetrominoType::tetro_type_of(
            shape_id as int,
        ).shape_matrix());
        assert(0 <= color_id < 3 && t.color == BlockType::block_type_of(color_id as int));
    }
    t
}

} // verus!
