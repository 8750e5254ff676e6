use vstd::prelude::*;
use crate::block::BlockType;
use crate::board::{lemma_board_grid, GameBoard, GAME_BLOCKS_X, GAME_BLOCKS_Y};
use crate::shape::{lemma_shape_view, occupies, shape_wf, TetroShape, TETRO_BLOCKS};

verus! {

/// Whether the absolute board cell in column `cx`, row `cy` blocks an occupied
/// piece cell: outside a side bound, below the bottom, or already holding a
/// locked block. Rows above the top (`cy < 0`) never block, so a fresh piece
/// may overhang the top of the board without penalty.
pub open spec fn cell_blocked(g: Seq<Seq<BlockType>>, cx: int, cy: int) -> bool {
    ||| cx < 0
    ||| cx >= GAME_BLOCKS_X
    ||| cy >= GAME_BLOCKS_Y
    ||| (0 <= cy && g[cy][cx] != BlockType::Empty)
}

/// Whether placing matrix `m` anchored at (pos_x, pos_y) and then offsetting
/// it by (add_x, add_y) is illegal: some occupied cell would land outside a
/// side or bottom bound, or on a non-empty board cell.
pub open spec fn blocked(
    m: Seq<Seq<bool>>,
    pos_x: int,
    pos_y: int,
    add_x: int,
    add_y: int,
    g: Seq<Seq<BlockType>>,
) -> bool {
    exists|y: int, x: int|
        occupies(m, y, x) && cell_blocked(g, pos_x + x + add_x, pos_y + y + add_y)
}

/// Decides whether the piece matrix, offset by (add_x, add_y) from its anchor,
/// collides with a bound or a locked cell. Read-only: used both to validate a
/// requested move or rotation and to detect, at offset (0, 1), that a piece
/// must lock.
pub fn is_blocked(
    tetro_shape: &TetroShape,
    pos_x: i32,
    pos_y: i32,
    add_x: i32,
    add_y: i32,
    game_board: &GameBoard,
) -> (b: bool)
    requires
        shape_wf(tetro_shape@),
        game_board.wf(),
        i32::MIN <= pos_x + add_x,
        pos_x + add_x + TETRO_BLOCKS - 1 <= i32::MAX,
        i32::MIN <= pos_y + add_y,
        pos_y + add_y + TETRO_BLOCKS - 1 <= i32::MAX,
    ensures
        b == blocked(
            tetro_shape@,
            pos_x as int,
            pos_y as int,
            add_x as int,
            add_y as int,
            game_board.grid(),
        ),
{
    let ghost m = tetro_shape@;
    let ghost g = game_board.grid();
    proof {
        lemma_shape_view(tetro_shape);
        lemma_board_grid(game_board);
    }
    let mut y: usize = 0;
    while y < TETRO_BLOCKS
        invariant
            shape_wf(m),
            game_board.wf(),
            m == tetro_shape@,
            g == game_board.grid(),
            i32::MIN <= pos_x + add_x,
            pos_x + add_x + TETRO_BLOCKS - 1 <= i32::MAX,
            i32::MIN <= pos_y + add_y,
            pos_y + add_y + TETRO_BLOCKS - 1 <= i32::MAX,
            tetro_shape.rows@.len() == TETRO_BLOCKS,
            forall|i: int| 0 <= i < TETRO_BLOCKS ==> m[i] == (#[trigger] tetro_shape.rows@[i])@,
            game_board.board@.len() == GAME_BLOCKS_Y,
            forall|i: int|
                0 <= i < GAME_BLOCKS_Y ==> g[i] == (#[trigger] game_board.board@[i])@,
            y <= TETRO_BLOCKS,
            forall|yy: int, xx: int|
                occupies(m, yy, xx) && yy < y ==> !cell_blocked(
                    g,
                    pos_x + xx + add_x,
                    pos_y + yy + add_y,
                ),
        decreases TETRO_BLOCKS - y,
    {
        let mut x: usize = 0;
        while x < TETRO_BLOCKS
            invariant
                shape_wf(m),
                game_board.wf(),
                m == tetro_shape@,
                g == game_board.grid(),
                i32::MIN <= pos_x + add_x,
                pos_x + add_x + TETRO_BLOCKS - 1 <= i32::MAX,
                i32::MIN <= pos_y + add_y,
                pos_y + add_y + TETRO_BLOCKS - 1 <= i32::MAX,
                tetro_shape.rows@.len() == TETRO_BLOCKS,
                forall|i: int|
                    0 <= i < TETRO_BLOCKS ==> m[i] == (#[trigger] tetro_shape.rows@[i])@,
                game_board.board@.len() == GAME_BLOCKS_Y,
                forall|i: int|
                    0 <= i < GAME_BLOCKS_Y ==> g[i] == (#[trigger] game_board.board@[i])@,
                y < TETRO_BLOCKS,
                x <= TETRO_BLOCKS,
                forall|yy: int, xx: int|
                    occupies(m, yy, xx) && yy < y ==> !cell_blocked(
                        g,
                        pos_x + xx + add_x,
                        pos_y + yy + add_y,
                    ),
                forall|xx: int|
                    occupies(m, y as int, xx) && xx < x ==> !cell_blocked(
                        g,
                        pos_x + xx + add_x,
                        pos_y + y + add_y,
                    ),
            decreases TETRO_BLOCKS - x,
        {
            if tetro_shape.rows[y][x] {
                proof {
                    assert(occupies(m, y as int, x as int));
                }
                let new_x = pos_x + add_x + x as i32;
                let new_y = pos_y + add_y + y as i32;
                if new_x < 0 || new_x >= GAME_BLOCKS_X as i32 {
                    return true;
                }
                if new_y >= GAME_BLOCKS_Y as i32 {
                    return true;
                }
                if new_y >= 0 {
                    if game_board.board[new_y as usize][new_x as usize] != BlockType::Empty {
                        return true;
                    }
                }
            }
            x = x + 1;
        }
        y = y + 1;
    }
    false
}

/// Law: whether a placement is blocked depends only on which cells the matrix
/// occupies, never on the layout of its unoccupied cells.
pub proof fn lemma_blocked_depends_on_occupancy(
    m1: Seq<Seq<bool>>,
    m2: Seq<Seq<bool>>,
    pos_x: int,
    pos_y: int,
    add_x: int,
    add_y: int,
    g: Seq<Seq<BlockType>>,
)
    requires
        forall|y: int, x: int|
            #![trigger occupies(m1, y, x)]
            #![trigger occupies(m2, y, x)]
            occupies(m1, y, x) <==> occupies(m2, y, x),
    ensures
        blocked(m1, pos_x, pos_y, add_x, add_y, g) == blocked(m2, pos_x, pos_y, add_x, add_y, g),
{
    if blocked(m1, pos_x, pos_y, add_x, add_y, g) {
        let (y, x) = choose|y: int, x: int|
            occupies(m1, y, x) && cell_blocked(g, pos_x + x + add_x, pos_y + y + add_y);
        assert(occupies(m2, y, x));
        assert(blocked(m2, pos_x, pos_y, add_x, add_y, g));
    }
    if blocked(m2, pos_x, pos_y, add_x, add_y, g) {
        let (y, x) = choose|y: int, x: int|
            occupies(m2, y, x) && cell_blocked(g, pos_x + x + add_x, pos_y + y + add_y);
        assert(occupies(m1, y, x));
        assert(blocked(m1, pos_x, pos_y, add_x, add_y, g));
    }
}

} // verus!
