use vstd::prelude::*;
use crate::block::BlockType;
use crate::board::{
    clear_from, lock_spec, GameBoard, GAME_BLOCKS_X, GAME_BLOCKS_Y, POINTS_PER_ROW,
};
use crate::collision::{blocked, cell_blocked, is_blocked};
use crate::piece::{generate_tetromino, spawned, Tetromino};
use crate::shape::{occupies, rotate_spec, rotate_tetromino, TETRO_BLOCKS};

verus! {

/// The five discrete requests a player (or the gravity tick) can make.
#[derive(Clone, Copy, PartialEq, Eq, Structural, Debug)]
pub enum TetrominoAction {
    RotateLeft,
    RotateRight,
    MoveLeft,
    MoveRight,
    MoveDown,
}

impl TetrominoAction {
    /// The signed magnitude of an action: the turn direction of a rotation,
    /// the column step of a side move, the row step of a drop.
    pub open spec fn value_of(self) -> int {
        match self {
            TetrominoAction::RotateLeft => -1,
            TetrominoAction::RotateRight => 1,
            TetrominoAction::MoveLeft => -1,
            TetrominoAction::MoveRight => 1,
            TetrominoAction::MoveDown => 1,
        }
    }

    /// The signed magnitude, as executable code.
    pub fn get_value(self) -> (v: i32)
        ensures
            v as int == self.value_of(),
    {
        match self {
            TetrominoAction::RotateLeft => -1,
            TetrominoAction::RotateRight => 1,
            TetrominoAction::MoveLeft => -1,
            TetrominoAction::MoveRight => 1,
            TetrominoAction::MoveDown => 1,
        }
    }
}

/// The matrix a rotation request leaves on the piece: the turned matrix when
/// it fits at the piece's current position, the old matrix otherwise.
pub open spec fn rotate_outcome(t: Tetromino, direction: int, g: Seq<Seq<BlockType>>) -> Seq<
    Seq<bool>,
> {
    if blocked(rotate_spec(t.shape@, direction), t.pos_x as int, t.pos_y as int, 0, 0, g) {
        t.shape@
    } else {
        rotate_spec(t.shape@, direction)
    }
}

/// The anchor column a side-move request leaves on the piece: stepped when the
/// move fits, unchanged otherwise.
pub open spec fn side_move_outcome(t: Tetromino, step: int, g: Seq<Seq<BlockType>>) -> int {
    if blocked(t.shape@, t.pos_x as int, t.pos_y as int, step, 0, g) {
        t.pos_x as int
    } else {
        t.pos_x + step
    }
}

/// How one action transforms the session: the relation between the piece and
/// board before (`p`, `b0`) and after (`t`, `b1`). Only a blocked MoveDown
/// ever changes the board: it locks the piece, clears completed rows with
/// scoring, spawns a fresh piece, and stops the session if the fresh piece is
/// already blocked where it spawns.
pub open spec fn action_post(
    p: Tetromino,
    action: TetrominoAction,
    b0: GameBoard,
    t: Tetromino,
    b1: GameBoard,
) -> bool {
    match action {
        TetrominoAction::RotateLeft | TetrominoAction::RotateRight => {
            &&& b1 == b0
            &&& t.pos_x == p.pos_x
            &&& t.pos_y == p.pos_y
            &&& t.color == p.color
            &&& t.shape@ == rotate_outcome(p, action.value_of(), b0.grid())
        },
        TetrominoAction::MoveLeft | TetrominoAction::MoveRight => {
            &&& b1 == b0
            &&& t.shape == p.shape
            &&& t.pos_y == p.pos_y
            &&& t.color == p.color
            &&& t.pos_x == side_move_outcome(p, action.value_of(), b0.grid())
        },
        TetrominoAction::MoveDown => {
            if !blocked(p.shape@, p.pos_x as int, p.pos_y as int, 0, 1, b0.grid()) {
                &&& b1 == b0
                &&& t.shape == p.shape
                &&& t.pos_x == p.pos_x
                &&& t.color == p.color
                &&& t.pos_y == p.pos_y + 1
            } else {
                let locked = lock_spec(
                    b0.grid(),
                    p.shape@,
                    p.pos_x as int,
                    p.pos_y as int,
                    p.color,
                );
                let outcome = clear_from(locked, GAME_BLOCKS_Y - 1);
                &&& b1.grid() == outcome.0
                &&& b1.score == b0.score + POINTS_PER_ROW * outcome.1
                &&& spawned(t)
                &&& b1.running == (b0.running && !blocked(
                    t.shape@,
                    t.pos_x as int,
                    t.pos_y as int,
                    0,
                    0,
                    outcome.0,
                ))
            }
        },
    }
}

/// A playable piece that sits on the board keeps its anchor within a narrow
/// band around the grid.
proof fn lemma_piece_pos_bounds(t: Tetromino)
    requires
        t.wf(),
        t.in_bounds(),
    ensures
        -(TETRO_BLOCKS as int) < t.pos_x < GAME_BLOCKS_X,
        0 <= t.pos_y < GAME_BLOCKS_Y,
{
    let (y, x) = choose|y: int, x: int| occupies(t.shape@, y, x);
    assert(0 <= t.pos_x + x < GAME_BLOCKS_X && t.pos_y + y < GAME_BLOCKS_Y);
}

/// Performs one action on the session. Rotations and side moves are validated
/// against the collision detector and rejected without any change when
/// blocked; a free MoveDown drops the piece one row; a blocked MoveDown locks
/// the piece into the board, clears completed rows with scoring, and replaces
/// the piece by a fresh spawn, stopping the session if the spawn is already
/// blocked. No action other than that lock step mutates the board.
pub fn tetromino_action(
    tetromino: Tetromino,
    action: TetrominoAction,
    game_board: &mut GameBoard,
) -> (t: Tetromino)
    requires
        old(game_board).wf(),
        tetromino.wf(),
        tetromino.in_bounds(),
        old(game_board).score + POINTS_PER_ROW * GAME_BLOCKS_Y <= u64::MAX,
    ensures
        final(game_board).wf(),
        t.wf(),
        t.in_bounds(),
        final(game_board).score >= old(game_board).score,
        action_post(tetromino, action, *old(game_board), t, *final(game_board)),
{
    let ghost g0 = old(game_board).grid();
    proof {
        lemma_piece_pos_bounds(tetromino);
    }
    match action {
        TetrominoAction::RotateLeft | TetrominoAction::RotateRight => {
            let new_shape = rotate_tetromino(&tetromino.shape, action.get_value());
            if is_blocked(&new_shape, tetromino.pos_x, tetromino.pos_y, 0, 0, game_board) {
                tetromino
            } else {
                let ghost m1 = new_shape@;
                let turned = Tetromino {
                    pos_x: tetromino.pos_x,
                    pos_y: tetromino.pos_y,
                    shape: new_shape,
                    color: tetromino.color,
                };
                proof {
                    let px = tetromino.pos_x as int;
                    let py = tetromino.pos_y as int;
                    let (y0, x0) = choose|y: int, x: int| occupies(tetromino.shape@, y, x);
                    if action.value_of() == 1 {
                        assert(occupies(turned.shape@, x0, TETRO_BLOCKS - 1 - y0));
                    } else {
                        assert(occupies(turned.shape@, TETRO_BLOCKS - 1 - x0, y0));
                    }
                    assert forall|y: int, x: int| occupies(turned.shape@, y, x) implies 0 <= px + x
                        < GAME_BLOCKS_X && py + y < GAME_BLOCKS_Y by {
                        if !(0 <= px + x < GAME_BLOCKS_X && py + y < GAME_BLOCKS_Y) {
                            assert(cell_blocked(g0, px + x + 0, py + y + 0));
                            assert(blocked(m1, px, py, 0, 0, g0));
                        }
                    }
                    assert(turned.wf());
                    assert(turned.in_bounds());
                }
                turned
            }
        },
        TetrominoAction::MoveLeft | TetrominoAction::MoveRight => {
            let step = action.get_value();
            if is_blocked(&tetromino.shape, tetromino.pos_x, tetromino.pos_y, step, 0, game_board) {
                tetromino
            } else {
                proof {
                    let px = tetromino.pos_x as int;
                    let py = tetromino.pos_y as int;
                    let s = step as int;
                    assert forall|y: int, x: int| occupies(tetromino.shape@, y, x) implies 0 <= px
                        + s + x < GAME_BLOCKS_X && py + y < GAME_BLOCKS_Y by {
                        if !(0 <= px + s + x < GAME_BLOCKS_X) {
                            assert(cell_blocked(g0, px + x + s, py + y + 0));
                            assert(blocked(tetromino.shape@, px, py, s, 0, g0));
                        }
                    }
                }
                let moved = Tetromino {
                    pos_x: tetromino.pos_x + step,
                    pos_y: tetromino.pos_y,
                    shape: tetromino.shape,
                    color: tetromino.color,
                };
                proof {
                    let (y0, x0) = choose|y: int, x: int| occupies(tetromino.shape@, y, x);
                    assert(occupies(moved.shape@, y0, x0));
                    assert(moved.wf());
                    assert(moved.in_bounds());
                }
                moved
            }
        },
        TetrominoAction::MoveDown => {
            if is_blocked(&tetromino.shape, tetromino.pos_x, tetromino.pos_y, 0, 1, game_board) {
                game_board.lock(&tetromino);
                game_board.clear_completed_rows();
                let fresh = generate_tetromino();
                if is_blocked(&fresh.shape, fresh.pos_x, fresh.pos_y, 0, 0, game_board) {
                    game_board.running = false;
                }
                fresh
            } else {
                proof {
                    let px = tetromino.pos_x as int;
                    let py = tetromino.pos_y as int;
                    assert forall|y: int, x: int| occupies(tetromino.shape@, y, x) implies 0 <= px
                        + x < GAME_BLOCKS_X && py + 1 + y < GAME_BLOCKS_Y by {
                        if !(py + 1 + y < GAME_BLOCKS_Y) {
                            assert(cell_blocked(g0, px + x + 0, py + y + 1));
                            assert(blocked(tetromino.shape@, px, py, 0, 1, g0));
                        }
                    }
                }
                let dropped = Tetromino {
                    pos_x: tetromino.pos_x,
                    pos_y: tetromino.pos_y + 1,
                    shape: tetromino.shape,
                    color: tetromino.color,
                };
                proof {
                    let (y0, x0) = choose|y: int, x: int| occupies(tetromino.shape@, y, x);
                    assert(occupies(dropped.shape@, y0, x0));
                    assert(dropped.wf());
                    assert(dropped.in_bounds());
                }
                dropped
            }
        },
    }
}

} // verus!
