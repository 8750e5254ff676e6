use tetromino::action::{tetromino_action, TetrominoAction};
use tetromino::block::BlockType;
use tetromino::board::{GameBoard, GAME_BLOCKS_X};
use tetromino::collision::is_blocked;
use tetromino::piece::Tetromino;
use tetromino::shape::{TetroShape, TetrominoType};

fn piece_at(pos_x: i32, pos_y: i32, t: TetrominoType, color: BlockType) -> Tetromino {
    Tetromino {
        pos_x,
        pos_y,
        shape: t.get_shape(),
        color,
    }
}

#[test]
fn action_values_match_their_directions() {
    assert_eq!(TetrominoAction::RotateLeft.get_value(), -1);
    assert_eq!(TetrominoAction::RotateRight.get_value(), 1);
    assert_eq!(TetrominoAction::MoveLeft.get_value(), -1);
    assert_eq!(TetrominoAction::MoveRight.get_value(), 1);
    assert_eq!(TetrominoAction::MoveDown.get_value(), 1);
}

#[test]
fn move_left_at_left_wall_is_rejected() {
    // The T occupies column 0 of its matrix, so at pos_x == 0 its leftmost
    // occupied column is board column 0: MoveLeft must leave it unchanged.
    let mut board = GameBoard::new();
    let piece = piece_at(0, 5, TetrominoType::T, BlockType::Blue);
    let after = tetromino_action(piece, TetrominoAction::MoveLeft, &mut board);
    assert_eq!(after.pos_x, 0);
    assert_eq!(after.pos_y, 5);
    assert_eq!(after.shape.rows, TetrominoType::T.get_shape().rows);
    assert_eq!(board.score, 0);
    assert!(board.board.iter().flatten().all(|c| *c == BlockType::Empty));
}

#[test]
fn move_left_in_open_space_steps_one_column() {
    let mut board = GameBoard::new();
    let piece = piece_at(4, 5, TetrominoType::T, BlockType::Blue);
    let after = tetromino_action(piece, TetrominoAction::MoveLeft, &mut board);
    assert_eq!(after.pos_x, 3);
    assert_eq!(after.pos_y, 5);
}

#[test]
fn move_right_at_right_wall_is_rejected() {
    // The L occupies columns 1 and 2 of its matrix; at pos_x == 7 its
    // rightmost occupied column is board column 9, the last one.
    let mut board = GameBoard::new();
    let piece = piece_at(7, 5, TetrominoType::L, BlockType::Green);
    let after = tetromino_action(piece, TetrominoAction::MoveRight, &mut board);
    assert_eq!(after.pos_x, 7);
}

#[test]
fn move_down_in_open_space_steps_one_row() {
    let mut board = GameBoard::new();
    let piece = piece_at(4, 0, TetrominoType::O, BlockType::Orange);
    let after = tetromino_action(piece, TetrominoAction::MoveDown, &mut board);
    assert_eq!(after.pos_y, 1);
    assert_eq!(after.pos_x, 4);
    assert_eq!(board.score, 0);
}

#[test]
fn rotation_blocked_by_locked_cells_is_rejected() {
    // The I stands in a one-cell-wide well: turning it flat would land on
    // locked cells, so the rotation must leave the shape unchanged.
    let mut board = GameBoard::new();
    for x in 0..GAME_BLOCKS_X {
        if x != 4 {
            board.board[16][x] = BlockType::Blue;
        }
    }
    let piece = piece_at(3, 15, TetrominoType::I, BlockType::Green);
    let after = tetromino_action(piece, TetrominoAction::RotateRight, &mut board);
    assert_eq!(after.shape.rows, TetrominoType::I.get_shape().rows);
    assert_eq!(after.pos_x, 3);
    assert_eq!(after.pos_y, 15);
}

#[test]
fn rotation_in_open_space_turns_the_matrix() {
    let mut board = GameBoard::new();
    let piece = piece_at(4, 5, TetrominoType::T, BlockType::Blue);
    let after = tetromino_action(piece, TetrominoAction::RotateRight, &mut board);
    let expected = vec![
        vec![true, false, false],
        vec![true, true, false],
        vec![true, false, false],
    ];
    assert_eq!(after.shape.rows, expected);
    assert_eq!(after.pos_x, 4);
    assert_eq!(after.pos_y, 5);
}

#[test]
fn blocked_move_down_locks_clears_and_spawns() {
    // Row 19 full except column 0, and a single-cell piece right above that
    // hole: the gravity step locks it, exactly one row clears for ten points,
    // and a fresh piece appears at the spawn position.
    let mut board = GameBoard::new();
    for x in 1..GAME_BLOCKS_X {
        board.board[19][x] = BlockType::Blue;
    }
    board.board[18][6] = BlockType::Orange;
    let piece = Tetromino {
        pos_x: 0,
        pos_y: 17,
        shape: TetroShape {
            rows: vec![
                vec![false, false, false],
                vec![false, false, false],
                vec![true, false, false],
            ],
        },
        color: BlockType::Green,
    };
    let fresh = tetromino_action(piece, TetrominoAction::MoveDown, &mut board);
    assert_eq!(board.score, 10);
    for x in 0..GAME_BLOCKS_X {
        let expected = if x == 6 { BlockType::Orange } else { BlockType::Empty };
        assert_eq!(board.board[19][x], expected);
    }
    assert_eq!(fresh.pos_x, (GAME_BLOCKS_X as i32) / 3);
    assert_eq!(fresh.pos_y, 0);
    assert!(board.running);
}

#[test]
fn blocked_move_down_without_full_row_only_locks() {
    let mut board = GameBoard::new();
    let piece = piece_at(4, 17, TetrominoType::O, BlockType::Blue);
    // The O occupies the bottom-right 2x2 of its matrix: rows 18 and 19.
    let _fresh = tetromino_action(piece, TetrominoAction::MoveDown, &mut board);
    assert_eq!(board.score, 0);
    assert_eq!(board.board[18][5], BlockType::Blue);
    assert_eq!(board.board[18][6], BlockType::Blue);
    assert_eq!(board.board[19][5], BlockType::Blue);
    assert_eq!(board.board[19][6], BlockType::Blue);
    assert!(board.running);
}

#[test]
fn session_stops_when_the_spawn_cell_is_occupied() {
    // Every catalog shape occupies the centre of its matrix, which a spawn
    // places at board cell (1, 4): with that cell locked, whatever piece
    // spawns after the next lock is immediately blocked.
    let mut board = GameBoard::new();
    board.board[1][4] = BlockType::Orange;
    let piece = piece_at(7, 17, TetrominoType::O, BlockType::Blue);
    let fresh = tetromino_action(piece, TetrominoAction::MoveDown, &mut board);
    assert!(!board.running);
    assert!(is_blocked(&fresh.shape, fresh.pos_x, fresh.pos_y, 0, 0, &board));
}
