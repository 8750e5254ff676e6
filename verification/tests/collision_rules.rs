use tetromino::block::BlockType;
use tetromino::board::GameBoard;
use tetromino::collision::is_blocked;
use tetromino::shape::{TetroShape, TetrominoType};

fn cross() -> TetroShape {
    TetroShape {
        rows: vec![
            vec![false, true, false],
            vec![true, true, true],
            vec![false, true, false],
        ],
    }
}

#[test]
fn free_space_does_not_block() {
    let board = GameBoard::new();
    let shape = TetrominoType::T.get_shape();
    assert!(!is_blocked(&shape, 4, 5, 0, 0, &board));
    assert!(!is_blocked(&shape, 4, 5, 1, 0, &board));
    assert!(!is_blocked(&shape, 4, 5, 0, 1, &board));
}

#[test]
fn side_bounds_block() {
    let board = GameBoard::new();
    let shape = cross();
    // The cross occupies columns 0..=2 of its matrix.
    assert!(!is_blocked(&shape, 0, 5, 0, 0, &board));
    assert!(is_blocked(&shape, 0, 5, -1, 0, &board));
    assert!(!is_blocked(&shape, 7, 5, 0, 0, &board));
    assert!(is_blocked(&shape, 7, 5, 1, 0, &board));
}

#[test]
fn bottom_bound_blocks_but_top_overhang_does_not() {
    let board = GameBoard::new();
    let shape = cross();
    // The cross occupies rows 0..=2 of its matrix: at pos_y == 17 it touches
    // the bottom row, so one more step down is blocked.
    assert!(!is_blocked(&shape, 4, 17, 0, 0, &board));
    assert!(is_blocked(&shape, 4, 17, 0, 1, &board));
    // Above the top, rows are never checked: a piece may overhang freely.
    assert!(!is_blocked(&shape, 4, -1, 0, 0, &board));
    assert!(!is_blocked(&shape, 4, -3, 0, 0, &board));
}

#[test]
fn locked_cells_block_only_where_occupied() {
    let mut board = GameBoard::new();
    board.board[6][4] = BlockType::Blue;
    let shape = cross();
    // At (3, 5) the cross's centre sits on (6, 4): blocked.
    assert!(is_blocked(&shape, 3, 5, 0, 0, &board));
    // Shifted one column left, only the cross's right arm reaches column 4,
    // in row 6: still blocked through that single cell.
    assert!(is_blocked(&shape, 2, 5, 0, 0, &board));
    // One more column left, no occupied cell touches (6, 4): free.
    assert!(!is_blocked(&shape, 1, 5, 0, 0, &board));
}

#[test]
fn blocking_ignores_unoccupied_matrix_cells() {
    // Two matrices with the same occupied cell and different unoccupied
    // layouts around it: blocking answers must agree everywhere it matters.
    let single_centre = TetroShape {
        rows: vec![
            vec![false, false, false],
            vec![false, true, false],
            vec![false, false, false],
        ],
    };
    let mut board = GameBoard::new();
    board.board[10][5] = BlockType::Green;
    // The centre lands on the locked cell: blocked.
    assert!(is_blocked(&single_centre, 4, 9, 0, 0, &board));
    // The matrix's corners overlap locked cells, but no occupied cell does.
    board.board[10][5] = BlockType::Empty;
    board.board[9][4] = BlockType::Blue;
    board.board[11][6] = BlockType::Blue;
    assert!(!is_blocked(&single_centre, 4, 9, 0, 0, &board));
}
