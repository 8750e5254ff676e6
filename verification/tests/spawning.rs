use tetromino::block::BlockType;
use tetromino::piece::{generate_tetromino, new_tetromino};
use tetromino::shape::TetrominoType;

#[test]
fn new_tetromino_maps_indices_to_catalog_entries() {
    let t = new_tetromino(0, 0);
    assert_eq!(t.pos_x, 3);
    assert_eq!(t.pos_y, 0);
    assert_eq!(t.shape.rows, TetrominoType::T.get_shape().rows);
    assert_eq!(t.color, BlockType::Blue);

    let l = new_tetromino(1, 1);
    assert_eq!(l.shape.rows, TetrominoType::L.get_shape().rows);
    assert_eq!(l.color, BlockType::Green);

    let s = new_tetromino(2, 2);
    assert_eq!(s.shape.rows, TetrominoType::S.get_shape().rows);
    assert_eq!(s.color, BlockType::Orange);

    let o = new_tetromino(3, 0);
    assert_eq!(o.shape.rows, TetrominoType::O.get_shape().rows);

    let i = new_tetromino(4, 0);
    assert_eq!(i.shape.rows, TetrominoType::I.get_shape().rows);
}

#[test]
fn catalog_index_mapping() {
    assert!(matches!(TetrominoType::get_tetro_type(0), TetrominoType::T));
    assert!(matches!(TetrominoType::get_tetro_type(1), TetrominoType::L));
    assert!(matches!(TetrominoType::get_tetro_type(2), TetrominoType::S));
    assert!(matches!(TetrominoType::get_tetro_type(3), TetrominoType::O));
    assert!(matches!(TetrominoType::get_tetro_type(4), TetrominoType::I));
    assert!(matches!(TetrominoType::get_tetro_type(9), TetrominoType::I));
}

#[test]
fn colour_index_mapping() {
    assert_eq!(BlockType::get_block_type(0), BlockType::Blue);
    assert_eq!(BlockType::get_block_type(1), BlockType::Green);
    assert_eq!(BlockType::get_block_type(2), BlockType::Orange);
    assert_eq!(BlockType::get_block_type(3), BlockType::Empty);
}

#[test]
fn a_thousand_spawns_cover_all_shapes_and_colours_roughly_evenly() {
    let catalog = [
        TetrominoType::T.get_shape().rows,
        TetrominoType::L.get_shape().rows,
        TetrominoType::S.get_shape().rows,
        TetrominoType::O.get_shape().rows,
        TetrominoType::I.get_shape().rows,
    ];
    let mut shape_counts = [0usize; 5];
    let mut colour_counts = [0usize; 3];
    for _ in 0..1000 {
        let t = generate_tetromino();
        assert_eq!(t.pos_x, 3);
        assert_eq!(t.pos_y, 0);
        let shape_index = catalog
            .iter()
            .position(|rows| *rows == t.shape.rows)
            .expect("spawned shape is not in the catalog");
        shape_counts[shape_index] += 1;
        let colour_index = match t.color {
            BlockType::Blue => 0,
            BlockType::Green => 1,
            BlockType::Orange => 2,
            BlockType::Empty => panic!("spawned piece has no colour"),
        };
        colour_counts[colour_index] += 1;
    }
    // Uniform draws: about 200 per shape and 333 per colour; the bounds are
    // over six standard deviations wide.
    for count in shape_counts {
        assert!(count >= 120 && count <= 280, "shape counts: {:?}", shape_counts);
    }
    for count in colour_counts {
        assert!(count >= 240 && count <= 430, "colour counts: {:?}", colour_counts);
    }
}
