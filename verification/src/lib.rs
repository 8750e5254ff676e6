//! The simulation engine of a falling-block puzzle game: a fixed 10 x 20
//! grid of locked cells, five catalog piece shapes on a 3 x 3 occupancy
//! matrix, quarter-turn rotation, collision detection against bounds and
//! locked cells, piece locking, bottom-up row clearing with scoring, and a
//! randomized spawner. Every operation carries a contract; rendering and
//! input polling live outside the crate and only read the state exposed here.

pub mod action;
pub mod block;
pub mod board;
pub mod collision;
pub mod piece;
pub mod shape;
