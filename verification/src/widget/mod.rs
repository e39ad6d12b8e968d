pub mod puzzle_grid;
pub mod grid;
