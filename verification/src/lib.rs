//! Game logic of a sudoku player: decoding of the bundled puzzle records,
//! the board state with pencil-mark candidates, and the game rules that
//! count mistakes and decide when a game is won or lost.

pub mod application;
pub mod game;
pub mod new_game;
pub mod puzzle;
pub mod widget;
