# icedoku

A sudoku player whose game logic is verified with Verus.

- `src/puzzle.rs`: the encoded puzzle records (43 bytes each: nine packed
  solution rows, then one "given" bit per square) and their decoding; random
  choice of a record of a level.
- `src/widget/puzzle_grid.rs`: the board (squares, pencil marks, selection,
  notes mode), the effect of each player action, key handling and the
  drawing decisions (highlights, digit styles).
- `src/widget/grid.rs`: a simpler board with selection only.
- `src/game.rs`: mistakes, winning and losing.
- `src/new_game.rs`, `src/application.rs`: the new-game dialog and the
  application state machine.
- `app/`: the iced window and widgets, which measure and paint in
  floating-point pixels and read the puzzle records from `data/sudokus.bin`
  (or the path given as first argument).
