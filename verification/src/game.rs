use vstd::prelude::*;

use crate::puzzle::{Difficulty, GRID_DIMENSION, Puzzle};
use crate::widget::puzzle_grid::{self, Action, CellEdit, CellValue, StateView, initial_view};

verus! {

/// The number of wrong digits that ends a game.
pub const MAX_MISTAKES: u8 = 3;

/// A game: a puzzle, the board being filled in, the wrong digits entered
/// so far and whether the game goes on.
#[derive(Debug)]
pub struct Game {
    puzzle: Puzzle,
    grid: puzzle_grid::State,
    mistakes: u8,
    status: Status,
}

/// Whether a game goes on, was won or was lost.
#[derive(Debug, Clone, Copy, PartialEq, Eq, Structural)]
pub enum Status {
    Playing,
    Won,
    Lost,
}

/// A game as the player sees it.
pub struct GameView {
    pub puzzle: Puzzle,
    pub grid: StateView,
    pub mistakes: u8,
    pub status: Status,
}

impl View for Game {
    type V = GameView;

    closed spec fn view(&self) -> GameView {
        GameView { puzzle: self.puzzle, grid: self.grid@, mistakes: self.mistakes, status: self.status }
    }
}

/// The square holds what the puzzle gives it, when the puzzle gives it a
/// digit, and is no given square otherwise.
pub open spec fn agrees_with_clue(cell: CellValue, clue: Option<u8>) -> bool {
    match clue {
        Some(value) => cell == CellValue::Clue(value),
        None => !(cell is Clue),
    }
}

impl GameView {
    /// A new game of a puzzle: the puzzle's starting board, no mistakes, playing.
    pub open spec fn initial(puzzle: Puzzle) -> GameView {
        GameView { puzzle, grid: initial_view(puzzle), mistakes: 0, status: Status::Playing }
    }

    /// What holds of every game: at most [`MAX_MISTAKES`] mistakes, lost
    /// exactly when that many were made, won only with the solution on the
    /// board, and the squares that the puzzle gives untouched.
    pub open spec fn holds_rules(self) -> bool {
        &&& self.grid.wf()
        &&& self.mistakes <= MAX_MISTAKES
        &&& (self.status == Status::Lost) == (self.mistakes == MAX_MISTAKES)
        &&& self.status == Status::Won ==> self.grid.matches(self.puzzle.solution)
        &&& forall|row: int, column: int|
            0 <= row < 9 && 0 <= column < 9 ==> agrees_with_clue(
                #[trigger] self.grid.cells[row][column],
                self.puzzle.clues[row][column],
            )
    }

    /// What a player's action does to the game. Once the game is over
    /// nothing changes. Otherwise the board takes the action; a digit that
    /// differs from the solution counts as a mistake and loses the game at
    /// the last allowed one, and a right digit that completes the solution
    /// wins it.
    pub open spec fn after(self, action: Action) -> GameView {
        if self.status != Status::Playing {
            self
        } else {
            let (grid, edit) = self.grid.after(action);
            match edit {
                Some(CellEdit { row, column, digit: Some(digit) }) => {
                    if digit != self.puzzle.solution[row as int][column as int] {
                        let mistakes = (self.mistakes + 1) as u8;
                        GameView {
                            grid,
                            mistakes,
                            status: if mistakes == MAX_MISTAKES {
                                Status::Lost
                            } else {
                                self.status
                            },
                            ..self
                        }
                    } else if grid.matches(self.puzzle.solution) {
                        GameView { grid, status: Status::Won, ..self }
                    } else {
                        GameView { grid, ..self }
                    }
                },
                _ => GameView { grid, ..self },
            }
        }
    }
}

/// Law: every action keeps the rules of [`GameView::holds_rules`], and the
/// count of mistakes never goes down.
pub proof fn law_rules_kept(game: GameView, action: Action)
    requires
        game.holds_rules(),
    ensures
        game.after(action).holds_rules(),
        game.after(action).mistakes >= game.mistakes,
        game.after(action).puzzle == game.puzzle,
{
    puzzle_grid::law_clues_preserved(game.grid, action);
}

/// Law: once a game is won or lost, no action changes it.
pub proof fn law_game_over_is_final(game: GameView, action: Action)
    requires
        game.status != Status::Playing,
    ensures
        game.after(action) == game,
{
}

/// Law: a new game (and a game started over) has no mistakes, goes on,
/// shows exactly the puzzle's given digits as given squares with every
/// other square empty, has no pencil marks, no selection, and notes off.
pub proof fn law_initial_is_fresh(puzzle: Puzzle)
    ensures
        ({
            let game = GameView::initial(puzzle);
            &&& game.puzzle == puzzle
            &&& game.mistakes == 0
            &&& game.status == Status::Playing
            &&& game.grid.selected_cell is None
            &&& !game.grid.notes_enabled
            &&& forall|row: int, column: int|
                0 <= row < 9 && 0 <= column < 9 ==> {
                    &&& (#[trigger] game.grid.cells[row][column] is Clue) == (puzzle.clues[row][column] is Some)
                    &&& puzzle.clues[row][column] matches Some(v) ==> game.grid.cells[row][column]
                        == CellValue::Clue(v)
                    &&& puzzle.clues[row][column] is None ==> game.grid.cells[row][column] is Empty
                    &&& game.grid.candidates[row][column] == Set::<u8>::empty()
                }
        }),
{
}

/// Law: a new game keeps the rules, and so does a game started over.
pub proof fn law_initial_holds_rules(puzzle: Puzzle)
    ensures
        GameView::initial(puzzle).holds_rules(),
{
}

/// Law: a won game has the solution's digit in every square.
pub proof fn law_won_means_solved(game: GameView)
    requires
        game.holds_rules(),
        game.status == Status::Won,
    ensures
        forall|row: int, column: int|
            0 <= row < 9 && 0 <= column < 9 ==> match #[trigger] game.grid.cells[row][column] {
                CellValue::Clue(d) => d == game.puzzle.solution[row][column],
                CellValue::Entry(d) => d == game.puzzle.solution[row][column],
                CellValue::Empty => false,
            },
{
    puzzle_grid::law_matches_is_every_digit(game.grid, game.puzzle.solution);
}

/// Law: during play, an action adds a mistake exactly when it enters a
/// digit that differs from the solution's digit for that square, and
/// adds at most one; a right digit that leaves every square with the
/// solution's digit wins the game.
pub proof fn law_mistakes_and_win(game: GameView, action: Action)
    requires
        game.holds_rules(),
        game.status == Status::Playing,
    ensures
        ({
            let (board, edit) = game.grid.after(action);
            let next = game.after(action);
            let entered = (edit matches Some(e) && e.digit is Some);
            let wrong = edit matches Some(e) && e.digit matches Some(d) && d
                != game.puzzle.solution[e.row as int][e.column as int];
            &&& next.grid == board
            &&& next.puzzle == game.puzzle
            &&& next.mistakes == if wrong {
                game.mistakes + 1
            } else {
                game.mistakes as int
            }
            &&& (next.status == Status::Lost) == (wrong && game.mistakes + 1 == MAX_MISTAKES)
            &&& (!wrong && entered && (forall|row: int, column: int|
                0 <= row < 9 && 0 <= column < 9 ==> #[trigger] board.cells[row][column].spec_digit()
                    == Some(game.puzzle.solution[row][column]))) ==> next.status == Status::Won
            &&& next.status == Status::Won ==> entered && !wrong
        }),
{
}

impl Game {
    /// Every game keeps [`GameView::holds_rules`].
    pub open spec fn wf(&self) -> bool {
        self@.holds_rules()
    }

    /// A new game of a puzzle.
    pub fn new(puzzle: Puzzle) -> (game: Self)
        ensures
            game.wf(),
            game@ == GameView::initial(puzzle),
    {
        let grid = puzzle_grid::State::from(&puzzle);
        Self { puzzle, grid, mistakes: 0, status: Status::Playing }
    }

    /// Carries out a player's action, counting a wrong digit as a mistake
    /// and deciding whether the game is won or lost.
    pub fn perform(&mut self, action: Action)
        requires
            old(self).wf(),
        ensures
            final(self).wf(),
            final(self)@ == old(self)@.after(action),
    {
        if self.status != Status::Playing {
            return;
        }
        proof {
            puzzle_grid::law_clues_preserved(self.grid@, action);
        }
        let edit = match self.grid.perform(action) {
            Some(edit) => edit,
            None => {
                return;
            },
        };
        let digit = match edit.digit {
            Some(digit) => digit,
            None => {
                return;
            },
        };
        if digit != self.puzzle.solution[edit.row][edit.column] {
            self.mistakes = self.mistakes + 1;
            if self.mistakes == MAX_MISTAKES {
                self.status = Status::Lost;
            }
        } else if self.grid.matches_solution(&self.puzzle.solution) {
            self.status = Status::Won;
        }
    }

    /// Starts the same puzzle over.
    pub fn restart(&mut self)
        requires
            old(self).wf(),
        ensures
            final(self).wf(),
            final(self)@ == GameView::initial(old(self)@.puzzle),
    {
        self.grid = puzzle_grid::State::from(&self.puzzle);
        self.mistakes = 0;
        self.status = Status::Playing;
    }

    /// The level of the puzzle.
    pub fn difficulty(&self) -> (difficulty: Difficulty)
        ensures
            difficulty == self@.puzzle.difficulty,
    {
        self.puzzle.difficulty
    }

    /// The board.
    pub fn grid(&self) -> (grid: &puzzle_grid::State)
        ensures
            grid@ == self@.grid,
    {
        &self.grid
    }

    /// The solution of the puzzle.
    pub fn solution(&self) -> (solution: &[[u8; GRID_DIMENSION]; GRID_DIMENSION])
        ensures
            *solution == self@.puzzle.solution,
    {
        &self.puzzle.solution
    }

    /// The number of wrong digits entered.
    pub fn mistakes(&self) -> (mistakes: u8)
        ensures
            mistakes == self@.mistakes,
    {
        self.mistakes
    }

    /// Whether the game goes on, was won or was lost.
    pub fn status(&self) -> (status: Status)
        ensures
            status == self@.status,
    {
        self.status
    }
}

} // verus!
