use vstd::prelude::*;

use crate::game::{Game, GameView};
use crate::new_game::{self, NewGame};
use crate::puzzle::{
    Difficulty, Puzzle, difficulty_index, get_random_puzzle, puzzle_decodes_record, record_at,
    records_per_difficulty,
};
use crate::widget::puzzle_grid;

verus! {

/// The level of the first game.
pub const INITIAL_DIFFICULTY: Difficulty = Difficulty::Simple;

/// What the window shows: the game, or the dialog that starts a new one.
#[derive(Debug)]
pub enum Mode {
    Playing,
    CreatingNewGame(NewGame),
}

/// What the player asks of the application.
#[derive(Debug, Clone, Copy, PartialEq, Eq, Structural)]
pub enum Message {
    PuzzleGrid(puzzle_grid::Action),
    NewGame(new_game::Message),
    NewGameRequested,
    RetryRequested,
}

/// The application: the current game, the dialog if it is open, and the
/// encoded puzzle records that new games are drawn from.
#[derive(Debug)]
pub struct IceDoku {
    mode: Mode,
    game: Game,
    records: Vec<u8>,
}

/// `puzzle` was decoded from one of the records of level `difficulty`.
pub open spec fn drawn_from(puzzle: Puzzle, records: Seq<u8>, difficulty: Difficulty) -> bool {
    exists|index: int|
        difficulty_index(difficulty) * records_per_difficulty(records) <= index < (difficulty_index(
            difficulty,
        ) + 1) * records_per_difficulty(records) && puzzle_decodes_record(
            puzzle,
            record_at(records, index),
            difficulty,
        )
}

impl IceDoku {
    /// The current game.
    pub closed spec fn game_view(&self) -> GameView {
        self.game@
    }

    /// The level chosen in the new-game dialog, when it is open.
    pub closed spec fn dialog(&self) -> Option<Difficulty> {
        match self.mode {
            Mode::Playing => None,
            Mode::CreatingNewGame(dialog) => Some(dialog.chosen()),
        }
    }

    /// The encoded puzzle records.
    pub closed spec fn records(&self) -> Seq<u8> {
        self.records@
    }

    /// The records hold at least one puzzle of each level, and the game
    /// keeps its rules.
    pub closed spec fn wf(&self) -> bool {
        &&& records_per_difficulty(self.records@) >= 1
        &&& self.game.wf()
    }

    /// Starts with a game of [`INITIAL_DIFFICULTY`] drawn from `records`.
    pub fn new(records: Vec<u8>) -> (app: Self)
        requires
            records_per_difficulty(records@) >= 1,
        ensures
            app.wf(),
            app.records() == records@,
            app.dialog() == None::<Difficulty>,
            app.game_view().status == crate::game::Status::Playing,
            app.game_view().mistakes == 0,
            exists|puzzle: Puzzle|
                drawn_from(puzzle, records@, INITIAL_DIFFICULTY) && app.game_view()
                    == GameView::initial(puzzle),
    {
        let difficulty = INITIAL_DIFFICULTY;
        let puzzle = get_random_puzzle(records.as_slice(), difficulty);
        let game = Game::new(puzzle);
        Self { mode: Mode::Playing, game, records }
    }

    /// Handles the player's message. Board actions go to the game; a new
    /// game request opens the dialog on the current level; a retry starts
    /// the puzzle over; a dialog message is handled by the open dialog, and
    /// closes it on cancel or replaces the game on start.
    pub fn update(&mut self, message: Message)
        requires
            old(self).wf(),
        ensures
            final(self).wf(),
            final(self).records() == old(self).records(),
            match message {
                Message::PuzzleGrid(action) => {
                    &&& final(self).game_view() == old(self).game_view().after(action)
                    &&& final(self).dialog() == old(self).dialog()
                },
                Message::NewGameRequested => {
                    &&& final(self).game_view() == old(self).game_view()
                    &&& final(self).dialog() == Some(old(self).game_view().puzzle.difficulty)
                },
                Message::RetryRequested => {
                    &&& final(self).game_view() == GameView::initial(old(self).game_view().puzzle)
                    &&& final(self).dialog() == old(self).dialog()
                },
                Message::NewGame(dialog_message) => match old(self).dialog() {
                    None => final(self).game_view() == old(self).game_view() && final(self).dialog()
                        == None::<Difficulty>,
                    Some(chosen) => match dialog_message {
                        new_game::Message::DifficultySelected(difficulty) => {
                            &&& final(self).game_view() == old(self).game_view()
                            &&& final(self).dialog() == Some(difficulty)
                        },
                        new_game::Message::CancelRequested => {
                            &&& final(self).game_view() == old(self).game_view()
                            &&& final(self).dialog() == None::<Difficulty>
                        },
                        new_game::Message::StartRequested => {
                            &&& final(self).dialog() == None::<Difficulty>
                            &&& exists|puzzle: Puzzle|
                                drawn_from(puzzle, old(self).records(), chosen)
                                    && final(self).game_view() == GameView::initial(puzzle)
                        },
                    },
                },
            },
    {
        match message {
            Message::PuzzleGrid(action) => self.game.perform(action),
            Message::NewGameRequested => {
                self.mode = Mode::CreatingNewGame(NewGame::new(self.game.difficulty()));
            },
            Message::RetryRequested => {
                self.game.restart();
            },
            Message::NewGame(message) => {
                let action = match &mut self.mode {
                    Mode::CreatingNewGame(new_game) => new_game.update(message),
                    Mode::Playing => {
                        return;
                    },
                };
                match action {
                    None => {},
                    Some(new_game::Action::Close) => {
                        self.mode = Mode::Playing;
                    },
                    Some(new_game::Action::Start(difficulty)) => {
                        self.start_new_game(difficulty);
                        self.mode = Mode::Playing;
                    },
                }
            },
        }
    }

    /// Replaces the game by a new one of the given level.
    fn start_new_game(&mut self, difficulty: Difficulty)
        requires
            old(self).wf(),
        ensures
            final(self).wf(),
            final(self).records() == old(self).records(),
            final(self).dialog() == old(self).dialog(),
            exists|puzzle: Puzzle|
                drawn_from(puzzle, old(self).records(), difficulty) && final(self).game_view()
                    == GameView::initial(puzzle),
    {
        let puzzle = get_random_puzzle(self.records.as_slice(), difficulty);
        self.game = Game::new(puzzle);
    }

    /// Whether the new-game dialog is open, and the dialog.
    pub fn mode(&self) -> (mode: &Mode)
        ensures
            self.dialog() == match mode {
                Mode::Playing => None,
                Mode::CreatingNewGame(dialog) => Some(dialog.chosen()),
            },
    {
        &self.mode
    }

    /// The current game.
    pub fn game(&self) -> (game: &Game)
        requires
            self.wf(),
        ensures
            game@ == self.game_view(),
            game.wf(),
    {
        &self.game
    }
}

} // verus!
