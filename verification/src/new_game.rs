use vstd::prelude::*;

use crate::puzzle::Difficulty;

verus! {

/// The dialog that starts a new game: the level chosen so far.
#[derive(Debug)]
pub struct NewGame {
    difficulty: Difficulty,
}

/// What the player does in the dialog.
#[derive(Debug, Clone, Copy, PartialEq, Eq, Structural)]
pub enum Message {
    DifficultySelected(Difficulty),
    CancelRequested,
    StartRequested,
}

/// What the dialog asks of the application.
#[derive(Debug, Clone, Copy, PartialEq, Eq, Structural)]
pub enum Action {
    Close,
    Start(Difficulty),
}

impl NewGame {
    /// The chosen level.
    pub closed spec fn chosen(&self) -> Difficulty {
        self.difficulty
    }

    /// The dialog, with `difficulty` chosen at first.
    pub fn new(difficulty: Difficulty) -> (dialog: Self)
        ensures
            dialog.chosen() == difficulty,
    {
        Self { difficulty }
    }

    /// Handles the player's message: choosing a level changes the choice
    /// and asks nothing; cancelling asks to close; starting asks for a game
    /// of the chosen level.
    pub fn update(&mut self, message: Message) -> (action: Option<Action>)
        ensures
            final(self).chosen() == match message {
                Message::DifficultySelected(difficulty) => difficulty,
                _ => old(self).chosen(),
            },
            action == match message {
                Message::DifficultySelected(_) => None,
                Message::CancelRequested => Some(Action::Close),
                Message::StartRequested => Some(Action::Start(old(self).chosen())),
            },
    {
        match message {
            Message::DifficultySelected(difficulty) => {
                self.difficulty = difficulty;
            },
            Message::CancelRequested => {
                return Some(Action::Close);
            },
            Message::StartRequested => {
                return Some(Action::Start(self.difficulty));
            },
        }
        None
    }

    /// The chosen level.
    pub fn difficulty(&self) -> (difficulty: Difficulty)
        ensures
            difficulty == self.chosen(),
    {
        self.difficulty
    }
}

} // verus!
