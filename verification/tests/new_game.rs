use icedoku::new_game::{Action, Message, NewGame};
use icedoku::puzzle::Difficulty;

#[test]
fn dialog_keeps_the_chosen_level() {
    let mut dialog = NewGame::new(Difficulty::Easy);
    assert_eq!(dialog.difficulty(), Difficulty::Easy);
    assert_eq!(dialog.update(Message::DifficultySelected(Difficulty::Expert)), None);
    assert_eq!(dialog.difficulty(), Difficulty::Expert);
    assert_eq!(dialog.update(Message::StartRequested), Some(Action::Start(Difficulty::Expert)));
    assert_eq!(dialog.difficulty(), Difficulty::Expert);
}

#[test]
fn dialog_cancel_and_start() {
    let mut dialog = NewGame::new(Difficulty::Simple);
    assert_eq!(dialog.update(Message::CancelRequested), Some(Action::Close));
    assert_eq!(dialog.difficulty(), Difficulty::Simple);
    assert_eq!(dialog.update(Message::StartRequested), Some(Action::Start(Difficulty::Simple)));
}
