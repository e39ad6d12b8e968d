use icedoku::application::{IceDoku, Message, Mode, INITIAL_DIFFICULTY};
use icedoku::game::Status;
use icedoku::new_game;
use icedoku::puzzle::Difficulty;
use icedoku::widget::puzzle_grid::{Action, CellValue};

const RECORD_A: [u8; 43] = [
    60, 185, 30, 134, 116, 101, 152, 208, 11, 222, 87, 158, 78, 190, 71, 159, 172, 130, 152, 50, 193, 38,
    121, 175, 160, 224, 113, 152, 116, 84, 217, 242, 42, 73, 146, 36, 73, 146, 36, 73, 146, 36, 9,
];
const RECORD_B: [u8; 43] = [
    12, 216, 248, 144, 180, 140, 74, 82, 57, 128, 4, 6, 122, 205, 67, 117, 204, 238, 248, 239, 109, 7, 217,
    52, 37, 101, 24, 36, 68, 244, 183, 36, 172, 170, 170, 170, 170, 170, 170, 170, 170, 170, 42,
];

fn app() -> IceDoku {
    let records: Vec<u8> = [RECORD_A, RECORD_A, RECORD_B, RECORD_A].iter().flatten().copied().collect();
    IceDoku::new(records)
}

fn is_playing(app: &IceDoku) -> bool {
    matches!(app.mode(), Mode::Playing)
}

#[test]
fn starts_with_a_simple_game() {
    let app = app();
    assert!(is_playing(&app));
    assert_eq!(INITIAL_DIFFICULTY, Difficulty::Simple);
    assert_eq!(app.game().difficulty(), Difficulty::Simple);
    assert_eq!(app.game().status(), Status::Playing);
    assert_eq!(app.game().solution()[0], [5, 3, 4, 6, 7, 8, 9, 1, 2]);
}

#[test]
fn board_messages_reach_the_game() {
    let mut app = app();
    app.update(Message::PuzzleGrid(Action::SelectCell { row: 0, column: 1 }));
    app.update(Message::PuzzleGrid(Action::EnterDigit(9)));
    assert_eq!(app.game().mistakes(), 1);
    app.update(Message::RetryRequested);
    assert_eq!(app.game().mistakes(), 0);
    assert_eq!(app.game().grid().cell(0, 1), CellValue::Empty);
}

#[test]
fn new_game_dialog_flow() {
    let mut app = app();
    // dialog messages without an open dialog are ignored
    app.update(Message::NewGame(new_game::Message::StartRequested));
    assert!(is_playing(&app));
    app.update(Message::NewGameRequested);
    match app.mode() {
        Mode::CreatingNewGame(dialog) => assert_eq!(dialog.difficulty(), Difficulty::Simple),
        Mode::Playing => panic!("dialog expected"),
    }
    app.update(Message::NewGame(new_game::Message::CancelRequested));
    assert!(is_playing(&app));
    assert_eq!(app.game().difficulty(), Difficulty::Simple);

    app.update(Message::NewGameRequested);
    app.update(Message::NewGame(new_game::Message::DifficultySelected(Difficulty::Intermediate)));
    match app.mode() {
        Mode::CreatingNewGame(dialog) => assert_eq!(dialog.difficulty(), Difficulty::Intermediate),
        Mode::Playing => panic!("dialog expected"),
    }
    app.update(Message::NewGame(new_game::Message::StartRequested));
    assert!(is_playing(&app));
    assert_eq!(app.game().difficulty(), Difficulty::Intermediate);
    // the third record is the only one of that level
    assert_eq!(app.game().solution()[0], [5, 7, 6, 4, 3, 2, 1, 9, 8]);
}
