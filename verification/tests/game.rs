use icedoku::game::{Game, Status, MAX_MISTAKES};
use icedoku::puzzle::{decode_puzzle, Difficulty, Puzzle};
use icedoku::widget::puzzle_grid::{Action, CellValue};

const RECORD_A: [u8; 43] = [
    60, 185, 30, 134, 116, 101, 152, 208, 11, 222, 87, 158, 78, 190, 71, 159, 172, 130, 152, 50, 193, 38,
    121, 175, 160, 224, 113, 152, 116, 84, 217, 242, 42, 73, 146, 36, 73, 146, 36, 73, 146, 36, 9,
];

fn puzzle() -> Puzzle {
    decode_puzzle(&RECORD_A, Difficulty::Intermediate)
}

fn enter(game: &mut Game, row: usize, column: usize, digit: u8) {
    game.perform(Action::SelectCell { row, column });
    game.perform(Action::EnterDigit(digit));
}

#[test]
fn new_game_starts_playing() {
    let game = Game::new(puzzle());
    assert_eq!(game.status(), Status::Playing);
    assert_eq!(game.mistakes(), 0);
    assert_eq!(game.difficulty(), Difficulty::Intermediate);
    assert_eq!(game.solution(), &puzzle().solution);
    assert_eq!(game.grid().cell(0, 0), CellValue::Clue(5));
    assert_eq!(game.grid().selected_cell(), None);
}

#[test]
fn wrong_digits_count_as_mistakes_and_lose_the_game() {
    let mut game = Game::new(puzzle());
    // (0, 1) solves to 3
    enter(&mut game, 0, 1, 4);
    assert_eq!(game.mistakes(), 1);
    assert_eq!(game.status(), Status::Playing);
    // the same wrong digit again is no new edit
    game.perform(Action::EnterDigit(4));
    assert_eq!(game.mistakes(), 1);
    enter(&mut game, 0, 1, 5);
    assert_eq!(game.mistakes(), 2);
    assert_eq!(game.status(), Status::Playing);
    enter(&mut game, 0, 2, 9);
    assert_eq!(game.mistakes(), MAX_MISTAKES);
    assert_eq!(game.status(), Status::Lost);
    // nothing changes once the game is over
    enter(&mut game, 0, 2, 4);
    assert_eq!(game.grid().cell(0, 2), CellValue::Entry(9));
    assert_eq!(game.mistakes(), MAX_MISTAKES);
    assert_eq!(game.status(), Status::Lost);
}

#[test]
fn right_digits_and_clears_are_no_mistakes() {
    let mut game = Game::new(puzzle());
    enter(&mut game, 0, 1, 3);
    assert_eq!(game.mistakes(), 0);
    game.perform(Action::ClearCell);
    assert_eq!(game.mistakes(), 0);
    game.perform(Action::ToggleNotes);
    game.perform(Action::EnterDigit(8));
    assert_eq!(game.mistakes(), 0);
    assert_eq!(game.status(), Status::Playing);
}

#[test]
fn completing_the_solution_wins() {
    let solution = puzzle().solution;
    let mut game = Game::new(puzzle());
    for row in 0..9 {
        for column in 0..9 {
            assert_eq!(game.status(), Status::Playing);
            enter(&mut game, row, column, solution[row][column]);
        }
    }
    assert_eq!(game.status(), Status::Won);
    assert_eq!(game.mistakes(), 0);
    game.perform(Action::ClearCell);
    assert_eq!(game.grid().cell(8, 8), CellValue::Entry(solution[8][8]));
    assert_eq!(game.status(), Status::Won);
}

#[test]
fn correcting_a_mistake_can_still_win() {
    let solution = puzzle().solution;
    let mut game = Game::new(puzzle());
    enter(&mut game, 0, 1, 9);
    assert_eq!(game.mistakes(), 1);
    for row in 0..9 {
        for column in 0..9 {
            enter(&mut game, row, column, solution[row][column]);
        }
    }
    assert_eq!(game.status(), Status::Won);
    assert_eq!(game.mistakes(), 1);
}

#[test]
fn restart_returns_to_a_new_game() {
    let mut game = Game::new(puzzle());
    enter(&mut game, 0, 1, 4);
    enter(&mut game, 0, 4, 4);
    enter(&mut game, 0, 5, 4);
    assert_eq!(game.status(), Status::Lost);
    game.restart();
    assert_eq!(game.status(), Status::Playing);
    assert_eq!(game.mistakes(), 0);
    assert_eq!(game.grid().cell(0, 1), CellValue::Empty);
    assert_eq!(game.grid().selected_cell(), None);
    assert!(!game.grid().notes_enabled());
    assert_eq!(game.difficulty(), Difficulty::Intermediate);
}
