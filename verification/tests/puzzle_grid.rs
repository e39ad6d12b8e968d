use icedoku::puzzle::{decode_puzzle, Difficulty, Puzzle};
use icedoku::widget::puzzle_grid::{
    candidate_position, cell_highlight, digit_from_key, digit_style, is_box_line, is_notes_toggle_key,
    key_action, Action, CellEdit, CellValue, DigitStyle, Highlight, Key, KeyPress, Modifiers, PhysicalKey,
    PositionedCell, State,
};

const RECORD_A: [u8; 43] = [
    60, 185, 30, 134, 116, 101, 152, 208, 11, 222, 87, 158, 78, 190, 71, 159, 172, 130, 152, 50, 193, 38,
    121, 175, 160, 224, 113, 152, 116, 84, 217, 242, 42, 73, 146, 36, 73, 146, 36, 73, 146, 36, 9,
];

fn puzzle() -> Puzzle {
    // clues where (row * 9 + column) % 3 == 0; (0, 0) holds 5, (0, 1) is open and solves to 3
    decode_puzzle(&RECORD_A, Difficulty::Simple)
}

fn select(state: &mut State, row: usize, column: usize) {
    assert_eq!(state.perform(Action::SelectCell { row, column }), None);
}

#[test]
fn cell_value_queries() {
    assert_eq!(CellValue::Empty.digit(), None);
    assert_eq!(CellValue::Clue(4).digit(), Some(4));
    assert_eq!(CellValue::Entry(7).digit(), Some(7));
    assert!(CellValue::Clue(4).is_clue());
    assert!(!CellValue::Entry(4).is_clue());
    assert!(CellValue::Empty.is_empty());
    assert!(!CellValue::Entry(1).is_empty());
}

#[test]
fn state_from_puzzle_shows_clues() {
    let state = State::from(&puzzle());
    assert_eq!(state.cell(0, 0), CellValue::Clue(5));
    assert_eq!(state.cell(0, 1), CellValue::Empty);
    assert_eq!(state.cell(0, 3), CellValue::Clue(6));
    assert_eq!(state.selected_cell(), None);
    assert!(!state.notes_enabled());
    for digit in 0..=10 {
        assert!(!state.has_candidate(0, 1, digit));
    }
}

#[test]
fn selecting_inside_and_outside_the_board() {
    let mut state = State::from(&puzzle());
    select(&mut state, 2, 8);
    assert_eq!(state.selected_cell(), Some((2, 8)));
    assert_eq!(state.perform(Action::SelectCell { row: 9, column: 0 }), None);
    assert_eq!(state.selected_cell(), Some((2, 8)));
    assert_eq!(state.perform(Action::SelectCell { row: 0, column: 9 }), None);
    assert_eq!(state.selected_cell(), Some((2, 8)));
    assert_eq!(state.perform(Action::ClearSelection), None);
    assert_eq!(state.selected_cell(), None);
}

#[test]
fn entering_a_digit_reports_an_edit() {
    let mut state = State::from(&puzzle());
    assert_eq!(state.perform(Action::EnterDigit(3)), None);
    select(&mut state, 0, 1);
    assert_eq!(
        state.perform(Action::EnterDigit(3)),
        Some(CellEdit { row: 0, column: 1, digit: Some(3) })
    );
    assert_eq!(state.cell(0, 1), CellValue::Entry(3));
    // the same digit again changes nothing
    assert_eq!(state.perform(Action::EnterDigit(3)), None);
    assert_eq!(
        state.perform(Action::EnterDigit(8)),
        Some(CellEdit { row: 0, column: 1, digit: Some(8) })
    );
    assert_eq!(state.cell(0, 1), CellValue::Entry(8));
}

#[test]
fn digits_outside_one_to_nine_and_clues_are_refused() {
    let mut state = State::from(&puzzle());
    select(&mut state, 0, 1);
    assert_eq!(state.perform(Action::EnterDigit(0)), None);
    assert_eq!(state.perform(Action::EnterDigit(10)), None);
    assert_eq!(state.cell(0, 1), CellValue::Empty);
    select(&mut state, 0, 0);
    assert_eq!(state.perform(Action::EnterDigit(1)), None);
    assert_eq!(state.perform(Action::ClearCell), None);
    assert_eq!(state.cell(0, 0), CellValue::Clue(5));
}

#[test]
fn clearing_an_entry_reports_an_edit() {
    let mut state = State::from(&puzzle());
    select(&mut state, 4, 4);
    assert_eq!(state.cell(4, 4), CellValue::Empty);
    assert_eq!(state.perform(Action::ClearCell), None);
    state.perform(Action::EnterDigit(5));
    assert_eq!(state.perform(Action::ClearCell), Some(CellEdit { row: 4, column: 4, digit: None }));
    assert_eq!(state.cell(4, 4), CellValue::Empty);
    assert_eq!(state.perform(Action::ClearCell), None);
}

#[test]
fn clear_without_selection_does_nothing() {
    let mut state = State::from(&puzzle());
    assert_eq!(state.perform(Action::ClearCell), None);
}

#[test]
fn notes_toggle_candidates_of_empty_squares() {
    let mut state = State::from(&puzzle());
    assert_eq!(state.perform(Action::ToggleNotes), None);
    assert!(state.notes_enabled());
    select(&mut state, 0, 1);
    assert_eq!(state.perform(Action::EnterDigit(4)), None);
    assert_eq!(state.perform(Action::EnterDigit(9)), None);
    assert!(state.has_candidate(0, 1, 4));
    assert!(state.has_candidate(0, 1, 9));
    assert!(!state.has_candidate(0, 1, 5));
    assert_eq!(state.cell(0, 1), CellValue::Empty);
    // entering the same digit again takes the mark away
    state.perform(Action::EnterDigit(4));
    assert!(!state.has_candidate(0, 1, 4));
    // no marks for digits outside one to nine
    state.perform(Action::EnterDigit(0));
    state.perform(Action::EnterDigit(12));
    assert!(!state.has_candidate(0, 1, 0));
    assert!(!state.has_candidate(0, 1, 12));
    // no marks on a given square
    select(&mut state, 0, 0);
    state.perform(Action::EnterDigit(4));
    assert!(!state.has_candidate(0, 0, 4));
    state.perform(Action::ToggleNotes);
    assert!(!state.notes_enabled());
}

#[test]
fn entering_a_digit_clears_the_marks() {
    let mut state = State::from(&puzzle());
    select(&mut state, 0, 1);
    state.perform(Action::ToggleNotes);
    state.perform(Action::EnterDigit(2));
    state.perform(Action::ToggleNotes);
    assert!(state.has_candidate(0, 1, 2));
    state.perform(Action::EnterDigit(3));
    assert!(!state.has_candidate(0, 1, 2));
}

#[test]
fn clearing_an_empty_square_clears_the_marks() {
    let mut state = State::from(&puzzle());
    select(&mut state, 0, 1);
    state.perform(Action::ToggleNotes);
    state.perform(Action::EnterDigit(2));
    state.perform(Action::EnterDigit(6));
    assert_eq!(state.perform(Action::ClearCell), None);
    assert!(!state.has_candidate(0, 1, 2));
    assert!(!state.has_candidate(0, 1, 6));
}

#[test]
fn removing_a_candidate_from_peers() {
    let mut state = State::from(&puzzle());
    state.perform(Action::ToggleNotes);
    for (row, column) in [(0, 1), (0, 8), (8, 1), (2, 2), (4, 4), (3, 2)] {
        select(&mut state, row, column);
        state.perform(Action::EnterDigit(7));
        state.perform(Action::EnterDigit(2));
    }
    state.remove_candidate_from_peers(1, 1, 7);
    // same row as (1, 1)? none; same column: (0, 1), (8, 1); same box: (2, 2)
    assert!(!state.has_candidate(0, 1, 7));
    assert!(!state.has_candidate(8, 1, 7));
    assert!(!state.has_candidate(2, 2, 7));
    assert!(state.has_candidate(0, 8, 7));
    assert!(state.has_candidate(4, 4, 7));
    assert!(state.has_candidate(3, 2, 7));
    for (row, column) in [(0, 1), (0, 8), (8, 1), (2, 2), (4, 4), (3, 2)] {
        assert!(state.has_candidate(row, column, 2));
    }
    state.remove_candidate_from_peers(0, 5, 2);
    assert!(!state.has_candidate(0, 1, 2));
    assert!(!state.has_candidate(0, 8, 2));
    assert!(state.has_candidate(4, 4, 2));
}

#[test]
fn matching_the_solution() {
    let puzzle = puzzle();
    let mut state = State::from(&puzzle);
    assert!(!state.matches_solution(&puzzle.solution));
    for row in 0..9 {
        for column in 0..9 {
            select(&mut state, row, column);
            state.perform(Action::EnterDigit(puzzle.solution[row][column]));
        }
    }
    assert!(state.matches_solution(&puzzle.solution));
    select(&mut state, 8, 8);
    state.perform(Action::ClearCell);
    assert!(!state.matches_solution(&puzzle.solution));
}

fn cell(row: usize, column: usize, value: CellValue) -> PositionedCell {
    PositionedCell { row, column, value }
}

#[test]
fn positioned_cell_queries() {
    let a = cell(1, 2, CellValue::Entry(4));
    assert_eq!(a.digit(), Some(4));
    assert!(!a.is_clue());
    assert!(!a.is_empty());
    assert!(a.has_same_position(&cell(1, 2, CellValue::Empty)));
    assert!(!a.has_same_position(&cell(2, 1, CellValue::Empty)));
    assert!(a.is_peer_of(&cell(1, 8, CellValue::Empty)));
    assert!(a.is_peer_of(&cell(7, 2, CellValue::Empty)));
    assert!(a.is_peer_of(&cell(0, 0, CellValue::Empty)));
    assert!(!a.is_peer_of(&cell(3, 3, CellValue::Empty)));
    assert!(!a.is_peer_of(&cell(0, 3, CellValue::Empty)));
}

#[test]
fn highlights() {
    let selected = cell(4, 4, CellValue::Entry(6));
    assert_eq!(cell_highlight(&cell(0, 0, CellValue::Clue(6)), None), None);
    assert_eq!(cell_highlight(&cell(4, 4, CellValue::Entry(6)), Some(&selected)), Some(Highlight::Selected));
    assert_eq!(cell_highlight(&cell(0, 0, CellValue::Clue(6)), Some(&selected)), Some(Highlight::MatchingDigit));
    assert_eq!(cell_highlight(&cell(4, 0, CellValue::Clue(6)), Some(&selected)), Some(Highlight::MatchingDigit));
    assert_eq!(cell_highlight(&cell(4, 0, CellValue::Clue(1)), Some(&selected)), Some(Highlight::Peer));
    assert_eq!(cell_highlight(&cell(3, 5, CellValue::Empty), Some(&selected)), Some(Highlight::Peer));
    assert_eq!(cell_highlight(&cell(0, 0, CellValue::Empty), Some(&selected)), None);
    let empty_selected = cell(4, 4, CellValue::Empty);
    assert_eq!(cell_highlight(&cell(0, 0, CellValue::Empty), Some(&empty_selected)), None);
}

#[test]
fn digit_styles() {
    assert_eq!(digit_style(&cell(0, 0, CellValue::Empty), 3), None);
    assert_eq!(digit_style(&cell(0, 0, CellValue::Clue(3)), 3), Some(DigitStyle::Clue));
    assert_eq!(digit_style(&cell(0, 0, CellValue::Clue(3)), 4), Some(DigitStyle::Clue));
    assert_eq!(digit_style(&cell(0, 0, CellValue::Entry(3)), 3), Some(DigitStyle::Entry));
    assert_eq!(digit_style(&cell(0, 0, CellValue::Entry(3)), 4), Some(DigitStyle::Incorrect));
}

#[test]
fn candidate_layout() {
    assert_eq!(candidate_position(1), (0, 0));
    assert_eq!(candidate_position(3), (0, 2));
    assert_eq!(candidate_position(5), (1, 1));
    assert_eq!(candidate_position(9), (2, 2));
    assert!(is_box_line(3));
    assert!(is_box_line(6));
    assert!(!is_box_line(4));
}

fn character(text: &str) -> Key {
    Key::Character(text.to_string())
}

#[test]
fn digits_from_keys() {
    assert_eq!(digit_from_key(&character("5"), PhysicalKey::Other), Some(5));
    assert_eq!(digit_from_key(&character("+5"), PhysicalKey::Other), Some(5));
    assert_eq!(digit_from_key(&character("05"), PhysicalKey::Other), Some(5));
    assert_eq!(digit_from_key(&character("0"), PhysicalKey::Other), None);
    assert_eq!(digit_from_key(&character("10"), PhysicalKey::Other), None);
    assert_eq!(digit_from_key(&character("a"), PhysicalKey::Other), None);
    assert_eq!(digit_from_key(&character("-5"), PhysicalKey::Other), None);
    assert_eq!(digit_from_key(&character("0"), PhysicalKey::Numpad(7)), Some(7));
    assert_eq!(digit_from_key(&character("3"), PhysicalKey::Numpad(7)), Some(3));
    assert_eq!(digit_from_key(&Key::Other, PhysicalKey::Numpad(9)), Some(9));
    assert_eq!(digit_from_key(&Key::Other, PhysicalKey::Numpad(0)), None);
    assert_eq!(digit_from_key(&Key::Escape, PhysicalKey::Other), None);
}

const NO_MODIFIERS: Modifiers = Modifiers { control: false, alt: false, logo: false };

#[test]
fn notes_toggle_keys() {
    assert!(is_notes_toggle_key(&character("n"), NO_MODIFIERS));
    assert!(is_notes_toggle_key(&character("N"), NO_MODIFIERS));
    assert!(!is_notes_toggle_key(&character("m"), NO_MODIFIERS));
    assert!(!is_notes_toggle_key(&character("nn"), NO_MODIFIERS));
    assert!(!is_notes_toggle_key(&Key::Other, NO_MODIFIERS));
    assert!(!is_notes_toggle_key(&character("n"), Modifiers { control: true, ..NO_MODIFIERS }));
    assert!(!is_notes_toggle_key(&character("n"), Modifiers { alt: true, ..NO_MODIFIERS }));
    assert!(!is_notes_toggle_key(&character("n"), Modifiers { logo: true, ..NO_MODIFIERS }));
}

fn press(key: Key) -> KeyPress {
    KeyPress { key, physical_key: PhysicalKey::Other, modifiers: NO_MODIFIERS, repeat: false }
}

#[test]
fn key_actions() {
    assert_eq!(key_action(&press(Key::Escape), true), Some(Action::ClearSelection));
    assert_eq!(key_action(&press(Key::Escape), false), None);
    assert_eq!(key_action(&press(Key::Backspace), true), Some(Action::ClearCell));
    assert_eq!(key_action(&press(Key::Backspace), false), None);
    assert_eq!(key_action(&press(character("n")), false), Some(Action::ToggleNotes));
    assert_eq!(key_action(&press(character("N")), true), Some(Action::ToggleNotes));
    let repeated = KeyPress { repeat: true, ..press(character("n")) };
    assert_eq!(key_action(&repeated, true), None);
    assert_eq!(key_action(&press(character("4")), true), Some(Action::EnterDigit(4)));
    assert_eq!(key_action(&press(character("4")), false), None);
    let numpad = KeyPress { physical_key: PhysicalKey::Numpad(2), ..press(Key::Other) };
    assert_eq!(key_action(&numpad, true), Some(Action::EnterDigit(2)));
    let repeated_digit = KeyPress { repeat: true, ..press(character("4")) };
    assert_eq!(key_action(&repeated_digit, true), Some(Action::EnterDigit(4)));
    assert_eq!(key_action(&press(Key::Other), true), None);
}
