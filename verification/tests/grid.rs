use icedoku::widget::grid::{cell_background, Action, Background, Cell, CellValue, State, SIZE};

fn board() -> [[CellValue; SIZE]; SIZE] {
    let mut cells = [[CellValue::Empty; SIZE]; SIZE];
    cells[0][0] = CellValue::Clue(4);
    cells[8][8] = CellValue::Filled(4);
    cells[1][1] = CellValue::Filled(2);
    cells
}

#[test]
fn grid_selection() {
    let mut state = State::new(board());
    assert_eq!(state.selected_cell(), None);
    state.perform(Action::SelectCell { row: 3, column: 7 });
    assert_eq!(state.selected_cell(), Some((3, 7)));
    state.perform(Action::SelectCell { row: 9, column: 7 });
    assert_eq!(state.selected_cell(), Some((3, 7)));
    state.perform(Action::Escape);
    assert_eq!(state.selected_cell(), None);
    assert_eq!(state.cell(0, 0), CellValue::Clue(4));
    assert_eq!(state.cell(8, 8), CellValue::Filled(4));
}

#[test]
fn grid_cell_queries() {
    let cell = Cell { row: 0, column: 0, value: CellValue::Filled(3) };
    assert_eq!(cell.digit(), Some(3));
    assert!(!cell.is_clue());
    assert!(!cell.is_empty());
    let cell = Cell { row: 0, column: 0, value: CellValue::Empty };
    assert_eq!(cell.digit(), None);
    assert!(cell.is_empty());
    assert!(Cell { row: 0, column: 0, value: CellValue::Clue(1) }.is_clue());
}

#[test]
fn grid_backgrounds() {
    let selected = Cell { row: 0, column: 0, value: CellValue::Clue(4) };
    let at = |row, column, value| Cell { row, column, value };
    assert_eq!(cell_background(&at(5, 5, CellValue::Empty), None), None);
    assert_eq!(cell_background(&at(0, 0, CellValue::Clue(4)), Some(&selected)), Some(Background::Selected));
    assert_eq!(cell_background(&at(8, 8, CellValue::Filled(4)), Some(&selected)), Some(Background::SameDigit));
    assert_eq!(cell_background(&at(0, 8, CellValue::Empty), Some(&selected)), Some(Background::Related));
    assert_eq!(cell_background(&at(2, 2, CellValue::Filled(7)), Some(&selected)), Some(Background::Related));
    assert_eq!(cell_background(&at(4, 4, CellValue::Empty), Some(&selected)), None);
}
