use vstd::prelude::*;

verus! {

/// Number of rows and of columns of the board.
pub const SIZE: usize = 9;
/// Number of rows and of columns of one box.
pub const BOX_SIZE: usize = 3;

/// What the player can do on this board: pick a square, or drop the selection.
#[derive(Debug, Clone, Copy, PartialEq, Eq, Structural)]
pub enum Action {
    SelectCell { row: usize, column: usize },
    Escape,
}

/// The content of a square.
#[derive(Debug, Clone, Copy, PartialEq, Eq, Structural)]
pub enum CellValue {
    Empty,
    Clue(u8),
    Filled(u8),
}

impl CellValue {
    /// The digit in the square, if any.
    pub open spec fn spec_digit(self) -> Option<u8> {
        match self {
            CellValue::Empty => None,
            CellValue::Clue(value) => Some(value),
            CellValue::Filled(value) => Some(value),
        }
    }
}

/// A board of squares with at most one selected square.
#[derive(Debug)]
pub struct State {
    cells: [[CellValue; SIZE]; SIZE],
    selected_cell: Option<(usize, usize)>,
}

/// A square together with its place on the board.
#[derive(Debug)]
pub struct Cell {
    pub row: usize,
    pub column: usize,
    pub value: CellValue,
}

impl Cell {
    pub fn digit(&self) -> (digit: Option<u8>)
        ensures
            digit == self.value.spec_digit(),
    {
        match self.value {
            CellValue::Empty => None,
            CellValue::Clue(value) | CellValue::Filled(value) => Some(value),
        }
    }

    pub fn is_clue(&self) -> (is_clue: bool)
        ensures
            is_clue == (self.value is Clue),
    {
        matches!(self.value, CellValue::Clue(_))
    }

    pub fn is_empty(&self) -> (is_empty: bool)
        ensures
            is_empty == (self.value is Empty),
    {
        matches!(self.value, CellValue::Empty)
    }
}

impl State {
    /// The squares, row by row.
    pub closed spec fn cells_view(&self) -> Seq<Seq<CellValue>> {
        Seq::new(9, |row: int| Seq::new(9, |column: int| self.cells[row][column]))
    }

    /// The selected square, if any.
    pub closed spec fn selection(&self) -> Option<(usize, usize)> {
        self.selected_cell
    }

    /// A board with the given squares and no selection.
    pub fn new(cells: [[CellValue; SIZE]; SIZE]) -> (state: Self)
        ensures
            state.cells_view() == Seq::new(9, |row: int| Seq::new(9, |column: int| cells[row][column])),
            state.selection() == None::<(usize, usize)>,
    {
        Self { cells, selected_cell: None }
    }

    /// Selects a square on the board (a place off the board changes
    /// nothing), or drops the selection.
    pub fn perform(&mut self, action: Action)
        ensures
            final(self).cells_view() == old(self).cells_view(),
            final(self).selection() == match action {
                Action::SelectCell { row, column } => if row < 9 && column < 9 {
                    Some((row, column))
                } else {
                    old(self).selection()
                },
                Action::Escape => None,
            },
    {
        match action {
            Action::SelectCell { row, column } => {
                if row < SIZE && column < SIZE {
                    self.selected_cell = Some((row, column));
                }
            },
            Action::Escape => {
                self.selected_cell = None;
            },
        }
    }

    /// The content of a square.
    pub fn cell(&self, row: usize, column: usize) -> (value: CellValue)
        requires
            row < 9,
            column < 9,
        ensures
            value == self.cells_view()[row as int][column as int],
    {
        self.cells[row][column]
    }

    /// The selected square, if any.
    pub fn selected_cell(&self) -> (selected: Option<(usize, usize)>)
        ensures
            selected == self.selection(),
    {
        self.selected_cell
    }
}

/// How a square's background is drawn when another square is selected.
#[derive(Debug, Clone, Copy, PartialEq, Eq, Structural)]
pub enum Background {
    Selected,
    SameDigit,
    Related,
}

/// The background of a square: nothing without a selection; the
/// selection itself first, then a filled square with the selected
/// square's digit, then a square in its row, column or box.
pub fn cell_background(cell: &Cell, selected_cell: Option<&Cell>) -> (background: Option<Background>)
    ensures
        background == match selected_cell {
            None => None,
            Some(selected) => if cell.row == selected.row && cell.column == selected.column {
                Some(Background::Selected)
            } else if !(cell.value is Empty) && cell.value.spec_digit() == selected.value.spec_digit() {
                Some(Background::SameDigit)
            } else if cell.row == selected.row || cell.column == selected.column || (cell.row / 3
                == selected.row / 3 && cell.column / 3 == selected.column / 3) {
                Some(Background::Related)
            } else {
                None
            },
        },
{
    let selected_cell = match selected_cell {
        Some(selected_cell) => selected_cell,
        None => {
            return None;
        },
    };
    if cell.row == selected_cell.row && cell.column == selected_cell.column {
        Some(Background::Selected)
    } else if !cell.is_empty() && cell.digit() == selected_cell.digit() {
        Some(Background::SameDigit)
    } else if (cell.row == selected_cell.row || cell.column == selected_cell.column) || (cell.row
        / BOX_SIZE == selected_cell.row / BOX_SIZE && cell.column / BOX_SIZE == selected_cell.column
        / BOX_SIZE) {
        Some(Background::Related)
    } else {
        None
    }
}

} // verus!
