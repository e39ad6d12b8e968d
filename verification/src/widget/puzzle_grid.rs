use vstd::prelude::*;

use crate::puzzle::{BOX_DIMENSION, GRID_DIMENSION, Puzzle};

verus! {

/// What the player can do on the board.
#[derive(Debug, Clone, Copy, PartialEq, Eq, Structural)]
pub enum Action {
    SelectCell { row: usize, column: usize },
    ClearSelection,
    EnterDigit(u8),
    ClearCell,
    ToggleNotes,
}

/// A change of the digit of a square: a digit entered, or `None` for a
/// square emptied.
#[derive(Debug, Clone, Copy, PartialEq, Eq, Structural)]
pub struct CellEdit {
    pub row: usize,
    pub column: usize,
    pub digit: Option<u8>,
}

/// The content of a square.
#[derive(Debug, Clone, Copy, PartialEq, Eq, Structural)]
pub enum CellValue {
    Empty,
    Clue(u8),
    Entry(u8),
}

impl CellValue {
    /// The digit in the square, if any.
    pub open spec fn spec_digit(self) -> Option<u8> {
        match self {
            CellValue::Empty => None,
            CellValue::Clue(value) => Some(value),
            CellValue::Entry(value) => Some(value),
        }
    }

    #[verifier::when_used_as_spec(spec_digit)]
    pub fn digit(self) -> (digit: Option<u8>)
        ensures
            digit == self.spec_digit(),
    {
        match self {
            Self::Empty => None,
            Self::Clue(value) | Self::Entry(value) => Some(value),
        }
    }

    pub fn is_clue(self) -> (is_clue: bool)
        ensures
            is_clue == (self is Clue),
    {
        matches!(self, Self::Clue(_))
    }

    pub fn is_empty(self) -> (is_empty: bool)
        ensures
            is_empty == (self is Empty),
    {
        matches!(self, Self::Empty)
    }
}

/// The pencil marks of one square: bit `d - 1` stands for digit `d`.
#[derive(Debug, Clone, Copy)]
struct CandidateSet(u16);

/// Whether bit `digit - 1` of `bits` is set, for a digit from 1 to 9.
pub open spec fn bits_hold_digit(bits: u16, digit: u8) -> bool {
    1 <= digit <= 9 && (bits >> ((digit - 1) as u16)) & 1u16 == 1u16
}

/// `marks` with `digit` added when it was missing and removed when it was
/// there; unchanged for a value that is no digit.
pub open spec fn toggled(marks: Set<u8>, digit: u8) -> Set<u8> {
    if 1 <= digit <= 9 {
        if marks.contains(digit) {
            marks.remove(digit)
        } else {
            marks.insert(digit)
        }
    } else {
        marks
    }
}

impl View for CandidateSet {
    type V = Set<u8>;

    closed spec fn view(&self) -> Set<u8> {
        Set::new(|digit: u8| bits_hold_digit(self.0, digit))
    }
}

proof fn lemma_bit_ops(x: u16, k: u16, j: u16)
    requires
        k < 16,
        j < 16,
    ensures
        j == k ==> (((x ^ (1u16 << k)) >> j) & 1u16 == 1u16) == ((x >> j) & 1u16 != 1u16),
        j != k ==> ((x ^ (1u16 << k)) >> j) & 1u16 == (x >> j) & 1u16,
        ((x & !(1u16 << k)) >> j) & 1u16 == if j == k {
            0u16
        } else {
            (x >> j) & 1u16
        },
        ((0u16 >> j) & 1u16) == 0u16,
        (x & (1u16 << k) != 0u16) == ((x >> k) & 1u16 == 1u16),
{
    assert((j == k ==> (((x ^ (1u16 << k)) >> j) & 1u16 == 1u16) == ((x >> j) & 1u16 != 1u16)) && (
    j != k ==> ((x ^ (1u16 << k)) >> j) & 1u16 == (x >> j) & 1u16)) by (bit_vector)
        requires
            k < 16,
            j < 16,
    ;
    assert(((x & !(1u16 << k)) >> j) & 1u16 == if j == k {
        0u16
    } else {
        (x >> j) & 1u16
    }) by (bit_vector)
        requires
            k < 16,
            j < 16,
    ;
    assert(((0u16 >> j) & 1u16) == 0u16) by (bit_vector);
    assert((x & (1u16 << k) != 0u16) == ((x >> k) & 1u16 == 1u16)) by (bit_vector)
        requires
            k < 16,
    ;
}

/// The bit that stands for `digit`, if it is a digit from 1 to 9.
fn candidate_bit(digit: u8) -> (bit: Option<u16>)
    ensures
        bit == if 1 <= digit <= 9 {
            Some(1u16 << ((digit - 1) as u16))
        } else {
            None::<u16>
        },
{
    if 1 <= digit && digit <= 9 {
        Some(1u16 << ((digit - 1) as u16))
    } else {
        None
    }
}

impl CandidateSet {
    fn empty() -> (set: Self)
        ensures
            set@ == Set::<u8>::empty(),
    {
        let set = CandidateSet(0);
        proof {
            assert forall|digit: u8| !set@.contains(digit) by {
                if 1 <= digit <= 9 {
                    lemma_bit_ops(0, 0, (digit - 1) as u16);
                }
            }
            assert(set@ =~= Set::<u8>::empty());
        }
        set
    }

    fn toggle(&mut self, digit: u8)
        ensures
            final(self)@ == toggled(old(self)@, digit),
    {
        if let Some(bit) = candidate_bit(digit) {
            self.0 = self.0 ^ bit;
            proof {
                let k = (digit - 1) as u16;
                assert forall|d: u8| #[trigger] final(self)@.contains(d) == toggled(old(self)@, digit).contains(d) by {
                    if 1 <= d <= 9 {
                        lemma_bit_ops(old(self).0, k, (d - 1) as u16);
                    }
                }
                assert(final(self)@ =~= toggled(old(self)@, digit));
            }
        } else {
            assert(final(self)@ =~= toggled(old(self)@, digit));
        }
    }

    fn remove(&mut self, digit: u8)
        ensures
            final(self)@ == old(self)@.remove(digit),
    {
        if let Some(bit) = candidate_bit(digit) {
            self.0 = self.0 & !bit;
            proof {
                let k = (digit - 1) as u16;
                assert forall|d: u8| #[trigger] final(self)@.contains(d) == old(self)@.remove(digit).contains(d) by {
                    if 1 <= d <= 9 {
                        lemma_bit_ops(old(self).0, k, (d - 1) as u16);
                    }
                }
                assert(final(self)@ =~= old(self)@.remove(digit));
            }
        } else {
            assert(final(self)@ =~= old(self)@.remove(digit));
        }
    }

    fn contains(self, digit: u8) -> (contains: bool)
        ensures
            contains == self@.contains(digit),
    {
        match candidate_bit(digit) {
            Some(bit) => {
                proof {
                    lemma_bit_ops(self.0, (digit - 1) as u16, 0);
                }
                self.0 & bit != 0
            },
            None => false,
        }
    }

    fn clear(&mut self)
        ensures
            final(self)@ == Set::<u8>::empty(),
    {
        *self = CandidateSet::empty();
    }
}


/// The board as the player sees it: the content and the pencil marks of
/// each square (row by row), the selected square and whether digits go
/// into the pencil marks.
pub struct StateView {
    pub cells: Seq<Seq<CellValue>>,
    pub candidates: Seq<Seq<Set<u8>>>,
    pub selected_cell: Option<(usize, usize)>,
    pub notes_enabled: bool,
}

/// The board of a game in progress.
#[derive(Debug)]
pub struct State {
    cells: [[CellValue; GRID_DIMENSION]; GRID_DIMENSION],
    candidates: [[CandidateSet; GRID_DIMENSION]; GRID_DIMENSION],
    selected_cell: Option<(usize, usize)>,
    notes_enabled: bool,
}

impl View for State {
    type V = StateView;

    closed spec fn view(&self) -> StateView {
        StateView {
            cells: Seq::new(9, |row: int| Seq::new(9, |column: int| self.cells[row][column])),
            candidates: Seq::new(
                9,
                |row: int| Seq::new(9, |column: int| self.candidates[row][column]@),
            ),
            selected_cell: self.selected_cell,
            notes_enabled: self.notes_enabled,
        }
    }
}

impl StateView {
    /// Nine rows of nine squares, and a selected square, if any, on the board.
    pub open spec fn wf(self) -> bool {
        &&& self.cells.len() == 9
        &&& forall|row: int| 0 <= row < 9 ==> #[trigger] self.cells[row].len() == 9
        &&& self.candidates.len() == 9
        &&& forall|row: int| 0 <= row < 9 ==> #[trigger] self.candidates[row].len() == 9
        &&& match self.selected_cell {
            Some((row, column)) => row < 9 && column < 9,
            None => true,
        }
    }

    /// The same board with square (`row`, `column`) holding `value`.
    pub open spec fn with_cell(self, row: int, column: int, value: CellValue) -> StateView {
        StateView { cells: self.cells.update(row, self.cells[row].update(column, value)), ..self }
    }

    /// The same board with the pencil marks of square (`row`, `column`) set to `marks`.
    pub open spec fn with_candidates(self, row: int, column: int, marks: Set<u8>) -> StateView {
        StateView {
            candidates: self.candidates.update(row, self.candidates[row].update(column, marks)),
            ..self
        }
    }

    /// What an action does to the board, and the change of digit it makes, if any.
    pub open spec fn after(self, action: Action) -> (StateView, Option<CellEdit>) {
        match action {
            Action::SelectCell { row, column } => {
                if row >= 9 || column >= 9 {
                    (self, None)
                } else {
                    (StateView { selected_cell: Some((row, column)), ..self }, None)
                }
            },
            Action::ClearSelection => (StateView { selected_cell: None, ..self }, None),
            Action::EnterDigit(digit) => match self.selected_cell {
                None => (self, None),
                Some((row, column)) => {
                    let cell = self.cells[row as int][column as int];
                    if self.notes_enabled {
                        if cell is Empty {
                            (
                                self.with_candidates(
                                    row as int,
                                    column as int,
                                    toggled(self.candidates[row as int][column as int], digit),
                                ),
                                None,
                            )
                        } else {
                            (self, None)
                        }
                    } else if 1 <= digit <= 9 && !(cell is Clue) && cell != CellValue::Entry(digit) {
                        (
                            self.with_cell(row as int, column as int, CellValue::Entry(digit)).with_candidates(
                                row as int,
                                column as int,
                                Set::empty(),
                            ),
                            Some(CellEdit { row, column, digit: Some(digit) }),
                        )
                    } else {
                        (self, None)
                    }
                },
            },
            Action::ClearCell => match self.selected_cell {
                None => (self, None),
                Some((row, column)) => {
                    let cell = self.cells[row as int][column as int];
                    if !(cell is Clue) && !(cell is Empty) {
                        (
                            self.with_cell(row as int, column as int, CellValue::Empty),
                            Some(CellEdit { row, column, digit: None }),
                        )
                    } else {
                        (self.with_candidates(row as int, column as int, Set::empty()), None)
                    }
                },
            },
            Action::ToggleNotes => (StateView { notes_enabled: !self.notes_enabled, ..self }, None),
        }
    }
}

/// Whether two squares share a row, a column or a box.
pub open spec fn shares_unit(row: int, column: int, other_row: int, other_column: int) -> bool {
    ||| row == other_row
    ||| column == other_column
    ||| (row / 3 == other_row / 3 && column / 3 == other_column / 3)
}

/// The starting board of a puzzle: its clues, no pencil marks, no square
/// selected, digits going into the squares.
pub open spec fn initial_view(puzzle: Puzzle) -> StateView {
    StateView {
        cells: Seq::new(
            9,
            |row: int|
                Seq::new(
                    9,
                    |column: int|
                        match puzzle.clues[row][column] {
                            Some(value) => CellValue::Clue(value),
                            None => CellValue::Empty,
                        },
                ),
        ),
        candidates: Seq::new(9, |row: int| Seq::new(9, |column: int| Set::<u8>::empty())),
        selected_cell: None,
        notes_enabled: false,
    }
}

impl StateView {
    /// Every square holds the digit of the solution.
    pub open spec fn matches(self, solution: [[u8; GRID_DIMENSION]; GRID_DIMENSION]) -> bool {
        forall|row: int, column: int|
            0 <= row < 9 && 0 <= column < 9 ==> #[trigger] self.cells[row][column].spec_digit() == Some(
                solution[row][column],
            )
    }

    /// The same board with `digit` taken out of the pencil marks of every
    /// square that shares a row, a column or a box with (`row`, `column`).
    pub open spec fn without_peer_candidate(self, row: int, column: int, digit: u8) -> StateView {
        StateView {
            candidates: Seq::new(
                9,
                |r: int|
                    Seq::new(
                        9,
                        |c: int|
                            if shares_unit(r, c, row, column) {
                                self.candidates[r][c].remove(digit)
                            } else {
                                self.candidates[r][c]
                            },
                    ),
            ),
            ..self
        }
    }
}

/// Law: no action changes a square that the puzzle gives, and no action
/// turns another square into a given one; the board stays well formed.
pub proof fn law_clues_preserved(state: StateView, action: Action)
    requires
        state.wf(),
    ensures
        state.after(action).0.wf(),
        forall|row: int, column: int|
            0 <= row < 9 && 0 <= column < 9 ==> {
                let before = state.cells[row][column];
                let after = #[trigger] state.after(action).0.cells[row][column];
                &&& (after is Clue) == (before is Clue)
                &&& before is Clue ==> after == before
            },
{
}

/// Law: with pencil marks on, entering the same digit twice leaves the
/// board as it was.
pub proof fn law_note_toggle_twice(state: StateView, digit: u8)
    requires
        state.wf(),
        state.notes_enabled,
    ensures
        state.after(Action::EnterDigit(digit)).0.after(Action::EnterDigit(digit)).0 == state,
{
    let once = state.after(Action::EnterDigit(digit)).0;
    let twice = once.after(Action::EnterDigit(digit)).0;
    if let Some((row, column)) = state.selected_cell {
        if state.cells[row as int][column as int] is Empty {
            let marks = state.candidates[row as int][column as int];
            assert(toggled(toggled(marks, digit), digit) =~= marks);
            assert(twice.candidates[row as int] =~= state.candidates[row as int]);
            assert(twice.candidates =~= state.candidates);
            assert(twice.cells =~= state.cells);
        }
    }
}

/// Law: an edit is reported exactly when the selected square's digit
/// changes, and it names that square and its new digit.
pub proof fn law_edit_reports_change(state: StateView, action: Action)
    requires
        state.wf(),
    ensures
        ({
            let (next, edit) = state.after(action);
            match edit {
                Some(edit) => {
                    &&& state.selected_cell == Some((edit.row, edit.column))
                    &&& next.cells[edit.row as int][edit.column as int].spec_digit() == edit.digit
                    &&& state.cells[edit.row as int][edit.column as int].spec_digit() != edit.digit
                },
                None => forall|row: int, column: int|
                    0 <= row < 9 && 0 <= column < 9 ==> (#[trigger] next.cells[row][column]).spec_digit()
                        == state.cells[row][column].spec_digit(),
            }
        }),
{
}

/// Law: an action changes the content and the pencil marks of no square
/// but the one selected before it; without a reported edit no square's
/// content changes at all, and with one only the edited square's content
/// does.
pub proof fn law_only_selected_square_changes(state: StateView, action: Action)
    requires
        state.wf(),
    ensures
        ({
            let (next, edit) = state.after(action);
            &&& forall|row: int, column: int|
                0 <= row < 9 && 0 <= column < 9 && state.selected_cell != Some((row as usize, column as usize))
                    ==> #[trigger] next.cells[row][column] == state.cells[row][column]
                    && next.candidates[row][column] == state.candidates[row][column]
            &&& edit is None ==> forall|row: int, column: int|
                0 <= row < 9 && 0 <= column < 9 ==> #[trigger] next.cells[row][column]
                    == state.cells[row][column]
            &&& edit matches Some(e) ==> forall|row: int, column: int|
                0 <= row < 9 && 0 <= column < 9 && (row != e.row || column != e.column) ==> #[trigger] next.cells[row][column]
                    == state.cells[row][column]
            &&& next.cells.len() == 9
            &&& forall|row: int| 0 <= row < 9 ==> (#[trigger] next.cells[row]).len() == 9
        }),
{
}

/// Law: a square is entered or cleared only through a reported edit: after
/// an edit of (`row`, `column`) with digit `d`, that square holds the entry
/// `d` (or is empty for no digit), and its pencil marks are cleared when a
/// digit was entered.
pub proof fn law_edit_sets_square(state: StateView, action: Action)
    requires
        state.wf(),
    ensures
        ({
            let (next, edit) = state.after(action);
            edit matches Some(e) ==> {
                &&& e.row < 9 && e.column < 9
                &&& next.cells[e.row as int][e.column as int] == match e.digit {
                    Some(d) => CellValue::Entry(d),
                    None => CellValue::Empty,
                }
                &&& e.digit is Some ==> next.candidates[e.row as int][e.column as int] == Set::<u8>::empty()
                &&& e.digit matches Some(d) ==> 1 <= d <= 9
            }
        }),
{
}

/// Law: a board matches a solution exactly when every square holds the
/// solution's digit for it.
pub proof fn law_matches_is_every_digit(state: StateView, solution: [[u8; GRID_DIMENSION]; GRID_DIMENSION])
    ensures
        state.matches(solution) <==> forall|row: int, column: int|
            0 <= row < 9 && 0 <= column < 9 ==> match #[trigger] state.cells[row][column] {
                CellValue::Clue(d) => d == solution[row][column],
                CellValue::Entry(d) => d == solution[row][column],
                CellValue::Empty => false,
            },
{
    if state.matches(solution) {
        assert forall|row: int, column: int| 0 <= row < 9 && 0 <= column < 9 implies match #[trigger] state.cells[row][column] {
            CellValue::Clue(d) => d == solution[row][column],
            CellValue::Entry(d) => d == solution[row][column],
            CellValue::Empty => false,
        } by {
            assert(state.cells[row][column].spec_digit() == Some(solution[row][column]));
        }
    }
}

/// Law: removing a digit from the peers of (`row`, `column`) leaves it in
/// the marks of no square of that row, that column or that box, and
/// changes nothing else: the other marks of those squares, all marks of
/// other squares, the squares' contents, the selection and the notes mode.
pub proof fn law_peer_removal(state: StateView, row: int, column: int, digit: u8)
    requires
        state.wf(),
        0 <= row,
        0 <= column,
    ensures
        ({
            let next = state.without_peer_candidate(row, column, digit);
            &&& next.cells == state.cells
            &&& next.selected_cell == state.selected_cell
            &&& next.notes_enabled == state.notes_enabled
            &&& forall|r: int, c: int|
                0 <= r < 9 && 0 <= c < 9 ==> {
                    let peer = r == row || c == column || (r / 3 == row / 3 && c / 3 == column / 3);
                    &&& peer ==> !(#[trigger] next.candidates[r][c]).contains(digit)
                    &&& forall|other: u8| other != digit ==> (next.candidates[r][c].contains(other)
                        <==> state.candidates[r][c].contains(other))
                    &&& !peer ==> next.candidates[r][c] == state.candidates[r][c]
                }
        }),
{
}

impl State {
    /// A selected square, if any, lies on the board.
    pub open spec fn wf(&self) -> bool {
        self@.wf()
    }

    /// The view equals `expected` when each square agrees with it.
    proof fn lemma_matches(&self, expected: StateView)
        requires
            expected.wf(),
            expected.selected_cell == self.selected_cell,
            expected.notes_enabled == self.notes_enabled,
            forall|row: int, column: int|
                0 <= row < 9 && 0 <= column < 9 ==> #[trigger] expected.cells[row][column]
                    == self.cells[row][column],
            forall|row: int, column: int|
                0 <= row < 9 && 0 <= column < 9 ==> #[trigger] expected.candidates[row][column]
                    == self.candidates[row][column]@,
        ensures
            self@ == expected,
    {
        assert forall|row: int| 0 <= row < 9 implies #[trigger] self@.cells[row] =~= expected.cells[row] by {}
        assert forall|row: int| 0 <= row < 9 implies #[trigger] self@.candidates[row] =~= expected.candidates[row] by {}
        assert(self@.cells =~= expected.cells);
        assert(self@.candidates =~= expected.candidates);
    }

    /// The starting board of a puzzle.
    pub fn from(puzzle: &Puzzle) -> (state: State)
        ensures
            state.wf(),
            state@ == initial_view(*puzzle),
    {
        let empty = CandidateSet::empty();
        let mut cells: [[CellValue; GRID_DIMENSION]; GRID_DIMENSION] = [[CellValue::Empty; GRID_DIMENSION]; GRID_DIMENSION];
        let candidates: [[CandidateSet; GRID_DIMENSION]; GRID_DIMENSION] = [[empty; GRID_DIMENSION]; GRID_DIMENSION];
        let mut row: usize = 0;
        while row < GRID_DIMENSION
            invariant
                row <= 9,
                forall|r: int, c: int|
                    0 <= r < row && 0 <= c < 9 ==> #[trigger] cells[r][c] == match puzzle.clues[r][c] {
                        Some(value) => CellValue::Clue(value),
                        None => CellValue::Empty,
                    },
            decreases 9 - row,
        {
            let mut column: usize = 0;
            while column < GRID_DIMENSION
                invariant
                    row < 9,
                    column <= 9,
                    forall|r: int, c: int|
                        0 <= r < row && 0 <= c < 9 ==> #[trigger] cells[r][c] == match puzzle.clues[r][c] {
                            Some(value) => CellValue::Clue(value),
                            None => CellValue::Empty,
                        },
                    forall|c: int|
                        0 <= c < column ==> #[trigger] cells[row as int][c] == match puzzle.clues[row as int][c] {
                            Some(value) => CellValue::Clue(value),
                            None => CellValue::Empty,
                        },
                decreases 9 - column,
            {
                cells[row][column] = match puzzle.clues[row][column] {
                    Some(value) => CellValue::Clue(value),
                    None => CellValue::Empty,
                };
                column = column + 1;
            }
            row = row + 1;
        }
        let state = State { cells, candidates, selected_cell: None, notes_enabled: false };
        proof {
            state.lemma_matches(initial_view(*puzzle));
        }
        state
    }

    /// Whether every square holds the digit of the solution.
    pub fn matches_solution(&self, solution: &[[u8; GRID_DIMENSION]; GRID_DIMENSION]) -> (matches: bool)
        ensures
            matches == self@.matches(*solution),
            matches == forall|row: int, column: int|
                0 <= row < 9 && 0 <= column < 9 ==> #[trigger] self.cell_digit(row, column) == Some(
                    solution[row][column],
                ),
    {
        let mut row: usize = 0;
        while row < GRID_DIMENSION
            invariant
                row <= 9,
                forall|r: int, c: int|
                    0 <= r < row && 0 <= c < 9 ==> #[trigger] self.cell_digit(r, c) == Some(solution[r][c]),
            decreases 9 - row,
        {
            let mut column: usize = 0;
            while column < GRID_DIMENSION
                invariant
                    row < 9,
                    column <= 9,
                    forall|r: int, c: int|
                        0 <= r < row && 0 <= c < 9 ==> #[trigger] self.cell_digit(r, c) == Some(solution[r][c]),
                    forall|c: int|
                        0 <= c < column ==> #[trigger] self.cell_digit(row as int, c) == Some(
                            solution[row as int][c],
                        ),
                decreases 9 - column,
            {
                if self.cells[row][column].digit() != Some(solution[row][column]) {
                    assert(self.cell_digit(row as int, column as int) != Some(
                        solution[row as int][column as int],
                    ));
                    proof {
                        self.lemma_cell_digit();
                    }
                    return false;
                }
                column = column + 1;
            }
            row = row + 1;
        }
        proof {
            self.lemma_cell_digit();
            assert forall|r: int, c: int| 0 <= r < 9 && 0 <= c < 9 implies #[trigger] self@.cells[r][c].spec_digit()
                == Some(solution[r][c]) by {
                assert(self.cell_digit(r, c) == Some(solution[r][c]));
            }
        }
        true
    }

    proof fn lemma_cell_digit(&self)
        ensures
            forall|row: int, column: int|
                0 <= row < 9 && 0 <= column < 9 ==> #[trigger] self.cell_digit(row, column)
                    == self@.cells[row][column].spec_digit(),
    {
    }

    /// Takes `digit` out of the pencil marks of every square that shares a
    /// row, a column or a box with (`row`, `column`).
    pub fn remove_candidate_from_peers(&mut self, row: usize, column: usize, digit: u8)
        requires
            old(self).wf(),
        ensures
            final(self).wf(),
            final(self)@ == old(self)@.without_peer_candidate(row as int, column as int, digit),
    {
        let ghost before = self@;
        let mut candidate_row: usize = 0;
        while candidate_row < GRID_DIMENSION
            invariant
                candidate_row <= 9,
                self.wf(),
                self.cells == old(self).cells,
                self.selected_cell == old(self).selected_cell,
                self.notes_enabled == old(self).notes_enabled,
                before == old(self)@,
                forall|r: int, c: int|
                    0 <= r < candidate_row && 0 <= c < 9 ==> #[trigger] self.candidates[r][c]@
                        == before.without_peer_candidate(row as int, column as int, digit).candidates[r][c],
                forall|r: int, c: int|
                    candidate_row <= r < 9 && 0 <= c < 9 ==> #[trigger] self.candidates[r][c]@
                        == before.candidates[r][c],
            decreases 9 - candidate_row,
        {
            let mut candidate_column: usize = 0;
            while candidate_column < GRID_DIMENSION
                invariant
                    candidate_row < 9,
                    candidate_column <= 9,
                    self.wf(),
                    self.cells == old(self).cells,
                    self.selected_cell == old(self).selected_cell,
                    self.notes_enabled == old(self).notes_enabled,
                    before == old(self)@,
                    forall|r: int, c: int|
                        0 <= r < candidate_row && 0 <= c < 9 ==> #[trigger] self.candidates[r][c]@
                            == before.without_peer_candidate(row as int, column as int, digit).candidates[r][c],
                    forall|c: int|
                        0 <= c < candidate_column ==> #[trigger] self.candidates[candidate_row as int][c]@
                            == before.without_peer_candidate(
                            row as int,
                            column as int,
                            digit,
                        ).candidates[candidate_row as int][c],
                    forall|r: int, c: int|
                        (candidate_row < r < 9 && 0 <= c < 9) || (r == candidate_row && candidate_column
                            <= c < 9) ==> #[trigger] self.candidates[r][c]@ == before.candidates[r][c],
                decreases 9 - candidate_column,
            {
                let shares_row = candidate_row == row;
                let shares_column = candidate_column == column;
                let shares_box = candidate_row / BOX_DIMENSION == row / BOX_DIMENSION
                    && candidate_column / BOX_DIMENSION == column / BOX_DIMENSION;
                if shares_row || shares_column || shares_box {
                    let mut marks = self.candidates[candidate_row][candidate_column];
                    marks.remove(digit);
                    self.candidates[candidate_row][candidate_column] = marks;
                }
                candidate_column = candidate_column + 1;
            }
            candidate_row = candidate_row + 1;
        }
        proof {
            self.lemma_matches(before.without_peer_candidate(row as int, column as int, digit));
        }
    }

    /// The digit of a square, if any.
    pub closed spec fn cell_digit(&self, row: int, column: int) -> Option<u8> {
        match self.cells[row][column] {
            CellValue::Empty => None,
            CellValue::Clue(d) => Some(d),
            CellValue::Entry(d) => Some(d),
        }
    }

    /// Whether digits go into the pencil marks.
    pub fn notes_enabled(&self) -> (enabled: bool)
        ensures
            enabled == self@.notes_enabled,
    {
        self.notes_enabled
    }

    /// The content of a square.
    pub fn cell(&self, row: usize, column: usize) -> (value: CellValue)
        requires
            row < 9,
            column < 9,
        ensures
            value == self@.cells[row as int][column as int],
    {
        self.cells[row][column]
    }

    /// Whether the pencil marks of a square hold `digit`.
    pub fn has_candidate(&self, row: usize, column: usize, digit: u8) -> (marked: bool)
        requires
            row < 9,
            column < 9,
        ensures
            marked == self@.candidates[row as int][column as int].contains(digit),
    {
        self.candidates[row][column].contains(digit)
    }

    /// The selected square, if any.
    pub fn selected_cell(&self) -> (selected: Option<(usize, usize)>)
        ensures
            selected == self@.selected_cell,
    {
        self.selected_cell
    }

    /// Carries out a player's action; returns the change of digit it made, if any.
    pub fn perform(&mut self, action: Action) -> (edit: Option<CellEdit>)
        requires
            old(self).wf(),
        ensures
            final(self).wf(),
            (final(self)@, edit) == old(self)@.after(action),
    {
        let ghost before = self@;
        match action {
            Action::SelectCell { row, column } => {
                if row >= GRID_DIMENSION || column >= GRID_DIMENSION {
                    return None;
                }
                self.selected_cell = Some((row, column));
                assert(self@ =~~= before.after(action).0);
            },
            Action::ClearSelection => {
                self.selected_cell = None;
                assert(self@ =~~= before.after(action).0);
            },
            Action::EnterDigit(digit) => {
                let (row, column) = self.selected_cell?;
                if self.notes_enabled {
                    if self.cells[row][column].is_empty() {
                        let mut marks = self.candidates[row][column];
                        marks.toggle(digit);
                        self.candidates[row][column] = marks;
                        proof {
                            self.lemma_matches(before.after(action).0);
                        }
                    }
                    return None;
                }
                let cell = self.cells[row][column];
                let entry = CellValue::Entry(digit);
                if 1 <= digit && digit <= 9 && !cell.is_clue() && cell != entry {
                    self.cells[row][column] = entry;
                    let mut marks = self.candidates[row][column];
                    marks.clear();
                    self.candidates[row][column] = marks;
                    proof {
                        self.lemma_matches(before.after(action).0);
                    }
                    return Some(CellEdit { row, column, digit: Some(digit) });
                }
            },
            Action::ClearCell => {
                let (row, column) = self.selected_cell?;
                let cell = self.cells[row][column];
                if !cell.is_clue() && !cell.is_empty() {
                    self.cells[row][column] = CellValue::Empty;
                    proof {
                        self.lemma_matches(before.after(action).0);
                    }
                    return Some(CellEdit { row, column, digit: None });
                }
                let mut marks = self.candidates[row][column];
                marks.clear();
                self.candidates[row][column] = marks;
                proof {
                    self.lemma_matches(before.after(action).0);
                }
            },
            Action::ToggleNotes => {
                self.notes_enabled = !self.notes_enabled;
                assert(self@ =~~= before.after(action).0);
            },
        }
        None
    }
}


/// A square together with its place on the board.
#[derive(Debug)]
pub struct PositionedCell {
    pub row: usize,
    pub column: usize,
    pub value: CellValue,
}

impl PositionedCell {
    pub fn digit(&self) -> (digit: Option<u8>)
        ensures
            digit == self.value.spec_digit(),
    {
        self.value.digit()
    }

    pub fn is_clue(&self) -> (is_clue: bool)
        ensures
            is_clue == (self.value is Clue),
    {
        self.value.is_clue()
    }

    pub fn is_empty(&self) -> (is_empty: bool)
        ensures
            is_empty == (self.value is Empty),
    {
        self.value.is_empty()
    }

    /// Whether both are the same square.
    pub fn has_same_position(&self, other: &Self) -> (same: bool)
        ensures
            same == (self.row == other.row && self.column == other.column),
    {
        self.row == other.row && self.column == other.column
    }

    /// Whether the squares share a row, a column or a box.
    pub fn is_peer_of(&self, other: &Self) -> (peer: bool)
        ensures
            peer == shares_unit(self.row as int, self.column as int, other.row as int, other.column as int),
    {
        (self.row == other.row || self.column == other.column) || (self.row / BOX_DIMENSION == other.row
            / BOX_DIMENSION && self.column / BOX_DIMENSION == other.column / BOX_DIMENSION)
    }
}

/// How a square is lit when another square is selected.
#[derive(Debug, Clone, Copy, PartialEq, Eq, Structural)]
pub enum Highlight {
    /// The selected square itself.
    Selected,
    /// A square that holds the same digit as the selected one.
    MatchingDigit,
    /// A square in the row, the column or the box of the selected one.
    Peer,
}

/// The highlight of a square: none without a selection; the selection
/// itself first, then a square with the selected square's digit, then a
/// square that shares a unit with it.
pub fn cell_highlight(cell: &PositionedCell, selected_cell: Option<&PositionedCell>) -> (highlight: Option<Highlight>)
    ensures
        highlight == match selected_cell {
            None => None,
            Some(selected) => if cell.row == selected.row && cell.column == selected.column {
                Some(Highlight::Selected)
            } else if !(cell.value is Empty) && cell.value.spec_digit() == selected.value.spec_digit() {
                Some(Highlight::MatchingDigit)
            } else if shares_unit(cell.row as int, cell.column as int, selected.row as int, selected.column as int) {
                Some(Highlight::Peer)
            } else {
                None
            },
        },
{
    let selected_cell = match selected_cell {
        Some(selected_cell) => selected_cell,
        None => {
            return None;
        },
    };
    if cell.has_same_position(selected_cell) {
        Some(Highlight::Selected)
    } else if !cell.is_empty() && cell.digit() == selected_cell.digit() {
        Some(Highlight::MatchingDigit)
    } else if cell.is_peer_of(selected_cell) {
        Some(Highlight::Peer)
    } else {
        None
    }
}

/// How the digit of a square is drawn.
#[derive(Debug, Clone, Copy, PartialEq, Eq, Structural)]
pub enum DigitStyle {
    /// A digit that differs from the solution.
    Incorrect,
    /// A digit that the puzzle gives.
    Clue,
    /// A digit entered by the player that agrees with the solution.
    Entry,
}

/// The style of the digit of a square, none for an empty square: an
/// entered digit that differs from `solution_digit` is marked wrong.
pub fn digit_style(cell: &PositionedCell, solution_digit: u8) -> (style: Option<DigitStyle>)
    ensures
        style == match cell.value {
            CellValue::Empty => None,
            CellValue::Clue(_) => Some(DigitStyle::Clue),
            CellValue::Entry(digit) => if digit != solution_digit {
                Some(DigitStyle::Incorrect)
            } else {
                Some(DigitStyle::Entry)
            },
        },
{
    if cell.is_empty() {
        return None;
    }
    let is_incorrect = !cell.is_clue() && !cell.is_empty() && cell.digit() != Some(solution_digit);
    if is_incorrect {
        Some(DigitStyle::Incorrect)
    } else if cell.is_clue() {
        Some(DigitStyle::Clue)
    } else {
        Some(DigitStyle::Entry)
    }
}

/// Where the pencil mark of a digit sits inside its square: a 3 by 3
/// layout, 1 to 3 on the first row.
pub fn candidate_position(digit: u8) -> (position: (usize, usize))
    requires
        1 <= digit <= 9,
    ensures
        position.0 == (digit - 1) / 3,
        position.1 == (digit - 1) % 3,
{
    let index = (digit - 1) as usize;
    (index / BOX_DIMENSION, index % BOX_DIMENSION)
}

/// Whether the line between rows (or columns) `line - 1` and `line` is
/// the edge of a box.
pub fn is_box_line(line: usize) -> (box_line: bool)
    ensures
        box_line == (line % 3 == 0),
{
    line % BOX_DIMENSION == 0
}


/// The logical key of a key press, as far as the board reads it.
#[derive(Debug, Clone)]
pub enum Key {
    Escape,
    Backspace,
    /// A key that produces text.
    Character(String),
    Other,
}

/// The physical key of a key press: a digit key of the numeric keypad, or another.
#[derive(Debug, Clone, Copy, PartialEq, Eq, Structural)]
pub enum PhysicalKey {
    Numpad(u8),
    Other,
}

/// The modifier keys held during a key press.
#[derive(Debug, Clone, Copy, PartialEq, Eq, Structural)]
pub struct Modifiers {
    pub control: bool,
    pub alt: bool,
    pub logo: bool,
}

/// A key press.
#[derive(Debug, Clone)]
pub struct KeyPress {
    pub key: Key,
    pub physical_key: PhysicalKey,
    pub modifiers: Modifiers,
    /// Whether the press repeats a held key.
    pub repeat: bool,
}

/// The value of a string of decimal digits.
pub open spec fn decimal_value(digits: Seq<char>) -> nat
    decreases digits.len(),
{
    if digits.len() == 0 {
        0
    } else {
        (decimal_value(digits.drop_last()) * 10 + (digits.last() as int - '0' as int)) as nat
    }
}

/// What `str::parse::<u8>` gives: an optional `+` followed by at least
/// one decimal digit, of value at most 255.
pub open spec fn parsed_u8(text: Seq<char>) -> Option<u8> {
    let digits = if text.len() > 0 && text[0] == '+' {
        text.drop_first()
    } else {
        text
    };
    if digits.len() > 0 && (forall|i: int| 0 <= i < digits.len() ==> '0' <= #[trigger] digits[i] <= '9')
        && decimal_value(digits) <= 255 {
        Some(decimal_value(digits) as u8)
    } else {
        None
    }
}

/// Calls `str::parse::<u8>`, keeping the value when it succeeds. Its
/// documentation gives the accepted text: an optional `+` sign followed
/// by decimal digits, whose value fits in a `u8`.
#[verifier::external_body]
fn parse_u8(text: &str) -> (value: Option<u8>)
    ensures
        value == parsed_u8(text@),
{
    text.parse::<u8>().ok()
}

/// A character in ASCII lower case.
pub open spec fn ascii_lower(c: char) -> char {
    if 'A' <= c <= 'Z' {
        ((c as u32) + 32) as char
    } else {
        c
    }
}

/// Calls `str::eq_ignore_ascii_case`: true when both texts are equal once
/// ASCII letters are put in lower case (other characters compare as they are).
#[verifier::external_body]
fn eq_ignore_ascii_case(text: &str, other: &str) -> (equal: bool)
    ensures
        equal == (text@.len() == other@.len() && forall|i: int|
            0 <= i < text@.len() ==> ascii_lower(#[trigger] text@[i]) == ascii_lower(other@[i])),
{
    text.eq_ignore_ascii_case(other)
}

/// The digit that a key press enters: a character key whose text reads
/// as a number from 1 to 9, otherwise a digit key of the numeric keypad.
pub open spec fn key_digit(key: Key, physical_key: PhysicalKey) -> Option<u8> {
    let typed = match key {
        Key::Character(text) => match parsed_u8(text@) {
            Some(digit) => if 1 <= digit <= 9 {
                Some(digit)
            } else {
                None
            },
            None => None,
        },
        _ => None,
    };
    match typed {
        Some(digit) => Some(digit),
        None => match physical_key {
            PhysicalKey::Numpad(digit) => if 1 <= digit <= 9 {
                Some(digit)
            } else {
                None
            },
            PhysicalKey::Other => None,
        },
    }
}

/// The digit that a key press enters, if any.
pub fn digit_from_key(key: &Key, physical_key: PhysicalKey) -> (digit: Option<u8>)
    ensures
        digit == key_digit(*key, physical_key),
{
    if let Key::Character(character) = key {
        if let Some(digit) = parse_u8(character.as_str()) {
            if 1 <= digit && digit <= 9 {
                return Some(digit);
            }
        }
    }
    match physical_key {
        PhysicalKey::Numpad(digit) => if 1 <= digit && digit <= 9 {
            Some(digit)
        } else {
            None
        },
        PhysicalKey::Other => None,
    }
}

/// A press of the key `n` (either case) without control, alt or logo.
pub open spec fn notes_toggle_key(key: Key, modifiers: Modifiers) -> bool {
    &&& key matches Key::Character(text) && text@.len() == 1 && ascii_lower(text@[0]) == 'n'
    &&& !modifiers.control
    &&& !modifiers.alt
    &&& !modifiers.logo
}

/// Whether a key press switches pencil marks on or off.
pub fn is_notes_toggle_key(key: &Key, modifiers: Modifiers) -> (toggle: bool)
    ensures
        toggle == notes_toggle_key(*key, modifiers),
{
    let is_n = match key {
        Key::Character(character) => {
            let n = "n";
            proof {
                reveal_strlit("n");
            }
            eq_ignore_ascii_case(character.as_str(), n)
        },
        _ => false,
    };
    is_n && !modifiers.control && !modifiers.alt && !modifiers.logo
}

/// The action of a key press on the board: with a square selected, Escape
/// clears the selection and Backspace clears the square; a fresh press of
/// `n` switches pencil marks; with a square selected, a digit key enters
/// that digit.
pub open spec fn key_press_action(press: KeyPress, has_selection: bool) -> Option<Action> {
    if press.key is Escape && has_selection {
        Some(Action::ClearSelection)
    } else if press.key is Backspace && has_selection {
        Some(Action::ClearCell)
    } else if !press.repeat && notes_toggle_key(press.key, press.modifiers) {
        Some(Action::ToggleNotes)
    } else if has_selection {
        match key_digit(press.key, press.physical_key) {
            Some(digit) => Some(Action::EnterDigit(digit)),
            None => None,
        }
    } else {
        None
    }
}

/// Law: a key press asks to enter a digit only with a square selected and
/// only a digit from 1 to 9; it clears the selection or the square only
/// with a square selected, on Escape or Backspace; it switches pencil
/// marks only on a fresh press of a lone `n` or `N` without control, alt
/// or logo; the Escape and Backspace keys never enter a digit.
pub proof fn law_key_actions(press: KeyPress, has_selection: bool)
    ensures
        ({
            let action = key_press_action(press, has_selection);
            &&& action matches Some(Action::EnterDigit(d)) ==> has_selection && 1 <= d <= 9
            &&& action == Some(Action::ClearSelection) ==> has_selection && press.key is Escape
            &&& action == Some(Action::ClearCell) ==> has_selection && press.key is Backspace
            &&& action == Some(Action::ToggleNotes) ==> {
                &&& !press.repeat
                &&& !press.modifiers.control && !press.modifiers.alt && !press.modifiers.logo
                &&& press.key matches Key::Character(text) && (text@ == seq!['n'] || text@ == seq!['N'])
            }
            &&& action is None || action matches Some(Action::EnterDigit(_)) || action
                == Some(Action::ClearSelection) || action == Some(Action::ClearCell) || action
                == Some(Action::ToggleNotes)
            &&& (press.key is Escape && has_selection) ==> action == Some(Action::ClearSelection)
            &&& (press.key is Backspace && has_selection) ==> action == Some(Action::ClearCell)
            &&& !has_selection ==> (action is None || action == Some(Action::ToggleNotes))
        }),
{
    if let Key::Character(text) = press.key {
        if text@.len() == 1 && ascii_lower(text@[0]) == 'n' {
            assert(text@ =~= seq!['n'] || text@ =~= seq!['N']);
        }
    }
}

/// Law: a typed digit key enters its digit, and a keypad digit key enters
/// its digit unless the typed text reads as another digit from 1 to 9.
pub proof fn law_typed_digits(text: String, physical_key: PhysicalKey, digit: u8)
    requires
        1 <= digit <= 9,
        text@ == seq![('0' as u32 + digit) as char],
    ensures
        key_digit(Key::Character(text), physical_key) == Some(digit),
        key_digit(Key::Other, PhysicalKey::Numpad(digit)) == Some(digit),
{
    let digits = text@;
    assert(digits.drop_last() =~= Seq::<char>::empty());
    assert(decimal_value(digits.drop_last()) == 0);
    assert(decimal_value(digits) == digit);
}

/// The action that a key press asks of the board, if any.
pub fn key_action(press: &KeyPress, has_selection: bool) -> (action: Option<Action>)
    ensures
        action == key_press_action(*press, has_selection),
{
    match &press.key {
        Key::Escape => if has_selection {
            return Some(Action::ClearSelection);
        },
        Key::Backspace => if has_selection {
            return Some(Action::ClearCell);
        },
        _ => {},
    }
    if !press.repeat && is_notes_toggle_key(&press.key, press.modifiers) {
        return Some(Action::ToggleNotes);
    }
    if has_selection {
        if let Some(digit) = digit_from_key(&press.key, press.physical_key) {
            return Some(Action::EnterDigit(digit));
        }
    }
    None
}

} // verus!
