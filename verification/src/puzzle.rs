use vstd::prelude::*;

verus! {

/// Number of rows, of columns and of digits of the board.
pub const GRID_DIMENSION: usize = 9;
/// Number of rows and of columns of one box of the board.
pub const BOX_DIMENSION: usize = 3;

/// Number of bytes of one encoded puzzle record.
pub const PUZZLE_RECORD_BYTE_COUNT: usize = 43;
/// Number of bits of a record that hold the solution: nine packed rows.
pub const SOLUTION_BIT_COUNT: usize = 261;
/// Number of bits of one packed solution row.
pub const SOLUTION_ROW_BIT_COUNT: usize = 29;
/// Number of difficulty levels; the records of each level form one
/// contiguous run, in the order of [`Difficulty`].
pub const DIFFICULTY_COUNT: usize = 4;

/// A puzzle: its level, the digits given at the start and the full solution.
#[derive(Debug)]
pub struct Puzzle {
    pub difficulty: Difficulty,
    pub clues: [[Option<u8>; GRID_DIMENSION]; GRID_DIMENSION],
    pub solution: [[u8; GRID_DIMENSION]; GRID_DIMENSION],
}

/// The difficulty levels, from the easiest.
#[derive(Debug, Clone, Copy, PartialEq, Eq, Structural)]
pub enum Difficulty {
    Simple,
    Easy,
    Intermediate,
    Expert,
}

/// Position of a level in the order of [`Difficulty`].
pub open spec fn difficulty_index(difficulty: Difficulty) -> nat {
    match difficulty {
        Difficulty::Simple => 0,
        Difficulty::Easy => 1,
        Difficulty::Intermediate => 2,
        Difficulty::Expert => 3,
    }
}

impl Difficulty {
    /// The level's name, as shown to the player.
    pub fn name(self) -> (name: &'static str)
        ensures
            name@ == difficulty_name(self),
    {
        match self {
            Difficulty::Simple => "Simple",
            Difficulty::Easy => "Easy",
            Difficulty::Intermediate => "Intermediate",
            Difficulty::Expert => "Expert",
        }
    }
}

/// The name of a level: the name of its variant.
pub open spec fn difficulty_name(difficulty: Difficulty) -> Seq<char> {
    match difficulty {
        Difficulty::Simple => "Simple"@,
        Difficulty::Easy => "Easy"@,
        Difficulty::Intermediate => "Intermediate"@,
        Difficulty::Expert => "Expert"@,
    }
}

/// Number of complete records in the encoded data.
pub open spec fn record_count(records: Seq<u8>) -> nat {
    records.len() / PUZZLE_RECORD_BYTE_COUNT as nat
}

/// Number of records of each level.
pub open spec fn records_per_difficulty(records: Seq<u8>) -> nat {
    record_count(records) / DIFFICULTY_COUNT as nat
}

/// The bytes of record number `index`.
pub open spec fn record_at(records: Seq<u8>, index: int) -> Seq<u8> {
    records.subrange(
        index * PUZZLE_RECORD_BYTE_COUNT as int,
        index * PUZZLE_RECORD_BYTE_COUNT as int + PUZZLE_RECORD_BYTE_COUNT as int,
    )
}

/// `9^k`.
pub open spec fn pow9(k: nat) -> nat
    decreases k,
{
    if k == 0 {
        1
    } else {
        9 * pow9((k - 1) as nat)
    }
}

/// The digit (1 to 9) that a packed row gives to `column`: the row is a
/// number in base 9 whose most significant digit is column 0, each digit
/// stored as the value minus one.
pub open spec fn packed_row_digit(packed_row: nat, column: int) -> int {
    ((packed_row / pow9((8 - column) as nat)) % 9) as int + 1
}

proof fn lemma_pow9_positive(k: nat)
    ensures
        pow9(k) > 0,
    decreases k,
{
    if k > 0 {
        lemma_pow9_positive((k - 1) as nat);
    }
}

/// The packed form of a row of digits from 1 to 9: a number in base 9,
/// the first column most significant, each digit stored as the value minus one.
pub open spec fn pack_row(row: Seq<int>) -> nat
    decreases row.len(),
{
    if row.len() == 0 {
        0
    } else {
        (pack_row(row.drop_last()) * 9 + (row.last() - 1)) as nat
    }
}

proof fn lemma_packed_row_digits(row: Seq<int>, column: int)
    requires
        forall|i: int| 0 <= i < row.len() ==> 1 <= #[trigger] row[i] <= 9,
        0 <= column < row.len(),
    ensures
        (pack_row(row) / pow9((row.len() - 1 - column) as nat)) % 9 == row[column] - 1,
        pack_row(row) < pow9(row.len()),
    decreases row.len(),
{
    let prefix = row.drop_last();
    let rest = row.last() - 1;
    if prefix.len() > 0 {
        lemma_packed_row_digits(prefix, if column < row.len() - 1 { column } else { 0 });
    } else {
        assert(pow9(0) == 1);
    }
    assert(pack_row(row) == pack_row(prefix) * 9 + rest);
    vstd::arithmetic::div_mod::lemma_fundamental_div_mod_converse(
        pack_row(row) as int,
        9,
        pack_row(prefix) as int,
        rest,
    );
    if column == row.len() - 1 {
        assert(pow9(0) == 1);
        assert(pack_row(row) as int / 1 == pack_row(row) as int);
        assert((row.len() - 1 - column) as nat == 0);
    } else {
        let k = (row.len() - 2 - column) as nat;
        lemma_pow9_positive(k);
        vstd::arithmetic::div_mod::lemma_div_denominator(pack_row(row) as int, 9, pow9(k) as int);
        assert(pow9(k + 1) == 9 * pow9(k));
        assert((row.len() - 1 - column) as nat == k + 1);
        assert(prefix[column] == row[column]);
        let p = pack_row(row) as int;
        assert(p / 9 == pack_row(prefix) as int);
        assert((p / 9) / (pow9(k) as int) == p / (9 * pow9(k) as int));
        assert(p / (pow9(k + 1) as int) == (pack_row(prefix) as int) / (pow9(k) as int));
        assert((prefix.len() - 1 - column) as nat == k);
    }
}

/// Law: decoding a packed row gives back the digits that were packed, and
/// a packed row fits in [`SOLUTION_ROW_BIT_COUNT`] bits.
pub proof fn law_packed_row_round_trip(row: Seq<int>)
    requires
        row.len() == 9,
        forall|i: int| 0 <= i < 9 ==> 1 <= #[trigger] row[i] <= 9,
    ensures
        pack_row(row) < vstd::arithmetic::power2::pow2(SOLUTION_ROW_BIT_COUNT as nat),
        forall|column: int| 0 <= column < 9 ==> #[trigger] packed_row_digit(pack_row(row), column) == row[column],
{
    assert forall|column: int| 0 <= column < 9 implies #[trigger] packed_row_digit(pack_row(row), column)
        == row[column] by {
        lemma_packed_row_digits(row, column);
    }
    lemma_packed_row_digits(row, 0);
    assert(pow9(9) == 387420489) by {
        reveal_with_fuel(pow9, 10);
    }
    vstd::arithmetic::power2::lemma2_to64();
}

/// Decodes a packed solution row into its nine digits.
pub fn decode_packed_solution_row(packed_row: u32) -> (row: [u8; GRID_DIMENSION])
    ensures
        forall|column: int|
            0 <= column < 9 ==> #[trigger] row[column] == packed_row_digit(packed_row as nat, column),
        forall|column: int| 0 <= column < 9 ==> 1 <= #[trigger] row[column] <= 9,
{
    let mut row: [u8; GRID_DIMENSION] = [0u8; GRID_DIMENSION];
    let mut rest: u32 = packed_row;
    let mut column: usize = GRID_DIMENSION;
    assert(pow9(0) == 1);
    assert((9 - column) as nat == 0);
    assert(packed_row as nat / 1 == packed_row as nat);
    while column > 0
        invariant
            column <= 9,
            rest as nat == packed_row as nat / pow9((9 - column) as nat),
            forall|c: int|
                column <= c < 9 ==> #[trigger] row[c] == packed_row_digit(packed_row as nat, c),
        decreases column,
    {
        column = column - 1;
        row[column] = (rest % 9) as u8 + 1;
        proof {
            let k: nat = (8 - column) as nat;
            lemma_pow9_positive(k);
            vstd::arithmetic::div_mod::lemma_div_denominator(packed_row as int, pow9(k) as int, 9);
            assert(pow9(k + 1) == pow9(k) * 9);
        }
        rest = rest / 9;
    }
    row
}


/// Bit number `bit_index` of a record, bits numbered from the least
/// significant bit of byte 0 upwards.
pub open spec fn record_bit(record: Seq<u8>, bit_index: int) -> nat {
    ((record[bit_index / 8] >> ((bit_index % 8) as u8)) & 1u8) as nat
}

/// The number whose bit `i` is bit `start_bit + i` of the record, for `i < bit_count`.
pub open spec fn record_bits_value(record: Seq<u8>, start_bit: int, bit_count: nat) -> nat
    decreases bit_count,
{
    if bit_count == 0 {
        0
    } else {
        record_bits_value(record, start_bit, (bit_count - 1) as nat) + record_bit(
            record,
            start_bit + bit_count - 1,
        ) * vstd::arithmetic::power2::pow2((bit_count - 1) as nat)
    }
}

/// Law: the eight record bits `8 * j .. 8 * j + 8` are the bits of byte
/// `j`, least significant first.
pub proof fn law_record_bits_of_byte(record: Seq<u8>, j: int)
    requires
        0 <= j < record.len(),
    ensures
        record[j] as int == record_bit(record, 8 * j) + 2 * record_bit(record, 8 * j + 1) + 4 * record_bit(
            record,
            8 * j + 2,
        ) + 8 * record_bit(record, 8 * j + 3) + 16 * record_bit(record, 8 * j + 4) + 32 * record_bit(
            record,
            8 * j + 5,
        ) + 64 * record_bit(record, 8 * j + 6) + 128 * record_bit(record, 8 * j + 7),
{
    let x = record[j];
    assert(8 * j / 8 == j && (8 * j) % 8 == 0) by (nonlinear_arith);
    assert((8 * j + 1) / 8 == j && (8 * j + 1) % 8 == 1) by (nonlinear_arith);
    assert((8 * j + 2) / 8 == j && (8 * j + 2) % 8 == 2) by (nonlinear_arith);
    assert((8 * j + 3) / 8 == j && (8 * j + 3) % 8 == 3) by (nonlinear_arith);
    assert((8 * j + 4) / 8 == j && (8 * j + 4) % 8 == 4) by (nonlinear_arith);
    assert((8 * j + 5) / 8 == j && (8 * j + 5) % 8 == 5) by (nonlinear_arith);
    assert((8 * j + 6) / 8 == j && (8 * j + 6) % 8 == 6) by (nonlinear_arith);
    assert((8 * j + 7) / 8 == j && (8 * j + 7) % 8 == 7) by (nonlinear_arith);
    assert(x as int == ((x >> 0u8) & 1u8) as int + 2 * ((x >> 1u8) & 1u8) as int + 4 * ((x >> 2u8) & 1u8) as int
        + 8 * ((x >> 3u8) & 1u8) as int + 16 * ((x >> 4u8) & 1u8) as int + 32 * ((x >> 5u8) & 1u8) as int + 64
        * ((x >> 6u8) & 1u8) as int + 128 * ((x >> 7u8) & 1u8) as int) by (bit_vector);
}

/// Law: bit `i` of the number read from a record is bit `start_bit + i`
/// of the record, and the number has no bits at or above `bit_count`.
pub proof fn law_bits_value_bits(record: Seq<u8>, start_bit: int, bit_count: nat, i: nat)
    requires
        i < bit_count,
    ensures
        (record_bits_value(record, start_bit, bit_count) / vstd::arithmetic::power2::pow2(i)) % 2
            == record_bit(record, start_bit + i),
        record_bits_value(record, start_bit, bit_count) < vstd::arithmetic::power2::pow2(bit_count),
    decreases bit_count,
{
    let n = bit_count;
    let top = (n - 1) as nat;
    let value = record_bits_value(record, start_bit, n) as int;
    let rest = record_bits_value(record, start_bit, top) as int;
    let b = record_bit(record, start_bit + top) as int;
    assert(b <= 1) by {
        let x = record[(start_bit + top) / 8];
        let k = ((start_bit + top) % 8) as u8;
        assert((x >> k) & 1u8 <= 1u8) by (bit_vector);
    }
    vstd::arithmetic::power2::lemma_pow2_pos(top);
    vstd::arithmetic::power2::lemma_pow2_unfold(n);
    let p = vstd::arithmetic::power2::pow2(top) as int;
    if top > 0 {
        law_bits_value_bits(record, start_bit, top, if i < top { i } else { 0 });
    } else {
        vstd::arithmetic::power2::lemma2_to64();
        assert(rest == 0);
    }
    assert(value == rest + b * p);
    assert(rest < p);
    assert(value < 2 * p) by (nonlinear_arith)
        requires
            0 <= b <= 1,
            0 <= rest < p,
            value == rest + b * p,
    ;
    if i == top {
        vstd::arithmetic::div_mod::lemma_fundamental_div_mod_converse(value, p, b, rest);
    } else {
        let q = vstd::arithmetic::power2::pow2(i) as int;
        let m = vstd::arithmetic::power2::pow2((top - i - 1) as nat) as int;
        vstd::arithmetic::power2::lemma_pow2_pos(i);
        vstd::arithmetic::power2::lemma_pow2_pos((top - i - 1) as nat);
        vstd::arithmetic::power2::lemma_pow2_adds(i, (top - i) as nat);
        vstd::arithmetic::power2::lemma_pow2_unfold((top - i) as nat);
        assert(i + (top - i) as nat == top);
        assert(p == q * (2 * m));
        let low = rest / q;
        let r = rest % q;
        assert(rest == low * q + r) by {
            vstd::arithmetic::div_mod::lemma_fundamental_div_mod(rest, q);
            vstd::arithmetic::mul::lemma_mul_is_commutative(q, low);
        }
        assert(value == (low + b * 2 * m) * q + r) by (nonlinear_arith)
            requires
                value == rest + b * p,
                rest == low * q + r,
                p == q * (2 * m),
        ;
        assert(0 <= r < q) by {
            vstd::arithmetic::div_mod::lemma_mod_bound(rest, q);
        }
        vstd::arithmetic::div_mod::lemma_fundamental_div_mod_converse(value, q, low + b * 2 * m, r);
        vstd::arithmetic::div_mod::lemma_mod_multiples_vanish(b * m, low, 2);
        assert(2 * (b * m) + low == low + b * 2 * m) by (nonlinear_arith);
    }
}

proof fn lemma_or_high_bit(value: u32, bit: u32, index: u32)
    requires
        index < 32,
        value < (1u32 << index),
        bit <= 1,
    ensures
        value | (bit << index) == value + (bit << index),
        value + (bit << index) < (1u64 << (index + 1)),
{
    assert(value | (bit << index) == value + (bit << index) && value + (bit << index) < (1u64 << (index + 1))) by (bit_vector)
        requires
            index < 32,
            value < (1u32 << index),
            bit <= 1,
    ;
}

/// Reads `BIT_COUNT` consecutive bits of a record starting at `start_bit`,
/// the first bit read becoming the least significant bit of the result.
pub fn extract_bits<const BIT_COUNT: usize>(record: &[u8], start_bit: usize) -> (value: u32)
    requires
        BIT_COUNT <= 32,
        BIT_COUNT > 0 ==> start_bit + BIT_COUNT <= record@.len() * 8,
        BIT_COUNT > 0 ==> start_bit + BIT_COUNT - 1 <= usize::MAX,
    ensures
        value == record_bits_value(record@, start_bit as int, BIT_COUNT as nat),
        value < vstd::arithmetic::power2::pow2(BIT_COUNT as nat),
{
    let mut value: u32 = 0;
    let mut index: usize = 0;
    proof {
        vstd::arithmetic::power2::lemma2_to64();
    }
    while index < BIT_COUNT
        invariant
            BIT_COUNT <= 32,
            BIT_COUNT > 0 ==> start_bit + BIT_COUNT <= record@.len() * 8,
            BIT_COUNT > 0 ==> start_bit + BIT_COUNT - 1 <= usize::MAX,
            index <= BIT_COUNT,
            value == record_bits_value(record@, start_bit as int, index as nat),
            value < vstd::arithmetic::power2::pow2(index as nat),
        decreases BIT_COUNT - index,
    {
        let bit_index = start_bit + index;
        let byte = record[bit_index / 8];
        let bit_in_byte = bit_index % 8;
        let bit = (byte >> (bit_in_byte as u8)) & 1;
        proof {
            vstd::arithmetic::power2::lemma2_to64();
            vstd::arithmetic::power2::lemma_pow2_strictly_increases(index as nat, 32);
            assert(bit <= 1) by (bit_vector)
                requires bit == (byte >> (bit_in_byte as u8)) & 1u8;
            vstd::bits::lemma_u32_shl_is_mul(1u32, index as u32);
            let p = vstd::arithmetic::power2::pow2(index as nat);
            let b = bit as u32;
            assert(b * p <= u32::MAX) by (nonlinear_arith)
                requires
                    b <= 1,
                    p <= u32::MAX,
            ;
            vstd::bits::lemma_u32_shl_is_mul(bit as u32, index as u32);
            vstd::arithmetic::power2::lemma_pow2_unfold((index + 1) as nat);
            vstd::bits::lemma_u64_shl_is_mul(1u64, (index + 1) as u64);
            lemma_or_high_bit(value, bit as u32, index as u32);
        }
        value = value | ((bit as u32) << (index as u32));
        index = index + 1;
    }
    value
}


/// The first bit of the packed row `row` of the solution: the rows are
/// stored from the last one, row 8 at bit 0.
pub open spec fn solution_row_start(row: int) -> int {
    (8 - row) * SOLUTION_ROW_BIT_COUNT as int
}

/// The solution digit that a record gives to a square.
pub open spec fn record_solution_digit(record: Seq<u8>, row: int, column: int) -> int {
    packed_row_digit(
        record_bits_value(record, solution_row_start(row), SOLUTION_ROW_BIT_COUNT as nat),
        column,
    )
}

/// Whether a record gives the digit of a square at the start: one bit per
/// square after the solution, row by row.
pub open spec fn record_clue_given(record: Seq<u8>, row: int, column: int) -> bool {
    record_bit(record, SOLUTION_BIT_COUNT as int + row * 9 + column) == 1
}

/// The record holds `rows` as its solution and `given` as its mask of
/// given squares, laid out as the format prescribes: row `r` packed into
/// the 29 bits that start at bit `232 - 29 * r` (the last row first), then
/// the 81 given-flags in reading order, flag `i` (square `i / 9`, `i % 9`)
/// at bit `261 + i`.
pub open spec fn record_encodes(record: Seq<u8>, rows: Seq<Seq<int>>, given: Seq<Seq<bool>>) -> bool {
    &&& forall|r: int|
        0 <= r < 9 ==> record_bits_value(record, 232 - 29 * r, 29) == pack_row(#[trigger] rows[r])
    &&& forall|i: int|
        0 <= i < 81 ==> (#[trigger] record_bit(record, 261 + i) == 1) == given[i / 9][i % 9]
}

/// Law: a record laid out by [`record_encodes`] decodes to the solution
/// and the given squares that were put into it.
pub proof fn law_record_round_trip(record: Seq<u8>, rows: Seq<Seq<int>>, given: Seq<Seq<bool>>)
    requires
        rows.len() == 9,
        forall|r: int| 0 <= r < 9 ==> (#[trigger] rows[r]).len() == 9,
        forall|r: int, c: int| 0 <= r < 9 && 0 <= c < 9 ==> 1 <= #[trigger] rows[r][c] <= 9,
        record_encodes(record, rows, given),
    ensures
        forall|r: int, c: int|
            0 <= r < 9 && 0 <= c < 9 ==> #[trigger] record_solution_digit(record, r, c) == rows[r][c],
        forall|r: int, c: int|
            0 <= r < 9 && 0 <= c < 9 ==> #[trigger] record_clue_given(record, r, c) == given[r][c],
{
    assert forall|r: int, c: int| 0 <= r < 9 && 0 <= c < 9 implies #[trigger] record_solution_digit(
        record,
        r,
        c,
    ) == rows[r][c] by {
        assert(solution_row_start(r) == 232 - 29 * r);
        assert(record_bits_value(record, 232 - 29 * r, 29) == pack_row(rows[r]));
        law_packed_row_round_trip(rows[r]);
    }
    assert forall|r: int, c: int| 0 <= r < 9 && 0 <= c < 9 implies #[trigger] record_clue_given(
        record,
        r,
        c,
    ) == given[r][c] by {
        let i = 9 * r + c;
        assert(i / 9 == r && i % 9 == c) by (nonlinear_arith)
            requires
                i == 9 * r + c,
                0 <= c < 9,
        ;
        assert(record_bit(record, 261 + i) == 1 <==> given[i / 9][i % 9]);
        assert(SOLUTION_BIT_COUNT as int + r * 9 + c == 261 + i);
    }
}

/// Decodes the solution held by a record.
pub fn decode_solution(record: &[u8]) -> (rows: [[u8; GRID_DIMENSION]; GRID_DIMENSION])
    requires
        record@.len() * 8 >= SOLUTION_BIT_COUNT,
    ensures
        forall|row: int, column: int|
            0 <= row < 9 && 0 <= column < 9 ==> #[trigger] rows[row][column]
                == record_solution_digit(record@, row, column),
        forall|row: int, column: int|
            0 <= row < 9 && 0 <= column < 9 ==> 1 <= #[trigger] rows[row][column] <= 9,
{
    let mut rows: [[u8; GRID_DIMENSION]; GRID_DIMENSION] = [[0u8; GRID_DIMENSION]; GRID_DIMENSION];
    let mut index: usize = 0;
    while index < GRID_DIMENSION
        invariant
            index <= 9,
            record@.len() * 8 >= SOLUTION_BIT_COUNT,
            forall|row: int, column: int|
                0 <= row < index && 0 <= column < 9 ==> #[trigger] rows[row][column]
                    == record_solution_digit(record@, row, column),
            forall|row: int, column: int|
                0 <= row < index && 0 <= column < 9 ==> 1 <= #[trigger] rows[row][column] <= 9,
        decreases 9 - index,
    {
        let start_bit = (GRID_DIMENSION - 1 - index) * SOLUTION_ROW_BIT_COUNT;
        let packed_row = extract_bits::<SOLUTION_ROW_BIT_COUNT>(record, start_bit);
        rows[index] = decode_packed_solution_row(packed_row);
        index = index + 1;
    }
    rows
}

/// Builds the starting digits of a puzzle: the solution's digit where the
/// record marks the square as given, nothing elsewhere.
pub fn build_clues(record: &[u8], solution: [[u8; GRID_DIMENSION]; GRID_DIMENSION]) -> (clues: [[Option<
    u8,
>; GRID_DIMENSION]; GRID_DIMENSION])
    requires
        record@.len() >= PUZZLE_RECORD_BYTE_COUNT,
    ensures
        forall|row: int, column: int|
            0 <= row < 9 && 0 <= column < 9 ==> #[trigger] clues[row][column] == if record_clue_given(
                record@,
                row,
                column,
            ) {
                Some(solution[row][column])
            } else {
                None
            },
{
    let mut clues: [[Option<u8>; GRID_DIMENSION]; GRID_DIMENSION] = [[None; GRID_DIMENSION]; GRID_DIMENSION];
    let mut row: usize = 0;
    while row < GRID_DIMENSION
        invariant
            row <= 9,
            record@.len() >= PUZZLE_RECORD_BYTE_COUNT,
            forall|r: int, c: int|
                0 <= r < row && 0 <= c < 9 ==> #[trigger] clues[r][c] == if record_clue_given(record@, r, c) {
                    Some(solution[r][c])
                } else {
                    None
                },
            forall|r: int, c: int| row <= r < 9 && 0 <= c < 9 ==> #[trigger] clues[r][c] == None::<u8>,
        decreases 9 - row,
    {
        let mut column: usize = 0;
        while column < GRID_DIMENSION
            invariant
                row < 9,
                column <= 9,
                record@.len() >= PUZZLE_RECORD_BYTE_COUNT,
                forall|r: int, c: int|
                    0 <= r < row && 0 <= c < 9 ==> #[trigger] clues[r][c] == if record_clue_given(record@, r, c) {
                        Some(solution[r][c])
                    } else {
                        None
                    },
                forall|c: int|
                    0 <= c < column ==> #[trigger] clues[row as int][c] == if record_clue_given(
                        record@,
                        row as int,
                        c,
                    ) {
                        Some(solution[row as int][c])
                    } else {
                        None
                    },
                forall|c: int| column <= c < 9 ==> #[trigger] clues[row as int][c] == None::<u8>,
                forall|r: int, c: int| row < r < 9 && 0 <= c < 9 ==> #[trigger] clues[r][c] == None::<u8>,
            decreases 9 - column,
        {
            let bit_index = SOLUTION_BIT_COUNT + row * GRID_DIMENSION + column;
            let byte_index = bit_index / 8;
            let bit_in_byte = bit_index % 8;
            let bit = (record[byte_index] >> (bit_in_byte as u8)) & 1;
            if bit == 1 {
                clues[row][column] = Some(solution[row][column]);
            }
            column = column + 1;
        }
        row = row + 1;
    }
    clues
}

/// Decodes one record into a puzzle of the given level.
pub fn decode_puzzle(record: &[u8], difficulty: Difficulty) -> (puzzle: Puzzle)
    requires
        record@.len() >= PUZZLE_RECORD_BYTE_COUNT,
    ensures
        puzzle_decodes_record(puzzle, record@, difficulty),
{
    let solution = decode_solution(record);
    let clues = build_clues(record, solution);
    Puzzle { difficulty, clues, solution }
}

/// `puzzle` is what a record decodes to, at level `difficulty`.
pub open spec fn puzzle_decodes_record(puzzle: Puzzle, record: Seq<u8>, difficulty: Difficulty) -> bool {
    &&& puzzle.difficulty == difficulty
    &&& forall|row: int, column: int|
        0 <= row < 9 && 0 <= column < 9 ==> #[trigger] puzzle.solution[row][column]
            == record_solution_digit(record, row, column)
    &&& forall|row: int, column: int|
        0 <= row < 9 && 0 <= column < 9 ==> #[trigger] puzzle.clues[row][column] == if record_clue_given(
            record,
            row,
            column,
        ) {
            Some(puzzle.solution[row][column])
        } else {
            None
        }
}

/// The indices of the records of one level.
pub fn difficulty_record_range(records: &[u8], difficulty: Difficulty) -> (range: core::ops::Range<usize>)
    ensures
        range.start == difficulty_index(difficulty) * records_per_difficulty(records@),
        range.end == range.start + records_per_difficulty(records@),
        range.end <= record_count(records@),
{
    let per_difficulty = records.len() / PUZZLE_RECORD_BYTE_COUNT / DIFFICULTY_COUNT;
    let index: usize = match difficulty {
        Difficulty::Simple => 0,
        Difficulty::Easy => 1,
        Difficulty::Intermediate => 2,
        Difficulty::Expert => 3,
    };
    assert(index * per_difficulty + per_difficulty <= record_count(records@)) by (nonlinear_arith)
        requires
            index <= 3,
            per_difficulty == record_count(records@) / 4,
    ;
    let start = index * per_difficulty;
    start..start + per_difficulty
}

/// Law: the records of two different levels never overlap, and every
/// level's records lie among the complete records of the data.
pub proof fn law_level_ranges_disjoint(records: Seq<u8>, first: Difficulty, second: Difficulty)
    requires
        first != second,
    ensures
        ({
            let per = records_per_difficulty(records);
            let a = difficulty_index(first) * per;
            let b = difficulty_index(second) * per;
            &&& a + per <= b || b + per <= a
            &&& a + per <= record_count(records)
        }),
{
    let per = records_per_difficulty(records) as int;
    let i = difficulty_index(first) as int;
    let j = difficulty_index(second) as int;
    assert(i != j);
    assert(i < j ==> i * per + per <= j * per) by (nonlinear_arith)
        requires
            per >= 0,
    ;
    assert(j < i ==> j * per + per <= i * per) by (nonlinear_arith)
        requires
            per >= 0,
    ;
    assert(i * per + per <= 4 * per) by (nonlinear_arith)
        requires
            per >= 0,
            0 <= i <= 3,
    ;
}

/// Calls `rand::random_range` on `start..end`. The value comes from the
/// thread-local generator; all that is claimed of it is that it lies in
/// the range, which rand's documentation promises for a non-empty range
/// (an empty one panics, hence the `requires`).
#[verifier::external_body]
fn random_index(start: usize, end: usize) -> (index: usize)
    requires
        start < end,
    ensures
        start <= index < end,
{
    rand::random_range(start..end)
}

/// Record number `draw` among the records of a level: draws `0, 1, ...`
/// name that level's records in order.
pub fn level_record(records: &[u8], difficulty: Difficulty, draw: usize) -> (record: &[u8])
    requires
        draw < records_per_difficulty(records@),
    ensures
        record@.len() == PUZZLE_RECORD_BYTE_COUNT,
        record@ == record_at(records@, drawn_index(records@, difficulty, draw as int)),
{
    let range = difficulty_record_range(records, difficulty);
    let record_index = range.start + draw;
    let length = records.len();
    assert(record_index * PUZZLE_RECORD_BYTE_COUNT + PUZZLE_RECORD_BYTE_COUNT <= length) by (nonlinear_arith)
        requires
            record_index < length / 43,
    ;
    let start = record_index * PUZZLE_RECORD_BYTE_COUNT;
    vstd::slice::slice_subrange(records, start, start + PUZZLE_RECORD_BYTE_COUNT)
}

/// The index of the record that draw `draw` names among the records of a level.
pub open spec fn drawn_index(records: Seq<u8>, difficulty: Difficulty, draw: int) -> int {
    difficulty_index(difficulty) * records_per_difficulty(records) + draw
}

/// Whether record number `index` is one of the records of a level.
pub open spec fn in_level(records: Seq<u8>, difficulty: Difficulty, index: int) -> bool {
    difficulty_index(difficulty) * records_per_difficulty(records) <= index < (difficulty_index(difficulty)
        + 1) * records_per_difficulty(records)
}

/// Law: the draws `0 .. records_per_difficulty` name every record of a
/// level, each by exactly one draw, and no record of another level.
pub proof fn law_level_draws_cover_level(records: Seq<u8>, difficulty: Difficulty)
    ensures
        forall|index: int|
            #[trigger] in_level(records, difficulty, index) ==> exists|draw: int|
                0 <= draw < records_per_difficulty(records) && #[trigger] drawn_index(
                    records,
                    difficulty,
                    draw,
                ) == index,
        forall|draw: int, other: int|
            #![trigger drawn_index(records, difficulty, draw), drawn_index(records, difficulty, other)]
            drawn_index(records, difficulty, draw) == drawn_index(records, difficulty, other) ==> draw
                == other,
        forall|draw: int|
            0 <= draw < records_per_difficulty(records) ==> in_level(
                records,
                difficulty,
                #[trigger] drawn_index(records, difficulty, draw),
            ),
{
    let per = records_per_difficulty(records) as int;
    let d = difficulty_index(difficulty) as int;
    assert((d + 1) * per == d * per + per) by (nonlinear_arith);
    assert forall|index: int| #[trigger] in_level(records, difficulty, index) implies exists|draw: int|
        0 <= draw < per && #[trigger] drawn_index(records, difficulty, draw) == index by {
        assert(drawn_index(records, difficulty, index - d * per) == index);
    }
}

/// Picks, at random, one record of the given level.
fn random_record(records: &[u8], difficulty: Difficulty) -> (record: &[u8])
    requires
        records_per_difficulty(records@) >= 1,
    ensures
        record@.len() == PUZZLE_RECORD_BYTE_COUNT,
        exists|index: int|
            difficulty_index(difficulty) * records_per_difficulty(records@) <= index < (
            difficulty_index(difficulty) + 1) * records_per_difficulty(records@) && record@
                == record_at(records@, index),
{
    let per_difficulty = records.len() / PUZZLE_RECORD_BYTE_COUNT / DIFFICULTY_COUNT;
    let draw = random_index(0, per_difficulty);
    let record = level_record(records, difficulty, draw);
    proof {
        let d = difficulty_index(difficulty) as int;
        let per = records_per_difficulty(records@) as int;
        assert((d + 1) * per == d * per + per) by (nonlinear_arith);
        assert(record@ == record_at(records@, d * per + draw));
    }
    record
}

/// A puzzle of the given level, decoded from a record chosen at random
/// among that level's records.
pub fn get_random_puzzle(records: &[u8], difficulty: Difficulty) -> (puzzle: Puzzle)
    requires
        records_per_difficulty(records@) >= 1,
    ensures
        exists|index: int|
            difficulty_index(difficulty) * records_per_difficulty(records@) <= index < (
            difficulty_index(difficulty) + 1) * records_per_difficulty(records@)
                && puzzle_decodes_record(puzzle, record_at(records@, index), difficulty),
{
    let record = random_record(records, difficulty);
    decode_puzzle(record, difficulty)
}

} // verus!
