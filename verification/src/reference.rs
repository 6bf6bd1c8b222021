//! Absolute cell and range references, and the formula text that names them.
//!
//! A range of one sheet is written `Sheet1!$A$1:$B$5`; a sheet name that is
//! empty or holds anything but letters, digits, `_` and `.` stands between
//! single quotes, with each single quote inside it doubled.

use vstd::prelude::*;
use crate::bytes::{append, append_decimal, decimal};
use crate::error::XlsxError;

verus! {

/// Number of rows of a worksheet.
pub const MAX_ROWS: u32 = 1_048_576;

/// Number of columns of a worksheet.
pub const MAX_COLS: u32 = 16_384;

pub const EQUALS: u8 = 61;

pub const BANG: u8 = 33;

pub const DOLLAR: u8 = 36;

pub const COLON: u8 = 58;

pub const QUOTE: u8 = 39;

pub const COMMA: u8 = 44;

pub const OPEN_PAREN: u8 = 40;

pub const CLOSE_PAREN: u8 = 41;

/// A rectangle of cells on a named sheet, rows and columns counted from zero.
pub struct Range {
    pub sheet: Seq<u8>,
    pub first_row: nat,
    pub first_col: nat,
    pub last_row: nat,
    pub last_col: nat,
}

impl Range {
    /// All four coordinates lie on the sheet.
    pub open spec fn in_bounds(self) -> bool {
        &&& self.first_row < MAX_ROWS
        &&& self.last_row < MAX_ROWS
        &&& self.first_col < MAX_COLS
        &&& self.last_col < MAX_COLS
    }

    /// The range is one cell.
    pub open spec fn is_single_cell(self) -> bool {
        self.first_row == self.last_row && self.first_col == self.last_col
    }
}

/// A rectangle of cells on a named sheet, as the parser hands it out.
#[derive(Debug, PartialEq, Eq)]
pub struct RangeRef {
    pub sheet: Vec<u8>,
    pub first_row: u32,
    pub first_col: u16,
    pub last_row: u32,
    pub last_col: u16,
}

impl View for RangeRef {
    type V = Range;

    open spec fn view(&self) -> Range {
        Range {
            sheet: self.sheet@,
            first_row: self.first_row as nat,
            first_col: self.first_col as nat,
            last_row: self.last_row as nat,
            last_col: self.last_col as nat,
        }
    }
}

/// Whether signed coordinates name a cell of the sheet.
pub open spec fn cell_in_bounds(row: int, col: int) -> bool {
    0 <= row < MAX_ROWS && 0 <= col < MAX_COLS
}

/// The letters of column `col`: `A` to `Z`, then `AA`, `AB` and so on.
pub open spec fn column_name(col: nat) -> Seq<u8>
    decreases col,
{
    if col < 26 {
        seq![(65 + col) as u8]
    } else {
        column_name((col / 26 - 1) as nat).push((65 + col % 26) as u8)
    }
}

/// The absolute reference of one cell, such as `$D$2` for row 1, column 3.
pub open spec fn cell_abs(row: nat, col: nat) -> Seq<u8> {
    seq![DOLLAR] + column_name(col) + seq![DOLLAR] + decimal(row + 1)
}

/// Bytes that may stand in a sheet name without quotes.
pub open spec fn is_plain_byte(b: u8) -> bool {
    ||| 48 <= b <= 57
    ||| 65 <= b <= 90
    ||| 97 <= b <= 122
    ||| b == 95
    ||| b == 46
}

/// Whether every byte of `name` may stand without quotes.
pub open spec fn all_plain(name: Seq<u8>) -> bool {
    forall|i: int| 0 <= i < name.len() ==> is_plain_byte(#[trigger] name[i])
}

/// Whether a sheet name is written between quotes.
pub open spec fn needs_quotes(name: Seq<u8>) -> bool {
    name.len() == 0 || !all_plain(name)
}

/// `name` with each single quote doubled.
pub open spec fn doubled_quotes(name: Seq<u8>) -> Seq<u8>
    decreases name.len(),
{
    if name.len() == 0 {
        Seq::empty()
    } else if name[0] == QUOTE {
        seq![QUOTE, QUOTE] + doubled_quotes(name.drop_first())
    } else {
        seq![name[0]] + doubled_quotes(name.drop_first())
    }
}

/// A sheet name as it stands in a formula.
pub open spec fn sheet_text(name: Seq<u8>) -> Seq<u8> {
    if needs_quotes(name) {
        seq![QUOTE] + doubled_quotes(name) + seq![QUOTE]
    } else {
        name
    }
}

/// The one-cell form `Sheet1!$A$1`, built from the first corner.
pub open spec fn cell_text(r: Range) -> Seq<u8> {
    sheet_text(r.sheet) + seq![BANG] + cell_abs(r.first_row, r.first_col)
}

/// The two-corner form `Sheet1!$A$1:$B$5`.
pub open spec fn range_text(r: Range) -> Seq<u8> {
    cell_text(r) + seq![COLON] + cell_abs(r.last_row, r.last_col)
}

/// The formula of a series' values: always the two-corner form.
pub open spec fn values_formula(r: Range) -> Seq<u8> {
    seq![EQUALS] + range_text(r)
}

/// The formula of a series' categories: the one-cell form for a single cell,
/// the two-corner form otherwise.
pub open spec fn categories_formula(r: Range) -> Seq<u8> {
    if r.is_single_cell() {
        seq![EQUALS] + cell_text(r)
    } else {
        seq![EQUALS] + range_text(r)
    }
}

/// Appends the letters of column `col`.
pub fn append_column_name(out: &mut Vec<u8>, col: u16)
    ensures
        final(out)@ == old(out)@ + column_name(col as nat),
    decreases col,
{
    if col < 26 {
        out.push(65u8 + (col as u8));
        assert(seq![(65 + col as nat) as u8] == Seq::<u8>::empty().push((65 + col) as u8));
    } else {
        append_column_name(out, col / 26 - 1);
        out.push(65u8 + ((col % 26) as u8));
    }
}

/// Appends the absolute reference of the cell at `row`, `col`.
pub fn append_cell_abs(out: &mut Vec<u8>, row: u32, col: u16)
    ensures
        final(out)@ == old(out)@ + cell_abs(row as nat, col as nat),
{
    out.push(DOLLAR);
    append_column_name(out, col);
    out.push(DOLLAR);
    append_decimal(out, row as u64 + 1);
}

/// Whether `b` may stand in a sheet name without quotes.
pub fn plain_byte(b: u8) -> (r: bool)
    ensures
        r == is_plain_byte(b),
{
    (48 <= b && b <= 57) || (65 <= b && b <= 90) || (97 <= b && b <= 122) || b == 95 || b == 46
}

/// Whether the sheet name `name` is written between quotes.
pub fn quotes_needed(name: &[u8]) -> (r: bool)
    ensures
        r == needs_quotes(name@),
{
    if name.len() == 0 {
        return true;
    }
    let mut i: usize = 0;
    while i < name.len()
        invariant
            i <= name@.len(),
            all_plain(name@.subrange(0, i as int)),
        decreases name@.len() - i,
    {
        if !plain_byte(name[i]) {
            return true;
        }
        assert forall|k: int| 0 <= k < i + 1 implies is_plain_byte(
            #[trigger] name@.subrange(0, i + 1)[k],
        ) by {
            if k < i {
                assert(name@.subrange(0, i as int)[k] == name@[k]);
            }
        }
        i += 1;
    }
    assert(name@.subrange(0, i as int) == name@);
    false
}

/// Doubling distributes over appending one byte.
pub proof fn lemma_doubled_quotes_push(name: Seq<u8>, b: u8)
    ensures
        doubled_quotes(name.push(b)) == doubled_quotes(name) + (if b == QUOTE {
            seq![QUOTE, QUOTE]
        } else {
            seq![b]
        }),
    decreases name.len(),
{
    if name.len() == 0 {
        assert(name.push(b).drop_first() == Seq::<u8>::empty());
        assert(doubled_quotes(name.push(b).drop_first()) == Seq::<u8>::empty());
    } else {
        assert(name.push(b).drop_first() == name.drop_first().push(b));
        lemma_doubled_quotes_push(name.drop_first(), b);
    }
}

/// Appends the sheet name `name` as it stands in a formula.
pub fn append_sheet_text(out: &mut Vec<u8>, name: &[u8])
    ensures
        final(out)@ == old(out)@ + sheet_text(name@),
{
    if !quotes_needed(name) {
        append(out, name);
        return;
    }
    out.push(QUOTE);
    let mut i: usize = 0;
    while i < name.len()
        invariant
            i <= name@.len(),
            out@ == old(out)@ + seq![QUOTE] + doubled_quotes(name@.subrange(0, i as int)),
        decreases name@.len() - i,
    {
        let b = name[i];
        proof {
            lemma_doubled_quotes_push(name@.subrange(0, i as int), b);
            assert(name@.subrange(0, i + 1) == name@.subrange(0, i as int).push(b));
        }
        if b == QUOTE {
            out.push(QUOTE);
        }
        out.push(b);
        i += 1;
    }
    assert(name@.subrange(0, i as int) == name@);
    out.push(QUOTE);
}

/// The range that four signed coordinates name on `sheet`.
pub open spec fn range_of(
    sheet: Seq<u8>,
    first_row: int,
    first_col: int,
    last_row: int,
    last_col: int,
) -> Range {
    Range {
        sheet,
        first_row: first_row as nat,
        first_col: first_col as nat,
        last_row: last_row as nat,
        last_col: last_col as nat,
    }
}

/// Whether `row`, `col` name a cell of the sheet.
pub fn in_bounds(row: i64, col: i64) -> (r: bool)
    ensures
        r == cell_in_bounds(row as int, col as int),
{
    0 <= row && row < 1_048_576 && 0 <= col && col < 16_384
}

/// Appends `Sheet1!$A$1`, the reference of one cell on a sheet.
pub fn append_cell_text(out: &mut Vec<u8>, sheet: &[u8], row: u32, col: u16)
    ensures
        final(out)@ == old(out)@ + cell_text(
            range_of(sheet@, row as int, col as int, row as int, col as int),
        ),
{
    append_sheet_text(out, sheet);
    out.push(BANG);
    append_cell_abs(out, row, col);
}

/// The formula for a series' values over the given rectangle: always the
/// two-corner form, also for a single cell. Coordinates off the sheet are
/// refused with `InvalidReference`.
pub fn format_values(
    sheet: &[u8],
    first_row: i64,
    first_col: i64,
    last_row: i64,
    last_col: i64,
) -> (r: Result<Vec<u8>, XlsxError>)
    ensures
        r is Ok <==> cell_in_bounds(first_row as int, first_col as int) && cell_in_bounds(
            last_row as int,
            last_col as int,
        ),
        r is Ok ==> r->Ok_0@ == values_formula(
            range_of(sheet@, first_row as int, first_col as int, last_row as int, last_col as int),
        ),
        r is Err ==> r->Err_0 == XlsxError::InvalidReference,
{
    if !in_bounds(first_row, first_col) || !in_bounds(last_row, last_col) {
        return Err(XlsxError::InvalidReference);
    }
    let mut out: Vec<u8> = Vec::new();
    out.push(EQUALS);
    append_cell_text(&mut out, sheet, first_row as u32, first_col as u16);
    out.push(COLON);
    append_cell_abs(&mut out, last_row as u32, last_col as u16);
    Ok(out)
}

/// The formula for a series' categories over the given rectangle: the
/// one-cell form where both corners coincide, the two-corner form otherwise.
/// Coordinates off the sheet are refused with `InvalidReference`.
pub fn format_categories(
    sheet: &[u8],
    first_row: i64,
    first_col: i64,
    last_row: i64,
    last_col: i64,
) -> (r: Result<Vec<u8>, XlsxError>)
    ensures
        r is Ok <==> cell_in_bounds(first_row as int, first_col as int) && cell_in_bounds(
            last_row as int,
            last_col as int,
        ),
        r is Ok ==> r->Ok_0@ == categories_formula(
            range_of(sheet@, first_row as int, first_col as int, last_row as int, last_col as int),
        ),
        r is Err ==> r->Err_0 == XlsxError::InvalidReference,
{
    if !in_bounds(first_row, first_col) || !in_bounds(last_row, last_col) {
        return Err(XlsxError::InvalidReference);
    }
    let mut out: Vec<u8> = Vec::new();
    out.push(EQUALS);
    append_cell_text(&mut out, sheet, first_row as u32, first_col as u16);
    if first_row != last_row || first_col != last_col {
        out.push(COLON);
        append_cell_abs(&mut out, last_row as u32, last_col as u16);
    }
    Ok(out)
}

} // verus!
