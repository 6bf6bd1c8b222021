//! The worksheet part: the cells of one worksheet, row by row.

use vstd::prelude::*;
use vstd::string::*;
use vstd::seq_lib::lemma_concat_associative;
use crate::bytes::{append, append_decimal, append_str, decimal};
use crate::error::XlsxError;
use crate::number::number_text;
use crate::reference::{append_column_name, column_name};
use crate::worksheet::{Cell, CellData, CellEntry, CellValue, SheetData, Worksheet};
use crate::xml::{append_formula_body, declaration, escaped, formula_body, DECLARATION};

verus! {

/// Opens the worksheet element and the element of its cells.
pub const WORKSHEET_OPEN: &'static str = "<worksheet xmlns=\"http://schemas.openxmlformats.org/spreadsheetml/2006/main\" xmlns:r=\"http://schemas.openxmlformats.org/officeDocument/2006/relationships\"><sheetData>";

/// Closes the cells and the worksheet element, with the reference to the drawing between them.
pub const WORKSHEET_CLOSE_DRAWING: &'static str = "</sheetData><drawing r:id=\"rId1\"/></worksheet>";

/// Closes the cells and the worksheet element.
pub const WORKSHEET_CLOSE: &'static str = "</sheetData></worksheet>";

/// What stands in a cell's element after its name: the attribute that
/// gives the kind of value, and the value.
pub open spec fn value_xml(value: CellData) -> Seq<u8> {
    match value {
        CellData::Number(n) => "\"><v>".spec_bytes() + number_text(n) + "</v></c>".spec_bytes(),
        CellData::Text(index) => "\" t=\"s\"><v>".spec_bytes() + decimal(index)
            + "</v></c>".spec_bytes(),
        CellData::Formula(text, cached) => "\"><f>".spec_bytes() + escaped(formula_body(text))
            + "</f><v>".spec_bytes() + (match cached {
            Some(n) => number_text(n),
            None => "0".spec_bytes(),
        }) + "</v></c>".spec_bytes(),
        CellData::Boolean(b) => if b {
            "\" t=\"b\"><v>1</v></c>".spec_bytes()
        } else {
            "\" t=\"b\"><v>0</v></c>".spec_bytes()
        },
        CellData::Blank => "\"/>".spec_bytes(),
    }
}

/// The element of one cell.
pub open spec fn cell_xml(cell: CellEntry) -> Seq<u8> {
    "<c r=\"".spec_bytes() + column_name(cell.col) + decimal(cell.row + 1) + value_xml(cell.value)
}

/// What opens the element of a row.
pub open spec fn row_open(row: nat) -> Seq<u8> {
    "<row r=\"".spec_bytes() + decimal(row + 1) + "\">".spec_bytes()
}

/// Whether the cell of index `i` is the first of its row.
pub open spec fn starts_row(cells: Seq<CellEntry>, i: int) -> bool {
    i == 0 || cells[i - 1].row != cells[i].row
}

/// Whether the cell of index `i` is the last of its row.
pub open spec fn ends_row(cells: Seq<CellEntry>, i: int) -> bool {
    i == cells.len() - 1 || cells[i + 1].row != cells[i].row
}

/// The element of the cell of index `i`, after the opening of its row
/// where it is the first of the row, before the closing of its row where it
/// is the last.
pub open spec fn cell_item(cells: Seq<CellEntry>, i: int) -> Seq<u8> {
    (if starts_row(cells, i) {
        row_open(cells[i].row)
    } else {
        Seq::empty()
    }) + cell_xml(cells[i]) + (if ends_row(cells, i) {
        "</row>".spec_bytes()
    } else {
        Seq::empty()
    })
}

/// The first `n` cells, row by row.
pub open spec fn sheet_rows(cells: Seq<CellEntry>, n: int) -> Seq<u8>
    decreases n,
{
    if n <= 0 {
        Seq::empty()
    } else {
        sheet_rows(cells, n - 1) + cell_item(cells, n - 1)
    }
}

/// What opens the worksheet part, up to the cells.
pub open spec fn sheet_head() -> Seq<u8> {
    declaration()
        + WORKSHEET_OPEN.spec_bytes()
}

/// What closes the worksheet part: with the reference to the drawing where
/// charts are anchored in the worksheet.
pub open spec fn sheet_tail(has_drawing: bool) -> Seq<u8> {
    if has_drawing {
        WORKSHEET_CLOSE_DRAWING.spec_bytes()
    } else {
        WORKSHEET_CLOSE.spec_bytes()
    }
}

/// The worksheet part.
pub open spec fn sheet_part(sheet: SheetData) -> Seq<u8> {
    sheet_head() + sheet_rows(sheet.cells, sheet.cells.len() as int) + sheet_tail(
        sheet.anchors.len() > 0,
    )
}

/// Every text cell names an entry of a string table of `strings` entries.
pub open spec fn texts_resolve(cells: Seq<CellEntry>, strings: nat) -> bool {
    forall|i: int|
        0 <= i < cells.len() ==> ((#[trigger] cells[i]).value matches CellData::Text(index)
            ==> index < strings)
}

/// What stands in a cell's element after its name.
fn value_element(value: &CellValue) -> (piece: Vec<u8>)
    ensures
        piece@ == value_xml(value@),
{
    match value {
        CellValue::Number(n) => {
            let mut piece = "\"><v>".as_bytes_vec();
            n.append_to(&mut piece);
            append_str(&mut piece, "</v></c>");
            piece
        },
        CellValue::Text(index) => {
            let mut piece = "\" t=\"s\"><v>".as_bytes_vec();
            append_decimal(&mut piece, *index as u64);
            append_str(&mut piece, "</v></c>");
            piece
        },
        CellValue::Formula(text, cached) => {
            let mut piece = "\"><f>".as_bytes_vec();
            append_formula_body(&mut piece, text.as_slice());
            append_str(&mut piece, "</f><v>");
            match cached {
                Some(n) => {
                    n.append_to(&mut piece);
                },
                None => {
                    append_str(&mut piece, "0");
                },
            }
            append_str(&mut piece, "</v></c>");
            piece
        },
        CellValue::Boolean(b) => {
            if *b {
                "\" t=\"b\"><v>1</v></c>".as_bytes_vec()
            } else {
                "\" t=\"b\"><v>0</v></c>".as_bytes_vec()
            }
        },
        CellValue::Blank => "\"/>".as_bytes_vec(),
    }
}

/// The element of one cell.
pub fn cell_element(cell: &Cell) -> (piece: Vec<u8>)
    ensures
        piece@ == cell_xml(cell@),
{
    let value = value_element(&cell.value);
    let mut piece = "<c r=\"".as_bytes_vec();
    append_column_name(&mut piece, cell.col);
    append_decimal(&mut piece, cell.row as u64 + 1);
    append(&mut piece, value.as_slice());
    piece
}

/// What opens the element of a row.
fn row_opening(row: u32) -> (piece: Vec<u8>)
    ensures
        piece@ == row_open(row as nat),
{
    let mut piece = "<row r=\"".as_bytes_vec();
    append_decimal(&mut piece, row as u64 + 1);
    append_str(&mut piece, "\">");
    piece
}

/// The element of the cell of index `i` of `sheet`, with the opening and
/// the closing of its row where they are due.
#[verifier::rlimit(50)]
fn item(sheet: &Worksheet, i: usize) -> (piece: Vec<u8>)
    requires
        i < sheet@.cells.len(),
    ensures
        piece@ == cell_item(sheet@.cells, i as int),
{
    let n = sheet.cell_count();
    let cell = match sheet.cell(i) {
        Some(cell) => cell,
        None => { return Vec::new(); },
    };
    let starts = i == 0 || match sheet.cell(i - 1) {
        Some(before) => before.row != cell.row,
        None => true,
    };
    let ends = i + 1 == n || match sheet.cell(i + 1) {
        Some(next) => next.row != cell.row,
        None => true,
    };
    let element = cell_element(cell);
    let mut piece = if starts {
        row_opening(cell.row)
    } else {
        Vec::new()
    };
    append(&mut piece, element.as_slice());
    if ends {
        append_str(&mut piece, "</row>");
    } else {
        assert(piece@ == piece@ + Seq::<u8>::empty());
    }
    piece
}

/// Whether the cell is no text, or a text of a table of `strings` entries.
fn resolves(cell: &Cell, strings: usize) -> (r: bool)
    ensures
        r == (cell@.value matches CellData::Text(index) ==> index < strings),
{
    match &cell.value {
        CellValue::Text(index) => *index < strings,
        _ => true,
    }
}

/// The worksheet part of `sheet`, for a string table of `strings` entries.
/// Where a text cell names no entry of the table, nothing is written and
/// the call fails with `SchemaViolation`.
#[verifier::rlimit(50)]
pub fn write_sheet(sheet: &Worksheet, strings: usize) -> (r: Result<Vec<u8>, XlsxError>)
    ensures
        r is Ok <==> texts_resolve(sheet@.cells, strings as nat),
        r is Ok ==> r->Ok_0@ == sheet_part(sheet@),
        r is Err ==> r->Err_0 == XlsxError::SchemaViolation,
{
    let mut out = DECLARATION.as_bytes_vec();
    append_str(&mut out, WORKSHEET_OPEN);
    let n = sheet.cell_count();
    let ghost cells = sheet@.cells;
    let mut i: usize = 0;
    assert(out@ == sheet_head() + sheet_rows(cells, 0));
    while i < n
        invariant
            i <= n,
            n == cells.len(),
            cells == sheet@.cells,
            out@ == sheet_head() + sheet_rows(cells, i as int),
            forall|k: int|
                0 <= k < i ==> ((#[trigger] cells[k]).value matches CellData::Text(index)
                    ==> index < strings),
        decreases n - i,
    {
        match sheet.cell(i) {
            Some(cell) => {
                if !resolves(cell, strings) {
                    return Err(XlsxError::SchemaViolation);
                }
            },
            None => {},
        }
        let piece = item(sheet, i);
        proof {
            lemma_concat_associative(sheet_head(), sheet_rows(cells, i as int), piece@);
        }
        append(&mut out, piece.as_slice());
        i += 1;
    }
    if sheet.anchor_count() > 0 {
        append_str(&mut out, WORKSHEET_CLOSE_DRAWING);
    } else {
        append_str(&mut out, WORKSHEET_CLOSE);
    }
    Ok(out)
}

} // verus!
