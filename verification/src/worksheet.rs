//! Worksheets: a sparse grid of cells and the charts anchored in it.
//!
//! The cells are kept in reading order, row by row and within a row column
//! by column, and no place holds two of them.

use vstd::prelude::*;
use crate::error::XlsxError;
use crate::number::Number;
use crate::reference::{cell_in_bounds, in_bounds, MAX_COLS, MAX_ROWS};

verus! {

/// What a cell holds.
#[derive(Debug)]
pub enum CellValue {
    Number(Number),
    /// A text, by its index in the workbook's string table.
    Text(usize),
    /// A formula as written, and the value last computed for it, if known.
    Formula(Vec<u8>, Option<Number>),
    Boolean(bool),
    Blank,
}

/// The model of what a cell holds.
pub enum CellData {
    Number(Number),
    Text(nat),
    Formula(Seq<u8>, Option<Number>),
    Boolean(bool),
    Blank,
}

impl View for CellValue {
    type V = CellData;

    open spec fn view(&self) -> CellData {
        match *self {
            CellValue::Number(n) => CellData::Number(n),
            CellValue::Text(index) => CellData::Text(index as nat),
            CellValue::Formula(text, cached) => CellData::Formula(text@, cached),
            CellValue::Boolean(b) => CellData::Boolean(b),
            CellValue::Blank => CellData::Blank,
        }
    }
}

/// A cell at its place.
#[derive(Debug)]
pub struct Cell {
    pub row: u32,
    pub col: u16,
    pub value: CellValue,
}

/// The model of a cell at its place.
pub struct CellEntry {
    pub row: nat,
    pub col: nat,
    pub value: CellData,
}

impl View for Cell {
    type V = CellEntry;

    open spec fn view(&self) -> CellEntry {
        CellEntry { row: self.row as nat, col: self.col as nat, value: self.value@ }
    }
}

/// The place at which a chart is shown: the cell of its top left corner,
/// and the identifier of the chart.
#[derive(Clone, Copy, Debug, PartialEq, Eq, Structural)]
pub struct Anchor {
    pub row: u32,
    pub col: u16,
    pub chart: usize,
}

/// What a worksheet holds.
pub struct SheetData {
    pub id: nat,
    pub name: Seq<u8>,
    pub cells: Seq<CellEntry>,
    pub anchors: Seq<Anchor>,
}

/// The rank of a place in reading order.
pub open spec fn place(row: nat, col: nat) -> int {
    row * MAX_COLS + col
}

/// Every cell lies on the sheet, and the cells stand in reading order, each
/// place once.
pub open spec fn in_reading_order(cells: Seq<CellEntry>) -> bool {
    &&& forall|i: int|
        0 <= i < cells.len() ==> (#[trigger] cells[i]).row < MAX_ROWS && cells[i].col < MAX_COLS
    &&& forall|i: int, j: int|
        0 <= i < j < cells.len() ==> place((#[trigger] cells[i]).row, cells[i].col) < place(
            (#[trigger] cells[j]).row,
            cells[j].col,
        )
}

/// The number of leading cells that come before rank `k`: the index at
/// which a cell of that rank stands or would be put.
pub open spec fn lower_bound(cells: Seq<CellEntry>, k: int) -> int
    decreases cells.len(),
{
    if cells.len() == 0 {
        0
    } else if place(cells.last().row, cells.last().col) >= k {
        lower_bound(cells.drop_last(), k)
    } else {
        cells.len() as int
    }
}

/// What the grid holds at a place, if anything.
pub open spec fn lookup(cells: Seq<CellEntry>, row: nat, col: nat) -> Option<CellData> {
    let p = lower_bound(cells, place(row, col));
    if p < cells.len() && cells[p].row == row && cells[p].col == col {
        Some(cells[p].value)
    } else {
        None
    }
}

/// The grid after `entry` was written: in the place of the cell that stood
/// there, or between its neighbours in reading order.
pub open spec fn put(cells: Seq<CellEntry>, entry: CellEntry) -> Seq<CellEntry> {
    let p = lower_bound(cells, place(entry.row, entry.col));
    if p < cells.len() && cells[p].row == entry.row && cells[p].col == entry.col {
        cells.update(p, entry)
    } else {
        cells.insert(p, entry)
    }
}

/// A lower bound is an index of the grid, or its length.
pub proof fn lemma_lower_bound_range(cells: Seq<CellEntry>, k: int)
    ensures
        0 <= lower_bound(cells, k) <= cells.len(),
    decreases cells.len(),
{
    if cells.len() > 0 {
        lemma_lower_bound_range(cells.drop_last(), k);
    }
}

/// In a grid in reading order the lower bound of a rank parts the cells:
/// those before it come before the rank, those from it on do not.
#[verifier::rlimit(50)]
pub proof fn lemma_lower_bound(cells: Seq<CellEntry>, k: int)
    requires
        in_reading_order(cells),
    ensures
        0 <= lower_bound(cells, k) <= cells.len(),
        forall|i: int|
            0 <= i < lower_bound(cells, k) ==> place((#[trigger] cells[i]).row, cells[i].col)
                < k,
        forall|i: int|
            lower_bound(cells, k) <= i < cells.len() ==> place(
                (#[trigger] cells[i]).row,
                cells[i].col,
            ) >= k,
    decreases cells.len(),
{
    if cells.len() > 0 {
        let rest = cells.drop_last();
        assert(in_reading_order(rest)) by {
            assert forall|i: int| 0 <= i < rest.len() implies (#[trigger] rest[i]).row
                < MAX_ROWS && rest[i].col < MAX_COLS by {
                assert(rest[i] == cells[i]);
            }
            assert forall|i: int, j: int| 0 <= i < j < rest.len() implies place(
                (#[trigger] rest[i]).row,
                rest[i].col,
            ) < place((#[trigger] rest[j]).row, rest[j].col) by {
                assert(rest[i] == cells[i]);
                assert(rest[j] == cells[j]);
            }
        }
        lemma_lower_bound(rest, k);
        if place(cells.last().row, cells.last().col) >= k {
            assert forall|i: int| 0 <= i < lower_bound(cells, k) implies place(
                (#[trigger] cells[i]).row,
                cells[i].col,
            ) < k by {
                assert(rest[i] == cells[i]);
            }
            assert forall|i: int| lower_bound(cells, k) <= i < cells.len() implies place(
                (#[trigger] cells[i]).row,
                cells[i].col,
            ) >= k by {
                if i < rest.len() {
                    assert(rest[i] == cells[i]);
                }
            }
        } else {
            assert forall|i: int| 0 <= i < cells.len() implies place(
                (#[trigger] cells[i]).row,
                cells[i].col,
            ) < k by {
                if i < cells.len() - 1 {
                    assert(place(cells[i].row, cells[i].col) < place(
                        cells[cells.len() - 1].row,
                        cells[cells.len() - 1].col,
                    ));
                }
            }
        }
    }
}

/// Two places of the sheet have the same rank only where they are the same
/// place.
pub proof fn lemma_place_is_injective(r1: nat, c1: nat, r2: nat, c2: nat)
    requires
        c1 < MAX_COLS,
        c2 < MAX_COLS,
    ensures
        place(r1, c1) == place(r2, c2) <==> r1 == r2 && c1 == c2,
        r1 < r2 ==> place(r1, c1) < place(r2, c2),
{
}

/// Writing a cell keeps the grid in reading order.
#[verifier::rlimit(50)]
pub proof fn lemma_put_keeps_order(cells: Seq<CellEntry>, entry: CellEntry)
    requires
        in_reading_order(cells),
        entry.row < MAX_ROWS,
        entry.col < MAX_COLS,
    ensures
        in_reading_order(put(cells, entry)),
        0 <= lower_bound(cells, place(entry.row, entry.col)) < put(cells, entry).len(),
        put(cells, entry)[lower_bound(cells, place(entry.row, entry.col))] == entry,
{
    let k = place(entry.row, entry.col);
    let p = lower_bound(cells, k);
    let after = put(cells, entry);
    lemma_lower_bound(cells, k);
    if p < cells.len() && cells[p].row == entry.row && cells[p].col == entry.col {
        assert forall|i: int| 0 <= i < after.len() implies place(
            (#[trigger] after[i]).row,
            after[i].col,
        ) == place(cells[i].row, cells[i].col) && after[i].row < MAX_ROWS && after[i].col
            < MAX_COLS by {
            if i != p {
                assert(after[i] == cells[i]);
            }
        }
        assert forall|i: int, j: int| 0 <= i < j < after.len() implies place(
            (#[trigger] after[i]).row,
            after[i].col,
        ) < place((#[trigger] after[j]).row, after[j].col) by {
            assert(place(cells[i].row, cells[i].col) < place(cells[j].row, cells[j].col));
        }
    } else {
        if p < cells.len() {
            lemma_place_is_injective(cells[p].row, cells[p].col, entry.row, entry.col);
        }
        assert forall|i: int| 0 <= i < after.len() implies (#[trigger] after[i]).row < MAX_ROWS
            && after[i].col < MAX_COLS && (i < p ==> place(after[i].row, after[i].col) < k) && (i
            > p ==> place(after[i].row, after[i].col) > k && after[i] == cells[i - 1]) && (i < p
            ==> after[i] == cells[i]) by {
            if i < p {
                assert(after[i] == cells[i]);
            } else if i > p {
                assert(after[i] == cells[i - 1]);
                if i - 1 > p {
                    assert(place(cells[p].row, cells[p].col) < place(
                        cells[i - 1].row,
                        cells[i - 1].col,
                    ));
                }
            }
        }
        assert forall|i: int, j: int| 0 <= i < j < after.len() implies place(
            (#[trigger] after[i]).row,
            after[i].col,
        ) < place((#[trigger] after[j]).row, after[j].col) by {
            if j < p {
                assert(place(cells[i].row, cells[i].col) < place(cells[j].row, cells[j].col));
            } else if i > p {
                assert(place(cells[i - 1].row, cells[i - 1].col) < place(
                    cells[j - 1].row,
                    cells[j - 1].col,
                ));
            }
        }
    }
}

/// After a cell was written, its place holds the value written.
pub proof fn lemma_put_then_lookup(cells: Seq<CellEntry>, entry: CellEntry)
    requires
        in_reading_order(cells),
        entry.row < MAX_ROWS,
        entry.col < MAX_COLS,
    ensures
        lookup(put(cells, entry), entry.row, entry.col) == Some(entry.value),
{
    lemma_put_keeps_order(cells, entry);
    lemma_found_at(
        put(cells, entry),
        lower_bound(cells, place(entry.row, entry.col)),
        entry.row,
        entry.col,
    );
}

/// After a cell was written, every other place holds what it held before.
#[verifier::rlimit(50)]
pub proof fn lemma_put_leaves_others(cells: Seq<CellEntry>, entry: CellEntry, row: nat, col: nat)
    requires
        in_reading_order(cells),
        entry.row < MAX_ROWS,
        entry.col < MAX_COLS,
        row != entry.row || col != entry.col,
    ensures
        lookup(put(cells, entry), row, col) == lookup(cells, row, col),
{
    let k = place(entry.row, entry.col);
    let p = lower_bound(cells, k);
    let after = put(cells, entry);
    lemma_put_keeps_order(cells, entry);
    lemma_lower_bound(cells, k);
    let replaced = p < cells.len() && cells[p].row == entry.row && cells[p].col == entry.col;
    let k2 = place(row, col);
    let q = lower_bound(cells, k2);
    let q2 = lower_bound(after, k2);
    lemma_lower_bound(cells, k2);
    lemma_lower_bound(after, k2);
    if q < cells.len() && cells[q].row == row && cells[q].col == col {
        let at = if replaced || q < p {
            q
        } else {
            q + 1
        };
        assert(after[at] == cells[q]);
        lemma_found_at(after, at, row, col);
    } else if q2 < after.len() && after[q2].row == row && after[q2].col == col {
        let at = if replaced || q2 < p {
            q2
        } else {
            q2 - 1
        };
        assert(after[q2] == cells[at]);
        lemma_found_at(cells, at, row, col);
    }
}

/// In a grid in reading order, a cell that stands at a place is what a
/// lookup of that place finds.
pub proof fn lemma_found_at(cells: Seq<CellEntry>, i: int, row: nat, col: nat)
    requires
        in_reading_order(cells),
        0 <= i < cells.len(),
        cells[i].row == row,
        cells[i].col == col,
    ensures
        lower_bound(cells, place(row, col)) == i,
        lookup(cells, row, col) == Some(cells[i].value),
{
    let k = place(row, col);
    lemma_lower_bound(cells, k);
    let p = lower_bound(cells, k);
    if p < i {
        assert(place(cells[p].row, cells[p].col) >= k);
        assert(place(cells[p].row, cells[p].col) < place(cells[i].row, cells[i].col));
    } else if p > i {
        assert(place(cells[i].row, cells[i].col) < k);
    }
}

/// The views of a list of cells.
pub open spec fn cell_views(v: Seq<Cell>) -> Seq<CellEntry> {
    v.map_values(|c: Cell| c@)
}

/// Every anchor lies on the sheet.
pub open spec fn anchors_on_sheet(anchors: Seq<Anchor>) -> bool {
    forall|i: int|
        0 <= i < anchors.len() ==> (#[trigger] anchors[i]).row < MAX_ROWS && anchors[i].col
            < MAX_COLS
}

/// A worksheet.
#[derive(Debug)]
pub struct Worksheet {
    id: usize,
    name: Vec<u8>,
    cells: Vec<Cell>,
    anchors: Vec<Anchor>,
}

impl View for Worksheet {
    type V = SheetData;

    closed spec fn view(&self) -> SheetData {
        SheetData {
            id: self.id as nat,
            name: self.name@,
            cells: cell_views(self.cells@),
            anchors: self.anchors@,
        }
    }
}

/// The rank of a place in reading order.
fn rank(row: u32, col: u16) -> (k: u64)
    ensures
        k == place(row as nat, col as nat),
{
    row as u64 * 16_384 + col as u64
}

impl Worksheet {
    /// The cells stand in reading order, each place once, and cells and
    /// anchors lie on the sheet.
    pub open spec fn wf(&self) -> bool {
        in_reading_order(self@.cells) && anchors_on_sheet(self@.anchors)
    }

    /// An empty worksheet.
    pub fn new(id: usize, name: Vec<u8>) -> (sheet: Worksheet)
        ensures
            sheet.wf(),
            sheet@ == (SheetData {
                id: id as nat,
                name: name@,
                cells: Seq::empty(),
                anchors: Seq::empty(),
            }),
    {
        let sheet = Worksheet { id, name, cells: Vec::new(), anchors: Vec::new() };
        assert(sheet@.cells == Seq::<CellEntry>::empty());
        sheet
    }

    /// The worksheet's identifier.
    pub fn id(&self) -> (id: usize)
        ensures
            id == self@.id,
    {
        self.id
    }

    /// The worksheet's name.
    pub fn name(&self) -> (name: &Vec<u8>)
        ensures
            name@ == self@.name,
    {
        &self.name
    }

    /// Number of cells written.
    pub fn cell_count(&self) -> (n: usize)
        ensures
            n == self@.cells.len(),
    {
        self.cells.len()
    }

    /// The cell of index `index` in reading order, if there is one.
    pub fn cell(&self, index: usize) -> (r: Option<&Cell>)
        ensures
            r is Some <==> index < self@.cells.len(),
            r is Some ==> r->0@ == self@.cells[index as int],
    {
        if index < self.cells.len() {
            Some(&self.cells[index])
        } else {
            None
        }
    }

    /// Number of charts anchored in the worksheet.
    pub fn anchor_count(&self) -> (n: usize)
        ensures
            n == self@.anchors.len(),
    {
        self.anchors.len()
    }

    /// The anchor of index `index`, in the order of insertion, if there is
    /// one.
    pub fn anchor(&self, index: usize) -> (r: Option<Anchor>)
        ensures
            r is Some <==> index < self@.anchors.len(),
            r is Some ==> r->0 == self@.anchors[index as int],
    {
        if index < self.anchors.len() {
            Some(self.anchors[index])
        } else {
            None
        }
    }

    /// The index at which a cell of rank `k` stands or would be put.
    fn locate(&self, k: u64) -> (p: usize)
        ensures
            p == lower_bound(self@.cells, k as int),
            p <= self@.cells.len(),
    {
        let mut p: usize = self.cells.len();
        assert(self@.cells.subrange(0, p as int) == self@.cells);
        while p > 0 && rank(self.cells[p - 1].row, self.cells[p - 1].col) >= k
            invariant
                p <= self.cells@.len(),
                self@.cells.len() == self.cells@.len(),
                lower_bound(self@.cells.subrange(0, p as int), k as int) == lower_bound(
                    self@.cells,
                    k as int,
                ),
            decreases p,
        {
            proof {
                let upto = self@.cells.subrange(0, p as int);
                assert(upto.last() == self.cells@[p - 1]@);
                assert(upto.drop_last() == self@.cells.subrange(0, p - 1));
            }
            p -= 1;
        }
        proof {
            let upto = self@.cells.subrange(0, p as int);
            if p > 0 {
                assert(upto.last() == self.cells@[p - 1]@);
            }
        }
        p
    }

    /// What the cell at `row`, `col` holds, if one was written there.
    #[verifier::rlimit(50)]
    pub fn get(&self, row: i64, col: i64) -> (r: Option<&CellValue>)
        ensures
            !cell_in_bounds(row as int, col as int) ==> r is None,
            cell_in_bounds(row as int, col as int) ==> (match r {
                Some(value) => Some(value@),
                None => None,
            }) == lookup(self@.cells, row as nat, col as nat),
    {
        if !in_bounds(row, col) {
            return None;
        }
        let p = self.locate(rank(row as u32, col as u16));
        if p < self.cells.len() && self.cells[p].row == row as u32 && self.cells[p].col
            == col as u16 {
            assert(self@.cells[p as int] == self.cells@[p as int]@);
            Some(&self.cells[p].value)
        } else {
            proof {
                if p < self.cells.len() {
                    assert(self@.cells[p as int] == self.cells@[p as int]@);
                }
            }
            None
        }
    }

    /// Writes `value` to the cell at `row`, `col`, in the place of what the
    /// cell held. A place off the sheet is refused with `InvalidReference`,
    /// and the worksheet stays as it is.
    #[verifier::rlimit(50)]
    pub fn write(&mut self, row: i64, col: i64, value: CellValue) -> (r: Result<(), XlsxError>)
        requires
            old(self).wf(),
        ensures
            final(self).wf(),
            r is Ok <==> cell_in_bounds(row as int, col as int),
            r is Ok ==> final(self)@ == (SheetData {
                cells: put(
                    old(self)@.cells,
                    CellEntry { row: row as nat, col: col as nat, value: value@ },
                ),
                ..old(self)@
            }),
            r is Err ==> r->Err_0 == XlsxError::InvalidReference && *final(self) == *old(self),
    {
        if !in_bounds(row, col) {
            return Err(XlsxError::InvalidReference);
        }
        let cell = Cell { row: row as u32, col: col as u16, value };
        let p = self.locate(rank(cell.row, cell.col));
        let ghost before = self@.cells;
        proof {
            lemma_put_keeps_order(before, cell@);
            if p < self.cells.len() {
                assert(before[p as int] == self.cells@[p as int]@);
            }
        }
        if p < self.cells.len() && self.cells[p].row == cell.row && self.cells[p].col
            == cell.col {
            self.cells.set(p, cell);
            assert(self@.cells == before.update(p as int, cell@));
        } else {
            self.cells.insert(p, cell);
            assert(self@.cells == before.insert(p as int, cell@));
        }
        Ok(())
    }

    /// Anchors the chart of identifier `chart` with its top left corner at
    /// the cell at `row`, `col`, after the anchors that the worksheet holds.
    /// A place off the sheet is refused with `InvalidReference`, and the
    /// worksheet stays as it is.
    pub fn insert_chart(&mut self, row: i64, col: i64, chart: usize) -> (r: Result<
        (),
        XlsxError,
    >)
        requires
            old(self).wf(),
        ensures
            final(self).wf(),
            r is Ok <==> cell_in_bounds(row as int, col as int),
            r is Ok ==> final(self)@ == (SheetData {
                anchors: old(self)@.anchors.push(
                    Anchor { row: row as u32, col: col as u16, chart },
                ),
                ..old(self)@
            }),
            r is Err ==> r->Err_0 == XlsxError::InvalidReference && *final(self) == *old(self),
    {
        if !in_bounds(row, col) {
            return Err(XlsxError::InvalidReference);
        }
        self.anchors.push(Anchor { row: row as u32, col: col as u16, chart });
        Ok(())
    }
}

/// The views of a list of worksheets.
pub open spec fn sheet_views(v: Seq<Worksheet>) -> Seq<SheetData> {
    v.map_values(|s: Worksheet| s@)
}

} // verus!
