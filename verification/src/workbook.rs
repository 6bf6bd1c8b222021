//! The workbook: owner of the worksheets, the charts and the string tables.
//!
//! Worksheets and charts are numbered from one in the order in which they
//! were added, and never removed; a handle names one by its index. Closing
//! the workbook writes its package and ends its life: every later change,
//! and every later closing, is refused.

use vstd::prelude::*;
use vstd::string::*;
use crate::bytes::{append_decimal, append_str, decimal};
use crate::chart::{
    chart_views, owns_its_series, pooled, text_bytes, with_categories, with_series,
    with_values, Chart, ChartData, ChartKind,
};
use crate::error::XlsxError;
use crate::number::Number;
use crate::package::{all_texts_resolve, assemble, package, part_views, Part, PartData};
use crate::reference::{
    categories_formula, cell_in_bounds, in_bounds, range_of, values_formula,
};
use crate::sheet_xml::texts_resolve;
use crate::strings::{interned, lemma_intern_deduplicates, position, StringTable};
use crate::worksheet::{
    anchors_on_sheet, in_reading_order, lemma_lower_bound_range, lemma_put_keeps_order,
    lemma_put_leaves_others, lemma_put_then_lookup, lookup, lower_bound, place, put,
    sheet_views, Anchor, CellData, CellEntry, CellValue, SheetData, Worksheet,
};

verus! {

/// Names a worksheet of a workbook.
#[derive(Clone, Copy, Debug, PartialEq, Eq, Structural)]
pub struct WorksheetHandle {
    pub index: usize,
}

/// Names a chart of a workbook.
#[derive(Clone, Copy, Debug, PartialEq, Eq, Structural)]
pub struct ChartHandle {
    pub index: usize,
}

/// Names a series of a chart of a workbook.
#[derive(Clone, Copy, Debug, PartialEq, Eq, Structural)]
pub struct SeriesHandle {
    pub chart: usize,
    pub series: usize,
}

/// What a workbook holds.
pub struct WorkbookData {
    pub sheets: Seq<SheetData>,
    pub charts: Seq<ChartData>,
    /// The texts of the cells.
    pub strings: Seq<Seq<u8>>,
    /// The formulas that series were added with.
    pub formulas: Seq<Seq<u8>>,
    pub closed: bool,
}

/// A letter `A` to `Z` as its small letter, every other byte as it is.
pub open spec fn fold_case(b: u8) -> u8 {
    if 65 <= b <= 90 {
        (b + 32) as u8
    } else {
        b
    }
}

/// Whether two sheet names are the same, the case of the letters `A` to `Z`
/// set aside.
pub open spec fn same_name(a: Seq<u8>, b: Seq<u8>) -> bool {
    a.len() == b.len() && forall|i: int| 0 <= i < a.len() ==> fold_case(#[trigger] a[i])
        == fold_case(b[i])
}

/// Whether one of the first `n` worksheets has the name `name`.
pub open spec fn name_taken(sheets: Seq<SheetData>, name: Seq<u8>, n: int) -> bool {
    exists|i: int| 0 <= i < n && i < sheets.len() && same_name((#[trigger] sheets[i]).name, name)
}

/// The name of a worksheet that was added without one.
pub open spec fn default_name(number: nat) -> Seq<u8> {
    "Sheet".spec_bytes() + decimal(number)
}

/// The name that a worksheet gets which is added to `sheets` worksheets.
pub open spec fn name_for(name: Option<&str>, sheets: nat) -> Seq<u8> {
    match name {
        Some(n) => n.spec_bytes(),
        None => default_name(sheets + 1),
    }
}

/// Every anchor names a chart of a workbook with `charts` charts.
pub open spec fn anchors_resolve(anchors: Seq<Anchor>, charts: nat) -> bool {
    forall|i: int| 0 <= i < anchors.len() ==> 1 <= (#[trigger] anchors[i]).chart <= charts
}

/// What holds of the worksheet of index `index` in a workbook with
/// `strings` texts and `charts` charts.
pub open spec fn sheet_ok(sheet: SheetData, index: int, strings: nat, charts: nat) -> bool {
    &&& sheet.id == index + 1
    &&& in_reading_order(sheet.cells)
    &&& anchors_on_sheet(sheet.anchors)
    &&& texts_resolve(sheet.cells, strings)
    &&& anchors_resolve(sheet.anchors, charts)
}

/// What holds of every workbook: identifiers count from one in the order of
/// the worksheets and of the charts, no two worksheets share a name, no
/// text stands twice in a table, and every cell and anchor names what the
/// workbook holds.
pub open spec fn workbook_wf(w: WorkbookData) -> bool {
    &&& w.strings.no_duplicates()
    &&& w.formulas.no_duplicates()
    &&& w.sheets.len() < usize::MAX
    &&& w.charts.len() < usize::MAX
    &&& forall|i: int|
        0 <= i < w.sheets.len() ==> sheet_ok(
            #[trigger] w.sheets[i],
            i,
            w.strings.len(),
            w.charts.len(),
        )
    &&& forall|i: int|
        0 <= i < w.charts.len() ==> (#[trigger] w.charts[i]).id == i + 1 && owns_its_series(
            w.charts[i],
        )
    &&& forall|i: int, j: int|
        0 <= i < j < w.sheets.len() ==> !same_name(
            (#[trigger] w.sheets[i]).name,
            (#[trigger] w.sheets[j]).name,
        )
}

/// The workbook after it was closed.
pub open spec fn closing(w: WorkbookData) -> WorkbookData {
    WorkbookData { closed: true, ..w }
}

/// What closing a workbook hands out: its package, or the refusal where it
/// was closed before.
pub open spec fn close_result(w: WorkbookData) -> Result<Seq<PartData>, XlsxError> {
    if w.closed {
        Err(XlsxError::AlreadyClosed)
    } else {
        Ok(package(w.sheets, w.charts, w.strings))
    }
}

/// The workbook after a worksheet of the given name was added.
pub open spec fn with_sheet(w: WorkbookData, name: Seq<u8>) -> WorkbookData {
    WorkbookData {
        sheets: w.sheets.push(
            SheetData {
                id: w.sheets.len() + 1,
                name,
                cells: Seq::empty(),
                anchors: Seq::empty(),
            },
        ),
        ..w
    }
}

/// The workbook after a chart of the given kind was added.
pub open spec fn with_chart(w: WorkbookData, kind: ChartKind) -> WorkbookData {
    WorkbookData {
        charts: w.charts.push(
            ChartData { id: w.charts.len() + 1, kind, series: Seq::empty() },
        ),
        ..w
    }
}

/// The workbook with `chart` in the place of its chart of index `index`.
pub open spec fn with_chart_at(w: WorkbookData, index: int, chart: ChartData) -> WorkbookData {
    WorkbookData { charts: w.charts.update(index, chart), ..w }
}

/// The workbook with `sheet` in the place of its worksheet of index `index`.
pub open spec fn with_sheet_at(w: WorkbookData, index: int, sheet: SheetData) -> WorkbookData {
    WorkbookData { sheets: w.sheets.update(index, sheet), ..w }
}

/// How a change of an open workbook ends that is allowed only under a
/// condition: refused with `AlreadyClosed` after closing, with
/// `InvalidReference` where the condition fails.
pub open spec fn guarded(w: WorkbookData, allowed: bool) -> Result<(), XlsxError> {
    if w.closed {
        Err(XlsxError::AlreadyClosed)
    } else if !allowed {
        Err(XlsxError::InvalidReference)
    } else {
        Ok(())
    }
}

/// Whether the handle names a series of the workbook.
pub open spec fn has_series(w: WorkbookData, series: SeriesHandle) -> bool {
    series.chart < w.charts.len() && series.series < w.charts[series.chart as int].series.len()
}

/// Whether `value` may be written to the cell at `row`, `col` of the
/// worksheet: the worksheet and the cell exist, and a text is in the table.
pub open spec fn can_write(
    w: WorkbookData,
    sheet: WorksheetHandle,
    row: int,
    col: int,
    value: CellData,
) -> bool {
    &&& sheet.index < w.sheets.len()
    &&& cell_in_bounds(row, col)
    &&& (value matches CellData::Text(index) ==> index < w.strings.len())
}

/// The workbook after `value` was written to the cell at `row`, `col` of
/// the worksheet.
pub open spec fn written(
    w: WorkbookData,
    sheet: WorksheetHandle,
    row: int,
    col: int,
    value: CellData,
) -> WorkbookData {
    with_sheet_at(
        w,
        sheet.index as int,
        SheetData {
            cells: put(
                w.sheets[sheet.index as int].cells,
                CellEntry { row: row as nat, col: col as nat, value },
            ),
            ..w.sheets[sheet.index as int]
        },
    )
}

/// The workbook after the text `text` was written to the cell at `row`,
/// `col` of the worksheet: the text is interned in the string table, and
/// the cell holds its index.
pub open spec fn string_written(
    w: WorkbookData,
    sheet: WorksheetHandle,
    row: int,
    col: int,
    text: Seq<u8>,
) -> WorkbookData {
    written(
        WorkbookData { strings: interned(w.strings, text), ..w },
        sheet,
        row,
        col,
        CellData::Text(position(w.strings, text) as nat),
    )
}

/// Writing a cell whose text, if it holds one, is in the table leaves every
/// text cell of the grid naming an entry of the table.
#[verifier::rlimit(50)]
pub proof fn lemma_put_resolves(cells: Seq<CellEntry>, entry: CellEntry, strings: nat)
    requires
        texts_resolve(cells, strings),
        entry.value matches CellData::Text(index) ==> index < strings,
    ensures
        texts_resolve(put(cells, entry), strings),
{
    let after = put(cells, entry);
    let p = lower_bound(cells, place(entry.row, entry.col));
    lemma_lower_bound_range(cells, place(entry.row, entry.col));
    assert forall|i: int| 0 <= i < after.len() implies ((#[trigger] after[i]).value matches CellData::Text(
        index,
    ) ==> index < strings) by {
        if p < cells.len() && cells[p].row == entry.row && cells[p].col == entry.col {
            if i != p {
                assert(after[i] == cells[i]);
            }
        } else {
            if i < p {
                assert(after[i] == cells[i]);
            } else if i > p {
                assert(after[i] == cells[i - 1]);
            }
        }
    }
}

/// A workbook.
pub struct Workbook {
    sheets: Vec<Worksheet>,
    charts: Vec<Chart>,
    strings: StringTable,
    formulas: StringTable,
    closed: bool,
}

impl View for Workbook {
    type V = WorkbookData;

    closed spec fn view(&self) -> WorkbookData {
        WorkbookData {
            sheets: sheet_views(self.sheets@),
            charts: chart_views(self.charts@),
            strings: self.strings@,
            formulas: self.formulas@,
            closed: self.closed,
        }
    }
}

/// A letter `A` to `Z` as its small letter, every other byte as it is.
fn folded(b: u8) -> (r: u8)
    ensures
        r == fold_case(b),
{
    if 65 <= b && b <= 90 {
        b + 32
    } else {
        b
    }
}

/// Whether two sheet names are the same, the case of the letters `A` to `Z`
/// set aside.
pub fn names_match(a: &[u8], b: &[u8]) -> (r: bool)
    ensures
        r == same_name(a@, b@),
{
    if a.len() != b.len() {
        return false;
    }
    let mut i: usize = 0;
    while i < a.len()
        invariant
            a@.len() == b@.len(),
            i <= a@.len(),
            forall|k: int| 0 <= k < i ==> fold_case(#[trigger] a@[k]) == fold_case(b@[k]),
        decreases a@.len() - i,
    {
        if folded(a[i]) != folded(b[i]) {
            return false;
        }
        i += 1;
    }
    true
}

impl Workbook {
    /// The invariant of the workbook holds.
    pub open spec fn wf(&self) -> bool {
        workbook_wf(self@)
    }

    /// An empty, open workbook.
    pub fn new() -> (workbook: Workbook)
        ensures
            workbook.wf(),
            workbook@ == (WorkbookData {
                sheets: Seq::empty(),
                charts: Seq::empty(),
                strings: Seq::empty(),
                formulas: Seq::empty(),
                closed: false,
            }),
    {
        let workbook = Workbook {
            sheets: Vec::new(),
            charts: Vec::new(),
            strings: StringTable::new(),
            formulas: StringTable::new(),
            closed: false,
        };
        assert(workbook@.sheets == Seq::<SheetData>::empty());
        assert(workbook@.charts == Seq::<ChartData>::empty());
        workbook
    }

    /// Whether the workbook was closed.
    pub fn is_closed(&self) -> (closed: bool)
        ensures
            closed == self@.closed,
    {
        self.closed
    }

    /// Number of worksheets.
    pub fn sheet_count(&self) -> (n: usize)
        ensures
            n == self@.sheets.len(),
    {
        self.sheets.len()
    }

    /// Number of charts.
    pub fn chart_count(&self) -> (n: usize)
        ensures
            n == self@.charts.len(),
    {
        self.charts.len()
    }

    /// The worksheet that `handle` names, if the workbook holds it.
    pub fn sheet(&self, handle: WorksheetHandle) -> (r: Option<&Worksheet>)
        ensures
            r is Some <==> handle.index < self@.sheets.len(),
            r is Some ==> r->0@ == self@.sheets[handle.index as int],
    {
        if handle.index < self.sheets.len() {
            Some(&self.sheets[handle.index])
        } else {
            None
        }
    }

    /// The chart that `handle` names, if the workbook holds it.
    pub fn chart(&self, handle: ChartHandle) -> (r: Option<&Chart>)
        ensures
            r is Some <==> handle.index < self@.charts.len(),
            r is Some ==> r->0@ == self@.charts[handle.index as int],
    {
        if handle.index < self.charts.len() {
            Some(&self.charts[handle.index])
        } else {
            None
        }
    }

    /// The table of the texts of the cells.
    pub fn strings(&self) -> (table: &StringTable)
        ensures
            table@ == self@.strings,
    {
        &self.strings
    }

    /// The table of the formulas that series were added with.
    pub fn formulas(&self) -> (table: &StringTable)
        ensures
            table@ == self@.formulas,
    {
        &self.formulas
    }

    /// The worksheet of the name `name`, letter case set aside, if the
    /// workbook holds one.
    pub fn find_sheet(&self, name: &[u8]) -> (r: Option<WorksheetHandle>)
        ensures
            r is Some <==> name_taken(self@.sheets, name@, self@.sheets.len() as int),
            r is Some ==> r->0.index < self@.sheets.len() && same_name(
                self@.sheets[r->0.index as int].name,
                name@,
            ),
    {
        let mut i: usize = 0;
        while i < self.sheets.len()
            invariant
                i <= self.sheets@.len(),
                !name_taken(self@.sheets, name@, i as int),
            decreases self.sheets@.len() - i,
        {
            assert(self@.sheets[i as int] == self.sheets@[i as int]@);
            if names_match(self.sheets[i].name().as_slice(), name) {
                return Some(WorksheetHandle { index: i });
            }
            i += 1;
        }
        None
    }

    /// Whether a worksheet has the name `name`, letter case set aside.
    pub fn has_sheet_named(&self, name: &[u8]) -> (r: bool)
        ensures
            r == name_taken(self@.sheets, name@, self@.sheets.len() as int),
    {
        self.find_sheet(name).is_some()
    }

    /// Adds a worksheet after those that the workbook holds. Without a name
    /// it is called `Sheet` and its number. Refused with `AlreadyClosed`
    /// after the workbook was closed, and with `DuplicateName` where a
    /// worksheet has that name already, letter case set aside; the workbook
    /// then stays as it is.
    #[verifier::rlimit(50)]
    pub fn add_worksheet(&mut self, name: Option<&str>) -> (r: Result<WorksheetHandle, XlsxError>)
        requires
            old(self).wf(),
            old(self)@.sheets.len() + 1 < usize::MAX,
        ensures
            final(self).wf(),
            old(self)@.closed ==> r == Err::<WorksheetHandle, XlsxError>(
                XlsxError::AlreadyClosed,
            ) && *final(self) == *old(self),
            !old(self)@.closed && name_taken(
                old(self)@.sheets,
                name_for(name, old(self)@.sheets.len()),
                old(self)@.sheets.len() as int,
            ) ==> r == Err::<WorksheetHandle, XlsxError>(XlsxError::DuplicateName) && *final(self)
                == *old(self),
            !old(self)@.closed && !name_taken(
                old(self)@.sheets,
                name_for(name, old(self)@.sheets.len()),
                old(self)@.sheets.len() as int,
            ) ==> r == Ok::<WorksheetHandle, XlsxError>(
                WorksheetHandle { index: old(self)@.sheets.len() as usize },
            ) && final(self)@ == with_sheet(old(self)@, name_for(name, old(self)@.sheets.len())),
    {
        if self.closed {
            return Err(XlsxError::AlreadyClosed);
        }
        let index = self.sheets.len();
        let bytes = match name {
            Some(n) => n.as_bytes_vec(),
            None => {
                let mut generated: Vec<u8> = Vec::new();
                append_str(&mut generated, "Sheet");
                append_decimal(&mut generated, index as u64 + 1);
                generated
            },
        };
        assert(bytes@ == name_for(name, old(self)@.sheets.len()));
        if self.has_sheet_named(bytes.as_slice()) {
            return Err(XlsxError::DuplicateName);
        }
        let ghost before = self@.sheets;
        let sheet = Worksheet::new(index + 1, bytes);
        self.sheets.push(sheet);
        proof {
            let after = self@.sheets;
            assert(after == before.push(sheet@));
            assert forall|i: int| 0 <= i < after.len() implies sheet_ok(
                #[trigger] after[i],
                i,
                self@.strings.len(),
                self@.charts.len(),
            ) by {
                if i < before.len() {
                    assert(after[i] == before[i]);
                }
            }
            assert forall|i: int, j: int| 0 <= i < j < after.len() implies !same_name(
                (#[trigger] after[i]).name,
                (#[trigger] after[j]).name,
            ) by {
                assert(after[i] == before[i]);
                if j < before.len() {
                    assert(after[j] == before[j]);
                }
            }
        }
        Ok(WorksheetHandle { index })
    }

    /// Adds a chart of the given kind after those that the workbook holds.
    /// Refused with `AlreadyClosed` after the workbook was closed.
    pub fn add_chart(&mut self, kind: ChartKind) -> (r: Result<ChartHandle, XlsxError>)
        requires
            old(self).wf(),
            old(self)@.charts.len() + 1 < usize::MAX,
        ensures
            final(self).wf(),
            old(self)@.closed ==> r == Err::<ChartHandle, XlsxError>(XlsxError::AlreadyClosed)
                && *final(self) == *old(self),
            !old(self)@.closed ==> r == Ok::<ChartHandle, XlsxError>(
                ChartHandle { index: old(self)@.charts.len() as usize },
            ) && final(self)@ == with_chart(old(self)@, kind),
    {
        if self.closed {
            return Err(XlsxError::AlreadyClosed);
        }
        let index = self.charts.len();
        let ghost before = self@.charts;
        let chart = Chart::new(index + 1, kind);
        self.charts.push(chart);
        proof {
            let after = self@.charts;
            assert(after == before.push(chart@));
            assert forall|i: int| 0 <= i < after.len() implies (#[trigger] after[i]).id == i + 1
                && owns_its_series(after[i]) by {
                if i < before.len() {
                    assert(after[i] == before[i]);
                }
            }
        }
        Ok(ChartHandle { index })
    }

    /// Adds a series to the chart that `chart` names, as `Chart::add_series`
    /// does, with the workbook's table of formulas. Refused with `AlreadyClosed` after the workbook was closed
    /// and with `InvalidReference` where the workbook holds no such chart;
    /// the workbook then stays as it is.
    #[verifier::rlimit(50)]
    pub fn add_series(
        &mut self,
        chart: ChartHandle,
        categories: Option<&str>,
        values: Option<&str>,
    ) -> (r: Result<SeriesHandle, XlsxError>)
        requires
            old(self).wf(),
        ensures
            final(self).wf(),
            old(self)@.closed ==> r == Err::<SeriesHandle, XlsxError>(XlsxError::AlreadyClosed),
            !old(self)@.closed && chart.index >= old(self)@.charts.len() ==> r == Err::<
                SeriesHandle,
                XlsxError,
            >(XlsxError::InvalidReference),
            r is Err ==> *final(self) == *old(self),
            !old(self)@.closed && chart.index < old(self)@.charts.len() ==> r == Ok::<
                SeriesHandle,
                XlsxError,
            >(
                SeriesHandle {
                    chart: chart.index,
                    series: old(self)@.charts[chart.index as int].series.len() as usize,
                },
            ) && final(self)@ == (WorkbookData {
                formulas: pooled(
                    pooled(old(self)@.formulas, text_bytes(categories)),
                    text_bytes(values),
                ),
                ..with_chart_at(
                    old(self)@,
                    chart.index as int,
                    with_series(
                        old(self)@.charts[chart.index as int],
                        text_bytes(categories),
                        text_bytes(values),
                    ),
                )
            }),
    {
        if self.closed {
            return Err(XlsxError::AlreadyClosed);
        }
        if chart.index >= self.charts.len() {
            return Err(XlsxError::InvalidReference);
        }
        let ghost before = self@.charts;
        assert(before[chart.index as int] == self.charts@[chart.index as int]@);
        let series = self.charts[chart.index].add_series(&mut self.formulas, categories, values);
        proof {
            let after = self@.charts;
            assert(after == before.update(
                chart.index as int,
                self.charts@[chart.index as int]@,
            ));
            assert forall|i: int| 0 <= i < after.len() implies (#[trigger] after[i]).id == i + 1
                && owns_its_series(after[i]) by {
                if i != chart.index {
                    assert(after[i] == before[i]);
                }
            }
        }
        Ok(SeriesHandle { chart: chart.index, series })
    }

    /// Sets the values of a series to a rectangle of cells on the sheet
    /// named `sheet`, as `Chart::set_values` does. Refused with
    /// `AlreadyClosed` after the workbook was closed, and with
    /// `InvalidReference` where the workbook holds no such series or a
    /// corner lies off the sheet; the workbook then stays as it is.
    #[verifier::rlimit(50)]
    pub fn set_values(
        &mut self,
        series: SeriesHandle,
        sheet: &str,
        first_row: i64,
        first_col: i64,
        last_row: i64,
        last_col: i64,
    ) -> (r: Result<(), XlsxError>)
        requires
            old(self).wf(),
        ensures
            final(self).wf(),
            r == guarded(
                old(self)@,
                has_series(old(self)@, series) && cell_in_bounds(
                    first_row as int,
                    first_col as int,
                ) && cell_in_bounds(last_row as int, last_col as int),
            ),
            r is Err ==> *final(self) == *old(self),
            r is Ok ==> final(self)@ == with_chart_at(
                old(self)@,
                series.chart as int,
                with_values(
                    old(self)@.charts[series.chart as int],
                    series.series as int,
                    values_formula(
                        range_of(
                            sheet.spec_bytes(),
                            first_row as int,
                            first_col as int,
                            last_row as int,
                            last_col as int,
                        ),
                    ),
                ),
            ),
    {
        if self.closed {
            return Err(XlsxError::AlreadyClosed);
        }
        if series.chart >= self.charts.len() {
            return Err(XlsxError::InvalidReference);
        }
        let ghost before = self@.charts;
        assert(before[series.chart as int] == self.charts@[series.chart as int]@);
        if series.series >= self.charts[series.chart].series_count() || !in_bounds(
            first_row,
            first_col,
        ) || !in_bounds(last_row, last_col) {
            return Err(XlsxError::InvalidReference);
        }
        let done = self.charts[series.chart].set_values(
            series.series,
            sheet,
            first_row,
            first_col,
            last_row,
            last_col,
        );
        proof {
            let after = self@.charts;
            assert(after == before.update(
                series.chart as int,
                self.charts@[series.chart as int]@,
            ));
            assert forall|i: int| 0 <= i < after.len() implies (#[trigger] after[i]).id == i + 1
                && owns_its_series(after[i]) by {
                if i != series.chart {
                    assert(after[i] == before[i]);
                }
            }
        }
        match done {
            Ok(()) => Ok(()),
            Err(e) => Err(e),
        }
    }

    /// Sets the categories of a series to a rectangle of cells on the sheet
    /// named `sheet`, as `Chart::set_categories` does. Refused with
    /// `AlreadyClosed` after the workbook was closed, and with
    /// `InvalidReference` where the workbook holds no such series or a
    /// corner lies off the sheet; the workbook then stays as it is.
    #[verifier::rlimit(50)]
    pub fn set_categories(
        &mut self,
        series: SeriesHandle,
        sheet: &str,
        first_row: i64,
        first_col: i64,
        last_row: i64,
        last_col: i64,
    ) -> (r: Result<(), XlsxError>)
        requires
            old(self).wf(),
        ensures
            final(self).wf(),
            r == guarded(
                old(self)@,
                has_series(old(self)@, series) && cell_in_bounds(
                    first_row as int,
                    first_col as int,
                ) && cell_in_bounds(last_row as int, last_col as int),
            ),
            r is Err ==> *final(self) == *old(self),
            r is Ok ==> final(self)@ == with_chart_at(
                old(self)@,
                series.chart as int,
                with_categories(
                    old(self)@.charts[series.chart as int],
                    series.series as int,
                    categories_formula(
                        range_of(
                            sheet.spec_bytes(),
                            first_row as int,
                            first_col as int,
                            last_row as int,
                            last_col as int,
                        ),
                    ),
                ),
            ),
    {
        if self.closed {
            return Err(XlsxError::AlreadyClosed);
        }
        if series.chart >= self.charts.len() {
            return Err(XlsxError::InvalidReference);
        }
        let ghost before = self@.charts;
        assert(before[series.chart as int] == self.charts@[series.chart as int]@);
        if series.series >= self.charts[series.chart].series_count() || !in_bounds(
            first_row,
            first_col,
        ) || !in_bounds(last_row, last_col) {
            return Err(XlsxError::InvalidReference);
        }
        let done = self.charts[series.chart].set_categories(
            series.series,
            sheet,
            first_row,
            first_col,
            last_row,
            last_col,
        );
        proof {
            let after = self@.charts;
            assert(after == before.update(
                series.chart as int,
                self.charts@[series.chart as int]@,
            ));
            assert forall|i: int| 0 <= i < after.len() implies (#[trigger] after[i]).id == i + 1
                && owns_its_series(after[i]) by {
                if i != series.chart {
                    assert(after[i] == before[i]);
                }
            }
        }
        match done {
            Ok(()) => Ok(()),
            Err(e) => Err(e),
        }
    }

    /// Shows a chart in a worksheet, its top left corner at the cell at
    /// `row`, `col`: adds an anchor after those that the worksheet holds.
    /// Refused with `AlreadyClosed` after the workbook was closed, and with
    /// `InvalidReference` where the workbook holds no such worksheet or
    /// chart or the cell lies off the sheet; the workbook then stays as it
    /// is.
    #[verifier::rlimit(50)]
    pub fn insert_chart(&mut self, sheet: WorksheetHandle, row: i64, col: i64, chart: ChartHandle)
        -> (r: Result<(), XlsxError>)
        requires
            old(self).wf(),
        ensures
            final(self).wf(),
            r == guarded(
                old(self)@,
                sheet.index < old(self)@.sheets.len() && chart.index < old(self)@.charts.len()
                    && cell_in_bounds(row as int, col as int),
            ),
            r is Err ==> *final(self) == *old(self),
            r is Ok ==> final(self)@ == with_sheet_at(
                old(self)@,
                sheet.index as int,
                SheetData {
                    anchors: old(self)@.sheets[sheet.index as int].anchors.push(
                        Anchor { row: row as u32, col: col as u16, chart: (chart.index + 1) as usize },
                    ),
                    ..old(self)@.sheets[sheet.index as int]
                },
            ),
    {
        if self.closed {
            return Err(XlsxError::AlreadyClosed);
        }
        if sheet.index >= self.sheets.len() || chart.index >= self.charts.len() || !in_bounds(
            row,
            col,
        ) {
            return Err(XlsxError::InvalidReference);
        }
        let ghost before = self@.sheets;
        assert(before[sheet.index as int] == self.sheets@[sheet.index as int]@);
        let done = self.sheets[sheet.index].insert_chart(row, col, chart.index + 1);
        proof {
            let after = self@.sheets;
            assert(after == before.update(sheet.index as int, self.sheets@[sheet.index as int]@));
            assert forall|i: int| 0 <= i < after.len() implies sheet_ok(
                #[trigger] after[i],
                i,
                self@.strings.len(),
                self@.charts.len(),
            ) by {
                if i != sheet.index {
                    assert(after[i] == before[i]);
                }
            }
            assert forall|i: int, j: int| 0 <= i < j < after.len() implies !same_name(
                (#[trigger] after[i]).name,
                (#[trigger] after[j]).name,
            ) by {
                assert(after[i].name == before[i].name);
                assert(after[j].name == before[j].name);
            }
        }
        match done {
            Ok(()) => Ok(()),
            Err(e) => Err(e),
        }
    }

    /// Writes `value` to the cell at `row`, `col` of a worksheet, in the
    /// place of what the cell held. Refused with `AlreadyClosed` after the
    /// workbook was closed, and with `InvalidReference` where the workbook
    /// holds no such worksheet, the cell lies off the sheet, or `value` is a
    /// text that the string table does not hold; the workbook then stays as
    /// it is.
    #[verifier::rlimit(50)]
    pub fn write(&mut self, sheet: WorksheetHandle, row: i64, col: i64, value: CellValue) -> (r:
        Result<(), XlsxError>)
        requires
            old(self).wf(),
        ensures
            final(self).wf(),
            r == guarded(old(self)@, can_write(old(self)@, sheet, row as int, col as int, value@)),
            r is Err ==> *final(self) == *old(self),
            r is Ok ==> final(self)@ == written(old(self)@, sheet, row as int, col as int, value@),
    {
        if self.closed {
            return Err(XlsxError::AlreadyClosed);
        }
        let known = match &value {
            CellValue::Text(index) => *index < self.strings.len(),
            _ => true,
        };
        if sheet.index >= self.sheets.len() || !in_bounds(row, col) || !known {
            return Err(XlsxError::InvalidReference);
        }
        let ghost before = self@.sheets;
        let ghost entry = CellEntry { row: row as nat, col: col as nat, value: value@ };
        assert(before[sheet.index as int] == self.sheets@[sheet.index as int]@);
        let done = self.sheets[sheet.index].write(row, col, value);
        proof {
            let after = self@.sheets;
            assert(after == before.update(sheet.index as int, self.sheets@[sheet.index as int]@));
            lemma_put_resolves(before[sheet.index as int].cells, entry, self@.strings.len());
            assert forall|i: int| 0 <= i < after.len() implies sheet_ok(
                #[trigger] after[i],
                i,
                self@.strings.len(),
                self@.charts.len(),
            ) by {
                if i != sheet.index {
                    assert(after[i] == before[i]);
                }
            }
            assert forall|i: int, j: int| 0 <= i < j < after.len() implies !same_name(
                (#[trigger] after[i]).name,
                (#[trigger] after[j]).name,
            ) by {
                assert(after[i].name == before[i].name);
                assert(after[j].name == before[j].name);
            }
        }
        match done {
            Ok(()) => Ok(()),
            Err(e) => Err(e),
        }
    }

    /// Writes a text to the cell at `row`, `col` of a worksheet: interns the
    /// text in the string table, and the cell then holds its index. Refused
    /// with `AlreadyClosed` after the workbook was closed, and with
    /// `InvalidReference` where the workbook holds no such worksheet or the
    /// cell lies off the sheet; the workbook, its string table too, then
    /// stays as it is.
    #[verifier::rlimit(50)]
    pub fn write_string(&mut self, sheet: WorksheetHandle, row: i64, col: i64, text: &str) -> (r:
        Result<(), XlsxError>)
        requires
            old(self).wf(),
        ensures
            final(self).wf(),
            r == guarded(
                old(self)@,
                sheet.index < old(self)@.sheets.len() && cell_in_bounds(row as int, col as int),
            ),
            r is Err ==> *final(self) == *old(self),
            r is Ok ==> final(self)@ == string_written(
                old(self)@,
                sheet,
                row as int,
                col as int,
                text.spec_bytes(),
            ),
    {
        if self.closed {
            return Err(XlsxError::AlreadyClosed);
        }
        if sheet.index >= self.sheets.len() || !in_bounds(row, col) {
            return Err(XlsxError::InvalidReference);
        }
        let index = self.strings.intern(text.as_bytes());
        proof {
            crate::strings::lemma_scan_for(old(self)@.strings, text.spec_bytes(), 0);
            assert forall|i: int| 0 <= i < self@.sheets.len() implies sheet_ok(
                #[trigger] self@.sheets[i],
                i,
                self@.strings.len(),
                self@.charts.len(),
            ) by {
                assert(sheet_ok(
                    old(self)@.sheets[i],
                    i,
                    old(self)@.strings.len(),
                    old(self)@.charts.len(),
                ));
            }
        }
        self.write(sheet, row, col, CellValue::Text(index))
    }

    /// Writes a number to the cell at `row`, `col` of a worksheet, as
    /// `write` does.
    pub fn write_number(&mut self, sheet: WorksheetHandle, row: i64, col: i64, number: Number)
        -> (r: Result<(), XlsxError>)
        requires
            old(self).wf(),
        ensures
            final(self).wf(),
            r == guarded(
                old(self)@,
                sheet.index < old(self)@.sheets.len() && cell_in_bounds(row as int, col as int),
            ),
            r is Err ==> *final(self) == *old(self),
            r is Ok ==> final(self)@ == written(
                old(self)@,
                sheet,
                row as int,
                col as int,
                CellData::Number(number),
            ),
    {
        self.write(sheet, row, col, CellValue::Number(number))
    }

    /// Writes a formula to the cell at `row`, `col` of a worksheet, as
    /// `write` does; no value is kept for it.
    pub fn write_formula(&mut self, sheet: WorksheetHandle, row: i64, col: i64, formula: &str)
        -> (r: Result<(), XlsxError>)
        requires
            old(self).wf(),
        ensures
            final(self).wf(),
            r == guarded(
                old(self)@,
                sheet.index < old(self)@.sheets.len() && cell_in_bounds(row as int, col as int),
            ),
            r is Err ==> *final(self) == *old(self),
            r is Ok ==> final(self)@ == written(
                old(self)@,
                sheet,
                row as int,
                col as int,
                CellData::Formula(formula.spec_bytes(), None),
            ),
    {
        self.write(sheet, row, col, CellValue::Formula(formula.as_bytes_vec(), None))
    }

    /// Writes a truth value to the cell at `row`, `col` of a worksheet, as
    /// `write` does.
    pub fn write_boolean(&mut self, sheet: WorksheetHandle, row: i64, col: i64, value: bool) -> (r:
        Result<(), XlsxError>)
        requires
            old(self).wf(),
        ensures
            final(self).wf(),
            r == guarded(
                old(self)@,
                sheet.index < old(self)@.sheets.len() && cell_in_bounds(row as int, col as int),
            ),
            r is Err ==> *final(self) == *old(self),
            r is Ok ==> final(self)@ == written(
                old(self)@,
                sheet,
                row as int,
                col as int,
                CellData::Boolean(value),
            ),
    {
        self.write(sheet, row, col, CellValue::Boolean(value))
    }

    /// Empties the cell at `row`, `col` of a worksheet: the cell is then
    /// there and holds nothing.
    pub fn write_blank(&mut self, sheet: WorksheetHandle, row: i64, col: i64) -> (r: Result<
        (),
        XlsxError,
    >)
        requires
            old(self).wf(),
        ensures
            final(self).wf(),
            r == guarded(
                old(self)@,
                sheet.index < old(self)@.sheets.len() && cell_in_bounds(row as int, col as int),
            ),
            r is Err ==> *final(self) == *old(self),
            r is Ok ==> final(self)@ == written(
                old(self)@,
                sheet,
                row as int,
                col as int,
                CellData::Blank,
            ),
    {
        self.write(sheet, row, col, CellValue::Blank)
    }

    /// Closes the workbook and hands out its package: every part under its
    /// name. A workbook that was closed before stays as it is, and the call
    /// is refused with `AlreadyClosed`.
    pub fn close(&mut self) -> (r: Result<Vec<Part>, XlsxError>)
        requires
            old(self).wf(),
        ensures
            final(self).wf(),
            final(self)@ == closing(old(self)@),
            old(self)@.closed ==> *final(self) == *old(self),
            match r {
                Ok(parts) => close_result(old(self)@) == Ok::<Seq<PartData>, XlsxError>(
                    part_views(parts@),
                ),
                Err(e) => close_result(old(self)@) == Err::<Seq<PartData>, XlsxError>(e),
            },
    {
        if self.closed {
            return Err(XlsxError::AlreadyClosed);
        }
        self.closed = true;
        assert(all_texts_resolve(self@.sheets, self@.strings.len()));
        assemble(&self.sheets, &self.charts, &self.strings)
    }
}

/// Deduplication: a text written to two cells stands in the string table
/// once, the second writing leaves the table as the first left it, and both
/// cells hold the index of the text.
#[verifier::rlimit(50)]
pub proof fn lemma_same_text_same_index(
    w: WorkbookData,
    first: WorksheetHandle,
    row1: int,
    col1: int,
    second: WorksheetHandle,
    row2: int,
    col2: int,
    text: Seq<u8>,
)
    requires
        workbook_wf(w),
        first.index < w.sheets.len(),
        second.index < w.sheets.len(),
        cell_in_bounds(row1, col1),
        cell_in_bounds(row2, col2),
    ensures
        ({
            let once = string_written(w, first, row1, col1, text);
            let twice = string_written(once, second, row2, col2, text);
            let index = position(w.strings, text);
            &&& twice.strings == once.strings
            &&& 0 <= index < twice.strings.len()
            &&& forall|k: int|
                0 <= k < twice.strings.len() ==> (#[trigger] twice.strings[k] == text <==> k
                    == index)
            &&& lookup(twice.sheets[first.index as int].cells, row1 as nat, col1 as nat) == Some(
                CellData::Text(index as nat),
            )
            &&& lookup(twice.sheets[second.index as int].cells, row2 as nat, col2 as nat) == Some(
                CellData::Text(index as nat),
            )
        }),
{
    let once = string_written(w, first, row1, col1, text);
    let twice = string_written(once, second, row2, col2, text);
    let index = position(w.strings, text);
    lemma_intern_deduplicates(w.strings, text);
    let e1 = CellEntry { row: row1 as nat, col: col1 as nat, value: CellData::Text(index as nat) };
    let e2 = CellEntry { row: row2 as nat, col: col2 as nat, value: CellData::Text(index as nat) };
    let held = w.sheets[first.index as int].cells;
    assert(sheet_ok(w.sheets[first.index as int], first.index as int, w.strings.len(), w.charts.len()));
    assert(sheet_ok(w.sheets[second.index as int], second.index as int, w.strings.len(), w.charts.len()));
    lemma_put_keeps_order(held, e1);
    lemma_put_then_lookup(held, e1);
    assert(once.sheets[first.index as int].cells == put(held, e1));
    let before = once.sheets[second.index as int].cells;
    assert(twice.sheets[second.index as int].cells == put(before, e2));
    lemma_put_then_lookup(before, e2);
    if first.index == second.index {
        if row1 != row2 || col1 != col2 {
            lemma_put_leaves_others(before, e2, row1 as nat, col1 as nat);
        }
    } else {
        assert(twice.sheets[first.index as int] == once.sheets[first.index as int]);
    }
}

/// A workbook closes once: closing a closed workbook is refused with
/// `AlreadyClosed` and leaves it as the first closing left it.
pub proof fn lemma_close_twice(w: WorkbookData)
    ensures
        close_result(closing(w)) == Err::<Seq<PartData>, XlsxError>(XlsxError::AlreadyClosed),
        closing(closing(w)) == closing(w),
        workbook_wf(w) ==> workbook_wf(closing(w)),
{
}

} // verus!
