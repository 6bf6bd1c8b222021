//! Charts and their series.
//!
//! A chart owns its series in the order in which they were added; that order
//! is the order in which they are plotted and listed in the legend. A series
//! holds up to two formulas, for its categories and for its values, as the
//! text that was given or as the text written for a rectangle of cells.
//! Each formula that a series is added with is interned in the workbook's
//! table of formulas as well, where it stays for the life of the workbook.

use vstd::prelude::*;
use vstd::string::*;
use crate::error::XlsxError;
use crate::reference::{
    categories_formula, cell_in_bounds, format_categories, format_values, in_bounds, range_of,
    values_formula,
};
use crate::strings::{interned, StringTable};

verus! {

/// The kinds of chart.
#[derive(Clone, Copy, Debug, PartialEq, Eq, Structural)]
pub enum ChartKind {
    Area,
    Bar,
    Column,
    Line,
    Pie,
    Radar,
    Scatter,
    Stock,
}

/// What a series holds.
pub struct SeriesData {
    /// Identifier of the chart that owns the series.
    pub chart: nat,
    pub categories: Option<Seq<u8>>,
    pub values: Option<Seq<u8>>,
}

/// What a chart holds.
pub struct ChartData {
    pub id: nat,
    pub kind: ChartKind,
    pub series: Seq<SeriesData>,
}

/// The bytes of an optional text.
pub open spec fn text_bytes(text: Option<&str>) -> Option<Seq<u8>> {
    match text {
        Some(t) => Some(t.spec_bytes()),
        None => None,
    }
}

/// The bytes of an optional byte string.
pub open spec fn bytes_view(bytes: Option<Vec<u8>>) -> Option<Seq<u8>> {
    match bytes {
        Some(b) => Some(b@),
        None => None,
    }
}

/// The formula table after an optional formula was added to it: a formula
/// that is unset or empty leaves the table as it is.
pub open spec fn pooled(table: Seq<Seq<u8>>, formula: Option<Seq<u8>>) -> Seq<Seq<u8>> {
    match formula {
        Some(text) => if text.len() > 0 {
            interned(table, text)
        } else {
            table
        },
        None => table,
    }
}

/// Interns an optional formula, unless it is unset or empty.
fn pool_formula(table: &mut StringTable, formula: Option<&str>)
    requires
        old(table).wf(),
    ensures
        final(table).wf(),
        final(table)@ == pooled(old(table)@, text_bytes(formula)),
{
    match formula {
        Some(text) => {
            let bytes = text.as_bytes();
            if bytes.len() > 0 {
                table.intern(bytes);
            }
        },
        None => {},
    }
}

/// One data series of a chart.
#[derive(Debug)]
pub struct ChartSeries {
    chart: usize,
    categories: Option<Vec<u8>>,
    values: Option<Vec<u8>>,
}

impl View for ChartSeries {
    type V = SeriesData;

    closed spec fn view(&self) -> SeriesData {
        SeriesData {
            chart: self.chart as nat,
            categories: bytes_view(self.categories),
            values: bytes_view(self.values),
        }
    }
}

/// An owned copy of an optional text.
fn copy_text(text: Option<&str>) -> (r: Option<Vec<u8>>)
    ensures
        bytes_view(r) == text_bytes(text),
{
    match text {
        Some(t) => Some(t.as_bytes_vec()),
        None => None,
    }
}

impl ChartSeries {
    /// A series of the chart `chart` with the given formulas, kept as they
    /// are written.
    pub fn new(chart: usize, categories: Option<&str>, values: Option<&str>) -> (series:
        ChartSeries)
        ensures
            series@ == (SeriesData {
                chart: chart as nat,
                categories: text_bytes(categories),
                values: text_bytes(values),
            }),
    {
        ChartSeries { chart, categories: copy_text(categories), values: copy_text(values) }
    }

    /// Identifier of the chart that owns the series.
    pub fn chart_id(&self) -> (id: usize)
        ensures
            id == self@.chart,
    {
        self.chart
    }

    /// The categories formula, if one is set.
    pub fn categories(&self) -> (r: Option<&Vec<u8>>)
        ensures
            r is Some <==> self@.categories is Some,
            r is Some ==> r->0@ == self@.categories->0,
    {
        self.categories.as_ref()
    }

    /// The values formula, if one is set.
    pub fn values(&self) -> (r: Option<&Vec<u8>>)
        ensures
            r is Some <==> self@.values is Some,
            r is Some ==> r->0@ == self@.values->0,
    {
        self.values.as_ref()
    }

    /// Sets the values to a rectangle of cells on `sheet`, as the formula
    /// `=Sheet!$A$1:$B$5`; one cell is written as a rectangle too. Where a
    /// corner lies off the sheet the series stays as it is and the call
    /// fails with `InvalidReference`.
    pub fn set_values(
        &mut self,
        sheet: &str,
        first_row: i64,
        first_col: i64,
        last_row: i64,
        last_col: i64,
    ) -> (r: Result<(), XlsxError>)
        ensures
            r is Ok <==> cell_in_bounds(first_row as int, first_col as int) && cell_in_bounds(
                last_row as int,
                last_col as int,
            ),
            r is Ok ==> final(self)@ == (SeriesData {
                values: Some(
                    values_formula(
                        range_of(
                            sheet.spec_bytes(),
                            first_row as int,
                            first_col as int,
                            last_row as int,
                            last_col as int,
                        ),
                    ),
                ),
                ..old(self)@
            }),
            r is Err ==> r->Err_0 == XlsxError::InvalidReference && *final(self) == *old(self),
    {
        match format_values(sheet.as_bytes(), first_row, first_col, last_row, last_col) {
            Ok(formula) => {
                self.values = Some(formula);
                Ok(())
            },
            Err(e) => Err(e),
        }
    }

    /// Sets the categories to a rectangle of cells on `sheet`, as the
    /// formula `=Sheet!$A$1:$B$5`, or `=Sheet!$A$1` where the rectangle is
    /// one cell. Where a corner lies off the sheet the series stays as it is
    /// and the call fails with `InvalidReference`.
    pub fn set_categories(
        &mut self,
        sheet: &str,
        first_row: i64,
        first_col: i64,
        last_row: i64,
        last_col: i64,
    ) -> (r: Result<(), XlsxError>)
        ensures
            r is Ok <==> cell_in_bounds(first_row as int, first_col as int) && cell_in_bounds(
                last_row as int,
                last_col as int,
            ),
            r is Ok ==> final(self)@ == (SeriesData {
                categories: Some(
                    categories_formula(
                        range_of(
                            sheet.spec_bytes(),
                            first_row as int,
                            first_col as int,
                            last_row as int,
                            last_col as int,
                        ),
                    ),
                ),
                ..old(self)@
            }),
            r is Err ==> r->Err_0 == XlsxError::InvalidReference && *final(self) == *old(self),
    {
        match format_categories(sheet.as_bytes(), first_row, first_col, last_row, last_col) {
            Ok(formula) => {
                self.categories = Some(formula);
                Ok(())
            },
            Err(e) => Err(e),
        }
    }
}

/// A chart after a series with the given formulas was added to it.
pub open spec fn with_series(
    chart: ChartData,
    categories: Option<Seq<u8>>,
    values: Option<Seq<u8>>,
) -> ChartData {
    ChartData {
        series: chart.series.push(SeriesData { chart: chart.id, categories, values }),
        ..chart
    }
}

/// A chart after the values of its series of index `series` were set.
pub open spec fn with_values(chart: ChartData, series: int, formula: Seq<u8>) -> ChartData {
    ChartData {
        series: chart.series.update(
            series,
            SeriesData { values: Some(formula), ..chart.series[series] },
        ),
        ..chart
    }
}

/// A chart after the categories of its series of index `series` were set.
pub open spec fn with_categories(chart: ChartData, series: int, formula: Seq<u8>) -> ChartData {
    ChartData {
        series: chart.series.update(
            series,
            SeriesData { categories: Some(formula), ..chart.series[series] },
        ),
        ..chart
    }
}

/// Every series of the chart names it as its owner.
pub open spec fn owns_its_series(chart: ChartData) -> bool {
    forall|i: int| 0 <= i < chart.series.len() ==> (#[trigger] chart.series[i]).chart == chart.id
}

/// The views of a list of series.
pub open spec fn series_views(v: Seq<ChartSeries>) -> Seq<SeriesData> {
    v.map_values(|s: ChartSeries| s@)
}

/// A chart: its kind and its series, in the order in which they were added.
#[derive(Debug)]
pub struct Chart {
    id: usize,
    kind: ChartKind,
    series: Vec<ChartSeries>,
}

impl View for Chart {
    type V = ChartData;

    closed spec fn view(&self) -> ChartData {
        ChartData { id: self.id as nat, kind: self.kind, series: series_views(self.series@) }
    }
}

impl Chart {
    /// Every series names this chart as its owner.
    pub open spec fn wf(&self) -> bool {
        owns_its_series(self@)
    }

    /// A chart of the given kind without series.
    pub fn new(id: usize, kind: ChartKind) -> (chart: Chart)
        ensures
            chart.wf(),
            chart@ == (ChartData { id: id as nat, kind, series: Seq::empty() }),
    {
        let chart = Chart { id, kind, series: Vec::new() };
        assert(chart@.series == Seq::<SeriesData>::empty());
        chart
    }

    /// The chart's identifier.
    pub fn id(&self) -> (id: usize)
        ensures
            id == self@.id,
    {
        self.id
    }

    /// The chart's kind.
    pub fn kind(&self) -> (kind: ChartKind)
        ensures
            kind == self@.kind,
    {
        self.kind
    }

    /// Number of series.
    pub fn series_count(&self) -> (n: usize)
        ensures
            n == self@.series.len(),
    {
        self.series.len()
    }

    /// The series at `index`, if there is one.
    pub fn series(&self, index: usize) -> (r: Option<&ChartSeries>)
        ensures
            r is Some <==> index < self@.series.len(),
            r is Some ==> r->0@ == self@.series[index as int],
    {
        if index < self.series.len() {
            Some(&self.series[index])
        } else {
            None
        }
    }

    /// Adds a series after those that the chart holds and returns its index.
    /// The formulas are kept byte for byte as they are written; nothing
    /// checks that they name a sheet or cells that exist. Each formula that
    /// is not empty is interned in `formulas`, the table of formulas of the
    /// workbook that owns the chart: first that of the categories, then that
    /// of the values.
    pub fn add_series(
        &mut self,
        formulas: &mut StringTable,
        categories: Option<&str>,
        values: Option<&str>,
    ) -> (index: usize)
        requires
            old(self).wf(),
            old(formulas).wf(),
        ensures
            final(self).wf(),
            final(formulas).wf(),
            index == old(self)@.series.len(),
            final(self)@ == with_series(old(self)@, text_bytes(categories), text_bytes(values)),
            final(formulas)@ == pooled(
                pooled(old(formulas)@, text_bytes(categories)),
                text_bytes(values),
            ),
    {
        pool_formula(formulas, categories);
        pool_formula(formulas, values);
        let index = self.series.len();
        let series = ChartSeries::new(self.id, categories, values);
        let ghost before = self@.series;
        self.series.push(series);
        assert(self@.series == before.push(series@));
        index
    }

    /// Sets the values of the series at `series` to a rectangle of cells on
    /// `sheet`. Fails with `InvalidReference`, and changes nothing, where
    /// there is no such series or a corner lies off the sheet.
    pub fn set_values(
        &mut self,
        series: usize,
        sheet: &str,
        first_row: i64,
        first_col: i64,
        last_row: i64,
        last_col: i64,
    ) -> (r: Result<(), XlsxError>)
        requires
            old(self).wf(),
        ensures
            final(self).wf(),
            r is Ok <==> series < old(self)@.series.len() && cell_in_bounds(
                first_row as int,
                first_col as int,
            ) && cell_in_bounds(last_row as int, last_col as int),
            r is Ok ==> final(self)@ == with_values(
                old(self)@,
                series as int,
                values_formula(
                    range_of(
                        sheet.spec_bytes(),
                        first_row as int,
                        first_col as int,
                        last_row as int,
                        last_col as int,
                    ),
                ),
            ),
            r is Err ==> r->Err_0 == XlsxError::InvalidReference && *final(self) == *old(self),
    {
        if series >= self.series.len() || !in_bounds(first_row, first_col) || !in_bounds(
            last_row,
            last_col,
        ) {
            return Err(XlsxError::InvalidReference);
        }
        let ghost before = self@.series;
        let r = self.series[series].set_values(sheet, first_row, first_col, last_row, last_col);
        assert(self@.series == before.update(series as int, self.series@[series as int]@));
        r
    }

    /// Sets the categories of the series at `series` to a rectangle of cells
    /// on `sheet`. Fails with `InvalidReference`, and changes nothing, where
    /// there is no such series or a corner lies off the sheet.
    pub fn set_categories(
        &mut self,
        series: usize,
        sheet: &str,
        first_row: i64,
        first_col: i64,
        last_row: i64,
        last_col: i64,
    ) -> (r: Result<(), XlsxError>)
        requires
            old(self).wf(),
        ensures
            final(self).wf(),
            r is Ok <==> series < old(self)@.series.len() && cell_in_bounds(
                first_row as int,
                first_col as int,
            ) && cell_in_bounds(last_row as int, last_col as int),
            r is Ok ==> final(self)@ == with_categories(
                old(self)@,
                series as int,
                categories_formula(
                    range_of(
                        sheet.spec_bytes(),
                        first_row as int,
                        first_col as int,
                        last_row as int,
                        last_col as int,
                    ),
                ),
            ),
            r is Err ==> r->Err_0 == XlsxError::InvalidReference && *final(self) == *old(self),
    {
        if series >= self.series.len() || !in_bounds(first_row, first_col) || !in_bounds(
            last_row,
            last_col,
        ) {
            return Err(XlsxError::InvalidReference);
        }
        let ghost before = self@.series;
        let r = self.series[series].set_categories(
            sheet,
            first_row,
            first_col,
            last_row,
            last_col,
        );
        assert(self@.series == before.update(series as int, self.series@[series as int]@));
        r
    }
}

/// The views of a list of charts.
pub open spec fn chart_views(v: Seq<Chart>) -> Seq<ChartData> {
    v.map_values(|c: Chart| c@)
}

} // verus!
