use xlsxwriter::chart::{Chart, ChartKind, ChartSeries};
use xlsxwriter::error::XlsxError;
use xlsxwriter::strings::StringTable;

fn formula(f: Option<&Vec<u8>>) -> Option<&str> {
    f.map(|b| std::str::from_utf8(b).unwrap())
}

#[test]
fn add_series_keeps_insertion_order() {
    let mut chart = Chart::new(1, ChartKind::Column);
    let mut pool = StringTable::new();
    assert_eq!(chart.add_series(&mut pool, None, Some("=Sheet1!$A$1:$A$5")), 0);
    assert_eq!(chart.add_series(&mut pool, None, Some("=Sheet1!$B$1:$B$5")), 1);
    assert_eq!(chart.add_series(&mut pool, None, Some("=Sheet1!$C$1:$C$5")), 2);
    assert_eq!(chart.series_count(), 3);
    assert_eq!(formula(chart.series(0).unwrap().values()), Some("=Sheet1!$A$1:$A$5"));
    assert_eq!(formula(chart.series(1).unwrap().values()), Some("=Sheet1!$B$1:$B$5"));
    assert_eq!(formula(chart.series(2).unwrap().values()), Some("=Sheet1!$C$1:$C$5"));
    assert!(chart.series(3).is_none());
}

#[test]
fn add_series_keeps_both_formulas_as_written() {
    let mut chart = Chart::new(7, ChartKind::Line);
    let mut pool = StringTable::new();
    let index = chart.add_series(&mut pool, Some("=Sheet1!$A$1:$A$5"), Some("=Sheet1!$B$1:$B$5"));
    let series = chart.series(index).unwrap();
    assert_eq!(formula(series.categories()), Some("=Sheet1!$A$1:$A$5"));
    assert_eq!(formula(series.values()), Some("=Sheet1!$B$1:$B$5"));
    assert_eq!(series.chart_id(), 7);
    assert_eq!(chart.id(), 7);
    assert_eq!(chart.kind(), ChartKind::Line);
}

#[test]
fn add_series_keeps_a_union_of_ranges_verbatim() {
    let mut chart = Chart::new(1, ChartKind::Column);
    let mut pool = StringTable::new();
    let index = chart.add_series(
        &mut pool,
        Some("=(Sheet1!$A$1:$A$5,Sheet1!$A$10:$A$18)"),
        Some("=(Sheet1!$B$1:$B$5,Sheet1!$B$10:$B$18)"),
    );
    let series = chart.series(index).unwrap();
    assert_eq!(formula(series.categories()), Some("=(Sheet1!$A$1:$A$5,Sheet1!$A$10:$A$18)"));
    assert_eq!(formula(series.values()), Some("=(Sheet1!$B$1:$B$5,Sheet1!$B$10:$B$18)"));
    assert_eq!(pool.len(), 2);
    assert_eq!(formula(pool.get(0)), Some("=(Sheet1!$A$1:$A$5,Sheet1!$A$10:$A$18)"));
    assert_eq!(formula(pool.get(1)), Some("=(Sheet1!$B$1:$B$5,Sheet1!$B$10:$B$18)"));
}

#[test]
fn add_series_without_formulas_leaves_both_unset() {
    let mut chart = Chart::new(1, ChartKind::Pie);
    let mut pool = StringTable::new();
    let index = chart.add_series(&mut pool, None, None);
    let series = chart.series(index).unwrap();
    assert!(series.categories().is_none());
    assert!(series.values().is_none());
}

#[test]
fn setters_write_the_formula_of_the_rectangle() {
    let mut chart = Chart::new(1, ChartKind::Column);
    let mut pool = StringTable::new();
    let index = chart.add_series(&mut pool, None, None);
    assert_eq!(chart.set_categories(index, "Sheet1", 0, 0, 4, 0), Ok(()));
    assert_eq!(chart.set_values(index, "Sheet1", 0, 1, 4, 1), Ok(()));
    let series = chart.series(index).unwrap();
    assert_eq!(formula(series.categories()), Some("=Sheet1!$A$1:$A$5"));
    assert_eq!(formula(series.values()), Some("=Sheet1!$B$1:$B$5"));
}

#[test]
fn single_cell_values_keep_the_colon_and_categories_drop_it() {
    let mut series = ChartSeries::new(1, None, None);
    assert_eq!(series.set_values("Sheet1", 3, 2, 3, 2), Ok(()));
    assert_eq!(series.set_categories("Sheet1", 3, 2, 3, 2), Ok(()));
    assert_eq!(formula(series.values()), Some("=Sheet1!$C$4:$C$4"));
    assert_eq!(formula(series.categories()), Some("=Sheet1!$C$4"));
}

#[test]
fn setters_refuse_cells_off_the_sheet_and_leave_the_series() {
    let mut chart = Chart::new(1, ChartKind::Column);
    let mut pool = StringTable::new();
    let index = chart.add_series(&mut pool, Some("=Sheet1!$A$1:$A$5"), Some("=Sheet1!$B$1:$B$5"));
    assert_eq!(
        chart.set_values(index, "Sheet1", 0, 0, 1_048_576, 0),
        Err(XlsxError::InvalidReference)
    );
    assert_eq!(
        chart.set_values(index, "Sheet1", -1, 0, 4, 0),
        Err(XlsxError::InvalidReference)
    );
    assert_eq!(
        chart.set_categories(index, "Sheet1", 0, 16_384, 4, 0),
        Err(XlsxError::InvalidReference)
    );
    assert_eq!(
        chart.set_categories(index, "Sheet1", 0, 0, 4, -7),
        Err(XlsxError::InvalidReference)
    );
    let series = chart.series(index).unwrap();
    assert_eq!(formula(series.categories()), Some("=Sheet1!$A$1:$A$5"));
    assert_eq!(formula(series.values()), Some("=Sheet1!$B$1:$B$5"));
    let mut lone = ChartSeries::new(1, None, Some("=Sheet1!$B$1:$B$5"));
    assert_eq!(lone.set_values("Sheet1", 0, 0, 0, 16_384), Err(XlsxError::InvalidReference));
    assert_eq!(formula(lone.values()), Some("=Sheet1!$B$1:$B$5"));
    assert!(lone.categories().is_none());
}

#[test]
fn setters_refuse_a_series_that_the_chart_does_not_hold() {
    let mut chart = Chart::new(1, ChartKind::Column);
    let mut pool = StringTable::new();
    assert_eq!(chart.set_values(0, "Sheet1", 0, 0, 4, 0), Err(XlsxError::InvalidReference));
    chart.add_series(&mut pool, None, None);
    assert_eq!(chart.set_categories(1, "Sheet1", 0, 0, 4, 0), Err(XlsxError::InvalidReference));
    assert!(chart.series(0).unwrap().categories().is_none());
}

#[test]
fn add_series_interns_each_formula_once() {
    let mut chart = Chart::new(1, ChartKind::Column);
    let mut pool = StringTable::new();
    chart.add_series(&mut pool, Some("=Sheet1!$A$1:$A$5"), Some("=Sheet1!$B$1:$B$5"));
    chart.add_series(&mut pool, Some("=Sheet1!$A$1:$A$5"), Some("=Sheet1!$C$1:$C$5"));
    chart.add_series(&mut pool, Some("=Sheet1!$C$1:$C$5"), Some("=Sheet1!$C$1:$C$5"));
    chart.add_series(&mut pool, Some(""), None);
    assert_eq!(chart.series_count(), 4);
    assert_eq!(pool.len(), 3);
    assert_eq!(pool.find(b"=Sheet1!$A$1:$A$5"), Some(0));
    assert_eq!(pool.find(b"=Sheet1!$B$1:$B$5"), Some(1));
    assert_eq!(pool.find(b"=Sheet1!$C$1:$C$5"), Some(2));
    assert_eq!(pool.find(b""), None);
    assert_eq!(formula(chart.series(3).unwrap().categories()), Some(""));
}
