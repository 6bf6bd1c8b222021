//! The chart part: one chart as DrawingML chart markup.
//!
//! The series stand in the part in the order in which the chart holds them,
//! each numbered by its index. A formula is written without its leading `=`.
//! A series whose formula is unset or empty gets no reference element.

use vstd::prelude::*;
use vstd::string::*;
use vstd::seq_lib::lemma_concat_associative;
use crate::bytes::{append, append_decimal, append_str, decimal};
use crate::chart::{Chart, ChartData, ChartKind, ChartSeries, SeriesData};
use crate::xml::{
    append_formula_body, declaration, escaped, formula_body, has_body, DECLARATION,
};

verus! {

/// Opens the chart space, the chart and its plot area.
pub const CHART_OPEN: &'static str = "<c:chartSpace xmlns:c=\"http://schemas.openxmlformats.org/drawingml/2006/chart\" xmlns:a=\"http://schemas.openxmlformats.org/drawingml/2006/main\" xmlns:r=\"http://schemas.openxmlformats.org/officeDocument/2006/relationships\"><c:chart><c:plotArea><c:layout/>";

/// Closes the plot area, and the chart with its legend.
pub const CHART_CLOSE: &'static str = "</c:plotArea><c:legend><c:legendPos val=\"r\"/></c:legend><c:plotVisOnly val=\"1\"/></c:chart></c:chartSpace>";

/// Opens the plot of an area chart, up to its series.
pub const AREA_OPEN: &'static str = "<c:areaChart><c:grouping val=\"standard\"/>";

/// Opens the plot of a bar chart, up to its series.
pub const BAR_OPEN: &'static str = "<c:barChart><c:barDir val=\"bar\"/><c:grouping val=\"clustered\"/>";

/// Opens the plot of a column chart, up to its series.
pub const COLUMN_OPEN: &'static str = "<c:barChart><c:barDir val=\"col\"/><c:grouping val=\"clustered\"/>";

/// Opens the plot of a line chart, up to its series.
pub const LINE_OPEN: &'static str = "<c:lineChart><c:grouping val=\"standard\"/>";

/// Opens the plot of a pie chart, up to its series.
pub const PIE_OPEN: &'static str = "<c:pieChart><c:varyColors val=\"1\"/>";

/// Opens the plot of a radar chart, up to its series.
pub const RADAR_OPEN: &'static str = "<c:radarChart><c:radarStyle val=\"marker\"/>";

/// Opens the plot of a scatter chart, up to its series.
pub const SCATTER_OPEN: &'static str = "<c:scatterChart><c:scatterStyle val=\"lineMarker\"/>";

/// Opens the plot of a stock chart, up to its series.
pub const STOCK_OPEN: &'static str = "<c:stockChart>";

/// Follows the series of an area chart: the end of its plot and its axes.
pub const AREA_CLOSE: &'static str = "<c:axId val=\"50010001\"/><c:axId val=\"50010002\"/></c:areaChart><c:catAx><c:axId val=\"50010001\"/><c:scaling><c:orientation val=\"minMax\"/></c:scaling><c:axPos val=\"b\"/><c:tickLblPos val=\"nextTo\"/><c:crossAx val=\"50010002\"/><c:crosses val=\"autoZero\"/><c:auto val=\"1\"/><c:lblAlgn val=\"ctr\"/><c:lblOffset val=\"100\"/></c:catAx><c:valAx><c:axId val=\"50010002\"/><c:scaling><c:orientation val=\"minMax\"/></c:scaling><c:axPos val=\"l\"/><c:majorGridlines/><c:numFmt formatCode=\"General\" sourceLinked=\"1\"/><c:tickLblPos val=\"nextTo\"/><c:crossAx val=\"50010001\"/><c:crosses val=\"autoZero\"/><c:crossBetween val=\"midCat\"/></c:valAx>";

/// Follows the series of a bar chart: the end of its plot and its axes.
pub const BAR_CLOSE: &'static str = "<c:axId val=\"50010001\"/><c:axId val=\"50010002\"/></c:barChart><c:catAx><c:axId val=\"50010001\"/><c:scaling><c:orientation val=\"minMax\"/></c:scaling><c:axPos val=\"l\"/><c:tickLblPos val=\"nextTo\"/><c:crossAx val=\"50010002\"/><c:crosses val=\"autoZero\"/><c:auto val=\"1\"/><c:lblAlgn val=\"ctr\"/><c:lblOffset val=\"100\"/></c:catAx><c:valAx><c:axId val=\"50010002\"/><c:scaling><c:orientation val=\"minMax\"/></c:scaling><c:axPos val=\"b\"/><c:majorGridlines/><c:numFmt formatCode=\"General\" sourceLinked=\"1\"/><c:tickLblPos val=\"nextTo\"/><c:crossAx val=\"50010001\"/><c:crosses val=\"autoZero\"/><c:crossBetween val=\"between\"/></c:valAx>";

/// Follows the series of a column chart: the end of its plot and its axes.
pub const COLUMN_CLOSE: &'static str = "<c:axId val=\"50010001\"/><c:axId val=\"50010002\"/></c:barChart><c:catAx><c:axId val=\"50010001\"/><c:scaling><c:orientation val=\"minMax\"/></c:scaling><c:axPos val=\"b\"/><c:tickLblPos val=\"nextTo\"/><c:crossAx val=\"50010002\"/><c:crosses val=\"autoZero\"/><c:auto val=\"1\"/><c:lblAlgn val=\"ctr\"/><c:lblOffset val=\"100\"/></c:catAx><c:valAx><c:axId val=\"50010002\"/><c:scaling><c:orientation val=\"minMax\"/></c:scaling><c:axPos val=\"l\"/><c:majorGridlines/><c:numFmt formatCode=\"General\" sourceLinked=\"1\"/><c:tickLblPos val=\"nextTo\"/><c:crossAx val=\"50010001\"/><c:crosses val=\"autoZero\"/><c:crossBetween val=\"between\"/></c:valAx>";

/// Follows the series of a line chart: the end of its plot and its axes.
pub const LINE_CLOSE: &'static str = "<c:marker val=\"1\"/><c:axId val=\"50010001\"/><c:axId val=\"50010002\"/></c:lineChart><c:catAx><c:axId val=\"50010001\"/><c:scaling><c:orientation val=\"minMax\"/></c:scaling><c:axPos val=\"b\"/><c:tickLblPos val=\"nextTo\"/><c:crossAx val=\"50010002\"/><c:crosses val=\"autoZero\"/><c:auto val=\"1\"/><c:lblAlgn val=\"ctr\"/><c:lblOffset val=\"100\"/></c:catAx><c:valAx><c:axId val=\"50010002\"/><c:scaling><c:orientation val=\"minMax\"/></c:scaling><c:axPos val=\"l\"/><c:majorGridlines/><c:numFmt formatCode=\"General\" sourceLinked=\"1\"/><c:tickLblPos val=\"nextTo\"/><c:crossAx val=\"50010001\"/><c:crosses val=\"autoZero\"/><c:crossBetween val=\"between\"/></c:valAx>";

/// Follows the series of a pie chart: the end of its plot.
pub const PIE_CLOSE: &'static str = "<c:firstSliceAng val=\"0\"/></c:pieChart>";

/// Follows the series of a radar chart: the end of its plot and its axes.
pub const RADAR_CLOSE: &'static str = "<c:axId val=\"50010001\"/><c:axId val=\"50010002\"/></c:radarChart><c:catAx><c:axId val=\"50010001\"/><c:scaling><c:orientation val=\"minMax\"/></c:scaling><c:axPos val=\"b\"/><c:majorGridlines/><c:tickLblPos val=\"nextTo\"/><c:crossAx val=\"50010002\"/><c:crosses val=\"autoZero\"/><c:auto val=\"1\"/><c:lblAlgn val=\"ctr\"/><c:lblOffset val=\"100\"/></c:catAx><c:valAx><c:axId val=\"50010002\"/><c:scaling><c:orientation val=\"minMax\"/></c:scaling><c:axPos val=\"l\"/><c:majorGridlines/><c:numFmt formatCode=\"General\" sourceLinked=\"1\"/><c:tickLblPos val=\"nextTo\"/><c:crossAx val=\"50010001\"/><c:crosses val=\"autoZero\"/><c:crossBetween val=\"between\"/></c:valAx>";

/// Follows the series of a scatter chart: the end of its plot and its axes.
pub const SCATTER_CLOSE: &'static str = "<c:axId val=\"50010001\"/><c:axId val=\"50010002\"/></c:scatterChart><c:valAx><c:axId val=\"50010001\"/><c:scaling><c:orientation val=\"minMax\"/></c:scaling><c:axPos val=\"b\"/><c:numFmt formatCode=\"General\" sourceLinked=\"1\"/><c:tickLblPos val=\"nextTo\"/><c:crossAx val=\"50010002\"/><c:crosses val=\"autoZero\"/><c:crossBetween val=\"midCat\"/></c:valAx><c:valAx><c:axId val=\"50010002\"/><c:scaling><c:orientation val=\"minMax\"/></c:scaling><c:axPos val=\"l\"/><c:majorGridlines/><c:numFmt formatCode=\"General\" sourceLinked=\"1\"/><c:tickLblPos val=\"nextTo\"/><c:crossAx val=\"50010001\"/><c:crosses val=\"autoZero\"/><c:crossBetween val=\"midCat\"/></c:valAx>";

/// Follows the series of a stock chart: the end of its plot and its axes.
pub const STOCK_CLOSE: &'static str = "<c:hiLowLines/><c:axId val=\"50010001\"/><c:axId val=\"50010002\"/></c:stockChart><c:catAx><c:axId val=\"50010001\"/><c:scaling><c:orientation val=\"minMax\"/></c:scaling><c:axPos val=\"b\"/><c:tickLblPos val=\"nextTo\"/><c:crossAx val=\"50010002\"/><c:crosses val=\"autoZero\"/><c:auto val=\"1\"/><c:lblAlgn val=\"ctr\"/><c:lblOffset val=\"100\"/></c:catAx><c:valAx><c:axId val=\"50010002\"/><c:scaling><c:orientation val=\"minMax\"/></c:scaling><c:axPos val=\"l\"/><c:majorGridlines/><c:numFmt formatCode=\"General\" sourceLinked=\"1\"/><c:tickLblPos val=\"nextTo\"/><c:crossAx val=\"50010001\"/><c:crosses val=\"autoZero\"/><c:crossBetween val=\"between\"/></c:valAx>";

/// What opens the chart part, up to the plot area.
pub open spec fn chart_head() -> Seq<u8> {
    declaration()
        + CHART_OPEN.spec_bytes()
}

/// What closes the chart part, from the end of the plot area.
pub open spec fn chart_tail() -> Seq<u8> {
    CHART_CLOSE.spec_bytes()
}

/// The element that opens the plot of a kind of chart, with what stands
/// before its series.
pub open spec fn plot_head(kind: ChartKind) -> Seq<u8> {
    match kind {
        ChartKind::Area => AREA_OPEN.spec_bytes(),
        ChartKind::Bar => BAR_OPEN.spec_bytes(),
        ChartKind::Column => COLUMN_OPEN.spec_bytes(),
        ChartKind::Line => LINE_OPEN.spec_bytes(),
        ChartKind::Pie => PIE_OPEN.spec_bytes(),
        ChartKind::Radar => RADAR_OPEN.spec_bytes(),
        ChartKind::Scatter => SCATTER_OPEN.spec_bytes(),
        ChartKind::Stock => STOCK_OPEN.spec_bytes(),
    }
}

/// What stands after the series of a kind of chart: the end of its plot
/// and its axes.
pub open spec fn plot_tail(kind: ChartKind) -> Seq<u8> {
    match kind {
        ChartKind::Area => AREA_CLOSE.spec_bytes(),
        ChartKind::Bar => BAR_CLOSE.spec_bytes(),
        ChartKind::Column => COLUMN_CLOSE.spec_bytes(),
        ChartKind::Line => LINE_CLOSE.spec_bytes(),
        ChartKind::Pie => PIE_CLOSE.spec_bytes(),
        ChartKind::Radar => RADAR_CLOSE.spec_bytes(),
        ChartKind::Scatter => SCATTER_CLOSE.spec_bytes(),
        ChartKind::Stock => STOCK_CLOSE.spec_bytes(),
    }
}

/// A formula inside the element that refers to it, or nothing where the
/// formula is unset or empty.
pub open spec fn reference_xml(open: Seq<u8>, close: Seq<u8>, formula: Option<Seq<u8>>) -> Seq<
    u8,
> {
    match formula {
        Some(text) => if formula_body(text).len() > 0 {
            open + escaped(formula_body(text)) + close
        } else {
            Seq::empty()
        },
        None => Seq::empty(),
    }
}

/// What opens the reference to a series' categories.
pub open spec fn categories_open(kind: ChartKind) -> Seq<u8> {
    if kind == ChartKind::Scatter {
        "<c:xVal><c:numRef><c:f>".spec_bytes()
    } else {
        "<c:cat><c:numRef><c:f>".spec_bytes()
    }
}

/// What closes the reference to a series' categories.
pub open spec fn categories_close(kind: ChartKind) -> Seq<u8> {
    if kind == ChartKind::Scatter {
        "</c:f></c:numRef></c:xVal>".spec_bytes()
    } else {
        "</c:f></c:numRef></c:cat>".spec_bytes()
    }
}

/// What opens the reference to a series' values.
pub open spec fn values_open(kind: ChartKind) -> Seq<u8> {
    if kind == ChartKind::Scatter {
        "<c:yVal><c:numRef><c:f>".spec_bytes()
    } else {
        "<c:val><c:numRef><c:f>".spec_bytes()
    }
}

/// What closes the reference to a series' values.
pub open spec fn values_close(kind: ChartKind) -> Seq<u8> {
    if kind == ChartKind::Scatter {
        "</c:f></c:numRef></c:yVal>".spec_bytes()
    } else {
        "</c:f></c:numRef></c:val>".spec_bytes()
    }
}

/// One series as it stands in the part at place `index`.
pub open spec fn series_xml(kind: ChartKind, series: SeriesData, index: nat) -> Seq<u8> {
    "<c:ser><c:idx val=\"".spec_bytes() + decimal(index) + "\"/><c:order val=\"".spec_bytes()
        + decimal(index) + "\"/>".spec_bytes() + reference_xml(
        categories_open(kind),
        categories_close(kind),
        series.categories,
    ) + reference_xml(values_open(kind), values_close(kind), series.values)
        + "</c:ser>".spec_bytes()
}

/// The series one after the other, the first first.
pub open spec fn series_block(kind: ChartKind, series: Seq<SeriesData>) -> Seq<u8>
    decreases series.len(),
{
    if series.len() == 0 {
        Seq::empty()
    } else {
        series_block(kind, series.drop_last()) + series_xml(
            kind,
            series.last(),
            (series.len() - 1) as nat,
        )
    }
}

/// The chart part.
pub open spec fn chart_part(chart: ChartData) -> Seq<u8> {
    chart_head() + plot_head(chart.kind) + series_block(chart.kind, chart.series) + plot_tail(
        chart.kind,
    ) + chart_tail()
}

fn plot_head_text(kind: ChartKind) -> (text: &'static str)
    ensures
        text.spec_bytes() == plot_head(kind),
{
    match kind {
        ChartKind::Area => AREA_OPEN,
        ChartKind::Bar => BAR_OPEN,
        ChartKind::Column => COLUMN_OPEN,
        ChartKind::Line => LINE_OPEN,
        ChartKind::Pie => PIE_OPEN,
        ChartKind::Radar => RADAR_OPEN,
        ChartKind::Scatter => SCATTER_OPEN,
        ChartKind::Stock => STOCK_OPEN,
    }
}

fn plot_tail_text(kind: ChartKind) -> (text: &'static str)
    ensures
        text.spec_bytes() == plot_tail(kind),
{
    match kind {
        ChartKind::Area => AREA_CLOSE,
        ChartKind::Bar => BAR_CLOSE,
        ChartKind::Column => COLUMN_CLOSE,
        ChartKind::Line => LINE_CLOSE,
        ChartKind::Pie => PIE_CLOSE,
        ChartKind::Radar => RADAR_CLOSE,
        ChartKind::Scatter => SCATTER_CLOSE,
        ChartKind::Stock => STOCK_CLOSE,
    }
}

/// The tags that stand round a series' categories.
fn categories_tags(kind: ChartKind) -> (tags: (&'static str, &'static str))
    ensures
        tags.0.spec_bytes() == categories_open(kind),
        tags.1.spec_bytes() == categories_close(kind),
{
    match kind {
        ChartKind::Scatter => ("<c:xVal><c:numRef><c:f>", "</c:f></c:numRef></c:xVal>"),
        _ => ("<c:cat><c:numRef><c:f>", "</c:f></c:numRef></c:cat>"),
    }
}

/// The tags that stand round a series' values.
fn values_tags(kind: ChartKind) -> (tags: (&'static str, &'static str))
    ensures
        tags.0.spec_bytes() == values_open(kind),
        tags.1.spec_bytes() == values_close(kind),
{
    match kind {
        ChartKind::Scatter => ("<c:yVal><c:numRef><c:f>", "</c:f></c:numRef></c:yVal>"),
        _ => ("<c:val><c:numRef><c:f>", "</c:f></c:numRef></c:val>"),
    }
}

/// A formula inside the element that refers to it, or nothing where the
/// formula is unset or empty.
fn reference(tags: (&str, &str), formula: Option<&Vec<u8>>) -> (piece: Vec<u8>)
    ensures
        piece@ == reference_xml(
            tags.0.spec_bytes(),
            tags.1.spec_bytes(),
            match formula {
                Some(f) => Some(f@),
                None => None,
            },
        ),
{
    match formula {
        Some(f) => {
            if has_body(f.as_slice()) {
                let mut piece = tags.0.as_bytes_vec();
                append_formula_body(&mut piece, f.as_slice());
                append_str(&mut piece, tags.1);
                piece
            } else {
                Vec::new()
            }
        },
        None => Vec::new(),
    }
}

/// One series as it stands in the part at place `index`.
pub fn series_element(kind: ChartKind, series: &ChartSeries, index: usize) -> (piece: Vec<u8>)
    ensures
        piece@ == series_xml(kind, series@, index as nat),
{
    let categories = reference(categories_tags(kind), series.categories());
    let values = reference(values_tags(kind), series.values());
    let mut piece = "<c:ser><c:idx val=\"".as_bytes_vec();
    append_decimal(&mut piece, index as u64);
    append_str(&mut piece, "\"/><c:order val=\"");
    append_decimal(&mut piece, index as u64);
    append_str(&mut piece, "\"/>");
    append(&mut piece, categories.as_slice());
    append(&mut piece, values.as_slice());
    append_str(&mut piece, "</c:ser>");
    piece
}

/// The chart part of `chart`.
#[verifier::rlimit(50)]
pub fn write_chart(chart: &Chart) -> (part: Vec<u8>)
    ensures
        part@ == chart_part(chart@),
{
    let kind = chart.kind();
    let mut out = DECLARATION.as_bytes_vec();
    append_str(&mut out, CHART_OPEN);
    append_str(&mut out, plot_head_text(kind));
    let ghost head = out@;
    let n = chart.series_count();
    let mut i: usize = 0;
    assert(out@ == head + series_block(kind, chart@.series.subrange(0, 0)));
    while i < n
        invariant
            i <= n,
            n == chart@.series.len(),
            kind == chart@.kind,
            out@ == head + series_block(kind, chart@.series.subrange(0, i as int)),
        decreases n - i,
    {
        match chart.series(i) {
            Some(series) => {
                let piece = series_element(kind, series, i);
                let ghost before = series_block(kind, chart@.series.subrange(0, i as int));
                proof {
                    let upto = chart@.series.subrange(0, i + 1);
                    assert(upto.drop_last() == chart@.series.subrange(0, i as int));
                    assert(upto.last() == chart@.series[i as int]);
                    assert(series_block(kind, upto) == before + piece@);
                    lemma_concat_associative(head, before, piece@);
                }
                append(&mut out, piece.as_slice());
            },
            None => {},
        }
        i += 1;
    }
    assert(chart@.series.subrange(0, i as int) == chart@.series);
    append_str(&mut out, plot_tail_text(kind));
    append_str(&mut out, CHART_CLOSE);
    out
}

/// The place in the series block at which the element of the series of
/// index `i` starts; for `i` the number of series, the length of the block.
pub open spec fn series_offset(kind: ChartKind, series: Seq<SeriesData>, i: int) -> int {
    series_block(kind, series.subrange(0, i)).len() as int
}

/// Adding a series to a chart adds its element after those of the series
/// that the chart held, and leaves those as they were.
pub proof fn lemma_series_block_push(kind: ChartKind, series: Seq<SeriesData>, added: SeriesData)
    ensures
        series_block(kind, series.push(added)) == series_block(kind, series) + series_xml(
            kind,
            added,
            series.len(),
        ),
{
    assert(series.push(added).drop_last() == series);
}

/// The block of the first `n` series is a prefix of the block of all.
pub proof fn lemma_series_prefix(kind: ChartKind, series: Seq<SeriesData>, n: int)
    requires
        0 <= n <= series.len(),
    ensures
        series_offset(kind, series, n) <= series_block(kind, series).len(),
        series_block(kind, series).subrange(0, series_offset(kind, series, n)) == series_block(
            kind,
            series.subrange(0, n),
        ),
    decreases series.len() - n,
{
    if n == series.len() {
        assert(series.subrange(0, n) == series);
    } else {
        lemma_series_prefix(kind, series.drop_last(), n);
        assert(series.drop_last().subrange(0, n) == series.subrange(0, n));
    }
}

/// The element of the series of index `i` stands in the block between its
/// offset and the offset of the next.
#[verifier::rlimit(50)]
pub proof fn lemma_series_at(kind: ChartKind, series: Seq<SeriesData>, i: int)
    requires
        0 <= i < series.len(),
    ensures
        0 <= series_offset(kind, series, i) <= series_offset(kind, series, i + 1)
            <= series_block(kind, series).len(),
        series_block(kind, series).subrange(
            series_offset(kind, series, i),
            series_offset(kind, series, i + 1),
        ) == series_xml(kind, series[i], i as nat),
{
    let upto = series.subrange(0, i + 1);
    assert(upto.drop_last() == series.subrange(0, i));
    assert(upto.last() == series[i]);
    lemma_series_prefix(kind, series, i + 1);
    let whole = series_block(kind, series);
    let head = series_block(kind, upto);
    let before = series_block(kind, series.subrange(0, i));
    let item = series_xml(kind, series[i], i as nat);
    assert(head == before + item);
    assert(whole.subrange(before.len() as int, head.len() as int) =~= item) by {
        assert forall|k: int| 0 <= k < item.len() implies whole[before.len() + k] == item[k] by {
            assert(whole.subrange(0, head.len() as int)[before.len() + k] == head[before.len()
                + k]);
        }
    }
}

/// Series stand in the part in the order in which the chart holds them:
/// the element of each series is in the block, whole and unchanged, and
/// that of an earlier series ends before that of a later one starts.
#[verifier::rlimit(50)]
pub proof fn lemma_series_in_order(kind: ChartKind, series: Seq<SeriesData>, i: int, j: int)
    requires
        0 <= i < j < series.len(),
    ensures
        series_block(kind, series).subrange(
            series_offset(kind, series, i),
            series_offset(kind, series, i + 1),
        ) == series_xml(kind, series[i], i as nat),
        series_block(kind, series).subrange(
            series_offset(kind, series, j),
            series_offset(kind, series, j + 1),
        ) == series_xml(kind, series[j], j as nat),
        0 <= series_offset(kind, series, i) <= series_offset(kind, series, i + 1)
            <= series_offset(kind, series, j) <= series_offset(kind, series, j + 1)
            <= series_block(kind, series).len(),
{
    lemma_series_at(kind, series, i);
    lemma_series_at(kind, series, j);
    lemma_series_prefix(kind, series.subrange(0, j), i + 1);
    assert(series.subrange(0, j).subrange(0, i + 1) == series.subrange(0, i + 1));
    assert(series.subrange(0, j).subrange(0, j) == series.subrange(0, j));
}

} // verus!
