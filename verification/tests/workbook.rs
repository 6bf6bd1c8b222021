use xlsxwriter::chart::ChartKind;
use xlsxwriter::error::XlsxError;
use xlsxwriter::number::Number;
use xlsxwriter::package::Part;
use xlsxwriter::workbook::{names_match, ChartHandle, SeriesHandle, Workbook, WorksheetHandle};
use xlsxwriter::worksheet::CellValue;

fn part<'a>(parts: &'a [Part], name: &str) -> &'a str {
    let found = parts
        .iter()
        .find(|p| p.name == name.as_bytes())
        .unwrap_or_else(|| panic!("no part {}", name));
    std::str::from_utf8(&found.data).unwrap()
}

fn names(parts: &[Part]) -> Vec<String> {
    parts.iter().map(|p| String::from_utf8(p.name.clone()).unwrap()).collect()
}

fn sheet_name(workbook: &Workbook, handle: WorksheetHandle) -> String {
    String::from_utf8(workbook.sheet(handle).unwrap().name().clone()).unwrap()
}

#[test]
fn worksheets_without_a_name_are_numbered() {
    let mut workbook = Workbook::new();
    let first = workbook.add_worksheet(None).unwrap();
    let second = workbook.add_worksheet(None).unwrap();
    let third = workbook.add_worksheet(Some("Data")).unwrap();
    let fourth = workbook.add_worksheet(None).unwrap();
    assert_eq!(first, WorksheetHandle { index: 0 });
    assert_eq!(second, WorksheetHandle { index: 1 });
    assert_eq!(sheet_name(&workbook, first), "Sheet1");
    assert_eq!(sheet_name(&workbook, second), "Sheet2");
    assert_eq!(sheet_name(&workbook, third), "Data");
    assert_eq!(sheet_name(&workbook, fourth), "Sheet4");
    assert_eq!(workbook.sheet(first).unwrap().id(), 1);
    assert_eq!(workbook.sheet(fourth).unwrap().id(), 4);
    assert_eq!(workbook.sheet_count(), 4);
}

#[test]
fn a_name_that_differs_only_in_case_is_a_duplicate() {
    let mut workbook = Workbook::new();
    workbook.add_worksheet(Some("Sales")).unwrap();
    assert_eq!(workbook.add_worksheet(Some("Sales")), Err(XlsxError::DuplicateName));
    assert_eq!(workbook.add_worksheet(Some("SALES")), Err(XlsxError::DuplicateName));
    assert_eq!(workbook.add_worksheet(Some("sales")), Err(XlsxError::DuplicateName));
    assert_eq!(workbook.sheet_count(), 1);
    assert!(workbook.add_worksheet(Some("Sales2")).is_ok());
    assert!(workbook.add_worksheet(Some("Sale")).is_ok());
    assert_eq!(workbook.sheet_count(), 3);
}

#[test]
fn a_generated_name_can_collide_too() {
    let mut workbook = Workbook::new();
    workbook.add_worksheet(Some("sheet2")).unwrap();
    assert_eq!(workbook.add_worksheet(None), Err(XlsxError::DuplicateName));
    assert_eq!(workbook.sheet_count(), 1);
}

#[test]
fn names_match_folds_ascii_letters_only() {
    assert!(names_match(b"Sheet1", b"sHEET1"));
    assert!(!names_match(b"Sheet1", b"Sheet2"));
    assert!(!names_match(b"Sheet", b"Sheet1"));
    assert!(!names_match(b"a[b", b"a{b"));
    assert!(!names_match(b"a@b", b"a`b"));
    assert!(names_match(b"", b""));
}

#[test]
fn charts_are_numbered_from_one() {
    let mut workbook = Workbook::new();
    let first = workbook.add_chart(ChartKind::Column).unwrap();
    let second = workbook.add_chart(ChartKind::Pie).unwrap();
    assert_eq!(first, ChartHandle { index: 0 });
    assert_eq!(second, ChartHandle { index: 1 });
    assert_eq!(workbook.chart(first).unwrap().id(), 1);
    assert_eq!(workbook.chart(second).unwrap().id(), 2);
    assert_eq!(workbook.chart(second).unwrap().kind(), ChartKind::Pie);
    assert_eq!(workbook.chart_count(), 2);
    assert!(workbook.chart(ChartHandle { index: 2 }).is_none());
}

#[test]
fn close_twice_is_already_closed() {
    let mut workbook = Workbook::new();
    let sheet = workbook.add_worksheet(None).unwrap();
    workbook.write_number(sheet, 0, 0, Number::from_int(7)).unwrap();
    assert!(!workbook.is_closed());
    let first = workbook.close().unwrap();
    assert!(workbook.is_closed());
    let kept: Vec<(Vec<u8>, Vec<u8>)> =
        first.iter().map(|p| (p.name.clone(), p.data.clone())).collect();
    assert_eq!(workbook.close().err(), Some(XlsxError::AlreadyClosed));
    assert_eq!(workbook.close().err(), Some(XlsxError::AlreadyClosed));
    assert!(workbook.is_closed());
    let now: Vec<(Vec<u8>, Vec<u8>)> =
        first.iter().map(|p| (p.name.clone(), p.data.clone())).collect();
    assert_eq!(kept, now);
    assert_eq!(workbook.sheet_count(), 1);
}

#[test]
fn every_change_after_close_is_already_closed() {
    let mut workbook = Workbook::new();
    let sheet = workbook.add_worksheet(None).unwrap();
    let chart = workbook.add_chart(ChartKind::Line).unwrap();
    let series = workbook.add_series(chart, None, Some("=Sheet1!$A$1:$A$5")).unwrap();
    workbook.close().unwrap();
    assert_eq!(workbook.add_worksheet(None), Err(XlsxError::AlreadyClosed));
    assert_eq!(workbook.add_worksheet(Some("Sheet1")), Err(XlsxError::AlreadyClosed));
    assert_eq!(workbook.add_chart(ChartKind::Bar), Err(XlsxError::AlreadyClosed));
    assert_eq!(workbook.add_series(chart, None, None), Err(XlsxError::AlreadyClosed));
    assert_eq!(
        workbook.set_values(series, "Sheet1", 0, 0, 1, 0),
        Err(XlsxError::AlreadyClosed)
    );
    assert_eq!(
        workbook.set_categories(series, "Sheet1", 0, 0, 1, 0),
        Err(XlsxError::AlreadyClosed)
    );
    assert_eq!(workbook.insert_chart(sheet, 1, 3, chart), Err(XlsxError::AlreadyClosed));
    assert_eq!(
        workbook.write(sheet, 0, 0, CellValue::Boolean(true)),
        Err(XlsxError::AlreadyClosed)
    );
    assert_eq!(workbook.write_string(sheet, 0, 0, "x"), Err(XlsxError::AlreadyClosed));
    assert_eq!(
        workbook.write_number(sheet, 0, 0, Number::from_int(1)),
        Err(XlsxError::AlreadyClosed)
    );
    assert_eq!(workbook.write_formula(sheet, 0, 0, "=1+1"), Err(XlsxError::AlreadyClosed));
    assert_eq!(workbook.write_boolean(sheet, 0, 0, true), Err(XlsxError::AlreadyClosed));
    assert_eq!(workbook.write_blank(sheet, 0, 0), Err(XlsxError::AlreadyClosed));
    assert_eq!(workbook.write_number(sheet, -1, 0, Number::from_int(1)), Err(XlsxError::AlreadyClosed));
    assert_eq!(workbook.sheet_count(), 1);
    assert_eq!(workbook.chart_count(), 1);
    assert_eq!(workbook.chart(chart).unwrap().series_count(), 1);
    assert_eq!(workbook.sheet(sheet).unwrap().cell_count(), 0);
    assert_eq!(workbook.strings().len(), 0);
}

#[test]
fn handles_that_name_nothing_are_invalid_references() {
    let mut workbook = Workbook::new();
    let sheet = workbook.add_worksheet(None).unwrap();
    let chart = workbook.add_chart(ChartKind::Column).unwrap();
    let series = workbook.add_series(chart, None, None).unwrap();
    let no_sheet = WorksheetHandle { index: 1 };
    let no_chart = ChartHandle { index: 1 };
    assert_eq!(workbook.add_series(no_chart, None, Some("=Sheet1!$A$1")), Err(XlsxError::InvalidReference));
    assert_eq!(workbook.formulas().len(), 0);
    assert_eq!(
        workbook.set_values(SeriesHandle { chart: 0, series: 1 }, "Sheet1", 0, 0, 1, 0),
        Err(XlsxError::InvalidReference)
    );
    assert_eq!(
        workbook.set_values(SeriesHandle { chart: 1, series: 0 }, "Sheet1", 0, 0, 1, 0),
        Err(XlsxError::InvalidReference)
    );
    assert_eq!(
        workbook.set_categories(SeriesHandle { chart: 5, series: 0 }, "Sheet1", 0, 0, 1, 0),
        Err(XlsxError::InvalidReference)
    );
    assert_eq!(workbook.set_values(series, "Sheet1", 0, 0, 1_048_576, 0), Err(XlsxError::InvalidReference));
    assert_eq!(workbook.set_categories(series, "Sheet1", 0, -1, 4, 0), Err(XlsxError::InvalidReference));
    assert_eq!(workbook.insert_chart(no_sheet, 1, 3, chart), Err(XlsxError::InvalidReference));
    assert_eq!(workbook.insert_chart(sheet, 1, 3, no_chart), Err(XlsxError::InvalidReference));
    assert_eq!(workbook.insert_chart(sheet, 1, 16_384, chart), Err(XlsxError::InvalidReference));
    assert_eq!(workbook.write_string(no_sheet, 0, 0, "x"), Err(XlsxError::InvalidReference));
    assert_eq!(workbook.write_string(sheet, 1_048_576, 0, "x"), Err(XlsxError::InvalidReference));
    assert_eq!(workbook.strings().len(), 0);
    assert_eq!(workbook.write(sheet, 0, 0, CellValue::Text(0)), Err(XlsxError::InvalidReference));
    assert_eq!(workbook.write_blank(sheet, 0, -1), Err(XlsxError::InvalidReference));
    let held = workbook.chart(chart).unwrap().series(0).unwrap();
    assert!(held.values().is_none());
    assert!(held.categories().is_none());
    assert_eq!(workbook.sheet(sheet).unwrap().cell_count(), 0);
    assert_eq!(workbook.sheet(sheet).unwrap().anchor_count(), 0);
    workbook.write_string(sheet, 0, 0, "x").unwrap();
    assert_eq!(workbook.write(sheet, 0, 1, CellValue::Text(0)), Ok(()));
    assert_eq!(workbook.write(sheet, 0, 2, CellValue::Text(1)), Err(XlsxError::InvalidReference));
}

#[test]
fn identical_texts_share_one_entry_of_the_string_table() {
    let mut workbook = Workbook::new();
    let first = workbook.add_worksheet(None).unwrap();
    let second = workbook.add_worksheet(None).unwrap();
    workbook.write_string(first, 0, 0, "value 1").unwrap();
    workbook.write_string(first, 1, 0, "value 2").unwrap();
    workbook.write_string(first, 2, 0, "value 1").unwrap();
    workbook.write_string(second, 5, 5, "value 1").unwrap();
    assert_eq!(workbook.strings().len(), 2);
    assert_eq!(workbook.strings().find(b"value 1"), Some(0));
    assert_eq!(workbook.strings().find(b"value 2"), Some(1));
    let text_at = |sheet: WorksheetHandle, row: i64, col: i64| -> usize {
        match workbook.sheet(sheet).unwrap().get(row, col) {
            Some(CellValue::Text(index)) => *index,
            other => panic!("no text: {:?}", other),
        }
    };
    assert_eq!(text_at(first, 0, 0), 0);
    assert_eq!(text_at(first, 1, 0), 1);
    assert_eq!(text_at(first, 2, 0), 0);
    assert_eq!(text_at(second, 5, 5), 0);
    let parts = workbook.close().unwrap();
    assert_eq!(
        part(&parts, "xl/sharedStrings.xml"),
        "<?xml version=\"1.0\" encoding=\"UTF-8\" standalone=\"yes\"?>\n<sst xmlns=\"http://schemas.openxmlformats.org/spreadsheetml/2006/main\" uniqueCount=\"2\"><si><t xml:space=\"preserve\">value 1</t></si><si><t xml:space=\"preserve\">value 2</t></si></sst>"
    );
}

#[test]
fn series_formulas_are_pooled_once_each() {
    let mut workbook = Workbook::new();
    let chart = workbook.add_chart(ChartKind::Column).unwrap();
    workbook.add_series(chart, Some("=Sheet1!$A$1:$A$5"), Some("=Sheet1!$B$1:$B$5")).unwrap();
    workbook.add_series(chart, Some("=Sheet1!$A$1:$A$5"), Some("=Sheet1!$C$1:$C$5")).unwrap();
    workbook.add_series(chart, Some(""), None).unwrap();
    assert_eq!(workbook.formulas().len(), 3);
    assert_eq!(workbook.formulas().find(b"=Sheet1!$A$1:$A$5"), Some(0));
    assert_eq!(workbook.formulas().find(b"=Sheet1!$B$1:$B$5"), Some(1));
    assert_eq!(workbook.formulas().find(b"=Sheet1!$C$1:$C$5"), Some(2));
    assert_eq!(workbook.formulas().find(b""), None);
    assert_eq!(workbook.chart(chart).unwrap().series_count(), 3);
}

#[test]
fn a_union_of_ranges_goes_through_unchanged() {
    let union = "=(Sheet1!$A$1:$A$5,Sheet1!$A$10:$A$18)";
    let mut workbook = Workbook::new();
    workbook.add_worksheet(None).unwrap();
    let chart = workbook.add_chart(ChartKind::Column).unwrap();
    let series = workbook.add_series(chart, None, Some(union)).unwrap();
    let index = workbook.formulas().find(union.as_bytes()).unwrap();
    assert_eq!(workbook.formulas().get(index).unwrap().as_slice(), union.as_bytes());
    let held = workbook.chart(chart).unwrap().series(series.series).unwrap();
    assert_eq!(held.values().unwrap().as_slice(), union.as_bytes());
    let parts = workbook.close().unwrap();
    let xml = part(&parts, "xl/charts/chart1.xml");
    assert!(xml.contains("<c:val><c:numRef><c:f>(Sheet1!$A$1:$A$5,Sheet1!$A$10:$A$18)</c:f></c:numRef></c:val>"));
    assert_eq!(xml.matches("<c:f>").count(), 1);
}

#[test]
fn series_stand_in_the_chart_part_in_insertion_order() {
    let mut workbook = Workbook::new();
    workbook.add_worksheet(None).unwrap();
    let chart = workbook.add_chart(ChartKind::Column).unwrap();
    workbook.add_series(chart, None, Some("=Sheet1!$A$1:$A$5")).unwrap();
    workbook.add_series(chart, None, Some("=Sheet1!$B$1:$B$5")).unwrap();
    workbook.add_series(chart, None, Some("=Sheet1!$C$1:$C$5")).unwrap();
    let parts = workbook.close().unwrap();
    let xml = part(&parts, "xl/charts/chart1.xml");
    let a = xml.find("<c:ser><c:idx val=\"0\"/><c:order val=\"0\"/><c:val><c:numRef><c:f>Sheet1!$A$1:$A$5</c:f></c:numRef></c:val></c:ser>").unwrap();
    let b = xml.find("<c:ser><c:idx val=\"1\"/><c:order val=\"1\"/><c:val><c:numRef><c:f>Sheet1!$B$1:$B$5</c:f></c:numRef></c:val></c:ser>").unwrap();
    let c = xml.find("<c:ser><c:idx val=\"2\"/><c:order val=\"2\"/><c:val><c:numRef><c:f>Sheet1!$C$1:$C$5</c:f></c:numRef></c:val></c:ser>").unwrap();
    assert!(a < b && b < c);
    assert_eq!(xml.matches("<c:ser>").count(), 3);
}

#[test]
fn end_to_end_chart_on_a_column_of_numbers() {
    let mut workbook = Workbook::new();
    let sheet = workbook.add_worksheet(None).unwrap();
    for i in 0..5 {
        workbook.write_number(sheet, i, 0, Number::from_int(i * 10)).unwrap();
    }
    let chart = workbook.add_chart(ChartKind::Column).unwrap();
    workbook.add_series(chart, None, Some("=Sheet1!$A$1:$A$5")).unwrap();
    workbook.insert_chart(sheet, 1, 3, chart).unwrap();
    let parts = workbook.close().unwrap();
    assert_eq!(
        names(&parts),
        vec![
            "[Content_Types].xml",
            "_rels/.rels",
            "docProps/app.xml",
            "docProps/core.xml",
            "xl/workbook.xml",
            "xl/_rels/workbook.xml.rels",
            "xl/sharedStrings.xml",
            "xl/worksheets/sheet1.xml",
            "xl/worksheets/_rels/sheet1.xml.rels",
            "xl/drawings/drawing1.xml",
            "xl/drawings/_rels/drawing1.xml.rels",
            "xl/charts/chart1.xml",
        ]
    );
    let chart_xml = part(&parts, "xl/charts/chart1.xml");
    assert!(chart_xml.contains("<c:f>Sheet1!$A$1:$A$5</c:f>"));
    assert!(chart_xml.contains("<c:barChart><c:barDir val=\"col\"/>"));
    let drawing = part(&parts, "xl/drawings/drawing1.xml");
    assert!(drawing.contains(
        "<xdr:from><xdr:col>3</xdr:col><xdr:colOff>0</xdr:colOff><xdr:row>1</xdr:row><xdr:rowOff>0</xdr:rowOff></xdr:from>"
    ));
    assert!(drawing.contains(
        "<xdr:to><xdr:col>11</xdr:col><xdr:colOff>0</xdr:colOff><xdr:row>16</xdr:row><xdr:rowOff>0</xdr:rowOff></xdr:to>"
    ));
    assert!(drawing.contains("r:id=\"rId1\""));
    assert_eq!(
        part(&parts, "xl/drawings/_rels/drawing1.xml.rels"),
        "<?xml version=\"1.0\" encoding=\"UTF-8\" standalone=\"yes\"?>\n<Relationships xmlns=\"http://schemas.openxmlformats.org/package/2006/relationships\"><Relationship Id=\"rId1\" Type=\"http://schemas.openxmlformats.org/officeDocument/2006/relationships/chart\" Target=\"../charts/chart1.xml\"/></Relationships>"
    );
    assert_eq!(
        part(&parts, "xl/worksheets/_rels/sheet1.xml.rels"),
        "<?xml version=\"1.0\" encoding=\"UTF-8\" standalone=\"yes\"?>\n<Relationships xmlns=\"http://schemas.openxmlformats.org/package/2006/relationships\"><Relationship Id=\"rId1\" Type=\"http://schemas.openxmlformats.org/officeDocument/2006/relationships/drawing\" Target=\"../drawings/drawing1.xml\"/></Relationships>"
    );
    assert_eq!(
        part(&parts, "xl/worksheets/sheet1.xml"),
        "<?xml version=\"1.0\" encoding=\"UTF-8\" standalone=\"yes\"?>\n<worksheet xmlns=\"http://schemas.openxmlformats.org/spreadsheetml/2006/main\" xmlns:r=\"http://schemas.openxmlformats.org/officeDocument/2006/relationships\"><sheetData><row r=\"1\"><c r=\"A1\"><v>0</v></c></row><row r=\"2\"><c r=\"A2\"><v>10</v></c></row><row r=\"3\"><c r=\"A3\"><v>20</v></c></row><row r=\"4\"><c r=\"A4\"><v>30</v></c></row><row r=\"5\"><c r=\"A5\"><v>40</v></c></row></sheetData><drawing r:id=\"rId1\"/></worksheet>"
    );
    assert_eq!(
        part(&parts, "xl/workbook.xml"),
        "<?xml version=\"1.0\" encoding=\"UTF-8\" standalone=\"yes\"?>\n<workbook xmlns=\"http://schemas.openxmlformats.org/spreadsheetml/2006/main\" xmlns:r=\"http://schemas.openxmlformats.org/officeDocument/2006/relationships\"><sheets><sheet name=\"Sheet1\" sheetId=\"1\" r:id=\"rId1\"/></sheets></workbook>"
    );
    assert_eq!(
        part(&parts, "xl/_rels/workbook.xml.rels"),
        "<?xml version=\"1.0\" encoding=\"UTF-8\" standalone=\"yes\"?>\n<Relationships xmlns=\"http://schemas.openxmlformats.org/package/2006/relationships\"><Relationship Id=\"rId1\" Type=\"http://schemas.openxmlformats.org/officeDocument/2006/relationships/worksheet\" Target=\"worksheets/sheet1.xml\"/><Relationship Id=\"rId2\" Type=\"http://schemas.openxmlformats.org/officeDocument/2006/relationships/sharedStrings\" Target=\"sharedStrings.xml\"/></Relationships>"
    );
    let types = part(&parts, "[Content_Types].xml");
    assert!(types.contains("<Override PartName=\"/xl/worksheets/sheet1.xml\""));
    assert!(types.contains("<Override PartName=\"/xl/drawings/drawing1.xml\""));
    assert!(types.contains("<Override PartName=\"/xl/charts/chart1.xml\""));
}

#[test]
fn a_chart_shown_nowhere_still_has_its_part() {
    let mut workbook = Workbook::new();
    workbook.add_worksheet(None).unwrap();
    let chart = workbook.add_chart(ChartKind::Pie).unwrap();
    workbook.add_series(chart, None, None).unwrap();
    let parts = workbook.close().unwrap();
    assert_eq!(
        names(&parts),
        vec![
            "[Content_Types].xml",
            "_rels/.rels",
            "docProps/app.xml",
            "docProps/core.xml",
            "xl/workbook.xml",
            "xl/_rels/workbook.xml.rels",
            "xl/sharedStrings.xml",
            "xl/worksheets/sheet1.xml",
            "xl/charts/chart1.xml",
        ]
    );
    assert_eq!(
        part(&parts, "xl/charts/chart1.xml"),
        "<?xml version=\"1.0\" encoding=\"UTF-8\" standalone=\"yes\"?>\n<c:chartSpace xmlns:c=\"http://schemas.openxmlformats.org/drawingml/2006/chart\" xmlns:a=\"http://schemas.openxmlformats.org/drawingml/2006/main\" xmlns:r=\"http://schemas.openxmlformats.org/officeDocument/2006/relationships\"><c:chart><c:plotArea><c:layout/><c:pieChart><c:varyColors val=\"1\"/><c:ser><c:idx val=\"0\"/><c:order val=\"0\"/></c:ser><c:firstSliceAng val=\"0\"/></c:pieChart></c:plotArea><c:legend><c:legendPos val=\"r\"/></c:legend><c:plotVisOnly val=\"1\"/></c:chart></c:chartSpace>"
    );
    assert!(!part(&parts, "xl/worksheets/sheet1.xml").contains("<drawing"));
}

#[test]
fn one_chart_can_be_shown_in_several_worksheets() {
    let mut workbook = Workbook::new();
    let first = workbook.add_worksheet(None).unwrap();
    let second = workbook.add_worksheet(None).unwrap();
    let third = workbook.add_worksheet(None).unwrap();
    let one = workbook.add_chart(ChartKind::Line).unwrap();
    let two = workbook.add_chart(ChartKind::Bar).unwrap();
    workbook.insert_chart(first, 0, 0, two).unwrap();
    workbook.insert_chart(third, 4, 2, one).unwrap();
    workbook.insert_chart(third, 30, 2, two).unwrap();
    let parts = workbook.close().unwrap();
    let all = names(&parts);
    assert!(all.contains(&"xl/drawings/drawing1.xml".to_string()));
    assert!(!all.contains(&"xl/drawings/drawing2.xml".to_string()));
    assert!(all.contains(&"xl/drawings/drawing3.xml".to_string()));
    let _ = second;
    let links = part(&parts, "xl/drawings/_rels/drawing3.xml.rels");
    assert!(links.contains("Id=\"rId1\" Type=\"http://schemas.openxmlformats.org/officeDocument/2006/relationships/chart\" Target=\"../charts/chart1.xml\""));
    assert!(links.contains("Id=\"rId2\" Type=\"http://schemas.openxmlformats.org/officeDocument/2006/relationships/chart\" Target=\"../charts/chart2.xml\""));
    let drawing = part(&parts, "xl/drawings/drawing3.xml");
    let a = drawing.find("<xdr:row>4</xdr:row>").unwrap();
    let b = drawing.find("<xdr:row>30</xdr:row>").unwrap();
    assert!(a < b);
    assert_eq!(drawing.matches("<xdr:twoCellAnchor>").count(), 2);
}

#[test]
fn text_is_escaped_in_every_part() {
    let mut workbook = Workbook::new();
    let sheet = workbook.add_worksheet(Some("R&D <\"2024\">")).unwrap();
    workbook.write_string(sheet, 0, 0, "a<b & 'c' > \"d\"").unwrap();
    workbook.write_formula(sheet, 0, 1, "=IF(A1<\"x\",1,2)").unwrap();
    let chart = workbook.add_chart(ChartKind::Scatter).unwrap();
    workbook.add_series(chart, Some("='R&D'!$A$1:$A$5"), Some("='it''s'!$B$1")).unwrap();
    let parts = workbook.close().unwrap();
    assert!(part(&parts, "xl/workbook.xml")
        .contains("<sheet name=\"R&amp;D &lt;&quot;2024&quot;&gt;\" sheetId=\"1\""));
    assert!(part(&parts, "xl/sharedStrings.xml").contains(
        "<si><t xml:space=\"preserve\">a&lt;b &amp; &apos;c&apos; &gt; &quot;d&quot;</t></si>"
    ));
    assert!(part(&parts, "xl/worksheets/sheet1.xml")
        .contains("<c r=\"B1\"><f>IF(A1&lt;&quot;x&quot;,1,2)</f><v>0</v></c>"));
    let chart_xml = part(&parts, "xl/charts/chart1.xml");
    assert!(chart_xml.contains(
        "<c:xVal><c:numRef><c:f>&apos;R&amp;D&apos;!$A$1:$A$5</c:f></c:numRef></c:xVal>"
    ));
    assert!(chart_xml.contains(
        "<c:yVal><c:numRef><c:f>&apos;it&apos;&apos;s&apos;!$B$1</c:f></c:numRef></c:yVal>"
    ));
}

#[test]
fn worksheets_are_found_by_name() {
    let mut workbook = Workbook::new();
    workbook.add_worksheet(Some("Sales")).unwrap();
    workbook.add_worksheet(None).unwrap();
    assert_eq!(workbook.find_sheet(b"SALES"), Some(WorksheetHandle { index: 0 }));
    assert_eq!(workbook.find_sheet(b"sheet2"), Some(WorksheetHandle { index: 1 }));
    assert_eq!(workbook.find_sheet(b"Sheet1"), None);
    assert!(workbook.has_sheet_named(b"sales"));
    assert!(!workbook.has_sheet_named(b"sale"));
}

#[test]
fn the_crate_root_names_the_main_types() {
    let mut chart = xlsxwriter::Chart::new(1, xlsxwriter::ChartKind::Column);
    let mut pool = xlsxwriter::strings::StringTable::new();
    assert_eq!(chart.add_series(&mut pool, None, Some("=Sheet1!$A$1:$A$5")), 0);
    let error: xlsxwriter::XlsxError = XlsxError::IoError;
    assert_ne!(error, XlsxError::SchemaViolation);
}
