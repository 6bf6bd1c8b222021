use xlsxwriter::error::XlsxError;
use xlsxwriter::number::Number;
use xlsxwriter::sheet_xml::write_sheet;
use xlsxwriter::worksheet::{Anchor, CellValue, Worksheet};

fn sheet() -> Worksheet {
    Worksheet::new(1, b"Sheet1".to_vec())
}

fn places(sheet: &Worksheet) -> Vec<(u32, u16)> {
    (0..sheet.cell_count()).map(|i| {
        let cell = sheet.cell(i).unwrap();
        (cell.row, cell.col)
    }).collect()
}

fn number(n: i64) -> CellValue {
    CellValue::Number(Number::from_int(n))
}

fn held(sheet: &Worksheet, row: i64, col: i64) -> Option<i64> {
    match sheet.get(row, col) {
        Some(CellValue::Number(n)) => Some(n.mantissa),
        Some(other) => panic!("not a number: {:?}", other),
        None => None,
    }
}

#[test]
fn cells_are_kept_in_reading_order() {
    let mut sheet = sheet();
    sheet.write(2, 1, number(21)).unwrap();
    sheet.write(0, 5, number(5)).unwrap();
    sheet.write(2, 0, number(20)).unwrap();
    sheet.write(0, 0, number(0)).unwrap();
    sheet.write(1, 16_383, number(1)).unwrap();
    sheet.write(1_048_575, 0, number(9)).unwrap();
    assert_eq!(places(&sheet), vec![(0, 0), (0, 5), (1, 16_383), (2, 0), (2, 1), (1_048_575, 0)]);
    assert_eq!(held(&sheet, 2, 1), Some(21));
    assert_eq!(held(&sheet, 0, 5), Some(5));
    assert_eq!(held(&sheet, 1, 16_383), Some(1));
    assert_eq!(held(&sheet, 1, 0), None);
    assert_eq!(held(&sheet, 3, 3), None);
}

#[test]
fn a_place_holds_what_was_written_last() {
    let mut sheet = sheet();
    sheet.write(1, 1, number(1)).unwrap();
    sheet.write(0, 0, number(2)).unwrap();
    sheet.write(1, 1, number(3)).unwrap();
    sheet.write(1, 1, CellValue::Boolean(true)).unwrap();
    assert_eq!(sheet.cell_count(), 2);
    assert!(matches!(sheet.get(1, 1), Some(CellValue::Boolean(true))));
    assert_eq!(held(&sheet, 0, 0), Some(2));
}

#[test]
fn places_off_the_sheet_are_refused() {
    let mut sheet = sheet();
    assert_eq!(sheet.write(-1, 0, number(1)), Err(XlsxError::InvalidReference));
    assert_eq!(sheet.write(0, -1, number(1)), Err(XlsxError::InvalidReference));
    assert_eq!(sheet.write(1_048_576, 0, number(1)), Err(XlsxError::InvalidReference));
    assert_eq!(sheet.write(0, 16_384, number(1)), Err(XlsxError::InvalidReference));
    assert_eq!(sheet.insert_chart(0, 16_384, 1), Err(XlsxError::InvalidReference));
    assert_eq!(sheet.insert_chart(-5, 0, 1), Err(XlsxError::InvalidReference));
    assert_eq!(sheet.cell_count(), 0);
    assert_eq!(sheet.anchor_count(), 0);
    assert!(sheet.get(-1, 0).is_none());
    assert!(sheet.get(0, 16_384).is_none());
}

#[test]
fn anchors_are_kept_in_order_of_insertion() {
    let mut sheet = sheet();
    sheet.insert_chart(10, 2, 2).unwrap();
    sheet.insert_chart(1, 3, 1).unwrap();
    assert_eq!(sheet.anchor_count(), 2);
    assert_eq!(sheet.anchor(0), Some(Anchor { row: 10, col: 2, chart: 2 }));
    assert_eq!(sheet.anchor(1), Some(Anchor { row: 1, col: 3, chart: 1 }));
    assert_eq!(sheet.anchor(2), None);
}

#[test]
fn the_worksheet_part_groups_cells_by_row() {
    let mut sheet = sheet();
    sheet.write(0, 0, number(-12)).unwrap();
    sheet.write(0, 1, CellValue::Text(3)).unwrap();
    sheet.write(0, 27, CellValue::Boolean(false)).unwrap();
    sheet.write(2, 2, CellValue::Blank).unwrap();
    sheet.write(2, 3, CellValue::Formula(b"=SUM(A1:B1)".to_vec(), Some(Number { mantissa: 15, exponent: -1 }))).unwrap();
    sheet.write(2, 4, CellValue::Number(Number { mantissa: -25, exponent: 7 })).unwrap();
    sheet.write(9, 0, CellValue::Boolean(true)).unwrap();
    let xml = String::from_utf8(write_sheet(&sheet, 4).unwrap()).unwrap();
    assert_eq!(
        xml,
        "<?xml version=\"1.0\" encoding=\"UTF-8\" standalone=\"yes\"?>\n<worksheet xmlns=\"http://schemas.openxmlformats.org/spreadsheetml/2006/main\" xmlns:r=\"http://schemas.openxmlformats.org/officeDocument/2006/relationships\"><sheetData><row r=\"1\"><c r=\"A1\"><v>-12</v></c><c r=\"B1\" t=\"s\"><v>3</v></c><c r=\"AB1\" t=\"b\"><v>0</v></c></row><row r=\"3\"><c r=\"C3\"/><c r=\"D3\"><f>SUM(A1:B1)</f><v>15E-1</v></c><c r=\"E3\"><v>-25E7</v></c></row><row r=\"10\"><c r=\"A10\" t=\"b\"><v>1</v></c></row></sheetData></worksheet>"
    );
}

#[test]
fn a_text_cell_outside_the_table_is_a_schema_violation() {
    let mut sheet = sheet();
    sheet.write(0, 0, number(1)).unwrap();
    sheet.write(0, 1, CellValue::Text(3)).unwrap();
    assert_eq!(write_sheet(&sheet, 3), Err(XlsxError::SchemaViolation));
    assert_eq!(write_sheet(&sheet, 0), Err(XlsxError::SchemaViolation));
    assert!(write_sheet(&sheet, 4).is_ok());
}

#[test]
fn an_empty_worksheet_has_an_empty_part() {
    let xml = String::from_utf8(write_sheet(&sheet(), 0).unwrap()).unwrap();
    assert_eq!(
        xml,
        "<?xml version=\"1.0\" encoding=\"UTF-8\" standalone=\"yes\"?>\n<worksheet xmlns=\"http://schemas.openxmlformats.org/spreadsheetml/2006/main\" xmlns:r=\"http://schemas.openxmlformats.org/officeDocument/2006/relationships\"><sheetData></sheetData></worksheet>"
    );
}

#[test]
fn numbers_are_written_as_decimals() {
    fn text(n: Number) -> String {
        let mut out = Vec::new();
        n.append_to(&mut out);
        String::from_utf8(out).unwrap()
    }
    assert_eq!(text(Number::from_int(0)), "0");
    assert_eq!(text(Number::from_int(40)), "40");
    assert_eq!(text(Number::from_int(-7)), "-7");
    assert_eq!(text(Number::from_int(i64::MAX)), "9223372036854775807");
    assert_eq!(text(Number::from_int(i64::MIN)), "-9223372036854775808");
    assert_eq!(text(Number { mantissa: 15, exponent: -1 }), "15E-1");
    assert_eq!(text(Number { mantissa: 1, exponent: 308 }), "1E308");
    assert_eq!(text(Number { mantissa: -1, exponent: i16::MIN }), "-1E-32768");
}
