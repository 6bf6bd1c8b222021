use xlsxwriter::error::XlsxError;
use xlsxwriter::parse::read_formula;
use xlsxwriter::reference::{
    append_cell_abs, append_column_name, append_sheet_text, format_categories, format_values,
    in_bounds, quotes_needed, RangeRef,
};

fn column(col: u16) -> String {
    let mut out = Vec::new();
    append_column_name(&mut out, col);
    String::from_utf8(out).unwrap()
}

fn text(bytes: Vec<u8>) -> String {
    String::from_utf8(bytes).unwrap()
}

#[test]
fn column_names_count_in_letters() {
    assert_eq!(column(0), "A");
    assert_eq!(column(25), "Z");
    assert_eq!(column(26), "AA");
    assert_eq!(column(27), "AB");
    assert_eq!(column(701), "ZZ");
    assert_eq!(column(702), "AAA");
    assert_eq!(column(16383), "XFD");
}

#[test]
fn absolute_cell_counts_rows_from_one() {
    let mut out = Vec::new();
    append_cell_abs(&mut out, 1, 3);
    assert_eq!(text(out), "$D$2");
    let mut out = Vec::new();
    append_cell_abs(&mut out, 1_048_575, 16_383);
    assert_eq!(text(out), "$XFD$1048576");
}

#[test]
fn plain_sheet_names_stand_unquoted() {
    assert!(!quotes_needed(b"Sheet1"));
    assert!(!quotes_needed(b"data_2024.v1"));
    assert!(quotes_needed(b"Sheet Name"));
    assert!(quotes_needed(b"it's"));
    assert!(quotes_needed(b""));
    assert!(quotes_needed("Büro".as_bytes()));
}

#[test]
fn quoted_sheet_names_double_their_quotes() {
    let mut out = Vec::new();
    append_sheet_text(&mut out, b"Sheet Name");
    assert_eq!(text(out), "'Sheet Name'");
    let mut out = Vec::new();
    append_sheet_text(&mut out, b"it's");
    assert_eq!(text(out), "'it''s'");
    let mut out = Vec::new();
    append_sheet_text(&mut out, b"Sheet1");
    assert_eq!(text(out), "Sheet1");
}

#[test]
fn values_formula_is_always_a_range() {
    assert_eq!(text(format_values(b"Sheet1", 0, 0, 4, 0).unwrap()), "=Sheet1!$A$1:$A$5");
    assert_eq!(text(format_values(b"Sheet1", 0, 1, 4, 1).unwrap()), "=Sheet1!$B$1:$B$5");
    assert_eq!(text(format_values(b"Sheet1", 2, 2, 2, 2).unwrap()), "=Sheet1!$C$3:$C$3");
}

#[test]
fn categories_formula_of_one_cell_has_no_colon() {
    assert_eq!(text(format_categories(b"Sheet1", 0, 0, 4, 0).unwrap()), "=Sheet1!$A$1:$A$5");
    assert_eq!(text(format_categories(b"Sheet1", 2, 2, 2, 2).unwrap()), "=Sheet1!$C$3");
    assert_eq!(
        text(format_categories(b"Sheet Name", 0, 0, 0, 0).unwrap()),
        "='Sheet Name'!$A$1"
    );
}

#[test]
fn formulas_reach_the_last_cell_of_the_sheet() {
    assert_eq!(
        text(format_values(b"S", 0, 0, 1_048_575, 16_383).unwrap()),
        "=S!$A$1:$XFD$1048576"
    );
}

#[test]
fn coordinates_off_the_sheet_are_refused() {
    assert_eq!(format_values(b"Sheet1", -1, 0, 4, 0), Err(XlsxError::InvalidReference));
    assert_eq!(format_values(b"Sheet1", 0, -1, 4, 0), Err(XlsxError::InvalidReference));
    assert_eq!(format_values(b"Sheet1", 0, 0, 1_048_576, 0), Err(XlsxError::InvalidReference));
    assert_eq!(format_values(b"Sheet1", 0, 0, 4, 16_384), Err(XlsxError::InvalidReference));
    assert_eq!(format_categories(b"Sheet1", 0, 0, 4, 16_384), Err(XlsxError::InvalidReference));
    assert_eq!(
        format_categories(b"Sheet1", i64::MIN, 0, i64::MAX, 0),
        Err(XlsxError::InvalidReference)
    );
    assert!(in_bounds(0, 0));
    assert!(in_bounds(1_048_575, 16_383));
    assert!(!in_bounds(1_048_576, 0));
    assert!(!in_bounds(0, 16_384));
    assert!(!in_bounds(-1, 0));
}

fn range(sheet: &str, fr: u32, fc: u16, lr: u32, lc: u16) -> RangeRef {
    RangeRef {
        sheet: sheet.as_bytes().to_vec(),
        first_row: fr,
        first_col: fc,
        last_row: lr,
        last_col: lc,
    }
}

#[test]
fn reading_a_range_formula() {
    assert_eq!(read_formula(b"=Sheet1!$A$1:$A$5"), Some(vec![range("Sheet1", 0, 0, 4, 0)]));
    assert_eq!(read_formula(b"=Sheet1!$D$2"), Some(vec![range("Sheet1", 1, 3, 1, 3)]));
    assert_eq!(
        read_formula(b"='Sheet Name'!$A$1"),
        Some(vec![range("Sheet Name", 0, 0, 0, 0)])
    );
    assert_eq!(
        read_formula(b"='it''s'!$XFD$1048576:$A$1"),
        Some(vec![range("it's", 1_048_575, 16_383, 0, 0)])
    );
}

#[test]
fn reading_a_union_of_ranges() {
    assert_eq!(
        read_formula(b"=(Sheet1!$A$1:$A$5,Sheet1!$A$10:$A$18)"),
        Some(vec![range("Sheet1", 0, 0, 4, 0), range("Sheet1", 9, 0, 17, 0)])
    );
    assert_eq!(read_formula(b"=(Sheet1!$B$2)"), Some(vec![range("Sheet1", 1, 1, 1, 1)]));
}

#[test]
fn text_outside_the_grammar_is_refused() {
    assert_eq!(read_formula(b""), None);
    assert_eq!(read_formula(b"Sheet1!$A$1"), None);
    assert_eq!(read_formula(b"=Sheet1!A1"), None);
    assert_eq!(read_formula(b"=Sheet1!$A$0"), None);
    assert_eq!(read_formula(b"=Sheet1!$A$01"), None);
    assert_eq!(read_formula(b"=Sheet1!$a$1"), None);
    assert_eq!(read_formula(b"=Sheet1!$XFE$1"), None);
    assert_eq!(read_formula(b"=Sheet1!$A$1048577"), None);
    assert_eq!(read_formula(b"=Sheet1!$A$99999999999999999999"), None);
    assert_eq!(read_formula(b"=Sheet1!$AAAAAAAAAAAAAAAAAAAA$1"), None);
    assert_eq!(read_formula(b"=Sheet1!$A$1:"), None);
    assert_eq!(read_formula(b"=Sheet1!$A$1 "), None);
    assert_eq!(read_formula(b"=Sheet Name!$A$1"), None);
    assert_eq!(read_formula(b"='Sheet1!$A$1"), None);
    assert_eq!(read_formula(b"=!$A$1"), None);
    assert_eq!(read_formula(b"=(Sheet1!$A$1"), None);
    assert_eq!(read_formula(b"=(Sheet1!$A$1,)"), None);
    assert_eq!(read_formula(b"=(Sheet1!$A$1)x"), None);
    assert_eq!(read_formula(b"=()"), None);
}

#[test]
fn formatting_then_reading_gives_the_range_back() {
    let sheets: [&str; 5] = ["Sheet1", "Sheet Name", "it's", "", "a.b_c"];
    let rows: [i64; 5] = [0, 1, 9, 99_999, 1_048_575];
    let cols: [i64; 6] = [0, 25, 26, 701, 702, 16_383];
    for sheet in sheets {
        for &fr in &rows {
            for &fc in &cols {
                for &lr in &rows {
                    for &lc in &cols {
                        let want = || {
                            Some(vec![range(sheet, fr as u32, fc as u16, lr as u32, lc as u16)])
                        };
                        let values = format_values(sheet.as_bytes(), fr, fc, lr, lc).unwrap();
                        assert_eq!(read_formula(&values), want());
                        let cats = format_categories(sheet.as_bytes(), fr, fc, lr, lc).unwrap();
                        assert_eq!(read_formula(&cats), want());
                    }
                }
            }
        }
    }
}

#[test]
fn terminated_text_ends_in_one_zero_byte() {
    assert_eq!(xlsxwriter::bytes::terminated("=Sheet1!$A$1"), b"=Sheet1!$A$1\0".to_vec());
    assert_eq!(xlsxwriter::bytes::terminated(""), vec![0]);
}
