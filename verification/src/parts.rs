//! The parts that describe the package and the workbook as a whole: the
//! content types, the relationships, the document properties, the workbook
//! part and the shared strings.

use vstd::prelude::*;
use vstd::string::*;
use vstd::seq_lib::lemma_concat_associative;
use crate::bytes::{append, append_decimal, append_str, decimal};
use crate::chart::{chart_views, Chart, ChartData};
use crate::drawing::{rels_head, rels_opening};
use crate::strings::StringTable;
use crate::worksheet::{sheet_views, SheetData, Worksheet};
use crate::xml::{append_escaped, declaration, escaped, DECLARATION};

verus! {

/// The relationships of the package, and the end of their part.
pub const ROOT_LINKS: &'static str = "<Relationship Id=\"rId1\" Type=\"http://schemas.openxmlformats.org/officeDocument/2006/relationships/officeDocument\" Target=\"xl/workbook.xml\"/><Relationship Id=\"rId2\" Type=\"http://schemas.openxmlformats.org/package/2006/relationships/metadata/core-properties\" Target=\"docProps/core.xml\"/><Relationship Id=\"rId3\" Type=\"http://schemas.openxmlformats.org/officeDocument/2006/relationships/extended-properties\" Target=\"docProps/app.xml\"/></Relationships>";

/// The extended document properties.
pub const APP_PROPERTIES: &'static str = "<Properties xmlns=\"http://schemas.openxmlformats.org/officeDocument/2006/extended-properties\" xmlns:vt=\"http://schemas.openxmlformats.org/officeDocument/2006/docPropsVTypes\"><Application>Microsoft Excel</Application><DocSecurity>0</DocSecurity><ScaleCrop>false</ScaleCrop><LinksUpToDate>false</LinksUpToDate><SharedDoc>false</SharedDoc><HyperlinksChanged>false</HyperlinksChanged><AppVersion>12.0000</AppVersion></Properties>";

/// The core document properties.
pub const CORE_PROPERTIES: &'static str = "<cp:coreProperties xmlns:cp=\"http://schemas.openxmlformats.org/package/2006/metadata/core-properties\" xmlns:dc=\"http://purl.org/dc/elements/1.1/\" xmlns:dcterms=\"http://purl.org/dc/terms/\" xmlns:dcmitype=\"http://purl.org/dc/dcmitype/\" xmlns:xsi=\"http://www.w3.org/2001/XMLSchema-instance\"><dc:creator/><cp:lastModifiedBy/></cp:coreProperties>";

/// Opens the content types, up to the entry of the workbook part.
pub const TYPES_OPEN: &'static str = "<Types xmlns=\"http://schemas.openxmlformats.org/package/2006/content-types\"><Default Extension=\"rels\" ContentType=\"application/vnd.openxmlformats-package.relationships+xml\"/><Default Extension=\"xml\" ContentType=\"application/xml\"/><Override PartName=\"/xl/workbook.xml\" ContentType=\"application/vnd.openxmlformats-officedocument.spreadsheetml.sheet.main+xml\"/>";

/// The entries of the shared strings and of the document properties, and the end of the content types.
pub const TYPES_CLOSE: &'static str = "<Override PartName=\"/xl/sharedStrings.xml\" ContentType=\"application/vnd.openxmlformats-officedocument.spreadsheetml.sharedStrings+xml\"/><Override PartName=\"/docProps/core.xml\" ContentType=\"application/vnd.openxmlformats-package.core-properties+xml\"/><Override PartName=\"/docProps/app.xml\" ContentType=\"application/vnd.openxmlformats-officedocument.extended-properties+xml\"/></Types>";

/// Opens the content type entry of a worksheet part, up to its number.
pub const SHEET_TYPE_OPEN: &'static str = "<Override PartName=\"/xl/worksheets/sheet";

/// Closes the content type entry of a worksheet part.
pub const SHEET_TYPE_CLOSE: &'static str = ".xml\" ContentType=\"application/vnd.openxmlformats-officedocument.spreadsheetml.worksheet+xml\"/>";

/// Opens the content type entry of a drawing part, up to its number.
pub const DRAWING_TYPE_OPEN: &'static str = "<Override PartName=\"/xl/drawings/drawing";

/// Closes the content type entry of a drawing part.
pub const DRAWING_TYPE_CLOSE: &'static str = ".xml\" ContentType=\"application/vnd.openxmlformats-officedocument.drawing+xml\"/>";

/// Opens the content type entry of a chart part, up to its number.
pub const CHART_TYPE_OPEN: &'static str = "<Override PartName=\"/xl/charts/chart";

/// Closes the content type entry of a chart part.
pub const CHART_TYPE_CLOSE: &'static str = ".xml\" ContentType=\"application/vnd.openxmlformats-officedocument.drawingml.chart+xml\"/>";

/// Opens the workbook element and the list of its worksheets.
pub const WORKBOOK_OPEN: &'static str = "<workbook xmlns=\"http://schemas.openxmlformats.org/spreadsheetml/2006/main\" xmlns:r=\"http://schemas.openxmlformats.org/officeDocument/2006/relationships\"><sheets>";

/// Stands in the relationship to a worksheet between its number and the number in the part's name.
pub const SHEET_LINK_MIDDLE: &'static str = "\" Type=\"http://schemas.openxmlformats.org/officeDocument/2006/relationships/worksheet\" Target=\"worksheets/sheet";

/// Stands in the relationship to the shared strings after its number, and ends the part.
pub const STRINGS_LINK_CLOSE: &'static str = "\" Type=\"http://schemas.openxmlformats.org/officeDocument/2006/relationships/sharedStrings\" Target=\"sharedStrings.xml\"/></Relationships>";

/// The relationship from a worksheet to its drawing, up to the number of the drawing.
pub const DRAWING_LINK_OPEN: &'static str = "<Relationship Id=\"rId1\" Type=\"http://schemas.openxmlformats.org/officeDocument/2006/relationships/drawing\" Target=\"../drawings/drawing";

/// Opens the shared strings, up to the number of entries.
pub const STRINGS_OPEN: &'static str = "<sst xmlns=\"http://schemas.openxmlformats.org/spreadsheetml/2006/main\" uniqueCount=\"";

/// Opens one entry of the shared strings.
pub const STRING_OPEN: &'static str = "<si><t xml:space=\"preserve\">";

/// The relationships of the package: to the workbook and to the document
/// properties.
pub open spec fn root_rels_part() -> Seq<u8> {
    rels_head()
        + ROOT_LINKS.spec_bytes()
}

/// The relationships of the package.
pub fn write_root_rels() -> (part: Vec<u8>)
    ensures
        part@ == root_rels_part(),
{
    let mut out = rels_opening();
    append_str(&mut out, ROOT_LINKS);
    out
}

/// The extended document properties.
pub open spec fn app_part() -> Seq<u8> {
    declaration()
        + APP_PROPERTIES.spec_bytes()
}

/// The extended document properties.
pub fn write_app() -> (part: Vec<u8>)
    ensures
        part@ == app_part(),
{
    let mut out = DECLARATION.as_bytes_vec();
    append_str(&mut out, APP_PROPERTIES);
    out
}

/// The core document properties.
pub open spec fn core_part() -> Seq<u8> {
    declaration()
        + CORE_PROPERTIES.spec_bytes()
}

/// The core document properties.
pub fn write_core() -> (part: Vec<u8>)
    ensures
        part@ == core_part(),
{
    let mut out = DECLARATION.as_bytes_vec();
    append_str(&mut out, CORE_PROPERTIES);
    out
}

/// The content types of a worksheet's parts: of the worksheet, and of its
/// drawing where it has one.
pub open spec fn sheet_types(sheet: SheetData) -> Seq<u8> {
    SHEET_TYPE_OPEN.spec_bytes() + decimal(sheet.id)
        + SHEET_TYPE_CLOSE.spec_bytes()
        + (if sheet.anchors.len() > 0 {
        DRAWING_TYPE_OPEN.spec_bytes() + decimal(sheet.id)
            + DRAWING_TYPE_CLOSE.spec_bytes()
    } else {
        Seq::empty()
    })
}

/// The content types of the parts of the first `n` worksheets.
pub open spec fn all_sheet_types(sheets: Seq<SheetData>, n: int) -> Seq<u8>
    decreases n,
{
    if n <= 0 {
        Seq::empty()
    } else {
        all_sheet_types(sheets, n - 1) + sheet_types(sheets[n - 1])
    }
}

/// The content type of a chart part.
pub open spec fn chart_type(chart: ChartData) -> Seq<u8> {
    CHART_TYPE_OPEN.spec_bytes() + decimal(chart.id)
        + CHART_TYPE_CLOSE.spec_bytes()
}

/// The content types of the parts of the first `n` charts.
pub open spec fn all_chart_types(charts: Seq<ChartData>, n: int) -> Seq<u8>
    decreases n,
{
    if n <= 0 {
        Seq::empty()
    } else {
        all_chart_types(charts, n - 1) + chart_type(charts[n - 1])
    }
}

/// What opens the content types part.
pub open spec fn types_head() -> Seq<u8> {
    declaration()
        + TYPES_OPEN.spec_bytes()
}

/// What closes the content types part.
pub open spec fn types_tail() -> Seq<u8> {
    TYPES_CLOSE.spec_bytes()
}

/// The content types part: one entry for each part of the package that is
/// not a relationships part.
pub open spec fn types_part(sheets: Seq<SheetData>, charts: Seq<ChartData>) -> Seq<u8> {
    types_head() + all_sheet_types(sheets, sheets.len() as int) + all_chart_types(
        charts,
        charts.len() as int,
    ) + types_tail()
}

/// The content types of a worksheet's parts.
fn sheet_types_entry(sheet: &Worksheet) -> (piece: Vec<u8>)
    ensures
        piece@ == sheet_types(sheet@),
{
    let mut piece = SHEET_TYPE_OPEN.as_bytes_vec();
    append_decimal(&mut piece, sheet.id() as u64);
    append_str(&mut piece, SHEET_TYPE_CLOSE);
    if sheet.anchor_count() > 0 {
        let mut drawing = DRAWING_TYPE_OPEN.as_bytes_vec();
        append_decimal(&mut drawing, sheet.id() as u64);
        append_str(&mut drawing, DRAWING_TYPE_CLOSE);
        append(&mut piece, drawing.as_slice());
    } else {
        assert(piece@ == piece@ + Seq::<u8>::empty());
    }
    piece
}

/// The content type of a chart part.
fn chart_type_entry(chart: &Chart) -> (piece: Vec<u8>)
    ensures
        piece@ == chart_type(chart@),
{
    let mut piece = CHART_TYPE_OPEN.as_bytes_vec();
    append_decimal(&mut piece, chart.id() as u64);
    append_str(&mut piece, CHART_TYPE_CLOSE);
    piece
}

/// The content types part.
pub fn write_types(sheets: &Vec<Worksheet>, charts: &Vec<Chart>) -> (part: Vec<u8>)
    ensures
        part@ == types_part(sheet_views(sheets@), chart_views(charts@)),
{
    let mut out = DECLARATION.as_bytes_vec();
    append_str(&mut out, TYPES_OPEN);
    let ghost sv = sheet_views(sheets@);
    let ghost cv = chart_views(charts@);
    let mut i: usize = 0;
    assert(out@ == types_head() + all_sheet_types(sv, 0));
    while i < sheets.len()
        invariant
            i <= sheets@.len(),
            sv == sheet_views(sheets@),
            out@ == types_head() + all_sheet_types(sv, i as int),
        decreases sheets@.len() - i,
    {
        let piece = sheet_types_entry(&sheets[i]);
        proof {
            assert(sv[i as int] == sheets@[i as int]@);
            lemma_concat_associative(types_head(), all_sheet_types(sv, i as int), piece@);
        }
        append(&mut out, piece.as_slice());
        i += 1;
    }
    let ghost head = out@;
    let mut j: usize = 0;
    assert(out@ == head + all_chart_types(cv, 0));
    while j < charts.len()
        invariant
            j <= charts@.len(),
            cv == chart_views(charts@),
            out@ == head + all_chart_types(cv, j as int),
        decreases charts@.len() - j,
    {
        let piece = chart_type_entry(&charts[j]);
        proof {
            assert(cv[j as int] == charts@[j as int]@);
            lemma_concat_associative(head, all_chart_types(cv, j as int), piece@);
        }
        append(&mut out, piece.as_slice());
        j += 1;
    }
    append_str(&mut out, TYPES_CLOSE);
    out
}

/// The entry of a worksheet in the workbook part: its name, its
/// identifier, and the relationship that leads to its part.
pub open spec fn sheet_entry(sheet: SheetData) -> Seq<u8> {
    "<sheet name=\"".spec_bytes() + escaped(sheet.name) + "\" sheetId=\"".spec_bytes() + decimal(
        sheet.id,
    ) + "\" r:id=\"rId".spec_bytes() + decimal(sheet.id) + "\"/>".spec_bytes()
}

/// The entries of the first `n` worksheets.
pub open spec fn sheet_entries(sheets: Seq<SheetData>, n: int) -> Seq<u8>
    decreases n,
{
    if n <= 0 {
        Seq::empty()
    } else {
        sheet_entries(sheets, n - 1) + sheet_entry(sheets[n - 1])
    }
}

/// What opens the workbook part.
pub open spec fn workbook_head() -> Seq<u8> {
    declaration()
        + WORKBOOK_OPEN.spec_bytes()
}

/// The workbook part: the worksheets in the order in which they were added.
pub open spec fn workbook_part(sheets: Seq<SheetData>) -> Seq<u8> {
    workbook_head() + sheet_entries(sheets, sheets.len() as int)
        + "</sheets></workbook>".spec_bytes()
}

/// The entry of a worksheet in the workbook part.
fn sheet_entry_element(sheet: &Worksheet) -> (piece: Vec<u8>)
    ensures
        piece@ == sheet_entry(sheet@),
{
    let mut piece = "<sheet name=\"".as_bytes_vec();
    append_escaped(&mut piece, sheet.name().as_slice());
    append_str(&mut piece, "\" sheetId=\"");
    append_decimal(&mut piece, sheet.id() as u64);
    append_str(&mut piece, "\" r:id=\"rId");
    append_decimal(&mut piece, sheet.id() as u64);
    append_str(&mut piece, "\"/>");
    piece
}

/// The workbook part.
pub fn write_workbook(sheets: &Vec<Worksheet>) -> (part: Vec<u8>)
    ensures
        part@ == workbook_part(sheet_views(sheets@)),
{
    let mut out = DECLARATION.as_bytes_vec();
    append_str(&mut out, WORKBOOK_OPEN);
    let ghost sv = sheet_views(sheets@);
    let mut i: usize = 0;
    assert(out@ == workbook_head() + sheet_entries(sv, 0));
    while i < sheets.len()
        invariant
            i <= sheets@.len(),
            sv == sheet_views(sheets@),
            out@ == workbook_head() + sheet_entries(sv, i as int),
        decreases sheets@.len() - i,
    {
        let piece = sheet_entry_element(&sheets[i]);
        proof {
            assert(sv[i as int] == sheets@[i as int]@);
            lemma_concat_associative(workbook_head(), sheet_entries(sv, i as int), piece@);
        }
        append(&mut out, piece.as_slice());
        i += 1;
    }
    append_str(&mut out, "</sheets></workbook>");
    out
}

/// The relationship that leads from the workbook to a worksheet's part.
pub open spec fn sheet_link(sheet: SheetData) -> Seq<u8> {
    "<Relationship Id=\"rId".spec_bytes() + decimal(sheet.id)
        + SHEET_LINK_MIDDLE.spec_bytes()
        + decimal(sheet.id) + ".xml\"/>".spec_bytes()
}

/// The relationships to the first `n` worksheets.
pub open spec fn sheet_links(sheets: Seq<SheetData>, n: int) -> Seq<u8>
    decreases n,
{
    if n <= 0 {
        Seq::empty()
    } else {
        sheet_links(sheets, n - 1) + sheet_link(sheets[n - 1])
    }
}

/// The relationship that leads from the workbook to the shared strings; it
/// is numbered after those to the worksheets.
pub open spec fn strings_link(sheets: nat) -> Seq<u8> {
    "<Relationship Id=\"rId".spec_bytes() + decimal(sheets + 1)
        + STRINGS_LINK_CLOSE.spec_bytes()
}

/// The relationships of the workbook part.
pub open spec fn workbook_rels_part(sheets: Seq<SheetData>) -> Seq<u8> {
    rels_head() + sheet_links(sheets, sheets.len() as int) + strings_link(sheets.len())
}

/// The relationship that leads from the workbook to a worksheet's part.
fn sheet_link_element(sheet: &Worksheet) -> (piece: Vec<u8>)
    ensures
        piece@ == sheet_link(sheet@),
{
    let mut piece = "<Relationship Id=\"rId".as_bytes_vec();
    append_decimal(&mut piece, sheet.id() as u64);
    append_str(&mut piece, SHEET_LINK_MIDDLE);
    append_decimal(&mut piece, sheet.id() as u64);
    append_str(&mut piece, ".xml\"/>");
    piece
}

/// The relationship that leads from the workbook to the shared strings.
fn strings_link_element(sheets: usize) -> (piece: Vec<u8>)
    requires
        sheets < usize::MAX,
    ensures
        piece@ == strings_link(sheets as nat),
{
    let mut piece = "<Relationship Id=\"rId".as_bytes_vec();
    append_decimal(&mut piece, sheets as u64 + 1);
    append_str(&mut piece, STRINGS_LINK_CLOSE);
    piece
}

/// The relationships of the workbook part.
pub fn write_workbook_rels(sheets: &Vec<Worksheet>) -> (part: Vec<u8>)
    requires
        sheets@.len() < usize::MAX,
    ensures
        part@ == workbook_rels_part(sheet_views(sheets@)),
{
    let mut out = rels_opening();
    let ghost sv = sheet_views(sheets@);
    let mut i: usize = 0;
    assert(out@ == rels_head() + sheet_links(sv, 0));
    while i < sheets.len()
        invariant
            i <= sheets@.len(),
            sv == sheet_views(sheets@),
            out@ == rels_head() + sheet_links(sv, i as int),
        decreases sheets@.len() - i,
    {
        let piece = sheet_link_element(&sheets[i]);
        proof {
            assert(sv[i as int] == sheets@[i as int]@);
            lemma_concat_associative(rels_head(), sheet_links(sv, i as int), piece@);
        }
        append(&mut out, piece.as_slice());
        i += 1;
    }
    let last = strings_link_element(sheets.len());
    append(&mut out, last.as_slice());
    out
}

/// The relationship that leads from a worksheet to its drawing.
pub open spec fn sheet_rels_part(id: nat) -> Seq<u8> {
    rels_head()
        + DRAWING_LINK_OPEN.spec_bytes()
        + decimal(id) + ".xml\"/></Relationships>".spec_bytes()
}

/// The relationships of the part of the worksheet of identifier `id`.
pub fn write_sheet_rels(id: usize) -> (part: Vec<u8>)
    ensures
        part@ == sheet_rels_part(id as nat),
{
    let mut out = rels_opening();
    append_str(&mut out, DRAWING_LINK_OPEN);
    append_decimal(&mut out, id as u64);
    append_str(&mut out, ".xml\"/></Relationships>");
    out
}

/// One entry of the shared strings.
pub open spec fn string_item(text: Seq<u8>) -> Seq<u8> {
    STRING_OPEN.spec_bytes() + escaped(text) + "</t></si>".spec_bytes()
}

/// The first `n` entries of the shared strings, in the order of the table.
pub open spec fn string_items(table: Seq<Seq<u8>>, n: int) -> Seq<u8>
    decreases n,
{
    if n <= 0 {
        Seq::empty()
    } else {
        string_items(table, n - 1) + string_item(table[n - 1])
    }
}

/// What opens the shared strings part of a table of `entries` entries.
pub open spec fn strings_head(entries: nat) -> Seq<u8> {
    declaration()
        + STRINGS_OPEN.spec_bytes()
        + decimal(entries) + "\">".spec_bytes()
}

/// The shared strings part: the entries of the string table, each at the
/// place of its index.
pub open spec fn strings_part(table: Seq<Seq<u8>>) -> Seq<u8> {
    strings_head(table.len()) + string_items(table, table.len() as int) + "</sst>".spec_bytes()
}

/// One entry of the shared strings.
fn string_element(text: &[u8]) -> (piece: Vec<u8>)
    ensures
        piece@ == string_item(text@),
{
    let mut piece = STRING_OPEN.as_bytes_vec();
    append_escaped(&mut piece, text);
    append_str(&mut piece, "</t></si>");
    piece
}

/// The shared strings part.
pub fn write_strings(table: &StringTable) -> (part: Vec<u8>)
    ensures
        part@ == strings_part(table@),
{
    let n = table.len();
    let mut out = DECLARATION.as_bytes_vec();
    append_str(&mut out, STRINGS_OPEN);
    append_decimal(&mut out, n as u64);
    append_str(&mut out, "\">");
    let ghost head = strings_head(table@.len());
    let mut i: usize = 0;
    assert(out@ == head + string_items(table@, 0));
    while i < n
        invariant
            i <= n,
            n == table@.len(),
            head == strings_head(table@.len()),
            out@ == head + string_items(table@, i as int),
        decreases n - i,
    {
        match table.get(i) {
            Some(text) => {
                let piece = string_element(text.as_slice());
                proof {
                    lemma_concat_associative(head, string_items(table@, i as int), piece@);
                }
                append(&mut out, piece.as_slice());
            },
            None => {},
        }
        i += 1;
    }
    append_str(&mut out, "</sst>");
    out
}

} // verus!
