//! The package: every part of the workbook under its name, in the order in
//! which the parts are written.

use vstd::prelude::*;
use vstd::string::*;
use vstd::seq_lib::lemma_concat_associative;
use crate::bytes::{append_decimal, append_str, decimal};
use crate::chart::{chart_views, Chart, ChartData};
use crate::chart_xml::{chart_part, write_chart};
use crate::drawing::{drawing_part, drawing_rels_part, write_drawing, write_drawing_rels};
use crate::error::XlsxError;
use crate::parts::{
    app_part, core_part, root_rels_part, sheet_rels_part, strings_part, types_part,
    workbook_part, workbook_rels_part, write_app, write_core, write_root_rels,
    write_sheet_rels, write_strings, write_types, write_workbook, write_workbook_rels,
};
use crate::sheet_xml::{sheet_part, texts_resolve, write_sheet};
use crate::strings::StringTable;
use crate::worksheet::{sheet_views, SheetData, Worksheet};

verus! {

/// One part of the package: its name in the package, and its bytes.
#[derive(Debug)]
pub struct Part {
    pub name: Vec<u8>,
    pub data: Vec<u8>,
}

/// The model of a part: its name and its bytes as mathematical sequences.
pub struct PartData {
    pub name: Seq<u8>,
    pub data: Seq<u8>,
}

impl View for Part {
    type V = PartData;

    open spec fn view(&self) -> PartData {
        PartData { name: self.name@, data: self.data@ }
    }
}

/// The views of a list of parts.
pub open spec fn part_views(v: Seq<Part>) -> Seq<PartData> {
    v.map_values(|p: Part| p@)
}

/// A part name that holds a number.
pub open spec fn numbered(prefix: Seq<u8>, number: nat, suffix: Seq<u8>) -> Seq<u8> {
    prefix + decimal(number) + suffix
}

/// The parts that every package holds, whatever the workbook holds.
pub open spec fn fixed_parts(
    sheets: Seq<SheetData>,
    charts: Seq<ChartData>,
    strings: Seq<Seq<u8>>,
) -> Seq<PartData> {
    Seq::<PartData>::empty().push(
        PartData { name: "[Content_Types].xml".spec_bytes(), data: types_part(sheets, charts) },
    ).push(PartData { name: "_rels/.rels".spec_bytes(), data: root_rels_part() }).push(
        PartData { name: "docProps/app.xml".spec_bytes(), data: app_part() },
    ).push(PartData { name: "docProps/core.xml".spec_bytes(), data: core_part() }).push(
        PartData { name: "xl/workbook.xml".spec_bytes(), data: workbook_part(sheets) },
    ).push(
        PartData {
            name: "xl/_rels/workbook.xml.rels".spec_bytes(),
            data: workbook_rels_part(sheets),
        },
    ).push(PartData { name: "xl/sharedStrings.xml".spec_bytes(), data: strings_part(strings) })
}

/// The part of a worksheet.
pub open spec fn sheet_entry_part(sheet: SheetData) -> PartData {
    PartData {
        name: numbered("xl/worksheets/sheet".spec_bytes(), sheet.id, ".xml".spec_bytes()),
        data: sheet_part(sheet),
    }
}

/// The relationships part of a worksheet with charts.
pub open spec fn sheet_rels_entry_part(sheet: SheetData) -> PartData {
    PartData {
        name: numbered(
            "xl/worksheets/_rels/sheet".spec_bytes(),
            sheet.id,
            ".xml.rels".spec_bytes(),
        ),
        data: sheet_rels_part(sheet.id),
    }
}

/// The drawing part of a worksheet with charts.
pub open spec fn drawing_entry_part(sheet: SheetData) -> PartData {
    PartData {
        name: numbered("xl/drawings/drawing".spec_bytes(), sheet.id, ".xml".spec_bytes()),
        data: drawing_part(sheet.anchors),
    }
}

/// The relationships part of the drawing of a worksheet with charts.
pub open spec fn drawing_rels_entry_part(sheet: SheetData) -> PartData {
    PartData {
        name: numbered(
            "xl/drawings/_rels/drawing".spec_bytes(),
            sheet.id,
            ".xml.rels".spec_bytes(),
        ),
        data: drawing_rels_part(sheet.anchors),
    }
}

/// The parts of one worksheet: its own and, where charts are anchored in
/// it, its relationships, its drawing and the relationships of the drawing.
pub open spec fn sheet_parts(sheet: SheetData) -> Seq<PartData> {
    if sheet.anchors.len() > 0 {
        seq![
            sheet_entry_part(sheet),
            sheet_rels_entry_part(sheet),
            drawing_entry_part(sheet),
            drawing_rels_entry_part(sheet),
        ]
    } else {
        seq![sheet_entry_part(sheet)]
    }
}

/// The parts of the first `n` worksheets.
pub open spec fn all_sheet_parts(sheets: Seq<SheetData>, n: int) -> Seq<PartData>
    decreases n,
{
    if n <= 0 {
        Seq::empty()
    } else {
        all_sheet_parts(sheets, n - 1) + sheet_parts(sheets[n - 1])
    }
}

/// The part of one chart. Every chart of the workbook has one, whether it
/// is anchored in a worksheet or not.
pub open spec fn chart_entry_part(chart: ChartData) -> PartData {
    PartData {
        name: numbered("xl/charts/chart".spec_bytes(), chart.id, ".xml".spec_bytes()),
        data: chart_part(chart),
    }
}

/// The parts of the first `n` charts.
pub open spec fn all_chart_parts(charts: Seq<ChartData>, n: int) -> Seq<PartData>
    decreases n,
{
    if n <= 0 {
        Seq::empty()
    } else {
        all_chart_parts(charts, n - 1).push(chart_entry_part(charts[n - 1]))
    }
}

/// The package of a workbook.
pub open spec fn package(
    sheets: Seq<SheetData>,
    charts: Seq<ChartData>,
    strings: Seq<Seq<u8>>,
) -> Seq<PartData> {
    fixed_parts(sheets, charts, strings) + all_sheet_parts(sheets, sheets.len() as int)
        + all_chart_parts(charts, charts.len() as int)
}

/// In every worksheet, every text cell names an entry of a string table
/// of `strings` entries.
pub open spec fn all_texts_resolve(sheets: Seq<SheetData>, strings: nat) -> bool {
    forall|i: int| 0 <= i < sheets.len() ==> texts_resolve((#[trigger] sheets[i]).cells, strings)
}

/// A part name that holds a number.
fn numbered_name(prefix: &str, number: usize, suffix: &str) -> (name: Vec<u8>)
    ensures
        name@ == numbered(prefix.spec_bytes(), number as nat, suffix.spec_bytes()),
{
    let mut out: Vec<u8> = Vec::new();
    append_str(&mut out, prefix);
    append_decimal(&mut out, number as u64);
    append_str(&mut out, suffix);
    out
}

/// Adds a part of the given name and data after those of `parts`.
fn push_part(parts: &mut Vec<Part>, name: Vec<u8>, data: Vec<u8>)
    ensures
        part_views(final(parts)@) == part_views(old(parts)@).push(
            PartData { name: name@, data: data@ },
        ),
{
    parts.push(Part { name, data });
}

/// The parts that every package holds.
#[verifier::rlimit(50)]
fn fixed(sheets: &Vec<Worksheet>, charts: &Vec<Chart>, strings: &StringTable) -> (parts: Vec<
    Part,
>)
    requires
        sheets@.len() < usize::MAX,
    ensures
        part_views(parts@) == fixed_parts(sheet_views(sheets@), chart_views(charts@), strings@),
{
    let mut parts: Vec<Part> = Vec::new();
    assert(part_views(parts@) == Seq::<PartData>::empty());
    push_part(&mut parts, "[Content_Types].xml".as_bytes_vec(), write_types(sheets, charts));
    push_part(&mut parts, "_rels/.rels".as_bytes_vec(), write_root_rels());
    push_part(&mut parts, "docProps/app.xml".as_bytes_vec(), write_app());
    push_part(&mut parts, "docProps/core.xml".as_bytes_vec(), write_core());
    push_part(&mut parts, "xl/workbook.xml".as_bytes_vec(), write_workbook(sheets));
    push_part(
        &mut parts,
        "xl/_rels/workbook.xml.rels".as_bytes_vec(),
        write_workbook_rels(sheets),
    );
    push_part(&mut parts, "xl/sharedStrings.xml".as_bytes_vec(), write_strings(strings));
    parts
}

/// Appends the parts of one worksheet; nothing where a text cell of it
/// names no entry of the string table.
#[verifier::rlimit(50)]
fn push_sheet_parts(parts: &mut Vec<Part>, sheet: &Worksheet, strings: usize) -> (r: Result<
    (),
    XlsxError,
>)
    ensures
        r is Ok <==> texts_resolve(sheet@.cells, strings as nat),
        r is Ok ==> part_views(final(parts)@) == part_views(old(parts)@) + sheet_parts(sheet@),
        r is Err ==> r->Err_0 == XlsxError::SchemaViolation && final(parts)@ == old(parts)@,
{
    let data = match write_sheet(sheet, strings) {
        Ok(data) => data,
        Err(e) => { return Err(e); },
    };
    let id = sheet.id();
    let ghost before = part_views(parts@);
    let ghost a = sheet_entry_part(sheet@);
    let ghost b = sheet_rels_entry_part(sheet@);
    let ghost c = drawing_entry_part(sheet@);
    let ghost d = drawing_rels_entry_part(sheet@);
    push_part(parts, numbered_name("xl/worksheets/sheet", id, ".xml"), data);
    if sheet.anchor_count() > 0 {
        push_part(
            parts,
            numbered_name("xl/worksheets/_rels/sheet", id, ".xml.rels"),
            write_sheet_rels(id),
        );
        push_part(parts, numbered_name("xl/drawings/drawing", id, ".xml"), write_drawing(sheet));
        push_part(
            parts,
            numbered_name("xl/drawings/_rels/drawing", id, ".xml.rels"),
            write_drawing_rels(sheet),
        );
        assert(before.push(a).push(b).push(c).push(d) == before + seq![a, b, c, d]);
    } else {
        assert(before.push(a) == before + seq![a]);
    }
    Ok(())
}

/// Writes every part of a workbook: the parts that describe the package,
/// then those of each worksheet, then those of each chart. Where a text
/// cell names no entry of the string table nothing is handed out and the
/// call fails with `SchemaViolation`.
#[verifier::rlimit(50)]
pub fn assemble(sheets: &Vec<Worksheet>, charts: &Vec<Chart>, strings: &StringTable) -> (r:
    Result<Vec<Part>, XlsxError>)
    requires
        sheets@.len() < usize::MAX,
    ensures
        r is Ok <==> all_texts_resolve(sheet_views(sheets@), strings@.len()),
        r is Ok ==> part_views(r->Ok_0@) == package(
            sheet_views(sheets@),
            chart_views(charts@),
            strings@,
        ),
        r is Err ==> r->Err_0 == XlsxError::SchemaViolation,
{
    let ghost sv = sheet_views(sheets@);
    let ghost cv = chart_views(charts@);
    let mut parts = fixed(sheets, charts, strings);
    let ghost first = part_views(parts@);
    let n = strings.len();
    let mut i: usize = 0;
    assert(part_views(parts@) == first + all_sheet_parts(sv, 0));
    while i < sheets.len()
        invariant
            i <= sheets@.len(),
            sv == sheet_views(sheets@),
            n == strings@.len(),
            part_views(parts@) == first + all_sheet_parts(sv, i as int),
            forall|k: int| 0 <= k < i ==> texts_resolve((#[trigger] sv[k]).cells, n as nat),
        decreases sheets@.len() - i,
    {
        let sheet = &sheets[i];
        assert(sv[i as int] == sheet@);
        proof {
            lemma_concat_associative(first, all_sheet_parts(sv, i as int), sheet_parts(sheet@));
        }
        match push_sheet_parts(&mut parts, sheet, n) {
            Ok(()) => {},
            Err(e) => {
                return Err(e);
            },
        }
        i += 1;
    }
    let ghost second = part_views(parts@);
    let mut j: usize = 0;
    assert(part_views(parts@) == second + all_chart_parts(cv, 0));
    while j < charts.len()
        invariant
            j <= charts@.len(),
            cv == chart_views(charts@),
            part_views(parts@) == second + all_chart_parts(cv, j as int),
        decreases charts@.len() - j,
    {
        let chart = &charts[j];
        assert(cv[j as int] == chart@);
        proof {
            let held = all_chart_parts(cv, j as int);
            let added = chart_entry_part(chart@);
            assert((second + held).push(added) == second + held.push(added));
        }
        push_part(&mut parts, numbered_name("xl/charts/chart", chart.id(), ".xml"), write_chart(chart));
        j += 1;
    }
    Ok(parts)
}

} // verus!
