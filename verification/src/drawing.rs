//! The drawing part of a worksheet: where its charts are shown, and the
//! relationships that lead from the drawing to the chart parts.

use vstd::prelude::*;
use vstd::string::*;
use vstd::seq_lib::lemma_concat_associative;
use crate::bytes::{append, append_decimal, append_str, decimal};
use crate::worksheet::{Anchor, Worksheet};
use crate::xml::{declaration, DECLARATION};

verus! {

/// Opens the drawing element.
pub const DRAWING_OPEN: &'static str = "<xdr:wsDr xmlns:xdr=\"http://schemas.openxmlformats.org/drawingml/2006/spreadsheetDrawing\" xmlns:a=\"http://schemas.openxmlformats.org/drawingml/2006/main\">";

/// Stands between the column and the row of a corner.
pub const CORNER_MIDDLE: &'static str = "</xdr:col><xdr:colOff>0</xdr:colOff><xdr:row>";

/// Stands after the row of a corner.
pub const CORNER_CLOSE: &'static str = "</xdr:row><xdr:rowOff>0</xdr:rowOff>";

/// Opens a chart's frame, up to its number.
pub const FRAME_OPEN: &'static str = "<xdr:graphicFrame macro=\"\"><xdr:nvGraphicFramePr><xdr:cNvPr id=\"";

/// Stands in a chart's frame between its name and the number of its relationship.
pub const FRAME_MIDDLE: &'static str = "\"/><xdr:cNvGraphicFramePr/></xdr:nvGraphicFramePr><xdr:xfrm><a:off x=\"0\" y=\"0\"/><a:ext cx=\"0\" cy=\"0\"/></xdr:xfrm><a:graphic><a:graphicData uri=\"http://schemas.openxmlformats.org/drawingml/2006/chart\"><c:chart xmlns:c=\"http://schemas.openxmlformats.org/drawingml/2006/chart\" xmlns:r=\"http://schemas.openxmlformats.org/officeDocument/2006/relationships\" r:id=\"rId";

/// Closes a chart's frame.
pub const FRAME_CLOSE: &'static str = "\"/></a:graphicData></a:graphic></xdr:graphicFrame><xdr:clientData/>";

/// Stands in a drawing's relationship between its number and the number of the chart.
pub const CHART_LINK_MIDDLE: &'static str = "\" Type=\"http://schemas.openxmlformats.org/officeDocument/2006/relationships/chart\" Target=\"../charts/chart";

/// Opens the element of a relationships part.
pub const RELATIONSHIPS_OPEN: &'static str = "<Relationships xmlns=\"http://schemas.openxmlformats.org/package/2006/relationships\">";

/// Columns that a chart spans.
pub const CHART_COLS: u64 = 8;

/// Rows that a chart spans.
pub const CHART_ROWS: u64 = 15;

/// One corner of an anchor: a column and a row, counted from zero.
pub open spec fn corner_xml(col: nat, row: nat) -> Seq<u8> {
    "<xdr:col>".spec_bytes() + decimal(col) + CORNER_MIDDLE.spec_bytes()
        + decimal(row) + CORNER_CLOSE.spec_bytes()
}

/// The frame that shows a chart: numbered `number` within its drawing, it
/// refers to the chart through the relationship of that number.
pub open spec fn frame_xml(number: nat) -> Seq<u8> {
    FRAME_OPEN.spec_bytes() + decimal(
        number,
    ) + "\" name=\"Chart ".spec_bytes() + decimal(number)
        + FRAME_MIDDLE.spec_bytes()
        + decimal(number)
        + FRAME_CLOSE.spec_bytes()
}

/// The anchor of index `index`: from the anchor's cell to the cell that
/// lies a chart's width and height further.
pub open spec fn anchor_xml(anchor: Anchor, index: nat) -> Seq<u8> {
    "<xdr:twoCellAnchor><xdr:from>".spec_bytes() + corner_xml(
        anchor.col as nat,
        anchor.row as nat,
    ) + "</xdr:from><xdr:to>".spec_bytes() + corner_xml(
        anchor.col as nat + CHART_COLS as nat,
        anchor.row as nat + CHART_ROWS as nat,
    ) + "</xdr:to>".spec_bytes() + frame_xml(index + 1) + "</xdr:twoCellAnchor>".spec_bytes()
}

/// The first `n` anchors, in the order of insertion.
pub open spec fn anchors_xml(anchors: Seq<Anchor>, n: int) -> Seq<u8>
    decreases n,
{
    if n <= 0 {
        Seq::empty()
    } else {
        anchors_xml(anchors, n - 1) + anchor_xml(anchors[n - 1], (n - 1) as nat)
    }
}

/// What opens the drawing part.
pub open spec fn drawing_head() -> Seq<u8> {
    declaration()
        + DRAWING_OPEN.spec_bytes()
}

/// The drawing part of a worksheet with the given anchors.
pub open spec fn drawing_part(anchors: Seq<Anchor>) -> Seq<u8> {
    drawing_head() + anchors_xml(anchors, anchors.len() as int) + "</xdr:wsDr>".spec_bytes()
}

/// The relationship of index `index` of a drawing: from the frame of that
/// index to the part of the chart that the anchor names.
pub open spec fn chart_link(anchor: Anchor, index: nat) -> Seq<u8> {
    "<Relationship Id=\"rId".spec_bytes() + decimal(index + 1)
        + CHART_LINK_MIDDLE.spec_bytes()
        + decimal(anchor.chart as nat) + ".xml\"/>".spec_bytes()
}

/// The first `n` relationships of a drawing.
pub open spec fn chart_links(anchors: Seq<Anchor>, n: int) -> Seq<u8>
    decreases n,
{
    if n <= 0 {
        Seq::empty()
    } else {
        chart_links(anchors, n - 1) + chart_link(anchors[n - 1], (n - 1) as nat)
    }
}

/// What opens a relationships part.
pub open spec fn rels_head() -> Seq<u8> {
    declaration()
        + RELATIONSHIPS_OPEN.spec_bytes()
}

/// The relationships part of a drawing with the given anchors.
pub open spec fn drawing_rels_part(anchors: Seq<Anchor>) -> Seq<u8> {
    rels_head() + chart_links(anchors, anchors.len() as int) + "</Relationships>".spec_bytes()
}

/// What opens a relationships part.
pub fn rels_opening() -> (piece: Vec<u8>)
    ensures
        piece@ == rels_head(),
{
    let mut piece = DECLARATION.as_bytes_vec();
    append_str(&mut piece, RELATIONSHIPS_OPEN);
    piece
}

/// One corner of an anchor.
fn corner(col: u64, row: u64) -> (piece: Vec<u8>)
    ensures
        piece@ == corner_xml(col as nat, row as nat),
{
    let mut piece = "<xdr:col>".as_bytes_vec();
    append_decimal(&mut piece, col);
    append_str(&mut piece, CORNER_MIDDLE);
    append_decimal(&mut piece, row);
    append_str(&mut piece, CORNER_CLOSE);
    piece
}

/// The frame that shows a chart.
fn frame(number: u64) -> (piece: Vec<u8>)
    ensures
        piece@ == frame_xml(number as nat),
{
    let mut piece = FRAME_OPEN.as_bytes_vec();
    append_decimal(&mut piece, number);
    append_str(&mut piece, "\" name=\"Chart ");
    append_decimal(&mut piece, number);
    append_str(&mut piece, FRAME_MIDDLE);
    append_decimal(&mut piece, number);
    append_str(&mut piece, FRAME_CLOSE);
    piece
}

/// The anchor of index `index`.
fn anchor_element(anchor: Anchor, index: usize) -> (piece: Vec<u8>)
    requires
        index < usize::MAX,
    ensures
        piece@ == anchor_xml(anchor, index as nat),
{
    let from = corner(anchor.col as u64, anchor.row as u64);
    let to = corner(anchor.col as u64 + CHART_COLS, anchor.row as u64 + CHART_ROWS);
    let shown = frame(index as u64 + 1);
    let mut piece = "<xdr:twoCellAnchor><xdr:from>".as_bytes_vec();
    append(&mut piece, from.as_slice());
    append_str(&mut piece, "</xdr:from><xdr:to>");
    append(&mut piece, to.as_slice());
    append_str(&mut piece, "</xdr:to>");
    append(&mut piece, shown.as_slice());
    append_str(&mut piece, "</xdr:twoCellAnchor>");
    piece
}

/// The relationship of index `index` of a drawing.
fn link(anchor: Anchor, index: usize) -> (piece: Vec<u8>)
    requires
        index < usize::MAX,
    ensures
        piece@ == chart_link(anchor, index as nat),
{
    let mut piece = "<Relationship Id=\"rId".as_bytes_vec();
    append_decimal(&mut piece, index as u64 + 1);
    append_str(&mut piece, CHART_LINK_MIDDLE);
    append_decimal(&mut piece, anchor.chart as u64);
    append_str(&mut piece, ".xml\"/>");
    piece
}

/// The drawing part of `sheet`.
pub fn write_drawing(sheet: &Worksheet) -> (part: Vec<u8>)
    ensures
        part@ == drawing_part(sheet@.anchors),
{
    let mut out = DECLARATION.as_bytes_vec();
    append_str(&mut out, DRAWING_OPEN);
    let n = sheet.anchor_count();
    let mut i: usize = 0;
    assert(out@ == drawing_head() + anchors_xml(sheet@.anchors, 0));
    while i < n
        invariant
            i <= n,
            n == sheet@.anchors.len(),
            out@ == drawing_head() + anchors_xml(sheet@.anchors, i as int),
        decreases n - i,
    {
        match sheet.anchor(i) {
            Some(anchor) => {
                let piece = anchor_element(anchor, i);
                proof {
                    lemma_concat_associative(
                        drawing_head(),
                        anchors_xml(sheet@.anchors, i as int),
                        piece@,
                    );
                }
                append(&mut out, piece.as_slice());
            },
            None => {},
        }
        i += 1;
    }
    append_str(&mut out, "</xdr:wsDr>");
    out
}

/// The relationships part of the drawing of `sheet`.
pub fn write_drawing_rels(sheet: &Worksheet) -> (part: Vec<u8>)
    ensures
        part@ == drawing_rels_part(sheet@.anchors),
{
    let mut out = rels_opening();
    let n = sheet.anchor_count();
    let mut i: usize = 0;
    assert(out@ == rels_head() + chart_links(sheet@.anchors, 0));
    while i < n
        invariant
            i <= n,
            n == sheet@.anchors.len(),
            out@ == rels_head() + chart_links(sheet@.anchors, i as int),
        decreases n - i,
    {
        match sheet.anchor(i) {
            Some(anchor) => {
                let piece = link(anchor, i);
                proof {
                    lemma_concat_associative(
                        rels_head(),
                        chart_links(sheet@.anchors, i as int),
                        piece@,
                    );
                }
                append(&mut out, piece.as_slice());
            },
            None => {},
        }
        i += 1;
    }
    append_str(&mut out, "</Relationships>");
    out
}

} // verus!
