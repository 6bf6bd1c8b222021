//! In-memory model of a spreadsheet workbook and its serialization into the
//! parts of an Office Open XML package.
//!
//! A [`Workbook`] owns worksheets, charts and the string tables. Cells and
//! series are written through it; closing it hands out every part of the
//! package, which [`zip::write_archive`] packs into one container.

pub mod bytes;
pub mod chart;
pub mod chart_xml;
pub mod drawing;
pub mod error;
pub mod number;
pub mod package;
pub mod parse;
pub mod parts;
pub mod reference;
pub mod roundtrip;
pub mod sheet_xml;
pub mod strings;
pub mod workbook;
pub mod worksheet;
pub mod xml;
pub mod zip;

pub use crate::chart::{Chart, ChartKind, ChartSeries};
pub use crate::error::XlsxError;
pub use crate::number::Number;
pub use crate::workbook::{ChartHandle, SeriesHandle, Workbook, WorksheetHandle};
pub use crate::worksheet::{CellValue, Worksheet};
