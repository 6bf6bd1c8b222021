use vstd::prelude::*;

verus! {

/// What can go wrong while a workbook is built or written.
#[derive(Clone, Copy, Debug, PartialEq, Eq, Structural)]
pub enum XlsxError {
    /// A row, a column or a handle lies outside what the format or the
    /// workbook holds.
    InvalidReference,
    /// A worksheet of that name exists already, letter case set aside.
    DuplicateName,
    /// The workbook was closed before this call.
    AlreadyClosed,
    /// The package could not be written to its destination.
    IoError,
    /// An internal invariant of the workbook is broken.
    SchemaViolation,
}

} // verus!
