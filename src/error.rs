//! The errors that the library reports.

use vstd::prelude::*;

verus! {

/// Why a step of a renaming run failed.
#[derive(Debug)]
pub enum RenameError {
    /// The pattern for file names is not a valid regular expression.
    Regex(regex::Error),
    /// The workbook has no sheet of the requested name.
    SheetNotFound(String),
    /// The requested sheet holds no row.
    EmptyWorkbook,
    /// A cell of the sheet holds an error value (such as `#N/A`), so the
    /// sheet cannot be read by column name; its row and column are counted
    /// from the sheet's first used cell.
    ErrorCell { row: usize, col: usize },
}

} // verus!
