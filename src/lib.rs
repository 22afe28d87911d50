//! Batch renaming of files from the values of a spreadsheet column.
//!
//! The library holds the logic: expanding an output pattern with a value,
//! selecting and ordering file names, and reading one column of a sheet.
//! Reading directories, opening workbooks and renaming files is left to the
//! caller.

pub mod expand;
pub mod error;
pub mod sheet;
pub mod names;
pub mod plan;
