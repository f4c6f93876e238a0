//! A keyboard-driven grid editor core for spreadsheet-like documents.
//!
//! The library owns the interactive state of the editor: cursor, selection
//! and scroll under a bounded viewport, a codec between semantic cell marks
//! and persisted style colors, a clipping-aware rectangular clipboard, and a
//! display formatter for number-format codes. The document itself is held as
//! an `umya_spreadsheet::Workbook` behind a small set of trusted accessors.
use vstd::prelude::*;

pub mod doc;
pub mod format;
pub mod marks;
pub mod selection;
pub mod session;

verus! {

/// Display width of a column that has no explicit width set.
pub const DEFAULT_COLUMN_WIDTH: u16 = 10;

/// Amount by which one widen/shrink command changes a column width.
pub const COLUMN_WIDTH_STEP: u16 = 2;

/// Largest display width a column can be given.
pub const MAX_COLUMN_WIDTH: u16 = 50;

/// Smallest display width a column can be given.
pub const MIN_COLUMN_WIDTH: u16 = 3;

/// Highest addressable column (legacy sheet format ceiling, columns A to IV).
pub const MAX_COLUMNS: u32 = 256;

/// Highest addressable row (legacy sheet format ceiling).
pub const MAX_ROWS: u32 = 65536;

} // verus!
