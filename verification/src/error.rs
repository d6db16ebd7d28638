use vstd::prelude::*;

verus! {

/// Why an export, a table or a row could not be used.
#[derive(Clone, Copy, Debug, PartialEq, Eq, Structural)]
pub enum CsvError {
    /// The first line holds no semicolon, comma or tab.
    NoSeparatorFound,
    /// There is no first line to read.
    EmptyOrUnreadableFile,
    /// The export lacks a column that its layout reads.
    MissingColumn,
    /// The date is neither a day count nor a text in a known layout.
    InvalidDateFormat,
}

} // verus!
