use crate::error::CsvError;
use crate::source::Source;
use crate::text::{chars_of, has_char, has_marker, holds_marker, one_marker};
use vstd::prelude::*;

verus! {

/// The texts that give away, in its first line, an export that starts with
/// lines which are no part of its table; the latest first.
pub open spec fn preamble_markers() -> Seq<Seq<char>> {
    seq!["Girokonto"@]
}

/// The institution that a first line gives away, if it gives one away.
pub open spec fn hint_of(line: Seq<char>) -> Option<Source> {
    if holds_marker(line, preamble_markers()) {
        Some(Source::DKB)
    } else {
        None
    }
}

/// The semicolon, as a byte.
pub const SEMICOLON: u8 = 59;

/// The comma, as a byte.
pub const COMMA: u8 = 44;

/// The tab, as a byte.
pub const TAB: u8 = 9;

/// The character that parts the fields of a line: the semicolon where the
/// line has one, else the comma, else the tab.
pub open spec fn separator_of(line: Seq<char>) -> Option<u8> {
    if line.contains(';') {
        Some(SEMICOLON)
    } else if line.contains(',') {
        Some(COMMA)
    } else if line.contains('\t') {
        Some(TAB)
    } else {
        None
    }
}

/// What the first line of an export tells: the separator of its fields and,
/// where the line gives it away, the institution.
pub open spec fn sniffed(first_line: Option<Seq<char>>) -> Result<(u8, Option<Source>), CsvError> {
    match first_line {
        None => Err(CsvError::EmptyOrUnreadableFile),
        Some(line) => match separator_of(line) {
            None => Err(CsvError::NoSeparatorFound),
            Some(separator) => Ok((separator, hint_of(line))),
        },
    }
}

/// Finds the separator of an export, and the institution where it shows, in
/// the export's first line. `None` stands for an export without a first
/// line.
pub fn detect_separator(first_line: Option<&str>) -> (r: Result<(u8, Option<Source>), CsvError>)
    ensures
        r == sniffed(
            match first_line {
                Some(line) => Some(line@),
                None => None,
            },
        ),
{
    let line = match first_line {
        Some(line) => chars_of(line),
        None => {
            return Err(CsvError::EmptyOrUnreadableFile);
        },
    };
    let markers = one_marker("Girokonto");
    let source = if has_marker(line.as_slice(), &markers) {
        Some(Source::DKB)
    } else {
        None
    };
    if has_char(line.as_slice(), ';') {
        Ok((SEMICOLON, source))
    } else if has_char(line.as_slice(), ',') {
        Ok((COMMA, source))
    } else if has_char(line.as_slice(), '\t') {
        Ok((TAB, source))
    } else {
        Err(CsvError::NoSeparatorFound)
    }
}

} // verus!
