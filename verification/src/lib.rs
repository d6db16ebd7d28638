//! Reads the transaction exports of N26, PayPal and DKB, brings their rows
//! into one shape, keeps those in one currency and orders them by month.
//!
//! A caller reads the first line of an export and asks `detect_separator`
//! for the separator; for a DKB export it takes the lines before the table
//! away with `dkb_edit_file`. It parses the table with that separator and
//! asks `match_schema` whether the first columns are those of a known
//! layout: there is no plan for any other table. A table in a known layout
//! goes to `merge_table`, which filters and normalises the rows and merges
//! them into a `RowSet`. `output_tables` then cuts the set into the months
//! that are written out, each under its file name.
pub mod bucket;
pub mod date;
pub mod error;
pub mod keyset;
pub mod memo;
pub mod merge;
pub mod order;
pub mod plan;
pub mod preamble;
pub mod row;
pub mod rowset;
pub mod sniff;
pub mod source;
pub mod table;
pub mod text;
pub mod transform;

pub use bucket::{file_name, months_of, output_tables, Month, MonthTable};
pub use date::Date;
pub use error::CsvError;
pub use memo::{dkb_extract_amount, locate_amount};
pub use merge::{merge_table, merge_upper, Merged};
pub use order::Rank;
pub use plan::{ExtractionPlan, Filter};
pub use preamble::{dkb_edit_file, find_table_start, strip_preamble};
pub use row::CsvOutputRow;
pub use rowset::RowSet;
pub use sniff::detect_separator;
pub use source::{match_schema, Layout, Source, NUM_FIRST_COLUMNS, NUM_SELECT_COLUMNS};
pub use table::{filter_data_frame, Cell, Table};
pub use text::strip_quotes;
pub use transform::{normalize_row, parse_date_cell, table_drops, table_rows};
