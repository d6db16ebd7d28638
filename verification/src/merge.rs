use crate::error::CsvError;
use crate::row::{amount_with_comma, RowView};
use crate::rowset::{lemma_merge_all_again, merged_all, sorted, RowSet};
use crate::source::{texts, Source};
use crate::table::{cell_of, filter_data_frame, filtered, known_format, CellView, Table, TableView};
use crate::text::{all_ascii, capitals, lemma_capitals, stripped_quotes, to_upper, upper};
use crate::transform::{dropped_memos, fixed_amount, normalized, normalized_all, presentment, table_drops, table_rows};
use vstd::prelude::*;

verus! {

/// What merging a table in a known layout into a list of rows gives, for
/// the currency `target`: the institution and the list with the table's
/// rows merged in, or the reason why the table cannot be read.
pub open spec fn merged_table(rows: Seq<RowView>, table: TableView, target: Seq<char>) -> Result<(Source, Seq<RowView>), CsvError>
    recommends
        known_format(table),
{
    match filtered(table, target) {
        Err(e) => Err(e),
        Ok((source, kept)) => match normalized_all(source, kept.rows, target) {
            Err(e) => Err(e),
            Ok(more) => Ok((source, merged_all(rows, more))),
        },
    }
}

/// What a merge reports: the institution of the table, and the memos of
/// the rows that were dropped because they give no amount in the currency
/// asked for.
#[derive(Debug)]
pub struct Merged {
    /// The institution.
    pub source: Source,
    /// The memos of the dropped rows, as they are printed, in the order of
    /// the rows.
    pub dropped: Vec<String>,
}

/// The memos of the rows of a table in a known layout that a merge drops.
pub open spec fn dropped_of(table: TableView, target: Seq<char>) -> Seq<Seq<char>>
    recommends
        known_format(table),
{
    match filtered(table, target) {
        Err(e) => Seq::empty(),
        Ok((source, kept)) => dropped_memos(source, kept.rows, target),
    }
}

/// Merges the rows of a table that are in the currency `upper_currency`
/// into the set, and reports the institution and the dropped rows. A table
/// that cannot be read leaves the set as it is.
pub fn merge_upper(set: &mut RowSet, table: &Table, upper_currency: &str) -> (r: Result<Merged, CsvError>)
    requires
        known_format(table@),
    ensures
        match merged_table(old(set)@, table@, upper_currency@) {
            Ok((source, rows)) => r matches Ok(report) && report.source == source && texts(
                report.dropped@,
            ) == dropped_of(table@, upper_currency@) && final(set)@ == rows,
            Err(e) => r matches Err(error) && error == e && final(set)@ == old(set)@,
        },
{
    let (source, kept) = match filter_data_frame(table, upper_currency.to_owned()) {
        Ok(pair) => pair,
        Err(e) => {
            return Err(e);
        },
    };
    let rows = match table_rows(source, &kept, upper_currency) {
        Ok(rows) => rows,
        Err(e) => {
            return Err(e);
        },
    };
    let dropped = table_drops(source, &kept, upper_currency);
    set.extend(rows);
    Ok(Merged { source, dropped })
}

/// Merges the rows of a table that are in the currency `currency`, written
/// in any case, into the set, and reports the institution and the dropped
/// rows. A table that cannot be read leaves the set as it is.
pub fn merge_table(set: &mut RowSet, table: &Table, currency: &str) -> (r: Result<Merged, CsvError>)
    requires
        known_format(table@),
    ensures
        match merged_table(old(set)@, table@, upper(currency@)) {
            Ok((source, rows)) => r matches Ok(report) && report.source == source && texts(
                report.dropped@,
            ) == dropped_of(table@, upper(currency@)) && final(set)@ == rows,
            Err(e) => r matches Err(error) && error == e && final(set)@ == old(set)@,
        },
{
    let code = to_upper(currency);
    merge_upper(set, table, code.as_str())
}

/// Reading the same export a second time adds nothing to what the first
/// reading gave.
pub proof fn lemma_table_again(rows: Seq<RowView>, table: TableView, target: Seq<char>)
    requires
        sorted(rows),
        merged_table(rows, table, target) is Ok,
    ensures
        merged_table(merged_table(rows, table, target)->Ok_0.1, table, target) == merged_table(
            rows,
            table,
            target,
        ),
{
    let kept = filtered(table, target)->Ok_0.1;
    let source = filtered(table, target)->Ok_0.0;
    let more = normalized_all(source, kept.rows, target)->Ok_0;
    lemma_merge_all_again(rows, more);
}

/// A currency asked for in small letters is the currency asked for in
/// capitals: a request in the letters of the first 128 characters and the
/// same request with its small letters made capitals give the same result.
pub proof fn lemma_case_of_currency(rows: Seq<RowView>, table: TableView, request: Seq<char>)
    requires
        all_ascii(request),
    ensures
        upper(request) == capitals(request),
        upper(capitals(request)) == capitals(request),
        merged_table(rows, table, upper(request)) == merged_table(
            rows,
            table,
            upper(capitals(request)),
        ),
{
    lemma_capitals(request);
}

/// The amount of an N26 card payment starts with a minus sign, whatever
/// the export's own amount holds.
pub proof fn lemma_card_payment_negative(row: Seq<CellView>, target: Seq<char>)
    requires
        stripped_quotes(cell_of(row, 3).shown()) == presentment(),
        normalized(Source::N26, row, target) is Ok,
    ensures
        normalized(Source::N26, row, target)->Ok_0 matches Some(out) && out.amount.len() > 0
            && out.amount[0] == '-' && out.amount == amount_with_comma(
            seq!['-'] + cell_of(row, 2).shown(),
        ),
{
    let raw = seq!['-'] + cell_of(row, 2).shown();
    assert(raw[0] == '-');
    assert(fixed_amount(Source::N26, row, target) == Some((cell_of(row, 1).shown(), raw)));
    let plain = stripped_quotes(raw);
    assert(plain.len() > 0 && plain[0] == '-') by {
        if raw.len() > 0 && raw.last() == '"' {
            assert(raw.len() >= 2);
            assert(raw.drop_last()[0] == raw[0]);
        }
    }
}

/// The amount of an output row holds no full stop.
pub proof fn lemma_amount_without_full_stop(raw: Seq<char>)
    ensures
        !amount_with_comma(raw).contains('.'),
{
    let out = amount_with_comma(raw);
    assert forall|i: int| 0 <= i < out.len() implies out[i] != '.' by {}
}

} // verus!
