use crate::date::{civil_from_days, civil_of_days, parse_by_layout, parsed_date, Date};
use crate::error::CsvError;
use crate::memo::{dkb_extract_amount, extracted_amount};
use crate::row::{CsvOutputRow, RowView};
use crate::rowset::views;
use crate::source::{texts, Source};
use crate::table::{cell_of, cell_views, row_views, Cell, CellView, Table};
use crate::text::{chars_of, has_char, same_text, strip_quotes, stripped_quotes};
use vstd::prelude::*;
use vstd::string::StringExecFns;

verus! {

/// The days from the last day of the year 1 BCE to the first day of 1970.
pub open spec fn epoch_days() -> int {
    719163
}

/// The layout of a date with a year of two digits.
pub open spec fn short_layout() -> Seq<char> {
    "%d.%m.%y"@
}

/// The layout of a date with a year of four digits.
pub open spec fn long_layout() -> Seq<char> {
    "%d.%m.%Y"@
}

/// The layout by which a date text is read: the short one for a text of
/// eight characters, else the long one.
pub open spec fn layout_for(text: Seq<char>) -> Seq<char> {
    if text.len() == 8 {
        short_layout()
    } else {
        long_layout()
    }
}

/// The date of the given year, month and day, or the error where there are
/// none.
pub open spec fn date_of_parts(parts: Option<(i32, u32, u32)>) -> Result<Date, CsvError> {
    match parts {
        Some(p) => Ok(Date { year: p.0, month: p.1, day: p.2 }),
        None => Err(CsvError::InvalidDateFormat),
    }
}

/// The date that a cell stands for: a value that gives a whole number is a
/// count of days since the first day of 1970, and a text is read by the
/// layout that its length chooses. Any other cell, a count that leaves what
/// the calendar holds, and a text that is no date are errors.
pub open spec fn date_of_cell(cell: CellView) -> Result<Date, CsvError> {
    match cell {
        CellView::Native { shown, number: Some(days) } => {
            if days + epoch_days() <= i32::MAX {
                date_of_parts(civil_of_days(days + epoch_days()))
            } else {
                Err(CsvError::InvalidDateFormat)
            }
        },
        CellView::Text(text) => date_of_parts(parsed_date(text, layout_for(text))),
        _ => Err(CsvError::InvalidDateFormat),
    }
}

/// Makes a date of year, month and day, where there are any.
pub fn date_from_parts(parts: Option<(i32, u32, u32)>) -> (r: Result<Date, CsvError>)
    ensures
        r == date_of_parts(parts),
{
    match parts {
        Some(p) => Ok(Date::from_parts(p)),
        None => Err(CsvError::InvalidDateFormat),
    }
}

/// Reads the date of a cell.
pub fn parse_date_cell(cell: &Cell) -> (r: Result<Date, CsvError>)
    ensures
        r == date_of_cell(cell@),
{
    match cell {
        Cell::Native { shown, number: Some(days) } => {
            if *days <= i32::MAX - 719163 {
                date_from_parts(civil_from_days(*days + 719163))
            } else {
                Err(CsvError::InvalidDateFormat)
            }
        },
        Cell::Text(text) => {
            let length = chars_of(text.as_str()).len();
            let layout = if length == 8 {
                "%d.%m.%y"
            } else {
                "%d.%m.%Y"
            };
            match parse_by_layout(text.as_str(), layout) {
                Ok(parts) => date_from_parts(Some(parts)),
                Err(_) => date_from_parts(None),
            }
        },
        _ => Err(CsvError::InvalidDateFormat),
    }
}

/// The type by which N26 marks a card payment.
pub open spec fn presentment() -> Seq<char> {
    "Presentment"@
}

/// Currency and amount of a row after the institution's own rules, or
/// nothing where the row is dropped.
///
/// A DKB export has no currency column: its rows are taken as euro amounts
/// when euros are asked for; else the amount is read from the memo, with
/// the sign of the row's own amount, and a row whose memo gives none is
/// dropped. An N26 card payment gets a minus sign in front of its amount.
pub open spec fn fixed_amount(source: Source, row: Seq<CellView>, target: Seq<char>) -> Option<(Seq<char>, Seq<char>)> {
    let currency = cell_of(row, 1).shown();
    let amount = cell_of(row, 2).shown();
    let kind = stripped_quotes(cell_of(row, 3).shown());
    let memo = cell_of(row, 5).shown();
    if source == Source::DKB {
        if target == "EUR"@ {
            Some(("EUR"@, amount))
        } else {
            match extracted_amount(target, memo) {
                None => None,
                Some(found) => Some(
                    (
                        target,
                        if amount.contains('-') {
                            seq!['-'] + found
                        } else {
                            found
                        },
                    ),
                ),
            }
        }
    } else if source == Source::N26 && kind == presentment() {
        Some((currency, seq!['-'] + amount))
    } else {
        Some((currency, amount))
    }
}

/// What becomes of one row of six cells: an output row, nothing where the
/// row is dropped, or an error where its date cannot be read.
pub open spec fn normalized(source: Source, row: Seq<CellView>, target: Seq<char>) -> Result<Option<RowView>, CsvError> {
    match fixed_amount(source, row, target) {
        None => Ok(None),
        Some((currency, amount)) => match date_of_cell(cell_of(row, 0)) {
            Err(e) => Err(e),
            Ok(date) => Ok(
                Some(
                    RowView::of_fields(
                        date,
                        source.name(),
                        currency,
                        amount,
                        cell_of(row, 3).shown(),
                        cell_of(row, 4).shown(),
                        cell_of(row, 5).shown(),
                    ),
                ),
            ),
        },
    }
}

/// The output rows of a list of rows, in their order; or the error of the
/// first row whose date cannot be read.
pub open spec fn normalized_all(source: Source, rows: Seq<Seq<CellView>>, target: Seq<char>) -> Result<Seq<RowView>, CsvError>
    decreases rows.len(),
{
    if rows.len() == 0 {
        Ok(Seq::empty())
    } else {
        match normalized_all(source, rows.drop_last(), target) {
            Err(e) => Err(e),
            Ok(before) => match normalized(source, rows.last(), target) {
                Err(e) => Err(e),
                Ok(None) => Ok(before),
                Ok(Some(row)) => Ok(before.push(row)),
            },
        }
    }
}

fn shown_at(cells: &Vec<Cell>, at: usize) -> (text: String)
    ensures
        text@ == cell_of(cell_views(cells@), at as int).shown(),
{
    if at < cells.len() {
        cells[at].to_text()
    } else {
        "null".to_owned()
    }
}

fn with_minus(amount: &str) -> (r: String)
    ensures
        r@ == seq!['-'] + amount@,
{
    let mut r = String::new();
    r.push('-');
    r.append(amount);
    assert(r@ =~= seq!['-'] + amount@);
    r
}

/// Makes the output row of one row of six cells: date, currency, amount,
/// type, payee and memo.
pub fn normalize_row(source: Source, cells: &Vec<Cell>, upper_currency: &str) -> (r: Result<Option<CsvOutputRow>, CsvError>)
    ensures
        r matches Ok(Some(row)) ==> normalized(source, cell_views(cells@), upper_currency@) == Ok::<
            Option<RowView>,
            CsvError,
        >(Some(row@)),
        r matches Ok(None) ==> normalized(source, cell_views(cells@), upper_currency@) == Ok::<
            Option<RowView>,
            CsvError,
        >(None),
        r matches Err(e) ==> normalized(source, cell_views(cells@), upper_currency@) == Err::<
            Option<RowView>,
            CsvError,
        >(e),
{
    let mut currency = shown_at(cells, 1);
    let mut amount = shown_at(cells, 2);
    let kind_shown = shown_at(cells, 3);
    let kind = strip_quotes(kind_shown.clone());
    let payee = shown_at(cells, 4);
    let memo = shown_at(cells, 5);
    if source == Source::DKB {
        if same_text(upper_currency, "EUR") {
            currency = "EUR".to_owned();
        } else {
            currency = upper_currency.to_owned();
            match dkb_extract_amount(upper_currency, memo.as_str()) {
                None => {
                    return Ok(None);
                },
                Some(found) => {
                    if has_char(chars_of(amount.as_str()).as_slice(), '-') {
                        amount = with_minus(found.as_str());
                    } else {
                        amount = found;
                    }
                },
            }
        }
    } else if source == Source::N26 && same_text(kind.as_str(), "Presentment") {
        amount = with_minus(amount.as_str());
    }
    let date = if 0 < cells.len() {
        parse_date_cell(&cells[0])
    } else {
        Err(CsvError::InvalidDateFormat)
    };
    match date {
        Err(e) => Err(e),
        Ok(date) => Ok(
            Some(CsvOutputRow::new(date, source.to_text(), currency, amount, kind_shown, payee, memo)),
        ),
    }
}

/// Makes the output rows of a table in six columns, in the order of its
/// rows. A row whose date cannot be read fails the whole table.
pub fn table_rows(source: Source, table: &Table, upper_currency: &str) -> (r: Result<Vec<CsvOutputRow>, CsvError>)
    ensures
        r matches Ok(rows) ==> normalized_all(source, table@.rows, upper_currency@) == Ok::<
            Seq<RowView>,
            CsvError,
        >(views(rows@)),
        r matches Err(e) ==> normalized_all(source, table@.rows, upper_currency@) == Err::<
            Seq<RowView>,
            CsvError,
        >(e),
{
    let ghost all = row_views(table.rows@);
    let ghost target = upper_currency@;
    let mut rows: Vec<CsvOutputRow> = Vec::new();
    let mut i: usize = 0;
    assert(all.take(0) =~= Seq::<Seq<CellView>>::empty());
    assert(views(rows@) =~= Seq::<RowView>::empty());
    while i < table.rows.len()
        invariant
            i <= table.rows@.len(),
            all == row_views(table.rows@),
            target == upper_currency@,
            normalized_all(source, all.take(i as int), target) == Ok::<Seq<RowView>, CsvError>(
                views(rows@),
            ),
        decreases table.rows@.len() - i,
    {
        proof {
            assert(all.take(i + 1).drop_last() =~= all.take(i as int));
            assert(all.take(i + 1).last() == cell_views(table.rows@[i as int]@));
        }
        let ghost before = views(rows@);
        match normalize_row(source, &table.rows[i], upper_currency) {
            Err(e) => {
                proof {
                    lemma_error_stays(source, all, target, i + 1);
                }
                return Err(e);
            },
            Ok(None) => {},
            Ok(Some(row)) => {
                let ghost rv = row@;
                rows.push(row);
                assert(views(rows@) =~= before.push(rv));
            },
        }
        i = i + 1;
    }
    assert(all.take(i as int) =~= all);
    Ok(rows)
}

/// The memos, as they are printed, of the rows that are dropped, in the
/// order of the rows.
pub open spec fn dropped_memos(source: Source, rows: Seq<Seq<CellView>>, target: Seq<char>) -> Seq<Seq<char>>
    decreases rows.len(),
{
    if rows.len() == 0 {
        Seq::empty()
    } else {
        let before = dropped_memos(source, rows.drop_last(), target);
        if fixed_amount(source, rows.last(), target) is None {
            before.push(cell_of(rows.last(), 5).shown())
        } else {
            before
        }
    }
}

/// Lists the memos of the rows of a table in six columns that are dropped
/// because their memo gives no amount in the currency asked for.
pub fn table_drops(source: Source, table: &Table, upper_currency: &str) -> (memos: Vec<String>)
    ensures
        texts(memos@) == dropped_memos(source, table@.rows, upper_currency@),
{
    let ghost all = row_views(table.rows@);
    let mut memos: Vec<String> = Vec::new();
    if source != Source::DKB || same_text(upper_currency, "EUR") {
        proof {
            lemma_no_drops(source, all, upper_currency@);
        }
        assert(texts(memos@) =~= Seq::<Seq<char>>::empty());
        return memos;
    }
    let mut i: usize = 0;
    assert(all.take(0) =~= Seq::<Seq<CellView>>::empty());
    assert(texts(memos@) =~= Seq::<Seq<char>>::empty());
    while i < table.rows.len()
        invariant
            i <= table.rows@.len(),
            all == row_views(table.rows@),
            source == Source::DKB,
            upper_currency@ != "EUR"@,
            texts(memos@) == dropped_memos(source, all.take(i as int), upper_currency@),
        decreases table.rows@.len() - i,
    {
        proof {
            assert(all.take(i + 1).drop_last() =~= all.take(i as int));
            assert(all.take(i + 1).last() == cell_views(table.rows@[i as int]@));
        }
        let memo = shown_at(&table.rows[i], 5);
        if dkb_extract_amount(upper_currency, memo.as_str()).is_none() {
            let ghost before = texts(memos@);
            let ghost text = memo@;
            memos.push(memo);
            assert(texts(memos@) =~= before.push(text));
        }
        i = i + 1;
    }
    assert(all.take(i as int) =~= all);
    memos
}

/// No row is dropped but a DKB row for which another currency than the
/// euro is asked.
proof fn lemma_no_drops(source: Source, rows: Seq<Seq<CellView>>, target: Seq<char>)
    requires
        source != Source::DKB || target == "EUR"@,
    ensures
        dropped_memos(source, rows, target) == Seq::<Seq<char>>::empty(),
    decreases rows.len(),
{
    if rows.len() > 0 {
        lemma_no_drops(source, rows.drop_last(), target);
    }
}

/// Once the first `n` rows give an error, the whole list gives that error.
proof fn lemma_error_stays(source: Source, rows: Seq<Seq<CellView>>, target: Seq<char>, n: int)
    requires
        0 <= n <= rows.len(),
        normalized_all(source, rows.take(n), target) is Err,
    ensures
        normalized_all(source, rows, target) == normalized_all(source, rows.take(n), target),
    decreases rows.len() - n,
{
    if n == rows.len() {
        assert(rows.take(n) =~= rows);
    } else {
        assert(rows.take(n + 1).drop_last() =~= rows.take(n));
        lemma_error_stays(source, rows, target, n + 1);
    }
}

} // verus!
