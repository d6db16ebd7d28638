use crate::date::{decimal, push_decimal};
use crate::row::{header_fields, record_fields, CsvOutputRow, RowView};
use crate::rowset::{sorted, views, RowSet};
use crate::text::{to_upper, upper};
use csv::StringRecord;
use vstd::prelude::*;
use vstd::string::StringExecFns;

verus! {

/// The rows of one calendar month: those from `from` up to, not including,
/// `to` in the order of the set.
#[derive(Clone, Copy, Debug, PartialEq, Eq, Structural)]
pub struct Month {
    /// The year.
    pub year: i32,
    /// The month, counted from 1.
    pub month: u32,
    /// The place of the month's first row.
    pub from: usize,
    /// The place after the month's last row.
    pub to: usize,
}

impl Month {
    /// This month lies before `other`.
    pub open spec fn before(self, other: Month) -> bool {
        self.year < other.year || (self.year == other.year && self.month < other.month)
    }

    /// The month holds `row`.
    pub open spec fn holds(self, row: RowView) -> bool {
        row.date.year == self.year && row.date.month == self.month
    }
}

/// `months` cuts `rows` into its calendar months: each month is a run of
/// rows that is not empty, the runs follow each other without a gap from the
/// first row to the last, each row lies in the month of its run, and the
/// months ascend.
pub open spec fn cut_by_month(rows: Seq<RowView>, months: Seq<Month>) -> bool {
    &&& months.len() == 0 <==> rows.len() == 0
    &&& months.len() > 0 ==> months.first().from == 0 && months.last().to == rows.len()
    &&& forall|k: int|
        0 <= k < months.len() ==> (#[trigger] months[k]).from < months[k].to <= rows.len()
    &&& forall|k: int| 0 < k < months.len() ==> (#[trigger] months[k]).from == months[k - 1].to
    &&& forall|k: int, i: int|
        0 <= k < months.len() && months[k].from <= i < months[k].to ==> (#[trigger] months[k]).holds(
            #[trigger] rows[i],
        )
    &&& forall|k: int| 0 < k < months.len() ==> months[k - 1].before(#[trigger] months[k])
}

/// Cuts the rows of a set into calendar months, earliest month first.
pub fn months_of(set: &RowSet) -> (months: Vec<Month>)
    ensures
        cut_by_month(set@, months@),
{
    let rows = set.rows();
    let ghost all = views(rows@);
    let n: usize = rows.len();
    let mut months: Vec<Month> = Vec::new();
    if n == 0 {
        return months;
    }
    let mut open = Month { year: rows[0].date.year, month: rows[0].date.month, from: 0, to: 1 };
    assert(rows[0]@ == all[0]);
    let mut i: usize = 1;
    while i < n
        invariant
            n == rows@.len(),
            all == views(rows@),
            sorted(all),
            1 <= i <= n,
            open.to == i,
            open.from < i,
            months@.len() == 0 ==> open.from == 0,
            months@.len() > 0 ==> months@.first().from == 0 && months@.last().to == open.from
                && months@.last().before(open),
            forall|k: int| 0 <= k < months@.len() ==> (#[trigger] months@[k]).from < months@[k].to <= i,
            forall|k: int| 0 < k < months@.len() ==> (#[trigger] months@[k]).from == months@[k - 1].to,
            forall|k: int, j: int|
                0 <= k < months@.len() && months@[k].from <= j < months@[k].to ==> (
                #[trigger] months@[k]).holds(#[trigger] all[j]),
            forall|k: int| 0 < k < months@.len() ==> months@[k - 1].before(#[trigger] months@[k]),
            forall|j: int| open.from <= j < i ==> open.holds(#[trigger] all[j]),
        decreases n - i,
    {
        let year = rows[i].date.year;
        let month = rows[i].date.month;
        assert(rows[i as int]@ == all[i as int]);
        if year != open.year || month != open.month {
            proof {
                assert(open.holds(all[i - 1]));
                assert(all[i - 1].before(all[i as int]));
            }
            months.push(open);
            open = Month { year, month, from: i, to: i + 1 };
        } else {
            open = Month { year: open.year, month: open.month, from: open.from, to: i + 1 };
        }
        i = i + 1;
    }
    months.push(open);
    months
}

/// Two different months of a cut do not share a year and a month, so each
/// calendar month gets one table.
pub proof fn lemma_months_differ(rows: Seq<RowView>, months: Seq<Month>, a: int, b: int)
    requires
        cut_by_month(rows, months),
        0 <= a < b < months.len(),
    ensures
        months[a].before(months[b]),
    decreases b - a,
{
    if a + 1 < b {
        lemma_months_differ(rows, months, a, b - 1);
    }
}

/// The words that every output file's name starts with.
pub open spec fn file_prefix() -> Seq<char> {
    "bank-csv-transactions-"@
}

/// A year in at least four characters, with zeros in front and, for a year
/// before the year 0, a minus sign that counts as one of the four.
pub open spec fn padded_year(year: int) -> Seq<char> {
    if year >= 0 {
        decimal(year as nat, 4)
    } else {
        seq!['-'] + decimal((-year) as nat, 3)
    }
}

/// The name of the output file for one currency and one month.
pub open spec fn file_name_of(currency: Seq<char>, year: int, month: nat) -> Seq<char> {
    file_prefix() + currency + seq!['-'] + padded_year(year) + seq!['-'] + decimal(month, 2)
        + ".csv"@
}

/// The name of the output file for one currency and one month.
pub fn file_name(currency: &str, year: i32, month: u32) -> (name: String)
    ensures
        name@ == file_name_of(currency@, year as int, month as nat),
{
    let mut name = "bank-csv-transactions-".to_owned();
    name.append(currency);
    name.push('-');
    let ghost start = name@;
    if year >= 0 {
        push_decimal(&mut name, year as u32, 4);
    } else {
        name.push('-');
        push_decimal(&mut name, (-(year as i64)) as u32, 3);
    }
    assert(name@ =~= start + padded_year(year as int));
    name.push('-');
    push_decimal(&mut name, month, 2);
    name.append(".csv");
    assert(name@ =~= file_name_of(currency@, year as int, month as nat));
    name
}

/// One output table: its month, the name of its file, and its records, the
/// header first.
#[derive(Debug)]
pub struct MonthTable {
    /// The month and the place of its rows in the set.
    pub month: Month,
    /// The name of the file that the table is written to.
    pub file_name: String,
    /// The header and, after it, one record for each row of the month.
    pub records: Vec<StringRecord>,
}

/// The fields of each record of a list.
pub open spec fn record_list(records: Seq<StringRecord>) -> Seq<Seq<Seq<char>>> {
    Seq::new(records.len(), |i: int| record_fields(records[i]))
}

/// The months of a list of output tables.
pub open spec fn month_list(tables: Seq<MonthTable>) -> Seq<Month> {
    Seq::new(tables.len(), |k: int| tables[k].month)
}

/// The records of the output table for the rows from `from` up to, not
/// including, `to`: the header, then the rows in their order.
pub open spec fn table_records(rows: Seq<RowView>, from: int, to: int) -> Seq<Seq<Seq<char>>> {
    seq![header_fields()] + Seq::new((to - from) as nat, |i: int| rows[from + i].fields())
}

/// The records of the output table for the rows `rows[from..to]`.
fn records_of(rows: &Vec<CsvOutputRow>, from: usize, to: usize) -> (records: Vec<StringRecord>)
    requires
        from <= to <= rows@.len(),
    ensures
        record_list(records@) == table_records(views(rows@), from as int, to as int),
{
    let ghost want = table_records(views(rows@), from as int, to as int);
    let mut records: Vec<StringRecord> = Vec::new();
    records.push(CsvOutputRow::header());
    let mut i: usize = from;
    assert(record_list(records@) =~= want.take(1));
    while i < to
        invariant
            from <= i <= to <= rows@.len(),
            want == table_records(views(rows@), from as int, to as int),
            record_list(records@) == want.take(1 + i - from),
        decreases to - i,
    {
        let ghost before = record_list(records@);
        let record = rows[i].to_record();
        records.push(record);
        proof {
            assert(views(rows@)[i as int] == rows@[i as int]@);
            assert(want[1 + i - from] == views(rows@)[i as int].fields());
            assert(record_list(records@) =~= before.push(record_fields(record)));
            assert(want.take(2 + i - from) =~= want.take(1 + i - from).push(want[1 + i - from]));
        }
        i = i + 1;
    }
    assert(want.take(1 + to - from) =~= want);
    records
}

/// Makes the output tables of a set for one currency, written in any case:
/// one table for each month of the set, earliest month first, each under
/// its file name and with the header before its rows.
pub fn output_tables(set: &RowSet, currency: &str) -> (tables: Vec<MonthTable>)
    ensures
        cut_by_month(set@, month_list(tables@)),
        forall|k: int|
            0 <= k < tables@.len() ==> (#[trigger] tables@[k]).file_name@ == file_name_of(
                upper(currency@),
                tables@[k].month.year as int,
                tables@[k].month.month as nat,
            ),
        forall|k: int|
            0 <= k < tables@.len() ==> record_list((#[trigger] tables@[k]).records@)
                == table_records(set@, tables@[k].month.from as int, tables@[k].month.to as int),
{
    let code = to_upper(currency);
    let months = months_of(set);
    let rows = set.rows();
    let mut tables: Vec<MonthTable> = Vec::new();
    let mut k: usize = 0;
    while k < months.len()
        invariant
            k <= months@.len(),
            cut_by_month(set@, months@),
            views(rows@) == set@,
            code@ == upper(currency@),
            tables@.len() == k,
            forall|j: int| 0 <= j < k ==> (#[trigger] tables@[j]).month == months@[j],
            forall|j: int|
                0 <= j < k ==> (#[trigger] tables@[j]).file_name@ == file_name_of(
                    upper(currency@),
                    tables@[j].month.year as int,
                    tables@[j].month.month as nat,
                ),
            forall|j: int|
                0 <= j < k ==> record_list((#[trigger] tables@[j]).records@) == table_records(
                    set@,
                    tables@[j].month.from as int,
                    tables@[j].month.to as int,
                ),
        decreases months@.len() - k,
    {
        let month = months[k];
        assert(months@[k as int].from < months@[k as int].to <= set@.len());
        let records = records_of(rows, month.from, month.to);
        let file_name = file_name(code.as_str(), month.year, month.month);
        tables.push(MonthTable { month, file_name, records });
        k = k + 1;
    }
    assert(month_list(tables@) =~= months@);
    tables
}

} // verus!
