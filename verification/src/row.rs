use crate::date::Date;
use crate::order::{rank_texts, text_before, text_rank, Rank};
use crate::order::{lemma_text_before_asymmetric, lemma_text_before_total, lemma_text_before_transitive};
use crate::text::{chars_of, dots_to_commas, has_char, same_text, strip_quotes, stripped_quotes, with_commas};
use csv::StringRecord;
use vstd::prelude::*;
use vstd::std_specs::cmp::PartialEqSpecImpl;
use vstd::string::StringExecFns;

verus! {

/// One record of a CSV table, as the `csv` crate holds it.
#[verifier::external_type_specification]
#[verifier::external_body]
pub struct ExStringRecord(StringRecord);

/// The fields that a record holds, in order.
pub uninterp spec fn record_fields(record: StringRecord) -> Seq<Seq<char>>;

/// `StringRecord::new`: the new record has no field.
pub assume_specification[ StringRecord::new ]() -> (record: StringRecord)
    ensures
        record_fields(record) == Seq::<Seq<char>>::empty(),
;

/// `StringRecord::push_field`: the text becomes the record's last field, and
/// the fields before it stay.
pub assume_specification[ StringRecord::push_field ](record: &mut StringRecord, field: &str)
    ensures
        record_fields(*final(record)) == record_fields(*old(record)).push(field@),
;

/// One transaction in the common shape. Two rows are equal when they have
/// the same key: date, currency, amount, type and payee.
#[derive(Clone, Debug)]
pub struct CsvOutputRow {
    /// The day of the transaction.
    pub date: Date,
    /// The institution that reported it.
    pub source: String,
    /// The currency of the amount, as a code of three letters.
    pub currency: String,
    /// The amount, with a comma before the decimals.
    pub amount: String,
    /// The kind of transaction, as the institution names it.
    pub transaction_type: String,
    /// The other party.
    pub payee: String,
    /// The free text that came with the transaction.
    pub memo: String,
}

/// What a `CsvOutputRow` holds.
pub ghost struct RowView {
    pub date: Date,
    pub source: Seq<char>,
    pub currency: Seq<char>,
    pub amount: Seq<char>,
    pub transaction_type: Seq<char>,
    pub payee: Seq<char>,
    pub memo: Seq<char>,
}

impl View for CsvOutputRow {
    type V = RowView;

    open spec fn view(&self) -> RowView {
        RowView {
            date: self.date,
            source: self.source@,
            currency: self.currency@,
            amount: self.amount@,
            transaction_type: self.transaction_type@,
            payee: self.payee@,
            memo: self.memo@,
        }
    }
}

/// The currency of a row: the field without its quotes, or the euro where
/// that is empty or the word `null`.
pub open spec fn currency_or_euro(raw: Seq<char>) -> Seq<char> {
    let code = stripped_quotes(raw);
    if code.len() == 0 || code == "null"@ {
        "EUR"@
    } else {
        code
    }
}

/// The amount of a row: the field without its quotes, with a comma for each
/// full stop.
pub open spec fn amount_with_comma(raw: Seq<char>) -> Seq<char> {
    with_commas(stripped_quotes(raw))
}

/// The words that say which way the money went.
pub open spec fn direction(amount: Seq<char>) -> Seq<char> {
    if amount.contains('-') {
        "paid to"@
    } else {
        "from"@
    }
}

impl RowView {
    /// The row that `CsvOutputRow::new` makes of the raw fields.
    pub open spec fn of_fields(
        date: Date,
        source: Seq<char>,
        currency: Seq<char>,
        amount: Seq<char>,
        transaction_type: Seq<char>,
        payee: Seq<char>,
        memo: Seq<char>,
    ) -> RowView {
        RowView {
            date,
            source,
            currency: currency_or_euro(currency),
            amount: amount_with_comma(amount),
            transaction_type: stripped_quotes(transaction_type),
            payee: stripped_quotes(payee),
            memo: stripped_quotes(memo),
        }
    }

    /// The two rows have the same key: date, currency, amount, type and
    /// payee. Source and memo are no part of it.
    pub open spec fn same_key(self, other: RowView) -> bool {
        &&& self.date == other.date
        &&& self.currency == other.currency
        &&& self.amount == other.amount
        &&& self.transaction_type == other.transaction_type
        &&& self.payee == other.payee
    }

    /// `self` comes before `other`: the first part of the key in which they
    /// differ is smaller in `self`. Amounts are compared as texts.
    pub open spec fn before(self, other: RowView) -> bool {
        if self.date != other.date {
            self.date.before(other.date)
        } else if self.currency != other.currency {
            text_before(self.currency, other.currency)
        } else if self.amount != other.amount {
            text_before(self.amount, other.amount)
        } else if self.transaction_type != other.transaction_type {
            text_before(self.transaction_type, other.transaction_type)
        } else {
            text_before(self.payee, other.payee)
        }
    }

    /// How `self` stands to `other` in the order of rows.
    pub open spec fn rank(self, other: RowView) -> Rank {
        if self.same_key(other) {
            Rank::Equal
        } else if self.before(other) {
            Rank::Less
        } else {
            Rank::Greater
        }
    }

    /// The fields of the output record for this row.
    pub open spec fn fields(self) -> Seq<Seq<char>> {
        seq![
            self.date.iso(),
            self.source,
            self.currency,
            self.amount,
            self.transaction_type,
            self.payee,
            self.memo,
        ]
    }

    /// The line that reports this row to a reader.
    pub open spec fn line(self) -> Seq<char> {
        self.date.iso() + " ["@ + self.source + "] "@ + self.currency + " "@ + self.amount + " "@
            + direction(self.amount) + " "@ + self.payee + " ("@ + self.transaction_type + ")"@
    }
}

fn rank_strings(a: &String, b: &String) -> (r: Rank)
    ensures
        r == text_rank(a@, b@),
{
    let x = chars_of(a.as_str());
    let y = chars_of(b.as_str());
    rank_texts(x.as_slice(), y.as_slice())
}

/// No row comes before a row with the same key, and of two rows at most one
/// comes before the other.
pub proof fn lemma_before_asymmetric(a: RowView, b: RowView)
    ensures
        !(a.before(b) && b.before(a)),
        a.before(b) ==> !a.same_key(b),
{
    lemma_text_before_asymmetric(a.currency, b.currency);
    lemma_text_before_asymmetric(a.amount, b.amount);
    lemma_text_before_asymmetric(a.transaction_type, b.transaction_type);
    lemma_text_before_asymmetric(a.payee, b.payee);
}

/// The order of rows is transitive.
pub proof fn lemma_before_transitive(a: RowView, b: RowView, c: RowView)
    requires
        a.before(b),
        b.before(c),
    ensures
        a.before(c),
{
    lemma_text_before_asymmetric(a.currency, b.currency);
    lemma_text_before_asymmetric(b.currency, c.currency);
    lemma_text_before_asymmetric(a.amount, b.amount);
    lemma_text_before_asymmetric(b.amount, c.amount);
    lemma_text_before_asymmetric(a.transaction_type, b.transaction_type);
    lemma_text_before_asymmetric(b.transaction_type, c.transaction_type);
    lemma_text_before_asymmetric(a.payee, b.payee);
    lemma_text_before_asymmetric(b.payee, c.payee);
    if a.date != b.date || b.date != c.date {
    } else if a.currency != b.currency || b.currency != c.currency {
        if a.currency != b.currency && b.currency != c.currency {
            lemma_text_before_transitive(a.currency, b.currency, c.currency);
            lemma_text_before_asymmetric(a.currency, c.currency);
        }
    } else if a.amount != b.amount || b.amount != c.amount {
        if a.amount != b.amount && b.amount != c.amount {
            lemma_text_before_transitive(a.amount, b.amount, c.amount);
            lemma_text_before_asymmetric(a.amount, c.amount);
        }
    } else if a.transaction_type != b.transaction_type || b.transaction_type
        != c.transaction_type {
        if a.transaction_type != b.transaction_type && b.transaction_type != c.transaction_type {
            lemma_text_before_transitive(a.transaction_type, b.transaction_type, c.transaction_type);
            lemma_text_before_asymmetric(a.transaction_type, c.transaction_type);
        }
    } else {
        lemma_text_before_transitive(a.payee, b.payee, c.payee);
    }
}

/// Of two rows with different keys one comes before the other.
pub proof fn lemma_before_total(a: RowView, b: RowView)
    ensures
        a.same_key(b) || a.before(b) || b.before(a),
{
    lemma_text_before_total(a.currency, b.currency);
    lemma_text_before_total(a.amount, b.amount);
    lemma_text_before_total(a.transaction_type, b.transaction_type);
    lemma_text_before_total(a.payee, b.payee);
}

/// A row with an earlier date comes first, whatever its other fields hold.
pub proof fn lemma_earlier_date_first(a: RowView, b: RowView)
    requires
        a.date.before(b.date),
    ensures
        a.before(b),
        !b.before(a),
{
}

/// The names of the seven output columns.
pub open spec fn header_fields() -> Seq<Seq<char>> {
    seq!["Date"@, "Source"@, "Currency"@, "Amount"@, "Type"@, "Payee"@, "Memo"@]
}

impl PartialEq for CsvOutputRow {
    fn eq(&self, other: &CsvOutputRow) -> (b: bool) {
        self.same_transaction(other)
    }
}

impl PartialEqSpecImpl for CsvOutputRow {
    open spec fn obeys_eq_spec() -> bool {
        true
    }

    open spec fn eq_spec(&self, other: &CsvOutputRow) -> bool {
        self@.same_key(other@)
    }
}

impl Eq for CsvOutputRow {

}

impl CsvOutputRow {
    /// Whether the two rows stand for the same transaction: they have the
    /// same key, whatever their sources and memos say.
    pub fn same_transaction(&self, other: &CsvOutputRow) -> (b: bool)
        ensures
            b == self@.same_key(other@),
    {
        self.date == other.date && self.currency == other.currency && self.amount == other.amount
            && self.transaction_type == other.transaction_type && self.payee == other.payee
    }

    /// Makes a row of the raw fields: quotes are taken from around each
    /// text, an empty currency becomes the euro, and the amount gets a comma
    /// before its decimals.
    pub fn new(
        date: Date,
        source: String,
        currency: String,
        amount: String,
        transaction_type: String,
        payee: String,
        memo: String,
    ) -> (row: CsvOutputRow)
        ensures
            row@ == RowView::of_fields(
                date,
                source@,
                currency@,
                amount@,
                transaction_type@,
                payee@,
                memo@,
            ),
    {
        let code = strip_quotes(currency);
        let currency = if code.as_str().is_empty() || same_text(code.as_str(), "null") {
            "EUR".to_owned()
        } else {
            code
        };
        let plain = strip_quotes(amount);
        CsvOutputRow {
            date,
            source,
            currency,
            amount: dots_to_commas(plain.as_str()),
            transaction_type: strip_quotes(transaction_type),
            payee: strip_quotes(payee),
            memo: strip_quotes(memo),
        }
    }

    /// How this row stands to `other` in the order of rows: by date, then
    /// currency, amount, type and payee, each text in the order of a
    /// dictionary.
    pub fn compare(&self, other: &CsvOutputRow) -> (r: Rank)
        ensures
            r == self@.rank(other@),
    {
        if self.date != other.date {
            return if self.date.is_before(&other.date) {
                Rank::Less
            } else {
                Rank::Greater
            };
        }
        let by_currency = rank_strings(&self.currency, &other.currency);
        if by_currency != Rank::Equal {
            return by_currency;
        }
        let by_amount = rank_strings(&self.amount, &other.amount);
        if by_amount != Rank::Equal {
            return by_amount;
        }
        let by_type = rank_strings(&self.transaction_type, &other.transaction_type);
        if by_type != Rank::Equal {
            return by_type;
        }
        rank_strings(&self.payee, &other.payee)
    }

    /// The record that heads each output table.
    pub fn header() -> (record: StringRecord)
        ensures
            record_fields(record) == header_fields(),
    {
        let mut record = StringRecord::new();
        record.push_field("Date");
        record.push_field("Source");
        record.push_field("Currency");
        record.push_field("Amount");
        record.push_field("Type");
        record.push_field("Payee");
        record.push_field("Memo");
        assert(record_fields(record) =~= header_fields());
        record
    }

    /// The output record for this row, with the date in ISO form.
    pub fn to_record(&self) -> (record: StringRecord)
        ensures
            record_fields(record) == self@.fields(),
    {
        let mut record = StringRecord::new();
        let day = self.date.iso_text();
        record.push_field(day.as_str());
        record.push_field(self.source.as_str());
        record.push_field(self.currency.as_str());
        record.push_field(self.amount.as_str());
        record.push_field(self.transaction_type.as_str());
        record.push_field(self.payee.as_str());
        record.push_field(self.memo.as_str());
        assert(record_fields(record) =~= self@.fields());
        record
    }

    /// The line that reports this row to a reader.
    pub fn to_text(&self) -> (line: String)
        ensures
            line@ == self@.line(),
    {
        let mut line = self.date.iso_text();
        line.append(" [");
        line.append(self.source.as_str());
        line.append("] ");
        line.append(self.currency.as_str());
        line.append(" ");
        line.append(self.amount.as_str());
        line.append(" ");
        if has_char(chars_of(self.amount.as_str()).as_slice(), '-') {
            line.append("paid to");
        } else {
            line.append("from");
        }
        line.append(" ");
        line.append(self.payee.as_str());
        line.append(" (");
        line.append(self.transaction_type.as_str());
        line.append(")");
        line
    }
}

} // verus!
