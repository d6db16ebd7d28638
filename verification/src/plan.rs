use crate::source::{texts, Layout, Source};
use crate::text::same_text;
use vstd::prelude::*;

verus! {

/// A test on one column that a row must pass to be kept.
#[derive(Debug)]
pub struct Filter {
    /// The column that is tested.
    pub column: String,
    /// Whether the column must hold `value`, or must not.
    pub equal: bool,
    /// The text that the column is held against.
    pub value: String,
}

/// What a `Filter` holds.
pub ghost struct FilterView {
    pub column: Seq<char>,
    pub equal: bool,
    pub value: Seq<char>,
}

impl View for Filter {
    type V = FilterView;

    open spec fn view(&self) -> FilterView {
        FilterView { column: self.column@, equal: self.equal, value: self.value@ }
    }
}

/// How the rows of one layout are read.
#[derive(Debug)]
pub struct ExtractionPlan {
    /// The institution.
    pub source: Source,
    /// The six columns that are taken: date, currency, amount, type, payee
    /// and memo.
    pub columns: Vec<String>,
    /// The column whose currency a row is chosen by; none where the export
    /// has no such column.
    pub currency_column: Option<String>,
    /// Whether a row without a currency is chosen too.
    pub accept_empty: bool,
    /// The further tests that a row must pass.
    pub filters: Vec<Filter>,
}

/// What an `ExtractionPlan` holds.
pub ghost struct PlanView {
    pub source: Source,
    pub columns: Seq<Seq<char>>,
    pub currency_column: Option<Seq<char>>,
    pub accept_empty: bool,
    pub filters: Seq<FilterView>,
}

/// The views of a list of filters.
pub open spec fn filter_views(list: Seq<Filter>) -> Seq<FilterView> {
    Seq::new(list.len(), |i: int| list[i]@)
}

impl View for ExtractionPlan {
    type V = PlanView;

    open spec fn view(&self) -> PlanView {
        PlanView {
            source: self.source,
            columns: texts(self.columns@),
            currency_column: match self.currency_column {
                Some(name) => Some(name@),
                None => None,
            },
            accept_empty: self.accept_empty,
            filters: filter_views(self.filters@),
        }
    }
}

/// The type by which PayPal marks the two halves of a conversion, which are
/// no transactions.
pub open spec fn conversion_marker() -> Seq<char> {
    "General Currency Conversion"@
}

/// The plan for an export in `layout`, when rows in the currency `target`
/// are asked for.
pub open spec fn plan_of(layout: Layout, target: Seq<char>) -> PlanView {
    match layout {
        Layout::PayPal => PlanView {
            source: Source::PayPal,
            columns: seq!["Date"@, "Currency"@, "Gross"@, "Type"@, "Name"@, "Transaction ID"@],
            currency_column: Some("Currency"@),
            accept_empty: false,
            filters: seq![
                FilterView { column: "Balance Impact"@, equal: true, value: "Debit"@ },
                FilterView { column: "Type"@, equal: false, value: conversion_marker() },
            ],
        },
        Layout::PayPalOld => PlanView {
            source: Source::PayPal,
            columns: seq![
                "Date"@,
                "Currency"@,
                "Gross"@,
                "Description"@,
                "Name"@,
                "Transaction ID"@,
            ],
            currency_column: Some("Currency"@),
            accept_empty: false,
            filters: seq![
                FilterView { column: "Description"@, equal: false, value: conversion_marker() },
            ],
        },
        Layout::N26Old => PlanView {
            source: Source::N26,
            columns: seq![
                "Date"@,
                "Type Foreign Currency"@,
                if target == "EUR"@ {
                    "Amount (EUR)"@
                } else {
                    "Amount (Foreign Currency)"@
                },
                "Transaction type"@,
                "Payee"@,
                "Payment reference"@,
            ],
            currency_column: Some("Type Foreign Currency"@),
            accept_empty: target == "EUR"@,
            filters: Seq::empty(),
        },
        Layout::N26 => PlanView {
            source: Source::N26,
            columns: seq![
                "Booking Date"@,
                "Original Currency"@,
                if target == "EUR"@ {
                    "Amount (EUR)"@
                } else {
                    "Original Amount"@
                },
                "Type"@,
                "Partner Name"@,
                "Payment Reference"@,
            ],
            currency_column: Some("Original Currency"@),
            accept_empty: target == "EUR"@,
            filters: Seq::empty(),
        },
        Layout::DkbOld => PlanView {
            source: Source::DKB,
            columns: seq![
                "Buchungstag"@,
                "Mandatsreferenz"@,
                "Betrag (EUR)"@,
                "Buchungstext"@,
                "Auftraggeber / Begünstigter"@,
                "Verwendungszweck"@,
            ],
            currency_column: None,
            accept_empty: false,
            filters: Seq::empty(),
        },
        Layout::Dkb => PlanView {
            source: Source::DKB,
            columns: seq![
                "Buchungsdatum"@,
                "Mandatsreferenz"@,
                "Betrag (€)"@,
                "Umsatztyp"@,
                "Zahlungsempfänger*in"@,
                "Verwendungszweck"@,
            ],
            currency_column: None,
            accept_empty: false,
            filters: Seq::empty(),
        },
    }
}

fn six_columns(a: &str, b: &str, c: &str, d: &str, e: &str, f: &str) -> (list: Vec<String>)
    ensures
        texts(list@) == seq![a@, b@, c@, d@, e@, f@],
{
    let mut list: Vec<String> = Vec::new();
    list.push(a.to_owned());
    list.push(b.to_owned());
    list.push(c.to_owned());
    list.push(d.to_owned());
    list.push(e.to_owned());
    list.push(f.to_owned());
    assert(texts(list@) =~= seq![a@, b@, c@, d@, e@, f@]);
    list
}

fn filter_on(column: &str, equal: bool, value: &str) -> (filter: Filter)
    ensures
        filter@ == (FilterView { column: column@, equal, value: value@ }),
{
    Filter { column: column.to_owned(), equal, value: value.to_owned() }
}

impl Layout {
    /// The plan for an export in this layout, when rows in the currency
    /// `target` are asked for.
    pub fn plan(&self, target: &str) -> (plan: ExtractionPlan)
        ensures
            plan@ == plan_of(*self, target@),
    {
        let euro = same_text(target, "EUR");
        match self {
            Layout::PayPal => {
                let mut filters: Vec<Filter> = Vec::new();
                filters.push(filter_on("Balance Impact", true, "Debit"));
                filters.push(filter_on("Type", false, "General Currency Conversion"));
                let plan = ExtractionPlan {
                    source: Source::PayPal,
                    columns: six_columns("Date", "Currency", "Gross", "Type", "Name", "Transaction ID"),
                    currency_column: Some("Currency".to_owned()),
                    accept_empty: false,
                    filters,
                };
                assert(plan@.filters =~= plan_of(*self, target@).filters);
                plan
            },
            Layout::PayPalOld => {
                let mut filters: Vec<Filter> = Vec::new();
                filters.push(filter_on("Description", false, "General Currency Conversion"));
                let plan = ExtractionPlan {
                    source: Source::PayPal,
                    columns: six_columns(
                        "Date",
                        "Currency",
                        "Gross",
                        "Description",
                        "Name",
                        "Transaction ID",
                    ),
                    currency_column: Some("Currency".to_owned()),
                    accept_empty: false,
                    filters,
                };
                assert(plan@.filters =~= plan_of(*self, target@).filters);
                plan
            },
            Layout::N26Old => {
                let amount = if euro {
                    "Amount (EUR)"
                } else {
                    "Amount (Foreign Currency)"
                };
                let plan = ExtractionPlan {
                    source: Source::N26,
                    columns: six_columns(
                        "Date",
                        "Type Foreign Currency",
                        amount,
                        "Transaction type",
                        "Payee",
                        "Payment reference",
                    ),
                    currency_column: Some("Type Foreign Currency".to_owned()),
                    accept_empty: euro,
                    filters: Vec::new(),
                };
                assert(plan@.filters =~= plan_of(*self, target@).filters);
                plan
            },
            Layout::N26 => {
                let amount = if euro {
                    "Amount (EUR)"
                } else {
                    "Original Amount"
                };
                let plan = ExtractionPlan {
                    source: Source::N26,
                    columns: six_columns(
                        "Booking Date",
                        "Original Currency",
                        amount,
                        "Type",
                        "Partner Name",
                        "Payment Reference",
                    ),
                    currency_column: Some("Original Currency".to_owned()),
                    accept_empty: euro,
                    filters: Vec::new(),
                };
                assert(plan@.filters =~= plan_of(*self, target@).filters);
                plan
            },
            Layout::DkbOld => {
                let plan = ExtractionPlan {
                    source: Source::DKB,
                    columns: six_columns(
                        "Buchungstag",
                        "Mandatsreferenz",
                        "Betrag (EUR)",
                        "Buchungstext",
                        "Auftraggeber / Begünstigter",
                        "Verwendungszweck",
                    ),
                    currency_column: None,
                    accept_empty: false,
                    filters: Vec::new(),
                };
                assert(plan@.filters =~= plan_of(*self, target@).filters);
                plan
            },
            Layout::Dkb => {
                let plan = ExtractionPlan {
                    source: Source::DKB,
                    columns: six_columns(
                        "Buchungsdatum",
                        "Mandatsreferenz",
                        "Betrag (€)",
                        "Umsatztyp",
                        "Zahlungsempfänger*in",
                        "Verwendungszweck",
                    ),
                    currency_column: None,
                    accept_empty: false,
                    filters: Vec::new(),
                };
                assert(plan@.filters =~= plan_of(*self, target@).filters);
                plan
            },
        }
    }
}

} // verus!
