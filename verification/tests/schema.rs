use bank_csv::{match_schema, Layout, Source, NUM_FIRST_COLUMNS, NUM_SELECT_COLUMNS};

fn names(list: &[&str]) -> Vec<String> {
    list.iter().map(|s| s.to_string()).collect()
}

#[test]
fn column_counts() {
    assert_eq!(NUM_FIRST_COLUMNS, 5);
    assert_eq!(NUM_SELECT_COLUMNS, 6);
}

#[test]
fn paypal_header_is_known() {
    let header = names(&["Date", "Time", "TimeZone", "Name", "Type", "Status", "Currency"]);
    assert_eq!(match_schema(&header), Some(Layout::PayPal));
    assert_eq!(Layout::PayPal.source_of(), Source::PayPal);
}

#[test]
fn old_paypal_header_is_known() {
    let header = names(&["Date", "Time", "Time Zone", "Description", "Currency", "Gross"]);
    assert_eq!(match_schema(&header), Some(Layout::PayPalOld));
    assert_eq!(Layout::PayPalOld.source_of(), Source::PayPal);
}

#[test]
fn old_n26_header_is_known() {
    let header = names(&[
        "Date",
        "Payee",
        "Account number",
        "Transaction type",
        "Payment reference",
        "Amount (EUR)",
    ]);
    assert_eq!(match_schema(&header), Some(Layout::N26Old));
    assert_eq!(Layout::N26Old.source_of(), Source::N26);
}

#[test]
fn n26_header_is_known() {
    let header = names(&["Booking Date", "Value Date", "Partner Name", "Partner Iban", "Type"]);
    assert_eq!(match_schema(&header), Some(Layout::N26));
    assert_eq!(Layout::N26.source_of(), Source::N26);
}

#[test]
fn old_dkb_header_is_known() {
    let header = names(&[
        "Buchungstag",
        "Wertstellung",
        "Buchungstext",
        "Auftraggeber / Begünstigter",
        "Verwendungszweck",
        "Kontonummer",
    ]);
    assert_eq!(match_schema(&header), Some(Layout::DkbOld));
    assert_eq!(Layout::DkbOld.source_of(), Source::DKB);
}

#[test]
fn dkb_header_is_known() {
    let header = names(&[
        "Buchungsdatum",
        "Wertstellung",
        "Status",
        "Zahlungspflichtige*r",
        "Zahlungsempfänger*in",
        "Verwendungszweck",
    ]);
    assert_eq!(match_schema(&header), Some(Layout::Dkb));
    assert_eq!(Layout::Dkb.source_of(), Source::DKB);
}

#[test]
fn other_headers_are_unknown() {
    assert_eq!(match_schema(&names(&[])), None);
    assert_eq!(match_schema(&names(&["Date", "Time", "TimeZone", "Name"])), None);
    assert_eq!(match_schema(&names(&["Date", "Time", "Timezone", "Name", "Type"])), None);
    assert_eq!(match_schema(&names(&["Time", "Date", "TimeZone", "Name", "Type"])), None);
    assert_eq!(match_schema(&names(&["date", "Time", "TimeZone", "Name", "Type"])), None);
    assert_eq!(match_schema(&names(&["X", "Date", "Time", "TimeZone", "Name", "Type"])), None);
}

#[test]
fn source_names() {
    assert_eq!(Source::N26.to_text(), "N26");
    assert_eq!(Source::PayPal.to_text(), "PayPal");
    assert_eq!(Source::DKB.to_text(), "DKB");
}

#[test]
fn paypal_plan() {
    let plan = Layout::PayPal.plan("USD");
    assert_eq!(plan.source, Source::PayPal);
    assert_eq!(plan.columns, names(&["Date", "Currency", "Gross", "Type", "Name", "Transaction ID"]));
    assert_eq!(plan.currency_column, Some("Currency".to_string()));
    assert!(!plan.accept_empty);
    assert_eq!(plan.filters.len(), 2);
    assert_eq!(plan.filters[0].column, "Balance Impact");
    assert!(plan.filters[0].equal);
    assert_eq!(plan.filters[0].value, "Debit");
    assert_eq!(plan.filters[1].column, "Type");
    assert!(!plan.filters[1].equal);
    assert_eq!(plan.filters[1].value, "General Currency Conversion");
}

#[test]
fn old_paypal_plan() {
    let plan = Layout::PayPalOld.plan("EUR");
    assert_eq!(plan.source, Source::PayPal);
    assert_eq!(
        plan.columns,
        names(&["Date", "Currency", "Gross", "Description", "Name", "Transaction ID"])
    );
    assert_eq!(plan.currency_column, Some("Currency".to_string()));
    assert!(!plan.accept_empty);
    assert_eq!(plan.filters.len(), 1);
    assert_eq!(plan.filters[0].column, "Description");
    assert!(!plan.filters[0].equal);
    assert_eq!(plan.filters[0].value, "General Currency Conversion");
}

#[test]
fn n26_plans_read_the_amount_by_currency() {
    let euro = Layout::N26.plan("EUR");
    assert_eq!(
        euro.columns,
        names(&[
            "Booking Date",
            "Original Currency",
            "Amount (EUR)",
            "Type",
            "Partner Name",
            "Payment Reference"
        ])
    );
    assert!(euro.accept_empty);
    assert_eq!(euro.currency_column, Some("Original Currency".to_string()));
    assert!(euro.filters.is_empty());
    let dollar = Layout::N26.plan("USD");
    assert_eq!(dollar.columns[2], "Original Amount");
    assert!(!dollar.accept_empty);
    let old_euro = Layout::N26Old.plan("EUR");
    assert_eq!(
        old_euro.columns,
        names(&[
            "Date",
            "Type Foreign Currency",
            "Amount (EUR)",
            "Transaction type",
            "Payee",
            "Payment reference"
        ])
    );
    assert!(old_euro.accept_empty);
    let old_dollar = Layout::N26Old.plan("USD");
    assert_eq!(old_dollar.columns[2], "Amount (Foreign Currency)");
    assert_eq!(old_dollar.currency_column, Some("Type Foreign Currency".to_string()));
    assert!(!old_dollar.accept_empty);
}

#[test]
fn dkb_plans_have_no_currency_column() {
    let old = Layout::DkbOld.plan("BRL");
    assert_eq!(old.source, Source::DKB);
    assert_eq!(
        old.columns,
        names(&[
            "Buchungstag",
            "Mandatsreferenz",
            "Betrag (EUR)",
            "Buchungstext",
            "Auftraggeber / Begünstigter",
            "Verwendungszweck"
        ])
    );
    assert_eq!(old.currency_column, None);
    assert!(old.filters.is_empty());
    let new = Layout::Dkb.plan("EUR");
    assert_eq!(
        new.columns,
        names(&[
            "Buchungsdatum",
            "Mandatsreferenz",
            "Betrag (€)",
            "Umsatztyp",
            "Zahlungsempfänger*in",
            "Verwendungszweck"
        ])
    );
    assert_eq!(new.currency_column, None);
    assert!(!new.accept_empty);
}
