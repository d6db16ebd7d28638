use bank_csv::{filter_data_frame, match_schema, Cell, CsvError, Layout, Source, Table};

fn header_of(list: &[&str]) -> Vec<String> {
    list.iter().map(|s| s.to_string()).collect()
}

fn text(value: &str) -> Cell {
    Cell::Text(value.to_string())
}

fn number(shown: &str) -> Cell {
    Cell::Native { shown: shown.to_string(), number: None }
}

fn shown(table: &Table) -> Vec<Vec<String>> {
    table.rows.iter().map(|row| row.iter().map(|cell| cell.to_text()).collect()).collect()
}

fn paypal_table() -> Table {
    Table {
        header: header_of(&[
            "Date",
            "Time",
            "TimeZone",
            "Name",
            "Type",
            "Currency",
            "Gross",
            "Transaction ID",
            "Balance Impact",
        ]),
        rows: vec![
            vec![
                text("01.02.2024"),
                text("10:00"),
                text("CET"),
                text("Shop"),
                text("Payment"),
                text("USD"),
                text("-5,00"),
                text("T1"),
                text("Debit"),
            ],
            vec![
                text("02.02.2024"),
                text("10:00"),
                text("CET"),
                text("Boss"),
                text("Payment"),
                text("USD"),
                text("7,00"),
                text("T2"),
                text("Credit"),
            ],
            vec![
                text("03.02.2024"),
                text("10:00"),
                text("CET"),
                text(""),
                text("General Currency Conversion"),
                text("USD"),
                text("-9,00"),
                text("T3"),
                text("Debit"),
            ],
            vec![
                text("04.02.2024"),
                text("10:00"),
                text("CET"),
                text("Shop"),
                text("Payment"),
                text("EUR"),
                text("-1,00"),
                text("T4"),
                text("Debit"),
            ],
            vec![
                text("05.02.2024"),
                text("10:00"),
                text("CET"),
                text("Bar"),
                text("Payment"),
                text("usd"),
                text("-2,00"),
                text("T5"),
                text("Debit"),
            ],
        ],
    }
}

#[test]
fn paypal_rows_are_filtered_and_projected() {
    let (source, table) = filter_data_frame(&paypal_table(), "USD".to_string()).unwrap();
    assert_eq!(source, Source::PayPal);
    assert_eq!(
        table.header,
        header_of(&["Date", "Currency", "Gross", "Type", "Name", "Transaction ID"])
    );
    assert_eq!(
        shown(&table),
        vec![
            vec!["\"01.02.2024\"", "\"USD\"", "\"-5,00\"", "\"Payment\"", "\"Shop\"", "\"T1\""],
            vec!["\"05.02.2024\"", "\"usd\"", "\"-2,00\"", "\"Payment\"", "\"Bar\"", "\"T5\""],
        ]
    );
}

#[test]
fn old_paypal_rows_drop_conversions() {
    let table = Table {
        header: header_of(&[
            "Date",
            "Time",
            "Time Zone",
            "Description",
            "Currency",
            "Gross",
            "Name",
            "Transaction ID",
        ]),
        rows: vec![
            vec![
                text("01.02.2024"),
                text("1"),
                text("CET"),
                text("General Currency Conversion"),
                text("EUR"),
                text("1"),
                text("n"),
                text("A"),
            ],
            vec![
                text("02.02.2024"),
                text("1"),
                text("CET"),
                text("Payment"),
                text("EUR"),
                text("2"),
                text("n"),
                text("B"),
            ],
            vec![
                text("03.02.2024"),
                text("1"),
                text("CET"),
                Cell::Null,
                text("EUR"),
                text("3"),
                text("n"),
                text("C"),
            ],
            vec![
                text("04.02.2024"),
                text("1"),
                text("CET"),
                text("Payment"),
                Cell::Null,
                text("4"),
                text("n"),
                text("D"),
            ],
        ],
    };
    let (source, kept) = filter_data_frame(&table, "EUR".to_string()).unwrap();
    assert_eq!(source, Source::PayPal);
    let ids: Vec<String> = kept.rows.iter().map(|row| row[5].to_text()).collect();
    assert_eq!(ids, vec!["\"B\"", "\"C\""]);
}

fn n26_table() -> Table {
    Table {
        header: header_of(&[
            "Booking Date",
            "Value Date",
            "Partner Name",
            "Partner Iban",
            "Type",
            "Payment Reference",
            "Account Name",
            "Amount (EUR)",
            "Original Amount",
            "Original Currency",
            "Exchange Rate",
        ]),
        rows: vec![
            vec![
                Cell::Native { shown: "2024-01-10".to_string(), number: Some(19732) },
                Cell::Native { shown: "2024-01-10".to_string(), number: Some(19732) },
                text("Shop"),
                Cell::Null,
                text("Presentment"),
                text("ref 1"),
                text("Main"),
                number("12.5"),
                Cell::Null,
                Cell::Null,
                Cell::Null,
            ],
            vec![
                Cell::Native { shown: "2024-01-11".to_string(), number: Some(19733) },
                Cell::Native { shown: "2024-01-11".to_string(), number: Some(19733) },
                text("Hotel"),
                Cell::Null,
                text("Presentment"),
                text("ref 2"),
                text("Main"),
                number("90.0"),
                number("100.0"),
                text("USD"),
                number("0.9"),
            ],
            vec![
                Cell::Native { shown: "2024-01-12".to_string(), number: Some(19734) },
                Cell::Native { shown: "2024-01-12".to_string(), number: Some(19734) },
                text("Friend"),
                text("DE00"),
                text("Credit Transfer"),
                text("ref 3"),
                text("Main"),
                number("20.0"),
                number("20.0"),
                text("EUR"),
                number("1.0"),
            ],
            vec![
                Cell::Native { shown: "2024-01-13".to_string(), number: Some(19735) },
                Cell::Native { shown: "2024-01-13".to_string(), number: Some(19735) },
                text("Cafe"),
                Cell::Null,
                text("Presentment"),
                text("ref 4"),
                text("Main"),
                number("3.0"),
                number("3.0"),
                text(""),
                Cell::Null,
            ],
        ],
    }
}

#[test]
fn n26_euro_rows_include_those_without_currency() {
    let (source, kept) = filter_data_frame(&n26_table(), "EUR".to_string()).unwrap();
    assert_eq!(source, Source::N26);
    assert_eq!(
        kept.header,
        header_of(&[
            "Booking Date",
            "Original Currency",
            "Amount (EUR)",
            "Type",
            "Partner Name",
            "Payment Reference"
        ])
    );
    assert_eq!(
        shown(&kept),
        vec![
            vec!["2024-01-10", "null", "12.5", "\"Presentment\"", "\"Shop\"", "\"ref 1\""],
            vec!["2024-01-12", "\"EUR\"", "20.0", "\"Credit Transfer\"", "\"Friend\"", "\"ref 3\""],
            vec!["2024-01-13", "\"\"", "3.0", "\"Presentment\"", "\"Cafe\"", "\"ref 4\""],
        ]
    );
}

#[test]
fn n26_foreign_rows_need_the_currency() {
    let (source, kept) = filter_data_frame(&n26_table(), "USD".to_string()).unwrap();
    assert_eq!(source, Source::N26);
    assert_eq!(kept.header[2], "Original Amount");
    assert_eq!(
        shown(&kept),
        vec![vec!["2024-01-11", "\"USD\"", "100.0", "\"Presentment\"", "\"Hotel\"", "\"ref 2\""]]
    );
}

#[test]
fn dkb_rows_are_all_kept() {
    let table = Table {
        header: header_of(&[
            "Buchungsdatum",
            "Wertstellung",
            "Status",
            "Zahlungspflichtige*r",
            "Zahlungsempfänger*in",
            "Verwendungszweck",
            "Umsatztyp",
            "IBAN",
            "Betrag (€)",
            "Gläubiger-ID",
            "Mandatsreferenz",
            "Kundenreferenz",
        ]),
        rows: vec![
            vec![
                text("01.02.24"),
                text("01.02.24"),
                text("Gebucht"),
                text("Me"),
                text("Shop"),
                text("memo one"),
                text("Ausgang"),
                text("DE00"),
                text("-5,00"),
                Cell::Null,
                Cell::Null,
                Cell::Null,
            ],
            vec![text("02.02.24"), text("02.02.24"), text("Gebucht"), text("Boss")],
        ],
    };
    let (source, kept) = filter_data_frame(&table, "BRL".to_string()).unwrap();
    assert_eq!(source, Source::DKB);
    assert_eq!(
        shown(&kept),
        vec![
            vec!["\"01.02.24\"", "null", "\"-5,00\"", "\"Ausgang\"", "\"Shop\"", "\"memo one\""],
            vec!["\"02.02.24\"", "null", "null", "null", "null", "null"],
        ]
    );
}

#[test]
fn table_with_unknown_header_has_no_layout() {
    let table = Table { header: header_of(&["a", "b", "c", "d", "e"]), rows: vec![] };
    assert_eq!(match_schema(&table.header), None);
    let swapped = Table {
        header: header_of(&[
            "Time",
            "Date",
            "TimeZone",
            "Name",
            "Type",
            "Currency",
            "Gross",
            "Balance Impact",
            "Transaction ID",
        ]),
        rows: vec![],
    };
    assert_eq!(match_schema(&swapped.header), None);
    assert_eq!(match_schema(&paypal_table().header), Some(Layout::PayPal));
}

#[test]
fn missing_column_is_refused() {
    let table = Table {
        header: header_of(&["Date", "Time", "TimeZone", "Name", "Type", "Currency", "Gross", "Transaction ID"]),
        rows: vec![],
    };
    assert_eq!(filter_data_frame(&table, "EUR".to_string()).err(), Some(CsvError::MissingColumn));
    let n26 = Table {
        header: header_of(&["Booking Date", "Value Date", "Partner Name", "Partner Iban", "Type"]),
        rows: vec![],
    };
    assert_eq!(filter_data_frame(&n26, "EUR".to_string()).err(), Some(CsvError::MissingColumn));
}

#[test]
fn first_column_of_a_name_is_read() {
    let table = Table {
        header: header_of(&[
            "Buchungstag",
            "Wertstellung",
            "Buchungstext",
            "Auftraggeber / Begünstigter",
            "Verwendungszweck",
            "Verwendungszweck",
            "Betrag (EUR)",
            "Mandatsreferenz",
        ]),
        rows: vec![vec![
            text("01.02.2024"),
            text("01.02.2024"),
            text("Lastschrift"),
            text("Shop"),
            text("first"),
            text("second"),
            number("-5.0"),
            text("M1"),
        ]],
    };
    let (source, kept) = filter_data_frame(&table, "EUR".to_string()).unwrap();
    assert_eq!(source, Source::DKB);
    assert_eq!(
        shown(&kept),
        vec![vec!["\"01.02.2024\"", "\"M1\"", "-5.0", "\"Lastschrift\"", "\"Shop\"", "\"first\""]]
    );
}

#[test]
fn cell_forms() {
    assert_eq!(Cell::Null.to_text(), "null");
    assert_eq!(text("a b").to_text(), "\"a b\"");
    assert_eq!(number("-1.5").to_text(), "-1.5");
    assert_eq!(text("x").duplicate().to_text(), "\"x\"");
    assert_eq!(Cell::Native { shown: "7".to_string(), number: Some(7) }.duplicate().to_text(), "7");
    assert_eq!(Cell::Null.duplicate().to_text(), "null");
}
