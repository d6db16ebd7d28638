use bank_csv::{normalize_row, parse_date_cell, table_drops, table_rows, Cell, CsvError, Date, Source, Table};

fn word(value: &str) -> Cell {
    Cell::Text(value.to_string())
}

fn amount(shown: &str) -> Cell {
    Cell::Native { shown: shown.to_string(), number: None }
}

fn days(count: i32) -> Cell {
    Cell::Native { shown: "a date".to_string(), number: Some(count) }
}

fn date(year: i32, month: u32, day: u32) -> Date {
    Date { year, month, day }
}

#[test]
fn day_count_is_read_from_1970() {
    assert_eq!(parse_date_cell(&days(0)), Ok(date(1970, 1, 1)));
    assert_eq!(parse_date_cell(&days(19723)), Ok(date(2024, 1, 1)));
    assert_eq!(parse_date_cell(&days(19782)), Ok(date(2024, 2, 29)));
    assert_eq!(parse_date_cell(&days(-1)), Ok(date(1969, 12, 31)));
}

#[test]
fn day_count_outside_the_calendar_is_refused() {
    assert_eq!(parse_date_cell(&days(i32::MAX)), Err(CsvError::InvalidDateFormat));
    assert_eq!(parse_date_cell(&days(i32::MAX - 719163)), Err(CsvError::InvalidDateFormat));
    assert_eq!(parse_date_cell(&days(i32::MIN)), Err(CsvError::InvalidDateFormat));
}

#[test]
fn text_with_long_year_is_read() {
    assert_eq!(parse_date_cell(&word("15.01.2024")), Ok(date(2024, 1, 15)));
    assert_eq!(parse_date_cell(&word("1.12.2024")), Ok(date(2024, 12, 1)));
}

#[test]
fn text_of_eight_characters_has_a_short_year() {
    assert_eq!(parse_date_cell(&word("15.01.24")), Ok(date(2024, 1, 15)));
    assert_eq!(parse_date_cell(&word("31.12.99")), Ok(date(1999, 12, 31)));
}

#[test]
fn text_that_is_no_date_is_refused() {
    assert_eq!(parse_date_cell(&word("2024-01-15")), Err(CsvError::InvalidDateFormat));
    assert_eq!(parse_date_cell(&word("31.02.2024")), Err(CsvError::InvalidDateFormat));
    assert_eq!(parse_date_cell(&word("")), Err(CsvError::InvalidDateFormat));
    assert_eq!(parse_date_cell(&word("1.1.2024")), Err(CsvError::InvalidDateFormat));
}

#[test]
fn cell_without_date_is_refused() {
    assert_eq!(parse_date_cell(&Cell::Null), Err(CsvError::InvalidDateFormat));
    assert_eq!(parse_date_cell(&amount("x")), Err(CsvError::InvalidDateFormat));
}

#[test]
fn card_payment_of_n26_gets_a_minus() {
    let cells = vec![days(19732), Cell::Null, amount("12.5"), word("Presentment"), word("Shop"), word("ref")];
    let row = normalize_row(Source::N26, &cells, "EUR").unwrap().unwrap();
    assert_eq!(row.amount, "-12,5");
    assert_eq!(row.currency, "EUR");
    assert_eq!(row.transaction_type, "Presentment");
    assert_eq!(row.payee, "Shop");
    assert_eq!(row.memo, "ref");
    assert_eq!(row.source, "N26");
    assert_eq!(row.date, date(2024, 1, 10));
}

#[test]
fn card_payment_of_n26_gets_a_minus_whatever_its_sign() {
    let cells = vec![days(19732), word("USD"), amount("-12.5"), word("Presentment"), word("Shop"), word("ref")];
    let row = normalize_row(Source::N26, &cells, "USD").unwrap().unwrap();
    assert_eq!(row.amount, "--12,5");
    assert_eq!(row.currency, "USD");
}

#[test]
fn other_n26_rows_keep_their_amount() {
    let cells = vec![days(19732), word("EUR"), amount("20.0"), word("Presentment Refund"), word("Shop"), word("ref")];
    let row = normalize_row(Source::N26, &cells, "EUR").unwrap().unwrap();
    assert_eq!(row.amount, "20,0");
}

#[test]
fn card_payment_of_paypal_keeps_its_amount() {
    let cells = vec![word("10.01.2024"), word("EUR"), word("12,50"), word("Presentment"), word("Shop"), word("T1")];
    let row = normalize_row(Source::PayPal, &cells, "EUR").unwrap().unwrap();
    assert_eq!(row.amount, "12,50");
    assert_eq!(row.source, "PayPal");
}

#[test]
fn dkb_row_in_euro_keeps_its_amount() {
    let cells = vec![word("10.01.24"), Cell::Null, word("-5,00"), word("Ausgang"), word("Shop"), word("no amount here")];
    let row = normalize_row(Source::DKB, &cells, "EUR").unwrap().unwrap();
    assert_eq!(row.currency, "EUR");
    assert_eq!(row.amount, "-5,00");
    assert_eq!(row.date, date(2024, 1, 10));
    assert_eq!(row.source, "DKB");
}

#[test]
fn dkb_row_in_foreign_currency_reads_the_memo() {
    let memo = "2023-12-12 Debitk.44 Original 6,99 BRL 1 Euro=5,29545460 BRL VISA Debit";
    let cells = vec![word("12.12.2023"), word("M1"), amount("-1.32"), word("Kartenzahlung"), word("Shop"), word(memo)];
    let row = normalize_row(Source::DKB, &cells, "BRL").unwrap().unwrap();
    assert_eq!(row.currency, "BRL");
    assert_eq!(row.amount, "-6,99");
    assert_eq!(row.memo, memo);
    assert_eq!(row.date, date(2023, 12, 12));
}

#[test]
fn dkb_income_in_foreign_currency_has_no_minus() {
    let memo = "Original 6.99 BRL 1 Euro=5,29545460 BRL";
    let cells = vec![word("12.12.2023"), word("M1"), amount("1.32"), word("Gutschrift"), word("Shop"), word(memo)];
    let row = normalize_row(Source::DKB, &cells, "BRL").unwrap().unwrap();
    assert_eq!(row.amount, "6,99");
}

#[test]
fn dkb_row_without_amount_in_memo_is_dropped() {
    let cells = vec![word("not a date"), word("M1"), amount("-1.32"), word("Kartenzahlung"), word("Shop"), word("Nothing here")];
    assert_eq!(normalize_row(Source::DKB, &cells, "BRL"), Ok(None));
}

#[test]
fn row_with_bad_date_is_an_error() {
    let cells = vec![word("not a date"), word("EUR"), amount("1"), word("t"), word("p"), word("m")];
    assert_eq!(normalize_row(Source::PayPal, &cells, "EUR"), Err(CsvError::InvalidDateFormat));
    assert_eq!(normalize_row(Source::DKB, &cells, "EUR"), Err(CsvError::InvalidDateFormat));
    assert_eq!(normalize_row(Source::N26, &Vec::new(), "EUR"), Err(CsvError::InvalidDateFormat));
}

#[test]
fn short_row_reads_as_missing_values() {
    let cells = vec![days(19732)];
    let row = normalize_row(Source::PayPal, &cells, "EUR").unwrap().unwrap();
    assert_eq!(row.currency, "EUR");
    assert_eq!(row.amount, "null");
    assert_eq!(row.transaction_type, "null");
    assert_eq!(row.payee, "null");
    assert_eq!(row.memo, "null");
}

#[test]
fn rows_of_a_table_keep_their_order() {
    let table = Table {
        header: vec![],
        rows: vec![
            vec![word("02.01.2024"), Cell::Null, word("1"), word("a"), word("p"), word("Nothing here")],
            vec![word("01.01.2024"), Cell::Null, word("2"), word("b"), word("q"), word("Original 3 USD")],
        ],
    };
    let euro = table_rows(Source::DKB, &table, "EUR").unwrap();
    assert_eq!(euro.len(), 2);
    assert_eq!(euro[0].date, date(2024, 1, 2));
    assert_eq!(euro[1].date, date(2024, 1, 1));
    let dollar = table_rows(Source::DKB, &table, "USD").unwrap();
    assert_eq!(dollar.len(), 1);
    assert_eq!(dollar[0].amount, "3");
    assert_eq!(dollar[0].currency, "USD");
}

#[test]
fn bad_date_fails_the_table() {
    let table = Table {
        header: vec![],
        rows: vec![
            vec![word("02.01.2024"), word("EUR"), word("1"), word("a"), word("p"), word("m")],
            vec![word("soon"), word("EUR"), word("2"), word("b"), word("q"), word("m")],
            vec![word("03.01.2024"), word("EUR"), word("3"), word("c"), word("r"), word("m")],
        ],
    };
    assert_eq!(table_rows(Source::PayPal, &table, "EUR").err(), Some(CsvError::InvalidDateFormat));
}

#[test]
fn empty_table_has_no_rows() {
    let table = Table { header: vec![], rows: vec![] };
    assert_eq!(table_rows(Source::N26, &table, "EUR"), Ok(vec![]));
}

#[test]
fn drops_of_a_table() {
    let table = Table {
        header: vec![],
        rows: vec![
            vec![word("02.01.2024"), Cell::Null, word("1"), word("a"), word("p"), word("Nothing here")],
            vec![word("01.01.2024"), Cell::Null, word("2"), word("b"), word("q"), word("Original 3 USD")],
            vec![word("01.01.2024")],
        ],
    };
    assert_eq!(table_drops(Source::DKB, &table, "USD"), vec!["\"Nothing here\"", "null"]);
    assert!(table_drops(Source::DKB, &table, "EUR").is_empty());
    assert!(table_drops(Source::N26, &table, "USD").is_empty());
    assert!(table_drops(Source::PayPal, &table, "USD").is_empty());
}
