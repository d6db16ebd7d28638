use bank_csv::{file_name, months_of, CsvOutputRow, Date, Month, RowSet};

fn on(year: i32, month: u32, day: u32, payee: &str) -> CsvOutputRow {
    CsvOutputRow::new(
        Date { year, month, day },
        "N26".to_string(),
        "EUR".to_string(),
        "1".to_string(),
        "Card".to_string(),
        payee.to_string(),
        String::new(),
    )
}

#[test]
fn empty_set_has_no_month() {
    assert_eq!(months_of(&RowSet::new()), vec![]);
}

#[test]
fn one_row_is_one_month() {
    let mut set = RowSet::new();
    set.push(on(2024, 5, 17, "a"));
    assert_eq!(months_of(&set), vec![Month { year: 2024, month: 5, from: 0, to: 1 }]);
}

#[test]
fn months_ascend_and_cover_all_rows() {
    let mut set = RowSet::new();
    set.extend(vec![
        on(2024, 2, 1, "a"),
        on(2023, 12, 31, "a"),
        on(2024, 1, 1, "a"),
        on(2024, 2, 28, "a"),
        on(2024, 1, 31, "a"),
        on(2024, 1, 31, "b"),
        on(2025, 1, 1, "a"),
    ]);
    assert_eq!(
        months_of(&set),
        vec![
            Month { year: 2023, month: 12, from: 0, to: 1 },
            Month { year: 2024, month: 1, from: 1, to: 4 },
            Month { year: 2024, month: 2, from: 4, to: 6 },
            Month { year: 2025, month: 1, from: 6, to: 7 },
        ]
    );
}

#[test]
fn same_month_of_another_year_is_another_month() {
    let mut set = RowSet::new();
    set.push(on(2023, 3, 1, "a"));
    set.push(on(2024, 3, 1, "a"));
    assert_eq!(
        months_of(&set),
        vec![
            Month { year: 2023, month: 3, from: 0, to: 1 },
            Month { year: 2024, month: 3, from: 1, to: 2 },
        ]
    );
}

#[test]
fn file_names() {
    assert_eq!(file_name("EUR", 2024, 1), "bank-csv-transactions-EUR-2024-01.csv");
    assert_eq!(file_name("USD", 2024, 12), "bank-csv-transactions-USD-2024-12.csv");
    assert_eq!(file_name("BRL", 987, 3), "bank-csv-transactions-BRL-0987-03.csv");
    assert_eq!(file_name("", 0, 0), "bank-csv-transactions--0000-00.csv");
}

#[test]
fn file_names_are_those_of_the_format_macro() {
    for (year, month) in [(2024, 7u32), (-5, 1), (-12345, 12), (10000, 10), (99, 123)] {
        assert_eq!(
            file_name("EUR", year, month),
            format!("bank-csv-transactions-{}-{:04}-{:02}.csv", "EUR", year, month)
        );
    }
}
