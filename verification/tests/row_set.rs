use bank_csv::{CsvOutputRow, Date, RowSet};

fn entry(year: i32, month: u32, day: u32, amount: &str, payee: &str, memo: &str) -> CsvOutputRow {
    CsvOutputRow::new(
        Date { year, month, day },
        "N26".to_string(),
        "EUR".to_string(),
        amount.to_string(),
        "Card".to_string(),
        payee.to_string(),
        memo.to_string(),
    )
}

#[test]
fn new_set_is_empty() {
    let set = RowSet::new();
    assert_eq!(set.len(), 0);
    assert!(set.rows().is_empty());
}

#[test]
fn same_transaction_twice_stands_once() {
    let mut set = RowSet::new();
    assert_eq!(set.push(entry(2024, 1, 5, "1.00", "Shop", "m")), 0);
    assert_eq!(set.push(entry(2024, 1, 5, "1.00", "Shop", "m")), 0);
    assert_eq!(set.len(), 1);
}

#[test]
fn first_row_of_a_key_stays() {
    let mut set = RowSet::new();
    set.push(entry(2024, 1, 5, "1.00", "Shop", "first"));
    set.push(entry(2024, 1, 5, "1.00", "Shop", "second"));
    assert_eq!(set.len(), 1);
    assert_eq!(set.rows()[0].memo, "first");
}

#[test]
fn rows_come_out_in_order() {
    let mut set = RowSet::new();
    assert_eq!(set.push(entry(2024, 2, 1, "1", "b", "m")), 0);
    assert_eq!(set.push(entry(2024, 1, 31, "9", "z", "m")), 0);
    assert_eq!(set.push(entry(2024, 2, 1, "1", "a", "m")), 1);
    assert_eq!(set.push(entry(2025, 1, 1, "0", "a", "m")), 3);
    assert_eq!(set.push(entry(2024, 2, 1, "1", "a", "again")), 1);
    let days: Vec<(i32, u32, u32, String)> = set
        .rows()
        .iter()
        .map(|r| (r.date.year, r.date.month, r.date.day, r.payee.clone()))
        .collect();
    assert_eq!(
        days,
        vec![
            (2024, 1, 31, "z".to_string()),
            (2024, 2, 1, "a".to_string()),
            (2024, 2, 1, "b".to_string()),
            (2025, 1, 1, "a".to_string()),
        ]
    );
}

#[test]
fn extend_merges_each_row() {
    let mut set = RowSet::new();
    set.push(entry(2024, 1, 2, "1", "a", "m"));
    set.extend(vec![
        entry(2024, 1, 3, "1", "a", "m"),
        entry(2024, 1, 1, "1", "a", "m"),
        entry(2024, 1, 2, "1", "a", "other"),
        entry(2024, 1, 3, "1", "a", "m"),
    ]);
    let days: Vec<u32> = set.rows().iter().map(|r| r.date.day).collect();
    assert_eq!(days, vec![1, 2, 3]);
    assert_eq!(set.rows()[1].memo, "m");
}
