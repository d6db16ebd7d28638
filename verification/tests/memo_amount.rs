use bank_csv::{dkb_extract_amount, locate_amount};

fn chars(text: &str) -> Vec<char> {
    text.chars().collect()
}

#[test]
fn amount_after_short_keyword() {
    let memo = "2023-12-12 Debitk.44 Original 6,99 BRL 1 Euro=5,29545460 BRL VISA Debit";
    assert_eq!(dkb_extract_amount("BRL", memo), Some("6,99".to_string()));
}

#[test]
fn amount_after_short_keyword_with_wide_gap() {
    let memo = "2023-12-12      Debitk.44 Original 6,99 BRL 1 Euro=5,29545460 BRL VISA Debit";
    assert_eq!(dkb_extract_amount("BRL", memo), Some("6,99".to_string()));
}

#[test]
fn amount_after_long_keyword() {
    let memo = "VISA Debitkartenumsatz in Fremdwährung / Ursprungsbetrag in Fremdwährung 19,90 BRL / Umrechnungsrate: 1 Euro=6,03030470 BRL";
    assert_eq!(dkb_extract_amount("BRL", memo), Some("19,90".to_string()));
}

#[test]
fn memo_without_keyword_gives_nothing() {
    assert_eq!(dkb_extract_amount("BRL", "Nothing here"), None);
}

#[test]
fn keyword_without_currency_gives_nothing() {
    assert_eq!(dkb_extract_amount("BRL", "Original 6,99 USD 1 Euro=1,1 USD"), None);
}

#[test]
fn currency_before_keyword_gives_nothing() {
    assert_eq!(dkb_extract_amount("BRL", "BRL first, then Original 6,99 BRL"), None);
}

#[test]
fn currency_inside_keyword_gives_nothing() {
    assert_eq!(dkb_extract_amount("gin", "Original 6,99 gin"), None);
}

#[test]
fn empty_currency_gives_nothing() {
    assert_eq!(dkb_extract_amount("", "Original 6,99 BRL"), None);
}

#[test]
fn currency_right_after_keyword_gives_empty_amount() {
    assert_eq!(dkb_extract_amount("BRL", "Original BRL"), Some(String::new()));
}

#[test]
fn amount_is_trimmed_of_all_white_space() {
    assert_eq!(
        dkb_extract_amount("BRL", "Original \t\u{a0} 7,50 \u{2003}\nBRL"),
        Some("7,50".to_string())
    );
}

#[test]
fn short_keyword_wins_over_long_keyword() {
    let memo = "Ursprungsbetrag in Fremdwährung 1,00 X Original 2,00 BRL";
    assert_eq!(dkb_extract_amount("BRL", memo), Some("2,00".to_string()));
}

#[test]
fn span_counts_characters() {
    let memo = chars("ä Original 6,99 BRL");
    assert_eq!(locate_amount(&chars("BRL"), &memo), Some((11, 16)));
}

#[test]
fn span_of_memo_without_keyword() {
    assert_eq!(locate_amount(&chars("BRL"), &chars("6,99 BRL")), None);
}
