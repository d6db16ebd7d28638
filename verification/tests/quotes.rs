use bank_csv::strip_quotes;

#[test]
fn quotes_on_both_sides_are_taken() {
    assert_eq!(strip_quotes("\"12.50\"".to_string()), "12.50");
}

#[test]
fn text_without_quotes_stays() {
    assert_eq!(strip_quotes("12.50".to_string()), "12.50");
}

#[test]
fn only_one_layer_is_taken() {
    assert_eq!(strip_quotes("\"\"a\"\"".to_string()), "\"a\"");
}

#[test]
fn quote_at_the_end_alone_is_taken() {
    assert_eq!(strip_quotes("abc\"".to_string()), "abc");
}

#[test]
fn quote_at_the_start_alone_stays() {
    assert_eq!(strip_quotes("\"abc".to_string()), "\"abc");
}

#[test]
fn single_quote_character_stays() {
    assert_eq!(strip_quotes("\"".to_string()), "\"");
}

#[test]
fn two_quote_characters_give_the_empty_text() {
    assert_eq!(strip_quotes("\"\"".to_string()), "");
}

#[test]
fn empty_text_stays_empty() {
    assert_eq!(strip_quotes(String::new()), "");
}
