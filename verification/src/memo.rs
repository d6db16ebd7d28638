use crate::text::{chars_of, contains_text, find_text, first_index, text_of, trim_bounds, trimmed};
use vstd::prelude::*;

verus! {

/// The word before an amount in a foreign currency, as older exports have
/// it.
pub open spec fn short_keyword() -> Seq<char> {
    "Original "@
}

/// The words before an amount in a foreign currency, as later exports have
/// them.
pub open spec fn long_keyword() -> Seq<char> {
    "Ursprungsbetrag in Fremdwährung "@
}

/// The keyword of `memo`: the short one where the memo holds it, else the
/// long one where the memo holds that.
pub open spec fn keyword_of(memo: Seq<char>) -> Option<Seq<char>> {
    if contains_text(memo, short_keyword()) {
        Some(short_keyword())
    } else if contains_text(memo, long_keyword()) {
        Some(long_keyword())
    } else {
        None
    }
}

/// Where the amount stands in `memo`: from the end of the keyword to the
/// first place of the currency code. There is no such span where the memo
/// has no keyword or no currency code, or where the code begins before the
/// keyword ends.
pub open spec fn amount_span(currency: Seq<char>, memo: Seq<char>) -> Option<(int, int)> {
    match (keyword_of(memo), first_index(memo, currency)) {
        (Some(keyword), Some(end)) => {
            let start = first_index(memo, keyword)->0;
            if end <= start || end < start + keyword.len() {
                None
            } else {
                Some((start + keyword.len(), end))
            }
        },
        _ => None,
    }
}

/// The amount that `memo` gives in the currency `currency`: the text of the
/// span, without the white space around it.
pub open spec fn extracted_amount(currency: Seq<char>, memo: Seq<char>) -> Option<Seq<char>> {
    match amount_span(currency, memo) {
        Some((from, to)) => Some(trimmed(memo.subrange(from, to))),
        None => None,
    }
}

/// Finds where the amount stands in a memo.
pub fn locate_amount(currency: &[char], memo: &[char]) -> (span: Option<(usize, usize)>)
    ensures
        span matches Some(s) ==> s.0 <= s.1 <= memo@.len() && amount_span(currency@, memo@) == Some(
            (s.0 as int, s.1 as int),
        ),
        span is None ==> amount_span(currency@, memo@) is None,
{
    let short = chars_of("Original ");
    let long = chars_of("Ursprungsbetrag in Fremdwährung ");
    let (start, length) = match find_text(memo, short.as_slice()) {
        Some(start) => (start, short.len()),
        None => match find_text(memo, long.as_slice()) {
            Some(start) => (start, long.len()),
            None => {
                return None;
            },
        },
    };
    let end = match find_text(memo, currency) {
        Some(end) => end,
        None => {
            return None;
        },
    };
    if end <= start || end - start < length {
        None
    } else {
        Some((start + length, end))
    }
}

/// Reads the amount in a foreign currency out of the memo of a DKB
/// transaction.
pub fn dkb_extract_amount(currency: &str, memo: &str) -> (amount: Option<String>)
    ensures
        amount matches Some(text) ==> extracted_amount(currency@, memo@) == Some(text@),
        amount is None ==> extracted_amount(currency@, memo@) is None,
{
    let code = chars_of(currency);
    let words = chars_of(memo);
    match locate_amount(code.as_slice(), words.as_slice()) {
        Some((from, to)) => {
            let (a, b) = trim_bounds(words.as_slice(), from, to);
            Some(text_of(words.as_slice(), a, b))
        },
        None => None,
    }
}

} // verus!
