use chrono::format::ParseError;
use chrono::{Datelike, NaiveDate};
use vstd::prelude::*;

verus! {

/// A calendar date, without a time of day.
#[derive(Clone, Copy, Debug, PartialEq, Eq, Structural)]
pub struct Date {
    /// The year of the proleptic Gregorian calendar.
    pub year: i32,
    /// The month, counted from 1.
    pub month: u32,
    /// The day of the month, counted from 1.
    pub day: u32,
}

/// The error that `chrono` reports for a text that is no date.
#[verifier::external_type_specification]
#[verifier::external_body]
pub struct ExParseError(ParseError);

/// Year, month and day of the date that lies `days` days after the last day
/// of the year 1 BCE, where `chrono` can hold that date. The value is the
/// one that `NaiveDate::from_num_days_from_ce_opt` gives.
pub uninterp spec fn civil_of_days(days: int) -> Option<(i32, u32, u32)>;

/// Year, month and day that `text` stands for when it is read by the
/// layout `layout`, where it stands for a date. The value is the one that
/// `NaiveDate::parse_from_str` gives.
pub uninterp spec fn parsed_date(text: Seq<char>, layout: Seq<char>) -> Option<(i32, u32, u32)>;

/// `NaiveDate::from_num_days_from_ce_opt`, with the date it finds taken
/// apart by `year`, `month` and `day`. The result depends on `days` alone,
/// so it is equated with the name `civil_of_days`.
#[verifier::external_body]
pub(crate) fn civil_from_days(days: i32) -> (r: Option<(i32, u32, u32)>)
    ensures
        r == civil_of_days(days as int),
{
    match NaiveDate::from_num_days_from_ce_opt(days) {
        Some(d) => Some((d.year(), d.month(), d.day())),
        None => None,
    }
}

/// `NaiveDate::parse_from_str`, with the date it reads taken apart by
/// `year`, `month` and `day`. The result depends on the two texts alone, so
/// it is equated with the name `parsed_date`; the call fails exactly where
/// that name has no date.
#[verifier::external_body]
pub(crate) fn parse_by_layout(text: &str, layout: &str) -> (r: Result<(i32, u32, u32), ParseError>)
    ensures
        match r {
            Ok(parts) => parsed_date(text@, layout@) == Some(parts),
            Err(_) => parsed_date(text@, layout@) is None,
        },
{
    match NaiveDate::parse_from_str(text, layout) {
        Ok(d) => Ok((d.year(), d.month(), d.day())),
        Err(e) => Err(e),
    }
}

/// The character that stands for a digit's value.
pub open spec fn digit(value: int) -> char {
    if value == 0 {
        '0'
    } else if value == 1 {
        '1'
    } else if value == 2 {
        '2'
    } else if value == 3 {
        '3'
    } else if value == 4 {
        '4'
    } else if value == 5 {
        '5'
    } else if value == 6 {
        '6'
    } else if value == 7 {
        '7'
    } else if value == 8 {
        '8'
    } else {
        '9'
    }
}

/// `n` in decimal digits, with zeros in front where it has fewer than
/// `width` of them.
pub open spec fn decimal(n: nat, width: nat) -> Seq<char>
    decreases n, width,
{
    if n < 10 && width <= 1 {
        seq![digit(n as int)]
    } else {
        decimal(
            n / 10,
            if width > 0 {
                (width - 1) as nat
            } else {
                0
            },
        ).push(digit((n % 10) as int))
    }
}

/// A year as it is written in a date: four digits for the years 0 to 9999,
/// else a sign and at least four digits.
pub open spec fn year_text(year: int) -> Seq<char> {
    if 0 <= year <= 9999 {
        decimal(year as nat, 4)
    } else if year < 0 {
        seq!['-'] + decimal((-year) as nat, 4)
    } else {
        seq!['+'] + decimal(year as nat, 4)
    }
}

fn digit_char(value: u32) -> (c: char)
    requires
        value < 10,
    ensures
        c == digit(value as int),
{
    if value == 0 {
        '0'
    } else if value == 1 {
        '1'
    } else if value == 2 {
        '2'
    } else if value == 3 {
        '3'
    } else if value == 4 {
        '4'
    } else if value == 5 {
        '5'
    } else if value == 6 {
        '6'
    } else if value == 7 {
        '7'
    } else if value == 8 {
        '8'
    } else {
        '9'
    }
}

/// Appends `n` in decimal digits, padded with zeros to `width` digits.
pub(crate) fn push_decimal(s: &mut String, n: u32, width: u32)
    ensures
        final(s)@ == old(s)@ + decimal(n as nat, width as nat),
    decreases n, width,
{
    if n < 10 && width <= 1 {
        s.push(digit_char(n));
        assert(final(s)@ =~= old(s)@ + decimal(n as nat, width as nat));
    } else {
        let rest: u32 = if width > 0 {
            width - 1
        } else {
            0
        };
        let ghost before = s@;
        push_decimal(s, n / 10, rest);
        s.push(digit_char(n % 10));
        assert(s@ =~= before + decimal(n as nat, width as nat));
    }
}

impl Date {
    /// The date in ISO form: year, month and day, the last two in two
    /// digits, with a dash between them.
    pub open spec fn iso(self) -> Seq<char> {
        year_text(self.year as int) + seq!['-'] + decimal(self.month as nat, 2) + seq!['-']
            + decimal(self.day as nat, 2)
    }

    /// The date in ISO form.
    pub fn iso_text(&self) -> (s: String)
        ensures
            s@ == self.iso(),
    {
        let mut s = String::new();
        if 0 <= self.year && self.year <= 9999 {
            push_decimal(&mut s, self.year as u32, 4);
        } else if self.year < 0 {
            s.push('-');
            push_decimal(&mut s, (-(self.year as i64)) as u32, 4);
        } else {
            s.push('+');
            push_decimal(&mut s, self.year as u32, 4);
        }
        assert(s@ =~= year_text(self.year as int));
        s.push('-');
        push_decimal(&mut s, self.month, 2);
        s.push('-');
        push_decimal(&mut s, self.day, 2);
        assert(s@ =~= self.iso());
        s
    }

    /// Whether `self` lies before `other` in the calendar.
    pub open spec fn before(self, other: Date) -> bool {
        ||| self.year < other.year
        ||| (self.year == other.year && self.month < other.month)
        ||| (self.year == other.year && self.month == other.month && self.day < other.day)
    }

    /// The date with the given year, month and day.
    pub fn from_parts(parts: (i32, u32, u32)) -> (d: Date)
        ensures
            d == (Date { year: parts.0, month: parts.1, day: parts.2 }),
    {
        Date { year: parts.0, month: parts.1, day: parts.2 }
    }

    /// Whether `self` lies before `other` in the calendar.
    pub fn is_before(&self, other: &Date) -> (b: bool)
        ensures
            b == self.before(*other),
    {
        self.year < other.year || (self.year == other.year && (self.month < other.month || (
        self.month == other.month && self.day < other.day)))
    }
}

} // verus!
