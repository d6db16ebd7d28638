use crate::text::same_text;
use vstd::prelude::*;

verus! {

/// How many columns, from the first on, tell one export from another.
pub const NUM_FIRST_COLUMNS: usize = 5;

/// How many columns are taken from an export.
pub const NUM_SELECT_COLUMNS: usize = 6;

/// The institution that produced an export.
#[derive(Clone, Copy, Debug, PartialEq, Eq, Structural)]
pub enum Source {
    /// N26 export.
    N26,
    /// PayPal export.
    PayPal,
    /// DKB export, which starts with lines that are not part of the table.
    DKB,
}

impl Source {
    /// The name under which the institution appears in the output.
    pub open spec fn name(self) -> Seq<char> {
        match self {
            Source::N26 => "N26"@,
            Source::PayPal => "PayPal"@,
            Source::DKB => "DKB"@,
        }
    }

    /// The name under which the institution appears in the output.
    pub fn to_text(&self) -> (name: String)
        ensures
            name@ == self.name(),
    {
        match self {
            Source::N26 => "N26".to_owned(),
            Source::PayPal => "PayPal".to_owned(),
            Source::DKB => "DKB".to_owned(),
        }
    }
}

/// One version of one institution's export, known by its first columns.
#[derive(Clone, Copy, Debug, PartialEq, Eq, Structural)]
pub enum Layout {
    /// PayPal, with a column for the direction of the payment.
    PayPal,
    /// PayPal, as it was before.
    PayPalOld,
    /// N26, as it was before.
    N26Old,
    /// N26, with booking and value date.
    N26,
    /// DKB, as it was before.
    DkbOld,
    /// DKB, with a status column.
    Dkb,
}

/// The texts of a list of strings.
pub open spec fn texts(list: Seq<String>) -> Seq<Seq<char>> {
    Seq::new(list.len(), |i: int| list[i]@)
}

/// The columns by which an export is known: the first five, or all where
/// there are fewer.
pub open spec fn first_columns(header: Seq<Seq<char>>) -> Seq<Seq<char>> {
    if header.len() <= 5 {
        header
    } else {
        header.take(5)
    }
}

impl Layout {
    /// The first five column names of an export in this layout.
    pub open spec fn fingerprint(self) -> Seq<Seq<char>> {
        match self {
            Layout::PayPal => seq!["Date"@, "Time"@, "TimeZone"@, "Name"@, "Type"@],
            Layout::PayPalOld => seq![
                "Date"@,
                "Time"@,
                "Time Zone"@,
                "Description"@,
                "Currency"@,
            ],
            Layout::N26Old => seq![
                "Date"@,
                "Payee"@,
                "Account number"@,
                "Transaction type"@,
                "Payment reference"@,
            ],
            Layout::N26 => seq![
                "Booking Date"@,
                "Value Date"@,
                "Partner Name"@,
                "Partner Iban"@,
                "Type"@,
            ],
            Layout::DkbOld => seq![
                "Buchungstag"@,
                "Wertstellung"@,
                "Buchungstext"@,
                "Auftraggeber / Begünstigter"@,
                "Verwendungszweck"@,
            ],
            Layout::Dkb => seq![
                "Buchungsdatum"@,
                "Wertstellung"@,
                "Status"@,
                "Zahlungspflichtige*r"@,
                "Zahlungsempfänger*in"@,
            ],
        }
    }

    /// The institution whose export this is.
    pub open spec fn source(self) -> Source {
        match self {
            Layout::PayPal | Layout::PayPalOld => Source::PayPal,
            Layout::N26Old | Layout::N26 => Source::N26,
            Layout::DkbOld | Layout::Dkb => Source::DKB,
        }
    }

    /// The institution whose export this is.
    pub fn source_of(&self) -> (source: Source)
        ensures
            source == self.source(),
    {
        match self {
            Layout::PayPal | Layout::PayPalOld => Source::PayPal,
            Layout::N26Old | Layout::N26 => Source::N26,
            Layout::DkbOld | Layout::Dkb => Source::DKB,
        }
    }
}

/// The layout whose first columns are those of `header`, if there is one.
pub open spec fn layout_of(header: Seq<Seq<char>>) -> Option<Layout> {
    let first = first_columns(header);
    if first == Layout::PayPal.fingerprint() {
        Some(Layout::PayPal)
    } else if first == Layout::PayPalOld.fingerprint() {
        Some(Layout::PayPalOld)
    } else if first == Layout::N26Old.fingerprint() {
        Some(Layout::N26Old)
    } else if first == Layout::N26.fingerprint() {
        Some(Layout::N26)
    } else if first == Layout::DkbOld.fingerprint() {
        Some(Layout::DkbOld)
    } else if first == Layout::Dkb.fingerprint() {
        Some(Layout::Dkb)
    } else {
        None
    }
}

/// A header that starts with the columns of a layout is matched to that
/// layout and to no other; a header that starts with the columns of none has
/// no layout.
pub proof fn lemma_layout_by_fingerprint(header: Seq<Seq<char>>)
    ensures
        forall|layout: Layout|
            first_columns(header) == #[trigger] layout.fingerprint() <==> layout_of(header) == Some(
                layout,
            ),
        layout_of(header) is None <==> forall|layout: Layout|
            first_columns(header) != #[trigger] layout.fingerprint(),
{
    reveal_strlit("Date");
    reveal_strlit("Booking Date");
    reveal_strlit("Buchungstag");
    reveal_strlit("Buchungsdatum");
    reveal_strlit("Time");
    reveal_strlit("Payee");
    reveal_strlit("TimeZone");
    reveal_strlit("Time Zone");
    let first = first_columns(header);
    assert forall|layout: Layout|
        first == #[trigger] layout.fingerprint() <==> layout_of(header) == Some(layout) by {
        if first == layout.fingerprint() {
            assert(first[0] == layout.fingerprint()[0]);
            assert(first[1] == layout.fingerprint()[1]);
            assert(first[2] == layout.fingerprint()[2]);
            assert(Layout::PayPal.fingerprint()[2].len() == 8);
            assert(Layout::PayPalOld.fingerprint()[2].len() == 9);
            assert(Layout::PayPal.fingerprint()[1].len() == 4);
            assert(Layout::PayPalOld.fingerprint()[1].len() == 4);
            assert(Layout::N26Old.fingerprint()[1].len() == 5);
            assert(Layout::PayPal.fingerprint()[0].len() == 4);
            assert(Layout::PayPalOld.fingerprint()[0].len() == 4);
            assert(Layout::N26Old.fingerprint()[0].len() == 4);
            assert(Layout::N26.fingerprint()[0].len() == 12);
            assert(Layout::DkbOld.fingerprint()[0].len() == 11);
            assert(Layout::Dkb.fingerprint()[0].len() == 13);
        }
    }
    if layout_of(header) is None {
        assert forall|layout: Layout| first != #[trigger] layout.fingerprint() by {
            match layout {
                Layout::PayPal => {},
                Layout::PayPalOld => {},
                Layout::N26Old => {},
                Layout::N26 => {},
                Layout::DkbOld => {},
                Layout::Dkb => {},
            }
        }
    } else {
        let found = layout_of(header)->0;
        assert(first == found.fingerprint());
    }
}

fn starts_with_columns(header: &Vec<String>, a: &str, b: &str, c: &str, d: &str, e: &str) -> (r:
    bool)
    ensures
        r == (first_columns(texts(header@)) == seq![a@, b@, c@, d@, e@]),
{
    let ghost first = first_columns(texts(header@));
    let ghost want = seq![a@, b@, c@, d@, e@];
    if header.len() < 5 {
        assert(first.len() != want.len());
        return false;
    }
    assert(first.len() == 5);
    assert(forall|i: int| 0 <= i < 5 ==> first[i] == header@[i]@);
    let r = same_text(header[0].as_str(), a) && same_text(header[1].as_str(), b) && same_text(
        header[2].as_str(),
        c,
    ) && same_text(header[3].as_str(), d) && same_text(header[4].as_str(), e);
    proof {
        if r {
            assert(first =~= want);
        } else {
            assert(first[0] != want[0] || first[1] != want[1] || first[2] != want[2] || first[3]
                != want[3] || first[4] != want[4]);
        }
    }
    r
}

/// Finds the layout of an export by the names of its first columns.
pub fn match_schema(header: &Vec<String>) -> (layout: Option<Layout>)
    ensures
        layout == layout_of(texts(header@)),
{
    if starts_with_columns(header, "Date", "Time", "TimeZone", "Name", "Type") {
        Some(Layout::PayPal)
    } else if starts_with_columns(header, "Date", "Time", "Time Zone", "Description", "Currency") {
        Some(Layout::PayPalOld)
    } else if starts_with_columns(
        header,
        "Date",
        "Payee",
        "Account number",
        "Transaction type",
        "Payment reference",
    ) {
        Some(Layout::N26Old)
    } else if starts_with_columns(
        header,
        "Booking Date",
        "Value Date",
        "Partner Name",
        "Partner Iban",
        "Type",
    ) {
        Some(Layout::N26)
    } else if starts_with_columns(
        header,
        "Buchungstag",
        "Wertstellung",
        "Buchungstext",
        "Auftraggeber / Begünstigter",
        "Verwendungszweck",
    ) {
        Some(Layout::DkbOld)
    } else if starts_with_columns(
        header,
        "Buchungsdatum",
        "Wertstellung",
        "Status",
        "Zahlungspflichtige*r",
        "Zahlungsempfänger*in",
    ) {
        Some(Layout::Dkb)
    } else {
        None
    }
}

} // verus!
