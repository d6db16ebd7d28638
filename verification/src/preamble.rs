use crate::text::{char_lists, chars_of, has_marker, holds_marker, one_marker, text_of};
use encoding_rs::ISO_8859_10;
use vstd::prelude::*;

verus! {

/// The text that a file in the encoding ISO 8859-10 holds. The value is the
/// one that `Encoding::decode` gives for the bytes, with its replacement of
/// bytes that stand for no character.
pub uninterp spec fn latin_decoded(bytes: Seq<u8>) -> Seq<char>;

/// `Encoding::decode` of `encoding_rs`, on `ISO_8859_10`: the text depends
/// on the bytes alone, so it is equated with the name `latin_decoded`. The
/// call needs room for about three bytes for each byte that it reads, and
/// the bound on the length keeps that count within `usize`.
#[verifier::external_body]
pub(crate) fn decode_latin(bytes: &[u8]) -> (text: String)
    requires
        4 * bytes@.len() <= usize::MAX,
    ensures
        text@ == latin_decoded(bytes@),
{
    let (text, _, _) = ISO_8859_10.decode(bytes);
    text.into_owned()
}

/// The texts that mark the line with the names of the columns; the latest
/// first.
pub open spec fn header_markers() -> Seq<Seq<char>> {
    seq!["Verwendungszweck"@]
}

/// How many characters stand before the first line feed of `text`.
pub open spec fn line_length(text: Seq<char>) -> int
    decreases text.len(),
{
    if text.len() == 0 || text.first() == '\n' {
        0
    } else {
        1 + line_length(text.drop_first())
    }
}

/// Where the table starts in `text`: the offset of the first line that
/// holds a header marker, or the length of the text where no line does. A
/// line reaches up to the next line feed, or to the end of the text.
pub open spec fn table_start(text: Seq<char>) -> int
    decreases text.len(),
{
    if text.len() == 0 {
        0
    } else {
        let n = line_length(text);
        if holds_marker(text.take(n), header_markers()) {
            0
        } else if n < 0 || n >= text.len() {
            text.len() as int
        } else {
            n + 1 + table_start(text.skip(n + 1))
        }
    }
}

/// `text` from the line with the names of the columns on, as it stands;
/// empty where no line holds a header marker.
pub open spec fn without_preamble(text: Seq<char>) -> Seq<char> {
    text.skip(table_start(text))
}

/// Where no line feed stands before place `k`, and the text ends there or
/// has a line feed there, the first line has `k` characters.
proof fn lemma_line_length(text: Seq<char>, k: int)
    requires
        0 <= k <= text.len(),
        forall|j: int| 0 <= j < k ==> text[j] != '\n',
        k == text.len() || text[k] == '\n',
    ensures
        line_length(text) == k,
    decreases k,
{
    if k > 0 {
        let rest = text.drop_first();
        assert forall|j: int| 0 <= j < k - 1 implies rest[j] != '\n' by {
            assert(rest[j] == text[j + 1]);
        }
        if k < text.len() {
            assert(rest[k - 1] == text[k]);
        }
        lemma_line_length(rest, k - 1);
    }
}

fn copy_range(v: &[char], from: usize, to: usize) -> (r: Vec<char>)
    requires
        from <= to <= v@.len(),
    ensures
        r@ == v@.subrange(from as int, to as int),
{
    let mut r: Vec<char> = Vec::new();
    let mut i: usize = from;
    while i < to
        invariant
            from <= i <= to <= v@.len(),
            r@ == v@.subrange(from as int, i as int),
        decreases to - i,
    {
        r.push(v[i]);
        assert(r@ =~= v@.subrange(from as int, i + 1));
        i = i + 1;
    }
    r
}

/// The place of the first line feed from `from` on, or the length of the
/// text where none follows.
fn line_end(text: &[char], from: usize) -> (end: usize)
    requires
        from <= text@.len(),
    ensures
        from <= end <= text@.len(),
        line_length(text@.skip(from as int)) == end - from,
{
    let mut i: usize = from;
    while i < text.len() && text[i] != '\n'
        invariant
            from <= i <= text@.len(),
            forall|j: int| from <= j < i ==> text@[j] != '\n',
        decreases text@.len() - i,
    {
        i = i + 1;
    }
    proof {
        let rest = text@.skip(from as int);
        assert forall|j: int| 0 <= j < i - from implies rest[j] != '\n' by {
            assert(rest[j] == text@[from + j]);
        }
        if i < text@.len() {
            assert(rest[i - from] == text@[i as int]);
        }
        lemma_line_length(rest, i - from);
    }
    i
}

/// Finds where the table starts in a text.
pub fn find_table_start(text: &[char]) -> (start: usize)
    ensures
        start == table_start(text@),
        start <= text@.len(),
{
    let markers = one_marker("Verwendungszweck");
    let n: usize = text.len();
    let mut start: usize = 0;
    assert(text@.skip(0) =~= text@);
    while start < n
        invariant
            n == text@.len(),
            start <= n,
            char_lists(markers@) == header_markers(),
            table_start(text@) == start + table_start(text@.skip(start as int)),
        decreases n - start,
    {
        let end = line_end(text, start);
        let line = copy_range(text, start, end);
        let ghost rest = text@.skip(start as int);
        proof {
            assert(rest.take(end - start) =~= text@.subrange(start as int, end as int));
        }
        if has_marker(line.as_slice(), &markers) {
            return start;
        }
        if end >= n {
            return n;
        }
        proof {
            assert(rest.skip(end - start + 1) =~= text@.skip(end + 1));
        }
        start = end + 1;
    }
    start
}

/// Leaves out the lines that stand before the table of a DKB export: the
/// text from the line with the names of the columns on, as it stands.
/// Where no line holds the names, nothing is left.
pub fn strip_preamble(text: &str) -> (out: String)
    ensures
        out@ == without_preamble(text@),
{
    let chars = chars_of(text);
    let start = find_table_start(chars.as_slice());
    let out = text_of(chars.as_slice(), start, chars.len());
    assert(chars@.subrange(start as int, chars@.len() as int) =~= chars@.skip(start as int));
    out
}

/// Decodes a DKB export and leaves out the lines that stand before its
/// table; what follows is kept as it was decoded.
pub fn dkb_edit_file(raw: &[u8]) -> (out: String)
    requires
        4 * raw@.len() <= usize::MAX,
    ensures
        out@ == without_preamble(latin_decoded(raw@)),
{
    let text = decode_latin(raw);
    strip_preamble(text.as_str())
}

} // verus!
