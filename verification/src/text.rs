use vstd::prelude::*;

verus! {

broadcast use vstd::string::group_string_axioms;

/// What `char::is_whitespace` gives for `c`.
pub uninterp spec fn is_whitespace(c: char) -> bool;

/// What `str::to_uppercase` gives for a text.
pub uninterp spec fn uppercased(s: Seq<char>) -> Seq<char>;

/// Whether `c` is one of the first 128 characters.
pub open spec fn ascii(c: char) -> bool {
    c <= '\u{7f}'
}

/// Whether every character of `s` is one of the first 128.
pub open spec fn all_ascii(s: Seq<char>) -> bool {
    forall|i: int| 0 <= i < s.len() ==> ascii(#[trigger] s[i])
}

/// Whether `c` counts as white space. Of the first 128 characters these
/// are the space and the five from the tab to the carriage return; of the
/// others, those that `char::is_whitespace` takes for white space.
pub open spec fn white_space(c: char) -> bool {
    if ascii(c) {
        c == ' ' || ('\t' <= c && c <= '\r')
    } else {
        is_whitespace(c)
    }
}

/// The capital of a small letter from `a` to `z`; any other character
/// itself.
pub open spec fn capital(c: char) -> char {
    if 'a' <= c && c <= 'z' {
        ((c as int) - 32) as char
    } else {
        c
    }
}

/// `s` with each small letter from `a` to `z` replaced by its capital.
pub open spec fn capitals(s: Seq<char>) -> Seq<char> {
    Seq::new(s.len(), |i: int| capital(s[i]))
}

/// The upper-case form of a text. A text of the first 128 characters has
/// its small letters replaced by capitals and nothing else changed; any
/// other text has the form that `str::to_uppercase` gives it.
pub open spec fn upper(s: Seq<char>) -> Seq<char> {
    if all_ascii(s) {
        capitals(s)
    } else {
        uppercased(s)
    }
}

/// `char::is_whitespace`: the answer depends on the character alone, so it
/// is equated with the name `is_whitespace`. Beyond that the contract
/// states the part of Unicode's white space that lies in the first 128
/// characters: the space and U+0009 to U+000D, and no other of them.
pub assume_specification[ char::is_whitespace ](c: char) -> (b: bool)
    ensures
        b == is_whitespace(c),
        b == white_space(c),
;

/// `String::push`: the character is appended at the end of the string.
pub assume_specification[ String::push ](s: &mut String, c: char)
    ensures
        final(s)@ == old(s)@.push(c),
;

/// `str::to_uppercase`: the result depends on the characters of `s` alone,
/// so it is equated with the name `uppercased`. Beyond that the contract
/// states what Unicode's upper case is on the first 128 characters: the
/// letters `a` to `z` become `A` to `Z`, each other character stays, and
/// none becomes more than one.
#[verifier::external_body]
pub(crate) fn to_upper(s: &str) -> (r: String)
    ensures
        r@ == uppercased(s@),
        r@ == upper(s@),
{
    s.to_uppercase()
}

/// Capitals are no small letters, so taking capitals twice is taking them
/// once; and a text of the first 128 characters stays one.
pub proof fn lemma_capitals(s: Seq<char>)
    ensures
        capitals(capitals(s)) == capitals(s),
        all_ascii(s) ==> all_ascii(capitals(s)),
        all_ascii(s) ==> upper(capitals(s)) == upper(s),
{
    assert forall|i: int| 0 <= i < s.len() implies capital(capital(s[i])) == capital(s[i]) by {
        let c = s[i];
        if 'a' <= c && c <= 'z' {
            assert(97 <= c as int <= 122);
            assert((((c as int) - 32) as char) as int == (c as int) - 32);
        }
    }
    assert(capitals(capitals(s)) =~= capitals(s));
    if all_ascii(s) {
        assert forall|i: int| 0 <= i < s.len() implies ascii(#[trigger] capitals(s)[i]) by {
            let c = s[i];
            assert(ascii(c));
            if 'a' <= c && c <= 'z' {
                assert(97 <= c as int <= 122);
                assert((((c as int) - 32) as char) as int == (c as int) - 32);
            }
        }
    }
}

/// The characters of `s`, in order.
pub(crate) fn chars_of(s: &str) -> (v: Vec<char>)
    ensures
        v@ == s@,
{
    let mut v: Vec<char> = Vec::new();
    for c in it: s.chars()
        invariant
            it.seq() == s@,
            v@ == it.seq().take(it.index()),
    {
        v.push(c);
    }
    v
}

/// The string made of the characters `v[from..to]`.
pub(crate) fn text_of(v: &[char], from: usize, to: usize) -> (s: String)
    requires
        from <= to <= v@.len(),
    ensures
        s@ == v@.subrange(from as int, to as int),
{
    let mut s = String::new();
    let mut i: usize = from;
    while i < to
        invariant
            from <= i <= to <= v@.len(),
            s@ == v@.subrange(from as int, i as int),
        decreases to - i,
    {
        s.push(v[i]);
        i = i + 1;
    }
    s
}

/// `needle` stands in `hay` at position `at`.
pub open spec fn occurs_at(hay: Seq<char>, needle: Seq<char>, at: int) -> bool {
    &&& 0 <= at
    &&& at + needle.len() <= hay.len()
    &&& hay.subrange(at, at + needle.len()) == needle
}

/// `needle` stands somewhere in `hay`.
pub open spec fn contains_text(hay: Seq<char>, needle: Seq<char>) -> bool {
    exists|at: int| occurs_at(hay, needle, at)
}

/// One of `markers` stands in `line`.
pub open spec fn holds_marker(line: Seq<char>, markers: Seq<Seq<char>>) -> bool {
    exists|k: int| 0 <= k < markers.len() && contains_text(line, #[trigger] markers[k])
}

/// The characters of each list of a list.
pub open spec fn char_lists(lists: Seq<Vec<char>>) -> Seq<Seq<char>> {
    Seq::new(lists.len(), |i: int| lists[i]@)
}

/// `at` is the leftmost position of `needle` in `hay`.
pub open spec fn is_first_occurrence(hay: Seq<char>, needle: Seq<char>, at: int) -> bool {
    &&& occurs_at(hay, needle, at)
    &&& forall|j: int| 0 <= j < at ==> !occurs_at(hay, needle, j)
}

/// The leftmost position of `needle` in `hay`, if it stands there at all.
pub open spec fn first_index(hay: Seq<char>, needle: Seq<char>) -> Option<int> {
    if contains_text(hay, needle) {
        Some(choose|at: int| is_first_occurrence(hay, needle, at))
    } else {
        None
    }
}

/// A leftmost position is the one that `first_index` names.
pub proof fn lemma_first_index(hay: Seq<char>, needle: Seq<char>, at: int)
    requires
        is_first_occurrence(hay, needle, at),
    ensures
        first_index(hay, needle) == Some(at),
{
    assert(occurs_at(hay, needle, at));
    let other = choose|k: int| is_first_occurrence(hay, needle, k);
    assert(is_first_occurrence(hay, needle, other));
    if other < at {
        assert(!occurs_at(hay, needle, other));
    }
    if at < other {
        assert(!occurs_at(hay, needle, at));
    }
}

/// Whether `needle` stands in `hay` at position `at`.
pub(crate) fn matches_at(hay: &[char], needle: &[char], at: usize) -> (b: bool)
    requires
        at + needle@.len() <= hay@.len() <= usize::MAX,
    ensures
        b == occurs_at(hay@, needle@, at as int),
{
    let mut k: usize = 0;
    while k < needle.len()
        invariant
            k <= needle@.len(),
            at + needle@.len() <= hay@.len() <= usize::MAX,
            forall|j: int| 0 <= j < k ==> hay@[at + j] == needle@[j],
        decreases needle@.len() - k,
    {
        if hay[at + k] != needle[k] {
            proof {
                let sub = hay@.subrange(at as int, at + needle@.len());
                assert(sub[k as int] == hay@[at + k]);
            }
            return false;
        }
        k = k + 1;
    }
    assert(hay@.subrange(at as int, at + needle@.len()) =~= needle@);
    true
}

/// The leftmost position of `needle` in `hay`.
pub(crate) fn find_text(hay: &[char], needle: &[char]) -> (r: Option<usize>)
    ensures
        r matches Some(at) ==> first_index(hay@, needle@) == Some(at as int) && is_first_occurrence(
            hay@,
            needle@,
            at as int,
        ),
        r is None ==> first_index(hay@, needle@) is None,
{
    if needle.len() > hay.len() {
        return None;
    }
    let last: usize = hay.len() - needle.len();
    let mut i: usize = 0;
    while i < last
        invariant
            last == hay@.len() - needle@.len(),
            hay@.len() <= usize::MAX,
            i <= last,
            forall|j: int| 0 <= j < i ==> !occurs_at(hay@, needle@, j),
        decreases last - i,
    {
        if matches_at(hay, needle, i) {
            proof {
                lemma_first_index(hay@, needle@, i as int);
            }
            return Some(i);
        }
        i = i + 1;
    }
    if matches_at(hay, needle, last) {
        proof {
            lemma_first_index(hay@, needle@, last as int);
        }
        Some(last)
    } else {
        None
    }
}

/// Whether `needle` stands somewhere in `hay`.
pub(crate) fn has_text(hay: &[char], needle: &[char]) -> (b: bool)
    ensures
        b == contains_text(hay@, needle@),
{
    find_text(hay, needle).is_some()
}

/// `s` without the white space at its start.
pub open spec fn trimmed_start(s: Seq<char>) -> Seq<char>
    decreases s.len(),
{
    if s.len() > 0 && white_space(s.first()) {
        trimmed_start(s.drop_first())
    } else {
        s
    }
}

/// `s` without the white space at its end.
pub open spec fn trimmed_end(s: Seq<char>) -> Seq<char>
    decreases s.len(),
{
    if s.len() > 0 && white_space(s.last()) {
        trimmed_end(s.drop_last())
    } else {
        s
    }
}

/// `s` without the white space at either end.
pub open spec fn trimmed(s: Seq<char>) -> Seq<char> {
    trimmed_end(trimmed_start(s))
}

/// The bounds of `v[from..to]` once the white space at either end is left
/// out.
pub(crate) fn trim_bounds(v: &[char], from: usize, to: usize) -> (r: (usize, usize))
    requires
        from <= to <= v@.len(),
    ensures
        from <= r.0 <= r.1 <= to,
        v@.subrange(r.0 as int, r.1 as int) == trimmed(v@.subrange(from as int, to as int)),
{
    let mut a: usize = from;
    while a < to && v[a].is_whitespace()
        invariant
            from <= a <= to <= v@.len(),
            trimmed_start(v@.subrange(from as int, to as int)) == trimmed_start(
                v@.subrange(a as int, to as int),
            ),
        decreases to - a,
    {
        proof {
            let cur = v@.subrange(a as int, to as int);
            assert(cur.first() == v@[a as int]);
            assert(cur.drop_first() =~= v@.subrange(a + 1, to as int));
        }
        a = a + 1;
    }
    proof {
        let cur = v@.subrange(a as int, to as int);
        if a < to {
            assert(cur.first() == v@[a as int]);
        }
        assert(trimmed_start(cur) == cur);
    }
    let mut b: usize = to;
    while b > a && v[b - 1].is_whitespace()
        invariant
            a <= b <= to <= v@.len(),
            trimmed_end(v@.subrange(a as int, to as int)) == trimmed_end(
                v@.subrange(a as int, b as int),
            ),
        decreases b - a,
    {
        proof {
            let cur = v@.subrange(a as int, b as int);
            assert(cur.last() == v@[b - 1]);
            assert(cur.drop_last() =~= v@.subrange(a as int, b - 1));
        }
        b = b - 1;
    }
    proof {
        let cur = v@.subrange(a as int, b as int);
        if a < b {
            assert(cur.last() == v@[b - 1]);
        }
        assert(trimmed_end(cur) == cur);
    }
    (a, b)
}

/// `s` with one double quote taken from its start, if it starts with one,
/// and one from the end of what is left, if that ends with one. Where
/// nothing is taken from the end, `s` stays as it is, its first character
/// included.
pub open spec fn stripped_quotes(s: Seq<char>) -> Seq<char> {
    let inner = if s.len() > 0 && s.first() == '"' {
        s.drop_first()
    } else {
        s
    };
    if inner.len() > 0 && inner.last() == '"' {
        inner.drop_last()
    } else {
        s
    }
}

/// Takes one layer of double quotes from around a field.
pub fn strip_quotes(s: String) -> (r: String)
    ensures
        r@ == stripped_quotes(s@),
{
    let v = chars_of(s.as_str());
    let n: usize = v.len();
    let from: usize = if n > 0 && v[0] == '"' {
        1
    } else {
        0
    };
    if n > from && v[n - 1] == '"' {
        proof {
            let inner = v@.subrange(from as int, n as int);
            assert(inner =~= if from == 1 {
                s@.drop_first()
            } else {
                s@
            });
            assert(inner.drop_last() =~= v@.subrange(from as int, n - 1));
        }
        text_of(v.as_slice(), from, n - 1)
    } else {
        proof {
            let inner = v@.subrange(from as int, n as int);
            assert(inner =~= if from == 1 {
                s@.drop_first()
            } else {
                s@
            });
        }
        s
    }
}

/// `s` with every full stop replaced by a comma.
pub open spec fn with_commas(s: Seq<char>) -> Seq<char> {
    Seq::new(
        s.len(),
        |i: int|
            if s[i] == '.' {
                ','
            } else {
                s[i]
            },
    )
}

/// Writes a comma wherever `s` has a full stop.
pub(crate) fn dots_to_commas(s: &str) -> (r: String)
    ensures
        r@ == with_commas(s@),
{
    let v = chars_of(s);
    let mut r = String::new();
    let mut i: usize = 0;
    while i < v.len()
        invariant
            i <= v@.len(),
            v@ == s@,
            r@ == with_commas(s@).take(i as int),
        decreases v@.len() - i,
    {
        let c = v[i];
        if c == '.' {
            r.push(',');
        } else {
            r.push(c);
        }
        proof {
            assert(with_commas(s@).take(i + 1) =~= with_commas(s@).take(i as int).push(
                with_commas(s@)[i as int],
            ));
        }
        i = i + 1;
    }
    assert(with_commas(s@).take(i as int) =~= with_commas(s@));
    r
}

/// Whether `c` is one of the characters of `s`.
pub(crate) fn has_char(s: &[char], c: char) -> (b: bool)
    ensures
        b == s@.contains(c),
{
    let mut i: usize = 0;
    while i < s.len()
        invariant
            i <= s@.len(),
            forall|j: int| 0 <= j < i ==> s@[j] != c,
        decreases s@.len() - i,
    {
        if s[i] == c {
            return true;
        }
        i = i + 1;
    }
    false
}

/// Whether one of `markers` stands in `line`.
pub(crate) fn has_marker(line: &[char], markers: &Vec<Vec<char>>) -> (b: bool)
    ensures
        b == holds_marker(line@, char_lists(markers@)),
{
    let mut k: usize = 0;
    while k < markers.len()
        invariant
            k <= markers@.len(),
            forall|j: int|
                0 <= j < k ==> !contains_text(line@, #[trigger] char_lists(markers@)[j]),
        decreases markers@.len() - k,
    {
        if has_text(line, markers[k].as_slice()) {
            assert(char_lists(markers@)[k as int] == markers@[k as int]@);
            return true;
        }
        assert(char_lists(markers@)[k as int] == markers@[k as int]@);
        k = k + 1;
    }
    false
}

/// The list that holds `marker` alone.
pub(crate) fn one_marker(marker: &str) -> (list: Vec<Vec<char>>)
    ensures
        char_lists(list@) == seq![marker@],
{
    let mut list: Vec<Vec<char>> = Vec::new();
    list.push(chars_of(marker));
    assert(char_lists(list@) =~= seq![marker@]);
    list
}

/// Whether two texts hold the same characters.
pub(crate) fn same_text(a: &str, b: &str) -> (r: bool)
    ensures
        r == (a@ == b@),
{
    let x = chars_of(a);
    let y = chars_of(b);
    if x.len() != y.len() {
        return false;
    }
    let mut i: usize = 0;
    while i < x.len()
        invariant
            i <= x@.len(),
            x@.len() == y@.len(),
            x@ == a@,
            y@ == b@,
            forall|j: int| 0 <= j < i ==> a@[j] == b@[j],
        decreases x@.len() - i,
    {
        if x[i] != y[i] {
            return false;
        }
        i = i + 1;
    }
    assert(a@ =~= b@);
    true
}

} // verus!
