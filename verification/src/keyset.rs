use crate::order::text_before;
use sorted_vec::{FindOrInsert, SortedSet};
use vstd::prelude::*;

verus! {

/// The sorted set of the `sorted_vec` crate.
#[verifier::external_type_specification]
#[verifier::external_body]
#[verifier::reject_recursive_types(T)]
pub struct ExSortedSet<T: Ord>(SortedSet<T>);

/// The key of a row as a set holds it: year, month and day, then currency,
/// amount, type and payee.
pub type Key = (i32, u32, u32, String, String, String, String);

/// What a `Key` holds.
pub type KeyView = (i32, u32, u32, Seq<char>, Seq<char>, Seq<char>, Seq<char>);

/// The keys that a set holds, in the order in which it holds them.
pub uninterp spec fn set_keys(set: SortedSet<(i32, u32, u32, String, String, String, String)>) -> Seq<
    (i32, u32, u32, Seq<char>, Seq<char>, Seq<char>, Seq<char>),
>;

/// What `key` holds.
pub open spec fn key_view(key: Key) -> KeyView {
    (key.0, key.1, key.2, key.3@, key.4@, key.5@, key.6@)
}

/// `a` comes before `b`: the first part in which they differ is smaller in
/// `a`, a number by its value and a text in the order of a dictionary.
pub open spec fn key_before(a: KeyView, b: KeyView) -> bool {
    if a.0 != b.0 {
        a.0 < b.0
    } else if a.1 != b.1 {
        a.1 < b.1
    } else if a.2 != b.2 {
        a.2 < b.2
    } else if a.3 != b.3 {
        text_before(a.3, b.3)
    } else if a.4 != b.4 {
        text_before(a.4, b.4)
    } else if a.5 != b.5 {
        text_before(a.5, b.5)
    } else {
        text_before(a.6, b.6)
    }
}

/// Each key comes before all keys after it.
pub open spec fn ascending(keys: Seq<KeyView>) -> bool {
    forall|i: int, j: int|
        0 <= i < j < keys.len() ==> key_before(#[trigger] keys[i], #[trigger] keys[j])
}

/// `SortedSet::new`: the new set holds no key.
#[verifier::external_body]
pub(crate) fn new_key_set() -> (set: SortedSet<Key>)
    ensures
        set_keys(set) == Seq::<KeyView>::empty(),
{
    SortedSet::new()
}

/// `SortedSet::find_or_insert`, on a set whose keys ascend. It looks the
/// key up by binary search, in the order that std gives to tuples, numbers
/// and strings. Where the set holds the key, the set stays as it is and the
/// result is the key's place and `false`. Where it does not, the key is put
/// at the place that keeps the keys ascending, and the result is that place
/// and `true`.
#[verifier::external_body]
pub(crate) fn find_or_insert(set: &mut SortedSet<Key>, key: Key) -> (r: (usize, bool))
    ensures
        ascending(set_keys(*old(set))) ==> if r.1 {
            &&& r.0 <= set_keys(*old(set)).len()
            &&& set_keys(*final(set)) == set_keys(*old(set)).insert(r.0 as int, key_view(key))
            &&& forall|j: int|
                0 <= j < r.0 ==> key_before(#[trigger] set_keys(*old(set))[j], key_view(key))
            &&& forall|j: int|
                r.0 <= j < set_keys(*old(set)).len() ==> key_before(
                    key_view(key),
                    #[trigger] set_keys(*old(set))[j],
                )
        } else {
            &&& r.0 < set_keys(*old(set)).len()
            &&& set_keys(*old(set))[r.0 as int] == key_view(key)
            &&& set_keys(*final(set)) == set_keys(*old(set))
        },
{
    match set.find_or_insert(key) {
        FindOrInsert::Found(at) => (at, false),
        FindOrInsert::Inserted(at) => (at, true),
    }
}

} // verus!
