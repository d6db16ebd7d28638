use vstd::prelude::*;

verus! {

/// How one value stands to another in an order.
#[derive(Clone, Copy, Debug, PartialEq, Eq, Structural)]
pub enum Rank {
    /// It comes first.
    Less,
    /// Neither comes first.
    Equal,
    /// It comes last.
    Greater,
}

/// `a` and `b` agree on their first `k` characters, and there `a` ends
/// while `b` goes on, or `a` has the smaller character.
pub open spec fn parts_at(a: Seq<char>, b: Seq<char>, k: int) -> bool {
    &&& 0 <= k <= a.len()
    &&& k <= b.len()
    &&& forall|j: int| 0 <= j < k ==> a[j] == b[j]
    &&& k < b.len()
    &&& k < a.len() ==> a[k] < b[k]
}

/// `a` comes before `b` in the order of a dictionary, character by
/// character.
pub open spec fn text_before(a: Seq<char>, b: Seq<char>) -> bool {
    exists|k: int| parts_at(a, b, k)
}

/// No text comes before itself, and of two texts at most one comes before
/// the other.
pub proof fn lemma_text_before_asymmetric(a: Seq<char>, b: Seq<char>)
    ensures
        !(text_before(a, b) && text_before(b, a)),
        text_before(a, b) ==> a != b,
{
    if text_before(a, b) {
        let k = choose|k: int| parts_at(a, b, k);
        if text_before(b, a) {
            let m = choose|m: int| parts_at(b, a, m);
            if k < m {
                assert(b[k] == a[k]);
            } else if m < k {
                assert(a[m] == b[m]);
            }
        }
    }
}

/// The order of texts is transitive.
pub proof fn lemma_text_before_transitive(a: Seq<char>, b: Seq<char>, c: Seq<char>)
    requires
        text_before(a, b),
        text_before(b, c),
    ensures
        text_before(a, c),
{
    let k = choose|k: int| parts_at(a, b, k);
    let m = choose|m: int| parts_at(b, c, m);
    let n = if k <= m {
        k
    } else {
        m
    };
    assert forall|j: int| 0 <= j < n implies a[j] == c[j] by {
        assert(a[j] == b[j]);
        assert(b[j] == c[j]);
    }
    if k < m {
        assert(b[k] == c[k]);
    }
    assert(parts_at(a, c, n));
}

/// Of two different texts one comes before the other.
pub proof fn lemma_text_before_total(a: Seq<char>, b: Seq<char>)
    ensures
        a == b || text_before(a, b) || text_before(b, a),
{
    if a =~= b {
    } else {
        let k = first_difference(a, b, 0);
        lemma_first_difference(a, b, 0);
        if k < a.len() && k < b.len() {
            if a[k] < b[k] {
                assert(parts_at(a, b, k));
            } else {
                assert(parts_at(b, a, k));
            }
        } else if k < b.len() {
            assert(parts_at(a, b, k));
        } else if k < a.len() {
            assert(parts_at(b, a, k));
        } else {
            assert(a =~= b);
        }
    }
}

/// The first position from `from` on at which `a` and `b` differ or one of
/// them ends.
pub open spec fn first_difference(a: Seq<char>, b: Seq<char>, from: int) -> int
    decreases a.len() - from,
{
    if 0 <= from < a.len() && from < b.len() && a[from] == b[from] {
        first_difference(a, b, from + 1)
    } else {
        from
    }
}

/// Up to their first difference two texts agree.
pub proof fn lemma_first_difference(a: Seq<char>, b: Seq<char>, from: int)
    requires
        0 <= from <= a.len(),
        from <= b.len(),
    ensures
        from <= first_difference(a, b, from) <= a.len(),
        first_difference(a, b, from) <= b.len(),
        forall|j: int| from <= j < first_difference(a, b, from) ==> a[j] == b[j],
        first_difference(a, b, from) < a.len() && first_difference(a, b, from) < b.len() ==> a[first_difference(
            a,
            b,
            from,
        )] != b[first_difference(a, b, from)],
    decreases a.len() - from,
{
    if from < a.len() && from < b.len() && a[from] == b[from] {
        lemma_first_difference(a, b, from + 1);
    }
}

/// How `a` stands to `b` in the order of texts.
pub open spec fn text_rank(a: Seq<char>, b: Seq<char>) -> Rank {
    if a == b {
        Rank::Equal
    } else if text_before(a, b) {
        Rank::Less
    } else {
        Rank::Greater
    }
}

/// Compares two texts character by character.
pub fn rank_texts(a: &[char], b: &[char]) -> (r: Rank)
    ensures
        r == text_rank(a@, b@),
{
    let mut i: usize = 0;
    while i < a.len() && i < b.len()
        invariant
            i <= a@.len(),
            i <= b@.len(),
            forall|j: int| 0 <= j < i ==> a@[j] == b@[j],
        decreases a@.len() - i,
    {
        if a[i] < b[i] {
            proof {
                assert(parts_at(a@, b@, i as int));
                lemma_text_before_asymmetric(a@, b@);
            }
            return Rank::Less;
        }
        if a[i] > b[i] {
            proof {
                assert(parts_at(b@, a@, i as int));
                lemma_text_before_asymmetric(a@, b@);
                lemma_text_before_asymmetric(b@, a@);
            }
            return Rank::Greater;
        }
        i = i + 1;
    }
    if i < b.len() {
        proof {
            assert(parts_at(a@, b@, i as int));
            lemma_text_before_asymmetric(a@, b@);
        }
        Rank::Less
    } else if i < a.len() {
        proof {
            assert(parts_at(b@, a@, i as int));
            lemma_text_before_asymmetric(a@, b@);
            lemma_text_before_asymmetric(b@, a@);
        }
        Rank::Greater
    } else {
        assert(a@ =~= b@);
        Rank::Equal
    }
}

} // verus!
