use crate::keyset::{find_or_insert, key_before, key_view, new_key_set, set_keys, Key, KeyView};
use crate::row::{lemma_before_asymmetric, lemma_before_total, lemma_before_transitive};
use crate::row::{CsvOutputRow, RowView};
use sorted_vec::SortedSet;
use vstd::prelude::*;

verus! {

/// Each row comes before all rows after it.
pub open spec fn sorted(rows: Seq<RowView>) -> bool {
    forall|i: int, j: int| 0 <= i < j < rows.len() ==> (#[trigger] rows[i]).before(#[trigger] rows[j])
}

/// One of the rows has the key of `row`.
pub open spec fn holds_key(rows: Seq<RowView>, row: RowView) -> bool {
    exists|i: int| 0 <= i < rows.len() && (#[trigger] rows[i]).same_key(row)
}

/// How many rows at the start of `rows` come before `row`.
pub open spec fn slot(rows: Seq<RowView>, row: RowView) -> int
    decreases rows.len(),
{
    if rows.len() > 0 && rows.first().before(row) {
        1 + slot(rows.drop_first(), row)
    } else {
        0
    }
}

/// `rows` after `row` was merged into it: unchanged where a row with that
/// key is there already, else with `row` at its place in the order.
pub open spec fn merged(rows: Seq<RowView>, row: RowView) -> Seq<RowView> {
    if holds_key(rows, row) {
        rows
    } else {
        rows.insert(slot(rows, row), row)
    }
}

/// `rows` after each row of `more` was merged into it, from first to last.
pub open spec fn merged_all(rows: Seq<RowView>, more: Seq<RowView>) -> Seq<RowView>
    decreases more.len(),
{
    if more.len() == 0 {
        rows
    } else {
        merged(merged_all(rows, more.drop_last()), more.last())
    }
}

/// The views of the rows of a list.
pub open spec fn views(rows: Seq<CsvOutputRow>) -> Seq<RowView> {
    Seq::new(rows.len(), |i: int| rows[i]@)
}

/// Where the first `at` rows come before `row`, the slot of `row` is `at`
/// and the slot it has among the rest.
proof fn lemma_slot_skip(rows: Seq<RowView>, row: RowView, at: int)
    requires
        0 <= at <= rows.len(),
        forall|j: int| 0 <= j < at ==> (#[trigger] rows[j]).before(row),
    ensures
        slot(rows, row) == at + slot(rows.skip(at), row),
    decreases at,
{
    if at == 0 {
        assert(rows.skip(0) =~= rows);
    } else {
        let rest = rows.drop_first();
        assert(rows.first() == rows[0]);
        assert forall|j: int| 0 <= j < at - 1 implies (#[trigger] rest[j]).before(row) by {
            assert(rest[j] == rows[j + 1]);
        }
        lemma_slot_skip(rest, row, at - 1);
        assert(rest.skip(at - 1) =~= rows.skip(at));
    }
}

/// The key of a row.
pub open spec fn key_of(row: RowView) -> KeyView {
    (
        row.date.year,
        row.date.month,
        row.date.day,
        row.currency,
        row.amount,
        row.transaction_type,
        row.payee,
    )
}

/// The keys of the rows of a list.
pub open spec fn keys_of(rows: Seq<RowView>) -> Seq<KeyView> {
    Seq::new(rows.len(), |i: int| key_of(rows[i]))
}

/// Rows stand to each other as their keys do.
pub proof fn lemma_order_by_key(a: RowView, b: RowView)
    ensures
        a.before(b) == key_before(key_of(a), key_of(b)),
        a.same_key(b) == (key_of(a) == key_of(b)),
{
}

fn key_of_row(row: &CsvOutputRow) -> (key: Key)
    ensures
        key_view(key) == key_of(row@),
{
    (
        row.date.year,
        row.date.month,
        row.date.day,
        row.currency.clone(),
        row.amount.clone(),
        row.transaction_type.clone(),
        row.payee.clone(),
    )
}

/// A set of rows in their order, in which no two rows have the same key.
/// The keys stand in a sorted set, which finds the place of each row; the
/// rows stand beside it in the same order.
pub struct RowSet {
    keys: SortedSet<Key>,
    rows: Vec<CsvOutputRow>,
}

impl View for RowSet {
    type V = Seq<RowView>;

    closed spec fn view(&self) -> Seq<RowView> {
        views(self.rows@)
    }
}

impl RowSet {
    #[verifier::type_invariant]
    spec fn in_order(self) -> bool {
        &&& sorted(views(self.rows@))
        &&& set_keys(self.keys) == keys_of(views(self.rows@))
    }

    /// The set without rows.
    pub fn new() -> (set: RowSet)
        ensures
            set@ == Seq::<RowView>::empty(),
    {
        let keys = new_key_set();
        let rows: Vec<CsvOutputRow> = Vec::new();
        assert(views(rows@) =~= Seq::<RowView>::empty());
        assert(keys_of(views(rows@)) =~= Seq::<KeyView>::empty());
        RowSet { keys, rows }
    }

    /// The number of rows.
    pub fn len(&self) -> (n: usize)
        ensures
            n == self@.len(),
    {
        self.rows.len()
    }

    /// The rows, in their order.
    pub fn rows(&self) -> (rows: &Vec<CsvOutputRow>)
        ensures
            views(rows@) == self@,
            sorted(self@),
    {
        proof {
            use_type_invariant(self);
        }
        &self.rows
    }

    /// Merges `row` into the set and says at which place a row with its key
    /// now stands. A row whose key is in the set already leaves the set as
    /// it is.
    pub fn push(&mut self, row: CsvOutputRow) -> (index: usize)
        ensures
            final(self)@ == merged(old(self)@, row@),
            sorted(final(self)@),
            index < final(self)@.len(),
            final(self)@[index as int].same_key(row@),
    {
        proof {
            use_type_invariant(&*self);
        }
        let mut taken = RowSet::new();
        std::mem::swap(self, &mut taken);
        let RowSet { keys, rows } = taken;
        let mut keys = keys;
        let mut rows = rows;
        let ghost before = views(rows@);
        proof {
            assert forall|i: int, j: int| 0 <= i < j < before.len() implies key_before(
                #[trigger] keys_of(before)[i],
                #[trigger] keys_of(before)[j],
            ) by {
                lemma_order_by_key(before[i], before[j]);
            }
        }
        let (index, inserted) = find_or_insert(&mut keys, key_of_row(&row));
        if inserted {
            proof {
                assert forall|j: int| 0 <= j < index implies (#[trigger] before[j]).before(
                    row@,
                ) by {
                    assert(key_before(keys_of(before)[j], key_of(row@)));
                    lemma_order_by_key(before[j], row@);
                }
                assert forall|j: int| index <= j < before.len() implies row@.before(
                    #[trigger] before[j],
                ) by {
                    assert(key_before(key_of(row@), keys_of(before)[j]));
                    lemma_order_by_key(row@, before[j]);
                }
                if index < before.len() {
                    assert(before.skip(index as int).first() == before[index as int]);
                    lemma_before_asymmetric(row@, before[index as int]);
                }
                lemma_not_held(before, row@, index as int);
                lemma_slot_skip(before, row@, index as int);
                lemma_insert_sorted(before, row@, index as int);
            }
            rows.insert(index, row);
            assert(views(rows@) =~= before.insert(index as int, row@));
            assert(keys_of(views(rows@)) =~= keys_of(before).insert(index as int, key_of(row@)));
        } else {
            proof {
                assert(keys_of(before)[index as int] == key_of(row@));
                lemma_order_by_key(before[index as int], row@);
            }
        }
        *self = RowSet { keys, rows };
        index
    }

    /// Merges the rows of `more` into the set, from first to last.
    pub fn extend(&mut self, more: Vec<CsvOutputRow>)
        ensures
            final(self)@ == merged_all(old(self)@, views(more@)),
            sorted(final(self)@),
    {
        proof {
            use_type_invariant(&*self);
        }
        let ghost all = views(more@);
        let ghost start = self@;
        assert(all.take(0) =~= Seq::<RowView>::empty());
        for row in it: more
            invariant
                it.seq() == more@,
                all == views(more@),
                self@ == merged_all(start, all.take(it.index() as int)),
                sorted(self@),
        {
            let ghost k = it.index() as int;
            proof {
                assert(row@ == all[k]);
                assert(all.take(k + 1).drop_last() =~= all.take(k));
                assert(all.take(k + 1).last() == all[k]);
            }
            self.push(row);
        }
        assert(all.take(all.len() as int) =~= all);
    }
}

/// The rows at the start of the list, up to the slot of `row`, come before
/// `row`; the row at the slot, if there is one, does not.
pub proof fn lemma_slot(rows: Seq<RowView>, row: RowView)
    ensures
        0 <= slot(rows, row) <= rows.len(),
        forall|j: int| 0 <= j < slot(rows, row) ==> (#[trigger] rows[j]).before(row),
        slot(rows, row) < rows.len() ==> !rows[slot(rows, row)].before(row),
    decreases rows.len(),
{
    if rows.len() > 0 && rows.first().before(row) {
        let rest = rows.drop_first();
        lemma_slot(rest, row);
        assert forall|j: int| 0 <= j < slot(rows, row) implies (#[trigger] rows[j]).before(
            row,
        ) by {
            if j > 0 {
                assert(rows[j] == rest[j - 1]);
            }
        }
        if slot(rows, row) < rows.len() {
            assert(rows[slot(rows, row)] == rest[slot(rest, row)]);
        }
    }
}

/// Merging a row into a sorted list leaves it sorted, and the list then
/// holds the row's key.
pub proof fn lemma_merged_sorted(rows: Seq<RowView>, row: RowView)
    requires
        sorted(rows),
    ensures
        sorted(merged(rows, row)),
        holds_key(merged(rows, row), row),
{
    if holds_key(rows, row) {
    } else {
        let at = slot(rows, row);
        lemma_slot(rows, row);
        if at < rows.len() {
            lemma_before_total(rows[at], row);
            assert(!rows[at].same_key(row));
        }
        lemma_not_held(rows, row, at);
        lemma_insert_sorted(rows, row, at);
        assert(rows.insert(at, row)[at].same_key(row));
    }
}

/// Merging the same transaction a second time changes nothing: whatever its
/// source and memo say, a row whose key is in the list already leaves the
/// list as it is, and the list holds the key at one place only.
pub proof fn lemma_merge_again(rows: Seq<RowView>, row: RowView, again: RowView)
    requires
        sorted(rows),
        again.same_key(row),
    ensures
        merged(merged(rows, row), again) == merged(rows, row),
        exists|i: int|
            0 <= i < merged(rows, row).len() && (#[trigger] merged(rows, row)[i]).same_key(row)
                && forall|j: int|
                0 <= j < merged(rows, row).len() && (#[trigger] merged(rows, row)[j]).same_key(row)
                    ==> j == i,
{
    lemma_merged_sorted(rows, row);
    let once = merged(rows, row);
    let i = choose|i: int| 0 <= i < once.len() && (#[trigger] once[i]).same_key(row);
    assert(once[i].same_key(again));
    assert forall|j: int| 0 <= j < once.len() && (#[trigger] once[j]).same_key(row) implies j
        == i by {
        lemma_key_once(once, row, i, j);
    }
}

/// A key that a list holds is still held after another row was merged.
pub proof fn lemma_key_stays(rows: Seq<RowView>, row: RowView, key: RowView)
    requires
        holds_key(rows, key),
    ensures
        holds_key(merged(rows, row), key),
{
    if !holds_key(rows, row) {
        lemma_slot(rows, row);
        let at = slot(rows, row);
        let i = choose|i: int| 0 <= i < rows.len() && (#[trigger] rows[i]).same_key(key);
        let out = rows.insert(at, row);
        if i < at {
            assert(out[i].same_key(key));
        } else {
            assert(out[i + 1].same_key(key));
        }
    }
}

/// A key that a list holds is still held after more rows were merged.
pub proof fn lemma_key_stays_all(rows: Seq<RowView>, more: Seq<RowView>, key: RowView)
    requires
        holds_key(rows, key),
    ensures
        holds_key(merged_all(rows, more), key),
    decreases more.len(),
{
    if more.len() > 0 {
        lemma_key_stays_all(rows, more.drop_last(), key);
        lemma_key_stays(merged_all(rows, more.drop_last()), more.last(), key);
    }
}

/// A transaction of one export stands in the list after a second export
/// was merged, whether or not the second holds it too, and the list is
/// still sorted, so that the transaction stands there once.
pub proof fn lemma_across_exports(
    rows: Seq<RowView>,
    first: Seq<RowView>,
    second: Seq<RowView>,
    i: int,
)
    requires
        sorted(rows),
        0 <= i < first.len(),
    ensures
        sorted(merged_all(merged_all(rows, first), second)),
        holds_key(merged_all(merged_all(rows, first), second), first[i]),
{
    lemma_merged_all_sorted(rows, first);
    lemma_merged_all_sorted(merged_all(rows, first), second);
    lemma_merged_keys_held(rows, first, i);
    lemma_key_stays_all(merged_all(rows, first), second, first[i]);
}

/// After rows were merged into a sorted list, the list holds the key of
/// each of them.
pub proof fn lemma_merged_keys_held(rows: Seq<RowView>, more: Seq<RowView>, i: int)
    requires
        sorted(rows),
        0 <= i < more.len(),
    ensures
        holds_key(merged_all(rows, more), more[i]),
    decreases more.len(),
{
    let before = merged_all(rows, more.drop_last());
    lemma_merged_all_sorted(rows, more.drop_last());
    if i == more.len() - 1 {
        lemma_merged_sorted(before, more.last());
    } else {
        assert(more.drop_last()[i] == more[i]);
        lemma_merged_keys_held(rows, more.drop_last(), i);
        lemma_key_stays(before, more.last(), more[i]);
    }
}

/// Merging rows whose keys the list holds already changes nothing.
pub proof fn lemma_merge_held(rows: Seq<RowView>, more: Seq<RowView>)
    requires
        forall|i: int| 0 <= i < more.len() ==> holds_key(rows, #[trigger] more[i]),
    ensures
        merged_all(rows, more) == rows,
    decreases more.len(),
{
    if more.len() > 0 {
        assert forall|i: int| 0 <= i < more.drop_last().len() implies holds_key(
            rows,
            #[trigger] more.drop_last()[i],
        ) by {
            assert(more.drop_last()[i] == more[i]);
        }
        lemma_merge_held(rows, more.drop_last());
        assert(holds_key(rows, more[more.len() - 1]));
    }
}

/// Merging the same rows a second time, as when one export is read twice,
/// changes nothing.
pub proof fn lemma_merge_all_again(rows: Seq<RowView>, more: Seq<RowView>)
    requires
        sorted(rows),
    ensures
        merged_all(merged_all(rows, more), more) == merged_all(rows, more),
{
    let once = merged_all(rows, more);
    assert forall|i: int| 0 <= i < more.len() implies holds_key(once, #[trigger] more[i]) by {
        lemma_merged_keys_held(rows, more, i);
    }
    lemma_merge_held(once, more);
}

/// In a sorted list at most one row has a given key, so a transaction that
/// was merged any number of times stands there once.
pub proof fn lemma_key_once(rows: Seq<RowView>, row: RowView, i: int, j: int)
    requires
        sorted(rows),
        0 <= i < rows.len(),
        0 <= j < rows.len(),
        rows[i].same_key(row),
        rows[j].same_key(row),
    ensures
        i == j,
{
    if i < j {
        lemma_before_asymmetric(rows[i], rows[j]);
    }
    if j < i {
        lemma_before_asymmetric(rows[j], rows[i]);
    }
}

/// In a sorted list a row with an earlier date stands before every row with
/// a later date, whatever the other fields hold.
pub proof fn lemma_dates_ascend(rows: Seq<RowView>, i: int, j: int)
    requires
        sorted(rows),
        0 <= i < rows.len(),
        0 <= j < rows.len(),
        rows[i].date.before(rows[j].date),
    ensures
        i < j,
{
    if j < i {
        assert(rows[j].before(rows[i]));
    }
}

/// Merging rows one after another leaves a sorted list sorted.
pub proof fn lemma_merged_all_sorted(rows: Seq<RowView>, more: Seq<RowView>)
    requires
        sorted(rows),
    ensures
        sorted(merged_all(rows, more)),
    decreases more.len(),
{
    if more.len() > 0 {
        lemma_merged_all_sorted(rows, more.drop_last());
        lemma_merged_sorted(merged_all(rows, more.drop_last()), more.last());
    }
}

/// Where the rows before `at` come before `row` and `row` comes before the
/// row at `at`, no row has the key of `row`.
proof fn lemma_not_held(rows: Seq<RowView>, row: RowView, at: int)
    requires
        sorted(rows),
        0 <= at <= rows.len(),
        forall|j: int| 0 <= j < at ==> (#[trigger] rows[j]).before(row),
        at < rows.len() ==> row.before(rows[at]),
    ensures
        !holds_key(rows, row),
        forall|j: int| at <= j < rows.len() ==> row.before(#[trigger] rows[j]),
{
    assert forall|j: int| at <= j < rows.len() implies row.before(#[trigger] rows[j]) by {
        if j > at {
            lemma_before_transitive(row, rows[at], rows[j]);
        }
    }
    assert forall|j: int| 0 <= j < rows.len() implies !(#[trigger] rows[j]).same_key(row) by {
        lemma_before_asymmetric(rows[j], row);
        lemma_before_asymmetric(row, rows[j]);
    }
}

/// A row put between the rows that come before it and those that come
/// after it leaves the list sorted.
proof fn lemma_insert_sorted(rows: Seq<RowView>, row: RowView, at: int)
    requires
        sorted(rows),
        0 <= at <= rows.len(),
        forall|j: int| 0 <= j < at ==> (#[trigger] rows[j]).before(row),
        forall|j: int| at <= j < rows.len() ==> row.before(#[trigger] rows[j]),
    ensures
        sorted(rows.insert(at, row)),
{
    let out = rows.insert(at, row);
    assert forall|i: int, j: int| 0 <= i < j < out.len() implies (#[trigger] out[i]).before(
        #[trigger] out[j],
    ) by {
        if i < at {
            assert(out[i] == rows[i]);
        } else if i > at {
            assert(out[i] == rows[i - 1]);
        }
        if j < at {
            assert(out[j] == rows[j]);
        } else if j > at {
            assert(out[j] == rows[j - 1]);
        }
    }
}

} // verus!
