//! Tables as sequences of rows: keys, and the first row that is wanted.

use vstd::prelude::*;
use crate::records::Text;

verus! {

/// Some row of `rows` has the key `k`.
pub open spec fn has_key<V>(key: spec_fn(V) -> Text, rows: Seq<V>, k: Text) -> bool {
    exists|i: int| 0 <= i < rows.len() && key(#[trigger] rows[i]) == k
}

/// No two rows of `rows` share a key.
pub open spec fn distinct_keys<V>(key: spec_fn(V) -> Text, rows: Seq<V>) -> bool {
    forall|i: int, j: int|
        0 <= i < j < rows.len() ==> key(#[trigger] rows[i]) != key(#[trigger] rows[j])
}

/// What appending a row does to the keys of a table.
pub proof fn lemma_push_keys<V>(key: spec_fn(V) -> Text, rows: Seq<V>, r: V)
    ensures
        forall|k: Text|
            #[trigger] has_key(key, rows.push(r), k) <==> (has_key(key, rows, k) || k == key(r)),
        distinct_keys(key, rows) && !has_key(key, rows, key(r)) ==> distinct_keys(
            key,
            rows.push(r),
        ),
{
    let grown = rows.push(r);
    assert forall|k: Text| #[trigger]
        has_key(key, grown, k) <==> (has_key(key, rows, k) || k == key(r)) by {
        if has_key(key, rows, k) {
            let i = choose|i: int| 0 <= i < rows.len() && key(#[trigger] rows[i]) == k;
            assert(grown[i] == rows[i]);
        }
        if k == key(r) {
            assert(grown[rows.len() as int] == r);
        }
        if has_key(key, grown, k) {
            let i = choose|i: int| 0 <= i < grown.len() && key(#[trigger] grown[i]) == k;
            if i < rows.len() {
                assert(grown[i] == rows[i]);
            }
        }
    }
    if distinct_keys(key, rows) && !has_key(key, rows, key(r)) {
        assert forall|i: int, j: int| 0 <= i < j < grown.len() implies key(#[trigger] grown[i])
            != key(#[trigger] grown[j]) by {
            assert(grown[i] == rows[i]);
            if j < rows.len() {
                assert(grown[j] == rows[j]);
            }
        }
    }
}

/// The position of the first row of `rows` that is wanted, if there is
/// one.
pub open spec fn first_where<V>(rows: Seq<V>, wanted: spec_fn(V) -> bool) -> Option<int>
    decreases rows.len(),
{
    if rows.len() == 0 {
        None
    } else {
        match first_where(rows.drop_last(), wanted) {
            Some(i) => Some(i),
            None => if wanted(rows.last()) {
                Some(rows.len() - 1)
            } else {
                None
            },
        }
    }
}

/// A position in a table as contracts count it.
pub open spec fn position(found: Option<usize>) -> Option<int> {
    match found {
        Some(i) => Some(i as int),
        None => None,
    }
}

/// The rows whose key is `k`.
pub open spec fn keyed<V>(key: spec_fn(V) -> Text, k: Text) -> spec_fn(V) -> bool {
    |v: V| key(v) == k
}

/// What the first wanted row is: a row that is wanted, with none before it
/// that is; and where there is none, no row is wanted.
pub proof fn lemma_first_where<V>(rows: Seq<V>, wanted: spec_fn(V) -> bool)
    ensures
        match first_where(rows, wanted) {
            Some(i) => {
                &&& 0 <= i < rows.len()
                &&& wanted(rows[i])
                &&& forall|j: int| 0 <= j < i ==> !wanted(#[trigger] rows[j])
            },
            None => forall|j: int| 0 <= j < rows.len() ==> !wanted(#[trigger] rows[j]),
        },
    decreases rows.len(),
{
    if rows.len() > 0 {
        let head = rows.drop_last();
        lemma_first_where(head, wanted);
        match first_where(head, wanted) {
            Some(i) => {
                assert(head[i] == rows[i]);
                assert forall|j: int| 0 <= j < i implies !wanted(#[trigger] rows[j]) by {
                    assert(head[j] == rows[j]);
                }
            },
            None => {
                assert forall|j: int| 0 <= j < rows.len() - 1 implies !wanted(
                    #[trigger] rows[j],
                ) by {
                    assert(head[j] == rows[j]);
                }
            },
        }
    }
}

/// A wanted row with none before it that is wanted is the first wanted row.
pub proof fn lemma_first_where_found<V>(rows: Seq<V>, wanted: spec_fn(V) -> bool, i: int)
    requires
        0 <= i < rows.len(),
        wanted(rows[i]),
        forall|j: int| 0 <= j < i ==> !wanted(#[trigger] rows[j]),
    ensures
        first_where(rows, wanted) == Some(i),
{
    lemma_first_where(rows, wanted);
    match first_where(rows, wanted) {
        Some(k) => {
            if k < i {
                assert(!wanted(rows[k]));
            }
        },
        None => {
            assert(!wanted(rows[i]));
        },
    }
}

/// Where no row is wanted there is no first wanted row.
pub proof fn lemma_first_where_missing<V>(rows: Seq<V>, wanted: spec_fn(V) -> bool)
    requires
        forall|j: int| 0 <= j < rows.len() ==> !wanted(#[trigger] rows[j]),
    ensures
        first_where(rows, wanted) is None,
{
    lemma_first_where(rows, wanted);
}

} // verus!
