//! Reconciliation of a table against a remote snapshot.
//!
//! Every catalogue table is refreshed by the same pass. What differs from
//! table to table is the policy: how a remote record names a row, what it
//! makes of the row it names, what row a new record starts as, and whether
//! the store takes a new record. The records are met one by one in the
//! order of the snapshot; the first one that the store rejects ends the
//! pass and leaves the earlier ones applied.

use vstd::prelude::*;
use crate::records::{key_fn, Keyed, Text};
use crate::table::{distinct_keys, has_key, lemma_push_keys};

verus! {

/// How the records of one kind meet the rows of their table.
#[verifier::reject_recursive_types(L)]
#[verifier::reject_recursive_types(R)]
pub struct Policy<L, R> {
    /// The key of a row.
    pub key: spec_fn(L) -> Text,
    /// The key of the row that a record names.
    pub names: spec_fn(R) -> Text,
    /// The row that a record starts as where it names none.
    pub fresh: spec_fn(R) -> L,
    /// What a record makes of the row it names.
    pub merge: spec_fn(L, R) -> L,
    /// Whether the store takes a record that names no row of the table.
    pub acceptable: spec_fn(Seq<L>, R) -> bool,
}

/// What a policy must obey: a record leaves the key of the row it names
/// alone; a fresh row carries the key that its record names; the later of
/// two records that name one row decides what becomes of it; and a record
/// has nothing to add to the row it started.
pub open spec fn lawful<L, R>(p: Policy<L, R>) -> bool {
    &&& forall|l: L, r: R| (p.key)(#[trigger] (p.merge)(l, r)) == (p.key)(l)
    &&& forall|r: R| (p.key)(#[trigger] (p.fresh)(r)) == (p.names)(r)
    &&& forall|l: L, r1: R, r2: R| #[trigger]
        (p.merge)((p.merge)(l, r1), r2) == (p.merge)(l, r2)
    &&& forall|r: R| (p.merge)(#[trigger] (p.fresh)(r), r) == (p.fresh)(r)
}

/// The policy never changes a row that is already held: the first write
/// wins.
pub open spec fn insert_only<L, R>(p: Policy<L, R>) -> bool {
    forall|l: L, r: R| #[trigger] (p.merge)(l, r) == l
}

/// What the record `r` makes of a row: merged if the row is the one that
/// `r` names, untouched otherwise.
pub open spec fn meet<L, R>(p: Policy<L, R>, row: L, r: R) -> L {
    if (p.key)(row) == (p.names)(r) {
        (p.merge)(row, r)
    } else {
        row
    }
}

/// The table after the record `r` has met every row.
pub open spec fn meet_rows<L, R>(p: Policy<L, R>, rows: Seq<L>, r: R) -> Seq<L> {
    rows.map_values(|row: L| meet(p, row, r))
}

/// The table after one remote record has met it, or `None` where the store
/// rejects the record.
pub open spec fn reconcile_one<L, R>(p: Policy<L, R>, rows: Seq<L>, r: R) -> Option<Seq<L>> {
    if has_key(p.key, rows, (p.names)(r)) {
        Some(meet_rows(p, rows, r))
    } else if (p.acceptable)(rows, r) {
        Some(rows.push((p.fresh)(r)))
    } else {
        None
    }
}

/// The table after a pass over `remote`, and whether the pass reached the
/// end of the snapshot.
pub open spec fn reconcile<L, R>(p: Policy<L, R>, local: Seq<L>, remote: Seq<R>) -> (Seq<L>, bool)
    decreases remote.len(),
{
    if remote.len() == 0 {
        (local, true)
    } else {
        let before = reconcile(p, local, remote.drop_last());
        if !before.1 {
            before
        } else {
            match reconcile_one(p, before.0, remote.last()) {
                Some(rows) => (rows, true),
                None => (before.0, false),
            }
        }
    }
}

/// What a whole snapshot makes of one row that is already held.
pub open spec fn settle<L, R>(p: Policy<L, R>, row: L, remote: Seq<R>) -> L
    decreases remote.len(),
{
    if remote.len() == 0 {
        row
    } else {
        meet(p, settle(p, row, remote.drop_last()), remote.last())
    }
}

/// Every key that `remote` names is held by `rows`.
pub open spec fn covers<L, R>(p: Policy<L, R>, rows: Seq<L>, remote: Seq<R>) -> bool {
    forall|j: int| 0 <= j < remote.len() ==> has_key(p.key, rows, (p.names)(#[trigger] remote[j]))
}

/// A pass over the first `n + 1` records is a pass over the first `n`
/// followed by the record at `n`.
pub proof fn lemma_reconcile_next<L, R>(p: Policy<L, R>, local: Seq<L>, remote: Seq<R>, n: int)
    requires
        0 <= n < remote.len(),
    ensures
        reconcile(p, local, remote.take(n + 1)) == ({
            let before = reconcile(p, local, remote.take(n));
            if !before.1 {
                before
            } else {
                match reconcile_one(p, before.0, remote[n]) {
                    Some(rows) => (rows, true),
                    None => (before.0, false),
                }
            }
        }),
{
    assert(remote.take(n + 1).drop_last() =~= remote.take(n));
    assert(remote.take(n + 1).last() == remote[n]);
}

/// Once a record has been rejected, the rest of the snapshot changes nothing.
pub proof fn lemma_reconcile_stops<L, R>(
    p: Policy<L, R>,
    local: Seq<L>,
    remote: Seq<R>,
    n: int,
    m: int,
)
    requires
        0 <= n <= m <= remote.len(),
        !reconcile(p, local, remote.take(n)).1,
    ensures
        reconcile(p, local, remote.take(m)) == reconcile(p, local, remote.take(n)),
    decreases m - n,
{
    if n < m {
        lemma_reconcile_stops(p, local, remote, n, m - 1);
        lemma_reconcile_next(p, local, remote, m - 1);
    }
}

/// A snapshot leaves the key of a row alone.
pub proof fn lemma_settle_keeps_key<L, R>(p: Policy<L, R>, row: L, remote: Seq<R>)
    requires
        lawful(p),
    ensures
        (p.key)(settle(p, row, remote)) == (p.key)(row),
    decreases remote.len(),
{
    if remote.len() > 0 {
        lemma_settle_keeps_key(p, row, remote.drop_last());
    }
}

/// What a record and what the snapshot before it made of a row does not
/// matter to what the record makes of it.
pub proof fn lemma_merge_forgets<L, R>(p: Policy<L, R>, row: L, remote: Seq<R>, r: R)
    requires
        lawful(p),
    ensures
        (p.merge)(settle(p, row, remote), r) == (p.merge)(row, r),
    decreases remote.len(),
{
    if remote.len() > 0 {
        let head = remote.drop_last();
        lemma_merge_forgets(p, row, head, r);
        let before = settle(p, row, head);
        if (p.key)(before) == (p.names)(remote.last()) {
            assert((p.merge)((p.merge)(before, remote.last()), r) == (p.merge)(before, r));
        }
    }
}

/// One record adds its key to the keys of the table and takes none away,
/// and it never shortens the table.
pub proof fn lemma_reconcile_one_keys<L, R>(p: Policy<L, R>, rows: Seq<L>, r: R)
    requires
        lawful(p),
        reconcile_one(p, rows, r) is Some,
    ensures
        has_key(p.key, reconcile_one(p, rows, r)->0, (p.names)(r)),
        forall|k: Text|
            has_key(p.key, rows, k) ==> #[trigger] has_key(p.key, reconcile_one(p, rows, r)->0, k),
        rows.len() <= reconcile_one(p, rows, r)->0.len(),
{
    let next = reconcile_one(p, rows, r)->0;
    if has_key(p.key, rows, (p.names)(r)) {
        assert forall|k: Text| has_key(p.key, rows, k) implies #[trigger] has_key(
            p.key,
            next,
            k,
        ) by {
            let i = choose|i: int| 0 <= i < rows.len() && (p.key)(#[trigger] rows[i]) == k;
            assert(next[i] == meet(p, rows[i], r));
            assert((p.key)(next[i]) == k);
        }
    } else {
        lemma_push_keys(p.key, rows, (p.fresh)(r));
    }
}

/// After a pass that reached the end, every key that the snapshot names is
/// held locally.
pub proof fn lemma_reconcile_covers<L, R>(p: Policy<L, R>, local: Seq<L>, remote: Seq<R>)
    requires
        lawful(p),
        reconcile(p, local, remote).1,
    ensures
        covers(p, reconcile(p, local, remote).0, remote),
    decreases remote.len(),
{
    if remote.len() > 0 {
        let head = remote.drop_last();
        let before = reconcile(p, local, head).0;
        let after = reconcile(p, local, remote).0;
        lemma_reconcile_covers(p, local, head);
        lemma_reconcile_one_keys(p, before, remote.last());
        assert forall|j: int| 0 <= j < remote.len() implies has_key(
            p.key,
            after,
            (p.names)(#[trigger] remote[j]),
        ) by {
            if j < head.len() {
                assert(head[j] == remote[j]);
                assert(has_key(p.key, before, (p.names)(head[j])));
            } else {
                assert(remote[j] == remote.last());
            }
        }
    }
}

/// After a pass that reached the end, the snapshot has nothing left to
/// change in any row.
pub proof fn lemma_reconcile_settled<L, R>(p: Policy<L, R>, local: Seq<L>, remote: Seq<R>)
    requires
        lawful(p),
        reconcile(p, local, remote).1,
    ensures
        forall|i: int|
            0 <= i < reconcile(p, local, remote).0.len() ==> settle(
                p,
                #[trigger] reconcile(p, local, remote).0[i],
                remote,
            ) == reconcile(p, local, remote).0[i],
    decreases remote.len(),
{
    let after = reconcile(p, local, remote).0;
    if remote.len() > 0 {
        let head = remote.drop_last();
        let r = remote.last();
        let before = reconcile(p, local, head).0;
        lemma_reconcile_settled(p, local, head);
        assert forall|i: int| 0 <= i < after.len() implies settle(p, #[trigger] after[i], remote)
            == after[i] by {
            lemma_settle_keeps_key(p, after[i], head);
            lemma_merge_forgets(p, after[i], head, r);
            if has_key(p.key, before, (p.names)(r)) {
                assert(after[i] == meet(p, before[i], r));
                if (p.key)(before[i]) == (p.names)(r) {
                    assert((p.merge)((p.merge)(before[i], r), r) == (p.merge)(before[i], r));
                } else {
                    assert(settle(p, before[i], head) == before[i]);
                }
            } else if i < before.len() {
                assert(after[i] == before[i]);
                assert((p.key)(before[i]) != (p.names)(r));
                assert(settle(p, before[i], head) == before[i]);
            } else {
                assert(after[i] == (p.fresh)(r));
            }
        }
    }
}

/// Where every key that the snapshot names is already held, a pass settles
/// each row and inserts none.
pub proof fn lemma_reconcile_covered<L, R>(p: Policy<L, R>, rows: Seq<L>, remote: Seq<R>)
    requires
        lawful(p),
        covers(p, rows, remote),
    ensures
        reconcile(p, rows, remote) == (rows.map_values(|row: L| settle(p, row, remote)), true),
    decreases remote.len(),
{
    let settled = rows.map_values(|row: L| settle(p, row, remote));
    if remote.len() == 0 {
        assert(settled =~= rows);
    } else {
        let head = remote.drop_last();
        let r = remote.last();
        let before = rows.map_values(|row: L| settle(p, row, head));
        assert forall|j: int| 0 <= j < head.len() implies has_key(
            p.key,
            rows,
            (p.names)(#[trigger] head[j]),
        ) by {
            assert(head[j] == remote[j]);
        }
        lemma_reconcile_covered(p, rows, head);
        assert(remote[remote.len() - 1] == r);
        let i = choose|i: int| 0 <= i < rows.len() && (p.key)(#[trigger] rows[i]) == (p.names)(r);
        lemma_settle_keeps_key(p, rows[i], head);
        assert((p.key)(before[i]) == (p.names)(r));
        assert(meet_rows(p, before, r) =~= settled);
    }
}

/// Reconciling twice against one snapshot gives what reconciling once gave:
/// the same rows in the same order, and the same verdict on the snapshot.
/// This holds also where the first pass was ended by a rejected record.
pub proof fn lemma_reconcile_idempotent<L, R>(p: Policy<L, R>, local: Seq<L>, remote: Seq<R>)
    requires
        lawful(p),
    ensures
        reconcile(p, reconcile(p, local, remote).0, remote) == reconcile(p, local, remote),
    decreases remote.len(),
{
    let once = reconcile(p, local, remote);
    if remote.len() == 0 {
    } else if once.1 {
        lemma_reconcile_covers(p, local, remote);
        lemma_reconcile_settled(p, local, remote);
        lemma_reconcile_covered(p, once.0, remote);
        assert(once.0.map_values(|row: L| settle(p, row, remote)) =~= once.0);
    } else {
        lemma_reconcile_idempotent(p, local, remote.drop_last());
    }
}

/// A pass that reached the end leaves every row it started from in its
/// place, settled by the snapshot.
pub proof fn lemma_reconcile_keeps_rows<L, R>(p: Policy<L, R>, local: Seq<L>, remote: Seq<R>)
    requires
        reconcile(p, local, remote).1,
    ensures
        local.len() <= reconcile(p, local, remote).0.len(),
        forall|i: int|
            0 <= i < local.len() ==> #[trigger] reconcile(p, local, remote).0[i] == settle(
                p,
                local[i],
                remote,
            ),
    decreases remote.len(),
{
    if remote.len() > 0 {
        lemma_reconcile_keeps_rows(p, local, remote.drop_last());
    }
}

/// The last record of a snapshot that names a row decides what becomes of
/// it.
pub proof fn lemma_settle_last<L, R>(p: Policy<L, R>, row: L, remote: Seq<R>, j: int)
    requires
        lawful(p),
        0 <= j < remote.len(),
        (p.names)(remote[j]) == (p.key)(row),
        forall|k: int| j < k < remote.len() ==> (p.names)(#[trigger] remote[k]) != (p.key)(row),
    ensures
        settle(p, row, remote) == (p.merge)(row, remote[j]),
    decreases remote.len(),
{
    let head = remote.drop_last();
    lemma_settle_keeps_key(p, row, head);
    if j < remote.len() - 1 {
        assert(remote.last() == remote[remote.len() - 1]);
        assert(head[j] == remote[j]);
        assert forall|k: int| j < k < head.len() implies (p.names)(#[trigger] head[k]) != (p.key)(
            row,
        ) by {
            assert(head[k] == remote[k]);
        }
        lemma_settle_last(p, row, head, j);
    } else {
        lemma_merge_forgets(p, row, head, remote[j]);
    }
}

/// A snapshot that does not name a row settles it as it is.
pub proof fn lemma_settle_unnamed<L, R>(p: Policy<L, R>, row: L, remote: Seq<R>)
    requires
        forall|k: int| 0 <= k < remote.len() ==> (p.names)(#[trigger] remote[k]) != (p.key)(row),
    ensures
        settle(p, row, remote) == row,
    decreases remote.len(),
{
    if remote.len() > 0 {
        let head = remote.drop_last();
        assert forall|k: int| 0 <= k < head.len() implies (p.names)(#[trigger] head[k]) != (p.key)(
            row,
        ) by {
            assert(head[k] == remote[k]);
        }
        lemma_settle_unnamed(p, row, head);
        assert(remote.last() == remote[remote.len() - 1]);
    }
}

/// Under an insert-only policy a row is settled as it is, whatever the
/// snapshot says of its key.
pub proof fn lemma_settle_insert_only<L, R>(p: Policy<L, R>, row: L, remote: Seq<R>)
    requires
        insert_only(p),
    ensures
        settle(p, row, remote) == row,
    decreases remote.len(),
{
    if remote.len() > 0 {
        lemma_settle_insert_only(p, row, remote.drop_last());
    }
}

/// First write wins: under an insert-only policy a pass only appends. The
/// rows it started from stay where and as they were, also where the pass
/// was ended by a rejected record.
pub proof fn lemma_reconcile_extends<L, R>(p: Policy<L, R>, local: Seq<L>, remote: Seq<R>)
    requires
        insert_only(p),
    ensures
        local.len() <= reconcile(p, local, remote).0.len(),
        reconcile(p, local, remote).0.take(local.len() as int) == local,
    decreases remote.len(),
{
    let after = reconcile(p, local, remote).0;
    if remote.len() == 0 {
        assert(after.take(local.len() as int) =~= local);
    } else {
        lemma_reconcile_extends(p, local, remote.drop_last());
        let before = reconcile(p, local, remote.drop_last()).0;
        assert(before.take(local.len() as int) == local);
        assert(meet_rows(p, before, remote.last()) =~= before);
        assert(after.take(local.len() as int) =~= before.take(local.len() as int));
    }
}

/// The store accepts every row.
pub open spec fn any_row<V>() -> spec_fn(V) -> bool {
    |v: V| true
}

/// The policy of an insert-only table: a record names the row that has
/// its key, leaves that row as it is, and starts as itself where it names
/// none, provided that `acceptable` holds of it.
pub open spec fn insert_policy<T: Keyed>(acceptable: spec_fn(T::V) -> bool) -> Policy<T::V, T::V> {
    Policy {
        key: key_fn::<T>(),
        names: key_fn::<T>(),
        fresh: |r: T::V| r,
        merge: |l: T::V, r: T::V| l,
        acceptable: |rows: Seq<T::V>, r: T::V| acceptable(r),
    }
}

/// An insert-only policy obeys the laws of a policy, and under it the
/// first write wins.
pub proof fn lemma_insert_policy_lawful<T: Keyed>(acceptable: spec_fn(T::V) -> bool)
    ensures
        lawful(insert_policy::<T>(acceptable)),
        insert_only(insert_policy::<T>(acceptable)),
{
    let p = insert_policy::<T>(acceptable);
    assert forall|l: T::V, r: T::V| (p.key)(#[trigger] (p.merge)(l, r)) == (p.key)(l) by {}
    assert forall|r: T::V| (p.key)(#[trigger] (p.fresh)(r)) == (p.names)(r) by {}
    assert forall|l: T::V, r1: T::V, r2: T::V| #[trigger]
        (p.merge)((p.merge)(l, r1), r2) == (p.merge)(l, r2) by {}
    assert forall|r: T::V| (p.merge)(#[trigger] (p.fresh)(r), r) == (p.fresh)(r) by {}
    assert forall|l: T::V, r: T::V| #[trigger] (p.merge)(l, r) == l by {}
}

/// What a pass under an insert-only policy makes of a table: the rows it
/// started from stay where and as they were, every row behind them was
/// accepted, every key that was held is held, and keys that were distinct
/// stay distinct.
pub proof fn lemma_insert_pass<T: Keyed>(
    acceptable: spec_fn(T::V) -> bool,
    local: Seq<T::V>,
    remote: Seq<T::V>,
)
    ensures
        local.len() <= reconcile(insert_policy::<T>(acceptable), local, remote).0.len(),
        reconcile(insert_policy::<T>(acceptable), local, remote).0.take(local.len() as int)
            == local,
        forall|i: int|
            local.len() <= i < reconcile(insert_policy::<T>(acceptable), local, remote).0.len()
                ==> acceptable(
                #[trigger] reconcile(insert_policy::<T>(acceptable), local, remote).0[i],
            ),
        forall|k: Text|
            has_key(key_fn::<T>(), local, k) ==> #[trigger] has_key(
                key_fn::<T>(),
                reconcile(insert_policy::<T>(acceptable), local, remote).0,
                k,
            ),
        distinct_keys(key_fn::<T>(), local) ==> distinct_keys(
            key_fn::<T>(),
            reconcile(insert_policy::<T>(acceptable), local, remote).0,
        ),
    decreases remote.len(),
{
    let p = insert_policy::<T>(acceptable);
    let after = reconcile(p, local, remote).0;
    lemma_insert_policy_lawful::<T>(acceptable);
    lemma_reconcile_extends(p, local, remote);
    assert forall|k: Text| has_key(key_fn::<T>(), local, k) implies #[trigger] has_key(
        key_fn::<T>(),
        after,
        k,
    ) by {
        let i = choose|i: int| 0 <= i < local.len() && key_fn::<T>()(#[trigger] local[i]) == k;
        assert(after.take(local.len() as int)[i] == after[i]);
    }
    if remote.len() > 0 {
        let head = remote.drop_last();
        let before = reconcile(p, local, head).0;
        lemma_insert_pass::<T>(acceptable, local, head);
        assert(meet_rows(p, before, remote.last()) =~= before);
        lemma_push_keys(key_fn::<T>(), before, remote.last());
    }
}

/// Where the store takes every new record, a pass reaches the end of any
/// snapshot.
pub proof fn lemma_reconcile_unrestricted<L, R>(p: Policy<L, R>, local: Seq<L>, remote: Seq<R>)
    requires
        forall|rows: Seq<L>, r: R| #[trigger] (p.acceptable)(rows, r),
    ensures
        reconcile(p, local, remote).1,
    decreases remote.len(),
{
    if remote.len() > 0 {
        lemma_reconcile_unrestricted(p, local, remote.drop_last());
    }
}

} // verus!
