//! The policy of the `users` table.
//!
//! A remote record whose `bn_number` is already held refreshes the name,
//! the role and the initial of the local row and leaves the student
//! number, the major and the credential as they are. One whose `bn_number`
//! is new is inserted without a credential, unless its student number
//! belongs to another user: then the store rejects it.

use vstd::prelude::*;
use crate::reconcile::{
    lawful, lemma_reconcile_keeps_rows, lemma_settle_last, lemma_settle_unnamed, reconcile, settle,
    Policy,
};
use crate::records::{key_fn, Text, UserRow, UserRowView, UserView};

verus! {

/// Some user carries the student number `nim`. An empty student number
/// stands for none and is never known.
pub open spec fn nim_known(users: Seq<UserRowView>, nim: Text) -> bool {
    nim.len() > 0 && exists|i: int| 0 <= i < users.len() && (#[trigger] users[i]).user.nim == nim
}

/// The local row after the remote record `u` has refreshed it.
pub open spec fn refreshed(row: UserRowView, u: UserView) -> UserRowView {
    UserRowView {
        user: UserView { name: u.name, role: u.role, initial: u.initial, ..row.user },
        password: row.password,
    }
}

/// The row that a new user starts with.
pub open spec fn fresh_row(u: UserView) -> UserRowView {
    UserRowView { user: u, password: None }
}

/// How remote users meet the `users` table: `bn_number` names the row, a
/// record refreshes the row it names, and a new user is taken unless the
/// student number is known already.
pub open spec fn user_policy() -> Policy<UserRowView, UserView> {
    Policy {
        key: key_fn::<UserRow>(),
        names: |u: UserView| u.bn_number,
        fresh: |u: UserView| fresh_row(u),
        merge: |row: UserRowView, u: UserView| refreshed(row, u),
        acceptable: |rows: Seq<UserRowView>, u: UserView| !nim_known(rows, u.nim),
    }
}

/// The policy of the users obeys the laws of a policy.
pub proof fn lemma_user_policy_lawful()
    ensures
        lawful(user_policy()),
{
    let p = user_policy();
    assert forall|l: UserRowView, r: UserView| (p.key)(#[trigger] (p.merge)(l, r)) == (p.key)(
        l,
    ) by {}
    assert forall|r: UserView| (p.key)(#[trigger] (p.fresh)(r)) == (p.names)(r) by {}
    assert forall|l: UserRowView, r1: UserView, r2: UserView| #[trigger]
        (p.merge)((p.merge)(l, r1), r2) == (p.merge)(l, r2) by {}
    assert forall|r: UserView| (p.merge)(#[trigger] (p.fresh)(r), r) == (p.fresh)(r) by {}
}

/// A refresh changes neither the identity of a user nor their student
/// number, major or credential.
pub proof fn lemma_settle_keeps_user(row: UserRowView, remote: Seq<UserView>)
    ensures
        settle(user_policy(), row, remote).user.bn_number == row.user.bn_number,
        settle(user_policy(), row, remote).user.nim == row.user.nim,
        settle(user_policy(), row, remote).user.major == row.user.major,
        settle(user_policy(), row, remote).password == row.password,
    decreases remote.len(),
{
    if remote.len() > 0 {
        lemma_settle_keeps_user(row, remote.drop_last());
    }
}

/// Update policy of the users: after a refresh that reached the end of the
/// snapshot, a user who was held before and whom the snapshot names has
/// the name, the role and the initial of the last record that names them,
/// and the student number, the major and the credential held before.
pub proof fn lemma_user_follows_remote(
    local: Seq<UserRowView>,
    remote: Seq<UserView>,
    i: int,
    j: int,
)
    requires
        reconcile(user_policy(), local, remote).1,
        0 <= i < local.len(),
        0 <= j < remote.len(),
        remote[j].bn_number == local[i].user.bn_number,
        forall|k: int|
            j < k < remote.len() ==> (#[trigger] remote[k]).bn_number != local[i].user.bn_number,
    ensures
        i < reconcile(user_policy(), local, remote).0.len(),
        reconcile(user_policy(), local, remote).0[i] == refreshed(local[i], remote[j]),
{
    lemma_user_policy_lawful();
    lemma_reconcile_keeps_rows(user_policy(), local, remote);
    lemma_settle_last(user_policy(), local[i], remote, j);
}

/// A user who was held before and whom the snapshot does not name is left
/// exactly as they were.
pub proof fn lemma_unnamed_user_untouched(local: Seq<UserRowView>, remote: Seq<UserView>, i: int)
    requires
        reconcile(user_policy(), local, remote).1,
        0 <= i < local.len(),
        forall|k: int|
            0 <= k < remote.len() ==> (#[trigger] remote[k]).bn_number != local[i].user.bn_number,
    ensures
        i < reconcile(user_policy(), local, remote).0.len(),
        reconcile(user_policy(), local, remote).0[i] == local[i],
{
    lemma_reconcile_keeps_rows(user_policy(), local, remote);
    lemma_settle_unnamed(user_policy(), local[i], remote);
}

/// However often the snapshot names a user who was held before, a refresh
/// that reached the end has left their student number, major and
/// credential alone.
pub proof fn lemma_refresh_keeps_credentials(local: Seq<UserRowView>, remote: Seq<UserView>, i: int)
    requires
        reconcile(user_policy(), local, remote).1,
        0 <= i < local.len(),
    ensures
        i < reconcile(user_policy(), local, remote).0.len(),
        reconcile(user_policy(), local, remote).0[i].password == local[i].password,
        reconcile(user_policy(), local, remote).0[i].user.nim == local[i].user.nim,
        reconcile(user_policy(), local, remote).0[i].user.major == local[i].user.major,
        reconcile(user_policy(), local, remote).0[i].user.bn_number == local[i].user.bn_number,
{
    lemma_reconcile_keeps_rows(user_policy(), local, remote);
    lemma_settle_keeps_user(local[i], remote);
}

} // verus!
