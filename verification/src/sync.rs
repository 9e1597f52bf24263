//! The sync engine: refreshing the catalogue tables from a remote snapshot.
//!
//! Each table is reconciled on its own by the one pass of `reconcile`,
//! under the policy of its kind. Rooms, subjects and enrollments are
//! insert-only: a key that is already held wins over whatever the remote
//! says later. Users are refreshed in name, role and initial. A pass that
//! fails leaves in place what it had done until then, and the tables
//! refreshed before it stay refreshed: a partial refresh is a visible
//! state, not an error to hide.

use vstd::prelude::*;
use crate::error::ErrorKind;
use crate::reconcile::{
    any_row, insert_policy, lemma_insert_pass, lemma_insert_policy_lawful,
    lemma_reconcile_extends, lemma_reconcile_idempotent, lemma_reconcile_next,
    lemma_reconcile_stops, lemma_reconcile_unrestricted, reconcile,
};
use crate::records::{
    views, Enrollment, EnrollmentView, Room, RoomView, Subject, SubjectView, UserView,
};
use crate::remote::{
    enrollments_of, get_all_enrollment, get_all_room, get_all_subject, get_all_users,
    GetAllEnrollment, GetAllRoom, GetAllSubject, UsersQuery,
};
use crate::store::{resolving, LocalStore, StoreView};
use crate::users::{lemma_user_policy_lawful, user_policy};

verus! {

/// How a pass ended: at the end of the snapshot, or at a record that the
/// store rejected.
pub open spec fn pass_result(complete: bool) -> Result<(), ErrorKind> {
    if complete {
        Ok(())
    } else {
        Err(ErrorKind::ConstraintViolation)
    }
}

/// The store and the result after the users have been refreshed from what
/// was fetched.
pub open spec fn users_step(s: StoreView, fetched: Option<Seq<UserView>>) -> (
    StoreView,
    Result<(), ErrorKind>,
) {
    match fetched {
        Some(remote) => {
            let pass = reconcile(user_policy(), s.users, remote);
            (StoreView { users: pass.0, ..s }, pass_result(pass.1))
        },
        None => (s, Err(ErrorKind::SourceUnavailable)),
    }
}

/// The store and the result after the rooms have been refreshed from what
/// was fetched.
pub open spec fn rooms_step(s: StoreView, fetched: Option<Seq<RoomView>>) -> (
    StoreView,
    Result<(), ErrorKind>,
) {
    match fetched {
        Some(remote) => {
            let pass = reconcile(insert_policy::<Room>(any_row()), s.rooms, remote);
            (StoreView { rooms: pass.0, ..s }, pass_result(pass.1))
        },
        None => (s, Err(ErrorKind::SourceUnavailable)),
    }
}

/// The store and the result after the subjects have been refreshed from
/// what was fetched.
pub open spec fn subjects_step(s: StoreView, fetched: Option<Seq<SubjectView>>) -> (
    StoreView,
    Result<(), ErrorKind>,
) {
    match fetched {
        Some(remote) => {
            let pass = reconcile(insert_policy::<Subject>(any_row()), s.subjects, remote);
            (StoreView { subjects: pass.0, ..s }, pass_result(pass.1))
        },
        None => (s, Err(ErrorKind::SourceUnavailable)),
    }
}

/// The store and the result after the enrollments have been refreshed from
/// what was fetched.
pub open spec fn enrollments_step(s: StoreView, fetched: Option<Seq<EnrollmentView>>) -> (
    StoreView,
    Result<(), ErrorKind>,
) {
    match fetched {
        Some(remote) => {
            let pass = reconcile(
                insert_policy::<Enrollment>(resolving(s.users, s.subjects)),
                s.enrollments,
                remote,
            );
            (StoreView { enrollments: pass.0, ..s }, pass_result(pass.1))
        },
        None => (s, Err(ErrorKind::SourceUnavailable)),
    }
}

/// The users that were fetched, as views.
pub open spec fn fetched_users(response: Option<UsersQuery>) -> Option<Seq<UserView>> {
    match response {
        Some(answer) => Some(views(answer.get_all_user@)),
        None => None,
    }
}

/// The rooms that were fetched, as views.
pub open spec fn fetched_rooms(response: Option<GetAllRoom>) -> Option<Seq<RoomView>> {
    match response {
        Some(answer) => Some(views(answer.get_all_room@)),
        None => None,
    }
}

/// The subjects that were fetched, as views.
pub open spec fn fetched_subjects(response: Option<GetAllSubject>) -> Option<Seq<SubjectView>> {
    match response {
        Some(answer) => Some(views(answer.get_all_subject@)),
        None => None,
    }
}

/// The enrollments that were fetched, as views.
pub open spec fn fetched_enrollments(response: Option<GetAllEnrollment>) -> Option<
    Seq<EnrollmentView>,
> {
    match enrollments_of(response) {
        Some(entries) => Some(views(entries)),
        None => None,
    }
}

/// Refreshes the `users` table from what was fetched.
///
/// A failed fetch gives `SourceUnavailable` and changes nothing. Otherwise
/// each record in turn refreshes the user it names or is inserted as a new
/// user; a new user whose student number another user carries is rejected
/// with `ConstraintViolation`, and the records before it stay applied.
pub fn insert_users(store: &mut LocalStore, response: Option<UsersQuery>) -> (r: Result<
    (),
    ErrorKind,
>)
    requires
        old(store).wf(),
    ensures
        final(store).wf(),
        (final(store)@, r) == users_step(old(store)@, fetched_users(response)),
{
    let remote = match get_all_users(response) {
        Ok(remote) => remote,
        Err(e) => {
            return Err(e);
        },
    };
    let ghost start = store@;
    let ghost snapshot = views(remote@);
    let mut i: usize = 0;
    while i < remote.len()
        invariant
            i <= remote.len(),
            snapshot == views(remote@),
            fetched_users(response) == Some(snapshot),
            start == old(store)@,
            store.wf(),
            store@ == (StoreView { users: store@.users, ..start }),
            reconcile(user_policy(), start.users, snapshot.take(i as int)) == (store@.users, true),
        decreases remote.len() - i,
    {
        let u = &remote[i];
        proof {
            lemma_reconcile_next(user_policy(), start.users, snapshot, i as int);
            assert(snapshot[i as int] == u@);
        }
        match store.find_user(&u.bn_number) {
            Some(at) => {
                store.refresh_user(at, u);
            },
            None => {
                if store.knows_nim(&u.nim) {
                    proof {
                        lemma_reconcile_stops(
                            user_policy(),
                            start.users,
                            snapshot,
                            i as int + 1,
                            snapshot.len() as int,
                        );
                        assert(snapshot.take(snapshot.len() as int) =~= snapshot);
                    }
                    return Err(ErrorKind::ConstraintViolation);
                }
                store.push_user(u.clone());
            },
        }
        i += 1;
    }
    proof {
        assert(snapshot.take(snapshot.len() as int) =~= snapshot);
    }
    Ok(())
}

/// Refreshes the `room` table from what was fetched.
///
/// A failed fetch gives `SourceUnavailable` and changes nothing. Otherwise
/// each record whose room number is new is inserted, and one whose room
/// number is held is ignored, whatever capacity or campus it brings. The
/// local rows stay where and as they were.
pub fn insert_room(store: &mut LocalStore, response: Option<GetAllRoom>) -> (r: Result<
    (),
    ErrorKind,
>)
    requires
        old(store).wf(),
    ensures
        final(store).wf(),
        (final(store)@, r) == rooms_step(old(store)@, fetched_rooms(response)),
        response is Some ==> r is Ok,
        final(store)@.rooms.take(old(store)@.rooms.len() as int) == old(store)@.rooms,
{
    let remote = match get_all_room(response) {
        Ok(remote) => remote,
        Err(e) => {
            return Err(e);
        },
    };
    proof {
        lemma_insert_pass::<Room>(any_row(), store@.rooms, views(remote@));
        lemma_reconcile_unrestricted(
            insert_policy::<Room>(any_row()),
            store@.rooms,
            views(remote@),
        );
    }
    if store.reconcile_rooms(&remote) {
        Ok(())
    } else {
        Err(ErrorKind::ConstraintViolation)
    }
}

/// Refreshes the `subject` table from what was fetched.
///
/// A failed fetch gives `SourceUnavailable` and changes nothing. Otherwise
/// each record whose code is new is inserted, and one whose code is held
/// is ignored, whatever name it brings. The local rows stay where and as
/// they were.
pub fn insert_subject(store: &mut LocalStore, response: Option<GetAllSubject>) -> (r: Result<
    (),
    ErrorKind,
>)
    requires
        old(store).wf(),
    ensures
        final(store).wf(),
        (final(store)@, r) == subjects_step(old(store)@, fetched_subjects(response)),
        response is Some ==> r is Ok,
        final(store)@.subjects.take(old(store)@.subjects.len() as int) == old(store)@.subjects,
{
    let remote = match get_all_subject(response) {
        Ok(remote) => remote,
        Err(e) => {
            return Err(e);
        },
    };
    proof {
        lemma_insert_pass::<Subject>(any_row(), store@.subjects, views(remote@));
        lemma_reconcile_unrestricted(
            insert_policy::<Subject>(any_row()),
            store@.subjects,
            views(remote@),
        );
    }
    if store.reconcile_subjects(&remote) {
        Ok(())
    } else {
        Err(ErrorKind::ConstraintViolation)
    }
}

/// Refreshes the `enrollment` table from what was fetched.
///
/// A failed fetch gives `SourceUnavailable` and changes nothing. Otherwise
/// each record whose class code is new is inserted, provided that its
/// student number and its subject code are held by the store, and one
/// whose class code is held is ignored. The first record with an
/// unresolved reference is rejected with `ConstraintViolation`, and the
/// records before it stay inserted. The local rows stay where and as they
/// were.
pub fn insert_enrollment(store: &mut LocalStore, response: Option<GetAllEnrollment>) -> (r:
    Result<(), ErrorKind>)
    requires
        old(store).wf(),
    ensures
        final(store).wf(),
        (final(store)@, r) == enrollments_step(old(store)@, fetched_enrollments(response)),
        final(store)@.enrollments.take(old(store)@.enrollments.len() as int)
            == old(store)@.enrollments,
{
    let remote = match get_all_enrollment(response) {
        Ok(remote) => remote,
        Err(e) => {
            return Err(e);
        },
    };
    proof {
        lemma_insert_pass::<Enrollment>(resolving(store@.users, store@.subjects), store@.enrollments, views(remote@));
    }
    if store.reconcile_enrollments(&remote) {
        Ok(())
    } else {
        Err(ErrorKind::ConstraintViolation)
    }
}

/// What was fetched of each catalogue table: its records, or nothing where
/// the fetch failed.
pub struct Snapshot {
    pub users: Option<Seq<UserView>>,
    pub rooms: Option<Seq<RoomView>>,
    pub subjects: Option<Seq<SubjectView>>,
    pub enrollments: Option<Seq<EnrollmentView>>,
}

/// The store and the result after a refresh of the whole catalogue: users,
/// rooms and subjects first, enrollments last, since they refer to the
/// others. The first step that fails ends the refresh; the steps before it
/// stay done.
pub open spec fn catalog_refreshed(s: StoreView, fetched: Snapshot) -> (
    StoreView,
    Result<(), ErrorKind>,
) {
    let users = users_step(s, fetched.users);
    if users.1 is Err {
        users
    } else {
        let rooms = rooms_step(users.0, fetched.rooms);
        if rooms.1 is Err {
            rooms
        } else {
            let subjects = subjects_step(rooms.0, fetched.subjects);
            if subjects.1 is Err {
                subjects
            } else {
                enrollments_step(subjects.0, fetched.enrollments)
            }
        }
    }
}

/// Refreshes the whole catalogue from what was fetched, in the order that
/// the references of the enrollments ask for. The first table that cannot
/// be refreshed ends the sequence with its error; the tables refreshed
/// before it are not rolled back.
pub fn refresh_catalog(
    store: &mut LocalStore,
    users: Option<UsersQuery>,
    rooms: Option<GetAllRoom>,
    subjects: Option<GetAllSubject>,
    enrollments: Option<GetAllEnrollment>,
) -> (r: Result<(), ErrorKind>)
    requires
        old(store).wf(),
    ensures
        final(store).wf(),
        (final(store)@, r) == catalog_refreshed(
            old(store)@,
            Snapshot {
                users: fetched_users(users),
                rooms: fetched_rooms(rooms),
                subjects: fetched_subjects(subjects),
                enrollments: fetched_enrollments(enrollments),
            },
        ),
{
    match insert_users(store, users) {
        Ok(()) => {},
        Err(e) => {
            return Err(e);
        },
    }
    match insert_room(store, rooms) {
        Ok(()) => {},
        Err(e) => {
            return Err(e);
        },
    }
    match insert_subject(store, subjects) {
        Ok(()) => {},
        Err(e) => {
            return Err(e);
        },
    }
    insert_enrollment(store, enrollments)
}

/// Rooms and subjects are never rejected: once they have been fetched,
/// their refresh reaches the end of the snapshot.
pub proof fn lemma_rooms_and_subjects_always_pass(
    s: StoreView,
    rooms: Seq<RoomView>,
    subjects: Seq<SubjectView>,
)
    ensures
        rooms_step(s, Some(rooms)).1 is Ok,
        subjects_step(s, Some(subjects)).1 is Ok,
{
    lemma_reconcile_unrestricted(insert_policy::<Room>(any_row()), s.rooms, rooms);
    lemma_reconcile_unrestricted(insert_policy::<Subject>(any_row()), s.subjects, subjects);
}

/// Refreshing the users twice from one snapshot gives what refreshing once
/// gave.
pub proof fn lemma_users_step_idempotent(s: StoreView, fetched: Option<Seq<UserView>>)
    ensures
        users_step(users_step(s, fetched).0, fetched) == users_step(s, fetched),
{
    if let Some(remote) = fetched {
        lemma_user_policy_lawful();
        lemma_reconcile_idempotent(user_policy(), s.users, remote);
    }
}

/// Refreshing the rooms twice from one snapshot gives what refreshing once
/// gave.
pub proof fn lemma_rooms_step_idempotent(s: StoreView, fetched: Option<Seq<RoomView>>)
    ensures
        rooms_step(rooms_step(s, fetched).0, fetched) == rooms_step(s, fetched),
{
    if let Some(remote) = fetched {
        lemma_insert_policy_lawful::<Room>(any_row());
        lemma_reconcile_idempotent(insert_policy::<Room>(any_row()), s.rooms, remote);
    }
}

/// Refreshing the subjects twice from one snapshot gives what refreshing
/// once gave.
pub proof fn lemma_subjects_step_idempotent(s: StoreView, fetched: Option<Seq<SubjectView>>)
    ensures
        subjects_step(subjects_step(s, fetched).0, fetched) == subjects_step(s, fetched),
{
    if let Some(remote) = fetched {
        lemma_insert_policy_lawful::<Subject>(any_row());
        lemma_reconcile_idempotent(insert_policy::<Subject>(any_row()), s.subjects, remote);
    }
}

/// Refreshing the enrollments twice from one snapshot gives what refreshing
/// once gave.
pub proof fn lemma_enrollments_step_idempotent(s: StoreView, fetched: Option<Seq<EnrollmentView>>)
    ensures
        enrollments_step(enrollments_step(s, fetched).0, fetched) == enrollments_step(s, fetched),
{
    if let Some(remote) = fetched {
        lemma_insert_policy_lawful::<Enrollment>(resolving(s.users, s.subjects));
        lemma_reconcile_idempotent(
            insert_policy::<Enrollment>(resolving(s.users, s.subjects)),
            s.enrollments,
            remote,
        );
    }
}

/// Idempotence of the sync engine: a second refresh from an unchanged
/// snapshot leaves every table as the first refresh left it, row for row
/// and in the same order, and ends with the same result. This holds of
/// every store and every snapshot, also where the first refresh failed
/// half way.
pub proof fn lemma_refresh_idempotent(s: StoreView, fetched: Snapshot)
    ensures
        catalog_refreshed(catalog_refreshed(s, fetched).0, fetched) == catalog_refreshed(
            s,
            fetched,
        ),
{
    let once = catalog_refreshed(s, fetched).0;
    let users = users_step(s, fetched.users);
    lemma_users_step_idempotent(s, fetched.users);
    assert(users_step(once, fetched.users) == (once, users.1)) by {
        assert(once.users == users.0.users);
        if let Some(remote) = fetched.users {
            let again = reconcile(user_policy(), once.users, remote);
            assert(StoreView { users: again.0, ..once } == once);
        }
    }
    if users.1 is Ok {
        let rooms = rooms_step(users.0, fetched.rooms);
        lemma_rooms_step_idempotent(users.0, fetched.rooms);
        assert(rooms_step(once, fetched.rooms) == (once, rooms.1)) by {
            assert(once.rooms == rooms.0.rooms);
            if let Some(remote) = fetched.rooms {
                let again = reconcile(insert_policy::<Room>(any_row()), once.rooms, remote);
                assert(StoreView { rooms: again.0, ..once } == once);
            }
        }
        if rooms.1 is Ok {
            let subjects = subjects_step(rooms.0, fetched.subjects);
            lemma_subjects_step_idempotent(rooms.0, fetched.subjects);
            assert(subjects_step(once, fetched.subjects) == (once, subjects.1)) by {
                assert(once.subjects == subjects.0.subjects);
                if let Some(remote) = fetched.subjects {
                    let again = reconcile(insert_policy::<Subject>(any_row()), once.subjects, remote);
                    assert(StoreView { subjects: again.0, ..once } == once);
                }
            }
            if subjects.1 is Ok {
                let enrollments = enrollments_step(subjects.0, fetched.enrollments);
                lemma_enrollments_step_idempotent(subjects.0, fetched.enrollments);
                assert(enrollments_step(once, fetched.enrollments) == (once, enrollments.1)) by {
                    assert(once == enrollments.0);
                    assert(once.users == subjects.0.users);
                    assert(once.subjects == subjects.0.subjects);
                }
            }
        }
    }
}

/// Users, rooms and subjects do not depend on one another: refreshing two
/// of them in either order ends in the same store with the same two
/// results.
pub proof fn lemma_independent_tables(s: StoreView, fetched: Snapshot)
    ensures
        rooms_step(users_step(s, fetched.users).0, fetched.rooms) == (
            users_step(rooms_step(s, fetched.rooms).0, fetched.users).0,
            rooms_step(s, fetched.rooms).1,
        ),
        subjects_step(users_step(s, fetched.users).0, fetched.subjects) == (
            users_step(subjects_step(s, fetched.subjects).0, fetched.users).0,
            subjects_step(s, fetched.subjects).1,
        ),
        subjects_step(rooms_step(s, fetched.rooms).0, fetched.subjects) == (
            rooms_step(subjects_step(s, fetched.subjects).0, fetched.rooms).0,
            subjects_step(s, fetched.subjects).1,
        ),
{
}

/// First write wins: a refresh of an insert-only table leaves the rows it
/// found where and as they were, whatever the snapshot says of their keys.
pub proof fn lemma_first_write_wins(s: StoreView, fetched: Snapshot)
    ensures
        catalog_refreshed(s, fetched).0.rooms.take(s.rooms.len() as int) == s.rooms,
        catalog_refreshed(s, fetched).0.subjects.take(s.subjects.len() as int) == s.subjects,
        catalog_refreshed(s, fetched).0.enrollments.take(s.enrollments.len() as int)
            == s.enrollments,
{
    let users = users_step(s, fetched.users).0;
    assert(s.rooms.take(s.rooms.len() as int) =~= s.rooms);
    assert(s.subjects.take(s.subjects.len() as int) =~= s.subjects);
    assert(s.enrollments.take(s.enrollments.len() as int) =~= s.enrollments);
    if let Some(remote) = fetched.rooms {
        lemma_insert_policy_lawful::<Room>(any_row());
        lemma_reconcile_extends(insert_policy::<Room>(any_row()), s.rooms, remote);
    }
    if let Some(remote) = fetched.subjects {
        lemma_insert_policy_lawful::<Subject>(any_row());
        lemma_reconcile_extends(insert_policy::<Subject>(any_row()), s.subjects, remote);
    }
    let subjects = subjects_step(rooms_step(users, fetched.rooms).0, fetched.subjects).0;
    if let Some(remote) = fetched.enrollments {
        lemma_insert_policy_lawful::<Enrollment>(resolving(subjects.users, subjects.subjects));
        lemma_reconcile_extends(
            insert_policy::<Enrollment>(resolving(subjects.users, subjects.subjects)),
            s.enrollments,
            remote,
        );
    }
}

} // verus!
