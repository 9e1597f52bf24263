//! The local store: six tables with their keys and references.
//!
//! The store is the data layer's own picture of the relational tables. A
//! table is a sequence of rows in the order in which they were inserted.
//! Rows are never deleted, and every change keeps the store well formed:
//! primary keys stay distinct and every reference stays resolved. Shifts
//! are set up elsewhere and come in with the tables; nothing here changes
//! them.

use vstd::prelude::*;
use crate::error::ErrorKind;
use crate::records::{
    clone_opt, key_fn, views, Enrollment, EnrollmentView, ExamTransaction,
    ExamTransactionView, Keyed, Room, RoomView, Shift, ShiftView, Subject, SubjectView, Text, User,
    UserRow, UserRowView, UserView,
};
use crate::table::{
    distinct_keys, first_where, has_key, keyed, lemma_first_where_found,
    lemma_first_where_missing, lemma_push_keys, position,
};
use crate::reconcile::{
    any_row, insert_policy, lemma_insert_pass, lemma_reconcile_next, lemma_reconcile_stops,
    meet_rows, reconcile,
};
use crate::users::{fresh_row, nim_known, user_policy};

verus! {

/// The tables as contracts see them.
pub struct StoreView {
    pub users: Seq<UserRowView>,
    pub rooms: Seq<RoomView>,
    pub subjects: Seq<SubjectView>,
    pub shifts: Seq<ShiftView>,
    pub enrollments: Seq<EnrollmentView>,
    pub bookings: Seq<ExamTransactionView>,
}

/// No two users share a student number, empty ones aside.
pub open spec fn distinct_nims(users: Seq<UserRowView>) -> bool {
    forall|i: int, j: int|
        0 <= i < j < users.len() && (#[trigger] users[i]).user.nim.len() > 0 ==> users[i].user.nim
            != (#[trigger] users[j]).user.nim
}

/// Both references of an enrollment resolve.
pub open spec fn enrollment_resolves(
    users: Seq<UserRowView>,
    subjects: Seq<SubjectView>,
    e: EnrollmentView,
) -> bool {
    nim_known(users, e.nim) && has_key(key_fn::<Subject>(), subjects, e.subject_code)
}

/// The store accepts an enrollment whose references resolve.
pub open spec fn resolving(users: Seq<UserRowView>, subjects: Seq<SubjectView>) -> spec_fn(
    EnrollmentView,
) -> bool {
    |e: EnrollmentView| enrollment_resolves(users, subjects, e)
}

/// The store holds the subject, the room and the shift named.
pub open spec fn slot_held(s: StoreView, subject_code: Text, room_number: Text, shift_id: Text) -> bool {
    &&& has_key(key_fn::<Subject>(), s.subjects, subject_code)
    &&& has_key(key_fn::<Room>(), s.rooms, room_number)
    &&& has_key(key_fn::<Shift>(), s.shifts, shift_id)
}

/// The three references of a booking resolve.
pub open spec fn booking_resolves(s: StoreView, b: ExamTransactionView) -> bool {
    slot_held(s, b.subject_code, b.room_number, b.shift_id)
}

/// What holds of the tables at all times.
pub open spec fn store_wf(s: StoreView) -> bool {
    &&& distinct_keys(key_fn::<UserRow>(), s.users)
    &&& distinct_nims(s.users)
    &&& distinct_keys(key_fn::<Room>(), s.rooms)
    &&& distinct_keys(key_fn::<Subject>(), s.subjects)
    &&& distinct_keys(key_fn::<Shift>(), s.shifts)
    &&& distinct_keys(key_fn::<Enrollment>(), s.enrollments)
    &&& distinct_keys(key_fn::<ExamTransaction>(), s.bookings)
    &&& forall|i: int| 0 <= i < s.shifts.len() ==> (#[trigger] s.shifts[i]).shift_id.len() == 1
    &&& forall|i: int|
        0 <= i < s.enrollments.len() ==> enrollment_resolves(
            s.users,
            s.subjects,
            #[trigger] s.enrollments[i],
        )
    &&& forall|i: int| 0 <= i < s.bookings.len() ==> booking_resolves(s, #[trigger] s.bookings[i])
}

/// Every key and every student number that `a` holds, `b` holds too.
pub open spec fn keeps_catalogue(a: StoreView, b: StoreView) -> bool {
    &&& forall|n: Text| #[trigger] nim_known(a.users, n) ==> nim_known(b.users, n)
    &&& forall|k: Text| #[trigger]
        has_key(key_fn::<Subject>(), a.subjects, k) ==> has_key(key_fn::<Subject>(), b.subjects, k)
    &&& forall|k: Text| #[trigger]
        has_key(key_fn::<Room>(), a.rooms, k) ==> has_key(key_fn::<Room>(), b.rooms, k)
    &&& forall|k: Text| #[trigger]
        has_key(key_fn::<Shift>(), a.shifts, k) ==> has_key(key_fn::<Shift>(), b.shifts, k)
}

/// References that resolved keep resolving while the catalogue only grows.
pub proof fn lemma_references_kept(a: StoreView, b: StoreView)
    requires
        store_wf(a),
        keeps_catalogue(a, b),
        b.enrollments == a.enrollments,
        b.bookings == a.bookings,
    ensures
        forall|i: int|
            0 <= i < b.enrollments.len() ==> enrollment_resolves(
                b.users,
                b.subjects,
                #[trigger] b.enrollments[i],
            ),
        forall|i: int| 0 <= i < b.bookings.len() ==> booking_resolves(b, #[trigger] b.bookings[i]),
{
    assert forall|i: int| 0 <= i < b.enrollments.len() implies enrollment_resolves(
        b.users,
        b.subjects,
        #[trigger] b.enrollments[i],
    ) by {
        assert(enrollment_resolves(a.users, a.subjects, a.enrollments[i]));
    }
    assert forall|i: int| 0 <= i < b.bookings.len() implies booking_resolves(
        b,
        #[trigger] b.bookings[i],
    ) by {
        assert(booking_resolves(a, a.bookings[i]));
    }
}

/// The row answers to the sign-in handle `handle`: the handle is its
/// student number or its initial. An empty text stands for a key that is
/// absent, so no row answers to the empty handle.
pub open spec fn answers_to(row: UserRowView, handle: Text) -> bool {
    handle.len() > 0 && (row.user.nim == handle || row.user.initial == Some(handle))
}

/// The rows that answer to the sign-in handle `handle`.
pub open spec fn answering(handle: Text) -> spec_fn(UserRowView) -> bool {
    |row: UserRowView| answers_to(row, handle)
}

/// The users after the credential `password` has been stored for the
/// user whose `bn_number` is given: that user's row takes it, and every
/// other row stays as it is.
pub open spec fn with_credential(users: Seq<UserRowView>, bn_number: Text, password: Text) -> Seq<
    UserRowView,
> {
    users.map_values(
        |row: UserRowView|
            if row.user.bn_number == bn_number {
                UserRowView { password: Some(password), ..row }
            } else {
                row
            },
    )
}

/// The users after the user `bn_number`, if there is one, has been given
/// the role `role`.
pub open spec fn with_role(users: Seq<UserRowView>, bn_number: Text, role: Text) -> Seq<
    UserRowView,
> {
    users.map_values(
        |row: UserRowView|
            if row.user.bn_number == bn_number {
                UserRowView { user: UserView { role: role, ..row.user }, ..row }
            } else {
                row
            },
    )
}

/// Two user tables hold the same people under the same student numbers.
pub open spec fn same_people(a: Seq<UserRowView>, b: Seq<UserRowView>) -> bool {
    &&& a.len() == b.len()
    &&& forall|i: int|
        0 <= i < a.len() ==> (#[trigger] a[i]).user.bn_number == b[i].user.bn_number && a[i].user.nim
            == b[i].user.nim
}

/// Rewriting fields of users other than their keys keeps the store well
/// formed.
pub proof fn lemma_users_rewritten(a: StoreView, users: Seq<UserRowView>)
    requires
        store_wf(a),
        same_people(a.users, users),
    ensures
        store_wf(StoreView { users: users, ..a }),
{
    let b = StoreView { users: users, ..a };
    assert forall|i: int, j: int| 0 <= i < j < users.len() implies key_fn::<UserRow>()(
        #[trigger] users[i],
    ) != key_fn::<UserRow>()(#[trigger] users[j]) by {
        assert(key_fn::<UserRow>()(a.users[i]) != key_fn::<UserRow>()(a.users[j]));
    }
    assert forall|i: int, j: int|
        0 <= i < j < users.len() && (#[trigger] users[i]).user.nim.len() > 0 implies users[i].user.nim
        != (#[trigger] users[j]).user.nim by {
        assert(a.users[i].user.nim != a.users[j].user.nim);
    }
    assert forall|n: Text| #[trigger] nim_known(a.users, n) implies nim_known(users, n) by {
        let i = choose|i: int| 0 <= i < a.users.len() && (#[trigger] a.users[i]).user.nim == n;
        assert(users[i].user.nim == n);
    }
    lemma_references_kept(a, b);
}

/// The store with no rows at all.
pub open spec fn empty_store() -> StoreView {
    StoreView {
        users: Seq::empty(),
        rooms: Seq::empty(),
        subjects: Seq::empty(),
        shifts: Seq::empty(),
        enrollments: Seq::empty(),
        bookings: Seq::empty(),
    }
}

/// The position of the first row of `rows` whose key is `k`.
pub fn find_index<T: Keyed>(rows: &Vec<T>, k: &String) -> (found: Option<usize>)
    ensures
        position(found) == first_where(views(rows@), keyed(key_fn::<T>(), k@)),
        found is Some <==> has_key(key_fn::<T>(), views(rows@), k@),
        found matches Some(i) ==> i < rows.len() && T::key_of(rows[i as int]@) == k@,
{
    let ghost table = views(rows@);
    let ghost wanted = keyed(key_fn::<T>(), k@);
    let mut i: usize = 0;
    while i < rows.len()
        invariant
            i <= rows.len(),
            table == views(rows@),
            wanted == keyed(key_fn::<T>(), k@),
            forall|j: int| 0 <= j < i ==> !wanted(#[trigger] table[j]),
        decreases rows.len() - i,
    {
        if *rows[i].key() == *k {
            proof {
                assert(key_fn::<T>()(table[i as int]) == k@);
                lemma_first_where_found(table, wanted, i as int);
            }
            return Some(i);
        }
        i += 1;
    }
    proof {
        lemma_first_where_missing(table, wanted);
        assert forall|j: int| 0 <= j < table.len() implies key_fn::<T>()(#[trigger] table[j])
            != k@ by {
            assert(!wanted(table[j]));
        }
    }
    None
}

/// Whether no two rows of a table share a key.
pub fn keys_distinct<T: Keyed>(rows: &Vec<T>) -> (distinct: bool)
    ensures
        distinct == distinct_keys(key_fn::<T>(), views(rows@)),
{
    let ghost table = views(rows@);
    let mut j: usize = 0;
    while j < rows.len()
        invariant
            j <= rows.len(),
            table == views(rows@),
            forall|a: int, b: int|
                0 <= a < b < j ==> key_fn::<T>()(#[trigger] table[a]) != key_fn::<T>()(
                    #[trigger] table[b],
                ),
        decreases rows.len() - j,
    {
        let mut i: usize = 0;
        while i < j
            invariant
                i <= j < rows.len(),
                table == views(rows@),
                forall|a: int|
                    0 <= a < i ==> key_fn::<T>()(#[trigger] table[a]) != key_fn::<T>()(
                        table[j as int],
                    ),
            decreases j - i,
        {
            if *rows[i].key() == *rows[j].key() {
                assert(key_fn::<T>()(table[i as int]) == key_fn::<T>()(table[j as int]));
                return false;
            }
            i += 1;
        }
        j += 1;
    }
    true
}

/// Whether no two users share a student number, empty ones aside.
pub fn nims_distinct(users: &Vec<UserRow>) -> (distinct: bool)
    ensures
        distinct == distinct_nims(views(users@)),
{
    let ghost table = views(users@);
    let mut j: usize = 0;
    while j < users.len()
        invariant
            j <= users.len(),
            table == views(users@),
            forall|a: int, b: int|
                0 <= a < b < j && (#[trigger] table[a]).user.nim.len() > 0 ==> table[a].user.nim
                    != (#[trigger] table[b]).user.nim,
        decreases users.len() - j,
    {
        let mut i: usize = 0;
        while i < j
            invariant
                i <= j < users.len(),
                table == views(users@),
                forall|a: int|
                    0 <= a < i && (#[trigger] table[a]).user.nim.len() > 0 ==> table[a].user.nim
                        != table[j as int].user.nim,
            decreases j - i,
        {
            if !users[i].user.nim.as_str().is_empty() && users[i].user.nim == users[j].user.nim {
                assert(table[i as int].user.nim == table[j as int].user.nim);
                return false;
            }
            i += 1;
        }
        j += 1;
    }
    true
}

/// Whether some row of `users` carries the student number `nim`.
pub fn nim_held(users: &Vec<UserRow>, nim: &String) -> (known: bool)
    ensures
        known == nim_known(views(users@), nim@),
{
    if nim.as_str().is_empty() {
        return false;
    }
    let ghost table = views(users@);
    let mut i: usize = 0;
    while i < users.len()
        invariant
            i <= users.len(),
            nim@.len() > 0,
            table == views(users@),
            forall|j: int| 0 <= j < i ==> (#[trigger] table[j]).user.nim != nim@,
        decreases users.len() - i,
    {
        if users[i].user.nim == *nim {
            assert(table[i as int].user.nim == nim@);
            return true;
        }
        assert(table[i as int] == users[i as int]@);
        i += 1;
    }
    false
}

/// The test that a new record must meet before an insert-only table takes
/// it.
pub trait Acceptance<T: Keyed> {
    /// The records that are accepted.
    spec fn accepts(&self) -> spec_fn(T::V) -> bool;

    /// Whether `row` is accepted.
    fn check(&self, row: &T) -> (accepted: bool)
        ensures
            accepted == (self.accepts())(row@),
    ;
}

/// The test of a table without references: every record is accepted.
pub struct Open;

impl<T: Keyed> Acceptance<T> for Open {
    open spec fn accepts(&self) -> spec_fn(T::V) -> bool {
        any_row()
    }

    fn check(&self, row: &T) -> (accepted: bool) {
        true
    }
}

/// The test of the enrollments: a record is accepted if its student
/// number and its subject code are held by the two tables.
pub struct Resolving<'a> {
    pub users: &'a Vec<UserRow>,
    pub subjects: &'a Vec<Subject>,
}

impl<'a> Acceptance<Enrollment> for Resolving<'a> {
    open spec fn accepts(&self) -> spec_fn(EnrollmentView) -> bool {
        resolving(views(self.users@), views(self.subjects@))
    }

    fn check(&self, row: &Enrollment) -> (accepted: bool) {
        nim_held(self.users, &row.nim) && find_index(self.subjects, &row.subject_code).is_some()
    }
}

/// Reconciles an insert-only table against a remote snapshot: each record
/// whose key is new is appended if it is accepted, one whose key is held
/// is skipped, and the first record that is not accepted ends the run with
/// the earlier ones in place. Says whether the end of the snapshot was
/// reached.
pub fn insert_missing<T: Keyed, A: Acceptance<T>>(
    rows: &mut Vec<T>,
    remote: &Vec<T>,
    test: &A,
) -> (complete: bool)
    ensures
        (views(final(rows)@), complete) == reconcile(
            insert_policy::<T>(test.accepts()),
            views(old(rows)@),
            views(remote@),
        ),
{
    let ghost start = views(rows@);
    let ghost snapshot = views(remote@);
    let ghost policy = insert_policy::<T>(test.accepts());
    let mut i: usize = 0;
    while i < remote.len()
        invariant
            i <= remote.len(),
            start == views(old(rows)@),
            snapshot == views(remote@),
            policy == insert_policy::<T>(test.accepts()),
            reconcile(policy, start, snapshot.take(i as int)) == (views(rows@), true),
        decreases remote.len() - i,
    {
        let record = &remote[i];
        let ghost held = views(rows@);
        proof {
            lemma_reconcile_next(policy, start, snapshot, i as int);
            assert(snapshot[i as int] == record@);
            assert(meet_rows(policy, held, record@) =~= held);
        }
        if find_index(rows, record.key()).is_none() {
            if !test.check(record) {
                proof {
                    lemma_reconcile_stops(
                        policy,
                        start,
                        snapshot,
                        i as int + 1,
                        snapshot.len() as int,
                    );
                    assert(snapshot.take(snapshot.len() as int) =~= snapshot);
                }
                return false;
            }
            rows.push(record.copy());
            assert(views(rows@) =~= held.push(record@));
        }
        i += 1;
    }
    proof {
        assert(snapshot.take(snapshot.len() as int) =~= snapshot);
    }
    true
}

/// Stores `password` in every row whose `bn_number` is given.
fn rewrite_credentials(users: &mut Vec<UserRow>, bn_number: &String, password: &String)
    ensures
        views(final(users)@) == with_credential(views(old(users)@), bn_number@, password@),
{
    let ghost before = views(users@);
    let ghost target = with_credential(before, bn_number@, password@);
    let mut i: usize = 0;
    while i < users.len()
        invariant
            i <= users.len(),
            users.len() == before.len(),
            target == with_credential(before, bn_number@, password@),
            forall|j: int| 0 <= j < i ==> (#[trigger] users[j])@ == target[j],
            forall|j: int| i <= j < users.len() ==> (#[trigger] users[j])@ == before[j],
        decreases users.len() - i,
    {
        if users[i].user.bn_number == *bn_number {
            let row = UserRow { user: users[i].user.clone(), password: Some(password.clone()) };
            users.set(i, row);
        }
        i += 1;
    }
    assert(views(users@) =~= target);
}

/// Gives the role `role` to every row whose `bn_number` is given.
fn rewrite_role(users: &mut Vec<UserRow>, bn_number: &String, role: &String)
    ensures
        views(final(users)@) == with_role(views(old(users)@), bn_number@, role@),
{
    let ghost before = views(users@);
    let ghost target = with_role(before, bn_number@, role@);
    let mut i: usize = 0;
    while i < users.len()
        invariant
            i <= users.len(),
            users.len() == before.len(),
            target == with_role(before, bn_number@, role@),
            forall|j: int| 0 <= j < i ==> (#[trigger] users[j])@ == target[j],
            forall|j: int| i <= j < users.len() ==> (#[trigger] users[j])@ == before[j],
        decreases users.len() - i,
    {
        if users[i].user.bn_number == *bn_number {
            let held = &users[i];
            let row = UserRow {
                user: User {
                    bn_number: held.user.bn_number.clone(),
                    nim: held.user.nim.clone(),
                    name: held.user.name.clone(),
                    major: held.user.major.clone(),
                    role: role.clone(),
                    initial: clone_opt(&held.user.initial),
                },
                password: clone_opt(&held.password),
            };
            users.set(i, row);
        }
        i += 1;
    }
    assert(views(users@) =~= target);
}

/// The six tables.
pub struct LocalStore {
    users: Vec<UserRow>,
    rooms: Vec<Room>,
    subjects: Vec<Subject>,
    shifts: Vec<Shift>,
    enrollments: Vec<Enrollment>,
    bookings: Vec<ExamTransaction>,
}

impl View for LocalStore {
    type V = StoreView;

    closed spec fn view(&self) -> StoreView {
        StoreView {
            users: views(self.users@),
            rooms: views(self.rooms@),
            subjects: views(self.subjects@),
            shifts: views(self.shifts@),
            enrollments: views(self.enrollments@),
            bookings: views(self.bookings@),
        }
    }
}

impl LocalStore {
    /// The tables are well formed.
    pub open spec fn wf(&self) -> bool {
        store_wf(self@)
    }

    /// A store whose tables exist and are empty.
    pub fn new() -> (s: Self)
        ensures
            s.wf(),
            s@ == empty_store(),
    {
        let s = LocalStore {
            users: Vec::new(),
            rooms: Vec::new(),
            subjects: Vec::new(),
            shifts: Vec::new(),
            enrollments: Vec::new(),
            bookings: Vec::new(),
        };
        assert(s@.users =~= Seq::empty());
        assert(s@.rooms =~= Seq::empty());
        assert(s@.subjects =~= Seq::empty());
        assert(s@.shifts =~= Seq::empty());
        assert(s@.enrollments =~= Seq::empty());
        assert(s@.bookings =~= Seq::empty());
        s
    }

    /// The position of the room numbered `number`.
    pub fn find_room(&self, number: &String) -> (found: Option<usize>)
        ensures
            position(found) == first_where(self@.rooms, keyed(key_fn::<Room>(), number@)),
            found is Some <==> has_key(key_fn::<Room>(), self@.rooms, number@),
            found matches Some(i) ==> i < self@.rooms.len() && key_fn::<Room>()(
                self@.rooms[i as int],
            ) == number@,
    {
        find_index(&self.rooms, number)
    }

    /// The position of the user whose `bn_number` is given.
    pub fn find_user(&self, bn_number: &String) -> (found: Option<usize>)
        ensures
            position(found) == first_where(self@.users, keyed(key_fn::<UserRow>(), bn_number@)),
            found is Some <==> has_key(key_fn::<UserRow>(), self@.users, bn_number@),
            found matches Some(i) ==> i < self@.users.len() && key_fn::<UserRow>()(
                self@.users[i as int],
            ) == bn_number@,
    {
        find_index(&self.users, bn_number)
    }

    /// The position of the subject whose code is given.
    pub fn find_subject(&self, code: &String) -> (found: Option<usize>)
        ensures
            position(found) == first_where(self@.subjects, keyed(key_fn::<Subject>(), code@)),
            found is Some <==> has_key(key_fn::<Subject>(), self@.subjects, code@),
            found matches Some(i) ==> i < self@.subjects.len() && key_fn::<Subject>()(
                self@.subjects[i as int],
            ) == code@,
    {
        find_index(&self.subjects, code)
    }

    /// The position of the shift whose key is given.
    pub fn find_shift(&self, shift_id: &String) -> (found: Option<usize>)
        ensures
            position(found) == first_where(self@.shifts, keyed(key_fn::<Shift>(), shift_id@)),
            found is Some <==> has_key(key_fn::<Shift>(), self@.shifts, shift_id@),
            found matches Some(i) ==> i < self@.shifts.len() && key_fn::<Shift>()(
                self@.shifts[i as int],
            ) == shift_id@,
    {
        find_index(&self.shifts, shift_id)
    }

    /// The position of the enrollment whose class code is given.
    pub fn find_enrollment(&self, class_code: &String) -> (found: Option<usize>)
        ensures
            position(found) == first_where(self@.enrollments, keyed(key_fn::<Enrollment>(), class_code@)),
            found is Some <==> has_key(key_fn::<Enrollment>(), self@.enrollments, class_code@),
            found matches Some(i) ==> i < self@.enrollments.len() && key_fn::<Enrollment>()(
                self@.enrollments[i as int],
            ) == class_code@,
    {
        find_index(&self.enrollments, class_code)
    }

    /// The position of the booking whose identifier is given.
    pub fn find_booking(&self, transaction_id: &String) -> (found: Option<usize>)
        ensures
            position(found) == first_where(self@.bookings, keyed(key_fn::<ExamTransaction>(), transaction_id@)),
            found is Some <==> has_key(key_fn::<ExamTransaction>(), self@.bookings, transaction_id@),
            found matches Some(i) ==> i < self@.bookings.len() && key_fn::<ExamTransaction>()(
                self@.bookings[i as int],
            ) == transaction_id@,
    {
        find_index(&self.bookings, transaction_id)
    }

    /// Whether some user carries the student number `nim`.
    pub fn knows_nim(&self, nim: &String) -> (known: bool)
        ensures
            known == nim_known(self@.users, nim@),
    {
        nim_held(&self.users, nim)
    }

    /// The position of the first user who answers to the sign-in handle.
    pub fn find_handle(&self, handle: &String) -> (found: Option<usize>)
        ensures
            position(found) == first_where(self@.users, answering(handle@)),
            found matches Some(i) ==> i < self@.users.len(),
    {
        let mut i: usize = 0;
        while i < self.users.len()
            invariant
                i <= self.users.len(),
                forall|j: int| 0 <= j < i ==> !answering(handle@)(#[trigger] self@.users[j]),
            decreases self.users.len() - i,
        {
            assert(self@.users[i as int] == self.users[i as int]@);
            if Self::row_answers(&self.users[i], handle) {
                proof {
                    lemma_first_where_found(self@.users, answering(handle@), i as int);
                }
                return Some(i);
            }
            i += 1;
        }
        proof {
            lemma_first_where_missing(self@.users, answering(handle@));
        }
        None
    }

    fn row_answers(row: &UserRow, handle: &String) -> (b: bool)
        ensures
            b == answers_to(row@, handle@),
    {
        if handle.as_str().is_empty() {
            return false;
        }
        let by_initial = match &row.user.initial {
            Some(initial) => *initial == *handle,
            None => false,
        };
        row.user.nim == *handle || by_initial
    }

    /// The user row at position `i`.
    pub(crate) fn user_row(&self, i: usize) -> (row: &UserRow)
        requires
            i < self@.users.len(),
        ensures
            row@ == self@.users[i as int],
    {
        &self.users[i]
    }

    /// Every row of `users`, in table order.
    pub fn users(&self) -> (rows: Vec<UserRow>)
        ensures
            views(rows@) == self@.users,
    {
        let rows = self.users.clone();
        assert(views(rows@) =~= views(self.users@));
        rows
    }

    /// Every row of `room`, in table order.
    pub fn rooms(&self) -> (rows: Vec<Room>)
        ensures
            views(rows@) == self@.rooms,
    {
        let rows = self.rooms.clone();
        assert(views(rows@) =~= views(self.rooms@));
        rows
    }

    /// Every row of `subject`, in table order.
    pub fn subjects(&self) -> (rows: Vec<Subject>)
        ensures
            views(rows@) == self@.subjects,
    {
        let rows = self.subjects.clone();
        assert(views(rows@) =~= views(self.subjects@));
        rows
    }

    /// Every row of `shift`, in table order.
    pub fn shifts(&self) -> (rows: Vec<Shift>)
        ensures
            views(rows@) == self@.shifts,
    {
        let rows = self.shifts.clone();
        assert(views(rows@) =~= views(self.shifts@));
        rows
    }

    /// Every row of `enrollment`, in table order.
    pub fn enrollments(&self) -> (rows: Vec<Enrollment>)
        ensures
            views(rows@) == self@.enrollments,
    {
        let rows = self.enrollments.clone();
        assert(views(rows@) =~= views(self.enrollments@));
        rows
    }

    /// Every row of `exam_transaction`, in table order.
    pub fn bookings(&self) -> (rows: Vec<ExamTransaction>)
        ensures
            views(rows@) == self@.bookings,
    {
        let rows = self.bookings.clone();
        assert(views(rows@) =~= views(self.bookings@));
        rows
    }

    /// Appends a user whose `bn_number` is new and whose student number no
    /// other user carries. The user starts without a credential.
    pub(crate) fn push_user(&mut self, user: User)
        requires
            old(self).wf(),
            !has_key(key_fn::<UserRow>(), old(self)@.users, user@.bn_number),
            !nim_known(old(self)@.users, user@.nim),
        ensures
            final(self).wf(),
            final(self)@ == (StoreView {
                users: old(self)@.users.push(fresh_row(user@)),
                ..old(self)@
            }),
    {
        let row = UserRow { user: user, password: None };
        self.users.push(row);
        assert(self@.users =~= old(self)@.users.push(row@));
        proof {
            let before = old(self)@.users;
            let after = self@.users;
            lemma_push_keys(key_fn::<UserRow>(), before, row@);
            assert forall|i: int, j: int|
                0 <= i < j < after.len() && (#[trigger] after[i]).user.nim.len() > 0 implies after[i].user.nim
                != (#[trigger] after[j]).user.nim by {
                assert(after[i] == before[i]);
                if j < before.len() {
                    assert(after[j] == before[j]);
                }
            }
            assert forall|n: Text| #[trigger] nim_known(before, n) implies nim_known(after, n) by {
                let i = choose|i: int| 0 <= i < before.len() && (#[trigger] before[i]).user.nim == n;
                assert(after[i].user.nim == n);
            }
            lemma_references_kept(old(self)@, self@);
        }
    }

    /// Refreshes the name, role and initial of the user at position `i`
    /// from the remote record `u` that names it.
    pub(crate) fn refresh_user(&mut self, i: usize, u: &User)
        requires
            old(self).wf(),
            i < old(self)@.users.len(),
            old(self)@.users[i as int].user.bn_number == u@.bn_number,
        ensures
            final(self).wf(),
            final(self)@ == (StoreView {
                users: meet_rows(user_policy(), old(self)@.users, u@),
                ..old(self)@
            }),
    {
        let held = &self.users[i];
        let row = UserRow {
            user: User {
                bn_number: held.user.bn_number.clone(),
                nim: held.user.nim.clone(),
                name: u.name.clone(),
                major: held.user.major.clone(),
                role: u.role.clone(),
                initial: clone_opt(&u.initial),
            },
            password: clone_opt(&held.password),
        };
        self.users.set(i, row);
        proof {
            let before = old(self)@.users;
            let target = meet_rows(user_policy(), before, u@);
            assert forall|j: int| 0 <= j < before.len() implies #[trigger] self@.users[j]
                == target[j] by {
                if j != i {
                    if j < i {
                        assert(key_fn::<UserRow>()(before[j]) != key_fn::<UserRow>()(
                            before[i as int],
                        ));
                    } else {
                        assert(key_fn::<UserRow>()(before[i as int]) != key_fn::<UserRow>()(
                            before[j],
                        ));
                    }
                }
            }
            assert(self@.users =~= target);
            lemma_users_rewritten(old(self)@, target);
        }
    }

    /// Appends a booking whose identifier is new and whose references
    /// resolve.
    pub(crate) fn push_booking(&mut self, booking: ExamTransaction)
        requires
            old(self).wf(),
            !has_key(key_fn::<ExamTransaction>(), old(self)@.bookings, booking@.transaction_id),
            booking_resolves(old(self)@, booking@),
        ensures
            final(self).wf(),
            final(self)@ == (StoreView {
                bookings: old(self)@.bookings.push(booking@),
                ..old(self)@
            }),
    {
        self.bookings.push(booking);
        assert(self@.bookings =~= old(self)@.bookings.push(booking@));
        proof {
            lemma_push_keys(key_fn::<ExamTransaction>(), old(self)@.bookings, booking@);
            assert forall|i: int| 0 <= i < self@.bookings.len() implies booking_resolves(
                self@,
                #[trigger] self@.bookings[i],
            ) by {
                if i < old(self)@.bookings.len() {
                    assert(self@.bookings[i] == old(self)@.bookings[i]);
                    assert(booking_resolves(old(self)@, old(self)@.bookings[i]));
                }
            }
            assert forall|i: int| 0 <= i < self@.enrollments.len() implies enrollment_resolves(
                self@.users,
                self@.subjects,
                #[trigger] self@.enrollments[i],
            ) by {
                assert(enrollment_resolves(
                    old(self)@.users,
                    old(self)@.subjects,
                    old(self)@.enrollments[i],
                ));
            }
        }
    }

    /// Gives the role `role` to the user whose `bn_number` is given. Where
    /// there is no such user, nothing changes.
    pub(crate) fn set_role(&mut self, bn_number: &String, role: &String)
        requires
            old(self).wf(),
        ensures
            final(self).wf(),
            final(self)@ == (StoreView {
                users: with_role(old(self)@.users, bn_number@, role@),
                ..old(self)@
            }),
    {
        rewrite_role(&mut self.users, bn_number, role);
        proof {
            lemma_users_rewritten(old(self)@, self@.users);
        }
    }

    /// Stores `password` for the user whose `bn_number` is given. No other
    /// row is touched, and where there is no such user nothing changes.
    pub(crate) fn set_credential_of(&mut self, bn_number: &String, password: &String)
        requires
            old(self).wf(),
        ensures
            final(self).wf(),
            final(self)@ == (StoreView {
                users: with_credential(old(self)@.users, bn_number@, password@),
                ..old(self)@
            }),
    {
        rewrite_credentials(&mut self.users, bn_number, password);
        proof {
            lemma_users_rewritten(old(self)@, self@.users);
        }
    }

    /// Whether the key of every shift is a single character.
    fn shift_keys_single(&self) -> (single: bool)
        ensures
            single == forall|i: int|
                0 <= i < self@.shifts.len() ==> (#[trigger] self@.shifts[i]).shift_id.len() == 1,
    {
        let mut i: usize = 0;
        while i < self.shifts.len()
            invariant
                i <= self.shifts.len(),
                forall|j: int| 0 <= j < i ==> (#[trigger] self@.shifts[j]).shift_id.len() == 1,
            decreases self.shifts.len() - i,
        {
            if self.shifts[i].shift_id.as_str().unicode_len() != 1 {
                assert(self@.shifts[i as int].shift_id.len() != 1);
                return false;
            }
            assert(self@.shifts[i as int] == self.shifts[i as int]@);
            i += 1;
        }
        true
    }

    /// Whether both references of every enrollment resolve.
    fn enrollments_resolve(&self) -> (resolved: bool)
        ensures
            resolved == forall|i: int|
                0 <= i < self@.enrollments.len() ==> enrollment_resolves(
                    self@.users,
                    self@.subjects,
                    #[trigger] self@.enrollments[i],
                ),
    {
        let mut i: usize = 0;
        while i < self.enrollments.len()
            invariant
                i <= self.enrollments.len(),
                forall|j: int|
                    0 <= j < i ==> enrollment_resolves(
                        self@.users,
                        self@.subjects,
                        #[trigger] self@.enrollments[j],
                    ),
            decreases self.enrollments.len() - i,
        {
            let e = &self.enrollments[i];
            assert(self@.enrollments[i as int] == e@);
            if !self.knows_nim(&e.nim) || self.find_subject(&e.subject_code).is_none() {
                return false;
            }
            i += 1;
        }
        true
    }

    /// Whether the three references of every booking resolve.
    fn bookings_resolve(&self) -> (resolved: bool)
        ensures
            resolved == forall|i: int|
                0 <= i < self@.bookings.len() ==> booking_resolves(
                    self@,
                    #[trigger] self@.bookings[i],
                ),
    {
        let mut i: usize = 0;
        while i < self.bookings.len()
            invariant
                i <= self.bookings.len(),
                forall|j: int|
                    0 <= j < i ==> booking_resolves(self@, #[trigger] self@.bookings[j]),
            decreases self.bookings.len() - i,
        {
            let b = &self.bookings[i];
            assert(self@.bookings[i as int] == b@);
            if self.find_subject(&b.subject_code).is_none() || self.find_room(
                &b.room_number,
            ).is_none() || self.find_shift(&b.shift_id).is_none() {
                return false;
            }
            i += 1;
        }
        true
    }

    /// A store over tables that were kept elsewhere, in the order given. The
    /// tables are taken if together they are well formed; where a key
    /// occurs twice or a reference does not resolve they are rejected.
    pub fn from_tables(
        users: Vec<UserRow>,
        rooms: Vec<Room>,
        subjects: Vec<Subject>,
        shifts: Vec<Shift>,
        enrollments: Vec<Enrollment>,
        bookings: Vec<ExamTransaction>,
    ) -> (r: Result<Self, ErrorKind>)
        ensures
            r is Ok <==> store_wf(
                StoreView {
                    users: views(users@),
                    rooms: views(rooms@),
                    subjects: views(subjects@),
                    shifts: views(shifts@),
                    enrollments: views(enrollments@),
                    bookings: views(bookings@),
                },
            ),
            r matches Ok(store) ==> store@ == (StoreView {
                users: views(users@),
                rooms: views(rooms@),
                subjects: views(subjects@),
                shifts: views(shifts@),
                enrollments: views(enrollments@),
                bookings: views(bookings@),
            }),
            r matches Err(e) ==> e == ErrorKind::ConstraintViolation,
    {
        let store = LocalStore { users, rooms, subjects, shifts, enrollments, bookings };
        if !keys_distinct(&store.users) || !nims_distinct(&store.users) {
            return Err(ErrorKind::ConstraintViolation);
        }
        if !keys_distinct(&store.rooms) || !keys_distinct(&store.subjects) {
            return Err(ErrorKind::ConstraintViolation);
        }
        if !keys_distinct(&store.shifts) || !store.shift_keys_single() {
            return Err(ErrorKind::ConstraintViolation);
        }
        if !keys_distinct(&store.enrollments) || !store.enrollments_resolve() {
            return Err(ErrorKind::ConstraintViolation);
        }
        if !keys_distinct(&store.bookings) || !store.bookings_resolve() {
            return Err(ErrorKind::ConstraintViolation);
        }
        assert(store_wf(store@));
        Ok(store)
    }

    /// Reconciles the `room` table against a snapshot. Rooms have no
    /// references, so every new room is taken.
    pub(crate) fn reconcile_rooms(&mut self, remote: &Vec<Room>) -> (complete: bool)
        requires
            old(self).wf(),
        ensures
            final(self).wf(),
            final(self)@ == (StoreView { rooms: final(self)@.rooms, ..old(self)@ }),
            (final(self)@.rooms, complete) == reconcile(
                insert_policy::<Room>(any_row()),
                old(self)@.rooms,
                views(remote@),
            ),
    {
        let complete = insert_missing(&mut self.rooms, remote, &Open);
        proof {
            lemma_insert_pass::<Room>(any_row(), old(self)@.rooms, views(remote@));
            lemma_references_kept(old(self)@, self@);
        }
        complete
    }

    /// Reconciles the `subject` table against a snapshot. Subjects have no
    /// references, so every new subject is taken.
    pub(crate) fn reconcile_subjects(&mut self, remote: &Vec<Subject>) -> (complete: bool)
        requires
            old(self).wf(),
        ensures
            final(self).wf(),
            final(self)@ == (StoreView { subjects: final(self)@.subjects, ..old(self)@ }),
            (final(self)@.subjects, complete) == reconcile(
                insert_policy::<Subject>(any_row()),
                old(self)@.subjects,
                views(remote@),
            ),
    {
        let complete = insert_missing(&mut self.subjects, remote, &Open);
        proof {
            lemma_insert_pass::<Subject>(any_row(), old(self)@.subjects, views(remote@));
            lemma_references_kept(old(self)@, self@);
        }
        complete
    }

    /// Reconciles the `enrollment` table against a snapshot. A new
    /// enrollment is taken if its student number and its subject code are
    /// held.
    pub(crate) fn reconcile_enrollments(&mut self, remote: &Vec<Enrollment>) -> (complete: bool)
        requires
            old(self).wf(),
        ensures
            final(self).wf(),
            final(self)@ == (StoreView { enrollments: final(self)@.enrollments, ..old(self)@ }),
            (final(self)@.enrollments, complete) == reconcile(
                insert_policy::<Enrollment>(resolving(old(self)@.users, old(self)@.subjects)),
                old(self)@.enrollments,
                views(remote@),
            ),
    {
        let test = Resolving { users: &self.users, subjects: &self.subjects };
        let complete = insert_missing(&mut self.enrollments, remote, &test);
        proof {
            let before = old(self)@;
            let after = self@;
            lemma_insert_pass::<Enrollment>(
                resolving(before.users, before.subjects),
                before.enrollments,
                views(remote@),
            );
            assert forall|i: int| 0 <= i < after.enrollments.len() implies enrollment_resolves(
                after.users,
                after.subjects,
                #[trigger] after.enrollments[i],
            ) by {
                if i < before.enrollments.len() {
                    assert(after.enrollments.take(before.enrollments.len() as int)[i]
                        == after.enrollments[i]);
                    assert(enrollment_resolves(
                        before.users,
                        before.subjects,
                        before.enrollments[i],
                    ));
                }
            }
            assert forall|i: int| 0 <= i < after.bookings.len() implies booking_resolves(
                after,
                #[trigger] after.bookings[i],
            ) by {
                assert(booking_resolves(before, before.bookings[i]));
            }
        }
        complete
    }
}

} // verus!
