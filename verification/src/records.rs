//! The rows of the local tables and their mathematical views.
//!
//! Every record is a plain struct of strings. Its view replaces each string
//! by the sequence of its characters, so that contracts can compare and
//! search rows without reference to how a string is stored.

use vstd::prelude::*;

verus! {

/// A text value as contracts see it.
pub type Text = Seq<char>;

/// The view of an optional string.
pub open spec fn opt_text(o: Option<String>) -> Option<Text> {
    match o {
        Some(s) => Some(s@),
        None => None,
    }
}

/// The views of the elements of a sequence, in order.
pub open spec fn views<T: View>(s: Seq<T>) -> Seq<T::V> {
    s.map_values(|t: T| t@)
}

/// Copies an optional string.
pub fn clone_opt(o: &Option<String>) -> (r: Option<String>)
    ensures
        r == *o,
{
    match o {
        Some(s) => Some(s.clone()),
        None => None,
    }
}

/// A person known to the catalogue. `bn_number` identifies the person;
/// `nim` and `initial` are the handles a person may sign in with.
#[derive(Debug, PartialEq, Eq)]
pub struct User {
    pub bn_number: String,
    pub nim: String,
    pub name: String,
    pub major: String,
    pub role: String,
    pub initial: Option<String>,
}

pub struct UserView {
    pub bn_number: Text,
    pub nim: Text,
    pub name: Text,
    pub major: Text,
    pub role: Text,
    pub initial: Option<Text>,
}

impl View for User {
    type V = UserView;

    open spec fn view(&self) -> UserView {
        UserView {
            bn_number: self.bn_number@,
            nim: self.nim@,
            name: self.name@,
            major: self.major@,
            role: self.role@,
            initial: opt_text(self.initial),
        }
    }
}

impl Clone for User {
    fn clone(&self) -> (r: Self)
        ensures
            r == *self,
    {
        User {
            bn_number: self.bn_number.clone(),
            nim: self.nim.clone(),
            name: self.name.clone(),
            major: self.major.clone(),
            role: self.role.clone(),
            initial: clone_opt(&self.initial),
        }
    }
}

/// A row of the `users` table: the catalogue record and, beside it, the
/// credential that only this store manages. An absent or empty credential
/// means that none has been set yet.
#[derive(Debug, PartialEq, Eq)]
pub struct UserRow {
    pub user: User,
    pub password: Option<String>,
}

pub struct UserRowView {
    pub user: UserView,
    pub password: Option<Text>,
}

impl View for UserRow {
    type V = UserRowView;

    open spec fn view(&self) -> UserRowView {
        UserRowView { user: self.user@, password: opt_text(self.password) }
    }
}

impl Clone for UserRow {
    fn clone(&self) -> (r: Self)
        ensures
            r == *self,
    {
        UserRow { user: self.user.clone(), password: clone_opt(&self.password) }
    }
}

/// An exam room.
#[derive(Debug, PartialEq, Eq)]
pub struct Room {
    pub campus: String,
    pub room_capacity: i32,
    pub room_number_str: String,
}

pub struct RoomView {
    pub campus: Text,
    pub room_capacity: int,
    pub room_number: Text,
}

impl View for Room {
    type V = RoomView;

    open spec fn view(&self) -> RoomView {
        RoomView {
            campus: self.campus@,
            room_capacity: self.room_capacity as int,
            room_number: self.room_number_str@,
        }
    }
}

impl Clone for Room {
    fn clone(&self) -> (r: Self)
        ensures
            r == *self,
    {
        Room {
            campus: self.campus.clone(),
            room_capacity: self.room_capacity,
            room_number_str: self.room_number_str.clone(),
        }
    }
}

/// A subject that can be examined.
#[derive(Debug, PartialEq, Eq)]
pub struct Subject {
    pub subject_code_str: String,
    pub subject_name: String,
}

pub struct SubjectView {
    pub subject_code: Text,
    pub subject_name: Text,
}

impl View for Subject {
    type V = SubjectView;

    open spec fn view(&self) -> SubjectView {
        SubjectView { subject_code: self.subject_code_str@, subject_name: self.subject_name@ }
    }
}

impl Clone for Subject {
    fn clone(&self) -> (r: Self)
        ensures
            r == *self,
    {
        Subject {
            subject_code_str: self.subject_code_str.clone(),
            subject_name: self.subject_name.clone(),
        }
    }
}

/// A student's place in a class of a subject.
#[derive(Debug, PartialEq, Eq)]
pub struct Enrollment {
    pub class_code_str: String,
    pub nim: String,
    pub subject_code: String,
}

pub struct EnrollmentView {
    pub class_code: Text,
    pub nim: Text,
    pub subject_code: Text,
}

impl View for Enrollment {
    type V = EnrollmentView;

    open spec fn view(&self) -> EnrollmentView {
        EnrollmentView {
            class_code: self.class_code_str@,
            nim: self.nim@,
            subject_code: self.subject_code@,
        }
    }
}

impl Clone for Enrollment {
    fn clone(&self) -> (r: Self)
        ensures
            r == *self,
    {
        Enrollment {
            class_code_str: self.class_code_str.clone(),
            nim: self.nim.clone(),
            subject_code: self.subject_code.clone(),
        }
    }
}

/// A slot of the exam day. Its key is a single character.
#[derive(Debug, PartialEq, Eq)]
pub struct Shift {
    pub shift_id: String,
    pub start_time: String,
    pub end_time: String,
}

pub struct ShiftView {
    pub shift_id: Text,
    pub start_time: Text,
    pub end_time: Text,
}

impl View for Shift {
    type V = ShiftView;

    open spec fn view(&self) -> ShiftView {
        ShiftView {
            shift_id: self.shift_id@,
            start_time: self.start_time@,
            end_time: self.end_time@,
        }
    }
}

impl Clone for Shift {
    fn clone(&self) -> (r: Self)
        ensures
            r == *self,
    {
        Shift {
            shift_id: self.shift_id.clone(),
            start_time: self.start_time.clone(),
            end_time: self.end_time.clone(),
        }
    }
}

/// A booking: the exam of a subject occupies a room and a shift on a date.
/// Time, seat and status are assigned later by another process, if ever.
#[derive(Debug, PartialEq, Eq)]
pub struct ExamTransaction {
    pub transaction_id: String,
    pub subject_code: String,
    pub room_number: String,
    pub shift_id: String,
    pub transaction_date: String,
    pub transaction_time: Option<String>,
    pub seat_number: Option<String>,
    pub status: Option<String>,
}

pub struct ExamTransactionView {
    pub transaction_id: Text,
    pub subject_code: Text,
    pub room_number: Text,
    pub shift_id: Text,
    pub transaction_date: Text,
    pub transaction_time: Option<Text>,
    pub seat_number: Option<Text>,
    pub status: Option<Text>,
}

impl View for ExamTransaction {
    type V = ExamTransactionView;

    open spec fn view(&self) -> ExamTransactionView {
        ExamTransactionView {
            transaction_id: self.transaction_id@,
            subject_code: self.subject_code@,
            room_number: self.room_number@,
            shift_id: self.shift_id@,
            transaction_date: self.transaction_date@,
            transaction_time: opt_text(self.transaction_time),
            seat_number: opt_text(self.seat_number),
            status: opt_text(self.status),
        }
    }
}

impl Clone for ExamTransaction {
    fn clone(&self) -> (r: Self)
        ensures
            r == *self,
    {
        ExamTransaction {
            transaction_id: self.transaction_id.clone(),
            subject_code: self.subject_code.clone(),
            room_number: self.room_number.clone(),
            shift_id: self.shift_id.clone(),
            transaction_date: self.transaction_date.clone(),
            transaction_time: clone_opt(&self.transaction_time),
            seat_number: clone_opt(&self.seat_number),
            status: clone_opt(&self.status),
        }
    }
}

/// The room and shift that one booking occupies.
#[derive(Debug, PartialEq, Eq)]
pub struct RoomTransaction {
    pub room_number: String,
    pub shift_id: String,
}

pub struct RoomTransactionView {
    pub room_number: Text,
    pub shift_id: Text,
}

impl View for RoomTransaction {
    type V = RoomTransactionView;

    open spec fn view(&self) -> RoomTransactionView {
        RoomTransactionView { room_number: self.room_number@, shift_id: self.shift_id@ }
    }
}

/// The operator who is signed in.
#[derive(Debug, PartialEq, Eq)]
pub struct CurrentUser {
    pub user: User,
}

impl View for CurrentUser {
    type V = UserView;

    open spec fn view(&self) -> UserView {
        self.user@
    }
}

impl Clone for CurrentUser {
    fn clone(&self) -> (r: Self)
        ensures
            r == *self,
    {
        CurrentUser { user: self.user.clone() }
    }
}

/// A row that its table finds by one text key.
pub trait Keyed: View + Sized {
    /// The key, read from the row's view.
    spec fn key_of(v: Self::V) -> Text;

    /// The key as stored.
    fn key(&self) -> (k: &String)
        ensures
            k@ == Self::key_of(self@),
    ;

    /// A second row with the same fields.
    fn copy(&self) -> (row: Self)
        ensures
            row@ == self@,
    ;
}

/// The key of a row type as a function on views.
pub open spec fn key_fn<T: Keyed>() -> spec_fn(T::V) -> Text {
    |v: T::V| T::key_of(v)
}

impl Keyed for UserRow {
    open spec fn key_of(v: UserRowView) -> Text {
        v.user.bn_number
    }

    fn key(&self) -> (k: &String) {
        &self.user.bn_number
    }

    fn copy(&self) -> (row: Self) {
        self.clone()
    }
}

impl Keyed for Room {
    open spec fn key_of(v: RoomView) -> Text {
        v.room_number
    }

    fn key(&self) -> (k: &String) {
        &self.room_number_str
    }

    fn copy(&self) -> (row: Self) {
        self.clone()
    }
}

impl Keyed for Subject {
    open spec fn key_of(v: SubjectView) -> Text {
        v.subject_code
    }

    fn key(&self) -> (k: &String) {
        &self.subject_code_str
    }

    fn copy(&self) -> (row: Self) {
        self.clone()
    }
}

impl Keyed for Enrollment {
    open spec fn key_of(v: EnrollmentView) -> Text {
        v.class_code
    }

    fn key(&self) -> (k: &String) {
        &self.class_code_str
    }

    fn copy(&self) -> (row: Self) {
        self.clone()
    }
}

impl Keyed for Shift {
    open spec fn key_of(v: ShiftView) -> Text {
        v.shift_id
    }

    fn key(&self) -> (k: &String) {
        &self.shift_id
    }

    fn copy(&self) -> (row: Self) {
        self.clone()
    }
}

impl Keyed for ExamTransaction {
    open spec fn key_of(v: ExamTransactionView) -> Text {
        v.transaction_id
    }

    fn key(&self) -> (k: &String) {
        &self.transaction_id
    }

    fn copy(&self) -> (row: Self) {
        self.clone()
    }
}

} // verus!
