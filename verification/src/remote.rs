//! What the remote catalogue answers, and how an answer is read.
//!
//! The catalogue is queried elsewhere. This module takes what came back:
//! `None` where the fetch failed or brought no data, otherwise the answer
//! in the shape of the query. A failed fetch is reported as
//! `SourceUnavailable`; no record is ever made up.

use vstd::prelude::*;
use crate::error::ErrorKind;
use crate::records::{Enrollment, Room, Subject, User};

verus! {

/// The answer to the query for all users.
#[derive(Debug)]
pub struct UsersQuery {
    pub get_all_user: Vec<User>,
}

/// The answer to the query for all subjects.
#[derive(Debug)]
pub struct GetAllSubject {
    pub get_all_subject: Vec<Subject>,
}

/// The answer to the query for all rooms.
#[derive(Debug)]
pub struct GetAllRoom {
    pub get_all_room: Vec<Room>,
}

/// The answer to the query for all enrollments. The list may be missing,
/// and so may any entry of it.
#[derive(Debug)]
pub struct GetAllEnrollment {
    pub get_all_enrollment: Option<Vec<Option<Enrollment>>>,
}

/// The answer to the query for the password kept remotely for one student
/// number.
#[derive(Debug)]
pub struct PasswordbyNIM {
    pub get_password_by_nim: String,
}

/// The entries of `list` that are present, in order.
pub open spec fn present<T>(list: Seq<Option<T>>) -> Seq<T>
    decreases list.len(),
{
    if list.len() == 0 {
        Seq::empty()
    } else {
        let head = present(list.drop_last());
        match list.last() {
            Some(entry) => head.push(entry),
            None => head,
        }
    }
}

/// The users of an answer.
pub fn get_all_users(response: Option<UsersQuery>) -> (r: Result<Vec<User>, ErrorKind>)
    ensures
        match response {
            Some(answer) => r matches Ok(users) && users@ == answer.get_all_user@,
            None => r matches Err(e) && e == ErrorKind::SourceUnavailable,
        },
{
    match response {
        Some(answer) => Ok(answer.get_all_user),
        None => Err(ErrorKind::SourceUnavailable),
    }
}

/// The subjects of an answer.
pub fn get_all_subject(response: Option<GetAllSubject>) -> (r: Result<Vec<Subject>, ErrorKind>)
    ensures
        match response {
            Some(answer) => r matches Ok(subjects) && subjects@ == answer.get_all_subject@,
            None => r matches Err(e) && e == ErrorKind::SourceUnavailable,
        },
{
    match response {
        Some(answer) => Ok(answer.get_all_subject),
        None => Err(ErrorKind::SourceUnavailable),
    }
}

/// The rooms of an answer.
pub fn get_all_room(response: Option<GetAllRoom>) -> (r: Result<Vec<Room>, ErrorKind>)
    ensures
        match response {
            Some(answer) => r matches Ok(rooms) && rooms@ == answer.get_all_room@,
            None => r matches Err(e) && e == ErrorKind::SourceUnavailable,
        },
{
    match response {
        Some(answer) => Ok(answer.get_all_room),
        None => Err(ErrorKind::SourceUnavailable),
    }
}

/// What an answer to the query for all enrollments holds: the entries that
/// are present, or nothing where there is no answer or no list.
pub open spec fn enrollments_of(response: Option<GetAllEnrollment>) -> Option<Seq<Enrollment>> {
    match response {
        Some(answer) => match answer.get_all_enrollment {
            Some(list) => Some(present(list@)),
            None => None,
        },
        None => None,
    }
}

/// The enrollments of an answer: the entries of its list that are present,
/// in the order of the list. An answer without a list counts as a failed
/// fetch.
pub fn get_all_enrollment(response: Option<GetAllEnrollment>) -> (r: Result<
    Vec<Enrollment>,
    ErrorKind,
>)
    ensures
        match enrollments_of(response) {
            Some(entries) => r matches Ok(enrollments) && enrollments@ == entries,
            None => r matches Err(e) && e == ErrorKind::SourceUnavailable,
        },
{
    let list = match response {
        Some(answer) => match answer.get_all_enrollment {
            Some(list) => list,
            None => {
                return Err(ErrorKind::SourceUnavailable);
            },
        },
        None => {
            return Err(ErrorKind::SourceUnavailable);
        },
    };
    let mut enrollments: Vec<Enrollment> = Vec::new();
    let mut i: usize = 0;
    while i < list.len()
        invariant
            i <= list.len(),
            enrollments@ == present(list@.take(i as int)),
        decreases list.len() - i,
    {
        assert(list@.take(i + 1).drop_last() =~= list@.take(i as int));
        match &list[i] {
            Some(entry) => {
                enrollments.push(entry.clone());
            },
            None => {},
        }
        i += 1;
    }
    assert(list@.take(list.len() as int) =~= list@);
    Ok(enrollments)
}

/// The password of an answer.
pub fn get_password_by_nim(response: Option<PasswordbyNIM>) -> (r: Result<String, ErrorKind>)
    ensures
        match response {
            Some(answer) => r matches Ok(password) && password@ == answer.get_password_by_nim@,
            None => r matches Err(e) && e == ErrorKind::SourceUnavailable,
        },
{
    match response {
        Some(answer) => Ok(answer.get_password_by_nim),
        None => Err(ErrorKind::SourceUnavailable),
    }
}

} // verus!
