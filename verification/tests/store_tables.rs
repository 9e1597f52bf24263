use sr_exam::booking::get_room_transaction;
use sr_exam::error::ErrorKind;
use sr_exam::records::{
    Enrollment, ExamTransaction, Room, RoomTransaction, Shift, Subject, User, UserRow,
};
use sr_exam::session::{get_current_user, login, LoginKey, Session};
use sr_exam::store::{keys_distinct, nims_distinct, LocalStore};

fn row(bn: &str, nim: &str, password: Option<&str>) -> UserRow {
    UserRow {
        user: User {
            bn_number: bn.to_string(),
            nim: nim.to_string(),
            name: "Name".to_string(),
            major: "Major".to_string(),
            role: "Student".to_string(),
            initial: None,
        },
        password: password.map(|p| p.to_string()),
    }
}

fn room(number: &str) -> Room {
    Room { campus: "Anggrek".to_string(), room_capacity: 40, room_number_str: number.to_string() }
}

fn subject(code: &str) -> Subject {
    Subject { subject_code_str: code.to_string(), subject_name: "Subject".to_string() }
}

fn shift(id: &str) -> Shift {
    Shift { shift_id: id.to_string(), start_time: "07:20:00".to_string(), end_time: "09:00:00".to_string() }
}

fn enrollment(class: &str, nim: &str, code: &str) -> Enrollment {
    Enrollment { class_code_str: class.to_string(), nim: nim.to_string(), subject_code: code.to_string() }
}

fn booking(id: &str, code: &str, room: &str, shift: &str, date: &str) -> ExamTransaction {
    ExamTransaction {
        transaction_id: id.to_string(),
        subject_code: code.to_string(),
        room_number: room.to_string(),
        shift_id: shift.to_string(),
        transaction_date: date.to_string(),
        transaction_time: Some("08:00:00".to_string()),
        seat_number: Some("A1".to_string()),
        status: Some("done".to_string()),
    }
}

fn tables() -> (Vec<UserRow>, Vec<Room>, Vec<Subject>, Vec<Shift>, Vec<Enrollment>, Vec<ExamTransaction>) {
    (
        vec![row("BN1", "2401", Some("")), row("BN2", "", None), row("BN3", "", None)],
        vec![room("R1"), room("R2")],
        vec![subject("S1"), subject("S2")],
        vec![shift("1"), shift("2")],
        vec![enrollment("C1", "2401", "S1")],
        vec![
            booking("TI0001", "S1", "R1", "1", "2024-01-01"),
            booking("TI0002", "S2", "R2", "2", "2024-01-02"),
        ],
    )
}

fn built(t: (Vec<UserRow>, Vec<Room>, Vec<Subject>, Vec<Shift>, Vec<Enrollment>, Vec<ExamTransaction>)) -> Result<LocalStore, ErrorKind> {
    LocalStore::from_tables(t.0, t.1, t.2, t.3, t.4, t.5)
}

#[test]
fn well_formed_tables_are_taken_as_they_are() {
    let store = built(tables()).ok().unwrap();
    let t = tables();
    assert_eq!(store.users(), t.0);
    assert_eq!(store.rooms(), t.1);
    assert_eq!(store.subjects(), t.2);
    assert_eq!(store.shifts(), t.3);
    assert_eq!(store.enrollments(), t.4);
    assert_eq!(store.bookings(), t.5);
}

#[test]
fn loaded_bookings_answer_the_date_filter() {
    let store = built(tables()).ok().unwrap();
    assert_eq!(
        get_room_transaction(&store, "2024-01-01".to_string(), None),
        vec![RoomTransaction { room_number: "R1".to_string(), shift_id: "1".to_string() }]
    );
}

#[test]
fn tables_with_a_repeated_key_are_rejected() {
    let mut t = tables();
    t.0.push(row("BN1", "2409", None));
    assert_eq!(built(t).err(), Some(ErrorKind::ConstraintViolation));
    let mut t = tables();
    t.0.push(row("BN9", "2401", None));
    assert_eq!(built(t).err(), Some(ErrorKind::ConstraintViolation));
    let mut t = tables();
    t.1.push(room("R1"));
    assert_eq!(built(t).err(), Some(ErrorKind::ConstraintViolation));
    let mut t = tables();
    t.2.push(subject("S2"));
    assert_eq!(built(t).err(), Some(ErrorKind::ConstraintViolation));
    let mut t = tables();
    t.3.push(shift("1"));
    assert_eq!(built(t).err(), Some(ErrorKind::ConstraintViolation));
    let mut t = tables();
    t.4.push(enrollment("C1", "2401", "S2"));
    assert_eq!(built(t).err(), Some(ErrorKind::ConstraintViolation));
    let mut t = tables();
    t.5.push(booking("TI0002", "S1", "R1", "1", "2024-01-03"));
    assert_eq!(built(t).err(), Some(ErrorKind::ConstraintViolation));
}

#[test]
fn tables_with_an_unresolved_reference_are_rejected() {
    let mut t = tables();
    t.4.push(enrollment("C2", "2402", "S1"));
    assert_eq!(built(t).err(), Some(ErrorKind::ConstraintViolation));
    let mut t = tables();
    t.4.push(enrollment("C2", "2401", "S9"));
    assert_eq!(built(t).err(), Some(ErrorKind::ConstraintViolation));
    let mut t = tables();
    t.4.push(enrollment("C2", "", "S1"));
    assert_eq!(built(t).err(), Some(ErrorKind::ConstraintViolation));
    let mut t = tables();
    t.5.push(booking("TI0003", "S9", "R1", "1", "2024-01-03"));
    assert_eq!(built(t).err(), Some(ErrorKind::ConstraintViolation));
    let mut t = tables();
    t.5.push(booking("TI0003", "S1", "R9", "1", "2024-01-03"));
    assert_eq!(built(t).err(), Some(ErrorKind::ConstraintViolation));
    let mut t = tables();
    t.5.push(booking("TI0003", "S1", "R1", "9", "2024-01-03"));
    assert_eq!(built(t).err(), Some(ErrorKind::ConstraintViolation));
}

#[test]
fn tables_with_a_long_shift_key_are_rejected() {
    let mut t = tables();
    t.3.push(shift("10"));
    assert_eq!(built(t).err(), Some(ErrorKind::ConstraintViolation));
}

#[test]
fn empty_tables_make_the_empty_store() {
    let store = LocalStore::from_tables(vec![], vec![], vec![], vec![], vec![], vec![]).ok().unwrap();
    assert!(store.users().is_empty());
    assert!(store.bookings().is_empty());
}

#[test]
fn distinctness_checks_by_cases() {
    assert!(keys_distinct(&vec![room("R1"), room("R2"), room("R3")]));
    assert!(!keys_distinct(&vec![room("R1"), room("R2"), room("R1")]));
    assert!(keys_distinct::<Room>(&vec![]));
    assert!(nims_distinct(&vec![row("BN1", "", None), row("BN2", "", None), row("BN3", "7", None)]));
    assert!(!nims_distinct(&vec![row("BN1", "7", None), row("BN2", "", None), row("BN3", "7", None)]));
}

#[test]
fn copied_session_holds_the_same_operator() {
    let store = built(tables()).ok().unwrap();
    let mut session = Session::new();
    assert_eq!(
        login("2401".to_string(), "anything".to_string(), &store, &mut session),
        Ok(Some(LoginKey::Nim))
    );
    let copy = session.clone();
    assert_eq!(get_current_user(&copy), get_current_user(&session));
    assert_eq!(get_current_user(&copy).map(|c| c.user.bn_number), Some("BN1".to_string()));
    assert_eq!(get_current_user(&Session::new().clone()), None);
}
