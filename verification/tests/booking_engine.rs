use sr_exam::booking::{
    get_all_shifts, get_exam_transaction, get_room_transaction, insert_exam_transaction,
    record_booking, transaction_id,
};
use sr_exam::config::MySQLConfig;
use sr_exam::error::ErrorKind;
use sr_exam::records::{ExamTransaction, Room, RoomTransaction, Shift, Subject};
use sr_exam::store::LocalStore;

fn shift(id: &str, start: &str, end: &str) -> Shift {
    Shift { shift_id: id.to_string(), start_time: start.to_string(), end_time: end.to_string() }
}

fn catalogue() -> LocalStore {
    let rooms = vec![
        Room { campus: "Anggrek".to_string(), room_capacity: 40, room_number_str: "R1".to_string() },
        Room { campus: "Anggrek".to_string(), room_capacity: 30, room_number_str: "R2".to_string() },
    ];
    let subjects = vec![
        Subject { subject_code_str: "COMP6047".to_string(), subject_name: "Algorithms".to_string() },
        Subject { subject_code_str: "MATH6025".to_string(), subject_name: "Calculus".to_string() },
    ];
    let shifts = vec![shift("1", "07:20:00", "09:00:00"), shift("2", "09:20:00", "11:00:00")];
    LocalStore::from_tables(vec![], rooms, subjects, shifts, vec![], vec![]).ok().unwrap()
}

fn book(store: &mut LocalStore, id: &str, subject: &str, room: &str, shift: &str, date: &str) -> Result<(), ErrorKind> {
    record_booking(
        store,
        id.to_string(),
        subject.to_string(),
        room.to_string(),
        shift.to_string(),
        date.to_string(),
    )
}

fn entry(room: &str, shift: &str) -> RoomTransaction {
    RoomTransaction { room_number: room.to_string(), shift_id: shift.to_string() }
}

#[test]
fn identifier_is_prefix_and_four_padded_digits() {
    assert_eq!(transaction_id(42), "TI0042");
    assert_eq!(transaction_id(0), "TI0000");
    assert_eq!(transaction_id(7), "TI0007");
    assert_eq!(transaction_id(305), "TI0305");
    assert_eq!(transaction_id(1234), "TI1234");
    assert_eq!(transaction_id(9999), "TI9999");
}

#[test]
fn identifier_agrees_with_padded_formatting_everywhere() {
    for n in 0..10000u32 {
        assert_eq!(transaction_id(n), format!("TI{:04}", n));
    }
}

#[test]
fn booking_is_written_once_with_open_time_seat_and_status() {
    let mut store = catalogue();
    let r = insert_exam_transaction(
        &mut store,
        "COMP6047".to_string(),
        "R1".to_string(),
        "1".to_string(),
        "2024-01-01".to_string(),
    );
    assert_eq!(r, Ok(()));
    let all = get_exam_transaction(&store);
    assert_eq!(all.len(), 1);
    let id = all[0].transaction_id.clone();
    assert_eq!(id.len(), 6);
    assert!(id.starts_with("TI"));
    assert!(id[2..].chars().all(|c| c.is_ascii_digit()));
    assert_eq!(
        all[0],
        ExamTransaction {
            transaction_id: id,
            subject_code: "COMP6047".to_string(),
            room_number: "R1".to_string(),
            shift_id: "1".to_string(),
            transaction_date: "2024-01-01".to_string(),
            transaction_time: None,
            seat_number: None,
            status: None,
        }
    );
}

#[test]
fn identifiers_are_drawn_not_fixed() {
    let mut store = catalogue();
    let mut made = 0;
    for _ in 0..20 {
        let r = insert_exam_transaction(
            &mut store,
            "COMP6047".to_string(),
            "R1".to_string(),
            "1".to_string(),
            "2024-01-01".to_string(),
        );
        match r {
            Ok(()) => made += 1,
            Err(e) => assert_eq!(e, ErrorKind::ConstraintViolation),
        }
    }
    let all = get_exam_transaction(&store);
    assert_eq!(all.len(), made);
    assert!(made >= 2);
    for (i, a) in all.iter().enumerate() {
        for b in all.iter().skip(i + 1) {
            assert_ne!(a.transaction_id, b.transaction_id);
        }
    }
}

#[test]
fn booking_with_invalid_room_fails_and_leaves_no_row() {
    let mut store = catalogue();
    let r = insert_exam_transaction(
        &mut store,
        "COMP6047".to_string(),
        "R404".to_string(),
        "1".to_string(),
        "2024-01-01".to_string(),
    );
    assert_eq!(r, Err(ErrorKind::ConstraintViolation));
    assert!(get_exam_transaction(&store).is_empty());
}

#[test]
fn booking_with_invalid_subject_or_shift_fails_and_leaves_no_row() {
    let mut store = catalogue();
    assert_eq!(
        book(&mut store, "TI0001", "NOPE0000", "R1", "1", "2024-01-01"),
        Err(ErrorKind::ConstraintViolation)
    );
    assert_eq!(
        book(&mut store, "TI0001", "COMP6047", "R1", "9", "2024-01-01"),
        Err(ErrorKind::ConstraintViolation)
    );
    assert!(get_exam_transaction(&store).is_empty());
    assert_eq!(store.rooms().len(), 2);
    assert_eq!(store.subjects().len(), 2);
    assert_eq!(store.shifts().len(), 2);
}

#[test]
fn colliding_identifier_is_rejected_without_retry() {
    let mut store = catalogue();
    assert_eq!(book(&mut store, "TI0042", "COMP6047", "R1", "1", "2024-01-01"), Ok(()));
    assert_eq!(
        book(&mut store, "TI0042", "MATH6025", "R2", "2", "2024-01-02"),
        Err(ErrorKind::ConstraintViolation)
    );
    let all = get_exam_transaction(&store);
    assert_eq!(all.len(), 1);
    assert_eq!(all[0].subject_code, "COMP6047");
    assert_eq!(store.find_booking(&"TI0042".to_string()), Some(0));
}

#[test]
fn same_room_shift_and_date_may_be_booked_twice() {
    let mut store = catalogue();
    assert_eq!(book(&mut store, "TI0001", "COMP6047", "R1", "1", "2024-01-01"), Ok(()));
    assert_eq!(book(&mut store, "TI0002", "MATH6025", "R1", "1", "2024-01-01"), Ok(()));
    assert_eq!(
        get_room_transaction(&store, "2024-01-01".to_string(), None),
        vec![entry("R1", "1"), entry("R1", "1")]
    );
}

#[test]
fn date_filter_returns_exactly_the_bookings_of_the_date() {
    let mut store = catalogue();
    assert_eq!(book(&mut store, "TI0001", "COMP6047", "R1", "1", "2024-01-01"), Ok(()));
    assert_eq!(book(&mut store, "TI0002", "MATH6025", "R2", "2", "2024-01-02"), Ok(()));
    assert_eq!(
        get_room_transaction(&store, "2024-01-01".to_string(), None),
        vec![entry("R1", "1")]
    );
    assert_eq!(
        get_room_transaction(&store, "2024-01-02".to_string(), None),
        vec![entry("R2", "2")]
    );
    assert_eq!(get_room_transaction(&store, "2024-01-03".to_string(), None), vec![]);
}

#[test]
fn date_filter_narrows_by_room() {
    let mut store = catalogue();
    assert_eq!(book(&mut store, "TI0001", "COMP6047", "R1", "1", "2024-01-01"), Ok(()));
    assert_eq!(book(&mut store, "TI0002", "MATH6025", "R2", "2", "2024-01-01"), Ok(()));
    assert_eq!(book(&mut store, "TI0003", "MATH6025", "R2", "1", "2024-01-01"), Ok(()));
    assert_eq!(book(&mut store, "TI0004", "MATH6025", "R2", "1", "2024-01-02"), Ok(()));
    assert_eq!(
        get_room_transaction(&store, "2024-01-01".to_string(), Some("R2".to_string())),
        vec![entry("R2", "2"), entry("R2", "1")]
    );
    assert_eq!(
        get_room_transaction(&store, "2024-01-01".to_string(), Some("R1".to_string())),
        vec![entry("R1", "1")]
    );
    assert_eq!(
        get_room_transaction(&store, "2024-01-01".to_string(), Some("R9".to_string())),
        vec![]
    );
}

#[test]
fn all_bookings_come_back_unfiltered_in_order() {
    let mut store = catalogue();
    assert_eq!(book(&mut store, "TI0003", "COMP6047", "R1", "1", "2024-01-01"), Ok(()));
    assert_eq!(book(&mut store, "TI0001", "MATH6025", "R2", "2", "2024-01-02"), Ok(()));
    let ids: Vec<String> =
        get_exam_transaction(&store).into_iter().map(|b| b.transaction_id).collect();
    assert_eq!(ids, vec!["TI0003".to_string(), "TI0001".to_string()]);
}

#[test]
fn shifts_are_listed_in_table_order() {
    let store = catalogue();
    assert_eq!(
        get_all_shifts(&store),
        vec![shift("1", "07:20:00", "09:00:00"), shift("2", "09:20:00", "11:00:00")]
    );
    assert_eq!(store.find_shift(&"2".to_string()), Some(1));
    assert_eq!(store.find_shift(&"3".to_string()), None);
}

#[test]
fn connection_url_is_assembled_from_its_parts() {
    let config = MySQLConfig::new(
        "root".to_string(),
        "".to_string(),
        "localhost".to_string(),
        "sr_exam".to_string(),
    );
    assert_eq!(config.format_url(), "mysql://root:@localhost/sr_exam");
    let config = MySQLConfig::new(
        "exam".to_string(),
        "pw".to_string(),
        "db.local:3306".to_string(),
        "slc".to_string(),
    );
    assert_eq!(config.format_url(), "mysql://exam:pw@db.local:3306/slc");
}

#[test]
fn each_error_kind_has_its_message() {
    assert_eq!(ErrorKind::ValidationFailed.message(), "New password cannot be empty");
    assert_eq!(ErrorKind::AuthenticationFailed.message(), "Current user not authenticated");
    assert_eq!(ErrorKind::SourceUnavailable.message(), "Failed to fetch from the remote catalog");
    assert_eq!(ErrorKind::StoreUnavailable.message(), "Local store unavailable");
    assert_eq!(
        ErrorKind::ConstraintViolation.message(),
        "Rejected by a constraint of the local store"
    );
}
