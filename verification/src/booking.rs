//! The booking engine: recording and querying exam-slot transactions.
//!
//! A booking is created once and never changed afterwards. Its identifier
//! is drawn at random and is not checked against the identifiers already
//! taken before the insert: a collision is rejected by the primary key of
//! the table like any other duplicate, with nothing written. Nor does the
//! engine refuse a second booking of one room, shift and date; it only
//! answers which rooms and shifts are occupied on a date.

use rand::Rng;
use vstd::prelude::*;
use vstd::string::StringExecFns;
use crate::error::ErrorKind;
use crate::table::has_key;
use crate::records::{
    key_fn, opt_text, views, ExamTransaction, ExamTransactionView, RoomTransaction,
    RoomTransactionView, Shift, Text,
};
use crate::store::{booking_resolves, slot_held, LocalStore, StoreView};

verus! {

/// The numbers that an identifier may carry are those below this bound.
pub const TRANSACTION_NUMBERS: u32 = 10000;

/// Calls `rand::Rng::gen_range` on what `rand::thread_rng` hands out, with
/// the half-open range from zero to `bound`. Trusted: the number drawn lies
/// in the range. Which number it is, nothing says. The call panics on an
/// empty range, which `requires` rules out, and where the generator of the
/// thread cannot be seeded by the system.
#[verifier::external_body]
fn draw_below(bound: u32) -> (n: u32)
    requires
        bound > 0,
    ensures
        n < bound,
{
    rand::thread_rng().gen_range(0..bound)
}

/// The decimal digit `d` as a text of one character.
pub open spec fn digit_text(d: int) -> Text {
    if d == 0 {
        "0"@
    } else if d == 1 {
        "1"@
    } else if d == 2 {
        "2"@
    } else if d == 3 {
        "3"@
    } else if d == 4 {
        "4"@
    } else if d == 5 {
        "5"@
    } else if d == 6 {
        "6"@
    } else if d == 7 {
        "7"@
    } else if d == 8 {
        "8"@
    } else {
        "9"@
    }
}

/// The identifier that carries the number `n`: the prefix `TI` and the
/// four decimal digits of `n`, zeros in front where `n` is short.
pub open spec fn transaction_id_of(n: int) -> Text {
    "TI"@ + digit_text(n / 1000 % 10) + digit_text(n / 100 % 10) + digit_text(n / 10 % 10)
        + digit_text(n % 10)
}

fn digit_str(d: u32) -> (s: &'static str)
    requires
        d < 10,
    ensures
        s@ == digit_text(d as int),
{
    if d == 0 {
        "0"
    } else if d == 1 {
        "1"
    } else if d == 2 {
        "2"
    } else if d == 3 {
        "3"
    } else if d == 4 {
        "4"
    } else if d == 5 {
        "5"
    } else if d == 6 {
        "6"
    } else if d == 7 {
        "7"
    } else if d == 8 {
        "8"
    } else {
        "9"
    }
}

/// Writes the identifier that carries the number `n`.
pub fn transaction_id(n: u32) -> (id: String)
    requires
        n < TRANSACTION_NUMBERS,
    ensures
        id@ == transaction_id_of(n as int),
{
    let mut id = String::from_str("TI");
    id.append(digit_str(n / 1000 % 10));
    id.append(digit_str(n / 100 % 10));
    id.append(digit_str(n / 10 % 10));
    id.append(digit_str(n % 10));
    id
}

/// The characters of an identifier, place by place.
pub proof fn lemma_transaction_id_places(n: int)
    requires
        0 <= n < TRANSACTION_NUMBERS,
    ensures
        transaction_id_of(n).len() == 6,
        transaction_id_of(n)[0] == 'T',
        transaction_id_of(n)[1] == 'I',
        transaction_id_of(n)[2] == digit_text(n / 1000 % 10)[0],
        transaction_id_of(n)[3] == digit_text(n / 100 % 10)[0],
        transaction_id_of(n)[4] == digit_text(n / 10 % 10)[0],
        transaction_id_of(n)[5] == digit_text(n % 10)[0],
{
    reveal_strlit("TI");
    lemma_digit_text_injective(n / 1000 % 10, 0);
    lemma_digit_text_injective(n / 100 % 10, 0);
    lemma_digit_text_injective(n / 10 % 10, 0);
    lemma_digit_text_injective(n % 10, 0);
}

/// Numbers below ten thousand that differ are written as identifiers that
/// differ: two bookings collide exactly where their numbers do.
pub proof fn lemma_transaction_id_injective(n: int, m: int)
    requires
        0 <= n < TRANSACTION_NUMBERS,
        0 <= m < TRANSACTION_NUMBERS,
        transaction_id_of(n) == transaction_id_of(m),
    ensures
        n == m,
{
    lemma_transaction_id_places(n);
    lemma_transaction_id_places(m);
    lemma_digit_text_injective(n / 1000 % 10, m / 1000 % 10);
    lemma_digit_text_injective(n / 100 % 10, m / 100 % 10);
    lemma_digit_text_injective(n / 10 % 10, m / 10 % 10);
    lemma_digit_text_injective(n % 10, m % 10);
}

/// A digit is written as one character, and digits that differ as
/// characters that differ.
pub proof fn lemma_digit_text_injective(d: int, e: int)
    requires
        0 <= d < 10,
        0 <= e < 10,
    ensures
        digit_text(d).len() == 1,
        digit_text(d)[0] == digit_text(e)[0] ==> d == e,
{
    reveal_strlit("0");
    reveal_strlit("1");
    reveal_strlit("2");
    reveal_strlit("3");
    reveal_strlit("4");
    reveal_strlit("5");
    reveal_strlit("6");
    reveal_strlit("7");
    reveal_strlit("8");
    reveal_strlit("9");
}

/// The booking as it is first written: time, seat and status are left
/// open.
pub open spec fn new_booking(
    transaction_id: Text,
    subject_code: Text,
    room_number: Text,
    shift_id: Text,
    transaction_date: Text,
) -> ExamTransactionView {
    ExamTransactionView {
        transaction_id,
        subject_code,
        room_number,
        shift_id,
        transaction_date,
        transaction_time: None,
        seat_number: None,
        status: None,
    }
}

/// The store and the result after the store has been asked to take the
/// booking `b`. It takes it if the identifier is new and subject, room and
/// shift are held; otherwise it rejects it and nothing is written.
pub open spec fn booking_step(s: StoreView, b: ExamTransactionView) -> (
    StoreView,
    Result<(), ErrorKind>,
) {
    if has_key(key_fn::<ExamTransaction>(), s.bookings, b.transaction_id) || !booking_resolves(
        s,
        b,
    ) {
        (s, Err(ErrorKind::ConstraintViolation))
    } else {
        (StoreView { bookings: s.bookings.push(b), ..s }, Ok(()))
    }
}

/// Writes a booking under the identifier given, as one transaction: either
/// the row is in the table afterwards or the store is as it was.
pub fn record_booking(
    store: &mut LocalStore,
    transaction_id: String,
    subject_code: String,
    room_number: String,
    shift_id: String,
    transaction_date: String,
) -> (r: Result<(), ErrorKind>)
    requires
        old(store).wf(),
    ensures
        final(store).wf(),
        (final(store)@, r) == booking_step(
            old(store)@,
            new_booking(
                transaction_id@,
                subject_code@,
                room_number@,
                shift_id@,
                transaction_date@,
            ),
        ),
{
    if store.find_booking(&transaction_id).is_some() {
        return Err(ErrorKind::ConstraintViolation);
    }
    if store.find_subject(&subject_code).is_none() || store.find_room(&room_number).is_none()
        || store.find_shift(&shift_id).is_none() {
        return Err(ErrorKind::ConstraintViolation);
    }
    store.push_booking(
        ExamTransaction {
            transaction_id,
            subject_code,
            room_number,
            shift_id,
            transaction_date,
            transaction_time: None,
            seat_number: None,
            status: None,
        },
    );
    Ok(())
}

/// Books the exam of a subject into a room and a shift on a date.
///
/// The identifier is `TI` and four digits, the number drawn at random
/// below ten thousand. Whatever number is drawn, the booking is written in
/// one transaction under that identifier, or rejected with
/// `ConstraintViolation` and nothing written: a failed booking leaves no
/// row behind. It is rejected whenever subject, room or shift are not
/// held, and otherwise only where the identifier drawn is already taken.
pub fn insert_exam_transaction(
    store: &mut LocalStore,
    subject_code_str: String,
    room_number_str: String,
    shift_id: String,
    transaction_date: String,
) -> (r: Result<(), ErrorKind>)
    requires
        old(store).wf(),
    ensures
        final(store).wf(),
        exists|n: int|
            0 <= n < TRANSACTION_NUMBERS && (final(store)@, r) == booking_step(
                old(store)@,
                new_booking(
                    #[trigger] transaction_id_of(n),
                    subject_code_str@,
                    room_number_str@,
                    shift_id@,
                    transaction_date@,
                ),
            ),
        !slot_held(old(store)@, subject_code_str@, room_number_str@, shift_id@) ==> r is Err,
        r is Err ==> r == Err::<(), ErrorKind>(ErrorKind::ConstraintViolation) && final(store)@
            == old(store)@,
        r is Ok ==> final(store)@.bookings.len() == old(store)@.bookings.len() + 1,
{
    let n = draw_below(TRANSACTION_NUMBERS);
    let id = transaction_id(n);
    let r = record_booking(
        store,
        id,
        subject_code_str,
        room_number_str,
        shift_id,
        transaction_date,
    );
    assert(id@ == transaction_id_of(n as int));
    r
}

/// Every booking, in the order in which they were made.
pub fn get_exam_transaction(store: &LocalStore) -> (all: Vec<ExamTransaction>)
    ensures
        views(all@) == store@.bookings,
{
    store.bookings()
}

/// Every shift of the exam day.
pub fn get_all_shifts(store: &LocalStore) -> (all: Vec<Shift>)
    ensures
        views(all@) == store@.shifts,
{
    store.shifts()
}

/// The booking is on `date` and, where a room is asked for, in that room.
pub open spec fn occupies(b: ExamTransactionView, date: Text, room: Option<Text>) -> bool {
    b.transaction_date == date && (room is Some ==> b.room_number == room->0)
}

/// What a booking contributes to the answer for `date` and `room`: its room
/// and shift if it is asked for, nothing otherwise.
pub open spec fn occupancy(date: Text, room: Option<Text>) -> spec_fn(ExamTransactionView) -> Option<
    RoomTransactionView,
> {
    |b: ExamTransactionView|
        if occupies(b, date, room) {
            Some(entry_of(b))
        } else {
            None
        }
}

/// The rooms and shifts occupied on `date`, in all rooms or in `room`: one
/// entry for each booking that is asked for, in the order of the table.
pub open spec fn occupied_on(
    bookings: Seq<ExamTransactionView>,
    date: Text,
    room: Option<Text>,
) -> Seq<RoomTransactionView> {
    bookings.filter_map(occupancy(date, room))
}

/// The rooms and shifts that are occupied on a date, in all rooms or in
/// the one given.
pub fn get_room_transaction(
    store: &LocalStore,
    selected_date: String,
    room_number: Option<String>,
) -> (occupied: Vec<RoomTransaction>)
    ensures
        views(occupied@) == occupied_on(
            store@.bookings,
            selected_date@,
            opt_text(room_number),
        ),
{
    let all = store.bookings();
    let ghost pick = occupancy(selected_date@, opt_text(room_number));
    let mut occupied: Vec<RoomTransaction> = Vec::new();
    let mut i: usize = 0;
    assert(views(all@).take(0).filter_map(pick) =~= views(occupied@));
    while i < all.len()
        invariant
            i <= all.len(),
            pick == occupancy(selected_date@, opt_text(room_number)),
            views(occupied@) == views(all@).take(i as int).filter_map(pick),
        decreases all.len() - i,
    {
        let b = &all[i];
        let ghost before = views(occupied@);
        proof {
            assert(views(all@).take(i + 1).drop_last() =~= views(all@).take(i as int));
            assert(views(all@).take(i + 1).last() == b@);
        }
        let in_room = match &room_number {
            Some(room) => b.room_number == *room,
            None => true,
        };
        if b.transaction_date == selected_date && in_room {
            let entry = RoomTransaction {
                room_number: b.room_number.clone(),
                shift_id: b.shift_id.clone(),
            };
            occupied.push(entry);
            assert(views(occupied@) =~= before + seq![entry@]);
        }
        i += 1;
    }
    assert(views(all@).take(all.len() as int) =~= views(all@));
    occupied
}

/// The entry that a booking leaves in an answer.
pub open spec fn entry_of(b: ExamTransactionView) -> RoomTransactionView {
    RoomTransactionView { room_number: b.room_number, shift_id: b.shift_id }
}

/// Some booking that is asked for leaves the entry `entry`.
pub open spec fn some_booking_leaves(
    bookings: Seq<ExamTransactionView>,
    date: Text,
    room: Option<Text>,
    entry: RoomTransactionView,
) -> bool {
    exists|i: int|
        0 <= i < bookings.len() && occupies(#[trigger] bookings[i], date, room) && entry
            == entry_of(bookings[i])
}

/// The date filter is exact: the answer holds the entry of every booking
/// that is asked for and no entry of any other, and it is never longer
/// than the table.
pub proof fn lemma_occupied_on_exact(
    bookings: Seq<ExamTransactionView>,
    date: Text,
    room: Option<Text>,
    entry: RoomTransactionView,
)
    ensures
        occupied_on(bookings, date, room).contains(entry) <==> some_booking_leaves(
            bookings,
            date,
            room,
            entry,
        ),
        occupied_on(bookings, date, room).len() <= bookings.len(),
    decreases bookings.len(),
{
    let pick = occupancy(date, room);
    let answer = occupied_on(bookings, date, room);
    if bookings.len() > 0 {
        let rest = bookings.drop_last();
        let last = bookings.last();
        let head = occupied_on(rest, date, room);
        lemma_occupied_on_exact(rest, date, room, entry);
        if answer.contains(entry) {
            let k = choose|k: int| 0 <= k < answer.len() && answer[k] == entry;
            if k < head.len() {
                assert(head[k] == entry);
                assert(head.contains(entry));
                let i = choose|i: int|
                    0 <= i < rest.len() && occupies(#[trigger] rest[i], date, room) && entry
                        == entry_of(rest[i]);
                assert(bookings[i] == rest[i]);
            } else {
                assert(occupies(bookings[bookings.len() - 1], date, room));
            }
        }
        if some_booking_leaves(bookings, date, room, entry) {
            let i = choose|i: int|
                0 <= i < bookings.len() && occupies(#[trigger] bookings[i], date, room) && entry
                    == entry_of(bookings[i]);
            if i < rest.len() {
                assert(rest[i] == bookings[i]);
                assert(some_booking_leaves(rest, date, room, entry));
                let k = choose|k: int| 0 <= k < head.len() && head[k] == entry;
                assert(answer[k] == entry);
            } else {
                assert(answer[head.len() as int] == entry);
            }
        }
    }
}

} // verus!
