use make::checkout::{CheckoutLog, CheckoutLogEntry};
use make::clock::{time_after, unix_now};
use make::printers::{
    PrintLogEntry, PrintQueueEntry, Printer, PrinterStatus, PrinterWebhookState,
    PrinterWebhookStateFlags, Printers,
};
use make::quizzes::{get_all_quizzes, get_quiz_url, Quiz, QuizName, Response};
use make::student_storage::{OccupiedDetails, Slot, StudentStorage};
use make::usage::{ButtonRecord, ButtonRecordLog, College};
use make::users::{AuthLevel, User};

fn response(id: u64, name: &str) -> Response {
    Response {
        timestamp: "1/1/2023".to_string(),
        name: name.to_string(),
        college_id: id,
        college_email: format!("{}@example.edu", name),
        passed: true,
    }
}

fn user(id: u64, name: &str) -> User {
    User::from_response(&response(id, name))
}

#[test]
fn clock_runs_after_the_epoch() {
    assert!(unix_now() > 1_600_000_000);
    assert_eq!(time_after(5, 7), 12);
    assert_eq!(time_after(u64::MAX - 1, 7), u64::MAX);
}

#[test]
fn checkout_entry_starts_open() {
    let entry = CheckoutLogEntry::new_reservation(7, 1000, 500, vec!["saw".to_string()]);
    assert_eq!(entry.college_id, 7);
    assert_eq!(entry.timestamp_checked_out, 1000);
    assert_eq!(entry.timestamp_expires, 1500);
    assert!(!entry.checked_in);
    assert_eq!(entry.timestamp_checked_in, None);
    assert_eq!(entry.num_time_notified, 0);
    assert_eq!(entry.items, vec!["saw".to_string()]);
    assert_eq!(entry.get_college_id(), 7);
    assert_eq!(entry.get_emails_sent(), 0);
}

#[test]
fn checkout_identifiers_are_fresh() {
    let a = CheckoutLogEntry::new(1, 10, Vec::new());
    let b = CheckoutLogEntry::new(1, 10, Vec::new());
    assert_eq!(a.checkout_uuid.len(), 36);
    assert!(a.checkout_uuid != b.checkout_uuid);
    assert!(a.timestamp_checked_out > 1_600_000_000);
    assert_eq!(a.timestamp_expires, a.timestamp_checked_out + 10);
}

#[test]
fn checkout_entry_expiry() {
    let mut entry = CheckoutLogEntry::new_reservation(7, 1000, 500, Vec::new());
    assert!(!entry.is_expired_at(1500));
    assert!(entry.is_expired_at(1501));
    assert!(entry.is_expired());
    assert_eq!(entry.num_24_hours_passed_at(1500 + 86400 * 3 + 5), 3);
    assert_eq!(entry.num_24_hours_passed_at(1500 + 86399), 0);
    assert_eq!(entry.num_24_hours_passed_at(100), 0);
    assert!(entry.num_24_hours_passed() > 19000);
    entry.add_email_sent();
    entry.add_email_sent();
    assert_eq!(entry.get_emails_sent(), 2);
    let future = CheckoutLogEntry::new(7, 10_000, Vec::new());
    assert!(!future.is_expired());
    assert_eq!(future.num_24_hours_passed(), 0);
}

#[test]
fn checkout_items_as_text() {
    let entry = CheckoutLogEntry::new_reservation(7, 0, 1, vec!["saw".to_string(), "drill".to_string()]);
    assert_eq!(entry.get_items_as_string(), "- saw<br>- drill<br>");
    let none = CheckoutLogEntry::new_reservation(7, 0, 1, Vec::new());
    assert_eq!(none.get_items_as_string(), "");
}

#[test]
fn checkout_entry_check_in() {
    let mut entry = CheckoutLogEntry::new_reservation(7, 0, 1, Vec::new());
    entry.check_in_at(77);
    assert!(entry.checked_in);
    assert_eq!(entry.timestamp_checked_in, Some(77));
    let mut entry = CheckoutLogEntry::new_reservation(7, 0, 1, Vec::new());
    entry.check_in();
    assert!(entry.checked_in);
    assert!(entry.timestamp_checked_in.unwrap() > 1_600_000_000);
    let copy = entry.duplicate();
    assert_eq!(copy.checkout_uuid, entry.checkout_uuid);
    assert_eq!(copy.timestamp_checked_in, entry.timestamp_checked_in);
}

#[test]
fn checkout_log_moves_entries_to_the_history() {
    let mut log = CheckoutLog::default();
    let a = CheckoutLogEntry::new_reservation(1, 0, 10, vec!["a".to_string()]);
    let b = CheckoutLogEntry::new_reservation(2, 0, 10, vec!["b".to_string()]);
    let a_id = a.checkout_uuid.clone();
    let b_id = b.checkout_uuid.clone();
    log.add_checkout(a);
    log.add_reservation(b);
    assert_eq!(log.get_current_checkouts().len(), 2);
    assert_eq!(log.check_in_at(a_id.clone(), 55), Ok(()));
    assert_eq!(log.currently_checked_out.len(), 1);
    assert_eq!(log.currently_checked_out[0].checkout_uuid, b_id);
    assert_eq!(log.checkout_history.len(), 1);
    assert_eq!(log.checkout_history[0].checkout_uuid, a_id);
    assert!(log.checkout_history[0].checked_in);
    assert_eq!(log.checkout_history[0].timestamp_checked_in, Some(55));
    assert_eq!(
        log.check_in(a_id),
        Err("Could not find checkout entry with UUID".to_string())
    );
    assert_eq!(log.check_in(b_id), Ok(()));
    assert!(log.get_current_checkouts().is_empty());
    assert_eq!(log.checkout_history.len(), 2);
}

#[test]
fn occupied_details_count_renewals() {
    let mut details = OccupiedDetails::new_at(9, 1000, 50);
    assert_eq!(details, OccupiedDetails { college_id: 9, timestamp_start: 50, timestamp_end: 1050, renewals_left: 2 });
    assert_eq!(details.get_length_of_checkout(), 1000);
    assert!(!details.is_overdue_at(1050));
    assert!(details.is_overdue_at(1051));
    assert!(details.is_overdue());
    details.extend_checkout(50);
    assert_eq!(details.timestamp_end, 1100);
    details.set_timestamp_end(2000);
    assert_eq!(details.timestamp_end, 2000);
    assert_eq!(details.censor(), OccupiedDetails { college_id: 0, timestamp_start: 50, timestamp_end: 2000, renewals_left: 0 });
    details.set_timestamp_end(10);
    assert_eq!(details.get_length_of_checkout(), 0);
}

#[test]
fn occupied_details_renew_within_the_last_day() {
    let mut details = OccupiedDetails::new_at(9, 100_000, 0);
    assert_eq!(details.renew_at(13_600), Err("Cannot renew slot until expiry date".to_string()));
    assert_eq!(details.timestamp_end, 100_000);
    assert_eq!(details.renew_at(13_601), Ok(()));
    assert_eq!(details.timestamp_end, 13_601 + 1_209_600);
    assert_eq!(details.renewals_left, 1);
    assert_eq!(details.renew_at(2_000_000), Ok(()));
    assert_eq!(details.renewals_left, 0);
    assert_eq!(details.renew_at(9_000_000), Err("No renewals left".to_string()));
    assert_eq!(details.renew(), Err("No renewals left".to_string()));
    let mut fresh = OccupiedDetails::new(9, 2_592_000);
    assert!(fresh.timestamp_start > 1_600_000_000);
    assert_eq!(fresh.timestamp_end, fresh.timestamp_start + 2_592_000);
    assert!(!fresh.is_overdue());
    assert_eq!(fresh.renew(), Err("Cannot renew slot until expiry date".to_string()));
    let mut old = OccupiedDetails::new_at(9, 10, 10);
    assert_eq!(old.renew(), Ok(()));
    assert_eq!(old.renewals_left, 1);
}

#[test]
fn slot_checkout_and_release() {
    let mut slot = Slot::new("A1".to_string());
    assert!(!slot.is_occupied());
    assert_eq!(slot.get_details(), None);
    assert_eq!(slot.get_id(), "A1");
    assert!(!slot.is_owner(&0));
    assert_eq!(slot.renew_at(5), Err("No slot found with id A1".to_string()));
    assert_eq!(slot.renew(), Err("No slot found with id A1".to_string()));
    slot.checkout_at(42, 100);
    assert!(slot.is_occupied());
    assert!(slot.is_owner(&42));
    assert!(!slot.is_owner(&43));
    assert_eq!(
        slot.get_details(),
        Some(OccupiedDetails { college_id: 42, timestamp_start: 100, timestamp_end: 100 + 2_592_000, renewals_left: 2 })
    );
    let hidden = slot.censor();
    assert_eq!(hidden.id, "A1");
    assert!(hidden.occupied);
    assert_eq!(hidden.occupied_details.unwrap().college_id, 0);
    assert_eq!(hidden.occupied_details.unwrap().renewals_left, 0);
    assert_eq!(hidden.occupied_details.unwrap().timestamp_end, 100 + 2_592_000);
    assert_eq!(slot.renew_at(2_592_000), Ok(()));
    assert_eq!(slot.get_details().unwrap().renewals_left, 1);
    slot.release(43);
    assert!(slot.is_occupied());
    slot.release(42);
    assert!(!slot.is_occupied());
    assert_eq!(slot.get_details(), None);
    slot.checkout(5);
    assert!(slot.is_owner(&5));
    assert!(slot.get_details().unwrap().timestamp_start > 1_600_000_000);
}

fn storage() -> StudentStorage {
    let mut storage = StudentStorage::new();
    storage.slots.push(Slot::new("A1".to_string()));
    storage.slots.push(Slot::new("A2".to_string()));
    storage.slots.push(Slot::new("B1".to_string()));
    storage
}

#[test]
fn storage_slots_by_id() {
    let mut storage = storage();
    assert!(storage.checkout_slot_by_id_at(&7, &"A2".to_string(), 100));
    assert!(!storage.checkout_slot_by_id_at(&7, &"Z9".to_string(), 100));
    assert!(storage.checkout_slot_by_id(&8, &"B1".to_string()));
    assert!(storage.slots[1].is_owner(&7));
    assert!(storage.slots[2].is_owner(&8));
    assert!(!storage.slots[0].is_occupied());
    assert_eq!(
        storage.renew_by_id_at(&7, &"A1".to_string(), 5),
        Err("No slot found with id A1".to_string())
    );
    assert_eq!(
        storage.renew_by_id_at(&8, &"A2".to_string(), 5),
        Err("No slot found with id A2".to_string())
    );
    assert_eq!(
        storage.renew_by_id_at(&7, &"A2".to_string(), 5),
        Err("Cannot renew slot until expiry date".to_string())
    );
    assert_eq!(storage.renew_by_id_at(&7, &"A2".to_string(), 2_592_000), Ok(()));
    assert_eq!(storage.slots[1].get_details().unwrap().timestamp_end, 2_592_000 + 1_209_600);
    assert_eq!(
        storage.renew_by_id(&8, &"B1".to_string()),
        Err("Cannot renew slot until expiry date".to_string())
    );
    storage.release_by_id(&8, &"A2".to_string());
    assert!(storage.slots[1].is_occupied());
    storage.release_by_id(&7, &"A2".to_string());
    assert!(!storage.slots[1].is_occupied());
}

#[test]
fn storage_view_censors_other_peoples_slots() {
    let mut storage = storage();
    storage.checkout_slot_by_id_at(&7, &"A1".to_string(), 100);
    storage.checkout_slot_by_id_at(&8, &"A2".to_string(), 100);
    let seen = storage.view_for_id(&7);
    assert_eq!(seen.slots.len(), 3);
    assert_eq!(seen.slots[0].get_details().unwrap().college_id, 7);
    assert_eq!(seen.slots[0].get_details().unwrap().renewals_left, 2);
    assert_eq!(seen.slots[1].get_details().unwrap().college_id, 0);
    assert_eq!(seen.slots[1].get_details().unwrap().renewals_left, 0);
    assert!(seen.slots[1].is_occupied());
    assert_eq!(seen.slots[2].get_details(), None);
    let by_user = storage.view_for_user(&user(8, "ann"));
    assert_eq!(by_user.slots[0].get_details().unwrap().college_id, 0);
    assert_eq!(by_user.slots[1].get_details().unwrap().college_id, 8);
}

#[test]
fn storage_needs_update_when_the_layout_differs() {
    let current = storage();
    assert!(!current.needs_update(&storage()));
    let mut longer = storage();
    longer.slots.push(Slot::new("B2".to_string()));
    assert!(current.needs_update(&longer));
    let mut renamed = storage();
    renamed.slots[1] = Slot::new("C7".to_string());
    assert!(current.needs_update(&renamed));
    let mut occupied = storage();
    occupied.checkout_slot_by_id_at(&1, &"A1".to_string(), 0);
    assert!(!occupied.needs_update(&current));
}

#[test]
fn printer_status_from_flags() {
    let flags = PrinterWebhookStateFlags {
        operational: true,
        printing: false,
        cancelling: false,
        pausing: false,
        resuming: false,
        finishing: false,
        closedOrError: false,
        error: false,
        paused: false,
        ready: true,
        sdReady: true,
    };
    let state = |flags| PrinterWebhookState { text: "state".to_string(), flags };
    assert_eq!(PrinterStatus::from_webhook(&state(flags)), PrinterStatus::Idle);
    assert_eq!(PrinterStatus::from_webhook(&state(PrinterWebhookStateFlags { printing: true, paused: true, error: true, ..flags })), PrinterStatus::Printing);
    assert_eq!(PrinterStatus::from_webhook(&state(PrinterWebhookStateFlags { paused: true, error: true, ..flags })), PrinterStatus::Paused);
    assert_eq!(PrinterStatus::from_webhook(&state(PrinterWebhookStateFlags { error: true, ..flags })), PrinterStatus::Error);
    assert_eq!(PrinterStatus::from_webhook(&state(PrinterWebhookStateFlags { operational: false, printing: true, ..flags })), PrinterStatus::Offline);
    assert_eq!(PrinterStatus::default(), PrinterStatus::Idle);
}

#[test]
fn printer_fields() {
    let mut printer = Printer::new("mk3-1");
    assert_eq!(printer.id, "mk3-1");
    assert_eq!(printer.get_status(), PrinterStatus::Idle);
    assert_eq!(printer.last_updated, 0);
    printer.set_status_at(PrinterStatus::Printing, 99);
    assert_eq!(printer.get_status(), PrinterStatus::Printing);
    assert_eq!(printer.last_updated, 99);
    printer.set_status(PrinterStatus::Paused);
    assert_eq!(printer.get_status(), PrinterStatus::Paused);
    assert!(printer.last_updated > 1_600_000_000);
    printer.set_time_left(300);
    assert_eq!(printer.current_time_left, 300);
    assert_eq!(printer.duplicate().id, "mk3-1");
}

#[test]
fn printers_by_id() {
    let mut printers = Printers::new();
    assert!(!printers.has_printer("a"));
    printers.add_set_printer(Printer::new("a"));
    printers.add_set_printer(Printer::new("b"));
    assert!(printers.has_printer("a"));
    assert!(printers.has_printer("b"));
    assert!(!printers.has_printer("c"));
    let mut busy = Printer::new("a");
    busy.set_status_at(PrinterStatus::Printing, 5);
    printers.add_set_printer(busy);
    assert_eq!(printers.printers.len(), 2);
    assert_eq!(printers.get_printer_by_id("a").unwrap().get_status(), PrinterStatus::Printing);
    assert_eq!(printers.get_printer_by_id("b").unwrap().get_status(), PrinterStatus::Idle);
    assert!(printers.get_printer_by_id("c").is_none());
    let idle = printers.get_available_printers();
    assert_eq!(idle.len(), 1);
    assert_eq!(idle[0].id, "b");
}

#[test]
fn print_log_grows() {
    let mut printers = Printers::new();
    printers.add_log(PrintLogEntry { timestamp: 3, printer_id: "a".to_string(), college_id: 9 });
    printers.create_add_log("b".to_string(), 10);
    assert_eq!(printers.print_log.len(), 2);
    assert_eq!(printers.print_log[1].printer_id, "b");
    assert_eq!(printers.print_log[1].college_id, 10);
    assert!(printers.print_log[1].timestamp > 1_600_000_000);
}

#[test]
fn print_queue_places() {
    let mut printers = Printers::new();
    let ann = user(1, "ann");
    let bob = user(2, "bob");
    let cy = user(3, "cy");
    assert_eq!(printers.add_user_to_queue(&ann), Ok(()));
    assert_eq!(printers.add_user_to_queue(&bob), Ok(()));
    assert_eq!(printers.add_user_to_queue(&ann), Err("User is already in queue".to_string()));
    assert_eq!(printers.add_user_to_queue(&cy), Ok(()));
    assert_eq!(printers.get_print_queue_length(), 3);
    assert_eq!(printers.get_queue_pos_for(2), Some(1));
    assert_eq!(printers.get_queue_pos_for(9), None);
    assert_eq!(printers.get_queue_at(2).unwrap().college_id, 3);
    assert_eq!(printers.get_queue_at(2).unwrap().email, "cy@example.edu");
    assert!(printers.get_queue_at(3).is_none());
    printers.move_queue_index(2, 0);
    assert_eq!(printers.get_queue_pos_for(3), Some(0));
    assert_eq!(printers.get_queue_pos_for(1), Some(1));
    assert_eq!(printers.get_queue_pos_for(2), Some(2));
    printers.move_queue_index(0, 2);
    assert_eq!(printers.get_queue_pos_for(3), Some(2));
    let mut place = printers.get_queue_at(0).unwrap();
    place.accept_at(44);
    printers.update_queue_at(0, place);
    assert_eq!(printers.get_queue_at(0).unwrap().timestamp_accepted, Some(44));
    assert_eq!(printers.remove_user_from_queue(&bob), Ok(()));
    assert_eq!(printers.remove_user_from_queue(&bob), Err("User is not in queue".to_string()));
    assert_eq!(printers.get_print_queue_length(), 2);
}

fn place(id: u64, notified: Option<u64>, accepted: Option<u64>) -> PrintQueueEntry {
    PrintQueueEntry {
        uuid: format!("place-{}", id),
        college_id: id,
        email: String::new(),
        timestamp_submitted: 0,
        timestamp_notified: notified,
        timestamp_accepted: accepted,
    }
}

#[test]
fn queue_place_lapses_after_a_quarter_of_an_hour() {
    let waiting = place(1, None, None);
    assert!(!waiting.was_notified());
    assert!(!waiting.was_accepted());
    assert!(!waiting.has_expired_at(u64::MAX));
    assert!(!waiting.has_expired());
    let told = place(2, Some(1000), None);
    assert!(told.was_notified());
    assert!(!told.has_expired_at(1900));
    assert!(told.has_expired_at(1901));
    assert!(told.has_expired());
    let accepted = place(3, Some(1000), Some(5000));
    assert!(accepted.was_accepted());
    assert!(!accepted.has_expired_at(5900));
    assert!(accepted.has_expired_at(5901));
    let late = place(4, None, Some(u64::MAX));
    assert!(!late.has_expired_at(u64::MAX));
    let mut entry = place(5, None, None);
    entry.mark_notified_at(7);
    assert_eq!(entry.timestamp_notified, Some(7));
    entry.accept();
    assert!(entry.timestamp_accepted.unwrap() > 1_600_000_000);
    assert!(!entry.has_expired());
    assert_eq!(entry.duplicate().uuid, "place-5");
}

#[test]
fn queue_cleanup_moves_lapsed_places_to_the_log() {
    let mut printers = Printers::new();
    printers.queue.push(place(1, None, None));
    printers.queue.push(place(2, Some(1000), None));
    printers.queue.push(place(3, Some(1000), Some(5000)));
    printers.queue.push(place(4, Some(4500), None));
    printers.cleanup_print_queue_at(5500);
    let left: Vec<u64> = printers.queue.iter().map(|e| e.college_id).collect();
    let logged: Vec<u64> = printers.queue_log.iter().map(|e| e.college_id).collect();
    assert_eq!(left, vec![1, 3]);
    assert_eq!(logged, vec![2, 4]);
    printers.cleanup_print_queue();
    let left: Vec<u64> = printers.queue.iter().map(|e| e.college_id).collect();
    let logged: Vec<u64> = printers.queue_log.iter().map(|e| e.college_id).collect();
    assert_eq!(left, vec![1]);
    assert_eq!(logged, vec![2, 4, 3]);
}

#[test]
fn quiz_answers() {
    let mut quiz = Quiz::new("123", QuizName::Welding);
    assert_eq!(quiz.id, "123");
    assert_eq!(quiz.last_updated, 0);
    assert_eq!(*quiz.get_name(), QuizName::Welding);
    assert!(quiz.get_responses().is_empty());
    assert!(!quiz.passed_by(&5));
    quiz.responses.push(response(5, "ann"));
    quiz.responses.push(response(6, "bob"));
    assert!(quiz.passed_by(&5));
    assert!(quiz.passed_by(&6));
    assert!(!quiz.passed_by(&7));
    assert_eq!(quiz.get_responses().len(), 2);
    assert_eq!(QuizName::default(), QuizName::General);
}

#[test]
fn quiz_addresses() {
    assert_eq!(
        get_quiz_url("66546920"),
        "https://docs.google.com/spreadsheets/d/e/2PACX-1vRyOdR5ZzocTVLi02rPVQPVwoGyuPrGmULHznFB66pDnqsWrCWVTi5JM5KCbBn8oMVLa-vwIS3RvK6z/pub?gid=66546920&single=true&output=csv"
    );
    let all = get_all_quizzes();
    let names: Vec<QuizName> = all.iter().map(|q| q.name).collect();
    assert_eq!(
        names,
        vec![
            QuizName::General,
            QuizName::Laser3D,
            QuizName::SprayPaint,
            QuizName::Composite,
            QuizName::Welding,
            QuizName::Studio,
            QuizName::Waterjet
        ]
    );
    let ids: Vec<&str> = all.iter().map(|q| q.id.as_str()).collect();
    assert_eq!(
        ids,
        vec!["66546920", "1524924728", "1841312496", "913890505", "482685426", "2079405017", "2100779718"]
    );
}

#[test]
fn user_quizzes_and_levels() {
    let mut ann = user(1, "ann");
    assert_eq!(ann.get_id(), 1);
    assert_eq!(ann.get_name(), "ann");
    assert_eq!(ann.get_email(), "ann@example.edu");
    assert_eq!(ann.get_auth_level(), AuthLevel::User);
    assert!(ann.get_passed_quizzes().is_empty());
    ann.log_quiz(QuizName::General, true);
    ann.log_quiz(QuizName::Welding, false);
    ann.log_quiz(QuizName::Studio, true);
    assert_eq!(ann.get_passed_quizzes(), vec![QuizName::General, QuizName::Studio]);
    ann.set_quiz_passed(&QuizName::General, true);
    assert_eq!(ann.get_passed_quizzes(), vec![QuizName::General, QuizName::Studio, QuizName::General]);
    ann.set_quiz_passed(&QuizName::General, false);
    assert_eq!(ann.get_passed_quizzes(), vec![QuizName::Studio]);
    ann.set_auth_level(AuthLevel::Steward);
    assert_eq!(ann.get_auth_level(), AuthLevel::Steward);
    assert_eq!(AuthLevel::default(), AuthLevel::User);
    assert!(AuthLevel::Banned.rank() < AuthLevel::User.rank());
    assert!(AuthLevel::Admin.rank() < AuthLevel::System.rank());
    let copy = ann.duplicate();
    assert_eq!(copy.get_name(), "ann");
    assert_eq!(copy.get_passed_quizzes(), vec![QuizName::Studio]);
    let place = ann.create_print_queue_entry();
    assert_eq!(place.college_id, 1);
    assert_eq!(place.email, "ann@example.edu");
    assert_eq!(place.uuid.len(), 36);
    assert!(place.timestamp_submitted > 1_600_000_000);
    assert_eq!(place.timestamp_notified, None);
    assert_eq!(place.timestamp_accepted, None);
}

#[test]
fn button_log_by_time() {
    let mut log = ButtonRecordLog::new();
    assert_eq!(log.get_last_update(), 0);
    for (t, station) in [(10u64, "a"), (20, "b"), (30, "c"), (15, "d")] {
        log.add(ButtonRecord {
            college: College::Pomona,
            timestamp: t,
            station_id: station.to_string(),
            length_milliseconds: 5,
        });
    }
    assert_eq!(log.get_last_update(), 15);
    assert_eq!(log.get_log().len(), 4);
    let within: Vec<String> = log.get_log_by_timerange(15, 30).iter().map(|r| r.station_id.clone()).collect();
    assert_eq!(within, vec!["b".to_string(), "c".to_string(), "d".to_string()]);
    assert!(log.get_log_by_timerange(31, 40).is_empty());
    assert_eq!(log.get_log_by_timerange(10, 10).len(), 1);
    log.get_log_mut().clear();
    assert!(log.get_log().is_empty());
    assert_eq!(log.get_last_update(), 15);
    assert_eq!(College::default(), College::NA);
}

#[test]
fn storage_layout_from_sizings() {
    let storage = StudentStorage::from_sizings(&vec![
        ("A".to_string(), 2),
        ("B".to_string(), 0),
        ("C".to_string(), -4),
        ("Shelf".to_string(), 11),
    ]);
    let ids: Vec<&str> = storage.slots.iter().map(|s| s.id.as_str()).collect();
    assert_eq!(
        ids,
        vec![
            "A1", "A2", "Shelf1", "Shelf2", "Shelf3", "Shelf4", "Shelf5", "Shelf6", "Shelf7",
            "Shelf8", "Shelf9", "Shelf10", "Shelf11"
        ]
    );
    assert!(storage.slots.iter().all(|s| !s.occupied && s.occupied_details.is_none()));
    assert!(StudentStorage::from_sizings(&Vec::new()).slots.is_empty());
}

#[test]
fn printers_from_a_list_of_ids() {
    let mut printers = Printers::new();
    let mut busy = Printer::new("b");
    busy.set_status_at(PrinterStatus::Printing, 5);
    printers.add_set_printer(busy);
    printers.add_printers(&vec!["a".to_string(), "b".to_string(), "a".to_string()]);
    let ids: Vec<&str> = printers.printers.iter().map(|p| p.id.as_str()).collect();
    assert_eq!(ids, vec!["b", "a"]);
    assert_eq!(printers.get_printer_by_id("b").unwrap().get_status(), PrinterStatus::Idle);
}

#[test]
fn printer_report_needs_the_key() {
    let flags = PrinterWebhookStateFlags {
        operational: true,
        printing: true,
        cancelling: false,
        pausing: false,
        resuming: false,
        finishing: false,
        closedOrError: false,
        error: false,
        paused: false,
        ready: true,
        sdReady: true,
    };
    let state = PrinterWebhookState { text: "Printing".to_string(), flags };
    let mut printers = Printers::new();
    printers.add_set_printer(Printer::new("a"));
    assert_eq!(
        printers.add_printer_status("a", "wrong", "key", &state, 60, 1000),
        Err("Invalid API key".to_string())
    );
    assert_eq!(printers.get_printer_by_id("a").unwrap().get_status(), PrinterStatus::Idle);
    assert_eq!(
        printers.add_printer_status("z", "key", "key", &state, 60, 1000),
        Err("Unknown printer".to_string())
    );
    assert_eq!(printers.add_printer_status("a", "key", "key", &state, 60, 1000), Ok(()));
    let a = printers.get_printer_by_id("a").unwrap();
    assert_eq!(a.get_status(), PrinterStatus::Printing);
    assert_eq!(a.last_updated, 1000);
    assert_eq!(a.current_time_left, 60);
}

#[test]
fn next_in_the_queue_is_told_and_logged() {
    let mut printers = Printers::new();
    assert!(printers.process_next_queue_entry(5).is_none());
    printers.queue.push(place(1, None, None));
    printers.queue.push(place(2, None, None));
    let told = printers.process_next_queue_entry(77).unwrap();
    assert_eq!(told.college_id, 1);
    assert_eq!(told.timestamp_notified, Some(77));
    assert_eq!(printers.get_print_queue_length(), 1);
    assert_eq!(printers.queue[0].college_id, 2);
    assert_eq!(printers.queue_log.len(), 1);
    assert_eq!(printers.queue_log[0].college_id, 1);
    assert_eq!(printers.queue_log[0].timestamp_notified, Some(77));
}

#[test]
fn answer_sheet_from_a_row() {
    let row: Vec<String> = ["1/2/2023 10:00", "100 / 100", "Ann Lee", "4001-2345 x", "ann@example.edu", "extra"]
        .iter()
        .map(|c| c.to_string())
        .collect();
    let sheet = Response::new_from_line(row);
    assert_eq!(sheet.timestamp, "1/2/2023 10:00");
    assert!(sheet.passed);
    assert_eq!(sheet.name, "Ann Lee");
    assert_eq!(sheet.college_id, 4001);
    assert_eq!(sheet.college_email, "ann@example.edu");
}

#[test]
fn college_id_from_a_cell() {
    assert_eq!(Response::parse_college_id("40012345".to_string()), 40012345);
    assert_eq!(Response::parse_college_id("4001 2345".to_string()), 40012345);
    assert_eq!(Response::parse_college_id("id: 77-8".to_string()), 77);
    assert_eq!(Response::parse_college_id("-5".to_string()), 0);
    assert_eq!(Response::parse_college_id("none".to_string()), 0);
    assert_eq!(Response::parse_college_id("".to_string()), 0);
    assert_eq!(Response::parse_college_id("99999999999999999999999".to_string()), 0);
}

#[test]
fn score_shows_a_pass_when_both_sides_agree() {
    assert!(Response::determine_if_passed("100 / 100".to_string()));
    assert!(Response::determine_if_passed("7/7".to_string()));
    assert!(!Response::determine_if_passed("90 / 100".to_string()));
    assert!(!Response::determine_if_passed("100".to_string()));
    assert!(Response::determine_if_passed(" 3 /3/ 9".to_string()));
    assert!(make::quizzes::passed_from_pieces(&vec!["a ".to_string(), " a".to_string()]));
    assert!(!make::quizzes::passed_from_pieces(&vec!["a".to_string()]));
}

#[test]
fn users_from_quizzes() {
    let mut general = Quiz::new("1", QuizName::General);
    general.responses.push(response(1, "ann"));
    general.responses.push(Response { passed: false, ..response(2, "bob") });
    let mut welding = Quiz::new("2", QuizName::Welding);
    welding.responses.push(response(2, "robert"));
    welding.responses.push(response(1, "ann"));
    let users = make::users::create_users_from_quizzes(&vec![general, welding]);
    assert_eq!(users.len(), 2);
    let ann = users.get_user_by_id(&1).unwrap();
    assert_eq!(ann.get_passed_quizzes(), vec![QuizName::General, QuizName::Welding]);
    let bob = users.get_user(&user(2, "anyone")).unwrap();
    assert_eq!(bob.get_name(), "bob");
    assert_eq!(bob.get_passed_quizzes(), vec![QuizName::Welding]);
    assert!(users.has_user(&user(1, "x")));
    assert!(users.has_id(&2));
    assert!(!users.has_id(&3));
    assert!(users.get_user_by_id(&3).is_none());
}

#[test]
fn users_are_filed_by_id() {
    let mut users = make::users::Users::new();
    assert_eq!(users.len(), 0);
    users.add_set_user(user(5, "eve"));
    users.add_set_user(user(6, "fay"));
    let mut eve = user(5, "eve");
    eve.set_auth_level(AuthLevel::Admin);
    users.add_set_user(eve);
    assert_eq!(users.len(), 2);
    assert_eq!(users.get_user_by_id(&5).unwrap().get_auth_level(), AuthLevel::Admin);
}

#[test]
fn user_merge_takes_the_union_and_the_higher_level() {
    let mut ann = user(1, "ann");
    ann.log_quiz(QuizName::Welding, true);
    ann.log_quiz(QuizName::General, true);
    ann.log_quiz(QuizName::Welding, true);
    ann.set_auth_level(AuthLevel::Steward);
    let mut other = user(1, "ann b");
    other.log_quiz(QuizName::Laser3D, true);
    other.log_quiz(QuizName::General, true);
    ann.update_soft_from(&other);
    assert_eq!(ann.get_passed_quizzes(), vec![QuizName::General, QuizName::Laser3D, QuizName::Welding]);
    assert_eq!(ann.get_auth_level(), AuthLevel::Steward);
    assert_eq!(ann.get_name(), "ann");
    other.set_auth_level(AuthLevel::Admin);
    ann.update_soft_from(&other);
    assert_eq!(ann.get_auth_level(), AuthLevel::Admin);
    other.set_auth_level(AuthLevel::Banned);
    ann.update_soft_from(&other);
    assert_eq!(ann.get_auth_level(), AuthLevel::Admin);
}

#[test]
fn user_checkouts() {
    let mut log = CheckoutLog::default();
    let a = CheckoutLogEntry::new_reservation(1, 0, 10, vec!["a".to_string()]);
    let a_id = a.checkout_uuid.clone();
    log.add_checkout(a);
    log.add_checkout(CheckoutLogEntry::new_reservation(2, 0, 10, vec!["b".to_string()]));
    log.add_checkout(CheckoutLogEntry::new_reservation(1, 0, 10, vec!["c".to_string()]));
    let ann = user(1, "ann");
    let pending: Vec<String> = ann.get_pending_checked_out_items(&log).iter().map(|e| e.items[0].clone()).collect();
    assert_eq!(pending, vec!["a".to_string(), "c".to_string()]);
    log.check_in_at(a_id, 5).unwrap();
    let pending: Vec<String> = ann.get_pending_checked_out_items(&log).iter().map(|e| e.items[0].clone()).collect();
    assert_eq!(pending, vec!["c".to_string()]);
    let all: Vec<String> = ann.get_all_checked_out_items(&log).iter().map(|e| e.items[0].clone()).collect();
    assert_eq!(all, vec!["c".to_string(), "a".to_string()]);
    assert!(user(9, "zed").get_all_checked_out_items(&log).is_empty());
}

#[test]
fn button_log_rows() {
    let mut log = ButtonRecordLog::new();
    log.add(ButtonRecord { college: College::HarveyMudd, timestamp: 1234, station_id: "door".to_string(), length_milliseconds: 5 });
    log.add(ButtonRecord { college: College::NA, timestamp: 0, station_id: "".to_string(), length_milliseconds: 5 });
    assert_eq!(
        log.csv_rows(),
        vec![
            vec!["1234".to_string(), "door".to_string(), "HarveyMudd".to_string()],
            vec!["0".to_string(), "".to_string(), "NA".to_string()]
        ]
    );
    assert_eq!(College::ClaremontGraduateUniversity.name(), "ClaremontGraduateUniversity");
}

#[test]
fn users_take_over_another_list() {
    let mut ours = make::users::Users::new();
    let mut ann = user(1, "ann");
    ann.log_quiz(QuizName::Welding, true);
    ours.add_set_user(ann);
    ours.add_set_user(user(2, "bob"));
    let mut theirs = make::users::Users::new();
    let mut ann_too = user(1, "ann other");
    ann_too.log_quiz(QuizName::General, true);
    ann_too.log_quiz(QuizName::Welding, true);
    ann_too.set_auth_level(AuthLevel::Steward);
    theirs.add_set_user(ann_too);
    let mut cy = user(3, "cy");
    cy.log_quiz(QuizName::Studio, true);
    theirs.add_set_user(cy);
    ours.update_from(&theirs);
    assert_eq!(ours.len(), 3);
    let ann = ours.get_user_by_id(&1).unwrap();
    assert_eq!(ann.get_name(), "ann");
    assert_eq!(ann.get_passed_quizzes(), vec![QuizName::General, QuizName::Welding]);
    assert_eq!(ann.get_auth_level(), AuthLevel::Steward);
    let bob = ours.get_user_by_id(&2).unwrap();
    assert_eq!(bob.get_name(), "bob");
    assert!(bob.get_passed_quizzes().is_empty());
    let cy = ours.get_user_by_id(&3).unwrap();
    assert_eq!(cy.get_name(), "cy");
    assert_eq!(cy.get_passed_quizzes(), vec![QuizName::Studio]);
    ours.update_from(&make::users::Users::new());
    assert_eq!(ours.len(), 3);
}

#[test]
fn printers_are_listed_by_id() {
    let mut printers = Printers::new();
    for id in ["mk3-2", "ender", "mk3-10", "mk3-1"] {
        printers.add_set_printer(Printer::new(id));
    }
    let ids: Vec<String> = printers.get_printer_statuses().iter().map(|p| p.id.clone()).collect();
    assert_eq!(ids, vec!["ender", "mk3-1", "mk3-10", "mk3-2"]);
    assert_eq!(printers.printers[0].id, "mk3-2");
    assert!(Printers::new().get_printer_statuses().is_empty());
}

#[test]
fn slot_renewal_by_the_clock() {
    let mut due = Slot::new("A1".to_string());
    due.checkout_at(7, 0);
    let mut details = due.get_details().unwrap();
    details.set_timestamp_end(10);
    due.occupied_details = Some(details);
    assert_eq!(due.renew(), Ok(()));
    let renewed = due.get_details().unwrap();
    assert_eq!(renewed.renewals_left, 1);
    assert_eq!(renewed.college_id, 7);
    assert!(renewed.timestamp_end > 1_600_000_000 + 1_209_600);
    assert_eq!(due.renew(), Err("Cannot renew slot until expiry date".to_string()));
    assert_eq!(due.get_details().unwrap(), renewed);

    let mut spent = Slot::new("A2".to_string());
    spent.checkout_at(7, 0);
    let mut details = spent.get_details().unwrap();
    details.renewals_left = 0;
    spent.occupied_details = Some(details);
    assert_eq!(spent.renew(), Err("No renewals left".to_string()));
    assert_eq!(spent.renew_at(5), Err("No renewals left".to_string()));
    assert_eq!(spent.get_details().unwrap(), details);

    let mut free = Slot::new("B7".to_string());
    assert_eq!(free.renew(), Err("No slot found with id B7".to_string()));
    assert!(!free.is_occupied());
}
