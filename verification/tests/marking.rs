use attendance::clock::Moment;
use attendance::commands::{
    get_all_attendance, get_attendance_by_date, get_member_list, mark_attendance,
    mark_attendance_at, resolve_or_create_member, Resolution,
};
use attendance::rules::{attendance_status, duplicate_message};
use attendance::store::Store;

fn at(date: &str, hour: u32, minute: u32) -> Moment {
    Moment {
        date: date.to_string(),
        timestamp: format!("{}T{:02}:{:02}:00+00:00", date, hour, minute),
        hour,
        minute,
    }
}

fn mark(
    store: &mut Store,
    badge: &str,
    role: &str,
    when: Moment,
    member_id: &str,
    record_id: &str,
) -> Result<attendance::records::AttendanceRecord, String> {
    mark_attendance_at(
        store,
        badge.to_string(),
        role.to_string(),
        when,
        member_id.to_string(),
        record_id.to_string(),
    )
}

#[test]
fn early_marking_is_present_and_enters_member_and_row() {
    let mut store = Store::new();
    let record = mark(&mut store, "A100", "student", at("2024-03-04", 6, 30), "m-1", "r-1").unwrap();
    assert_eq!(record.status, "Present");
    assert_eq!(record.id, "r-1");
    assert_eq!(record.member_id, "m-1");
    assert_eq!(record.date, "2024-03-04");
    assert_eq!(record.timestamp, "2024-03-04T06:30:00+00:00");
    assert_eq!(record.prefect_number, Some("A100".to_string()));
    assert_eq!(record.role, Some("student".to_string()));

    let members = get_member_list(&store).unwrap();
    assert_eq!(members.len(), 1);
    assert_eq!(members[0].prefect_number, "A100");
    assert_eq!(members[0].role, "student");
    assert_eq!(members[0].name, None);
    assert_eq!(members[0].id, "m-1");

    let today = get_attendance_by_date(&store, "2024-03-04".to_string()).unwrap();
    assert_eq!(today.len(), 1);
    assert_eq!(today[0], record);
}

#[test]
fn second_marking_on_the_same_day_is_refused_and_changes_nothing() {
    let mut store = Store::new();
    mark(&mut store, "A100", "student", at("2024-03-04", 6, 30), "m-1", "r-1").unwrap();
    let again = mark(&mut store, "A100", "student", at("2024-03-04", 9, 15), "m-2", "r-2");
    let why = again.unwrap_err();
    assert!(why.contains("A100"));
    assert!(why.contains("2024-03-04"));
    assert_eq!(why, "Attendance already marked for A100 today (2024-03-04)");
    assert_eq!(store.member_count(), 1);
    assert_eq!(store.row_count(), 1);
    assert_eq!(get_all_attendance(&store).unwrap().len(), 1);
}

#[test]
fn second_marking_is_refused_whatever_the_role() {
    let mut store = Store::new();
    mark(&mut store, "A100", "student", at("2024-03-04", 6, 30), "m-1", "r-1").unwrap();
    let again = mark(&mut store, "A100", "staff", at("2024-03-04", 6, 31), "m-2", "r-2");
    assert!(again.is_err());
    assert_eq!(store.member_count(), 1);
    assert_eq!(store.row_count(), 1);
}

#[test]
fn marking_on_the_next_day_is_accepted_for_the_same_member() {
    let mut store = Store::new();
    mark(&mut store, "A100", "student", at("2024-03-04", 6, 30), "m-1", "r-1").unwrap();
    let next = mark(&mut store, "A100", "student", at("2024-03-05", 7, 45), "m-2", "r-2").unwrap();
    assert_eq!(next.member_id, "m-1");
    assert_eq!(next.status, "Late");
    assert_eq!(store.member_count(), 1);
    assert_eq!(store.row_count(), 2);
}

#[test]
fn first_marking_of_a_known_member_enters_no_member() {
    let mut store = Store::new();
    mark(&mut store, "A100", "student", at("2024-03-04", 6, 30), "m-1", "r-1").unwrap();
    mark(&mut store, "B200", "staff", at("2024-03-04", 6, 40), "m-2", "r-2").unwrap();
    assert_eq!(store.member_count(), 2);
    assert_eq!(store.row_count(), 2);
    mark(&mut store, "B200", "staff", at("2024-03-05", 6, 40), "m-3", "r-3").unwrap();
    assert_eq!(store.member_count(), 2);
    assert_eq!(store.row_count(), 3);
}

#[test]
fn marking_a_known_badge_shows_the_role_of_its_member() {
    let mut store = Store::new();
    let first = mark(&mut store, "A100", "student", at("2024-03-04", 6, 30), "m-1", "r-1").unwrap();
    assert_eq!(first.role, Some("student".to_string()));
    let next = mark(&mut store, "A100", "staff", at("2024-03-05", 6, 30), "m-2", "r-2").unwrap();
    assert_eq!(next.member_id, "m-1");
    assert_eq!(next.role, Some("student".to_string()));
    let members = get_member_list(&store).unwrap();
    assert_eq!(members[0].role, "student");
    let listed = get_attendance_by_date(&store, "2024-03-05".to_string()).unwrap();
    assert_eq!(listed[0], next);
}

#[test]
fn status_at_seven_sharp_is_present() {
    assert_eq!(attendance_status(7, 0), "Present");
    let mut store = Store::new();
    let record = mark(&mut store, "A100", "student", at("2024-03-04", 7, 0), "m-1", "r-1").unwrap();
    assert_eq!(record.status, "Present");
}

#[test]
fn status_from_one_past_seven_is_late() {
    assert_eq!(attendance_status(7, 1), "Late");
    assert_eq!(attendance_status(7, 30), "Late");
    assert_eq!(attendance_status(7, 59), "Late");
    let mut store = Store::new();
    let record = mark(&mut store, "A100", "student", at("2024-03-04", 7, 1), "m-1", "r-1").unwrap();
    assert_eq!(record.status, "Late");
}

#[test]
fn status_just_before_seven_is_present() {
    assert_eq!(attendance_status(6, 59), "Present");
    assert_eq!(attendance_status(0, 0), "Present");
}

#[test]
fn status_at_eight_is_late() {
    assert_eq!(attendance_status(8, 0), "Late");
    assert_eq!(attendance_status(23, 59), "Late");
}

#[test]
fn duplicate_message_names_badge_and_day() {
    let text = duplicate_message(&"Z9".to_string(), &"2024-12-31".to_string());
    assert_eq!(text, "Attendance already marked for Z9 today (2024-12-31)");
}

#[test]
fn new_badge_with_a_taken_member_identifier_is_refused() {
    let mut store = Store::new();
    mark(&mut store, "A100", "student", at("2024-03-04", 6, 30), "m-1", "r-1").unwrap();
    let clash = mark(&mut store, "B200", "staff", at("2024-03-04", 6, 31), "m-1", "r-2");
    assert_eq!(clash.unwrap_err(), "UNIQUE constraint failed: members.id");
    assert_eq!(store.member_count(), 1);
    assert_eq!(store.row_count(), 1);
}

#[test]
fn taken_row_identifier_is_refused_and_enters_no_member() {
    let mut store = Store::new();
    mark(&mut store, "A100", "student", at("2024-03-04", 6, 30), "m-1", "r-1").unwrap();
    let clash = mark(&mut store, "B200", "staff", at("2024-03-04", 6, 31), "m-2", "r-1");
    assert_eq!(clash.unwrap_err(), "UNIQUE constraint failed: attendance.id");
    assert_eq!(store.member_count(), 1);
    assert_eq!(store.row_count(), 1);
}

#[test]
fn resolving_finds_a_known_badge_and_enters_an_unknown_one() {
    let mut store = Store::new();
    let badge = "A100".to_string();
    let role = "student".to_string();
    let first = resolve_or_create_member(&mut store, &badge, &role, "m-1".to_string());
    assert_eq!(first, Ok(Resolution::Created("m-1".to_string())));
    assert_eq!(store.member_count(), 1);
    let second = resolve_or_create_member(&mut store, &badge, &role, "m-2".to_string());
    assert_eq!(second, Ok(Resolution::Found("m-1".to_string())));
    assert_eq!(store.member_count(), 1);
    let clash = resolve_or_create_member(&mut store, &"B200".to_string(), &role, "m-1".to_string());
    assert_eq!(clash, Err("UNIQUE constraint failed: members.id".to_string()));
    assert_eq!(store.member_count(), 1);
}

#[test]
fn marking_now_draws_identifiers_and_reads_the_clock() {
    let mut store = Store::new();
    let record = mark_attendance(&mut store, "A100".to_string(), "student".to_string()).unwrap();
    assert_eq!(record.id.len(), 36);
    assert_eq!(record.member_id.len(), 36);
    assert_ne!(record.id, record.member_id);
    assert_eq!(record.date.len(), 10);
    assert_eq!(record.date.as_bytes()[4], b'-');
    assert_eq!(record.date.as_bytes()[7], b'-');
    assert!(record.timestamp.starts_with(&record.date));
    assert!(record.status == "Present" || record.status == "Late");
    assert_eq!(record.prefect_number, Some("A100".to_string()));
    assert_eq!(store.member_count(), 1);
    assert_eq!(store.row_count(), 1);

    let other = mark_attendance(&mut store, "B200".to_string(), "staff".to_string()).unwrap();
    assert_ne!(other.id, record.id);
    assert_ne!(other.member_id, record.member_id);
    assert_eq!(store.member_count(), 2);
    assert_eq!(store.row_count(), 2);
}

#[test]
fn marking_now_twice_is_refused_the_second_time() {
    let mut store = Store::new();
    let first = mark_attendance(&mut store, "A100".to_string(), "student".to_string()).unwrap();
    let second = mark_attendance(&mut store, "A100".to_string(), "student".to_string());
    if let Err(why) = &second {
        assert!(why.contains("A100"));
        assert_eq!(store.row_count(), 1);
    } else {
        // the day changed between the two readings of the clock
        assert_ne!(second.unwrap().date, first.date);
        assert_eq!(store.row_count(), 2);
    }
    assert_eq!(store.member_count(), 1);
}
