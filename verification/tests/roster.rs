use attendance::clock::Moment;
use attendance::commands::{
    check_for_updates, create_member, create_member_with, delete_member, get_all_attendance,
    get_attendance_by_date, get_member_list, mark_attendance_at, update_member, wipe_all_data,
};
use attendance::db::db_file_name;
use attendance::records::{AttendanceRow, Member};
use attendance::store::Store;

fn noon(date: &str) -> Moment {
    Moment { date: date.to_string(), timestamp: format!("{}T12:00:00+00:00", date), hour: 12, minute: 0 }
}

fn enter(store: &mut Store, badge: &str, role: &str, name: Option<&str>, id: &str) -> Result<String, String> {
    create_member_with(
        store,
        badge.to_string(),
        role.to_string(),
        name.map(|n| n.to_string()),
        id.to_string(),
    )
}

fn member(id: &str, name: Option<&str>, role: &str, badge: &str) -> Member {
    Member {
        id: id.to_string(),
        name: name.map(|n| n.to_string()),
        role: role.to_string(),
        prefect_number: badge.to_string(),
    }
}

fn row(id: &str, member_id: &str, date: &str) -> AttendanceRow {
    AttendanceRow {
        id: id.to_string(),
        member_id: member_id.to_string(),
        date: date.to_string(),
        timestamp: format!("{}T06:00:00+00:00", date),
        status: "Present".to_string(),
    }
}

#[test]
fn entering_a_member_reports_its_identifier() {
    let mut store = Store::new();
    assert_eq!(enter(&mut store, "A100", "student", Some("Ada"), "m-1"), Ok("m-1".to_string()));
    let members = get_member_list(&store).unwrap();
    assert_eq!(members, vec![member("m-1", Some("Ada"), "student", "A100")]);
}

#[test]
fn entering_without_a_name_stores_no_name() {
    let mut store = Store::new();
    enter(&mut store, "A100", "student", None, "m-1").unwrap();
    let members = get_member_list(&store).unwrap();
    assert_eq!(members, vec![member("m-1", None, "student", "A100")]);
    let id = create_member(&mut store, "B200".to_string(), "staff".to_string(), None).unwrap();
    let members = get_member_list(&store).unwrap();
    assert_eq!(members[1].id, id);
    assert_eq!(members[1].name, None);
}

#[test]
fn entering_with_the_empty_name_stores_the_empty_name() {
    let mut store = Store::new();
    enter(&mut store, "A100", "student", Some(""), "m-1").unwrap();
    assert_eq!(get_member_list(&store).unwrap()[0].name, Some(String::new()));
}

#[test]
fn entering_a_taken_badge_is_refused_and_the_roster_stays() {
    let mut store = Store::new();
    enter(&mut store, "A100", "student", Some("Ada"), "m-1").unwrap();
    let clash = enter(&mut store, "A100", "staff", Some("Bob"), "m-2");
    assert_eq!(clash, Err("UNIQUE constraint failed: members.prefect_number".to_string()));
    assert_eq!(store.member_count(), 1);
    assert_eq!(get_member_list(&store).unwrap(), vec![member("m-1", Some("Ada"), "student", "A100")]);
}

#[test]
fn entering_under_a_taken_identifier_is_refused() {
    let mut store = Store::new();
    enter(&mut store, "A100", "student", None, "m-1").unwrap();
    let clash = enter(&mut store, "B200", "staff", None, "m-1");
    assert_eq!(clash, Err("UNIQUE constraint failed: members.id".to_string()));
    assert_eq!(store.member_count(), 1);
}

#[test]
fn entering_draws_a_fresh_identifier_each_time() {
    let mut store = Store::new();
    let a = create_member(&mut store, "A100".to_string(), "student".to_string(), None).unwrap();
    let b = create_member(&mut store, "B200".to_string(), "staff".to_string(), None).unwrap();
    assert_eq!(a.len(), 36);
    assert_eq!(b.len(), 36);
    assert_ne!(a, b);
    assert_eq!(a.as_bytes()[8], b'-');
    assert_eq!(a.as_bytes()[14], b'4');
    let clash = create_member(&mut store, "A100".to_string(), "staff".to_string(), None);
    assert_eq!(clash, Err("UNIQUE constraint failed: members.prefect_number".to_string()));
    assert_eq!(store.member_count(), 2);
}

#[test]
fn update_of_the_role_alone_changes_the_role_alone() {
    let mut store = Store::new();
    enter(&mut store, "A100", "student", Some("Ada"), "m-1").unwrap();
    enter(&mut store, "B200", "staff", Some("Bob"), "m-2").unwrap();
    assert_eq!(update_member(&mut store, "m-1".to_string(), None, Some("prefect".to_string()), None), Ok(()));
    assert_eq!(
        get_member_list(&store).unwrap(),
        vec![member("m-1", Some("Ada"), "prefect", "A100"), member("m-2", Some("Bob"), "staff", "B200")]
    );
}

#[test]
fn update_of_the_name_alone_changes_the_name_alone() {
    let mut store = Store::new();
    enter(&mut store, "A100", "student", Some("Ada"), "m-1").unwrap();
    assert_eq!(update_member(&mut store, "m-1".to_string(), None, None, Some("Ada L.".to_string())), Ok(()));
    assert_eq!(get_member_list(&store).unwrap(), vec![member("m-1", Some("Ada L."), "student", "A100")]);
}

#[test]
fn update_of_the_badge_alone_changes_the_badge_alone() {
    let mut store = Store::new();
    enter(&mut store, "A100", "student", Some("Ada"), "m-1").unwrap();
    assert_eq!(update_member(&mut store, "m-1".to_string(), Some("A101".to_string()), None, None), Ok(()));
    assert_eq!(get_member_list(&store).unwrap(), vec![member("m-1", Some("Ada"), "student", "A101")]);
}

#[test]
fn update_of_all_fields_sets_all_fields() {
    let mut store = Store::new();
    enter(&mut store, "A100", "student", Some("Ada"), "m-1").unwrap();
    let done = update_member(
        &mut store,
        "m-1".to_string(),
        Some("C300".to_string()),
        Some("staff".to_string()),
        Some("Countess".to_string()),
    );
    assert_eq!(done, Ok(()));
    assert_eq!(get_member_list(&store).unwrap(), vec![member("m-1", Some("Countess"), "staff", "C300")]);
}

#[test]
fn update_of_an_unknown_member_changes_nothing_and_does_not_fail() {
    let mut store = Store::new();
    enter(&mut store, "A100", "student", Some("Ada"), "m-1").unwrap();
    let done = update_member(
        &mut store,
        "nobody".to_string(),
        Some("A100".to_string()),
        Some("staff".to_string()),
        Some("Ghost".to_string()),
    );
    assert_eq!(done, Ok(()));
    assert_eq!(get_member_list(&store).unwrap(), vec![member("m-1", Some("Ada"), "student", "A100")]);
}

#[test]
fn update_to_a_badge_of_another_member_is_refused() {
    let mut store = Store::new();
    enter(&mut store, "A100", "student", Some("Ada"), "m-1").unwrap();
    enter(&mut store, "B200", "staff", Some("Bob"), "m-2").unwrap();
    let clash = update_member(
        &mut store,
        "m-2".to_string(),
        Some("A100".to_string()),
        Some("student".to_string()),
        None,
    );
    assert_eq!(clash, Err("UNIQUE constraint failed: members.prefect_number".to_string()));
    assert_eq!(
        get_member_list(&store).unwrap(),
        vec![member("m-1", Some("Ada"), "student", "A100"), member("m-2", Some("Bob"), "staff", "B200")]
    );
}

#[test]
fn update_to_the_own_badge_is_accepted() {
    let mut store = Store::new();
    enter(&mut store, "A100", "student", Some("Ada"), "m-1").unwrap();
    assert_eq!(update_member(&mut store, "m-1".to_string(), Some("A100".to_string()), None, None), Ok(()));
    assert_eq!(get_member_list(&store).unwrap(), vec![member("m-1", Some("Ada"), "student", "A100")]);
}

#[test]
fn deleting_removes_the_member_and_keeps_the_rows() {
    let mut store = Store::new();
    enter(&mut store, "A100", "student", Some("Ada"), "m-1").unwrap();
    enter(&mut store, "B200", "staff", Some("Bob"), "m-2").unwrap();
    mark_attendance_at(&mut store, "A100".to_string(), "student".to_string(), noon("2024-03-04"), "x".to_string(), "r-1".to_string()).unwrap();
    mark_attendance_at(&mut store, "B200".to_string(), "staff".to_string(), noon("2024-03-04"), "x".to_string(), "r-2".to_string()).unwrap();
    assert_eq!(delete_member(&mut store, "m-1".to_string()), Ok(()));
    assert_eq!(get_member_list(&store).unwrap(), vec![member("m-2", Some("Bob"), "staff", "B200")]);
    assert_eq!(store.row_count(), 2);
    let listed = get_all_attendance(&store).unwrap();
    assert_eq!(listed.len(), 1);
    assert_eq!(listed[0].member_id, "m-2");
}

#[test]
fn deleting_an_unknown_member_changes_nothing() {
    let mut store = Store::new();
    enter(&mut store, "A100", "student", Some("Ada"), "m-1").unwrap();
    assert_eq!(delete_member(&mut store, "nobody".to_string()), Ok(()));
    assert_eq!(store.member_count(), 1);
}

#[test]
fn listing_by_date_gives_that_day_only_with_the_owner_beside_each_row() {
    let mut store = Store::new();
    enter(&mut store, "A100", "student", Some("Ada"), "m-1").unwrap();
    enter(&mut store, "B200", "staff", Some("Bob"), "m-2").unwrap();
    mark_attendance_at(&mut store, "A100".to_string(), "x".to_string(), noon("2024-03-04"), "x".to_string(), "r-1".to_string()).unwrap();
    mark_attendance_at(&mut store, "B200".to_string(), "y".to_string(), noon("2024-03-05"), "x".to_string(), "r-2".to_string()).unwrap();
    mark_attendance_at(&mut store, "B200".to_string(), "z".to_string(), noon("2024-03-04"), "x".to_string(), "r-3".to_string()).unwrap();

    let day = get_attendance_by_date(&store, "2024-03-04".to_string()).unwrap();
    assert_eq!(day.len(), 2);
    assert_eq!(day[0].id, "r-1");
    assert_eq!(day[0].member_id, "m-1");
    assert_eq!(day[0].date, "2024-03-04");
    assert_eq!(day[0].prefect_number, Some("A100".to_string()));
    assert_eq!(day[0].role, Some("student".to_string()));
    assert_eq!(day[1].id, "r-3");
    assert_eq!(day[1].prefect_number, Some("B200".to_string()));
    assert_eq!(day[1].role, Some("staff".to_string()));
    assert_eq!(day[1].status, "Late");

    assert_eq!(get_attendance_by_date(&store, "2024-03-0".to_string()).unwrap().len(), 0);
    assert_eq!(get_attendance_by_date(&store, "2024-03-04 ".to_string()).unwrap().len(), 0);
    assert_eq!(get_attendance_by_date(&store, "2024-03-06".to_string()).unwrap().len(), 0);
    assert_eq!(get_all_attendance(&store).unwrap().len(), 3);
}

#[test]
fn listing_follows_an_update_of_the_owner() {
    let mut store = Store::new();
    enter(&mut store, "A100", "student", Some("Ada"), "m-1").unwrap();
    mark_attendance_at(&mut store, "A100".to_string(), "student".to_string(), noon("2024-03-04"), "x".to_string(), "r-1".to_string()).unwrap();
    update_member(&mut store, "m-1".to_string(), Some("A101".to_string()), Some("staff".to_string()), None).unwrap();
    let day = get_attendance_by_date(&store, "2024-03-04".to_string()).unwrap();
    assert_eq!(day[0].prefect_number, Some("A101".to_string()));
    assert_eq!(day[0].role, Some("staff".to_string()));
}

#[test]
fn wipe_leaves_nothing_to_list() {
    let mut store = Store::new();
    enter(&mut store, "A100", "student", Some("Ada"), "m-1").unwrap();
    mark_attendance_at(&mut store, "A100".to_string(), "student".to_string(), noon("2024-03-04"), "x".to_string(), "r-1".to_string()).unwrap();
    assert_eq!(wipe_all_data(&mut store), Ok(()));
    assert_eq!(get_all_attendance(&store).unwrap().len(), 0);
    assert_eq!(get_member_list(&store).unwrap().len(), 0);
    assert_eq!(get_attendance_by_date(&store, "2024-03-04".to_string()).unwrap().len(), 0);
    assert_eq!(store.member_count(), 0);
    assert_eq!(store.row_count(), 0);
}

#[test]
fn wipe_of_an_empty_register_is_accepted() {
    let mut store = Store::new();
    assert_eq!(wipe_all_data(&mut store), Ok(()));
    assert_eq!(store.member_count(), 0);
}

#[test]
fn loading_well_formed_tables_gives_the_register() {
    let members = vec![member("m-1", Some("Ada"), "student", "A100"), member("m-2", None, "staff", "B200")];
    let rows = vec![row("r-1", "m-1", "2024-03-04"), row("r-2", "m-1", "2024-03-05"), row("r-3", "gone", "2024-03-04")];
    let store = Store::load(members, rows).unwrap();
    assert_eq!(store.member_count(), 2);
    assert_eq!(store.row_count(), 3);
    assert_eq!(get_member_list(&store).unwrap()[1].prefect_number, "B200");
    assert_eq!(store.find_prefect(&"B200".to_string()), Some(1));
    assert_eq!(store.find_prefect(&"C300".to_string()), None);
    assert_eq!(store.find_member(&"m-1".to_string()), Some(0));
    assert!(store.is_marked(&"m-1".to_string(), &"2024-03-05".to_string()));
    assert!(!store.is_marked(&"m-2".to_string(), &"2024-03-05".to_string()));
    assert!(store.row_id_taken(&"r-3".to_string()));
    assert!(!store.row_id_taken(&"r-4".to_string()));
    assert_eq!(get_attendance_by_date(&store, "2024-03-04".to_string()).unwrap().len(), 1);
}

#[test]
fn loading_refuses_tables_that_break_a_rule() {
    let same_id = vec![member("m-1", None, "student", "A100"), member("m-1", None, "staff", "B200")];
    assert!(Store::load(same_id, vec![]).is_none());
    let same_badge = vec![member("m-1", None, "student", "A100"), member("m-2", None, "staff", "A100")];
    assert!(Store::load(same_badge, vec![]).is_none());
    let same_row_id = vec![row("r-1", "m-1", "2024-03-04"), row("r-1", "m-2", "2024-03-04")];
    assert!(Store::load(vec![], same_row_id).is_none());
}

#[test]
fn loading_accepts_two_rows_for_one_day_and_lists_both() {
    let members = vec![member("m-1", Some("Ada"), "student", "A100")];
    let same_day = vec![row("r-1", "m-1", "2024-03-04"), row("r-2", "m-1", "2024-03-04")];
    let mut store = Store::load(members, same_day).unwrap();
    let day = get_attendance_by_date(&store, "2024-03-04".to_string()).unwrap();
    assert_eq!(day.len(), 2);
    assert_eq!(day[0].id, "r-1");
    assert_eq!(day[1].id, "r-2");
    let again = mark_attendance_at(&mut store, "A100".to_string(), "student".to_string(), noon("2024-03-04"), "x".to_string(), "r-3".to_string());
    assert_eq!(again, Err("Attendance already marked for A100 today (2024-03-04)".to_string()));
    assert_eq!(store.row_count(), 2);
}

#[test]
fn register_file_name() {
    assert_eq!(db_file_name(), "attendance.db");
}

#[test]
fn no_update_is_on_offer() {
    assert_eq!(check_for_updates(), Ok(false));
}
