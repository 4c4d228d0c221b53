use chrono::NaiveDate;
use vibe_clock::db::Database;
use vibe_clock::models::{ClockState, Project, TaskEntry};
use vibe_clock::time::{Date, Timestamp};

fn at(y: i32, m: u32, d: u32, h: u32, min: u32, s: u32) -> Timestamp {
    let dt = NaiveDate::from_ymd_opt(y, m, d).unwrap().and_hms_opt(h, min, s).unwrap();
    Timestamp::from_secs(dt.and_utc().timestamp()).unwrap()
}

fn day(y: i32, m: u32, d: u32) -> Date {
    at(y, m, d, 0, 0, 0).date()
}

fn now() -> Timestamp {
    at(2026, 2, 28, 12, 0, 0)
}

fn ids(tasks: &[TaskEntry]) -> Vec<i64> {
    tasks.iter().map(|t| t.id).collect()
}

#[test]
fn a_new_store_is_empty() {
    let db = Database::new();
    assert!(db.all_projects().is_empty());
    assert!(db.all_tasks().is_empty());
    assert!(db.get_clock_state().is_none());
    assert_eq!(db.next_project_id(), 1);
    assert_eq!(db.next_task_id(), 1);
    assert!(db.list_projects().is_empty());
}

#[test]
fn projects_get_ascending_ids_that_are_not_used_again() {
    let mut db = Database::new();
    let a = db.insert_project("Acme", now()).unwrap();
    let b = db.insert_project("Beta", now()).unwrap();
    assert_eq!((a.id, b.id), (1, 2));
    assert_eq!(a.name, "Acme");
    assert_eq!(a.created_at, now());
    assert_eq!(a.updated_at, now());
    assert!(db.delete_project(2).unwrap());
    let c = db.insert_project("Gamma", now()).unwrap();
    assert_eq!(c.id, 3);
    assert_eq!(db.next_project_id(), 4);
}

#[test]
fn the_store_refuses_a_second_project_of_a_name() {
    let mut db = Database::new();
    db.insert_project("Acme", now()).unwrap();
    let e = db.insert_project("Acme", now()).unwrap_err();
    assert_eq!(e.exit_code(), 2);
    assert_eq!(e.message(), "Database error: UNIQUE constraint failed: project.name");
    assert_eq!(db.all_projects().len(), 1);
    assert_eq!(db.next_project_id(), 2);
    // Names are compared as they are written.
    assert!(db.insert_project("acme", now()).is_ok());
    assert!(db.insert_project("Acme ", now()).is_ok());
}

#[test]
fn projects_are_found_by_id_and_by_name() {
    let mut db = Database::new();
    db.insert_project("Acme", now()).unwrap();
    db.insert_project("Beta", now()).unwrap();
    assert_eq!(db.find_project_by_id(2).unwrap().name, "Beta");
    assert!(db.find_project_by_id(3).is_none());
    assert_eq!(db.find_project_by_name("Acme").unwrap().id, 1);
    assert!(db.find_project_by_name("acme").is_none());
    assert!(db.project_exists(1));
    assert!(!db.project_exists(0));
}

#[test]
fn projects_are_listed_by_name() {
    let mut db = Database::new();
    for name in ["delta", "Beta", "alpha", "Alpha", "", "Béta", "Be"] {
        db.insert_project(name, now()).unwrap();
    }
    let names: Vec<String> = db.list_projects().into_iter().map(|p| p.name).collect();
    let mut expected: Vec<String> =
        ["delta", "Beta", "alpha", "Alpha", "", "Béta", "Be"].iter().map(|s| s.to_string()).collect();
    expected.sort();
    assert_eq!(names, expected);
    assert_eq!(names, vec!["", "Alpha", "Be", "Beta", "Béta", "alpha", "delta"]);
    let created: Vec<i64> = db.all_projects().into_iter().map(|p| p.id).collect();
    assert_eq!(created, vec![1, 2, 3, 4, 5, 6, 7]);
}

#[test]
fn a_rename_keeps_the_id_and_the_creation() {
    let mut db = Database::new();
    db.insert_project("Acme", at(2026, 1, 1, 8, 0, 0)).unwrap();
    db.insert_project("Beta", at(2026, 1, 1, 8, 0, 0)).unwrap();
    assert!(db.update_project_name(1, "Gamma", now()).unwrap());
    let p = db.find_project_by_id(1).unwrap();
    assert_eq!(p.name, "Gamma");
    assert_eq!(p.created_at, at(2026, 1, 1, 8, 0, 0));
    assert_eq!(p.updated_at, now());
    assert_eq!(db.find_project_by_id(2).unwrap().updated_at, at(2026, 1, 1, 8, 0, 0));
    // A rename to the project's own name is no clash.
    assert!(db.update_project_name(1, "Gamma", now()).unwrap());
    // No project, no change.
    assert!(!db.update_project_name(9, "Beta", now()).unwrap());
    let e = db.update_project_name(1, "Beta", now()).unwrap_err();
    assert_eq!(e.message(), "Database error: UNIQUE constraint failed: project.name");
    assert_eq!(db.find_project_by_id(1).unwrap().name, "Gamma");
}

#[test]
fn a_task_entry_needs_a_positive_duration_and_a_project() {
    let mut db = Database::new();
    db.insert_project("Acme", now()).unwrap();
    for minutes in [0, -1, i64::MIN] {
        let e = db.insert_task_entry(1, "Work", None, None, minutes, now()).unwrap_err();
        assert_eq!(e.exit_code(), 2);
        assert_eq!(e.message(), "Database error: CHECK constraint failed: duration_min > 0");
    }
    let e = db.insert_task_entry(2, "Work", None, None, 5, now()).unwrap_err();
    assert_eq!(e.message(), "Database error: FOREIGN KEY constraint failed");
    assert!(db.all_tasks().is_empty());
    assert_eq!(db.next_task_id(), 1);
    let t = db.insert_task_entry(1, "Work", None, None, i64::MAX, now()).unwrap();
    assert_eq!(t.id, 1);
    assert_eq!(t.duration_min, i64::MAX);
}

#[test]
fn an_inserted_entry_reads_back() {
    let mut db = Database::new();
    db.insert_project("Acme", now()).unwrap();
    let start = at(2026, 2, 25, 9, 0, 0);
    let end = at(2026, 2, 25, 10, 0, 0);
    let t = db.insert_task_entry(1, "Work", Some(start), Some(end), 60, now()).unwrap();
    let found = db.find_task_entry_by_id(t.id).unwrap();
    assert_eq!(found.id, 1);
    assert_eq!(found.project_id, 1);
    assert_eq!(found.description, "Work");
    assert_eq!(found.start_time, Some(start));
    assert_eq!(found.end_time, Some(end));
    assert_eq!(found.duration_min, 60);
    assert_eq!(found.created_at, now());
    assert_eq!(found.updated_at, now());
    assert_eq!(found.effective_time(), start);
    assert!(db.find_task_entry_by_id(2).is_none());
    assert_eq!(db.count_tasks_for_project(1), 1);
    assert_eq!(db.count_tasks_for_project(2), 0);
}

#[test]
fn an_update_replaces_what_is_given_and_keeps_the_rest() {
    let mut db = Database::new();
    db.insert_project("Acme", now()).unwrap();
    db.insert_project("Beta", now()).unwrap();
    let start = at(2026, 2, 25, 9, 0, 0);
    let end = at(2026, 2, 25, 10, 0, 0);
    db.insert_task_entry(1, "Work", Some(start), Some(end), 60, at(2026, 2, 25, 11, 0, 0)).unwrap();

    assert!(db.update_task_entry(1, Some("Play"), None, None, None, None, now()).unwrap());
    let t = db.find_task_entry_by_id(1).unwrap();
    assert_eq!(t.description, "Play");
    assert_eq!((t.project_id, t.start_time, t.end_time, t.duration_min), (1, Some(start), Some(end), 60));
    assert_eq!(t.created_at, at(2026, 2, 25, 11, 0, 0));
    assert_eq!(t.updated_at, now());

    assert!(db.update_task_entry(1, None, Some(2), Some(None), None, Some(5), now()).unwrap());
    let t = db.find_task_entry_by_id(1).unwrap();
    assert_eq!(t.description, "Play");
    assert_eq!((t.project_id, t.start_time, t.end_time, t.duration_min), (2, None, Some(end), 5));

    assert!(!db.update_task_entry(9, Some("x"), None, None, None, None, now()).unwrap());
    let e = db.update_task_entry(1, None, None, None, None, Some(0), now()).unwrap_err();
    assert_eq!(e.message(), "Database error: CHECK constraint failed: duration_min > 0");
    let e = db.update_task_entry(1, None, Some(3), None, None, None, now()).unwrap_err();
    assert_eq!(e.message(), "Database error: FOREIGN KEY constraint failed");
    assert_eq!(db.find_task_entry_by_id(1).unwrap().project_id, 2);
}

#[test]
fn a_deleted_entry_is_gone_and_its_id_with_it() {
    let mut db = Database::new();
    db.insert_project("Acme", now()).unwrap();
    db.insert_task_entry(1, "One", None, None, 1, now()).unwrap();
    db.insert_task_entry(1, "Two", None, None, 2, now()).unwrap();
    assert!(db.delete_task_entry(1));
    assert!(!db.delete_task_entry(1));
    assert_eq!(ids(&db.all_tasks()), vec![2]);
    assert_eq!(db.insert_task_entry(1, "Three", None, None, 3, now()).unwrap().id, 3);
}

#[test]
fn deleting_a_project_takes_its_entries_along() {
    let mut db = Database::new();
    db.insert_project("Acme", now()).unwrap();
    db.insert_project("Beta", now()).unwrap();
    db.insert_task_entry(1, "A1", None, None, 1, now()).unwrap();
    db.insert_task_entry(2, "B1", None, None, 2, now()).unwrap();
    db.insert_task_entry(1, "A2", None, None, 3, now()).unwrap();
    assert!(db.delete_project(1).unwrap());
    assert_eq!(ids(&db.all_tasks()), vec![2]);
    assert_eq!(db.all_projects().len(), 1);
    assert!(!db.delete_project(1).unwrap());
    assert_eq!(db.count_tasks_for_project(1), 0);
    assert_eq!(db.count_tasks_for_project(2), 1);
}

#[test]
fn the_store_holds_one_clock_at_most() {
    let mut db = Database::new();
    db.insert_project("Acme", now()).unwrap();
    let e = db.insert_clock_state(2, "Work", now()).unwrap_err();
    assert_eq!(e.message(), "Database error: FOREIGN KEY constraint failed");
    assert!(db.get_clock_state().is_none());
    db.insert_clock_state(1, "Work", now()).unwrap();
    let c = db.get_clock_state().unwrap();
    assert_eq!((c.id, c.project_id, c.description.as_str(), c.start_time), (1, 1, "Work", now()));
    let e = db.insert_clock_state(1, "More", now()).unwrap_err();
    assert_eq!(e.exit_code(), 2);
    assert_eq!(e.message(), "Database error: UNIQUE constraint failed: clock_state.id");
    assert_eq!(db.get_clock_state().unwrap().description, "Work");
    // The clock keeps its project in the store.
    let e = db.delete_project(1).unwrap_err();
    assert_eq!(e.message(), "Database error: FOREIGN KEY constraint failed");
    assert!(db.project_exists(1));
    db.delete_clock_state();
    assert!(db.get_clock_state().is_none());
    db.delete_clock_state();
    assert!(db.delete_project(1).unwrap());
}

#[test]
fn entries_of_a_day_come_in_the_order_of_their_time() {
    let mut db = Database::new();
    db.insert_project("Acme", now()).unwrap();
    let d = |h, m| at(2026, 2, 25, h, m, 0);
    db.insert_task_entry(1, "late", Some(d(15, 0)), Some(d(16, 0)), 60, now()).unwrap();
    db.insert_task_entry(1, "created", None, None, 5, d(12, 0)).unwrap();
    db.insert_task_entry(1, "early", Some(d(9, 0)), Some(d(10, 0)), 60, now()).unwrap();
    db.insert_task_entry(1, "tie", Some(d(15, 0)), None, 5, now()).unwrap();
    db.insert_task_entry(1, "before", Some(at(2026, 2, 24, 23, 59, 59)), None, 5, d(8, 0)).unwrap();
    db.insert_task_entry(1, "after", Some(at(2026, 2, 26, 0, 0, 0)), None, 5, d(8, 0)).unwrap();
    db.insert_task_entry(1, "first", Some(d(0, 0)), None, 5, now()).unwrap();
    db.insert_task_entry(1, "last", Some(at(2026, 2, 25, 23, 59, 59)), None, 5, now()).unwrap();
    let listed = db.list_tasks_for_date(day(2026, 2, 25));
    let names: Vec<&str> = listed.iter().map(|t| t.description.as_str()).collect();
    assert_eq!(names, vec!["first", "early", "created", "late", "tie", "last"]);
    let range = db.list_tasks_for_date_range(day(2026, 2, 24), day(2026, 2, 26));
    let names: Vec<&str> = range.iter().map(|t| t.description.as_str()).collect();
    assert_eq!(names, vec!["before", "first", "early", "created", "late", "tie", "last", "after"]);
    assert!(db.list_tasks_for_date_range(day(2026, 2, 26), day(2026, 2, 24)).is_empty());
    assert!(db.list_tasks_for_date(day(2026, 2, 27)).is_empty());
}

#[test]
fn a_store_is_restored_from_its_records() {
    let mut db = Database::new();
    db.insert_project("Acme", now()).unwrap();
    db.insert_project("Beta", now()).unwrap();
    db.insert_task_entry(2, "Work", None, None, 5, now()).unwrap();
    db.insert_task_entry(1, "Gone", None, None, 5, now()).unwrap();
    db.delete_task_entry(2);
    db.insert_clock_state(1, "Running", now()).unwrap();
    let mut copy = Database::restore(
        db.all_projects(),
        db.all_tasks(),
        db.get_clock_state(),
        db.next_project_id(),
        db.next_task_id(),
    )
    .unwrap();
    assert_eq!(copy.all_projects().len(), 2);
    assert_eq!(ids(&copy.all_tasks()), vec![1]);
    assert_eq!(copy.get_clock_state().unwrap().description, "Running");
    assert_eq!(copy.insert_task_entry(1, "Next", None, None, 5, now()).unwrap().id, 3);
    assert_eq!(copy.insert_project("Gamma", now()).unwrap().id, 3);
}

fn project(id: i64, name: &str) -> Project {
    Project { id, name: name.to_string(), created_at: now(), updated_at: now() }
}

fn task(id: i64, project_id: i64, minutes: i64) -> TaskEntry {
    TaskEntry {
        id,
        project_id,
        description: "Work".to_string(),
        start_time: None,
        end_time: None,
        duration_min: minutes,
        created_at: now(),
        updated_at: now(),
    }
}

fn clock(id: i64, project_id: i64) -> ClockState {
    ClockState { id, project_id, description: "Run".to_string(), start_time: now() }
}

#[test]
fn records_that_break_a_constraint_are_not_restored() {
    let ok = Database::restore(
        vec![project(1, "A"), project(3, "B")],
        vec![task(2, 3, 5), task(5, 1, 1)],
        Some(clock(1, 3)),
        4,
        6,
    );
    assert!(ok.is_ok());
    let broken: Vec<Result<Database, _>> = vec![
        // two projects of one name
        Database::restore(vec![project(1, "A"), project(2, "A")], vec![], None, 3, 1),
        // ids that do not ascend
        Database::restore(vec![project(2, "A"), project(1, "B")], vec![], None, 3, 1),
        Database::restore(vec![project(1, "A"), project(1, "B")], vec![], None, 3, 1),
        // an id at or above the next id
        Database::restore(vec![project(3, "A")], vec![], None, 3, 1),
        // an id below 1
        Database::restore(vec![project(0, "A")], vec![], None, 3, 1),
        // a next id below 1
        Database::restore(vec![], vec![], None, 0, 1),
        Database::restore(vec![], vec![], None, 1, 0),
        // an entry without a project
        Database::restore(vec![project(1, "A")], vec![task(1, 2, 5)], None, 2, 2),
        // an entry without a positive duration
        Database::restore(vec![project(1, "A")], vec![task(1, 1, 0)], None, 2, 2),
        // entry ids that do not ascend
        Database::restore(vec![project(1, "A")], vec![task(2, 1, 5), task(1, 1, 5)], None, 2, 3),
        // an entry id at or above the next id
        Database::restore(vec![project(1, "A")], vec![task(2, 1, 5)], None, 2, 2),
        // a clock without a project
        Database::restore(vec![project(1, "A")], vec![], Some(clock(1, 2)), 2, 1),
        // a clock under another id than 1
        Database::restore(vec![project(1, "A")], vec![], Some(clock(2, 1)), 2, 1),
    ];
    for r in broken {
        let e = r.unwrap_err();
        assert_eq!(e.exit_code(), 2);
        assert_eq!(
            e.message(),
            "Database error: stored records violate the constraints of the store"
        );
    }
}

#[test]
fn a_store_without_an_id_left_refuses_new_records() {
    let mut db =
        Database::restore(vec![project(1, "A")], vec![task(1, 1, 5)], None, i64::MAX, i64::MAX)
            .unwrap();
    let e = db.insert_project("B", now()).unwrap_err();
    assert_eq!(e.exit_code(), 2);
    assert_eq!(e.message(), "Database error: database or disk is full");
    let e = db.insert_task_entry(1, "Work", None, None, 5, now()).unwrap_err();
    assert_eq!(e.message(), "Database error: database or disk is full");
    assert_eq!(db.all_projects().len(), 1);
    assert_eq!(db.all_tasks().len(), 1);
}

#[test]
fn performance_with_2000_entries() {
    let mut db = Database::new();

    let base_date = NaiveDate::from_ymd_opt(2026, 1, 1).unwrap();
    let stamp = |dt: chrono::NaiveDateTime| Timestamp::from_secs(dt.and_utc().timestamp()).unwrap();
    for i in 1..=50 {
        let now = base_date.and_hms_opt(0, 0, 0).unwrap();
        db.insert_project(&format!("Project-{i}"), stamp(now)).unwrap();
    }

    for i in 0..2000 {
        let project_id = (i % 50) as i64 + 1;
        let day_offset = i / 10;
        let date = base_date + chrono::Duration::days(day_offset as i64);
        let start = date.and_hms_opt(9, 0, 0).unwrap();
        let end = date.and_hms_opt(9, 30, 0).unwrap();
        let now = date.and_hms_opt(10, 0, 0).unwrap();
        db.insert_task_entry(
            project_id,
            &format!("Task {i}"),
            Some(stamp(start)),
            Some(stamp(end)),
            30,
            stamp(now),
        )
        .unwrap();
    }

    let start = std::time::Instant::now();
    let tasks = db.list_tasks_for_date(day(2026, 3, 15));
    let journal_time = start.elapsed();
    println!("Journal query: {} tasks in {:?}", tasks.len(), journal_time);
    assert_eq!(tasks.len(), 10);
    assert!(
        journal_time.as_millis() < 200,
        "Journal query took {:?}, expected <200ms",
        journal_time
    );

    let start = std::time::Instant::now();
    let tasks = db.list_tasks_for_date_range(day(2026, 1, 1), day(2026, 12, 31));
    let report_time = start.elapsed();
    println!("Yearly report: {} tasks in {:?}", tasks.len(), report_time);
    assert_eq!(tasks.len(), 2000);
    assert!(
        report_time.as_millis() < 1000,
        "Yearly report took {:?}, expected <1s",
        report_time
    );
}
