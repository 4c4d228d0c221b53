use chrono::NaiveDate;
use vibe_clock::cli::{confirm, run, Cli, Command, Outcome, Pending, ProjectAction, Reply, TaskAction};
use vibe_clock::clock_trait::Clock;
use vibe_clock::db::Database;
use vibe_clock::time::Timestamp;

struct FakeClock {
    now: Timestamp,
}

impl Clock for FakeClock {
    fn now(&self) -> Timestamp {
        self.now
    }
}

fn clock() -> FakeClock {
    let dt = NaiveDate::from_ymd_opt(2026, 2, 28).unwrap().and_hms_opt(12, 0, 0).unwrap();
    FakeClock { now: Timestamp::from_secs(dt.and_utc().timestamp()).unwrap() }
}

fn stdout(outcome: &Outcome) -> String {
    match &outcome.reply {
        Ok(Reply::Done(text)) => text.clone(),
        other => panic!("no text on the standard output: {:?}", other),
    }
}

fn stderr(outcome: &Outcome) -> (i32, String) {
    match &outcome.reply {
        Err(e) => (e.exit_code(), e.message()),
        other => panic!("no error: {:?}", other),
    }
}

fn vibe_clock(db: &mut Database, command: Command) -> Outcome {
    run(db, &clock(), Cli { command })
}

fn setup_project(db: &mut Database) {
    let outcome = vibe_clock(
        db,
        Command::Project { action: ProjectAction::Add { name: "Acme".to_string() } },
    );
    assert!(outcome.reply.is_ok());
}

fn text(s: &str) -> Option<String> {
    Some(s.to_string())
}

fn task_add(
    project: &str,
    description: &str,
    start: Option<String>,
    end: Option<String>,
    duration: Option<String>,
) -> Command {
    Command::Task {
        action: TaskAction::Add {
            project: project.to_string(),
            description: description.to_string(),
            start,
            end,
            duration,
            date: None,
        },
    }
}

fn task_edit(
    id: i64,
    description: Option<String>,
    project: Option<String>,
    start: Option<String>,
    end: Option<String>,
    duration: Option<String>,
) -> Command {
    Command::Task { action: TaskAction::Edit { id, description, project, start, end, duration } }
}

fn journal(db: &mut Database) -> String {
    stdout(&vibe_clock(db, Command::Journal { date: None }))
}

#[test]
fn adds_task_with_start_and_end() {
    let mut db = Database::new();
    setup_project(&mut db);
    let outcome =
        vibe_clock(&mut db, task_add("Acme", "Meeting", text("09:00"), text("10:30"), None));
    assert!(stdout(&outcome).contains("1h 30m"));
    assert_eq!(stdout(&outcome), "Task logged: 1h 30m for 'Meeting' on project 'Acme'.\n");
}

#[test]
fn adds_task_with_duration_only() {
    let mut db = Database::new();
    setup_project(&mut db);
    let outcome = vibe_clock(&mut db, task_add("Acme", "Quick fix", None, None, text("45")));
    assert!(stdout(&outcome).contains("45m"));
    let tasks = db.all_tasks();
    assert_eq!(tasks.len(), 1);
    assert!(tasks[0].start_time.is_none());
    assert!(tasks[0].end_time.is_none());
    assert_eq!(tasks[0].created_at, clock().now);
}

#[test]
fn rejects_end_before_start() {
    let mut db = Database::new();
    setup_project(&mut db);
    let outcome =
        vibe_clock(&mut db, task_add("Acme", "Bad times", text("10:00"), text("09:00"), None));
    let (code, message) = stderr(&outcome);
    assert_eq!(code, 1);
    assert!(message.contains("End time must be after start time"));
    assert!(db.all_tasks().is_empty());
}

#[test]
fn rejects_nonexistent_project() {
    let mut db = Database::new();
    let outcome = vibe_clock(&mut db, task_add("NoSuchProject", "Work", None, None, text("60")));
    let (code, message) = stderr(&outcome);
    assert_eq!(code, 1);
    assert!(message.contains("not found"));
    assert_eq!(message, "Project 'NoSuchProject' not found.");
}

#[test]
fn edits_task_description() {
    let mut db = Database::new();
    setup_project(&mut db);
    assert!(vibe_clock(&mut db, task_add("Acme", "Original desc", None, None, text("30")))
        .reply
        .is_ok());
    let outcome = vibe_clock(&mut db, task_edit(1, text("Updated desc"), None, None, None, None));
    assert!(stdout(&outcome).contains("Task 1 updated"));
    assert!(journal(&mut db).contains("Updated desc"));
}

#[test]
fn edits_task_times() {
    let mut db = Database::new();
    setup_project(&mut db);
    assert!(vibe_clock(&mut db, task_add("Acme", "Work", text("09:00"), text("10:00"), None))
        .reply
        .is_ok());
    assert!(vibe_clock(&mut db, task_edit(1, None, None, None, text("11:00"), None)).reply.is_ok());
    assert!(journal(&mut db).contains("2h"));
    assert_eq!(db.all_tasks()[0].duration_min, 120);
}

#[test]
fn moves_task_to_different_project() {
    let mut db = Database::new();
    setup_project(&mut db);
    assert!(vibe_clock(
        &mut db,
        Command::Project { action: ProjectAction::Add { name: "Beta".to_string() } }
    )
    .reply
    .is_ok());
    assert!(vibe_clock(&mut db, task_add("Acme", "Some work", None, None, text("60"))).reply.is_ok());
    assert!(vibe_clock(&mut db, task_edit(1, None, text("Beta"), None, None, None)).reply.is_ok());
    let stdout = journal(&mut db);
    assert!(stdout.contains("Beta"));
    assert!(!stdout.contains("Acme"));
}

#[test]
fn deletes_task_with_yes_flag() {
    let mut db = Database::new();
    setup_project(&mut db);
    assert!(vibe_clock(&mut db, task_add("Acme", "To delete", None, None, text("30"))).reply.is_ok());
    let outcome =
        vibe_clock(&mut db, Command::Task { action: TaskAction::Delete { id: 1, yes: true } });
    assert!(stdout(&outcome).contains("Task 1 deleted"));
    assert!(journal(&mut db).contains("No tasks logged"));
}

#[test]
fn rejects_edit_nonexistent_task() {
    let mut db = Database::new();
    let outcome = vibe_clock(&mut db, task_edit(999, text("nope"), None, None, None, None));
    let (code, message) = stderr(&outcome);
    assert_eq!(code, 1);
    assert!(message.contains("not found"));
    assert_eq!(message, "Task with ID 999 not found.");
}

#[test]
fn delete_without_yes_asks_first() {
    let mut db = Database::new();
    setup_project(&mut db);
    assert!(vibe_clock(&mut db, task_add("Acme", "To delete", None, None, text("90"))).reply.is_ok());
    let outcome =
        vibe_clock(&mut db, Command::Task { action: TaskAction::Delete { id: 1, yes: false } });
    let pending = match outcome.reply {
        Ok(Reply::Confirm { prompt, pending }) => {
            assert_eq!(prompt, "Delete task 'To delete' (1h 30m)? [y/N] ");
            pending
        }
        other => panic!("no question: {:?}", other),
    };
    assert_eq!(db.all_tasks().len(), 1);
    match &pending {
        Pending::TaskDelete { id } => assert_eq!(*id, 1),
        other => panic!("wrong pending: {:?}", other),
    }
    assert_eq!(confirm(&mut db, Pending::TaskDelete { id: 1 }, Some("no")).unwrap(), "Cancelled.\n");
    assert_eq!(db.all_tasks().len(), 1);
    assert_eq!(confirm(&mut db, pending, Some("y")).unwrap(), "Task 1 deleted.\n");
    assert!(db.all_tasks().is_empty());
}

#[test]
fn delete_of_a_missing_task_is_refused_before_any_question() {
    let mut db = Database::new();
    let outcome =
        vibe_clock(&mut db, Command::Task { action: TaskAction::Delete { id: 3, yes: false } });
    assert_eq!(stderr(&outcome), (1, "Task with ID 3 not found.".to_string()));
}

#[test]
fn add_needs_times_or_a_duration() {
    let mut db = Database::new();
    setup_project(&mut db);
    let outcome = vibe_clock(&mut db, task_add("Acme", "Nothing", None, None, None));
    assert_eq!(stderr(&outcome), (1, "Provide either --start/--end or --duration.".to_string()));
    let outcome = vibe_clock(&mut db, task_add("Acme", "Half", text("09:00"), None, None));
    assert_eq!(stderr(&outcome), (1, "Provide either --start/--end or --duration.".to_string()));
    let outcome = vibe_clock(&mut db, task_add("Acme", "Half", None, text("09:00"), text("15m")));
    assert_eq!(stdout(&outcome), "Task logged: 15m for 'Half' on project 'Acme'.\n");
    assert!(db.all_tasks()[0].end_time.is_none());
}

#[test]
fn times_win_over_a_duration() {
    let mut db = Database::new();
    setup_project(&mut db);
    let outcome =
        vibe_clock(&mut db, task_add("Acme", "Both", text("09:00"), text("09:20"), text("2h")));
    assert_eq!(stdout(&outcome), "Task logged: 20m for 'Both' on project 'Acme'.\n");
}

#[test]
fn a_malformed_time_is_a_user_error() {
    let mut db = Database::new();
    setup_project(&mut db);
    let outcome =
        vibe_clock(&mut db, task_add("Acme", "Bad", text("nine"), text("10:00"), None));
    assert_eq!(
        stderr(&outcome),
        (1, "Invalid time: 'nine'. Use YYYY-MM-DDTHH:MM or HH:MM".to_string())
    );
    let outcome =
        vibe_clock(&mut db, task_add("Acme", "Bad", text("09:00"), text("ten"), None));
    assert_eq!(
        stderr(&outcome),
        (1, "Invalid time: 'ten'. Use YYYY-MM-DDTHH:MM or HH:MM".to_string())
    );
    assert!(db.all_tasks().is_empty());
}

#[test]
fn times_less_than_a_minute_apart_are_refused_by_the_store() {
    let mut db = Database::new();
    setup_project(&mut db);
    let outcome = vibe_clock(
        &mut db,
        task_add(
            "Acme",
            "Blink",
            text("2026-02-25T09:00:00"),
            text("2026-02-25T09:00:59"),
            None,
        ),
    );
    assert_eq!(
        stderr(&outcome),
        (2, "Database error: CHECK constraint failed: duration_min > 0".to_string())
    );
    assert!(db.all_tasks().is_empty());
}
