use chrono::NaiveDate;
use vibe_clock::cli::clock::{handle_clock, handle_clock_at};
use vibe_clock::cli::journal::handle_journal;
use vibe_clock::cli::project::{handle_project, handle_project_at};
use vibe_clock::cli::report::handle_report;
use vibe_clock::cli::task::{handle_task, handle_task_at};
use vibe_clock::cli::{run_at, Cli, ClockAction, Command, ProjectAction, Reply, TaskAction};
use vibe_clock::clock_trait::Clock;
use vibe_clock::db::Database;
use vibe_clock::time::Timestamp;

struct FakeClock {
    now: Timestamp,
}

impl Clock for FakeClock {
    fn now(&self) -> Timestamp {
        self.now
    }
}

fn at(h: u32, m: u32) -> Timestamp {
    let dt = NaiveDate::from_ymd_opt(2026, 2, 28).unwrap().and_hms_opt(h, m, 0).unwrap();
    Timestamp::from_secs(dt.and_utc().timestamp()).unwrap()
}

fn done(reply: Reply) -> String {
    match reply {
        Reply::Done(text) => text,
        other => panic!("not done: {:?}", other),
    }
}

#[test]
fn the_handlers_read_the_injected_clock() {
    let mut db = Database::new();
    let clock = FakeClock { now: at(9, 0) };
    let reply =
        handle_project(&mut db, &clock, ProjectAction::Add { name: " Acme ".to_string() }).unwrap();
    assert_eq!(done(reply), "Project 'Acme' created.\n");
    assert_eq!(db.all_projects()[0].created_at, at(9, 0));

    let text = handle_clock(
        &mut db,
        &clock,
        ClockAction::Start { project: "1".to_string(), description: "Work".to_string() },
    )
    .unwrap();
    assert_eq!(text, "Clock started for 'Work' on project 'Acme' at 09:00.\n");

    let later = FakeClock { now: at(9, 59) };
    assert_eq!(
        handle_clock(&mut db, &later, ClockAction::Status).unwrap(),
        "Clock running: 'Work' on project 'Acme' since 09:00 (59m elapsed).\n"
    );
    assert_eq!(
        handle_clock(&mut db, &later, ClockAction::Stop).unwrap(),
        "Clock stopped. Logged 59m for 'Work' on project 'Acme'.\n"
    );
    assert_eq!(handle_clock(&mut db, &later, ClockAction::Status).unwrap(), "No clock is running.\n");

    let reply = handle_task(
        &mut db,
        &later,
        TaskAction::Add {
            project: "Acme".to_string(),
            description: "More".to_string(),
            start: Some("10:00".to_string()),
            end: Some("10:20".to_string()),
            duration: None,
            date: None,
        },
    )
    .unwrap();
    assert_eq!(done(reply), "Task logged: 20m for 'More' on project 'Acme'.\n");
    assert_eq!(db.all_tasks()[1].created_at, at(9, 59));
}

#[test]
fn the_handlers_take_a_given_time() {
    let mut db = Database::new();
    let reply =
        handle_project_at(&mut db, at(8, 0), ProjectAction::Add { name: "Acme".to_string() }).unwrap();
    assert_eq!(done(reply), "Project 'Acme' created.\n");
    let e = handle_clock_at(&mut db, at(8, 1), ClockAction::Stop).unwrap_err();
    assert_eq!((e.exit_code(), e.message().as_str()), (1, "No clock is running."));
    let reply = handle_task_at(
        &mut db,
        at(8, 2),
        TaskAction::Add {
            project: "Acme".to_string(),
            description: "Work".to_string(),
            start: None,
            end: None,
            duration: Some("1h".to_string()),
            date: Some("2026-02-27".to_string()),
        },
    )
    .unwrap();
    assert_eq!(done(reply), "Task logged: 1h for 'Work' on project 'Acme'.\n");
    let reply = handle_task_at(
        &mut db,
        at(8, 3),
        TaskAction::Edit {
            id: 1,
            description: None,
            project: None,
            start: None,
            end: None,
            duration: Some("2h".to_string()),
        },
    )
    .unwrap();
    assert_eq!(done(reply), "Task 1 updated.\n");
    assert_eq!(db.all_tasks()[0].duration_min, 120);
}

#[test]
fn the_journal_and_the_report_take_today_as_given() {
    let mut db = Database::new();
    handle_project_at(&mut db, at(8, 0), ProjectAction::Add { name: "Acme".to_string() }).unwrap();
    handle_task_at(
        &mut db,
        at(8, 2),
        TaskAction::Add {
            project: "Acme".to_string(),
            description: "Work".to_string(),
            start: None,
            end: None,
            duration: Some("1h".to_string()),
            date: None,
        },
    )
    .unwrap();
    let today = at(0, 0).date();
    let tomorrow = Timestamp::from_secs(at(0, 0).secs() + 86_400).unwrap().date();
    assert!(handle_journal(&db, None, today).unwrap().starts_with("Journal for 2026-02-28:\n"));
    assert_eq!(handle_journal(&db, None, tomorrow).unwrap(), "No tasks logged for 2026-03-01.\n");
    assert!(handle_journal(&db, Some("yesterday"), tomorrow).unwrap().contains("Work"));
    assert!(handle_report(&db, "yesterday", "today", tomorrow).unwrap().contains("## Acme (1h)\n"));
    assert_eq!(
        handle_report(&db, "today", "today", tomorrow).unwrap(),
        "No tasks found between 2026-03-01 and 2026-03-01.\n"
    );
    let e = handle_report(&db, "today", "yesterday", tomorrow).unwrap_err();
    assert_eq!(e.message(), "--from date must be before or equal to --to date.");
    let e = handle_report(&db, "then", "now", tomorrow).unwrap_err();
    assert_eq!(e.message(), "Invalid date: 'then'. Use YYYY-MM-DD, 'today', or 'yesterday'");
    let e = handle_report(&db, "today", "now", tomorrow).unwrap_err();
    assert_eq!(e.message(), "Invalid date: 'now'. Use YYYY-MM-DD, 'today', or 'yesterday'");
}

#[test]
fn a_run_warns_of_a_running_clock_before_every_command() {
    let mut db = Database::new();
    let add = Cli { command: Command::Project { action: ProjectAction::Add { name: "Acme".to_string() } } };
    assert!(run_at(&mut db, at(8, 0), add).warning.is_none());
    let start = Cli {
        command: Command::Clock {
            action: ClockAction::Start { project: "Acme".to_string(), description: "Work".to_string() },
        },
    };
    assert!(run_at(&mut db, at(9, 0), start).warning.is_none());
    let list = Cli { command: Command::Project { action: ProjectAction::List } };
    let outcome = run_at(&mut db, at(9, 30), list);
    assert_eq!(
        outcome.warning.unwrap(),
        "Warning: Clock still running for 'Work' on project 'Acme' since 09:00 (30m elapsed).\n"
    );
    assert!(outcome.reply.is_ok());
    // The warning comes with a refused command too.
    let start = Cli {
        command: Command::Clock {
            action: ClockAction::Start { project: "Acme".to_string(), description: "More".to_string() },
        },
    };
    let outcome = run_at(&mut db, at(9, 31), start);
    assert!(outcome.warning.is_some());
    assert_eq!(outcome.reply.unwrap_err().exit_code(), 1);
}
