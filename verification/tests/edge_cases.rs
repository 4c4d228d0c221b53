use chrono::NaiveDate;
use vibe_clock::cli::{run, Cli, ClockAction, Command, Outcome, ProjectAction, Reply};
use vibe_clock::clock_trait::Clock;
use vibe_clock::db::Database;
use vibe_clock::time::Timestamp;

struct FakeClock {
    now: Timestamp,
}

impl Clock for FakeClock {
    fn now(&self) -> Timestamp {
        self.now
    }
}

fn on(d: u32, h: u32, m: u32) -> FakeClock {
    let dt = NaiveDate::from_ymd_opt(2026, 2, d).unwrap().and_hms_opt(h, m, 0).unwrap();
    FakeClock { now: Timestamp::from_secs(dt.and_utc().timestamp()).unwrap() }
}

fn stdout(outcome: &Outcome) -> String {
    match &outcome.reply {
        Ok(Reply::Done(text)) => text.clone(),
        other => panic!("no text on the standard output: {:?}", other),
    }
}

fn vibe_clock(db: &mut Database, clock: &FakeClock, command: Command) -> Outcome {
    run(db, clock, Cli { command })
}

fn project_add(name: &str) -> Command {
    Command::Project { action: ProjectAction::Add { name: name.to_string() } }
}

fn clock_start(project: &str, description: &str) -> Command {
    Command::Clock {
        action: ClockAction::Start {
            project: project.to_string(),
            description: description.to_string(),
        },
    }
}

#[test]
fn clock_state_persists_after_crash() {
    let mut db = Database::new();
    assert!(vibe_clock(&mut db, &on(27, 8, 0), project_add("Acme")).reply.is_ok());
    assert!(vibe_clock(&mut db, &on(27, 9, 0), clock_start("Acme", "Working")).reply.is_ok());

    // The store is all that a later run has: it is handed on through its records.
    let mut later = Database::restore(
        db.all_projects(),
        db.all_tasks(),
        db.get_clock_state(),
        db.next_project_id(),
        db.next_task_id(),
    )
    .unwrap();

    let outcome = vibe_clock(&mut later, &on(27, 9, 30), Command::Clock { action: ClockAction::Status });
    let text = stdout(&outcome);
    assert!(text.contains("Clock running"));
    assert!(text.contains("Working"));

    let outcome = vibe_clock(&mut later, &on(27, 9, 45), Command::Clock { action: ClockAction::Stop });
    assert!(stdout(&outcome).contains("Clock stopped"));
}

#[test]
fn delete_project_with_running_clock_stops_clock_first() {
    let mut db = Database::new();
    assert!(vibe_clock(&mut db, &on(27, 8, 0), project_add("Acme")).reply.is_ok());
    assert!(vibe_clock(&mut db, &on(27, 9, 0), clock_start("Acme", "In progress")).reply.is_ok());

    let outcome = vibe_clock(
        &mut db,
        &on(27, 9, 5),
        Command::Project { action: ProjectAction::Delete { id: 1, yes: true } },
    );
    assert!(stdout(&outcome).contains("deleted"));

    let outcome = vibe_clock(&mut db, &on(27, 9, 6), Command::Clock { action: ClockAction::Status });
    assert!(stdout(&outcome).contains("No clock is running"));
    assert!(outcome.warning.is_none());

    let outcome = vibe_clock(&mut db, &on(27, 9, 7), Command::Project { action: ProjectAction::List });
    assert!(stdout(&outcome).contains("No projects found"));
    assert!(db.all_tasks().is_empty());
}

#[test]
fn clock_start_stop_records_task_entry() {
    let mut db = Database::new();
    assert!(vibe_clock(&mut db, &on(27, 8, 0), project_add("Acme")).reply.is_ok());
    assert!(vibe_clock(&mut db, &on(27, 23, 50), clock_start("Acme", "Late work")).reply.is_ok());

    let outcome = vibe_clock(&mut db, &on(28, 0, 20), Command::Clock { action: ClockAction::Stop });
    let text = stdout(&outcome);
    assert!(text.contains("Clock stopped"));
    assert!(text.contains("Late work"));
    assert!(text.contains("30m"));

    // The entry is dated by its start, so it stands in the journal of the day before.
    let outcome = vibe_clock(
        &mut db,
        &on(28, 0, 21),
        Command::Journal { date: Some("yesterday".to_string()) },
    );
    assert!(stdout(&outcome).contains("Late work"));
    let outcome = vibe_clock(&mut db, &on(28, 0, 21), Command::Journal { date: None });
    assert!(stdout(&outcome).contains("No tasks logged"));
}
