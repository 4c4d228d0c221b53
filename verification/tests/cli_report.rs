use chrono::NaiveDate;
use vibe_clock::cli::{run, Cli, Command, Outcome, ProjectAction, Reply, TaskAction};
use vibe_clock::clock_trait::Clock;
use vibe_clock::db::Database;
use vibe_clock::time::Timestamp;

struct FakeClock {
    now: Timestamp,
}

impl Clock for FakeClock {
    fn now(&self) -> Timestamp {
        self.now
    }
}

fn clock() -> FakeClock {
    let dt = NaiveDate::from_ymd_opt(2026, 2, 28).unwrap().and_hms_opt(12, 0, 0).unwrap();
    FakeClock { now: Timestamp::from_secs(dt.and_utc().timestamp()).unwrap() }
}

fn stdout(outcome: &Outcome) -> String {
    match &outcome.reply {
        Ok(Reply::Done(text)) => text.clone(),
        other => panic!("no text on the standard output: {:?}", other),
    }
}

fn vibe_clock(db: &mut Database, command: Command) -> Outcome {
    run(db, &clock(), Cli { command })
}

fn task_add(project: &str, description: &str, start: &str, end: &str) -> Command {
    Command::Task {
        action: TaskAction::Add {
            project: project.to_string(),
            description: description.to_string(),
            start: Some(start.to_string()),
            end: Some(end.to_string()),
            duration: None,
            date: None,
        },
    }
}

fn report(from: &str, to: &str) -> Command {
    Command::Report { from: from.to_string(), to: to.to_string() }
}

fn setup_with_dated_tasks(db: &mut Database) {
    for name in ["Acme", "Beta"] {
        assert!(vibe_clock(
            db,
            Command::Project { action: ProjectAction::Add { name: name.to_string() } }
        )
        .reply
        .is_ok());
    }
    assert!(vibe_clock(db, task_add("Acme", "Day 1 work", "2026-02-25T09:00", "2026-02-25T11:00"))
        .reply
        .is_ok());
    assert!(vibe_clock(db, task_add("Acme", "Day 2 work", "2026-02-26T09:00", "2026-02-26T10:30"))
        .reply
        .is_ok());
    assert!(vibe_clock(db, task_add("Beta", "Beta task", "2026-02-25T14:00", "2026-02-25T15:00"))
        .reply
        .is_ok());
}

#[test]
fn generates_report_grouped_by_project() {
    let mut db = Database::new();
    setup_with_dated_tasks(&mut db);
    let text = stdout(&vibe_clock(&mut db, report("2026-02-25", "2026-02-26")));
    assert!(text.contains("Acme"));
    assert!(text.contains("Beta"));
    assert!(text.contains("Grand Total"));
}

#[test]
fn shows_day_by_day_breakdown() {
    let mut db = Database::new();
    setup_with_dated_tasks(&mut db);
    let stdout = stdout(&vibe_clock(&mut db, report("2026-02-25", "2026-02-26")));
    assert!(stdout.contains("Day 1 work"));
    assert!(stdout.contains("Day 2 work"));
    assert!(stdout.contains("2026-02-25"));
    assert!(stdout.contains("2026-02-26"));
}

#[test]
fn shows_empty_message_for_range_with_no_data() {
    let mut db = Database::new();
    let text = stdout(&vibe_clock(&mut db, report("2026-01-01", "2026-01-31")));
    assert!(text.contains("No tasks found"));
    assert_eq!(text, "No tasks found between 2026-01-01 and 2026-01-31.\n");
}

#[test]
fn rejects_from_after_to() {
    let mut db = Database::new();
    let outcome = vibe_clock(&mut db, report("2026-02-28", "2026-02-01"));
    let e = outcome.reply.unwrap_err();
    assert_eq!(e.exit_code(), 1);
    assert!(e.message().contains("--from date must be before or equal to --to date"));
}

#[test]
fn the_report_is_a_section_per_project() {
    let mut db = Database::new();
    setup_with_dated_tasks(&mut db);
    let text = stdout(&vibe_clock(&mut db, report("2026-02-25", "2026-02-26")));
    let header = format!(
        "  {:<6} {:<30} {:<12} {:<6} {:<6} {:<8}\n",
        "ID", "Description", "Date", "Start", "End", "Duration"
    );
    let rule = format!("  {}\n", "-".repeat(72));
    let mut expected = String::new();
    expected.push_str("Report: 2026-02-25 to 2026-02-26\n\n");
    expected.push_str("## Acme (3h 30m)\n");
    expected.push_str(&header);
    expected.push_str(&rule);
    expected.push_str(&format!(
        "  {:<6} {:<30} {:<12} {:<6} {:<6} {:<8}\n",
        1, "Day 1 work", "2026-02-25", "09:00", "11:00", "2h"
    ));
    expected.push_str(&format!(
        "  {:<6} {:<30} {:<12} {:<6} {:<6} {:<8}\n",
        2, "Day 2 work", "2026-02-26", "09:00", "10:30", "1h 30m"
    ));
    expected.push_str("\n");
    expected.push_str("## Beta (1h)\n");
    expected.push_str(&header);
    expected.push_str(&rule);
    expected.push_str(&format!(
        "  {:<6} {:<30} {:<12} {:<6} {:<6} {:<8}\n",
        3, "Beta task", "2026-02-25", "14:00", "15:00", "1h"
    ));
    expected.push_str("\n");
    expected.push_str("Grand Total: 4h 30m\n");
    assert_eq!(text, expected);
}

#[test]
fn the_range_includes_both_ends_and_nothing_else() {
    let mut db = Database::new();
    setup_with_dated_tasks(&mut db);
    let text = stdout(&vibe_clock(&mut db, report("2026-02-26", "2026-02-26")));
    assert!(text.contains("Day 2 work"));
    assert!(!text.contains("Day 1 work"));
    assert!(!text.contains("Beta"));
    assert!(text.contains("Grand Total: 1h 30m\n"));
    let text = stdout(&vibe_clock(&mut db, report("2026-02-27", "today")));
    assert_eq!(text, "No tasks found between 2026-02-27 and 2026-02-28.\n");
}
