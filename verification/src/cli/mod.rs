//! The commands of the program and what each of them answers.
//!
//! A handler performs its command on the store and gives the text for the
//! operator. Where a command needs the operator's confirmation, the handler
//! gives the question and what is pending, and [`confirm`] carries on with
//! the answer.

pub mod clock;
pub mod journal;
pub mod project;
pub mod report;
pub mod task;

use crate::clock_trait::Clock;
use crate::db::{Database, StoreView};
use crate::error::AppError;
use crate::formatting::duration::duration_text;
use crate::formatting::format_duration;
use crate::services::clock::{clock_status_at, clock_status_post, ClockStatusInfo};
use crate::time::{day_of, secs_in_range, Timestamp};
use crate::services::project::{delete_project, delete_project_post, DeleteResult};
use crate::services::task::{delete_task, delete_task_post};
use crate::text::same_text;

use vstd::prelude::*;

verus! {

/// The command line, parsed.
#[derive(Debug)]
pub struct Cli {
    pub command: Command,
}

/// A command of the program.
#[derive(Debug)]
#[allow(inconsistent_fields)]
pub enum Command {
    /// Manage projects.
    Project { action: ProjectAction },
    /// Clock in and out.
    Clock { action: ClockAction },
    /// Manage task entries.
    Task { action: TaskAction },
    /// View the journal of a day; of today where no date is given.
    Journal { date: Option<String> },
    /// Report on a range of days, both ends included.
    Report { from: String, to: String },
}

#[derive(Debug)]
pub enum ProjectAction {
    /// Create a project.
    Add { name: String },
    /// List all projects.
    List,
    /// Rename a project.
    Edit { id: i64, name: String },
    /// Delete a project; `yes` skips the confirmation.
    Delete { id: i64, yes: bool },
}

#[derive(Debug)]
pub enum ClockAction {
    /// Start the clock on a project, named or given by its id.
    Start { project: String, description: String },
    /// Stop the running clock.
    Stop,
    /// Show what the clock does.
    Status,
}

#[derive(Debug)]
#[allow(inconsistent_fields)]
pub enum TaskAction {
    /// Add a task entry by hand.
    Add {
        project: String,
        description: String,
        start: Option<String>,
        end: Option<String>,
        duration: Option<String>,
        date: Option<String>,
    },
    /// Edit a task entry.
    Edit {
        id: i64,
        description: Option<String>,
        project: Option<String>,
        start: Option<String>,
        end: Option<String>,
        duration: Option<String>,
    },
    /// Delete a task entry; `yes` skips the confirmation.
    Delete { id: i64, yes: bool },
}

/// What stays to be done once the operator has confirmed.
#[derive(Debug)]
pub enum Pending {
    /// The deletion of the project `id`, named `name`, with its entries.
    ProjectDelete { id: i64, name: String },
    /// The deletion of the task entry `id`.
    TaskDelete { id: i64 },
}

/// The answer of a handler.
#[derive(Debug)]
pub enum Reply {
    /// The command is done; the text goes to the standard output.
    Done(String),
    /// The command waits for a line from the operator; the prompt goes to
    /// the standard error.
    Confirm { prompt: String, pending: Pending },
}

pub open spec fn owned_text(s: Option<String>) -> Option<Seq<char>> {
    match s {
        Some(s) => Some(s@),
        None => None,
    }
}

/// Borrows the text of an optional argument.
pub fn as_text(s: &Option<String>) -> (r: Option<&str>)
    ensures
        crate::db::text_of(r) == owned_text(*s),
{
    match s {
        Some(s) => Some(s.as_str()),
        None => None,
    }
}

/// What one run of the program tells the operator.
#[derive(Debug)]
pub struct Outcome {
    /// The warning of a clock left running, for the standard error.
    pub warning: Option<String>,
    /// The answer to the command.
    pub reply: Result<Reply, AppError>,
}

pub open spec fn warning_text(
    description: Seq<char>,
    project: Seq<char>,
    start: Seq<char>,
    elapsed: int,
) -> Seq<char> {
    "Warning: Clock still running for '"@ + description + "' on project '"@ + project
        + "' since "@ + start + " ("@ + duration_text(elapsed) + " elapsed).\n"@
}

/// The warning of a clock left running.
pub fn warning_line(info: &ClockStatusInfo) -> (r: String)
    ensures
        r@ == warning_text(
            info.description@,
            info.project_name@,
            info.start_time@,
            info.elapsed_min as int,
        ),
{
    let mut line = String::new();
    line.append("Warning: Clock still running for '");
    line.append(info.description.as_str());
    line.append("' on project '");
    line.append(info.project_name.as_str());
    line.append("' since ");
    line.append(info.start_time.as_str());
    line.append(" (");
    let d = format_duration(info.elapsed_min);
    line.append(d.as_str());
    line.append(" elapsed).\n");
    assert(line@ =~= warning_text(
        info.description@,
        info.project_name@,
        info.start_time@,
        info.elapsed_min as int,
    ));
    line
}

/// Whether `reply` hands on the text or the refusal of `inner`.
pub open spec fn hands_on(inner: Result<String, AppError>, reply: Result<Reply, AppError>) -> bool {
    match inner {
        Ok(text) => reply matches Ok(Reply::Done(t)) && t@ == text@,
        Err(e) => reply matches Err(f) && f@ == e@,
    }
}

/// One run of the program at `now`.
///
/// A clock that an earlier run left running is told in a warning before
/// anything else. Then the command is handled as its handler handles it;
/// the journal and the report take the day of `now` for today.
pub open spec fn run_post(
    pre: StoreView,
    post: StoreView,
    outcome: Outcome,
    cli: Cli,
    now: int,
) -> bool {
    &&& exists|found: Result<Option<ClockStatusInfo>, AppError>|
        #![trigger clock_status_post(pre, found, now)]
        clock_status_post(pre, found, now) && match found {
            Ok(Some(info)) => outcome.warning matches Some(w) && w@ == warning_text(
                info.description@,
                info.project_name@,
                info.start_time@,
                info.elapsed_min as int,
            ),
            _ => outcome.warning is None,
        }
    &&& match cli.command {
        Command::Project { action } => project::handle_project_post(
            pre,
            post,
            outcome.reply,
            action,
            now,
        ),
        Command::Clock { action } => exists|inner: Result<String, AppError>|
            #![trigger clock::handle_clock_post(pre, post, inner, action, now)]
            clock::handle_clock_post(pre, post, inner, action, now) && hands_on(
                inner,
                outcome.reply,
            ),
        Command::Task { action } => task::handle_task_post(pre, post, outcome.reply, action, now),
        Command::Journal { date } => post == pre && exists|inner: Result<String, AppError>|
            #![trigger journal::handle_journal_post(pre, inner, owned_text(date), day_of(now))]
            journal::handle_journal_post(pre, inner, owned_text(date), day_of(now)) && hands_on(
                inner,
                outcome.reply,
            ),
        Command::Report { from, to } => post == pre && exists|inner: Result<String, AppError>|
            #![trigger report::handle_report_post(pre, inner, from@, to@, day_of(now))]
            report::handle_report_post(pre, inner, from@, to@, day_of(now)) && hands_on(
                inner,
                outcome.reply,
            ),
    }
}

fn lift(inner: Result<String, AppError>) -> (r: Result<Reply, AppError>)
    ensures
        hands_on(inner, r),
{
    match inner {
        Ok(text) => Ok(Reply::Done(text)),
        Err(e) => Err(e),
    }
}

/// Runs the program once at `now`.
pub fn run_at(db: &mut Database, now: Timestamp, cli: Cli) -> (r: Outcome)
    requires
        old(db).wf(),
    ensures
        final(db).wf(),
        run_post(old(db)@, final(db)@, r, cli, now@),
{
    let warning = match clock_status_at(db, now) {
        Ok(Some(info)) => Some(warning_line(&info)),
        _ => None,
    };
    let today = now.date();
    let reply = match cli.command {
        Command::Project { action } => project::handle_project_at(db, now, action),
        Command::Clock { action } => lift(clock::handle_clock_at(db, now, action)),
        Command::Task { action } => task::handle_task_at(db, now, action),
        Command::Journal { date } => lift(journal::handle_journal(db, as_text(&date), today)),
        Command::Report { from, to } => lift(
            report::handle_report(db, from.as_str(), to.as_str(), today),
        ),
    };
    Outcome { warning, reply }
}

/// Runs the program once at the time that `clock` gives.
pub fn run<C: Clock>(db: &mut Database, clock: &C, cli: Cli) -> (r: Outcome)
    requires
        old(db).wf(),
    ensures
        final(db).wf(),
        exists|now: int|
            secs_in_range(now) && #[trigger] run_post(old(db)@, final(db)@, r, cli, now),
{
    let now = clock.now();
    proof {
        use_type_invariant(&now);
        now.lemma_in_range();
    }
    run_at(db, now, cli)
}

pub open spec fn cancelled_text() -> Seq<char> {
    "Cancelled.\n"@
}

/// Whether the operator's line confirms: it does where it is `y` or `Y`
/// and nothing else.
pub open spec fn confirms(answer: Option<Seq<char>>) -> bool {
    answer == Some("y"@) || answer == Some("Y"@)
}

/// Carrying on with what is pending, given the operator's line.
///
/// Any line but `y` or `Y`, and no line at all, cancels: the store stays
/// as it is. A confirmed deletion of a project is forced, one of a task
/// entry is performed; a refusal is handed on as it is.
pub open spec fn confirm_post(
    pre: StoreView,
    post: StoreView,
    r: Result<String, AppError>,
    pending: Pending,
    answer: Option<Seq<char>>,
) -> bool {
    if !confirms(answer) {
        post == pre && (r matches Ok(text) && text@ == cancelled_text())
    } else {
        match pending {
            Pending::ProjectDelete { id, name } => exists|inner: Result<DeleteResult, AppError>|
                #![trigger delete_project_post(pre, post, inner, id as int, true)]
                delete_project_post(pre, post, inner, id as int, true) && match inner {
                    Ok(_) => r matches Ok(text) && text@ == project::deleted_text(name@),
                    Err(e) => r matches Err(f) && f@ == e@,
                },
            Pending::TaskDelete { id } => exists|inner: Result<(String, i64), AppError>|
                #![trigger delete_task_post(pre, post, inner, id as int)]
                delete_task_post(pre, post, inner, id as int) && match inner {
                    Ok(_) => r matches Ok(text) && text@ == task::task_deleted_text(id as int),
                    Err(e) => r matches Err(f) && f@ == e@,
                },
        }
    }
}

/// Carries on with what is pending, given the line that the operator
/// answered with, if any.
pub fn confirm(db: &mut Database, pending: Pending, answer: Option<&str>) -> (r: Result<
    String,
    AppError,
>)
    requires
        old(db).wf(),
    ensures
        final(db).wf(),
        confirm_post(old(db)@, final(db)@, r, pending, crate::db::text_of(answer)),
{
    let yes = match answer {
        Some(line) => same_text(line, "y") || same_text(line, "Y"),
        None => false,
    };
    if !yes {
        return Ok("Cancelled.\n".to_owned());
    }
    match pending {
        Pending::ProjectDelete { id, name } => {
            let inner = delete_project(db, id, true);
            match inner {
                Ok(_) => Ok(project::named_line("Project '", name.as_str(), "' deleted.\n")),
                Err(e) => Err(e),
            }
        },
        Pending::TaskDelete { id } => {
            let inner = delete_task(db, id);
            match inner {
                Ok(_) => Ok(task::task_line(id, " deleted.\n")),
                Err(e) => Err(e),
            }
        },
    }
}

} // verus!
