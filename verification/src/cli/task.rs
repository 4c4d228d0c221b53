//! The task commands: add, edit and delete.

use super::{as_text, owned_text, Pending, Reply, TaskAction};
use crate::clock_trait::Clock;
use crate::db::{Database, StoreView};
use crate::error::{AppError, ErrorView};
use crate::formatting::duration::duration_text;
use crate::formatting::format_duration;
use crate::models::TaskEntry;
use crate::services::project::user_about_id;
use crate::services::task::{
    add_task_at, add_task_post, delete_task, delete_task_post, edit_task_at, edit_task_post,
    msg_task_not_found,
};
use crate::text::{decimal, push_int};
use crate::time::{secs_in_range, Timestamp};
use vstd::prelude::*;

verus! {

pub open spec fn logged_text(minutes: int, description: Seq<char>, project: Seq<char>) -> Seq<
    char,
> {
    "Task logged: "@ + duration_text(minutes) + " for '"@ + description + "' on project '"@
        + project + "'.\n"@
}

pub open spec fn updated_text(id: int) -> Seq<char> {
    "Task "@ + decimal(id) + " updated.\n"@
}

pub open spec fn task_deleted_text(id: int) -> Seq<char> {
    "Task "@ + decimal(id) + " deleted.\n"@
}

pub open spec fn confirm_task_text(description: Seq<char>, minutes: int) -> Seq<char> {
    "Delete task '"@ + description + "' ("@ + duration_text(minutes) + ")? [y/N] "@
}

/// The line that tells of a logged entry.
pub fn logged_line(minutes: i64, description: &str, project: &str) -> (r: String)
    ensures
        r@ == logged_text(minutes as int, description@, project@),
{
    let mut line = String::new();
    line.append("Task logged: ");
    let d = format_duration(minutes);
    line.append(d.as_str());
    line.append(" for '");
    line.append(description);
    line.append("' on project '");
    line.append(project);
    line.append("'.\n");
    assert(line@ =~= logged_text(minutes as int, description@, project@));
    line
}

/// A line of the shape `Task`, the number `id`, `after`.
pub fn task_line(id: i64, after: &str) -> (r: String)
    ensures
        r@ == "Task "@ + decimal(id as int) + after@,
{
    let mut line = String::new();
    line.append("Task ");
    push_int(&mut line, id);
    line.append(after);
    assert(line@ =~= "Task "@ + decimal(id as int) + after@);
    line
}

/// The question put before a task entry is deleted.
pub fn confirm_task_prompt(description: &str, minutes: i64) -> (r: String)
    ensures
        r@ == confirm_task_text(description@, minutes as int),
{
    let mut line = String::new();
    line.append("Delete task '");
    line.append(description);
    line.append("' (");
    let d = format_duration(minutes);
    line.append(d.as_str());
    line.append(")? [y/N] ");
    assert(line@ =~= confirm_task_text(description@, minutes as int));
    line
}

/// A task command performed at `now`: the store changes as the operation
/// of the action changes it, a refusal is handed on as it is, and a
/// success is told. A deletion without `yes` changes nothing and puts the
/// question, unless no entry has the id, which is refused at once.
pub open spec fn handle_task_post(
    pre: StoreView,
    post: StoreView,
    r: Result<Reply, AppError>,
    action: TaskAction,
    now: int,
) -> bool {
    match action {
        TaskAction::Add { project, description, start, end, duration, date } => exists|
            inner: Result<TaskEntry, AppError>,
        |
            #![trigger add_task_post(
                pre,
                post,
                inner,
                project@,
                description@,
                owned_text(start),
                owned_text(end),
                owned_text(duration),
                now,
            )]
            add_task_post(
                pre,
                post,
                inner,
                project@,
                description@,
                owned_text(start),
                owned_text(end),
                owned_text(duration),
                now,
            ) && match inner {
                Ok(entry) => r matches Ok(Reply::Done(text)) && text@ == logged_text(
                    entry.duration_min as int,
                    entry.description@,
                    project@,
                ),
                Err(e) => r matches Err(f) && f@ == e@,
            },
        TaskAction::Edit { id, description, project, start, end, duration } => exists|
            inner: Result<(), AppError>,
        |
            #![trigger edit_task_post(
                pre,
                post,
                inner,
                id as int,
                owned_text(description),
                owned_text(project),
                owned_text(start),
                owned_text(end),
                owned_text(duration),
                now,
            )]
            edit_task_post(
                pre,
                post,
                inner,
                id as int,
                owned_text(description),
                owned_text(project),
                owned_text(start),
                owned_text(end),
                owned_text(duration),
                now,
            ) && match inner {
                Ok(_) => r matches Ok(Reply::Done(text)) && text@ == updated_text(id as int),
                Err(e) => r matches Err(f) && f@ == e@,
            },
        TaskAction::Delete { id, yes } => match pre.task_by_id(id as int) {
            None => post == pre && (r matches Err(f) && f@ == ErrorView::User(
                msg_task_not_found(id as int),
            )),
            Some(task) => if !yes {
                post == pre && (r matches Ok(
                    Reply::Confirm { prompt, pending: Pending::TaskDelete { id: i } },
                ) && prompt@ == confirm_task_text(task.description, task.duration_min) && i == id)
            } else {
                exists|inner: Result<(String, i64), AppError>|
                    #![trigger delete_task_post(pre, post, inner, id as int)]
                    delete_task_post(pre, post, inner, id as int) && match inner {
                        Ok(_) => r matches Ok(Reply::Done(text)) && text@ == task_deleted_text(
                            id as int,
                        ),
                        Err(e) => r matches Err(f) && f@ == e@,
                    }
            },
        },
    }
}

/// Performs a task command at `now`.
pub fn handle_task_at(db: &mut Database, now: Timestamp, action: TaskAction) -> (r: Result<
    Reply,
    AppError,
>)
    requires
        old(db).wf(),
    ensures
        final(db).wf(),
        handle_task_post(old(db)@, final(db)@, r, action, now@),
{
    match action {
        TaskAction::Add { project, description, start, end, duration, date } => {
            let inner = add_task_at(
                db,
                project.as_str(),
                description.as_str(),
                as_text(&start),
                as_text(&end),
                as_text(&duration),
                as_text(&date),
                now,
            );
            match inner {
                Ok(entry) => Ok(
                    Reply::Done(
                        logged_line(
                            entry.duration_min,
                            entry.description.as_str(),
                            project.as_str(),
                        ),
                    ),
                ),
                Err(e) => Err(e),
            }
        },
        TaskAction::Edit { id, description, project, start, end, duration } => {
            let inner = edit_task_at(
                db,
                id,
                as_text(&description),
                as_text(&project),
                as_text(&start),
                as_text(&end),
                as_text(&duration),
                now,
            );
            match inner {
                Ok(()) => Ok(Reply::Done(task_line(id, " updated.\n"))),
                Err(e) => Err(e),
            }
        },
        TaskAction::Delete { id, yes } => {
            let entry = match db.find_task_entry_by_id(id) {
                Some(t) => t,
                None => {
                    return Err(user_about_id("Task with ID ", id, " not found."));
                },
            };
            if !yes {
                let prompt = confirm_task_prompt(entry.description.as_str(), entry.duration_min);
                return Ok(Reply::Confirm { prompt, pending: Pending::TaskDelete { id } });
            }
            let inner = delete_task(db, id);
            match inner {
                Ok(_) => Ok(Reply::Done(task_line(id, " deleted.\n"))),
                Err(e) => Err(e),
            }
        },
    }
}

/// Performs a task command at the time that `clock` gives.
pub fn handle_task<C: Clock>(db: &mut Database, clock: &C, action: TaskAction) -> (r: Result<
    Reply,
    AppError,
>)
    requires
        old(db).wf(),
    ensures
        final(db).wf(),
        exists|now: int|
            secs_in_range(now) && #[trigger] handle_task_post(old(db)@, final(db)@, r, action, now),
{
    let now = clock.now();
    proof {
        use_type_invariant(&now);
        now.lemma_in_range();
    }
    handle_task_at(db, now, action)
}

} // verus!
