//! The project commands: add, list, edit and delete.

use super::{Pending, ProjectAction, Reply};
use crate::clock_trait::Clock;
use crate::db::{is_project_listing, project_views, Database, StoreView};
use crate::error::AppError;
use crate::formatting::table::{push_rule, rule};
use crate::models::{Project, ProjectView};
use crate::services::project::{
    create_project, create_project_post, delete_project, delete_project_post, list_projects,
    rename_project, rename_project_post, DeleteResult,
};
use crate::text::{decimal, int_to_string, padded, push_int, push_padded, trim, trim_spec};
use crate::time::{datetime_text, secs_in_range, Timestamp};
use vstd::prelude::*;

verus! {

pub open spec fn created_text(name: Seq<char>) -> Seq<char> {
    "Project '"@ + name + "' created.\n"@
}

pub open spec fn renamed_text(name: Seq<char>) -> Seq<char> {
    "Project renamed to '"@ + name + "'.\n"@
}

pub open spec fn deleted_text(name: Seq<char>) -> Seq<char> {
    "Project '"@ + name + "' deleted.\n"@
}

pub open spec fn confirm_project_text(name: Seq<char>, task_count: int) -> Seq<char> {
    "Project '"@ + name + "' has "@ + decimal(task_count)
        + " tasks. Delete project and all tasks? [y/N] "@
}

pub open spec fn no_projects_text() -> Seq<char> {
    "No projects found. Create one with: vibe-clock project add <name>\n"@
}

/// The heading of the list of projects.
pub open spec fn project_list_header() -> Seq<char> {
    padded("ID"@, 6) + " "@ + padded("Name"@, 20) + " "@ + padded("Tasks"@, 8) + " "@ + padded(
        "Created"@,
        20,
    )
}

/// One line of the list of projects, from the texts of its cells.
pub open spec fn project_row_text(id: int, name: Seq<char>, tasks: int, created: Seq<char>) -> Seq<
    char,
> {
    padded(decimal(id), 6) + " "@ + padded(name, 20) + " "@ + padded(decimal(tasks), 8) + " "@
        + padded(created, 20)
}

/// The lines of `listed`, each with the number of the project's task
/// entries in `store` and the minute of its creation, and each closed by a
/// line break.
pub open spec fn project_rows(store: StoreView, listed: Seq<ProjectView>) -> Seq<char>
    decreases listed.len(),
{
    if listed.len() == 0 {
        Seq::empty()
    } else {
        project_rows(store, listed.drop_last()) + project_row_text(
            listed.last().id,
            listed.last().name,
            store.count_tasks(listed.last().id) as int,
            datetime_text(listed.last().created_at as i64, "%Y-%m-%d %H:%M"@)->0,
        ) + "\n"@
    }
}

/// The list of projects: a hint where there are none; else the heading, a
/// rule of 56 hyphens and a line for each project.
pub open spec fn project_list_text(store: StoreView, listed: Seq<ProjectView>) -> Seq<char> {
    if listed.len() == 0 {
        no_projects_text()
    } else {
        project_list_header() + "\n"@ + rule(56) + "\n"@ + project_rows(store, listed)
    }
}

/// A line of the shape `before`, `name`, `after`.
pub fn named_line(before: &str, name: &str, after: &str) -> (r: String)
    ensures
        r@ == before@ + name@ + after@,
{
    let mut line = String::new();
    line.append(before);
    line.append(name);
    line.append(after);
    assert(line@ =~= before@ + name@ + after@);
    line
}

/// The question put before a project with task entries is deleted.
pub fn confirm_project_prompt(name: &str, task_count: i64) -> (r: String)
    ensures
        r@ == confirm_project_text(name@, task_count as int),
{
    let mut line = String::new();
    line.append("Project '");
    line.append(name);
    line.append("' has ");
    push_int(&mut line, task_count);
    line.append(" tasks. Delete project and all tasks? [y/N] ");
    assert(line@ =~= confirm_project_text(name@, task_count as int));
    line
}

/// Appends one line of the list of projects to `out`, from the texts of
/// its cells.
pub fn push_project_row(out: &mut String, id: i64, name: &str, tasks: i64, created: &str)
    ensures
        final(out)@ == old(out)@ + project_row_text(id as int, name@, tasks as int, created@),
{
    let mut line = String::new();
    let id_text = int_to_string(id);
    push_padded(&mut line, id_text.as_str(), 6);
    line.append(" ");
    push_padded(&mut line, name, 20);
    line.append(" ");
    let count_text = int_to_string(tasks);
    push_padded(&mut line, count_text.as_str(), 8);
    line.append(" ");
    push_padded(&mut line, created, 20);
    assert(line@ =~= project_row_text(id as int, name@, tasks as int, created@));
    out.append(line.as_str());
}

/// The list of the projects `listed`, with the number of task entries
/// that each has in the store.
pub fn project_list(db: &Database, listed: &Vec<Project>) -> (r: String)
    requires
        db.wf(),
    ensures
        r@ == project_list_text(db@, project_views(listed@)),
{
    if listed.len() == 0 {
        return "No projects found. Create one with: vibe-clock project add <name>\n".to_owned();
    }
    let ghost views = project_views(listed@);
    let mut out = String::new();
    let mut head = String::new();
    push_padded(&mut head, "ID", 6);
    head.append(" ");
    push_padded(&mut head, "Name", 20);
    head.append(" ");
    push_padded(&mut head, "Tasks", 8);
    head.append(" ");
    push_padded(&mut head, "Created", 20);
    assert(head@ =~= project_list_header());
    out.append(head.as_str());
    out.append("\n");
    push_rule(&mut out, 56);
    out.append("\n");
    let mut i: usize = 0;
    assert(views.take(0) =~= Seq::empty());
    assert(out@ =~= project_list_header() + "\n"@ + rule(56) + "\n"@ + project_rows(
        db@,
        views.take(0),
    ));
    while i < listed.len()
        invariant
            db.wf(),
            i <= listed.len(),
            views == project_views(listed@),
            out@ == project_list_header() + "\n"@ + rule(56) + "\n"@ + project_rows(
                db@,
                views.take(i as int),
            ),
        decreases listed.len() - i,
    {
        let count: i64 = db.count_tasks_for_project(listed[i].id);
        let created = listed[i].created_at.format_minute();
        push_project_row(&mut out, listed[i].id, listed[i].name.as_str(), count, created.as_str());
        out.append("\n");
        proof {
            assert(views.take(i + 1).drop_last() =~= views.take(i as int));
            assert(views.take(i + 1).last() == views[i as int]);
            assert(views[i as int] == listed@[i as int]@);
            assert(out@ =~= project_list_header() + "\n"@ + rule(56) + "\n"@ + project_rows(
                db@,
                views.take(i + 1),
            ));
        }
        i = i + 1;
    }
    assert(views.take(i as int) =~= views);
    out
}

/// A project command performed at `now`: the store changes as the
/// operation of the action changes it, a refusal is handed on as it is,
/// and a success is told. A deletion that needs confirmation changes
/// nothing and puts the question.
pub open spec fn handle_project_post(
    pre: StoreView,
    post: StoreView,
    r: Result<Reply, AppError>,
    action: ProjectAction,
    now: int,
) -> bool {
    match action {
        ProjectAction::Add { name } => exists|inner: Result<Project, AppError>|
            #![trigger create_project_post(pre, post, inner, name@, now)]
            create_project_post(pre, post, inner, name@, now) && match inner {
                Ok(p) => r matches Ok(Reply::Done(text)) && text@ == created_text(p@.name),
                Err(e) => r matches Err(f) && f@ == e@,
            },
        ProjectAction::List => post == pre && exists|listed: Seq<ProjectView>|
            #![trigger is_project_listing(pre, listed)]
            is_project_listing(pre, listed) && (r matches Ok(Reply::Done(text)) && text@
                == project_list_text(pre, listed)),
        ProjectAction::Edit { id, name } => exists|inner: Result<(), AppError>|
            #![trigger rename_project_post(pre, post, inner, id as int, name@, now)]
            rename_project_post(pre, post, inner, id as int, name@, now) && match inner {
                Ok(_) => r matches Ok(Reply::Done(text)) && text@ == renamed_text(trim_spec(name@)),
                Err(e) => r matches Err(f) && f@ == e@,
            },
        ProjectAction::Delete { id, yes } => exists|inner: Result<DeleteResult, AppError>|
            #![trigger delete_project_post(pre, post, inner, id as int, yes)]
            delete_project_post(pre, post, inner, id as int, yes) && match inner {
                Ok(DeleteResult::Deleted { name }) => r matches Ok(Reply::Done(text)) && text@
                    == deleted_text(name@),
                Ok(DeleteResult::NeedsConfirmation { name, task_count }) => r matches Ok(
                    Reply::Confirm { prompt, pending: Pending::ProjectDelete { id: i, name: n } },
                ) && prompt@ == confirm_project_text(name@, task_count as int) && i == id && n@
                    == name@,
                Err(e) => r matches Err(f) && f@ == e@,
            },
    }
}

/// Performs a project command at `now`.
pub fn handle_project_at(db: &mut Database, now: Timestamp, action: ProjectAction) -> (r: Result<
    Reply,
    AppError,
>)
    requires
        old(db).wf(),
    ensures
        final(db).wf(),
        handle_project_post(old(db)@, final(db)@, r, action, now@),
{
    match action {
        ProjectAction::Add { name } => {
            let inner = create_project(db, name.as_str(), now);
            match inner {
                Ok(project) => Ok(
                    Reply::Done(named_line("Project '", project.name.as_str(), "' created.\n")),
                ),
                Err(e) => Err(e),
            }
        },
        ProjectAction::List => {
            match list_projects(db) {
                Ok(listed) => Ok(Reply::Done(project_list(db, &listed))),
                Err(e) => Err(e),
            }
        },
        ProjectAction::Edit { id, name } => {
            let inner = rename_project(db, id, name.as_str(), now);
            match inner {
                Ok(()) => Ok(
                    Reply::Done(named_line("Project renamed to '", trim(name.as_str()), "'.\n")),
                ),
                Err(e) => Err(e),
            }
        },
        ProjectAction::Delete { id, yes } => {
            let inner = delete_project(db, id, yes);
            match inner {
                Ok(DeleteResult::Deleted { name }) => Ok(
                    Reply::Done(named_line("Project '", name.as_str(), "' deleted.\n")),
                ),
                Ok(DeleteResult::NeedsConfirmation { name, task_count }) => {
                    let prompt = confirm_project_prompt(name.as_str(), task_count);
                    Ok(Reply::Confirm { prompt, pending: Pending::ProjectDelete { id, name } })
                },
                Err(e) => Err(e),
            }
        },
    }
}

/// Performs a project command at the time that `clock` gives.
pub fn handle_project<C: Clock>(db: &mut Database, clock: &C, action: ProjectAction) -> (r: Result<
    Reply,
    AppError,
>)
    requires
        old(db).wf(),
    ensures
        final(db).wf(),
        exists|now: int|
            secs_in_range(now) && #[trigger] handle_project_post(
                old(db)@,
                final(db)@,
                r,
                action,
                now,
            ),
{
    let now = clock.now();
    proof {
        use_type_invariant(&now);
        now.lemma_in_range();
    }
    handle_project_at(db, now, action)
}

} // verus!
