//! Projects: creating, listing, renaming and deleting them.

use crate::db::{
    is_project_listing, lemma_count_positive, lemma_without_project_contains, msg_full,
    project_views, without_project, Database, StoreView,
};
use crate::error::{AppError, ErrorView};
use crate::models::{Project, ProjectView, TaskView};
use crate::text::{decimal, push_int, trim, trim_spec};
use crate::time::Timestamp;
use vstd::prelude::*;

verus! {

/// The outcome of a request to delete a project.
#[derive(Debug)]
pub enum DeleteResult {
    /// The project is gone, with its task entries.
    Deleted { name: String },
    /// The project has task entries and stays until the request is forced.
    NeedsConfirmation { name: String, task_count: i64 },
}

pub open spec fn msg_empty_name() -> Seq<char> {
    "Project name cannot be empty."@
}

pub open spec fn msg_project_exists(name: Seq<char>) -> Seq<char> {
    "Project '"@ + name + "' already exists."@
}

pub open spec fn msg_project_id_not_found(id: int) -> Seq<char> {
    "Project with ID "@ + decimal(id) + " not found."@
}

/// A user condition whose message is `before`, the number `id` and `after`
/// in a row.
pub fn user_about_id(before: &str, id: i64, after: &str) -> (r: AppError)
    ensures
        r@ == ErrorView::User(before@ + decimal(id as int) + after@),
{
    let mut text = String::new();
    text.append(before);
    push_int(&mut text, id);
    text.append(after);
    assert(text@ =~= before@ + decimal(id as int) + after@);
    AppError::UserError(text)
}

/// Creating a project named `name` at `now`.
///
/// The name is trimmed. An empty name and a name already in use are
/// refused with a user condition, a store with no id left with a system
/// condition; the store then stays as it is. Otherwise the store gains the
/// project under the next id.
pub open spec fn create_project_post(
    pre: StoreView,
    post: StoreView,
    r: Result<Project, AppError>,
    name: Seq<char>,
    now: int,
) -> bool {
    let trimmed = trim_spec(name);
    if trimmed.len() == 0 {
        post == pre && (r matches Err(e) && e@ == ErrorView::User(msg_empty_name()))
    } else if pre.has_name(trimmed) {
        post == pre && (r matches Err(e) && e@ == ErrorView::User(msg_project_exists(trimmed)))
    } else if pre.next_project_id >= i64::MAX {
        post == pre && (r matches Err(e) && e@ == ErrorView::System(msg_full()))
    } else {
        (r matches Ok(p) && p@ == (ProjectView {
            id: pre.next_project_id,
            name: trimmed,
            created_at: now,
            updated_at: now,
        }) && post == (StoreView {
            projects: pre.projects.push(p@),
            next_project_id: pre.next_project_id + 1,
            ..pre
        }))
    }
}

/// Renaming the project `id` to `new_name` at `now`.
///
/// The name is trimmed. An empty name, an id that no project has and a
/// name that another project has are refused with a user condition, the
/// store staying as it is. Otherwise the project has the new name and is
/// marked updated at `now`; nothing else changes.
pub open spec fn rename_project_post(
    pre: StoreView,
    post: StoreView,
    r: Result<(), AppError>,
    id: int,
    new_name: Seq<char>,
    now: int,
) -> bool {
    let trimmed = trim_spec(new_name);
    if trimmed.len() == 0 {
        post == pre && (r matches Err(e) && e@ == ErrorView::User(msg_empty_name()))
    } else if !pre.has_project(id) {
        post == pre && (r matches Err(e) && e@ == ErrorView::User(msg_project_id_not_found(id)))
    } else if pre.name_taken_by_other(trimmed, id) {
        post == pre && (r matches Err(e) && e@ == ErrorView::User(msg_project_exists(trimmed)))
    } else {
        r is Ok && post == (StoreView {
            projects: pre.projects.update(
                pre.project_index(id),
                ProjectView {
                    name: trimmed,
                    updated_at: now,
                    ..pre.projects[pre.project_index(id)]
                },
            ),
            ..pre
        })
    }
}

/// The store `pre` without the project `id`, its task entries, and the
/// clock where it runs on that project.
pub open spec fn store_without_project(pre: StoreView, id: int) -> StoreView {
    StoreView {
        projects: pre.projects.remove(pre.project_index(id)),
        tasks: without_project(pre.tasks, id),
        clock: if pre.clock matches Some(c) && c.project_id == id {
            None
        } else {
            pre.clock
        },
        ..pre
    }
}

/// Deleting the project `id`.
///
/// An id that no project has is refused with a user condition. A project
/// with task entries is kept, and named with their count, unless `force` is
/// set; the store then stays as it is. Otherwise the project is removed
/// with its task entries and with the clock, should it run on the project.
pub open spec fn delete_project_post(
    pre: StoreView,
    post: StoreView,
    r: Result<DeleteResult, AppError>,
    id: int,
    force: bool,
) -> bool {
    match pre.project_by_id(id) {
        None => post == pre && (r matches Err(e) && e@ == ErrorView::User(
            msg_project_id_not_found(id),
        )),
        Some(p) => if pre.count_tasks(id) > 0 && !force {
            post == pre && (r matches Ok(DeleteResult::NeedsConfirmation { name, task_count })
                && name@ == p.name && task_count == pre.count_tasks(id))
        } else {
            (r matches Ok(DeleteResult::Deleted { name }) && name@ == p.name) && post
                == store_without_project(pre, id)
        },
    }
}

/// Creates a project.
pub fn create_project(db: &mut Database, name: &str, now: Timestamp) -> (r: Result<
    Project,
    AppError,
>)
    requires
        old(db).wf(),
    ensures
        final(db).wf(),
        create_project_post(old(db)@, final(db)@, r, name@, now@),
{
    let name = trim(name);
    if name.unicode_len() == 0 {
        return Err(AppError::user("Project name cannot be empty."));
    }
    if db.find_project_by_name(name).is_some() {
        return Err(AppError::user_about("Project '", name, "' already exists."));
    }
    db.insert_project(name, now)
}

/// All projects in the order of their names.
pub fn list_projects(db: &Database) -> (r: Result<Vec<Project>, AppError>)
    requires
        db.wf(),
    ensures
        r matches Ok(list) && is_project_listing(db@, project_views(list@)),
{
    Ok(db.list_projects())
}

/// Renames a project.
pub fn rename_project(db: &mut Database, id: i64, new_name: &str, now: Timestamp) -> (r: Result<
    (),
    AppError,
>)
    requires
        old(db).wf(),
    ensures
        final(db).wf(),
        rename_project_post(old(db)@, final(db)@, r, id as int, new_name@, now@),
{
    let new_name = trim(new_name);
    if new_name.unicode_len() == 0 {
        return Err(AppError::user("Project name cannot be empty."));
    }
    if !db.project_exists(id) {
        return Err(user_about_id("Project with ID ", id, " not found."));
    }
    if let Some(existing) = db.find_project_by_name(new_name) {
        if existing.id != id {
            proof {
                let k = choose|k: int|
                    0 <= k < db@.projects.len() && (#[trigger] db@.projects[k]).name
                        == new_name@;
                db@.lemma_project_by_name(k);
            }
            return Err(AppError::user_about("Project '", new_name, "' already exists."));
        }
        proof {
            assert forall|k: int|
                0 <= k < db@.projects.len() && (#[trigger] db@.projects[k]).name
                    == new_name@ implies db@.projects[k].id == id by {
                db@.lemma_project_by_name(k);
            }
        }
    }
    match db.update_project_name(id, new_name, now) {
        Ok(_) => Ok(()),
        Err(e) => Err(e),
    }
}

/// Deletes a project, or asks for confirmation where it has task entries
/// and `force` is not set.
pub fn delete_project(db: &mut Database, id: i64, force: bool) -> (r: Result<
    DeleteResult,
    AppError,
>)
    requires
        old(db).wf(),
    ensures
        final(db).wf(),
        delete_project_post(old(db)@, final(db)@, r, id as int, force),
{
    let project = match db.find_project_by_id(id) {
        Some(p) => p,
        None => {
            return Err(user_about_id("Project with ID ", id, " not found."));
        },
    };
    let task_count: i64 = db.count_tasks_for_project(id);
    if task_count > 0 && !force {
        return Ok(DeleteResult::NeedsConfirmation { name: project.name, task_count });
    }
    if let Some(clock_state) = db.get_clock_state() {
        if clock_state.project_id == id {
            db.delete_clock_state();
        }
    }
    match db.delete_project(id) {
        Ok(_) => Ok(DeleteResult::Deleted { name: project.name }),
        Err(e) => Err(e),
    }
}

/// A refused creation, a refused renaming and a refused deletion leave the
/// store as it was.
pub proof fn refused_project_change_keeps_store(
    pre: StoreView,
    post: StoreView,
    created: Result<Project, AppError>,
    renamed: Result<(), AppError>,
    deleted: Result<DeleteResult, AppError>,
    id: int,
    name: Seq<char>,
    force: bool,
    now: int,
)
    ensures
        create_project_post(pre, post, created, name, now) && created is Err ==> post == pre,
        rename_project_post(pre, post, renamed, id, name, now) && renamed is Err ==> post == pre,
        delete_project_post(pre, post, deleted, id, force) && deleted is Err ==> post == pre,
{
}

/// Renaming a project to the name of another project, the name not being
/// empty, is refused with a user condition that tells of the duplicate,
/// and the store stays as it was.
pub proof fn rename_to_taken_name_is_refused(
    pre: StoreView,
    post: StoreView,
    r: Result<(), AppError>,
    id: int,
    new_name: Seq<char>,
    now: int,
)
    requires
        trim_spec(new_name).len() > 0,
        pre.has_project(id),
        pre.name_taken_by_other(trim_spec(new_name), id),
        rename_project_post(pre, post, r, id, new_name, now),
    ensures
        post == pre,
        r matches Err(e) && e@ == ErrorView::User(msg_project_exists(trim_spec(new_name))),
{
}

/// Deleting, without force, a project that has task entries changes
/// nothing in the store.
pub proof fn unforced_delete_keeps_store(
    pre: StoreView,
    post: StoreView,
    r: Result<DeleteResult, AppError>,
    id: int,
)
    requires
        pre.count_tasks(id) > 0,
        delete_project_post(pre, post, r, id, false),
    ensures
        post == pre,
{
}

/// Deleting an existing project with force succeeds and removes the
/// project, all its task entries and the clock where it runs on the
/// project. Every other project and every task entry of another project
/// stays, and so does a clock that runs on another project.
pub proof fn forced_delete_removes_project(
    pre: StoreView,
    post: StoreView,
    r: Result<DeleteResult, AppError>,
    id: int,
)
    requires
        pre.wf(),
        pre.has_project(id),
        delete_project_post(pre, post, r, id, true),
    ensures
        r matches Ok(DeleteResult::Deleted { .. }),
        !post.has_project(id),
        post.count_tasks(id) == 0,
        !(post.clock matches Some(c) && c.project_id == id),
        forall|p: ProjectView| post.projects.contains(p) <==> pre.projects.contains(p) && p.id != id,
        forall|t: TaskView| post.tasks.contains(t) <==> pre.tasks.contains(t) && t.project_id != id,
        pre.clock matches Some(c) && c.project_id != id ==> post.clock == pre.clock,
{
    let index = pre.project_index(id);
    pre.lemma_project_by_id(index);
    assert(post == store_without_project(pre, id));
    assert forall|p: ProjectView| post.projects.contains(p) <==> pre.projects.contains(p) && p.id
        != id by {
        if post.projects.contains(p) {
            let i = choose|i: int| 0 <= i < post.projects.len() && post.projects[i] == p;
            if i < index {
                assert(pre.projects[i] == p);
                assert(pre.projects[i].id < pre.projects[index].id);
            } else {
                assert(pre.projects[i + 1] == p);
                assert(pre.projects[index].id < pre.projects[i + 1].id);
            }
        }
        if pre.projects.contains(p) && p.id != id {
            let i = choose|i: int| 0 <= i < pre.projects.len() && pre.projects[i] == p;
            if i < index {
                assert(post.projects[i] == p);
            } else {
                assert(post.projects[i - 1] == p);
            }
        }
    }
    if post.has_project(id) {
        let i = choose|i: int| 0 <= i < post.projects.len() && (#[trigger] post.projects[i]).id == id;
        assert(post.projects.contains(post.projects[i]));
    }
    assert forall|t: TaskView| post.tasks.contains(t) <==> pre.tasks.contains(t) && t.project_id
        != id by {
        lemma_without_project_contains(pre.tasks, id, t);
    }
    lemma_count_positive(post.tasks, id);
    if post.count_tasks(id) > 0 {
        let i = choose|i: int| 0 <= i < post.tasks.len() && (#[trigger] post.tasks[i]).project_id == id;
        assert(post.tasks.contains(post.tasks[i]));
    }
}

} // verus!
