//! Task entries: adding, editing and deleting them.

use super::project::user_about_id;
use super::{msg_project_not_found, resolve_project};
use crate::clock_trait::Clock;
use crate::db::{
    insert_task_result, lemma_insert_task_kept, lemma_update_task_kept, text_of,
    update_task_result, Database, StoreView,
};
use crate::error::{AppError, ErrorView};
use crate::formatting::duration::parse_duration_spec;
use crate::formatting::{parse_duration, parse_time, parse_time_spec};
use crate::models::{time_view, TaskEntry, TaskView};
use crate::text::decimal;
use crate::time::{day_of, minutes_between, secs_in_range, Timestamp};
use vstd::prelude::*;

verus! {

pub open spec fn msg_end_before_start() -> Seq<char> {
    "End time must be after start time."@
}

pub open spec fn msg_provide_either() -> Seq<char> {
    "Provide either --start/--end or --duration."@
}

pub open spec fn msg_task_not_found(id: int) -> Seq<char> {
    "Task with ID "@ + decimal(id) + " not found."@
}

pub open spec fn span_view(times: Option<(Timestamp, Timestamp)>) -> Option<(int, int)> {
    match times {
        Some((s, e)) => Some((s@, e@)),
        None => None,
    }
}

/// The start, the end and the minutes of a new entry, or the message of
/// its rejection.
///
/// A start and an end decide where they are given: the end must lie after
/// the start, and the minutes are those between the two. Without them the
/// duration text decides, and the entry has neither start nor end. One of
/// the two must be there.
pub open spec fn new_entry_times(times: Option<(int, int)>, duration: Option<Seq<char>>) -> Result<
    (Option<int>, Option<int>, int),
    Seq<char>,
> {
    match times {
        Some((s, e)) => if e <= s {
            Err(msg_end_before_start())
        } else {
            Ok((Some(s), Some(e), minutes_between(s, e)))
        },
        None => match duration {
            Some(d) => match parse_duration_spec(d) {
                Ok(m) => Ok((None, None, m as int)),
                Err(msg) => Err(msg),
            },
            None => Err(msg_provide_either()),
        },
    }
}

/// Adding at `now` an entry of the project `project_id` from a start and an
/// end that are already times.
///
/// Rejected times leave the store as it is, with a user condition; so does
/// a refusal by the store, with a system condition. Otherwise the store
/// gains the entry, which is also the result.
pub open spec fn add_task_to_post(
    pre: StoreView,
    post: StoreView,
    r: Result<TaskEntry, AppError>,
    project_id: int,
    description: Seq<char>,
    times: Option<(int, int)>,
    duration: Option<Seq<char>>,
    now: int,
) -> bool {
    match new_entry_times(times, duration) {
        Err(m) => post == pre && (r matches Err(e) && e@ == ErrorView::User(m)),
        Ok((start, end, minutes)) => match insert_task_result(
            pre,
            project_id,
            description,
            start,
            end,
            minutes,
            now,
        ) {
            Ok((task, store)) => post == store && (r matches Ok(t) && t@ == task),
            Err(m) => post == pre && (r matches Err(e) && e@ == ErrorView::System(m)),
        },
    }
}

/// Adding at `now` an entry of the project that `project` names.
///
/// A start and an end count only together; each is read as a time on the
/// day of `now`. A project that does not resolve, and a start or an end
/// that is no time, leave the store as it is, with a user condition.
pub open spec fn add_task_post(
    pre: StoreView,
    post: StoreView,
    r: Result<TaskEntry, AppError>,
    project: Seq<char>,
    description: Seq<char>,
    start: Option<Seq<char>>,
    end: Option<Seq<char>>,
    duration: Option<Seq<char>>,
    now: int,
) -> bool {
    match pre.resolve(project) {
        None => post == pre && (r matches Err(e) && e@ == ErrorView::User(
            msg_project_not_found(project),
        )),
        Some(p) => match (start, end) {
            (Some(start), Some(end)) => match parse_time_spec(start, day_of(now)) {
                Err(m) => post == pre && (r matches Err(e) && e@ == ErrorView::User(m)),
                Ok(s) => match parse_time_spec(end, day_of(now)) {
                    Err(m) => post == pre && (r matches Err(e) && e@ == ErrorView::User(m)),
                    Ok(e) => add_task_to_post(
                        pre,
                        post,
                        r,
                        p.id,
                        description,
                        Some((s, e)),
                        duration,
                        now,
                    ),
                },
            },
            _ => add_task_to_post(pre, post, r, p.id, description, None, duration, now),
        },
    }
}

/// The duration that an edit sets, if it sets one, or the message of its
/// rejection.
///
/// A given duration decides. Without one, and with a new start or a new
/// end, the entry's resulting start and end decide where both are present:
/// the end must lie after the start, and the minutes are those between the
/// two. In every other case the duration stays.
pub open spec fn edited_duration(
    current: TaskView,
    start: Option<int>,
    end: Option<int>,
    duration: Option<Seq<char>>,
) -> Result<Option<int>, Seq<char>> {
    match duration {
        Some(d) => match parse_duration_spec(d) {
            Ok(m) => Ok(Some(m as int)),
            Err(msg) => Err(msg),
        },
        None => if start is Some || end is Some {
            let s = if start is Some {
                start
            } else {
                current.start_time
            };
            let e = if end is Some {
                end
            } else {
                current.end_time
            };
            match (s, e) {
                (Some(s), Some(e)) => if e <= s {
                    Err(msg_end_before_start())
                } else {
                    Ok(Some(minutes_between(s, e)))
                },
                _ => Ok(None),
            }
        } else {
            Ok(None)
        },
    }
}

pub open spec fn given_time(t: Option<int>) -> Option<Option<int>> {
    match t {
        Some(t) => Some(Some(t)),
        None => None,
    }
}

/// Editing at `now` the entry `id` with a start and an end that are
/// already times.
///
/// An id that no entry has, a project that does not resolve and a rejected
/// duration leave the store as it is, with a user condition; so does a
/// refusal by the store, with a system condition. Otherwise each given
/// field replaces the stored one, the duration is the edited one where the
/// edit sets one, and the entry is marked updated at `now`.
pub open spec fn edit_task_with_post(
    pre: StoreView,
    post: StoreView,
    r: Result<(), AppError>,
    id: int,
    description: Option<Seq<char>>,
    project: Option<Seq<char>>,
    start: Option<int>,
    end: Option<int>,
    duration: Option<Seq<char>>,
    now: int,
) -> bool {
    match pre.task_by_id(id) {
        None => post == pre && (r matches Err(e) && e@ == ErrorView::User(msg_task_not_found(id))),
        Some(current) => if project matches Some(p) && pre.resolve(p) is None {
            post == pre && (r matches Err(e) && e@ == ErrorView::User(
                msg_project_not_found(project->0),
            ))
        } else {
            let project_id = match project {
                Some(p) => Some(pre.resolve(p)->0.id),
                None => None,
            };
            match edited_duration(current, start, end, duration) {
                Err(m) => post == pre && (r matches Err(e) && e@ == ErrorView::User(m)),
                Ok(minutes) => match update_task_result(
                    pre,
                    id,
                    description,
                    project_id,
                    given_time(start),
                    given_time(end),
                    minutes,
                    now,
                ) {
                    Ok(store) => post == store && r is Ok,
                    Err(m) => post == pre && (r matches Err(e) && e@ == ErrorView::System(m)),
                },
            }
        },
    }
}

/// Editing at `now` the entry `id`, the start and the end given as text
/// and read as times on the day of `now`.
pub open spec fn edit_task_post(
    pre: StoreView,
    post: StoreView,
    r: Result<(), AppError>,
    id: int,
    description: Option<Seq<char>>,
    project: Option<Seq<char>>,
    start: Option<Seq<char>>,
    end: Option<Seq<char>>,
    duration: Option<Seq<char>>,
    now: int,
) -> bool {
    let start_time = match start {
        Some(s) => parse_time_spec(s, day_of(now)),
        None => Err(Seq::empty()),
    };
    let end_time = match end {
        Some(e) => parse_time_spec(e, day_of(now)),
        None => Err(Seq::empty()),
    };
    if !pre.has_task(id) {
        post == pre && (r matches Err(e) && e@ == ErrorView::User(msg_task_not_found(id)))
    } else if project matches Some(p) && pre.resolve(p) is None {
        post == pre && (r matches Err(e) && e@ == ErrorView::User(
            msg_project_not_found(project->0),
        ))
    } else if start is Some && start_time is Err {
        post == pre && (r matches Err(e) && e@ == ErrorView::User(start_time->Err_0))
    } else if end is Some && end_time is Err {
        post == pre && (r matches Err(e) && e@ == ErrorView::User(end_time->Err_0))
    } else {
        edit_task_with_post(
            pre,
            post,
            r,
            id,
            description,
            project,
            if start is Some {
                Some(start_time->Ok_0)
            } else {
                None
            },
            if end is Some {
                Some(end_time->Ok_0)
            } else {
                None
            },
            duration,
            now,
        )
    }
}

/// Deleting the entry `id`: refused with a user condition where no entry
/// has the id; otherwise the entry is removed and its description and
/// minutes are the result.
pub open spec fn delete_task_post(
    pre: StoreView,
    post: StoreView,
    r: Result<(String, i64), AppError>,
    id: int,
) -> bool {
    match pre.task_by_id(id) {
        None => post == pre && (r matches Err(e) && e@ == ErrorView::User(msg_task_not_found(id))),
        Some(task) => (r matches Ok((description, minutes)) && description@ == task.description
            && minutes == task.duration_min) && post == (StoreView {
            tasks: pre.tasks.remove(pre.task_index(id)),
            ..pre
        }),
    }
}

/// Adds at `now` an entry of the project `project_id`, from a start and an
/// end where they are given, else from the duration text.
pub fn add_task_to(
    db: &mut Database,
    project_id: i64,
    description: &str,
    times: Option<(Timestamp, Timestamp)>,
    duration: Option<&str>,
    now: Timestamp,
) -> (r: Result<TaskEntry, AppError>)
    requires
        old(db).wf(),
    ensures
        final(db).wf(),
        add_task_to_post(
            old(db)@,
            final(db)@,
            r,
            project_id as int,
            description@,
            span_view(times),
            text_of(duration),
            now@,
        ),
{
    let (start_time, end_time, duration_min): (Option<Timestamp>, Option<Timestamp>, i64) =
        match times {
        Some((s, e)) => {
            if e.secs() <= s.secs() {
                return Err(AppError::user("End time must be after start time."));
            }
            (Some(s), Some(e), e.minutes_since(&s))
        },
        None => match duration {
            Some(d) => match parse_duration(d) {
                Ok(m) => (None, None, m),
                Err(e) => {
                    return Err(e);
                },
            },
            None => {
                return Err(AppError::user("Provide either --start/--end or --duration."));
            },
        },
    };
    db.insert_task_entry(project_id, description, start_time, end_time, duration_min, now)
}

/// Adds at `now` an entry of the project that `project_name` names.
pub fn add_task_at(
    db: &mut Database,
    project_name: &str,
    description: &str,
    start: Option<&str>,
    end: Option<&str>,
    duration: Option<&str>,
    _date: Option<&str>,
    now: Timestamp,
) -> (r: Result<TaskEntry, AppError>)
    requires
        old(db).wf(),
    ensures
        final(db).wf(),
        add_task_post(
            old(db)@,
            final(db)@,
            r,
            project_name@,
            description@,
            text_of(start),
            text_of(end),
            text_of(duration),
            now@,
        ),
{
    let project = match resolve_project(db, project_name) {
        Ok(p) => p,
        Err(e) => {
            return Err(e);
        },
    };
    let today = now.date();
    let times: Option<(Timestamp, Timestamp)> = match (start, end) {
        (Some(start), Some(end)) => {
            let s = match parse_time(start, today) {
                Ok(s) => s,
                Err(e) => {
                    return Err(e);
                },
            };
            let e = match parse_time(end, today) {
                Ok(e) => e,
                Err(e) => {
                    return Err(e);
                },
            };
            Some((s, e))
        },
        _ => None,
    };
    add_task_to(db, project.id, description, times, duration, now)
}

/// Adds an entry at the time that `clock` gives.
pub fn add_task<C: Clock>(
    db: &mut Database,
    project_name: &str,
    description: &str,
    start: Option<&str>,
    end: Option<&str>,
    duration: Option<&str>,
    _date: Option<&str>,
    clock: &C,
) -> (r: Result<TaskEntry, AppError>)
    requires
        old(db).wf(),
    ensures
        final(db).wf(),
        exists|now: int|
            secs_in_range(now) && #[trigger] add_task_post(
                old(db)@,
                final(db)@,
                r,
                project_name@,
                description@,
                text_of(start),
                text_of(end),
                text_of(duration),
                now,
            ),
{
    let now = clock.now();
    proof {
        use_type_invariant(&now);
        now.lemma_in_range();
    }
    add_task_at(db, project_name, description, start, end, duration, _date, now)
}

/// Edits at `now` the entry `id`, with a start and an end that are already
/// times.
pub fn edit_task_with(
    db: &mut Database,
    id: i64,
    description: Option<&str>,
    project_name: Option<&str>,
    start: Option<Timestamp>,
    end: Option<Timestamp>,
    duration: Option<&str>,
    now: Timestamp,
) -> (r: Result<(), AppError>)
    requires
        old(db).wf(),
    ensures
        final(db).wf(),
        edit_task_with_post(
            old(db)@,
            final(db)@,
            r,
            id as int,
            text_of(description),
            text_of(project_name),
            time_view(start),
            time_view(end),
            text_of(duration),
            now@,
        ),
{
    let existing = match db.find_task_entry_by_id(id) {
        Some(t) => t,
        None => {
            return Err(user_about_id("Task with ID ", id, " not found."));
        },
    };
    let project_id: Option<i64> = match project_name {
        Some(name) => match resolve_project(db, name) {
            Ok(p) => Some(p.id),
            Err(e) => {
                return Err(e);
            },
        },
        None => None,
    };
    let duration_min: Option<i64> = match duration {
        Some(d) => match parse_duration(d) {
            Ok(m) => Some(m),
            Err(e) => {
                return Err(e);
            },
        },
        None => if start.is_some() || end.is_some() {
            let s = if start.is_some() {
                start
            } else {
                existing.start_time
            };
            let e = if end.is_some() {
                end
            } else {
                existing.end_time
            };
            match (s, e) {
                (Some(s), Some(e)) => {
                    if e.secs() <= s.secs() {
                        return Err(AppError::user("End time must be after start time."));
                    }
                    Some(e.minutes_since(&s))
                },
                _ => None,
            }
        } else {
            None
        },
    };
    let start_time: Option<Option<Timestamp>> = match start {
        Some(s) => Some(Some(s)),
        None => None,
    };
    let end_time: Option<Option<Timestamp>> = match end {
        Some(e) => Some(Some(e)),
        None => None,
    };
    match db.update_task_entry(id, description, project_id, start_time, end_time, duration_min, now) {
        Ok(_) => Ok(()),
        Err(e) => Err(e),
    }
}

/// Edits at `now` the entry `id`.
pub fn edit_task_at(
    db: &mut Database,
    id: i64,
    description: Option<&str>,
    project_name: Option<&str>,
    start: Option<&str>,
    end: Option<&str>,
    duration: Option<&str>,
    now: Timestamp,
) -> (r: Result<(), AppError>)
    requires
        old(db).wf(),
    ensures
        final(db).wf(),
        edit_task_post(
            old(db)@,
            final(db)@,
            r,
            id as int,
            text_of(description),
            text_of(project_name),
            text_of(start),
            text_of(end),
            text_of(duration),
            now@,
        ),
{
    if db.find_task_entry_by_id(id).is_none() {
        return Err(user_about_id("Task with ID ", id, " not found."));
    }
    if let Some(name) = project_name {
        if let Err(e) = resolve_project(db, name) {
            return Err(e);
        }
    }
    let today = now.date();
    let start_time: Option<Timestamp> = match start {
        Some(s) => match parse_time(s, today) {
            Ok(t) => Some(t),
            Err(e) => {
                return Err(e);
            },
        },
        None => None,
    };
    let end_time: Option<Timestamp> = match end {
        Some(s) => match parse_time(s, today) {
            Ok(t) => Some(t),
            Err(e) => {
                return Err(e);
            },
        },
        None => None,
    };
    edit_task_with(db, id, description, project_name, start_time, end_time, duration, now)
}

/// Edits an entry at the time that `clock` gives.
pub fn edit_task<C: Clock>(
    db: &mut Database,
    id: i64,
    description: Option<&str>,
    project_name: Option<&str>,
    start: Option<&str>,
    end: Option<&str>,
    duration: Option<&str>,
    clock: &C,
) -> (r: Result<(), AppError>)
    requires
        old(db).wf(),
    ensures
        final(db).wf(),
        exists|now: int|
            secs_in_range(now) && #[trigger] edit_task_post(
                old(db)@,
                final(db)@,
                r,
                id as int,
                text_of(description),
                text_of(project_name),
                text_of(start),
                text_of(end),
                text_of(duration),
                now,
            ),
{
    let now = clock.now();
    proof {
        use_type_invariant(&now);
        now.lemma_in_range();
    }
    edit_task_at(db, id, description, project_name, start, end, duration, now)
}

/// Deletes the entry `id` and gives its description and minutes.
pub fn delete_task(db: &mut Database, id: i64) -> (r: Result<(String, i64), AppError>)
    requires
        old(db).wf(),
    ensures
        final(db).wf(),
        delete_task_post(old(db)@, final(db)@, r, id as int),
{
    let task = match db.find_task_entry_by_id(id) {
        Some(t) => t,
        None => {
            return Err(user_about_id("Task with ID ", id, " not found."));
        },
    };
    db.delete_task_entry(id);
    Ok((task.description, task.duration_min))
}

/// A refused addition, a refused edit and a refused deletion leave the
/// store as it was.
pub proof fn refused_task_change_keeps_store(
    pre: StoreView,
    post: StoreView,
    added: Result<TaskEntry, AppError>,
    edited: Result<(), AppError>,
    deleted: Result<(String, i64), AppError>,
    id: int,
    project: Seq<char>,
    optional_project: Option<Seq<char>>,
    description: Seq<char>,
    optional_description: Option<Seq<char>>,
    start: Option<Seq<char>>,
    end: Option<Seq<char>>,
    duration: Option<Seq<char>>,
    now: int,
)
    ensures
        add_task_post(pre, post, added, project, description, start, end, duration, now) && added
            is Err ==> post == pre,
        edit_task_post(
            pre,
            post,
            edited,
            id,
            optional_description,
            optional_project,
            start,
            end,
            duration,
            now,
        ) && edited is Err ==> post == pre,
        delete_task_post(pre, post, deleted, id) && deleted is Err ==> post == pre,
{
}

/// An entry added with a start and an end a minute or more apart, to an
/// existing project in a store with an id left, is read back under its
/// id with exactly the whole minutes between the two.
pub proof fn added_entry_reads_back(
    pre: StoreView,
    post: StoreView,
    r: Result<TaskEntry, AppError>,
    project_id: int,
    description: Seq<char>,
    start: int,
    end: int,
    duration: Option<Seq<char>>,
    now: int,
)
    requires
        pre.wf(),
        pre.has_project(project_id),
        pre.next_task_id < i64::MAX,
        end - start >= 60,
        add_task_to_post(pre, post, r, project_id, description, Some((start, end)), duration, now),
    ensures
        r is Ok,
        post.wf(),
        post.task_by_id(r->Ok_0@.id) == Some(r->Ok_0@),
        r->Ok_0@.duration_min == (end - start) / 60,
        r->Ok_0@.start_time == Some(start),
        r->Ok_0@.end_time == Some(end),
        r->Ok_0@.project_id == project_id,
        r->Ok_0@.description == description,
{
    lemma_insert_task_kept(
        pre,
        project_id,
        description,
        Some(start),
        Some(end),
        minutes_between(start, end),
        now,
    );
}

/// Moving the end of an entry that has a start, to a second a minute or
/// more after the start, succeeds, and the entry then lasts exactly the
/// whole minutes from its start to the new end.
pub proof fn moved_end_recomputes_duration(
    pre: StoreView,
    post: StoreView,
    r: Result<(), AppError>,
    id: int,
    new_end: int,
    now: int,
)
    requires
        pre.wf(),
        pre.task_by_id(id) matches Some(t) && t.start_time matches Some(s) && new_end - s >= 60,
        edit_task_with_post(pre, post, r, id, None, None, None, Some(new_end), None, now),
    ensures
        r is Ok,
        post.wf(),
        post.task_by_id(id) matches Some(t) && t.end_time == Some(new_end) && t.start_time
            == pre.task_by_id(id)->0.start_time && t.duration_min == (new_end - pre.task_by_id(
            id,
        )->0.start_time->0) / 60,
{
    let current = pre.task_by_id(id)->0;
    let start = current.start_time->0;
    let index = pre.task_index(id);
    pre.lemma_task_by_id(index);
    assert(pre.has_project(pre.tasks[index].project_id));
    lemma_update_task_kept(
        pre,
        id,
        None,
        None,
        None,
        Some(Some(new_end)),
        Some(minutes_between(start, new_end)),
        now,
    );
}

/// The same round trip through the texts of a command: an entry added to
/// a project that resolves, with a start and an end that read as times a
/// minute or more apart, is read back under its id with exactly the whole
/// minutes between the two.
pub proof fn added_by_text_reads_back(
    pre: StoreView,
    post: StoreView,
    r: Result<TaskEntry, AppError>,
    project: Seq<char>,
    description: Seq<char>,
    start: Seq<char>,
    end: Seq<char>,
    duration: Option<Seq<char>>,
    now: int,
)
    requires
        pre.wf(),
        pre.resolve(project) is Some,
        pre.next_task_id < i64::MAX,
        parse_time_spec(start, day_of(now)) is Ok,
        parse_time_spec(end, day_of(now)) is Ok,
        parse_time_spec(end, day_of(now))->Ok_0 - parse_time_spec(start, day_of(now))->Ok_0 >= 60,
        add_task_post(pre, post, r, project, description, Some(start), Some(end), duration, now),
    ensures
        r is Ok,
        post.wf(),
        post.task_by_id(r->Ok_0@.id) == Some(r->Ok_0@),
        r->Ok_0@.duration_min == (parse_time_spec(end, day_of(now))->Ok_0 - parse_time_spec(
            start,
            day_of(now),
        )->Ok_0) / 60,
        r->Ok_0@.project_id == pre.resolve(project)->0.id,
{
    super::lemma_resolved_exists(pre, project);
    added_entry_reads_back(
        pre,
        post,
        r,
        pre.resolve(project)->0.id,
        description,
        parse_time_spec(start, day_of(now))->Ok_0,
        parse_time_spec(end, day_of(now))->Ok_0,
        duration,
        now,
    );
}

/// The same recomputation through the texts of a command: giving an entry
/// that has a start a new end, which reads as a time a minute or more
/// after the start, succeeds, and the entry then lasts exactly the whole
/// minutes from its start to the new end.
pub proof fn moved_end_by_text_recomputes_duration(
    pre: StoreView,
    post: StoreView,
    r: Result<(), AppError>,
    id: int,
    new_end: Seq<char>,
    now: int,
)
    requires
        pre.wf(),
        parse_time_spec(new_end, day_of(now)) is Ok,
        pre.task_by_id(id) matches Some(t) && t.start_time matches Some(s) && parse_time_spec(
            new_end,
            day_of(now),
        )->Ok_0 - s >= 60,
        edit_task_post(pre, post, r, id, None, None, None, Some(new_end), None, now),
    ensures
        r is Ok,
        post.wf(),
        post.task_by_id(id) matches Some(t) && t.end_time == Some(
            parse_time_spec(new_end, day_of(now))->Ok_0,
        ) && t.duration_min == (parse_time_spec(new_end, day_of(now))->Ok_0 - pre.task_by_id(
            id,
        )->0.start_time->0) / 60,
{
    moved_end_recomputes_duration(
        pre,
        post,
        r,
        id,
        parse_time_spec(new_end, day_of(now))->Ok_0,
        now,
    );
}

} // verus!
