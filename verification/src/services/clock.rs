//! The clock: at most one running timer, started on a project and turned
//! into a task entry when it stops.

use super::{lemma_resolved_exists, msg_project_not_found, project_label, resolve_project};
use crate::clock_trait::Clock;
use crate::db::{Database, StoreView};
use crate::error::{AppError, ErrorView};
use crate::models::{ClockView, TaskView};
use crate::time::{datetime_text, minutes_between, secs_in_range, Timestamp};
use vstd::prelude::*;

verus! {

/// What a stopped clock logged.
#[derive(Debug)]
pub struct StopResult {
    pub project_name: String,
    pub description: String,
    pub duration_min: i64,
}

/// What a running clock shows.
#[derive(Debug)]
pub struct ClockStatusInfo {
    pub project_name: String,
    pub description: String,
    pub start_time: String,
    pub elapsed_min: i64,
}

pub open spec fn msg_already_running() -> Seq<char> {
    "Clock already running. Use 'vibe-clock clock stop' first, or 'vibe-clock clock status' to check."@
}

pub open spec fn msg_no_clock() -> Seq<char> {
    "No clock is running."@
}

/// The minutes that a clock started at `start` logs when stopped at `now`:
/// the whole minutes between the two, and one minute at least.
pub open spec fn logged_minutes(start: int, now: int) -> int {
    if minutes_between(start, now) >= 1 {
        minutes_between(start, now)
    } else {
        1
    }
}

/// Starting the clock at `now` on the project that `project` names.
///
/// While a clock runs the start is refused and the store stays as it is;
/// so it is where no project answers to `project`. Otherwise the store
/// gains the clock, and the result is the project's name and the time of
/// day of `now`.
pub open spec fn start_clock_post(
    pre: StoreView,
    post: StoreView,
    r: Result<(String, String), AppError>,
    project: Seq<char>,
    description: Seq<char>,
    now: int,
) -> bool {
    if pre.clock is Some {
        post == pre && (r matches Err(e) && e@ == ErrorView::User(msg_already_running()))
    } else {
        match pre.resolve(project) {
            None => post == pre && (r matches Err(e) && e@ == ErrorView::User(
                msg_project_not_found(project),
            )),
            Some(p) => (r matches Ok((name, time)) && name@ == p.name && Some(time@)
                == datetime_text(now as i64, "%H:%M"@)) && post == (StoreView {
                clock: Some(
                    ClockView { id: 1, project_id: p.id, description, start_time: now },
                ),
                ..pre
            }),
        }
    }
}

/// Stopping the clock at `now`.
///
/// With no clock running the stop is refused; so it is, with a system
/// condition, where no id is left for the entry. In both cases the store
/// stays as it is. Otherwise the clock is gone and the store has gained one
/// task entry, which carries the clock's project, description and start,
/// ends at `now` and lasts the logged minutes.
pub open spec fn stop_clock_post(
    pre: StoreView,
    post: StoreView,
    r: Result<StopResult, AppError>,
    now: int,
) -> bool {
    match pre.clock {
        None => post == pre && (r matches Err(e) && e@ == ErrorView::User(msg_no_clock())),
        Some(c) => if pre.next_task_id >= i64::MAX {
            post == pre && (r matches Err(e) && e@ == ErrorView::System(
                crate::db::msg_full(),
            ))
        } else {
            (r matches Ok(s) && s.project_name@ == pre.project_label(c.project_id) && s.description@
                == c.description && s.duration_min == logged_minutes(c.start_time, now)) && post
                == (StoreView {
                clock: None,
                tasks: pre.tasks.push(
                    TaskView {
                        id: pre.next_task_id,
                        project_id: c.project_id,
                        description: c.description,
                        start_time: Some(c.start_time),
                        end_time: Some(now),
                        duration_min: logged_minutes(c.start_time, now),
                        created_at: now,
                        updated_at: now,
                    },
                ),
                next_task_id: pre.next_task_id + 1,
                ..pre
            })
        },
    }
}

/// Asking at `now` what the clock shows: nothing while idle; while running,
/// the project's name, the description, the time of day of the start and
/// the whole minutes since.
pub open spec fn clock_status_post(
    store: StoreView,
    r: Result<Option<ClockStatusInfo>, AppError>,
    now: int,
) -> bool {
    match store.clock {
        None => r matches Ok(None),
        Some(c) => r matches Ok(Some(info)) && info.project_name@ == store.project_label(
            c.project_id,
        ) && info.description@ == c.description && Some(info.start_time@) == datetime_text(
            c.start_time as i64,
            "%H:%M"@,
        ) && info.elapsed_min == minutes_between(c.start_time, now),
    }
}

/// Starts the clock at `now`.
pub fn start_clock_at(db: &mut Database, project_name: &str, description: &str, now: Timestamp) -> (r:
    Result<(String, String), AppError>)
    requires
        old(db).wf(),
    ensures
        final(db).wf(),
        start_clock_post(old(db)@, final(db)@, r, project_name@, description@, now@),
{
    if db.get_clock_state().is_some() {
        return Err(
            AppError::user(
                "Clock already running. Use 'vibe-clock clock stop' first, or 'vibe-clock clock status' to check.",
            ),
        );
    }
    let project = match resolve_project(db, project_name) {
        Ok(p) => p,
        Err(e) => {
            return Err(e);
        },
    };
    proof {
        lemma_resolved_exists(db@, project_name@);
    }
    match db.insert_clock_state(project.id, description, now) {
        Ok(()) => Ok((project.name, now.format_hm())),
        Err(e) => Err(e),
    }
}

/// Starts the clock at the time that `clock` gives.
pub fn start_clock<C: Clock>(
    db: &mut Database,
    project_name: &str,
    description: &str,
    clock: &C,
) -> (r: Result<(String, String), AppError>)
    requires
        old(db).wf(),
    ensures
        final(db).wf(),
        exists|now: int|
            secs_in_range(now) && #[trigger] start_clock_post(
                old(db)@,
                final(db)@,
                r,
                project_name@,
                description@,
                now,
            ),
{
    let now = clock.now();
    proof {
        use_type_invariant(&now);
        now.lemma_in_range();
    }
    start_clock_at(db, project_name, description, now)
}

/// Stops the clock at `now` and logs its task entry.
pub fn stop_clock_at(db: &mut Database, now: Timestamp) -> (r: Result<StopResult, AppError>)
    requires
        old(db).wf(),
    ensures
        final(db).wf(),
        stop_clock_post(old(db)@, final(db)@, r, now@),
{
    let state = match db.get_clock_state() {
        Some(s) => s,
        None => {
            return Err(AppError::user("No clock is running."));
        },
    };
    let minutes: i64 = now.minutes_since(&state.start_time);
    let duration_min: i64 = if minutes >= 1 {
        minutes
    } else {
        1
    };
    let project_name = project_label(db, state.project_id);
    match db.insert_task_entry(
        state.project_id,
        state.description.as_str(),
        Some(state.start_time),
        Some(now),
        duration_min,
        now,
    ) {
        Ok(_) => {},
        Err(e) => {
            return Err(e);
        },
    }
    db.delete_clock_state();
    Ok(StopResult { project_name, description: state.description, duration_min })
}

/// Stops the clock at the time that `clock` gives.
pub fn stop_clock<C: Clock>(db: &mut Database, clock: &C) -> (r: Result<StopResult, AppError>)
    requires
        old(db).wf(),
    ensures
        final(db).wf(),
        exists|now: int|
            secs_in_range(now) && #[trigger] stop_clock_post(old(db)@, final(db)@, r, now),
{
    let now = clock.now();
    proof {
        use_type_invariant(&now);
        now.lemma_in_range();
    }
    stop_clock_at(db, now)
}

/// What the clock shows at `now`.
pub fn clock_status_at(db: &Database, now: Timestamp) -> (r: Result<
    Option<ClockStatusInfo>,
    AppError,
>)
    requires
        db.wf(),
    ensures
        clock_status_post(db@, r, now@),
{
    match db.get_clock_state() {
        Some(state) => {
            let elapsed_min: i64 = now.minutes_since(&state.start_time);
            let project_name = project_label(db, state.project_id);
            Ok(
                Some(
                    ClockStatusInfo {
                        project_name,
                        description: state.description,
                        start_time: state.start_time.format_hm(),
                        elapsed_min,
                    },
                ),
            )
        },
        None => Ok(None),
    }
}

/// What the clock shows at the time that `clock` gives.
pub fn clock_status<C: Clock>(db: &Database, clock: &C) -> (r: Result<
    Option<ClockStatusInfo>,
    AppError,
>)
    requires
        db.wf(),
    ensures
        exists|now: int|
            secs_in_range(now) && #[trigger] clock_status_post(db@, r, now),
{
    let now = clock.now();
    proof {
        use_type_invariant(&now);
        now.lemma_in_range();
    }
    clock_status_at(db, now)
}

/// What a clock left running by an earlier run shows: the same question as
/// [`clock_status`], asked once when the program starts.
pub fn recover_clock<C: Clock>(db: &Database, clock: &C) -> (r: Result<
    Option<ClockStatusInfo>,
    AppError,
>)
    requires
        db.wf(),
    ensures
        exists|now: int|
            secs_in_range(now) && #[trigger] clock_status_post(db@, r, now),
{
    clock_status(db, clock)
}

/// While a clock runs, a start is refused with a user condition and the
/// store, the running clock included, stays as it is.
pub proof fn start_while_running_is_refused(
    pre: StoreView,
    post: StoreView,
    r: Result<(String, String), AppError>,
    project: Seq<char>,
    description: Seq<char>,
    now: int,
)
    requires
        pre.clock is Some,
        start_clock_post(pre, post, r, project, description, now),
    ensures
        post == pre,
        r matches Err(e) && e@ is User,
{
}

/// With no clock running, a stop is refused with a user condition and the
/// store stays as it is.
pub proof fn stop_while_idle_is_refused(
    pre: StoreView,
    post: StoreView,
    r: Result<StopResult, AppError>,
    now: int,
)
    requires
        pre.clock is None,
        stop_clock_post(pre, post, r, now),
    ensures
        post == pre,
        r matches Err(e) && e@ is User,
{
}

/// A refused start and a refused stop leave the store as it was.
pub proof fn refused_clock_change_keeps_store(
    pre: StoreView,
    post: StoreView,
    started: Result<(String, String), AppError>,
    stopped: Result<StopResult, AppError>,
    project: Seq<char>,
    description: Seq<char>,
    now: int,
)
    ensures
        start_clock_post(pre, post, started, project, description, now) && started is Err ==> post
            == pre,
        stop_clock_post(pre, post, stopped, now) && stopped is Err ==> post == pre,
{
}

/// A stop of a running clock, in a store with an id left, succeeds. After
/// it no clock runs, the projects are as before, and the task entries are
/// those from before followed by exactly one new entry. That entry lasts
/// the whole minutes from the clock's start to `now`, rounded down, and one
/// minute at least; it carries the clock's project, description and start,
/// and ends at `now`.
pub proof fn stop_logs_one_entry(
    pre: StoreView,
    post: StoreView,
    r: Result<StopResult, AppError>,
    now: int,
)
    requires
        pre.wf(),
        pre.clock is Some,
        pre.next_task_id < i64::MAX,
        stop_clock_post(pre, post, r, now),
    ensures
        r is Ok,
        post.wf(),
        post.clock is None,
        post.projects == pre.projects,
        post.tasks.len() == pre.tasks.len() + 1,
        post.tasks.drop_last() == pre.tasks,
        !pre.has_task(post.tasks.last().id),
        post.tasks.last().duration_min == (if (now - pre.clock->0.start_time) / 60 >= 1 {
            (now - pre.clock->0.start_time) / 60
        } else {
            1
        }),
        post.tasks.last().project_id == pre.clock->0.project_id,
        post.tasks.last().description == pre.clock->0.description,
        post.tasks.last().start_time == Some(pre.clock->0.start_time),
        post.tasks.last().end_time == Some(now),
        r->Ok_0.duration_min == post.tasks.last().duration_min,
{
    let c = pre.clock->0;
    let minutes = logged_minutes(c.start_time, now);
    assert(post.tasks.drop_last() =~= pre.tasks);
    crate::db::lemma_insert_task_kept(
        pre,
        c.project_id,
        c.description,
        Some(c.start_time),
        Some(now),
        minutes,
        now,
    );
    let with_entry = StoreView {
        tasks: post.tasks,
        next_task_id: post.next_task_id,
        ..pre
    };
    assert(with_entry.wf());
    assert(post == StoreView { clock: None, ..with_entry });
    assert forall|i: int| 0 <= i < post.tasks.len() implies post.has_project(
        (#[trigger] post.tasks[i]).project_id,
    ) by {
        let pid = post.tasks[i].project_id;
        assert(with_entry.has_project(with_entry.tasks[i].project_id));
        let k = with_entry.project_index(pid);
        assert(post.projects[k].id == pid);
    }
    if pre.has_task(post.tasks.last().id) {
        let k = pre.task_index(post.tasks.last().id);
        assert(pre.tasks[k].id < pre.next_task_id);
    }
}

/// Asking twice what the clock shows, with no change to the store between
/// and the second time no earlier than the first, gives the same answer
/// both times but for the elapsed minutes, which do not decrease.
pub proof fn status_is_repeatable(
    store: StoreView,
    first: Result<Option<ClockStatusInfo>, AppError>,
    first_now: int,
    second: Result<Option<ClockStatusInfo>, AppError>,
    second_now: int,
)
    requires
        first_now <= second_now,
        clock_status_post(store, first, first_now),
        clock_status_post(store, second, second_now),
    ensures
        first is Ok,
        second is Ok,
        first->Ok_0 is Some <==> store.clock is Some,
        second->Ok_0 is Some <==> store.clock is Some,
        store.clock is Some ==> ({
            let a = first->Ok_0->0;
            let b = second->Ok_0->0;
            &&& a.project_name@ == b.project_name@
            &&& a.description@ == b.description@
            &&& a.start_time@ == b.start_time@
            &&& a.elapsed_min <= b.elapsed_min
        }),
{
}

} // verus!
