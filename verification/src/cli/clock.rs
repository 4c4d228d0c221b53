//! The clock commands: start, stop and status.

use super::ClockAction;
use crate::clock_trait::Clock;
use crate::db::{Database, StoreView};
use crate::error::AppError;
use crate::formatting::duration::duration_text;
use crate::formatting::format_duration;
use crate::services::clock::{
    clock_status_at, clock_status_post, start_clock_at, start_clock_post, stop_clock_at,
    stop_clock_post, ClockStatusInfo, StopResult,
};
use crate::time::{secs_in_range, Timestamp};
use vstd::prelude::*;

verus! {

pub open spec fn started_text(description: Seq<char>, project: Seq<char>, time: Seq<char>) -> Seq<
    char,
> {
    "Clock started for '"@ + description + "' on project '"@ + project + "' at "@ + time + ".\n"@
}

pub open spec fn stopped_text(minutes: int, description: Seq<char>, project: Seq<char>) -> Seq<
    char,
> {
    "Clock stopped. Logged "@ + duration_text(minutes) + " for '"@ + description
        + "' on project '"@ + project + "'.\n"@
}

pub open spec fn running_text(
    description: Seq<char>,
    project: Seq<char>,
    start: Seq<char>,
    elapsed: int,
) -> Seq<char> {
    "Clock running: '"@ + description + "' on project '"@ + project + "' since "@ + start + " ("@
        + duration_text(elapsed) + " elapsed).\n"@
}

pub open spec fn idle_text() -> Seq<char> {
    "No clock is running.\n"@
}

/// The line that tells of a started clock.
pub fn started_line(description: &str, project: &str, time: &str) -> (r: String)
    ensures
        r@ == started_text(description@, project@, time@),
{
    let mut line = String::new();
    line.append("Clock started for '");
    line.append(description);
    line.append("' on project '");
    line.append(project);
    line.append("' at ");
    line.append(time);
    line.append(".\n");
    assert(line@ =~= started_text(description@, project@, time@));
    line
}

/// The line that tells of a stopped clock.
pub fn stopped_line(result: &StopResult) -> (r: String)
    ensures
        r@ == stopped_text(
            result.duration_min as int,
            result.description@,
            result.project_name@,
        ),
{
    let mut line = String::new();
    line.append("Clock stopped. Logged ");
    let d = format_duration(result.duration_min);
    line.append(d.as_str());
    line.append(" for '");
    line.append(result.description.as_str());
    line.append("' on project '");
    line.append(result.project_name.as_str());
    line.append("'.\n");
    assert(line@ =~= stopped_text(
        result.duration_min as int,
        result.description@,
        result.project_name@,
    ));
    line
}

/// The line that tells of a running clock.
pub fn running_line(info: &ClockStatusInfo) -> (r: String)
    ensures
        r@ == running_text(
            info.description@,
            info.project_name@,
            info.start_time@,
            info.elapsed_min as int,
        ),
{
    let mut line = String::new();
    line.append("Clock running: '");
    line.append(info.description.as_str());
    line.append("' on project '");
    line.append(info.project_name.as_str());
    line.append("' since ");
    line.append(info.start_time.as_str());
    line.append(" (");
    let d = format_duration(info.elapsed_min);
    line.append(d.as_str());
    line.append(" elapsed).\n");
    assert(line@ =~= running_text(
        info.description@,
        info.project_name@,
        info.start_time@,
        info.elapsed_min as int,
    ));
    line
}

/// A clock command performed at `now`: the store changes as the operation
/// of the action changes it, a refusal is handed on as it is, and a
/// success is told in one line.
pub open spec fn handle_clock_post(
    pre: StoreView,
    post: StoreView,
    r: Result<String, AppError>,
    action: ClockAction,
    now: int,
) -> bool {
    match action {
        ClockAction::Start { project, description } => exists|
            inner: Result<(String, String), AppError>,
        |
            #![trigger start_clock_post(pre, post, inner, project@, description@, now)]
            start_clock_post(pre, post, inner, project@, description@, now) && match inner {
                Ok((name, time)) => r matches Ok(text) && text@ == started_text(
                    description@,
                    name@,
                    time@,
                ),
                Err(e) => r matches Err(f) && f@ == e@,
            },
        ClockAction::Stop => exists|inner: Result<StopResult, AppError>|
            #![trigger stop_clock_post(pre, post, inner, now)]
            stop_clock_post(pre, post, inner, now) && match inner {
                Ok(s) => r matches Ok(text) && text@ == stopped_text(
                    s.duration_min as int,
                    s.description@,
                    s.project_name@,
                ),
                Err(e) => r matches Err(f) && f@ == e@,
            },
        ClockAction::Status => post == pre && exists|
            inner: Result<Option<ClockStatusInfo>, AppError>,
        |
            #![trigger clock_status_post(pre, inner, now)]
            clock_status_post(pre, inner, now) && match inner {
                Ok(Some(info)) => r matches Ok(text) && text@ == running_text(
                    info.description@,
                    info.project_name@,
                    info.start_time@,
                    info.elapsed_min as int,
                ),
                Ok(None) => r matches Ok(text) && text@ == idle_text(),
                Err(e) => r matches Err(f) && f@ == e@,
            },
    }
}

/// Performs a clock command at `now`.
pub fn handle_clock_at(db: &mut Database, now: Timestamp, action: ClockAction) -> (r: Result<
    String,
    AppError,
>)
    requires
        old(db).wf(),
    ensures
        final(db).wf(),
        handle_clock_post(old(db)@, final(db)@, r, action, now@),
{
    match action {
        ClockAction::Start { project, description } => {
            let inner = start_clock_at(db, project.as_str(), description.as_str(), now);
            match inner {
                Ok((project_name, time)) => Ok(
                    started_line(description.as_str(), project_name.as_str(), time.as_str()),
                ),
                Err(e) => Err(e),
            }
        },
        ClockAction::Stop => {
            let inner = stop_clock_at(db, now);
            match inner {
                Ok(result) => Ok(stopped_line(&result)),
                Err(e) => Err(e),
            }
        },
        ClockAction::Status => {
            let inner = clock_status_at(db, now);
            match inner {
                Ok(Some(info)) => Ok(running_line(&info)),
                Ok(None) => Ok("No clock is running.\n".to_owned()),
                Err(e) => Err(e),
            }
        },
    }
}

/// Performs a clock command at the time that `clk` gives.
pub fn handle_clock<C: Clock>(db: &mut Database, clk: &C, action: ClockAction) -> (r: Result<
    String,
    AppError,
>)
    requires
        old(db).wf(),
    ensures
        final(db).wf(),
        exists|now: int|
            secs_in_range(now) && #[trigger] handle_clock_post(
                old(db)@,
                final(db)@,
                r,
                action,
                now,
            ),
{
    let now = clk.now();
    proof {
        use_type_invariant(&now);
        now.lemma_in_range();
    }
    handle_clock_at(db, now, action)
}

} // verus!
