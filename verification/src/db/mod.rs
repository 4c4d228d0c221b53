//! The store: projects, task entries and the clock, with the constraints
//! that hold between them.
//!
//! The store lives in memory. Every write either applies in full or leaves
//! the store as it was; a write that would break a constraint is refused
//! with a system condition.

mod clock_state;
mod project;
mod task_entry;

pub use clock_state::{msg_clock_exists, msg_foreign_key};
pub use project::{is_project_listing, msg_full, msg_name_taken};
pub use task_entry::{
    ascending, id_of, insert_by_time, insert_task_result, lemma_insert_by_time,
    lemma_insert_by_time_ascending, lemma_insert_by_time_entries, lemma_insert_task_kept,
    lemma_on_days_contains, lemma_ordered_by_time_ascending, lemma_ordered_by_time_entries,
    lemma_update_task_kept, merged_task, msg_duration_check, on_days, ordered_by_time, text_of,
    time_change, update_task_result,
};

use crate::error::AppError;
use crate::time::{datetime_parsed, parse_datetime_secs, secs_in_range, Timestamp};
use crate::models::{ClockState, ClockView, Project, ProjectView, TaskEntry, TaskView};
use vstd::prelude::*;

verus! {

/// The store as plain mathematical values.
pub ghost struct StoreView {
    /// The projects, in the order of their creation.
    pub projects: Seq<ProjectView>,
    /// The task entries, in the order of their creation.
    pub tasks: Seq<TaskView>,
    /// The running timer, if there is one.
    pub clock: Option<ClockView>,
    /// The id that the next new project gets.
    pub next_project_id: int,
    /// The id that the next new task entry gets.
    pub next_task_id: int,
}

impl StoreView {
    pub open spec fn empty() -> StoreView {
        StoreView {
            projects: Seq::empty(),
            tasks: Seq::empty(),
            clock: None,
            next_project_id: 1,
            next_task_id: 1,
        }
    }

    pub open spec fn has_project(self, id: int) -> bool {
        exists|i: int| 0 <= i < self.projects.len() && (#[trigger] self.projects[i]).id == id
    }

    /// The project with the id `id`.
    pub open spec fn project_by_id(self, id: int) -> Option<ProjectView> {
        if self.has_project(id) {
            Some(
                self.projects[choose|i: int|
                    0 <= i < self.projects.len() && (#[trigger] self.projects[i]).id == id],
            )
        } else {
            None
        }
    }

    pub open spec fn has_name(self, name: Seq<char>) -> bool {
        exists|i: int| 0 <= i < self.projects.len() && (#[trigger] self.projects[i]).name == name
    }

    /// The project named exactly `name`.
    pub open spec fn project_by_name(self, name: Seq<char>) -> Option<ProjectView> {
        if self.has_name(name) {
            Some(
                self.projects[choose|i: int|
                    0 <= i < self.projects.len() && (#[trigger] self.projects[i]).name == name],
            )
        } else {
            None
        }
    }

    pub open spec fn has_task(self, id: int) -> bool {
        exists|i: int| 0 <= i < self.tasks.len() && (#[trigger] self.tasks[i]).id == id
    }

    /// The task entry with the id `id`.
    pub open spec fn task_by_id(self, id: int) -> Option<TaskView> {
        if self.has_task(id) {
            Some(
                self.tasks[choose|i: int|
                    0 <= i < self.tasks.len() && (#[trigger] self.tasks[i]).id == id],
            )
        } else {
            None
        }
    }

    /// The position of the project with the id `id`.
    pub open spec fn project_index(self, id: int) -> int {
        choose|i: int| 0 <= i < self.projects.len() && (#[trigger] self.projects[i]).id == id
    }

    /// The position of the task entry with the id `id`.
    pub open spec fn task_index(self, id: int) -> int {
        choose|i: int| 0 <= i < self.tasks.len() && (#[trigger] self.tasks[i]).id == id
    }

    /// Whether a project other than `id` is named `name`.
    pub open spec fn name_taken_by_other(self, name: Seq<char>, id: int) -> bool {
        exists|i: int|
            0 <= i < self.projects.len() && (#[trigger] self.projects[i]).name == name
                && self.projects[i].id != id
    }

    /// The number of task entries of the project `project_id`.
    pub open spec fn count_tasks(self, project_id: int) -> nat {
        count_of_project(self.tasks, project_id)
    }

    /// The constraints of the store: ids start at 1, ascend in creation order
    /// and lie below the next id, project names are unique, every task entry has a
    /// positive duration and an existing project, and a running clock has
    /// the id 1 and an existing project.
    pub open spec fn wf(self) -> bool {
        &&& 1 <= self.next_project_id <= i64::MAX
        &&& 1 <= self.next_task_id <= i64::MAX
        &&& forall|i: int, j: int|
            0 <= i < j < self.projects.len() ==> (#[trigger] self.projects[i]).id < (
            #[trigger] self.projects[j]).id
        &&& forall|i: int|
            0 <= i < self.projects.len() ==> 1 <= (#[trigger] self.projects[i]).id
                < self.next_project_id
        &&& forall|i: int, j: int|
            0 <= i < j < self.projects.len() ==> (#[trigger] self.projects[i]).name != (
            #[trigger] self.projects[j]).name
        &&& forall|i: int, j: int|
            0 <= i < j < self.tasks.len() ==> (#[trigger] self.tasks[i]).id < (
            #[trigger] self.tasks[j]).id
        &&& forall|i: int|
            0 <= i < self.tasks.len() ==> {
                &&& 1 <= (#[trigger] self.tasks[i]).id < self.next_task_id
                &&& self.tasks[i].duration_min > 0
                &&& self.has_project(self.tasks[i].project_id)
            }
        &&& self.clock matches Some(c) ==> c.id == 1 && self.has_project(c.project_id)
    }

    /// Under the constraints an id names one project.
    pub proof fn lemma_project_by_id(self, i: int)
        requires
            self.wf(),
            0 <= i < self.projects.len(),
        ensures
            self.has_project(self.projects[i].id),
            self.project_by_id(self.projects[i].id) == Some(self.projects[i]),
    {
        let id = self.projects[i].id;
        assert(self.has_project(id));
        let j = choose|j: int| 0 <= j < self.projects.len() && (#[trigger] self.projects[j]).id == id;
        if j < i {
            assert(self.projects[j].id < self.projects[i].id);
        } else if i < j {
            assert(self.projects[i].id < self.projects[j].id);
        }
    }

    /// Under the constraints the position of a project is that of its id.
    pub proof fn lemma_project_index(self, i: int)
        requires
            self.wf(),
            0 <= i < self.projects.len(),
        ensures
            self.project_index(self.projects[i].id) == i,
    {
        let j = self.project_index(self.projects[i].id);
        if j < i {
            assert(self.projects[j].id < self.projects[i].id);
        } else if i < j {
            assert(self.projects[i].id < self.projects[j].id);
        }
    }

    /// Under the constraints the position of a task entry is that of its
    /// id.
    pub proof fn lemma_task_index(self, i: int)
        requires
            self.wf(),
            0 <= i < self.tasks.len(),
        ensures
            self.task_index(self.tasks[i].id) == i,
    {
        let j = self.task_index(self.tasks[i].id);
        if j < i {
            assert(self.tasks[j].id < self.tasks[i].id);
        } else if i < j {
            assert(self.tasks[i].id < self.tasks[j].id);
        }
    }

    /// Under the constraints a name names one project.
    pub proof fn lemma_project_by_name(self, i: int)
        requires
            self.wf(),
            0 <= i < self.projects.len(),
        ensures
            self.has_name(self.projects[i].name),
            self.project_by_name(self.projects[i].name) == Some(self.projects[i]),
    {
        let name = self.projects[i].name;
        assert(self.has_name(name));
        let j = choose|j: int|
            0 <= j < self.projects.len() && (#[trigger] self.projects[j]).name == name;
        if j < i {
            assert(self.projects[j].name != self.projects[i].name);
        } else if i < j {
            assert(self.projects[i].name != self.projects[j].name);
        }
    }

    /// Under the constraints an id names one task entry.
    pub proof fn lemma_task_by_id(self, i: int)
        requires
            self.wf(),
            0 <= i < self.tasks.len(),
        ensures
            self.has_task(self.tasks[i].id),
            self.task_by_id(self.tasks[i].id) == Some(self.tasks[i]),
    {
        let id = self.tasks[i].id;
        assert(self.has_task(id));
        let j = choose|j: int| 0 <= j < self.tasks.len() && (#[trigger] self.tasks[j]).id == id;
        if j < i {
            assert(self.tasks[j].id < self.tasks[i].id);
        } else if i < j {
            assert(self.tasks[i].id < self.tasks[j].id);
        }
    }
}

/// The number of entries of `tasks` that belong to the project `project_id`.
pub open spec fn count_of_project(tasks: Seq<TaskView>, project_id: int) -> nat
    decreases tasks.len(),
{
    if tasks.len() == 0 {
        0
    } else {
        let rest = count_of_project(tasks.drop_last(), project_id);
        if tasks.last().project_id == project_id {
            rest + 1
        } else {
            rest
        }
    }
}

/// The entries of `tasks` that do not belong to the project `project_id`, in
/// their order.
pub open spec fn without_project(tasks: Seq<TaskView>, project_id: int) -> Seq<TaskView>
    decreases tasks.len(),
{
    if tasks.len() == 0 {
        Seq::empty()
    } else {
        let rest = without_project(tasks.drop_last(), project_id);
        if tasks.last().project_id != project_id {
            rest.push(tasks.last())
        } else {
            rest
        }
    }
}

/// The entries that stay when a project goes are those of the others.
pub proof fn lemma_without_project_contains(tasks: Seq<TaskView>, project_id: int, t: TaskView)
    ensures
        without_project(tasks, project_id).contains(t) <==> tasks.contains(t) && t.project_id
            != project_id,
    decreases tasks.len(),
{
    if tasks.len() > 0 {
        let rest = tasks.drop_last();
        let last = tasks.last();
        lemma_without_project_contains(rest, project_id, t);
        let kept = without_project(rest, project_id);
        if tasks.contains(t) {
            let i = choose|i: int| 0 <= i < tasks.len() && tasks[i] == t;
            if i < rest.len() {
                assert(rest[i] == t);
            }
        }
        if rest.contains(t) {
            let i = choose|i: int| 0 <= i < rest.len() && rest[i] == t;
            assert(tasks[i] == t);
        }
        assert(tasks[tasks.len() - 1] == last);
        if last.project_id != project_id {
            let out = kept.push(last);
            assert(out[kept.len() as int] == last);
            if kept.contains(t) {
                let i = choose|i: int| 0 <= i < kept.len() && kept[i] == t;
                assert(out[i] == t);
            }
            if out.contains(t) {
                let i = choose|i: int| 0 <= i < out.len() && out[i] == t;
                if i < kept.len() {
                    assert(kept[i] == t);
                }
            }
        }
    }
}

/// A project has task entries exactly where the count of them is positive.
pub proof fn lemma_count_positive(tasks: Seq<TaskView>, project_id: int)
    ensures
        count_of_project(tasks, project_id) > 0 <==> exists|i: int|
            0 <= i < tasks.len() && (#[trigger] tasks[i]).project_id == project_id,
    decreases tasks.len(),
{
    if tasks.len() > 0 {
        let rest = tasks.drop_last();
        lemma_count_positive(rest, project_id);
        if exists|i: int| 0 <= i < rest.len() && (#[trigger] rest[i]).project_id == project_id {
            let i = choose|i: int|
                0 <= i < rest.len() && (#[trigger] rest[i]).project_id == project_id;
            assert(tasks[i].project_id == project_id);
        }
        if exists|i: int| 0 <= i < tasks.len() && (#[trigger] tasks[i]).project_id == project_id {
            let i = choose|i: int|
                0 <= i < tasks.len() && (#[trigger] tasks[i]).project_id == project_id;
            if i < rest.len() {
                assert(rest[i].project_id == project_id);
            } else {
                assert(tasks.last().project_id == project_id);
            }
        }
        if tasks.last().project_id == project_id {
            assert(tasks[tasks.len() - 1].project_id == project_id);
        }
    }
}

pub proof fn lemma_count_bounded(tasks: Seq<TaskView>, project_id: int)
    ensures
        count_of_project(tasks, project_id) <= tasks.len(),
    decreases tasks.len(),
{
    if tasks.len() > 0 {
        lemma_count_bounded(tasks.drop_last(), project_id);
    }
}

/// Ids that start at 1 and ascend leave room for no more entries than ids.
pub proof fn lemma_task_id_above_index(tasks: Seq<TaskView>, i: int)
    requires
        forall|a: int, b: int|
            0 <= a < b < tasks.len() ==> (#[trigger] tasks[a]).id < (#[trigger] tasks[b]).id,
        forall|a: int| 0 <= a < tasks.len() ==> 1 <= (#[trigger] tasks[a]).id,
        0 <= i < tasks.len(),
    ensures
        tasks[i].id >= i + 1,
    decreases i,
{
    if i > 0 {
        lemma_task_id_above_index(tasks, i - 1);
        assert(tasks[i - 1].id < tasks[i].id);
    }
}

pub open spec fn project_views(s: Seq<Project>) -> Seq<ProjectView> {
    s.map_values(|p: Project| p@)
}

pub open spec fn task_views(s: Seq<TaskEntry>) -> Seq<TaskView> {
    s.map_values(|t: TaskEntry| t@)
}

pub open spec fn clock_view(c: Option<ClockState>) -> Option<ClockView> {
    match c {
        Some(c) => Some(c@),
        None => None,
    }
}

pub open spec fn project_view(p: Option<Project>) -> Option<ProjectView> {
    match p {
        Some(p) => Some(p@),
        None => None,
    }
}

pub open spec fn task_view(t: Option<TaskEntry>) -> Option<TaskView> {
    match t {
        Some(t) => Some(t@),
        None => None,
    }
}

/// The store of projects, task entries and the clock.
#[derive(Debug)]
pub struct Database {
    projects: Vec<Project>,
    tasks: Vec<TaskEntry>,
    clock: Option<ClockState>,
    next_project_id: i64,
    next_task_id: i64,
}

impl View for Database {
    type V = StoreView;

    closed spec fn view(&self) -> StoreView {
        StoreView {
            projects: project_views(self.projects@),
            tasks: task_views(self.tasks@),
            clock: clock_view(self.clock),
            next_project_id: self.next_project_id as int,
            next_task_id: self.next_task_id as int,
        }
    }
}

pub open spec fn msg_invalid_stored(text: Seq<char>) -> Seq<char> {
    "Invalid datetime in database: '"@ + text + "'"@
}

/// The second that a stored text stands for, or the message of its
/// rejection, `parsed` being what the text writes in the stored form, if it
/// writes anything.
pub open spec fn stored_time_spec(text: Seq<char>, parsed: Option<i64>) -> Result<int, Seq<char>> {
    match parsed {
        Some(secs) => if secs_in_range(secs as int) {
            Ok(secs as int)
        } else {
            Err(msg_invalid_stored(text))
        },
        None => Err(msg_invalid_stored(text)),
    }
}

/// Names the second for the stored text `text`, given the second that the
/// text writes, if any. A text that writes none, or one outside the years
/// 0000 to 9999, is refused with a system condition.
pub fn stored_time(text: &str, parsed: Option<i64>) -> (r: Result<Timestamp, AppError>)
    ensures
        match r {
            Ok(t) => stored_time_spec(text@, parsed) == Ok::<int, Seq<char>>(t@),
            Err(e) => stored_time_spec(text@, parsed) matches Err(m) && e@
                == crate::error::ErrorView::System(m),
        },
{
    if let Some(secs) = parsed {
        if let Some(t) = Timestamp::from_secs(secs) {
            return Ok(t);
        }
    }
    let mut message = String::new();
    message.append("Invalid datetime in database: '");
    message.append(text);
    message.append("'");
    assert(message@ =~= msg_invalid_stored(text@));
    Err(AppError::SystemError(message))
}

/// Reads a time in the stored form `YYYY-MM-DDTHH:MM:SS`.
pub fn parse_datetime(s: &str) -> (r: Result<Timestamp, AppError>)
    ensures
        match r {
            Ok(t) => stored_time_spec(s@, datetime_parsed(s@, "%Y-%m-%dT%H:%M:%S"@)) == Ok::<
                int,
                Seq<char>,
            >(t@),
            Err(e) => stored_time_spec(s@, datetime_parsed(s@, "%Y-%m-%dT%H:%M:%S"@)) matches Err(
                m,
            ) && e@ == crate::error::ErrorView::System(m),
        },
{
    stored_time(s, parse_datetime_secs(s, "%Y-%m-%dT%H:%M:%S"))
}

/// Reads a time in the stored form, where there is one.
pub fn parse_optional_datetime(s: Option<&str>) -> (r: Result<Option<Timestamp>, AppError>)
    ensures
        match s {
            None => r matches Ok(None),
            Some(text) => match r {
                Ok(t) => t matches Some(t) && stored_time_spec(
                    text@,
                    datetime_parsed(text@, "%Y-%m-%dT%H:%M:%S"@),
                ) == Ok::<int, Seq<char>>(t@),
                Err(e) => stored_time_spec(
                    text@,
                    datetime_parsed(text@, "%Y-%m-%dT%H:%M:%S"@),
                ) matches Err(m) && e@ == crate::error::ErrorView::System(m),
            },
        },
{
    match s {
        Some(s) => match parse_datetime(s) {
            Ok(t) => Ok(Some(t)),
            Err(e) => Err(e),
        },
        None => Ok(None),
    }
}

/// The store's refusal of records that break its constraints.
pub open spec fn msg_corrupt() -> Seq<char> {
    "Database error: stored records violate the constraints of the store"@
}

fn holds_project(projects: &Vec<Project>, id: i64) -> (r: bool)
    ensures
        r == exists|i: int|
            0 <= i < projects.len() && (#[trigger] project_views(projects@)[i]).id == id,
{
    let mut i: usize = 0;
    while i < projects.len()
        invariant
            i <= projects.len(),
            forall|k: int| 0 <= k < i ==> (#[trigger] project_views(projects@)[k]).id != id,
        decreases projects.len() - i,
    {
        if projects[i].id == id {
            assert(project_views(projects@)[i as int].id == id);
            return true;
        }
        i = i + 1;
    }
    false
}

impl Database {
    /// The projects in the order of their creation.
    pub fn all_projects(&self) -> (r: Vec<Project>)
        ensures
            project_views(r@) == self@.projects,
    {
        let mut out: Vec<Project> = Vec::new();
        let mut i: usize = 0;
        while i < self.projects.len()
            invariant
                i <= self.projects.len(),
                project_views(out@) == self@.projects.take(i as int),
            decreases self.projects.len() - i,
        {
            let ghost before = project_views(out@);
            out.push(self.projects[i].clone());
            assert(project_views(out@) =~= before.push(self@.projects[i as int]));
            i = i + 1;
            assert(project_views(out@) =~= self@.projects.take(i as int));
        }
        assert(self@.projects.take(i as int) =~= self@.projects);
        out
    }

    /// The task entries in the order of their creation.
    pub fn all_tasks(&self) -> (r: Vec<TaskEntry>)
        ensures
            task_views(r@) == self@.tasks,
    {
        let mut out: Vec<TaskEntry> = Vec::new();
        let mut i: usize = 0;
        while i < self.tasks.len()
            invariant
                i <= self.tasks.len(),
                task_views(out@) == self@.tasks.take(i as int),
            decreases self.tasks.len() - i,
        {
            let ghost before = task_views(out@);
            out.push(self.tasks[i].clone());
            assert(task_views(out@) =~= before.push(self@.tasks[i as int]));
            i = i + 1;
            assert(task_views(out@) =~= self@.tasks.take(i as int));
        }
        assert(self@.tasks.take(i as int) =~= self@.tasks);
        out
    }

    /// The id that the next new project gets.
    pub fn next_project_id(&self) -> (r: i64)
        ensures
            r == self@.next_project_id,
    {
        self.next_project_id
    }

    /// The id that the next new task entry gets.
    pub fn next_task_id(&self) -> (r: i64)
        ensures
            r == self@.next_task_id,
    {
        self.next_task_id
    }

    /// A store of the given records, where they meet the constraints of
    /// the store; a system condition where they do not.
    pub fn restore(
        projects: Vec<Project>,
        tasks: Vec<TaskEntry>,
        clock: Option<ClockState>,
        next_project_id: i64,
        next_task_id: i64,
    ) -> (r: Result<Database, AppError>)
        ensures
            ({
                let view = StoreView {
                    projects: project_views(projects@),
                    tasks: task_views(tasks@),
                    clock: clock_view(clock),
                    next_project_id: next_project_id as int,
                    next_task_id: next_task_id as int,
                };
                match r {
                    Ok(db) => view.wf() && db.wf() && db@ == view,
                    Err(e) => !view.wf() && e@ == crate::error::ErrorView::System(msg_corrupt()),
                }
            }),
    {
        let ghost view = StoreView {
            projects: project_views(projects@),
            tasks: task_views(tasks@),
            clock: clock_view(clock),
            next_project_id: next_project_id as int,
            next_task_id: next_task_id as int,
        };
        if next_project_id < 1 || next_task_id < 1 {
            return Err(Database::corrupt());
        }
        let mut i: usize = 0;
        while i < projects.len()
            invariant
                i <= projects.len(),
                view == (StoreView {
                    projects: project_views(projects@),
                    tasks: task_views(tasks@),
                    clock: clock_view(clock),
                    next_project_id: next_project_id as int,
                    next_task_id: next_task_id as int,
                }),
                forall|a: int, b: int|
                    0 <= a < b < i ==> (#[trigger] view.projects[a]).id < (
                    #[trigger] view.projects[b]).id,
                forall|a: int|
                    0 <= a < i ==> 1 <= (#[trigger] view.projects[a]).id < next_project_id,
                forall|a: int, b: int|
                    0 <= a < b < i ==> (#[trigger] view.projects[a]).name != (
                    #[trigger] view.projects[b]).name,
            decreases projects.len() - i,
        {
            let id: i64 = projects[i].id;
            if id < 1 || id >= next_project_id {
                assert(!(1 <= view.projects[i as int].id < view.next_project_id));
                return Err(Database::corrupt());
            }
            if i > 0 && projects[i - 1].id >= id {
                assert(!(view.projects[i - 1].id < view.projects[i as int].id));
                return Err(Database::corrupt());
            }
            let mut j: usize = 0;
            while j < i
                invariant
                    j <= i,
                    i < projects.len(),
                    view == (StoreView {
                        projects: project_views(projects@),
                        tasks: task_views(tasks@),
                        clock: clock_view(clock),
                        next_project_id: next_project_id as int,
                        next_task_id: next_task_id as int,
                    }),
                    forall|a: int|
                        0 <= a < j ==> (#[trigger] view.projects[a]).name != view.projects[i as int].name,
                decreases i - j,
            {
                if crate::text::same_text(projects[j].name.as_str(), projects[i].name.as_str()) {
                    assert(view.projects[j as int].name == view.projects[i as int].name);
                    return Err(Database::corrupt());
                }
                j = j + 1;
            }
            proof {
                assert forall|a: int, b: int| 0 <= a < b < i + 1 implies (
                #[trigger] view.projects[a]).id < (#[trigger] view.projects[b]).id by {
                    if b == i && a < i - 1 {
                        assert(view.projects[a].id < view.projects[i - 1].id);
                    }
                }
            }
            i = i + 1;
        }
        let mut k: usize = 0;
        while k < tasks.len()
            invariant
                k <= tasks.len(),
                view == (StoreView {
                    projects: project_views(projects@),
                    tasks: task_views(tasks@),
                    clock: clock_view(clock),
                    next_project_id: next_project_id as int,
                    next_task_id: next_task_id as int,
                }),
                forall|a: int, b: int|
                    0 <= a < b < view.projects.len() ==> (#[trigger] view.projects[a]).id < (
                    #[trigger] view.projects[b]).id,
                forall|a: int|
                    0 <= a < view.projects.len() ==> 1 <= (#[trigger] view.projects[a]).id
                        < next_project_id,
                forall|a: int, b: int|
                    0 <= a < b < view.projects.len() ==> (#[trigger] view.projects[a]).name != (
                    #[trigger] view.projects[b]).name,
                forall|a: int, b: int|
                    0 <= a < b < k ==> (#[trigger] view.tasks[a]).id < (#[trigger] view.tasks[b]).id,
                forall|a: int|
                    0 <= a < k ==> {
                        &&& 1 <= (#[trigger] view.tasks[a]).id < next_task_id
                        &&& view.tasks[a].duration_min > 0
                        &&& view.has_project(view.tasks[a].project_id)
                    },
            decreases tasks.len() - k,
        {
            let id: i64 = tasks[k].id;
            if id < 1 || id >= next_task_id || tasks[k].duration_min <= 0 {
                assert(!(1 <= view.tasks[k as int].id < view.next_task_id
                    && view.tasks[k as int].duration_min > 0));
                return Err(Database::corrupt());
            }
            if k > 0 && tasks[k - 1].id >= id {
                assert(!(view.tasks[k - 1].id < view.tasks[k as int].id));
                return Err(Database::corrupt());
            }
            if !holds_project(&projects, tasks[k].project_id) {
                assert(!view.has_project(view.tasks[k as int].project_id));
                return Err(Database::corrupt());
            }
            proof {
                assert forall|a: int, b: int| 0 <= a < b < k + 1 implies (
                #[trigger] view.tasks[a]).id < (#[trigger] view.tasks[b]).id by {
                    if b == k && a < k - 1 {
                        assert(view.tasks[a].id < view.tasks[k - 1].id);
                    }
                }
            }
            k = k + 1;
        }
        let clock_fits = match &clock {
            Some(c) => c.id == 1 && holds_project(&projects, c.project_id),
            None => true,
        };
        if !clock_fits {
            return Err(Database::corrupt());
        }
        let db = Database { projects, tasks, clock, next_project_id, next_task_id };
        proof {
            assert(db@.projects == view.projects);
            assert(db@.tasks == view.tasks);
            assert(db@ == view);
            assert(view.clock matches Some(c) ==> c.id == 1 && view.has_project(c.project_id));
            assert(view.wf());
        }
        Ok(db)
    }

    fn corrupt() -> (r: AppError)
        ensures
            r@ == crate::error::ErrorView::System(msg_corrupt()),
    {
        AppError::system("Database error: stored records violate the constraints of the store")
    }

    /// Whether the store meets its constraints.
    pub open spec fn wf(&self) -> bool {
        self@.wf()
    }

    /// An empty store, whose first project and first task entry get the id 1.
    pub fn new() -> (r: Database)
        ensures
            r.wf(),
            r@ == StoreView::empty(),
    {
        let r = Database {
            projects: Vec::new(),
            tasks: Vec::new(),
            clock: None,
            next_project_id: 1,
            next_task_id: 1,
        };
        assert(r@.projects =~= Seq::empty());
        assert(r@.tasks =~= Seq::empty());
        r
    }
}

} // verus!
