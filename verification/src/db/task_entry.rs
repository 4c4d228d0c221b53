use super::{lemma_task_id_above_index, task_view, task_views, Database, StoreView};
use crate::error::{AppError, ErrorView};
use crate::models::{time_view, TaskEntry, TaskView};
use crate::time::{day_of, Date, Timestamp};
use vstd::prelude::*;

verus! {

/// The store's refusal of a duration that is not positive.
pub open spec fn msg_duration_check() -> Seq<char> {
    "Database error: CHECK constraint failed: duration_min > 0"@
}

pub open spec fn text_of(s: Option<&str>) -> Option<Seq<char>> {
    match s {
        Some(s) => Some(s@),
        None => None,
    }
}

pub open spec fn id_of(id: Option<i64>) -> Option<int> {
    match id {
        Some(id) => Some(id as int),
        None => None,
    }
}

pub open spec fn time_change(t: Option<Option<Timestamp>>) -> Option<Option<int>> {
    match t {
        Some(Some(t)) => Some(Some(t@)),
        Some(None) => Some(None),
        None => None,
    }
}

/// The entry `current` after an update at `now`: each given field replaces
/// the stored one, each absent field stays.
pub open spec fn merged_task(
    current: TaskView,
    description: Option<Seq<char>>,
    project_id: Option<int>,
    start_time: Option<Option<int>>,
    end_time: Option<Option<int>>,
    duration_min: Option<int>,
    now: int,
) -> TaskView {
    TaskView {
        id: current.id,
        project_id: match project_id {
            Some(p) => p,
            None => current.project_id,
        },
        description: match description {
            Some(d) => d,
            None => current.description,
        },
        start_time: match start_time {
            Some(s) => s,
            None => current.start_time,
        },
        end_time: match end_time {
            Some(e) => e,
            None => current.end_time,
        },
        duration_min: match duration_min {
            Some(d) => d,
            None => current.duration_min,
        },
        created_at: current.created_at,
        updated_at: now,
    }
}

/// What adding a task entry at `now` makes of the store `pre`: the new
/// entry, under the next id, and the store that holds it; or the message
/// of the refusal, which is that of the first constraint that fails: the
/// duration is positive, the project exists, an id is left.
pub open spec fn insert_task_result(
    pre: StoreView,
    project_id: int,
    description: Seq<char>,
    start_time: Option<int>,
    end_time: Option<int>,
    duration_min: int,
    now: int,
) -> Result<(TaskView, StoreView), Seq<char>> {
    if duration_min <= 0 {
        Err(msg_duration_check())
    } else if !pre.has_project(project_id) {
        Err(super::clock_state::msg_foreign_key())
    } else if pre.next_task_id >= i64::MAX {
        Err(super::project::msg_full())
    } else {
        let task = TaskView {
            id: pre.next_task_id,
            project_id,
            description,
            start_time,
            end_time,
            duration_min,
            created_at: now,
            updated_at: now,
        };
        Ok(
            (
                task,
                StoreView {
                    tasks: pre.tasks.push(task),
                    next_task_id: pre.next_task_id + 1,
                    ..pre
                },
            ),
        )
    }
}

/// What updating the task entry `id` at `now` makes of the store `pre`,
/// which holds it: the store with the merged entry in its place; or the
/// message of the refusal, which is that of the first constraint that
/// fails: the resulting duration is positive, the resulting project exists.
pub open spec fn update_task_result(
    pre: StoreView,
    id: int,
    description: Option<Seq<char>>,
    project_id: Option<int>,
    start_time: Option<Option<int>>,
    end_time: Option<Option<int>>,
    duration_min: Option<int>,
    now: int,
) -> Result<StoreView, Seq<char>> {
    let index = pre.task_index(id);
    let merged = merged_task(
        pre.tasks[index],
        description,
        project_id,
        start_time,
        end_time,
        duration_min,
        now,
    );
    if merged.duration_min <= 0 {
        Err(msg_duration_check())
    } else if !pre.has_project(merged.project_id) {
        Err(super::clock_state::msg_foreign_key())
    } else {
        Ok(StoreView { tasks: pre.tasks.update(index, merged), ..pre })
    }
}

/// The entries of `tasks` dated from the day `from` to the day `to`, both
/// included, in their order.
pub open spec fn on_days(tasks: Seq<TaskView>, from: int, to: int) -> Seq<TaskView>
    decreases tasks.len(),
{
    if tasks.len() == 0 {
        Seq::empty()
    } else {
        let rest = on_days(tasks.drop_last(), from, to);
        if from <= day_of(tasks.last().effective()) <= to {
            rest.push(tasks.last())
        } else {
            rest
        }
    }
}

/// `sorted` with `t` put behind the last entry that is not dated later.
pub open spec fn insert_by_time(sorted: Seq<TaskView>, t: TaskView) -> Seq<TaskView>
    decreases sorted.len(),
{
    if sorted.len() > 0 && sorted.last().effective() > t.effective() {
        insert_by_time(sorted.drop_last(), t).push(sorted.last())
    } else {
        sorted.push(t)
    }
}

/// `tasks` in ascending order of their effective time; entries of one time
/// keep their order.
pub open spec fn ordered_by_time(tasks: Seq<TaskView>) -> Seq<TaskView>
    decreases tasks.len(),
{
    if tasks.len() == 0 {
        Seq::empty()
    } else {
        insert_by_time(ordered_by_time(tasks.drop_last()), tasks.last())
    }
}

pub proof fn lemma_insert_by_time(sorted: Seq<TaskView>, t: TaskView, pos: int)
    requires
        0 <= pos <= sorted.len(),
        forall|k: int| pos <= k < sorted.len() ==> (#[trigger] sorted[k]).effective() > t.effective(),
        pos == 0 || sorted[pos - 1].effective() <= t.effective(),
    ensures
        insert_by_time(sorted, t) == sorted.insert(pos, t),
    decreases sorted.len() - pos,
{
    if pos == sorted.len() {
        assert(sorted.insert(pos, t) =~= sorted.push(t));
    } else {
        assert(sorted.last() == sorted[sorted.len() - 1]);
        lemma_insert_by_time(sorted.drop_last(), t, pos);
        assert(sorted.insert(pos, t) =~= sorted.drop_last().insert(pos, t).push(sorted.last()));
    }
}

/// The entries dated in a range are those of the store whose day lies in
/// it.
pub proof fn lemma_on_days_contains(tasks: Seq<TaskView>, from: int, to: int, t: TaskView)
    ensures
        on_days(tasks, from, to).contains(t) <==> tasks.contains(t) && from <= day_of(
            t.effective(),
        ) <= to,
    decreases tasks.len(),
{
    if tasks.len() > 0 {
        let rest = tasks.drop_last();
        let last = tasks.last();
        lemma_on_days_contains(rest, from, to, t);
        let kept = on_days(rest, from, to);
        if tasks.contains(t) {
            let i = choose|i: int| 0 <= i < tasks.len() && tasks[i] == t;
            if i < rest.len() {
                assert(rest[i] == t);
            }
        }
        if rest.contains(t) {
            let i = choose|i: int| 0 <= i < rest.len() && rest[i] == t;
            assert(tasks[i] == t);
        }
        assert(tasks[tasks.len() - 1] == last);
        if from <= day_of(last.effective()) <= to {
            let out = kept.push(last);
            assert(out[kept.len() as int] == last);
            if kept.contains(t) {
                let i = choose|i: int| 0 <= i < kept.len() && kept[i] == t;
                assert(out[i] == t);
            }
            if out.contains(t) {
                let i = choose|i: int| 0 <= i < out.len() && out[i] == t;
                if i < kept.len() {
                    assert(kept[i] == t);
                }
            }
        }
    }
}

/// Putting an entry in its place keeps the others and adds the one.
pub proof fn lemma_insert_by_time_entries(sorted: Seq<TaskView>, t: TaskView)
    ensures
        insert_by_time(sorted, t).to_multiset() =~= sorted.to_multiset().insert(t),
        insert_by_time(sorted, t).len() == sorted.len() + 1,
    decreases sorted.len(),
{
    broadcast use vstd::seq_lib::group_to_multiset_ensures;

    if sorted.len() > 0 && sorted.last().effective() > t.effective() {
        let rest = sorted.drop_last();
        lemma_insert_by_time_entries(rest, t);
        assert(sorted =~= rest.push(sorted.last()));
    }
}

/// Ordering by time keeps every entry, as often as it occurs.
pub proof fn lemma_ordered_by_time_entries(tasks: Seq<TaskView>)
    ensures
        ordered_by_time(tasks).to_multiset() =~= tasks.to_multiset(),
        ordered_by_time(tasks).len() == tasks.len(),
    decreases tasks.len(),
{
    broadcast use vstd::seq_lib::group_to_multiset_ensures;

    if tasks.len() > 0 {
        let rest = tasks.drop_last();
        lemma_ordered_by_time_entries(rest);
        lemma_insert_by_time_entries(ordered_by_time(rest), tasks.last());
        assert(tasks =~= rest.push(tasks.last()));
    }
}

pub open spec fn ascending(tasks: Seq<TaskView>) -> bool {
    forall|i: int, j: int|
        0 <= i < j < tasks.len() ==> (#[trigger] tasks[i]).effective() <= (
        #[trigger] tasks[j]).effective()
}

/// Putting an entry in its place keeps an ascending sequence ascending.
pub proof fn lemma_insert_by_time_ascending(sorted: Seq<TaskView>, t: TaskView)
    requires
        ascending(sorted),
    ensures
        ascending(insert_by_time(sorted, t)),
        forall|k: int|
            0 <= k < insert_by_time(sorted, t).len() ==> (#[trigger] insert_by_time(
                sorted,
                t,
            )[k]) == t || sorted.contains(insert_by_time(sorted, t)[k]),
    decreases sorted.len(),
{
    let out = insert_by_time(sorted, t);
    if sorted.len() > 0 && sorted.last().effective() > t.effective() {
        let rest = sorted.drop_last();
        let last = sorted.last();
        assert forall|i: int, j: int| 0 <= i < j < rest.len() implies (
        #[trigger] rest[i]).effective() <= (#[trigger] rest[j]).effective() by {
            assert(rest[i] == sorted[i] && rest[j] == sorted[j]);
        }
        lemma_insert_by_time_ascending(rest, t);
        let inner = insert_by_time(rest, t);
        lemma_insert_by_time_entries(rest, t);
        assert(out == inner.push(last));
        assert forall|k: int| 0 <= k < out.len() implies (#[trigger] out[k]) == t
            || sorted.contains(out[k]) by {
            if k < inner.len() {
                assert(out[k] == inner[k]);
                if inner[k] != t {
                    let w = choose|w: int| 0 <= w < rest.len() && rest[w] == inner[k];
                    assert(sorted[w] == out[k]);
                }
            } else {
                assert(sorted[sorted.len() - 1] == out[k]);
            }
        }
        assert forall|i: int, j: int| 0 <= i < j < out.len() implies (
        #[trigger] out[i]).effective() <= (#[trigger] out[j]).effective() by {
            if j < inner.len() {
                assert(out[i] == inner[i] && out[j] == inner[j]);
            } else {
                assert(out[i] == inner[i]);
                if inner[i] != t {
                    let w = choose|w: int| 0 <= w < rest.len() && rest[w] == inner[i];
                    assert(sorted[w].effective() <= sorted[sorted.len() - 1].effective());
                }
            }
        }
    } else {
        assert forall|k: int| 0 <= k < out.len() implies (#[trigger] out[k]) == t
            || sorted.contains(out[k]) by {
            if k < sorted.len() {
                assert(sorted[k] == out[k]);
            }
        }
        assert forall|i: int, j: int| 0 <= i < j < out.len() implies (
        #[trigger] out[i]).effective() <= (#[trigger] out[j]).effective() by {
            if j < sorted.len() {
                assert(out[i] == sorted[i] && out[j] == sorted[j]);
            } else if sorted.len() > 0 {
                assert(out[i] == sorted[i]);
                assert(sorted[i].effective() <= sorted[sorted.len() - 1].effective());
            }
        }
    }
}

/// Entries ordered by time ascend in their effective time.
pub proof fn lemma_ordered_by_time_ascending(tasks: Seq<TaskView>)
    ensures
        ascending(ordered_by_time(tasks)),
    decreases tasks.len(),
{
    if tasks.len() > 0 {
        lemma_ordered_by_time_ascending(tasks.drop_last());
        lemma_insert_by_time_ascending(ordered_by_time(tasks.drop_last()), tasks.last());
    }
}

/// Adding an entry keeps the constraints, and the entry is then found
/// under its id.
pub proof fn lemma_insert_task_kept(
    pre: StoreView,
    project_id: int,
    description: Seq<char>,
    start_time: Option<int>,
    end_time: Option<int>,
    duration_min: int,
    now: int,
)
    requires
        pre.wf(),
        insert_task_result(pre, project_id, description, start_time, end_time, duration_min, now)
            is Ok,
    ensures
        ({
            let (task, store) = insert_task_result(
                pre,
                project_id,
                description,
                start_time,
                end_time,
                duration_min,
                now,
            )->Ok_0;
            store.wf() && store.task_by_id(task.id) == Some(task)
        }),
{
    let (task, store) = insert_task_result(
        pre,
        project_id,
        description,
        start_time,
        end_time,
        duration_min,
        now,
    )->Ok_0;
    assert forall|i: int| 0 <= i < store.tasks.len() implies store.has_project(
        (#[trigger] store.tasks[i]).project_id,
    ) by {
        if i < pre.tasks.len() {
            assert(store.tasks[i] == pre.tasks[i]);
        }
        let pid = store.tasks[i].project_id;
        assert(pre.has_project(pid));
        let k = pre.project_index(pid);
        assert(store.projects[k].id == pid);
    }
    if store.clock is Some {
        let pid = store.clock->0.project_id;
        let k = pre.project_index(pid);
        assert(store.projects[k].id == pid);
    }
    assert(store.wf());
    store.lemma_task_by_id(pre.tasks.len() as int);
}

/// Updating an entry keeps the constraints, and the merged entry is then
/// found under the id.
pub proof fn lemma_update_task_kept(
    pre: StoreView,
    id: int,
    description: Option<Seq<char>>,
    project_id: Option<int>,
    start_time: Option<Option<int>>,
    end_time: Option<Option<int>>,
    duration_min: Option<int>,
    now: int,
)
    requires
        pre.wf(),
        pre.has_task(id),
        update_task_result(
            pre,
            id,
            description,
            project_id,
            start_time,
            end_time,
            duration_min,
            now,
        ) is Ok,
    ensures
        ({
            let store = update_task_result(
                pre,
                id,
                description,
                project_id,
                start_time,
                end_time,
                duration_min,
                now,
            )->Ok_0;
            let merged = merged_task(
                pre.task_by_id(id)->0,
                description,
                project_id,
                start_time,
                end_time,
                duration_min,
                now,
            );
            store.wf() && store.task_by_id(id) == Some(merged)
        }),
{
    let store = update_task_result(
        pre,
        id,
        description,
        project_id,
        start_time,
        end_time,
        duration_min,
        now,
    )->Ok_0;
    let index = pre.task_index(id);
    pre.lemma_task_by_id(index);
    assert forall|a: int, b: int| 0 <= a < b < store.tasks.len() implies (
    #[trigger] store.tasks[a]).id < (#[trigger] store.tasks[b]).id by {
        assert(pre.tasks[a].id < pre.tasks[b].id);
    }
    assert forall|i: int| 0 <= i < store.tasks.len() implies {
        &&& 1 <= (#[trigger] store.tasks[i]).id < store.next_task_id
        &&& store.tasks[i].duration_min > 0
        &&& store.has_project(store.tasks[i].project_id)
    } by {
        if i != index {
            assert(store.tasks[i] == pre.tasks[i]);
        } else {
            assert(store.tasks[i].id == pre.tasks[i].id);
        }
        let pid = store.tasks[i].project_id;
        assert(pre.has_project(pid));
        let k = pre.project_index(pid);
        assert(store.projects[k].id == pid);
    }
    if store.clock is Some {
        let pid = store.clock->0.project_id;
        let k = pre.project_index(pid);
        assert(store.projects[k].id == pid);
    }
    assert(store.wf());
    store.lemma_task_by_id(index);
}

impl StoreView {
    /// The task entries dated from the day `from` to the day `to`, both
    /// included, in ascending order of their effective time.
    pub open spec fn tasks_between(self, from: int, to: int) -> Seq<TaskView> {
        ordered_by_time(on_days(self.tasks, from, to))
    }

    /// The entries of a range of days ascend in their effective time and
    /// are exactly the entries of the store that are dated on a day from
    /// `from` to `to`.
    pub proof fn tasks_between_are_the_days(self, from: int, to: int)
        ensures
            ascending(self.tasks_between(from, to)),
            forall|t: TaskView|
                self.tasks_between(from, to).contains(t) <==> self.tasks.contains(t) && from
                    <= day_of(t.effective()) <= to,
            self.tasks_between(from, to).len() == on_days(self.tasks, from, to).len(),
    {
        broadcast use vstd::seq_lib::group_to_multiset_ensures;

        let dated = on_days(self.tasks, from, to);
        lemma_ordered_by_time_ascending(dated);
        lemma_ordered_by_time_entries(dated);
        assert forall|t: TaskView|
            self.tasks_between(from, to).contains(t) <==> self.tasks.contains(t) && from <= day_of(
                t.effective(),
            ) <= to by {
            lemma_on_days_contains(self.tasks, from, to, t);
            assert(ordered_by_time(dated).to_multiset().count(t) == dated.to_multiset().count(t));
        }
    }
}

impl Database {
    /// Adds a task entry created at `now`, under the next id.
    ///
    /// Refused with a system condition, the store unchanged, where the
    /// duration is not positive, the project does not exist or no id is
    /// left; the first of these that applies decides the message.
    pub fn insert_task_entry(
        &mut self,
        project_id: i64,
        description: &str,
        start_time: Option<Timestamp>,
        end_time: Option<Timestamp>,
        duration_min: i64,
        now: Timestamp,
    ) -> (r: Result<TaskEntry, AppError>)
        requires
            old(self).wf(),
        ensures
            final(self).wf(),
            match insert_task_result(
                old(self)@,
                project_id as int,
                description@,
                time_view(start_time),
                time_view(end_time),
                duration_min as int,
                now@,
            ) {
                Ok((task, store)) => final(self)@ == store && (r matches Ok(t) && t@ == task),
                Err(m) => final(self)@ == old(self)@ && (r matches Err(e) && e@
                    == ErrorView::System(m)),
            },
    {
        if duration_min <= 0 {
            return Err(
                AppError::system("Database error: CHECK constraint failed: duration_min > 0"),
            );
        }
        if !self.project_exists(project_id) {
            return Err(AppError::system("Database error: FOREIGN KEY constraint failed"));
        }
        if self.next_task_id == i64::MAX {
            return Err(AppError::system("Database error: database or disk is full"));
        }
        let id: i64 = self.next_task_id;
        let task = TaskEntry {
            id,
            project_id,
            description: description.to_owned(),
            start_time,
            end_time,
            duration_min,
            created_at: now,
            updated_at: now,
        };
        let result = task.clone();
        self.tasks.push(task);
        self.next_task_id = id + 1;
        proof {
            assert(final(self)@.tasks =~= old(self)@.tasks.push(result@));
            assert(final(self)@.projects =~= old(self)@.projects);
        }
        Ok(result)
    }

    /// The position of the task entry `id`, if the store holds it.
    fn task_position(&self, id: i64) -> (r: Option<usize>)
        requires
            self.wf(),
        ensures
            match r {
                Some(i) => i < self.tasks.len() && self@.has_task(id as int) && i
                    == self@.task_index(id as int) && self@.tasks[i as int].id == id,
                None => !self@.has_task(id as int),
            },
    {
        let mut i: usize = 0;
        while i < self.tasks.len()
            invariant
                self.wf(),
                i <= self.tasks.len(),
                forall|k: int| 0 <= k < i ==> (#[trigger] self@.tasks[k]).id != id,
            decreases self.tasks.len() - i,
        {
            if self.tasks[i].id == id {
                proof {
                    self@.lemma_task_index(i as int);
                }
                return Some(i);
            }
            i = i + 1;
        }
        None
    }

    /// The task entry with the id `id`, if there is one.
    pub fn find_task_entry_by_id(&self, id: i64) -> (r: Option<TaskEntry>)
        requires
            self.wf(),
        ensures
            task_view(r) == self@.task_by_id(id as int),
    {
        match self.task_position(id) {
            Some(i) => {
                proof {
                    self@.lemma_task_by_id(i as int);
                }
                Some(self.tasks[i].clone())
            },
            None => None,
        }
    }

    /// Updates the task entry `id` at `now`: each given field replaces the
    /// stored one, each absent field stays.
    ///
    /// Gives `false`, the store unchanged, where no entry has the id.
    /// Refused with a system condition, the store unchanged, where the
    /// resulting duration is not positive or the resulting project does not
    /// exist; the first of these that applies decides the message.
    pub fn update_task_entry(
        &mut self,
        id: i64,
        description: Option<&str>,
        project_id: Option<i64>,
        start_time: Option<Option<Timestamp>>,
        end_time: Option<Option<Timestamp>>,
        duration_min: Option<i64>,
        now: Timestamp,
    ) -> (r: Result<bool, AppError>)
        requires
            old(self).wf(),
        ensures
            final(self).wf(),
            !old(self)@.has_task(id as int) ==> final(self)@ == old(self)@ && r == Ok::<
                bool,
                AppError,
            >(false),
            old(self)@.has_task(id as int) ==> match update_task_result(
                old(self)@,
                id as int,
                text_of(description),
                id_of(project_id),
                time_change(start_time),
                time_change(end_time),
                id_of(duration_min),
                now@,
            ) {
                Ok(store) => final(self)@ == store && r == Ok::<bool, AppError>(true),
                Err(m) => final(self)@ == old(self)@ && (r matches Err(e) && e@
                    == ErrorView::System(m)),
            },
    {
        let f: usize = match self.task_position(id) {
            None => {
                return Ok(false);
            },
            Some(f) => f,
        };
        let merged = TaskEntry {
            id: self.tasks[f].id,
            project_id: match project_id {
                Some(p) => p,
                None => self.tasks[f].project_id,
            },
            description: match description {
                Some(d) => d.to_owned(),
                None => self.tasks[f].description.clone(),
            },
            start_time: match start_time {
                Some(s) => s,
                None => self.tasks[f].start_time,
            },
            end_time: match end_time {
                Some(e) => e,
                None => self.tasks[f].end_time,
            },
            duration_min: match duration_min {
                Some(d) => d,
                None => self.tasks[f].duration_min,
            },
            created_at: self.tasks[f].created_at,
            updated_at: now,
        };
        if merged.duration_min <= 0 {
            return Err(
                AppError::system("Database error: CHECK constraint failed: duration_min > 0"),
            );
        }
        if !self.project_exists(merged.project_id) {
            return Err(AppError::system("Database error: FOREIGN KEY constraint failed"));
        }
        let ghost merged_view = merged@;
        self.tasks.set(f, merged);
        proof {
            assert(final(self)@.tasks =~= old(self)@.tasks.update(f as int, merged_view));
            assert(final(self)@.projects =~= old(self)@.projects);
            assert forall|a: int, b: int| 0 <= a < b < final(self)@.tasks.len() implies (
            #[trigger] final(self)@.tasks[a]).id < (#[trigger] final(self)@.tasks[b]).id by {
                assert(old(self)@.tasks[a].id < old(self)@.tasks[b].id);
            }
        }
        Ok(true)
    }

    /// Removes the task entry `id`. Gives `false`, the store unchanged,
    /// where no entry has the id.
    pub fn delete_task_entry(&mut self, id: i64) -> (r: bool)
        requires
            old(self).wf(),
        ensures
            final(self).wf(),
            r == old(self)@.has_task(id as int),
            !r ==> final(self)@ == old(self)@,
            r ==> final(self)@ == (StoreView {
                tasks: old(self)@.tasks.remove(old(self)@.task_index(id as int)),
                ..old(self)@
            }),
    {
        match self.task_position(id) {
            None => false,
            Some(f) => {
                self.tasks.remove(f);
                proof {
                    assert(final(self)@.tasks =~= old(self)@.tasks.remove(f as int));
                    assert(final(self)@.projects =~= old(self)@.projects);
                }
                true
            },
        }
    }

    /// The task entries dated on the day `date`, in ascending order of
    /// their effective time.
    pub fn list_tasks_for_date(&self, date: Date) -> (r: Vec<TaskEntry>)
        requires
            self.wf(),
        ensures
            task_views(r@) == self@.tasks_between(date@, date@),
            forall|m: int|
                0 <= m < r.len() ==> self@.tasks.contains(#[trigger] task_views(r@)[m]),
    {
        self.list_tasks_for_date_range(date, date)
    }

    /// The task entries dated from the day `from_date` to the day `to_date`,
    /// both included, in ascending order of their effective time.
    pub fn list_tasks_for_date_range(&self, from_date: Date, to_date: Date) -> (r: Vec<TaskEntry>)
        requires
            self.wf(),
        ensures
            task_views(r@) == self@.tasks_between(from_date@, to_date@),
            forall|m: int|
                0 <= m < r.len() ==> self@.tasks.contains(#[trigger] task_views(r@)[m]),
    {
        let from: i64 = from_date.days();
        let to: i64 = to_date.days();
        let mut out: Vec<TaskEntry> = Vec::new();
        let mut i: usize = 0;
        assert(task_views(out@) =~= Seq::empty());
        while i < self.tasks.len()
            invariant
                i <= self.tasks.len(),
                from == from_date@,
                to == to_date@,
                task_views(out@) == ordered_by_time(
                    on_days(self@.tasks.take(i as int), from as int, to as int),
                ),
                forall|m: int|
                    0 <= m < out.len() ==> self@.tasks.contains(#[trigger] task_views(out@)[m]),
            decreases self.tasks.len() - i,
        {
            proof {
                assert(self@.tasks.take(i + 1).drop_last() =~= self@.tasks.take(i as int));
            }
            let key = self.tasks[i].effective_time();
            let day: i64 = key.date().days();
            if from <= day && day <= to {
                let mut pos: usize = out.len();
                while pos > 0 && out[pos - 1].effective_time().secs() > key.secs()
                    invariant
                        pos <= out.len(),
                        forall|k: int|
                            pos <= k < out.len() ==> (#[trigger] task_views(out@)[k]).effective()
                                > key@,
                    decreases pos,
                {
                    pos = pos - 1;
                }
                let ghost before = task_views(out@);
                let entry = self.tasks[i].clone();
                proof {
                    lemma_insert_by_time(before, entry@, pos as int);
                }
                out.insert(pos, entry);
                proof {
                    let rest = on_days(self@.tasks.take(i as int), from as int, to as int);
                    let item = self@.tasks[i as int];
                    assert(self@.tasks.take(i + 1).last() == item);
                    assert(on_days(self@.tasks.take(i + 1), from as int, to as int) == rest.push(
                        item,
                    ));
                    assert(rest.push(item).drop_last() =~= rest);
                    assert(task_views(out@) =~= before.insert(pos as int, item));
                    assert forall|m: int| 0 <= m < out.len() implies self@.tasks.contains(
                        #[trigger] task_views(out@)[m],
                    ) by {
                        if m < pos {
                            assert(task_views(out@)[m] == before[m]);
                        } else if m == pos {
                            assert(self@.tasks[i as int] == item);
                        } else {
                            assert(task_views(out@)[m] == before[m - 1]);
                        }
                    }
                }
            } else {
                proof {
                    assert(self@.tasks.take(i + 1).last() == self@.tasks[i as int]);
                }
            }
            i = i + 1;
        }
        assert(self@.tasks.take(i as int) =~= self@.tasks);
        out
    }
}

} // verus!
