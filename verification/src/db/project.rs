use super::{
    count_of_project, lemma_count_bounded, lemma_task_id_above_index, project_view,
    project_views, task_views, without_project, Database, StoreView,
};
use crate::error::{AppError, ErrorView};
use crate::models::{Project, ProjectView, TaskEntry};
use crate::text::{
    lemma_text_less_total, lemma_text_less_transitive, same_text, text_before, text_less,
};
use crate::time::Timestamp;
use vstd::prelude::*;

verus! {

/// The store's refusal of a second project of the same name.
pub open spec fn msg_name_taken() -> Seq<char> {
    "Database error: UNIQUE constraint failed: project.name"@
}

/// The store's refusal of a new row when no id is left.
pub open spec fn msg_full() -> Seq<char> {
    "Database error: database or disk is full"@
}

/// Whether `listed` lists the projects of `store` in the order of their
/// names: it holds each project of the store and nothing else, and each
/// name comes before the next in the order of the dictionary.
pub open spec fn is_project_listing(store: StoreView, listed: Seq<ProjectView>) -> bool {
    &&& listed.len() == store.projects.len()
    &&& forall|i: int, j: int|
        0 <= i < j < listed.len() ==> text_less(
            (#[trigger] listed[i]).name,
            (#[trigger] listed[j]).name,
        )
    &&& forall|p: ProjectView| listed.contains(p) <==> store.projects.contains(p)
}

impl Database {
    /// Whether a project has the id `id`.
    pub fn project_exists(&self, id: i64) -> (r: bool)
        ensures
            r == self@.has_project(id as int),
    {
        let mut i: usize = 0;
        while i < self.projects.len()
            invariant
                i <= self.projects.len(),
                forall|k: int| 0 <= k < i ==> (#[trigger] self@.projects[k]).id != id,
            decreases self.projects.len() - i,
        {
            if self.projects[i].id == id {
                assert(self@.projects[i as int].id == id);
                return true;
            }
            i = i + 1;
        }
        false
    }

    /// The position of the project `id`, if the store holds it.
    fn project_position(&self, id: i64) -> (r: Option<usize>)
        requires
            self.wf(),
        ensures
            match r {
                Some(i) => i < self.projects.len() && self@.has_project(id as int) && i
                    == self@.project_index(id as int) && self@.projects[i as int].id == id,
                None => !self@.has_project(id as int),
            },
    {
        let mut i: usize = 0;
        while i < self.projects.len()
            invariant
                self.wf(),
                i <= self.projects.len(),
                forall|k: int| 0 <= k < i ==> (#[trigger] self@.projects[k]).id != id,
            decreases self.projects.len() - i,
        {
            if self.projects[i].id == id {
                proof {
                    self@.lemma_project_index(i as int);
                }
                return Some(i);
            }
            i = i + 1;
        }
        None
    }

    /// The position of the project named `name`, if the store holds one.
    fn name_position(&self, name: &str) -> (r: Option<usize>)
        requires
            self.wf(),
        ensures
            match r {
                Some(i) => i < self.projects.len() && self@.projects[i as int].name == name@
                    && forall|k: int|
                    0 <= k < self.projects.len() && (#[trigger] self@.projects[k]).name == name@
                        ==> k == i,
                None => !self@.has_name(name@),
            },
    {
        let mut i: usize = 0;
        while i < self.projects.len()
            invariant
                self.wf(),
                i <= self.projects.len(),
                forall|k: int| 0 <= k < i ==> (#[trigger] self@.projects[k]).name != name@,
            decreases self.projects.len() - i,
        {
            if same_text(self.projects[i].name.as_str(), name) {
                proof {
                    assert forall|k: int|
                        0 <= k < self.projects.len() && (#[trigger] self@.projects[k]).name
                            == name@ implies k == i by {
                        if k < i {
                        } else if i < k {
                            assert(self@.projects[i as int].name != self@.projects[k].name);
                        }
                    }
                }
                return Some(i);
            }
            i = i + 1;
        }
        None
    }

    /// The project with the id `id`, if there is one.
    pub fn find_project_by_id(&self, id: i64) -> (r: Option<Project>)
        requires
            self.wf(),
        ensures
            project_view(r) == self@.project_by_id(id as int),
    {
        match self.project_position(id) {
            Some(i) => {
                proof {
                    self@.lemma_project_by_id(i as int);
                }
                Some(self.projects[i].clone())
            },
            None => None,
        }
    }

    /// The project named exactly `name`, if there is one.
    pub fn find_project_by_name(&self, name: &str) -> (r: Option<Project>)
        requires
            self.wf(),
        ensures
            project_view(r) == self@.project_by_name(name@),
    {
        match self.name_position(name) {
            Some(i) => {
                proof {
                    self@.lemma_project_by_name(i as int);
                }
                Some(self.projects[i].clone())
            },
            None => None,
        }
    }

    /// Adds a project named `name`, created at `now`, under the next id.
    ///
    /// Refused with a system condition, the store unchanged, where the name
    /// is taken or no id is left.
    pub fn insert_project(&mut self, name: &str, now: Timestamp) -> (r: Result<Project, AppError>)
        requires
            old(self).wf(),
        ensures
            final(self).wf(),
            old(self)@.has_name(name@) ==> final(self)@ == old(self)@ && (r matches Err(e) && e@
                == ErrorView::System(msg_name_taken())),
            !old(self)@.has_name(name@) && old(self)@.next_project_id == i64::MAX ==> final(self)@
                == old(self)@ && (r matches Err(e) && e@ == ErrorView::System(msg_full())),
            !old(self)@.has_name(name@) && old(self)@.next_project_id < i64::MAX ==> (r matches Ok(
                p,
            ) && p@ == (ProjectView {
                id: old(self)@.next_project_id,
                name: name@,
                created_at: now@,
                updated_at: now@,
            }) && final(self)@ == (StoreView {
                projects: old(self)@.projects.push(p@),
                next_project_id: old(self)@.next_project_id + 1,
                ..old(self)@
            })),
    {
        if self.find_project_by_name(name).is_some() {
            return Err(AppError::system("Database error: UNIQUE constraint failed: project.name"));
        }
        if self.next_project_id == i64::MAX {
            return Err(AppError::system("Database error: database or disk is full"));
        }
        let id: i64 = self.next_project_id;
        let project = Project { id, name: name.to_owned(), created_at: now, updated_at: now };
        let result = project.clone();
        self.projects.push(project);
        self.next_project_id = id + 1;
        proof {
            assert(final(self)@.projects =~= old(self)@.projects.push(result@));
            assert(final(self)@.tasks =~= old(self)@.tasks);
            assert forall|i: int| 0 <= i < final(self)@.tasks.len() implies final(self)@.has_project(
                (#[trigger] final(self)@.tasks[i]).project_id,
            ) by {
                let pid = old(self)@.tasks[i].project_id;
                let k = choose|k: int|
                    0 <= k < old(self)@.projects.len() && (#[trigger] old(self)@.projects[k]).id
                        == pid;
                assert(final(self)@.projects[k].id == pid);
            }
            if old(self)@.clock is Some {
                let pid = old(self)@.clock.unwrap().project_id;
                let k = choose|k: int|
                    0 <= k < old(self)@.projects.len() && (#[trigger] old(self)@.projects[k]).id
                        == pid;
                assert(final(self)@.projects[k].id == pid);
            }
        }
        Ok(result)
    }

    /// All projects in the order of their names.
    pub fn list_projects(&self) -> (r: Vec<Project>)
        requires
            self.wf(),
        ensures
            is_project_listing(self@, project_views(r@)),
    {
        let mut out: Vec<Project> = Vec::new();
        let mut i: usize = 0;
        while i < self.projects.len()
            invariant
                self.wf(),
                i <= self.projects.len(),
                out.len() == i,
                forall|a: int, b: int|
                    0 <= a < b < out.len() ==> text_less(
                        (#[trigger] project_views(out@)[a]).name,
                        (#[trigger] project_views(out@)[b]).name,
                    ),
                forall|m: int|
                    0 <= m < out.len() ==> self@.projects.take(i as int).contains(
                        #[trigger] project_views(out@)[m],
                    ),
                forall|k: int|
                    0 <= k < i ==> project_views(out@).contains(#[trigger] self@.projects[k]),
            decreases self.projects.len() - i,
        {
            let item = self.projects[i].clone();
            let mut pos: usize = out.len();
            while pos > 0 && !text_before(out[pos - 1].name.as_str(), item.name.as_str())
                invariant
                    pos <= out.len(),
                    forall|k: int|
                        pos <= k < out.len() ==> !text_less(
                            (#[trigger] project_views(out@)[k]).name,
                            item@.name,
                        ),
                decreases pos,
            {
                pos = pos - 1;
            }
            let ghost before = project_views(out@);
            let ghost x = item@;
            out.insert(pos, item);
            proof {
                let after = project_views(out@);
                assert(after =~= before.insert(pos as int, x));
                assert(x == self@.projects[i as int]);
                let done = self@.projects.take(i as int);
                let next = self@.projects.take(i + 1);
                assert forall|k: int| pos <= k < before.len() implies text_less(
                    x.name,
                    (#[trigger] before[k]).name,
                ) by {
                    assert(done.contains(before[k]));
                    let w = choose|w: int| 0 <= w < done.len() && done[w] == before[k];
                    assert(self@.projects[w].name != self@.projects[i as int].name);
                    lemma_text_less_total(before[k].name, x.name);
                }
                assert forall|k: int| 0 <= k < pos implies text_less(
                    (#[trigger] before[k]).name,
                    x.name,
                ) by {
                    if k < pos - 1 {
                        lemma_text_less_transitive(before[k].name, before[pos - 1].name, x.name);
                    }
                }
                assert forall|a: int, b: int| 0 <= a < b < after.len() implies text_less(
                    (#[trigger] after[a]).name,
                    (#[trigger] after[b]).name,
                ) by {
                    if a < pos && b > pos {
                        assert(after[b] == before[b - 1]);
                        lemma_text_less_transitive(after[a].name, x.name, after[b].name);
                    } else if a < pos && b == pos {
                    } else if a < pos && b < pos {
                    } else if a == pos {
                        assert(after[b] == before[b - 1]);
                    } else {
                        assert(after[a] == before[a - 1]);
                        assert(after[b] == before[b - 1]);
                    }
                }
                assert forall|m: int| 0 <= m < after.len() implies next.contains(
                    #[trigger] after[m],
                ) by {
                    if m == pos {
                        assert(next[i as int] == after[m]);
                    } else {
                        let old_m = if m < pos {
                            m
                        } else {
                            m - 1
                        };
                        assert(done.contains(before[old_m]));
                        let w = choose|w: int| 0 <= w < done.len() && done[w] == before[old_m];
                        assert(next[w] == after[m]);
                    }
                }
                assert forall|k: int| 0 <= k < i + 1 implies after.contains(
                    #[trigger] self@.projects[k],
                ) by {
                    if k < i {
                        assert(before.contains(self@.projects[k]));
                        let w = choose|w: int|
                            0 <= w < before.len() && before[w] == self@.projects[k];
                        if w < pos {
                            assert(after[w] == self@.projects[k]);
                        } else {
                            assert(after[w + 1] == self@.projects[k]);
                        }
                    } else {
                        assert(after[pos as int] == self@.projects[k]);
                    }
                }
            }
            i = i + 1;
        }
        proof {
            let views = project_views(out@);
            assert(self@.projects.take(i as int) =~= self@.projects);
            assert forall|p: ProjectView| views.contains(p) <==> self@.projects.contains(p) by {
                if views.contains(p) {
                    let m = choose|m: int| 0 <= m < views.len() && views[m] == p;
                    assert(self@.projects.contains(views[m]));
                }
                if self@.projects.contains(p) {
                    let k = choose|k: int| 0 <= k < self@.projects.len() && self@.projects[k] == p;
                    assert(views.contains(self@.projects[k]));
                }
            }
        }
        out
    }

    /// Renames the project `id` to `new_name` and marks it updated at `now`.
    ///
    /// Gives `false`, the store unchanged, where no project has the id.
    /// Refused with a system condition, the store unchanged, where another
    /// project has the name.
    pub fn update_project_name(&mut self, id: i64, new_name: &str, now: Timestamp) -> (r: Result<
        bool,
        AppError,
    >)
        requires
            old(self).wf(),
        ensures
            final(self).wf(),
            !old(self)@.has_project(id as int) ==> final(self)@ == old(self)@ && r == Ok::<
                bool,
                AppError,
            >(false),
            old(self)@.has_project(id as int) && old(self)@.name_taken_by_other(
                new_name@,
                id as int,
            ) ==> final(self)@ == old(self)@ && (r matches Err(e) && e@ == ErrorView::System(
                msg_name_taken(),
            )),
            old(self)@.has_project(id as int) && !old(self)@.name_taken_by_other(
                new_name@,
                id as int,
            ) ==> r == Ok::<bool, AppError>(true) && final(self)@ == (StoreView {
                projects: old(self)@.projects.update(
                    old(self)@.project_index(id as int),
                    ProjectView {
                        name: new_name@,
                        updated_at: now@,
                        ..old(self)@.projects[old(self)@.project_index(id as int)]
                    },
                ),
                ..old(self)@
            }),
    {
        let f: usize = match self.project_position(id) {
            None => {
                return Ok(false);
            },
            Some(f) => f,
        };
        if let Some(other) = self.name_position(new_name) {
            if other != f {
                proof {
                    self@.lemma_project_index(other as int);
                }
                return Err(
                    AppError::system("Database error: UNIQUE constraint failed: project.name"),
                );
            }
        }
        let renamed = Project {
            id: self.projects[f].id,
            name: new_name.to_owned(),
            created_at: self.projects[f].created_at,
            updated_at: now,
        };
        let ghost renamed_view = renamed@;
        self.projects.set(f, renamed);
        proof {
            assert(final(self)@.projects =~= old(self)@.projects.update(f as int, renamed_view));
            assert(final(self)@.tasks =~= old(self)@.tasks);
            assert forall|a: int, b: int| 0 <= a < b < final(self)@.projects.len() implies (
            #[trigger] final(self)@.projects[a]).name != (
            #[trigger] final(self)@.projects[b]).name by {
                assert(old(self)@.projects[a].name != old(self)@.projects[b].name);
            }
            assert forall|a: int| 0 <= a < final(self)@.tasks.len() implies final(self)@.has_project((#[trigger] final(self)@.tasks[a]).project_id) by {
                let pid = old(self)@.tasks[a].project_id;
                let k = old(self)@.project_index(pid);
                assert(final(self)@.projects[k].id == pid);
            }
            if old(self)@.clock is Some {
                let pid = old(self)@.clock.unwrap().project_id;
                let k = old(self)@.project_index(pid);
                assert(final(self)@.projects[k].id == pid);
            }
        }
        Ok(true)
    }

    /// The number of task entries of the project `project_id`.
    pub fn count_tasks_for_project(&self, project_id: i64) -> (r: i64)
        requires
            self.wf(),
        ensures
            r == self@.count_tasks(project_id as int),
    {
        let mut count: i64 = 0;
        let mut i: usize = 0;
        while i < self.tasks.len()
            invariant
                self.wf(),
                i <= self.tasks.len(),
                count == count_of_project(self@.tasks.take(i as int), project_id as int),
            decreases self.tasks.len() - i,
        {
            proof {
                assert(self@.tasks.take(i + 1).drop_last() =~= self@.tasks.take(i as int));
                lemma_count_bounded(self@.tasks.take(i + 1), project_id as int);
                lemma_task_id_above_index(self@.tasks, i as int);
            }
            if self.tasks[i].project_id == project_id {
                count = count + 1;
            }
            i = i + 1;
        }
        assert(self@.tasks.take(i as int) =~= self@.tasks);
        count
    }

    /// Removes the project `id` together with its task entries.
    ///
    /// Gives `false`, the store unchanged, where no project has the id.
    /// Refused with a system condition, the store unchanged, where the
    /// running clock belongs to the project.
    pub fn delete_project(&mut self, id: i64) -> (r: Result<bool, AppError>)
        requires
            old(self).wf(),
        ensures
            final(self).wf(),
            !old(self)@.has_project(id as int) ==> final(self)@ == old(self)@ && r == Ok::<
                bool,
                AppError,
            >(false),
            old(self)@.has_project(id as int) && (old(self)@.clock matches Some(c) && c.project_id
                == id) ==> final(self)@ == old(self)@ && (r matches Err(e) && e@
                == ErrorView::System(super::clock_state::msg_foreign_key())),
            old(self)@.has_project(id as int) && !(old(self)@.clock matches Some(c) && c.project_id
                == id) ==> r == Ok::<bool, AppError>(true) && final(self)@ == (StoreView {
                projects: old(self)@.projects.remove(old(self)@.project_index(id as int)),
                tasks: without_project(old(self)@.tasks, id as int),
                ..old(self)@
            }),
    {
        let f: usize = match self.project_position(id) {
            None => {
                return Ok(false);
            },
            Some(f) => f,
        };
        let blocked = match &self.clock {
            Some(c) => c.project_id == id,
            None => false,
        };
        if blocked {
            return Err(AppError::system("Database error: FOREIGN KEY constraint failed"));
        }
        let mut kept: Vec<TaskEntry> = Vec::new();
        let mut k: usize = 0;
        while k < self.tasks.len()
            invariant
                self.wf(),
                *self == *old(self),
                k <= self.tasks.len(),
                task_views(kept@) == without_project(self@.tasks.take(k as int), id as int),
                forall|a: int, b: int|
                    0 <= a < b < kept.len() ==> (#[trigger] kept@[a]).id < (#[trigger] kept@[b]).id,
                forall|a: int|
                    0 <= a < kept.len() ==> {
                        &&& 1 <= (#[trigger] kept@[a]).id < self@.next_task_id
                        &&& kept@[a].duration_min > 0
                        &&& kept@[a].project_id != id
                        &&& self@.has_project(kept@[a].project_id as int)
                        &&& forall|b: int|
                            k <= b < self.tasks.len() ==> kept@[a].id < (
                            #[trigger] self@.tasks[b]).id
                    },
            decreases self.tasks.len() - k,
        {
            proof {
                assert(self@.tasks.take(k + 1).drop_last() =~= self@.tasks.take(k as int));
            }
            if self.tasks[k].project_id != id {
                let ghost before = kept@;
                kept.push(self.tasks[k].clone());
                proof {
                    assert(task_views(kept@) =~= task_views(before).push(self@.tasks[k as int]));
                    assert(self@.tasks[k as int] == self.tasks@[k as int]@);
                    assert forall|a: int| 0 <= a < kept.len() implies (forall|b: int|
                        k + 1 <= b < self.tasks.len() ==> (#[trigger] kept@[a]).id < (
                        #[trigger] self@.tasks[b]).id) by {
                        assert forall|b: int| k + 1 <= b < self.tasks.len() implies kept@[a].id < (
                        #[trigger] self@.tasks[b]).id by {
                            if a < before.len() {
                            } else {
                                assert(self@.tasks[k as int].id < self@.tasks[b].id);
                            }
                        }
                    }
                }
            }
            k = k + 1;
        }
        proof {
            assert(self@.tasks.take(k as int) =~= self@.tasks);
        }
        self.tasks = kept;
        self.projects.remove(f);
        proof {
            assert(final(self)@.projects =~= old(self)@.projects.remove(f as int));
            assert forall|a: int|
                        0 <= a < final(self)@.tasks.len() implies final(self)@.has_project(
                        (#[trigger] final(self)@.tasks[a]).project_id,
                    ) by {
                let pid = final(self)@.tasks[a].project_id;
                assert(pid == kept@[a].project_id);
                let j = old(self)@.project_index(pid);
                assert(old(self)@.projects[j].id == pid);
                if j < f {
                    assert(final(self)@.projects[j].id == pid);
                } else {
                    assert(final(self)@.projects[j - 1].id == pid);
                }
            }
            if old(self)@.clock is Some {
                let pid = old(self)@.clock.unwrap().project_id;
                let j = old(self)@.project_index(pid);
                assert(old(self)@.projects[j].id == pid);
                if j < f {
                    assert(final(self)@.projects[j].id == pid);
                } else {
                    assert(final(self)@.projects[j - 1].id == pid);
                }
            }
        }
        Ok(true)
    }
}

} // verus!
