//! The report of a range of days: its task entries in a section per
//! project.

use super::journal::{lemma_total_minutes_grows, msg_total_overflow, total_minutes};
use super::project_label;
use crate::db::{task_views, Database, StoreView};
use crate::error::{AppError, ErrorView};
use crate::models::{TaskEntry, TaskView};
use crate::text::same_text;
use crate::time::Date;
use vstd::prelude::*;

verus! {

/// The task entries of a range of days, by project.
#[derive(Debug)]
pub struct Report {
    pub from: Date,
    pub to: Date,
    pub project_sections: Vec<ProjectSection>,
    pub grand_total: i64,
}

/// The task entries of one project within a report, with their minutes.
#[derive(Debug)]
pub struct ProjectSection {
    pub name: String,
    pub entries: Vec<TaskEntry>,
    pub total: i64,
}

/// A [`ProjectSection`] as plain mathematical values.
pub ghost struct SectionView {
    pub name: Seq<char>,
    pub entries: Seq<TaskView>,
    pub total: int,
}

impl View for ProjectSection {
    type V = SectionView;

    open spec fn view(&self) -> SectionView {
        SectionView { name: self.name@, entries: task_views(self.entries@), total: self.total as int }
    }
}

pub open spec fn section_views(sections: Seq<ProjectSection>) -> Seq<SectionView> {
    sections.map_values(|s: ProjectSection| s@)
}

/// The position of the first section named `label`, or the number of
/// sections where there is none.
pub open spec fn section_index(sections: Seq<SectionView>, label: Seq<char>) -> int
    decreases sections.len(),
{
    if sections.len() == 0 {
        0
    } else if sections[0].name == label {
        0
    } else {
        1 + section_index(sections.skip(1), label)
    }
}

pub proof fn lemma_section_index(sections: Seq<SectionView>, label: Seq<char>, i: int)
    requires
        0 <= i <= sections.len(),
        forall|k: int| 0 <= k < i ==> sections[k].name != label,
        i < sections.len() ==> sections[i].name == label,
    ensures
        section_index(sections, label) == i,
    decreases sections.len(),
{
    if sections.len() > 0 && i > 0 {
        let rest = sections.skip(1);
        assert forall|k: int| 0 <= k < i - 1 implies rest[k].name != label by {
            assert(rest[k] == sections[k + 1]);
        }
        lemma_section_index(rest, label, i - 1);
    }
}

/// `sections` with `task` added under the name `label`: at the end of the
/// section of that name where there is one, else as a new section at the
/// end.
pub open spec fn add_to_sections(sections: Seq<SectionView>, label: Seq<char>, task: TaskView) -> Seq<
    SectionView,
> {
    let i = section_index(sections, label);
    if i < sections.len() {
        sections.update(
            i,
            SectionView {
                name: label,
                entries: sections[i].entries.push(task),
                total: sections[i].total + task.duration_min,
            },
        )
    } else {
        sections.push(SectionView { name: label, entries: seq![task], total: task.duration_min })
    }
}

/// `tasks` by project name: a section for each name, in the order in which
/// `tasks` first shows the names, each with its entries in their order and
/// the sum of their minutes.
pub open spec fn project_sections(store: StoreView, tasks: Seq<TaskView>) -> Seq<SectionView>
    decreases tasks.len(),
{
    if tasks.len() == 0 {
        Seq::empty()
    } else {
        add_to_sections(
            project_sections(store, tasks.drop_last()),
            store.project_label(tasks.last().project_id),
            tasks.last(),
        )
    }
}

/// The first section named `label` is where the search says, and no
/// section before it has the name.
pub proof fn lemma_section_index_found(sections: Seq<SectionView>, label: Seq<char>)
    ensures
        0 <= section_index(sections, label) <= sections.len(),
        section_index(sections, label) < sections.len() ==> sections[section_index(
            sections,
            label,
        )].name == label,
        forall|k: int| 0 <= k < section_index(sections, label) ==> sections[k].name != label,
    decreases sections.len(),
{
    if sections.len() > 0 && sections[0].name != label {
        let rest = sections.skip(1);
        lemma_section_index_found(rest, label);
        let i = section_index(rest, label);
        assert forall|k: int| 0 <= k < i + 1 implies sections[k].name != label by {
            if k > 0 {
                assert(rest[k - 1] == sections[k]);
            }
        }
        if i < rest.len() {
            assert(rest[i] == sections[i + 1]);
        }
    }
}

/// The sum of the minutes of `sections`.
pub open spec fn sections_total(sections: Seq<SectionView>) -> int
    decreases sections.len(),
{
    if sections.len() == 0 {
        0
    } else {
        sections_total(sections.drop_last()) + sections.last().total
    }
}

/// The number of entries in `sections`.
pub open spec fn sections_entries(sections: Seq<SectionView>) -> int
    decreases sections.len(),
{
    if sections.len() == 0 {
        0
    } else {
        sections_entries(sections.drop_last()) + sections.last().entries.len()
    }
}

/// Whether each of `sections` holds at least one entry, entries of its own
/// project name only and the sum of their minutes, and no two of them
/// share a name.
pub open spec fn sections_by_project(store: StoreView, sections: Seq<SectionView>) -> bool {
    &&& forall|i: int|
        0 <= i < sections.len() ==> {
            &&& (#[trigger] sections[i]).total == total_minutes(sections[i].entries)
            &&& sections[i].entries.len() > 0
        }
    &&& forall|i: int, k: int|
        0 <= i < sections.len() && 0 <= k < sections[i].entries.len() ==> store.project_label(
            (#[trigger] sections[i].entries[k]).project_id,
        ) == sections[i].name
    &&& forall|i: int, j: int|
        0 <= i < j < sections.len() ==> (#[trigger] sections[i]).name != (
        #[trigger] sections[j]).name
}

proof fn lemma_sections_total_update(sections: Seq<SectionView>, i: int, section: SectionView)
    requires
        0 <= i < sections.len(),
    ensures
        sections_total(sections.update(i, section)) == sections_total(sections) - sections[i].total
            + section.total,
        sections_entries(sections.update(i, section)) == sections_entries(sections)
            - sections[i].entries.len() + section.entries.len(),
    decreases sections.len(),
{
    let updated = sections.update(i, section);
    if i == sections.len() - 1 {
        assert(updated.drop_last() =~= sections.drop_last());
    } else {
        lemma_sections_total_update(sections.drop_last(), i, section);
        assert(updated.drop_last() =~= sections.drop_last().update(i, section));
    }
}

/// The sections of a report are by project: each holds at least one entry,
/// entries of its own project name only and the sum of their minutes; no
/// two sections share a name; and together they hold as many entries and
/// as many minutes as the entries they were made from.
pub proof fn project_sections_are_by_project(store: StoreView, tasks: Seq<TaskView>)
    ensures
        sections_by_project(store, project_sections(store, tasks)),
        sections_total(project_sections(store, tasks)) == total_minutes(tasks),
        sections_entries(project_sections(store, tasks)) == tasks.len(),
    decreases tasks.len(),
{
    if tasks.len() > 0 {
        let before = project_sections(store, tasks.drop_last());
        let task = tasks.last();
        let label = store.project_label(task.project_id);
        project_sections_are_by_project(store, tasks.drop_last());
        lemma_section_index_found(before, label);
        let i = section_index(before, label);
        let after = project_sections(store, tasks);
        if i < before.len() {
            let grown = SectionView {
                name: label,
                entries: before[i].entries.push(task),
                total: before[i].total + task.duration_min,
            };
            assert(after == before.update(i, grown));
            lemma_sections_total_update(before, i, grown);
            assert(grown.entries.drop_last() =~= before[i].entries);
            assert forall|a: int, k: int|
                0 <= a < after.len() && 0 <= k < after[a].entries.len() implies store.project_label(
                (#[trigger] after[a].entries[k]).project_id,
            ) == after[a].name by {
                if a == i {
                    if k < before[i].entries.len() {
                        assert(after[a].entries[k] == before[i].entries[k]);
                    }
                } else {
                    assert(after[a] == before[a]);
                }
            }
            assert forall|a: int, b: int| 0 <= a < b < after.len() implies (
            #[trigger] after[a]).name != (#[trigger] after[b]).name by {
                assert(before[a].name != before[b].name);
            }
        } else {
            let fresh = SectionView { name: label, entries: seq![task], total: task.duration_min };
            assert(after == before.push(fresh));
            assert(after.drop_last() =~= before);
            assert(fresh.entries.drop_last() =~= Seq::<TaskView>::empty());
            assert(fresh.entries.last() == task);
            assert(total_minutes(Seq::<TaskView>::empty()) == 0);
            assert(total_minutes(fresh.entries) == task.duration_min);
            assert forall|a: int, k: int|
                0 <= a < after.len() && 0 <= k < after[a].entries.len() implies store.project_label(
                (#[trigger] after[a].entries[k]).project_id,
            ) == after[a].name by {
                if a < before.len() {
                    assert(after[a] == before[a]);
                }
            }
            assert forall|a: int, b: int| 0 <= a < b < after.len() implies (
            #[trigger] after[a]).name != (#[trigger] after[b]).name by {
                if b < before.len() {
                    assert(before[a].name != before[b].name);
                }
            }
        }
    }
}

/// The report of the days from `from` to `to`, both included.
///
/// It holds a section for each project name with entries dated in the
/// range, the sections in the order in which the entries, taken in
/// ascending order of their effective time, first show the names; and the
/// minutes of all of them. A range whose end lies before its start holds
/// no day, and its report is empty. Where the minutes of the range exceed
/// `i64` the report is refused with a system condition.
pub fn generate_report(db: &Database, from: Date, to: Date) -> (r: Result<Report, AppError>)
    requires
        db.wf(),
    ensures
        ({
            let tasks = db@.tasks_between(from@, to@);
            if total_minutes(tasks) > i64::MAX {
                r matches Err(e) && e@ == ErrorView::System(msg_total_overflow())
            } else {
                r matches Ok(report) && report.from@ == from@ && report.to@ == to@ && section_views(
                    report.project_sections@,
                ) == project_sections(db@, tasks) && report.grand_total == total_minutes(tasks)
            }
        }),
{
    let tasks = db.list_tasks_for_date_range(from, to);
    let ghost views = task_views(tasks@);
    let mut sections: Vec<ProjectSection> = Vec::new();
    let mut grand_total: i64 = 0;
    let mut k: usize = 0;
    proof {
        assert(section_views(sections@) =~= Seq::empty());
        assert(views.take(0) =~= Seq::empty());
        assert forall|m: int| 0 <= m < views.len() implies (#[trigger] views[m]).duration_min
            > 0 by {
            assert(db@.tasks.contains(views[m]));
        }
    }
    while k < tasks.len()
        invariant
            db.wf(),
            k <= tasks.len(),
            views == task_views(tasks@),
            views == db@.tasks_between(from@, to@),
            0 <= grand_total,
            forall|m: int| 0 <= m < views.len() ==> (#[trigger] views[m]).duration_min > 0,
            section_views(sections@) == project_sections(db@, views.take(k as int)),
            grand_total == total_minutes(views.take(k as int)),
            forall|g: int|
                0 <= g < sections.len() ==> 0 <= (#[trigger] sections@[g]).total <= grand_total,
        decreases tasks.len() - k,
    {
        let minutes: i64 = tasks[k].duration_min;
        proof {
            assert(views.take(k + 1).drop_last() =~= views.take(k as int));
            assert(views.take(k + 1).last() == views[k as int]);
            assert(views[k as int].duration_min == minutes);
            lemma_total_minutes_grows(views, k + 1, views.len() as int);
            assert(views.take(views.len() as int) =~= views);
        }
        if minutes > i64::MAX - grand_total {
            return Err(AppError::system("Total duration exceeds the supported range."));
        }
        grand_total = grand_total + minutes;
        let label = project_label(db, tasks[k].project_id);
        let mut g: usize = 0;
        while g < sections.len() && !same_text(sections[g].name.as_str(), label.as_str())
            invariant
                g <= sections.len(),
                forall|m: int| 0 <= m < g ==> section_views(sections@)[m].name != label@,
            decreases sections.len() - g,
        {
            g = g + 1;
        }
        let ghost before = section_views(sections@);
        let entry = tasks[k].clone();
        proof {
            lemma_section_index(before, label@, g as int);
            assert(entry@ == views[k as int]);
        }
        if g < sections.len() {
            let section = sections.remove(g);
            let ghost old_entries = task_views(section.entries@);
            let mut entries = section.entries;
            entries.push(entry);
            let total: i64 = section.total + minutes;
            proof {
                assert(task_views(entries@) =~= old_entries.push(views[k as int]));
            }
            sections.insert(g, ProjectSection { name: label, entries, total });
            assert(section_views(sections@) =~= before.update(
                g as int,
                SectionView {
                    name: label@,
                    entries: before[g as int].entries.push(views[k as int]),
                    total: before[g as int].total + minutes,
                },
            ));
        } else {
            let mut entries: Vec<TaskEntry> = Vec::new();
            entries.push(entry);
            proof {
                assert(task_views(entries@) =~= seq![views[k as int]]);
            }
            sections.push(ProjectSection { name: label, entries, total: minutes });
            assert(section_views(sections@) =~= before.push(
                SectionView {
                    name: label@,
                    entries: seq![views[k as int]],
                    total: minutes as int,
                },
            ));
        }
        k = k + 1;
    }
    proof {
        assert(views.take(k as int) =~= views);
    }
    Ok(Report { from, to, project_sections: sections, grand_total })
}

} // verus!
