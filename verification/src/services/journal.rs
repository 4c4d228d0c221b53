//! The journal of one day: its task entries and the minutes per project.

use super::project_label;
use crate::db::{task_views, Database, StoreView};
use crate::error::{AppError, ErrorView};
use crate::models::{TaskEntry, TaskView};
use crate::text::same_text;
use crate::time::Date;
use vstd::prelude::*;

verus! {

/// The task entries of one day, with the minutes of each project and of
/// the day.
#[derive(Debug)]
pub struct DailyJournal {
    pub date: Date,
    pub tasks: Vec<TaskEntry>,
    pub project_totals: Vec<(String, i64)>,
    pub grand_total: i64,
}

pub open spec fn msg_total_overflow() -> Seq<char> {
    "Total duration exceeds the supported range."@
}

/// The sum of the minutes of `tasks`.
pub open spec fn total_minutes(tasks: Seq<TaskView>) -> int
    decreases tasks.len(),
{
    if tasks.len() == 0 {
        0
    } else {
        total_minutes(tasks.drop_last()) + tasks.last().duration_min
    }
}

/// The position of the first total under the name `label`, or the number
/// of totals where there is none.
pub open spec fn label_index(totals: Seq<(Seq<char>, int)>, label: Seq<char>) -> int
    decreases totals.len(),
{
    if totals.len() == 0 {
        0
    } else if totals[0].0 == label {
        0
    } else {
        1 + label_index(totals.skip(1), label)
    }
}

pub proof fn lemma_label_index(totals: Seq<(Seq<char>, int)>, label: Seq<char>, i: int)
    requires
        0 <= i <= totals.len(),
        forall|k: int| 0 <= k < i ==> totals[k].0 != label,
        i < totals.len() ==> totals[i].0 == label,
    ensures
        label_index(totals, label) == i,
    decreases totals.len(),
{
    if totals.len() > 0 && i > 0 {
        let rest = totals.skip(1);
        assert forall|k: int| 0 <= k < i - 1 implies rest[k].0 != label by {
            assert(rest[k] == totals[k + 1]);
        }
        lemma_label_index(rest, label, i - 1);
    }
}

/// `totals` with `minutes` added under the name `label`: to the total of
/// that name where there is one, else as a new total at the end.
pub open spec fn add_to_totals(totals: Seq<(Seq<char>, int)>, label: Seq<char>, minutes: int) -> Seq<
    (Seq<char>, int),
> {
    let i = label_index(totals, label);
    if i < totals.len() {
        totals.update(i, (label, totals[i].1 + minutes))
    } else {
        totals.push((label, minutes))
    }
}

/// The minutes of `tasks` per project name, the names in the order in
/// which `tasks` first shows them.
pub open spec fn project_totals(store: StoreView, tasks: Seq<TaskView>) -> Seq<(Seq<char>, int)>
    decreases tasks.len(),
{
    if tasks.len() == 0 {
        Seq::empty()
    } else {
        add_to_totals(
            project_totals(store, tasks.drop_last()),
            store.project_label(tasks.last().project_id),
            tasks.last().duration_min,
        )
    }
}

/// The first total under the name `label` is where the search says, and
/// no total before it has the name.
pub proof fn lemma_label_index_found(totals: Seq<(Seq<char>, int)>, label: Seq<char>)
    ensures
        0 <= label_index(totals, label) <= totals.len(),
        label_index(totals, label) < totals.len() ==> totals[label_index(totals, label)].0
            == label,
        forall|k: int| 0 <= k < label_index(totals, label) ==> totals[k].0 != label,
    decreases totals.len(),
{
    if totals.len() > 0 && totals[0].0 != label {
        let rest = totals.skip(1);
        lemma_label_index_found(rest, label);
        let i = label_index(rest, label);
        assert forall|k: int| 0 <= k < i + 1 implies totals[k].0 != label by {
            if k > 0 {
                assert(rest[k - 1] == totals[k]);
            }
        }
        if i < rest.len() {
            assert(rest[i] == totals[i + 1]);
        }
    }
}

/// The sum of `totals`.
pub open spec fn totals_sum(totals: Seq<(Seq<char>, int)>) -> int
    decreases totals.len(),
{
    if totals.len() == 0 {
        0
    } else {
        totals_sum(totals.drop_last()) + totals.last().1
    }
}

/// The minutes of the entries of `tasks` whose project is named `label`.
pub open spec fn minutes_under(store: StoreView, tasks: Seq<TaskView>, label: Seq<char>) -> int
    decreases tasks.len(),
{
    if tasks.len() == 0 {
        0
    } else {
        minutes_under(store, tasks.drop_last(), label) + if store.project_label(
            tasks.last().project_id,
        ) == label {
            tasks.last().duration_min
        } else {
            0
        }
    }
}

/// Whether an entry of `tasks` has a project named `label`.
pub open spec fn shows_label(store: StoreView, tasks: Seq<TaskView>, label: Seq<char>) -> bool {
    exists|k: int|
        0 <= k < tasks.len() && store.project_label((#[trigger] tasks[k]).project_id) == label
}

proof fn lemma_totals_sum_update(totals: Seq<(Seq<char>, int)>, i: int, total: (Seq<char>, int))
    requires
        0 <= i < totals.len(),
    ensures
        totals_sum(totals.update(i, total)) == totals_sum(totals) - totals[i].1 + total.1,
    decreases totals.len(),
{
    let updated = totals.update(i, total);
    if i == totals.len() - 1 {
        assert(updated.drop_last() =~= totals.drop_last());
    } else {
        lemma_totals_sum_update(totals.drop_last(), i, total);
        assert(updated.drop_last() =~= totals.drop_last().update(i, total));
    }
}

/// The totals of a journal are by project: no two of them share a name,
/// each name is that of the project of some entry, each total is the sum
/// of the minutes of the entries under its name, and together they amount
/// to the minutes of all entries.
pub proof fn project_totals_are_by_project(store: StoreView, tasks: Seq<TaskView>)
    ensures
        ({
            let totals = project_totals(store, tasks);
            &&& forall|i: int, j: int|
                0 <= i < j < totals.len() ==> (#[trigger] totals[i]).0 != (#[trigger] totals[j]).0
            &&& forall|i: int|
                0 <= i < totals.len() ==> {
                    &&& shows_label(store, tasks, (#[trigger] totals[i]).0)
                    &&& totals[i].1 == minutes_under(store, tasks, totals[i].0)
                }
            &&& forall|k: int|
                0 <= k < tasks.len() ==> label_index(
                    totals,
                    store.project_label((#[trigger] tasks[k]).project_id),
                ) < totals.len()
            &&& totals_sum(totals) == total_minutes(tasks)
        }),
    decreases tasks.len(),
{
    if tasks.len() > 0 {
        let rest = tasks.drop_last();
        let before = project_totals(store, rest);
        let task = tasks.last();
        let label = store.project_label(task.project_id);
        project_totals_are_by_project(store, rest);
        lemma_label_index_found(before, label);
        let i = label_index(before, label);
        let after = project_totals(store, tasks);
        assert(tasks[tasks.len() - 1] == task);
        if i < before.len() {
            assert(after == before.update(i, (label, before[i].1 + task.duration_min)));
            lemma_totals_sum_update(before, i, (label, before[i].1 + task.duration_min));
            assert forall|a: int, b: int| 0 <= a < b < after.len() implies (
            #[trigger] after[a]).0 != (#[trigger] after[b]).0 by {
                assert(before[a].0 != before[b].0);
            }
        } else {
            assert(after == before.push((label, task.duration_min)));
            assert(after.drop_last() =~= before);
            assert forall|a: int, b: int| 0 <= a < b < after.len() implies (
            #[trigger] after[a]).0 != (#[trigger] after[b]).0 by {
                if b < before.len() {
                    assert(before[a].0 != before[b].0);
                }
            }
        }
        assert forall|a: int| 0 <= a < after.len() implies {
            &&& shows_label(store, tasks, (#[trigger] after[a]).0)
            &&& after[a].1 == minutes_under(store, tasks, after[a].0)
        } by {
            if a < before.len() {
                assert(after[a].0 == before[a].0);
                assert(shows_label(store, rest, before[a].0));
                let k = choose|k: int|
                    0 <= k < rest.len() && store.project_label((#[trigger] rest[k]).project_id)
                        == before[a].0;
                assert(tasks[k] == rest[k]);
            } else {
                lemma_minutes_under_absent(store, rest, label, before);
            }
        }
        assert forall|k: int| 0 <= k < tasks.len() implies label_index(
            after,
            store.project_label((#[trigger] tasks[k]).project_id),
        ) < after.len() by {
            let name = store.project_label(tasks[k].project_id);
            if k < rest.len() {
                assert(rest[k] == tasks[k]);
                lemma_label_index_found(before, name);
                let w = label_index(before, name);
                assert(after[w].0 == name);
            } else {
                let w = if i < before.len() {
                    i
                } else {
                    before.len() as int
                };
                assert(after[w].0 == name);
            }
            lemma_label_index_found(after, name);
        }
    }
}

/// A name that no total carries has no minutes under it.
proof fn lemma_minutes_under_absent(
    store: StoreView,
    tasks: Seq<TaskView>,
    label: Seq<char>,
    totals: Seq<(Seq<char>, int)>,
)
    requires
        totals == project_totals(store, tasks),
        label_index(totals, label) == totals.len(),
        forall|k: int|
            0 <= k < tasks.len() ==> label_index(
                totals,
                store.project_label((#[trigger] tasks[k]).project_id),
            ) < totals.len(),
    ensures
        minutes_under(store, tasks, label) == 0,
{
    assert forall|k: int| 0 <= k < tasks.len() implies store.project_label(
        (#[trigger] tasks[k]).project_id,
    ) != label by {}
    lemma_minutes_under_none(store, tasks, label);
}

proof fn lemma_minutes_under_none(store: StoreView, tasks: Seq<TaskView>, label: Seq<char>)
    requires
        forall|k: int|
            0 <= k < tasks.len() ==> store.project_label((#[trigger] tasks[k]).project_id) != label,
    ensures
        minutes_under(store, tasks, label) == 0,
    decreases tasks.len(),
{
    if tasks.len() > 0 {
        let rest = tasks.drop_last();
        assert forall|k: int| 0 <= k < rest.len() implies store.project_label(
            (#[trigger] rest[k]).project_id,
        ) != label by {
            assert(rest[k] == tasks[k]);
        }
        lemma_minutes_under_none(store, rest, label);
        assert(tasks[tasks.len() - 1] == tasks.last());
    }
}

pub open spec fn totals_view(totals: Seq<(String, i64)>) -> Seq<(Seq<char>, int)> {
    totals.map_values(|p: (String, i64)| (p.0@, p.1 as int))
}

/// The journal of the day `date`.
///
/// It holds the entries dated on that day in ascending order of their
/// effective time, the minutes per project name in the order in which the
/// entries first show the names, and the minutes of the day. Where the
/// minutes of the day exceed `i64` the journal is refused with a system
/// condition.
pub fn get_daily_journal(db: &Database, date: Date) -> (r: Result<DailyJournal, AppError>)
    requires
        db.wf(),
    ensures
        ({
            let tasks = db@.tasks_between(date@, date@);
            if total_minutes(tasks) > i64::MAX {
                r matches Err(e) && e@ == ErrorView::System(msg_total_overflow())
            } else {
                r matches Ok(j) && j.date@ == date@ && task_views(j.tasks@) == tasks && totals_view(
                    j.project_totals@,
                ) == project_totals(db@, tasks) && j.grand_total == total_minutes(tasks)
            }
        }),
{
    let tasks = db.list_tasks_for_date(date);
    let ghost views = task_views(tasks@);
    let mut project_totals: Vec<(String, i64)> = Vec::new();
    let mut grand_total: i64 = 0;
    let mut k: usize = 0;
    proof {
        assert(totals_view(project_totals@) =~= Seq::empty());
        assert(views.take(0) =~= Seq::empty());
        assert forall|m: int| 0 <= m < views.len() implies (#[trigger] views[m]).duration_min
            > 0 by {
            assert(db@.tasks.contains(views[m]));
        }
    }
    while k < tasks.len()
        invariant
            db.wf(),
            k <= tasks.len(),
            views == task_views(tasks@),
            views == db@.tasks_between(date@, date@),
            0 <= grand_total,
            forall|m: int| 0 <= m < views.len() ==> (#[trigger] views[m]).duration_min > 0,
            totals_view(project_totals@) == crate::services::journal::project_totals(
                db@,
                views.take(k as int),
            ),
            grand_total == total_minutes(views.take(k as int)),
            forall|g: int|
                0 <= g < project_totals.len() ==> 0 <= (#[trigger] project_totals@[g]).1
                    <= grand_total,
        decreases tasks.len() - k,
    {
        let minutes: i64 = tasks[k].duration_min;
        proof {
            assert(views.take(k + 1).drop_last() =~= views.take(k as int));
            assert(views.take(k + 1).last() == views[k as int]);
            assert(views[k as int].duration_min == minutes);
            lemma_total_minutes_grows(views, k + 1, views.len() as int);
            assert(views.take(views.len() as int) =~= views);
        }
        if minutes > i64::MAX - grand_total {
            return Err(AppError::system("Total duration exceeds the supported range."));
        }
        grand_total = grand_total + minutes;
        let label = project_label(db, tasks[k].project_id);
        let mut g: usize = 0;
        while g < project_totals.len() && !same_text(project_totals[g].0.as_str(), label.as_str())
            invariant
                g <= project_totals.len(),
                forall|m: int| 0 <= m < g ==> totals_view(project_totals@)[m].0 != label@,
            decreases project_totals.len() - g,
        {
            g = g + 1;
        }
        let ghost before = totals_view(project_totals@);
        proof {
            lemma_label_index(before, label@, g as int);
        }
        if g < project_totals.len() {
            let sum: i64 = project_totals[g].1 + minutes;
            project_totals.set(g, (label, sum));
            assert(totals_view(project_totals@) =~= before.update(
                g as int,
                (label@, before[g as int].1 + minutes),
            ));
        } else {
            project_totals.push((label, minutes));
            assert(totals_view(project_totals@) =~= before.push((label@, minutes as int)));
        }
        k = k + 1;
    }
    proof {
        assert(views.take(k as int) =~= views);
    }
    Ok(DailyJournal { date, tasks, project_totals, grand_total })
}

/// With no negative minutes the sum over a longer prefix is no smaller.
pub proof fn lemma_total_minutes_grows(tasks: Seq<TaskView>, i: int, j: int)
    requires
        0 <= i <= j <= tasks.len(),
        forall|m: int| 0 <= m < tasks.len() ==> (#[trigger] tasks[m]).duration_min > 0,
    ensures
        total_minutes(tasks.take(i)) <= total_minutes(tasks.take(j)),
    decreases j - i,
{
    if i < j {
        lemma_total_minutes_grows(tasks, i, j - 1);
        assert(tasks.take(j).drop_last() =~= tasks.take(j - 1));
        assert(tasks.take(j).last() == tasks[j - 1]);
    }
}

} // verus!
