//! The journal command: the task entries of one day and their totals.

use crate::db::{task_views, Database, StoreView};
use crate::error::{AppError, ErrorView};
use crate::formatting::table::{
    push_header, push_rule, push_task_row, rule, table_header, task_row,
};
use crate::formatting::{parse_date, parse_date_spec, push_totals_line, totals_line};
use crate::models::{TaskEntry, TaskView};
use crate::services::journal::{
    get_daily_journal, msg_total_overflow, project_totals, total_minutes, totals_view,
};
use crate::services::project_label;
use crate::time::{datetime_text, Date};
use vstd::prelude::*;

verus! {

pub open spec fn no_tasks_text(date: Seq<char>) -> Seq<char> {
    "No tasks logged for "@ + date + ".\n"@
}

/// The rows of `tasks`, each under the name of its project in `store` and
/// each closed by a line break.
pub open spec fn journal_rows(store: StoreView, tasks: Seq<TaskView>) -> Seq<char>
    decreases tasks.len(),
{
    if tasks.len() == 0 {
        Seq::empty()
    } else {
        journal_rows(store, tasks.drop_last()) + task_row(
            tasks.last(),
            store.project_label(tasks.last().project_id),
        ) + "\n"@
    }
}

/// The lines of `totals`, each closed by a line break.
pub open spec fn totals_block(totals: Seq<(Seq<char>, int)>) -> Seq<char>
    decreases totals.len(),
{
    if totals.len() == 0 {
        Seq::empty()
    } else {
        totals_block(totals.drop_last()) + totals_line(totals.last().0, totals.last().1) + "\n"@
    }
}

/// The journal of a day that has entries: the title with the date, the
/// table of the entries, and the totals per project and of the day.
pub open spec fn journal_text(store: StoreView, tasks: Seq<TaskView>, date: Seq<char>) -> Seq<
    char,
> {
    "Journal for "@ + date + ":\n\n"@ + table_header() + "\n"@ + rule(75) + "\n"@ + journal_rows(
        store,
        tasks,
    ) + "\nTotals:\n"@ + totals_block(project_totals(store, tasks)) + totals_line(
        "TOTAL"@,
        total_minutes(tasks),
    ) + "\n"@
}

/// The day as `YYYY-MM-DD`.
pub open spec fn date_text(day: int) -> Seq<char> {
    datetime_text((day * 86_400) as i64, "%Y-%m-%d"@)->0
}

/// What the journal command answers on the day `today`.
///
/// The date is today where none is given; a text that names no day is
/// refused with a user condition. A day without entries is told in one
/// line; else comes the journal of the day. A day whose minutes exceed
/// `i64` is refused with a system condition.
pub open spec fn handle_journal_post(
    store: StoreView,
    r: Result<String, AppError>,
    date_arg: Option<Seq<char>>,
    today: int,
) -> bool {
    let date = match date_arg {
        Some(d) => parse_date_spec(d, today),
        None => Ok(today),
    };
    match date {
        Err(m) => r matches Err(e) && e@ == ErrorView::User(m),
        Ok(day) => {
            let tasks = store.tasks_between(day, day);
            if total_minutes(tasks) > i64::MAX {
                r matches Err(e) && e@ == ErrorView::System(msg_total_overflow())
            } else if tasks.len() == 0 {
                r matches Ok(text) && text@ == no_tasks_text(date_text(day))
            } else {
                r matches Ok(text) && text@ == journal_text(store, tasks, date_text(day))
            }
        },
    }
}

fn push_journal_rows(out: &mut String, db: &Database, tasks: &Vec<TaskEntry>)
    requires
        db.wf(),
    ensures
        final(out)@ == old(out)@ + journal_rows(db@, task_views(tasks@)),
{
    let ghost views = task_views(tasks@);
    let mut i: usize = 0;
    assert(views.take(0) =~= Seq::empty());
    assert(out@ =~= old(out)@ + journal_rows(db@, views.take(0)));
    while i < tasks.len()
        invariant
            db.wf(),
            i <= tasks.len(),
            views == task_views(tasks@),
            out@ == old(out)@ + journal_rows(db@, views.take(i as int)),
        decreases tasks.len() - i,
    {
        let name = project_label(db, tasks[i].project_id);
        push_task_row(out, &tasks[i], name.as_str());
        out.append("\n");
        proof {
            assert(views.take(i + 1).drop_last() =~= views.take(i as int));
            assert(views.take(i + 1).last() == views[i as int]);
            assert(views[i as int] == tasks@[i as int]@);
            assert(out@ =~= old(out)@ + journal_rows(db@, views.take(i + 1)));
        }
        i = i + 1;
    }
    assert(views.take(i as int) =~= views);
}

fn push_totals_block(out: &mut String, totals: &Vec<(String, i64)>)
    ensures
        final(out)@ == old(out)@ + totals_block(totals_view(totals@)),
{
    let ghost views = totals_view(totals@);
    let mut i: usize = 0;
    assert(views.take(0) =~= Seq::empty());
    assert(out@ =~= old(out)@ + totals_block(views.take(0)));
    while i < totals.len()
        invariant
            i <= totals.len(),
            views == totals_view(totals@),
            out@ == old(out)@ + totals_block(views.take(i as int)),
        decreases totals.len() - i,
    {
        let mut line = String::new();
        push_totals_line(&mut line, totals[i].0.as_str(), totals[i].1);
        line.append("\n");
        out.append(line.as_str());
        proof {
            assert(views.take(i + 1).drop_last() =~= views.take(i as int));
            assert(views.take(i + 1).last() == views[i as int]);
            assert(line@ =~= totals_line(views[i as int].0, views[i as int].1) + "\n"@);
            assert(out@ =~= old(out)@ + totals_block(views.take(i + 1)));
        }
        i = i + 1;
    }
    assert(views.take(i as int) =~= views);
}

/// Answers the journal command on the day `today`.
pub fn handle_journal(db: &Database, date_arg: Option<&str>, today: Date) -> (r: Result<
    String,
    AppError,
>)
    requires
        db.wf(),
    ensures
        handle_journal_post(db@, r, crate::db::text_of(date_arg), today@),
{
    let date = match date_arg {
        Some(d) => match parse_date(d, today) {
            Ok(date) => date,
            Err(e) => {
                return Err(e);
            },
        },
        None => today,
    };
    let daily = match get_daily_journal(db, date) {
        Ok(j) => j,
        Err(e) => {
            return Err(e);
        },
    };
    let shown = date.format_iso();
    proof {
        assert(shown@ == date_text(date@));
    }
    if daily.tasks.len() == 0 {
        let mut line = String::new();
        line.append("No tasks logged for ");
        line.append(shown.as_str());
        line.append(".\n");
        assert(line@ =~= no_tasks_text(shown@));
        return Ok(line);
    }
    let ghost tasks = task_views(daily.tasks@);
    let mut out = String::new();
    out.append("Journal for ");
    out.append(shown.as_str());
    out.append(":\n\n");
    push_header(&mut out);
    out.append("\n");
    push_rule(&mut out, 75);
    out.append("\n");
    assert(out@ =~= "Journal for "@ + shown@ + ":\n\n"@ + table_header() + "\n"@ + rule(75)
        + "\n"@);
    push_journal_rows(&mut out, db, &daily.tasks);
    out.append("\nTotals:\n");
    push_totals_block(&mut out, &daily.project_totals);
    assert(out@ =~= "Journal for "@ + shown@ + ":\n\n"@ + table_header() + "\n"@ + rule(75)
        + "\n"@ + journal_rows(db@, tasks) + "\nTotals:\n"@ + totals_block(
        project_totals(db@, tasks),
    ));
    let mut last = String::new();
    push_totals_line(&mut last, "TOTAL", daily.grand_total);
    last.append("\n");
    assert(last@ =~= totals_line("TOTAL"@, total_minutes(tasks)) + "\n"@);
    out.append(last.as_str());
    assert(out@ =~= journal_text(db@, tasks, shown@));
    Ok(out)
}

} // verus!
