//! The report command: the task entries of a range of days, by project.

use super::journal::date_text;
use crate::db::{task_views, Database, StoreView};
use crate::error::{AppError, ErrorView};
use crate::formatting::duration::duration_text;
use crate::formatting::format_duration;
use crate::formatting::table::{clipped, push_clipped, push_rule, rule, time_cell, time_cell_text};
use crate::formatting::{parse_date, parse_date_spec};
use crate::models::{TaskEntry, TaskView};
use crate::services::journal::{msg_total_overflow, total_minutes};
use crate::services::report::{
    generate_report, project_sections, section_views, ProjectSection, SectionView,
};
use crate::text::{decimal, int_to_string, padded, push_padded};
use crate::time::{datetime_text, Date};
use vstd::prelude::*;

verus! {

pub open spec fn msg_from_after_to() -> Seq<char> {
    "--from date must be before or equal to --to date."@
}

pub open spec fn no_report_text(from: Seq<char>, to: Seq<char>) -> Seq<char> {
    "No tasks found between "@ + from + " and "@ + to + ".\n"@
}

/// The heading of a section's table.
pub open spec fn report_header() -> Seq<char> {
    padded("ID"@, 6) + " "@ + padded("Description"@, 30) + " "@ + padded("Date"@, 12) + " "@
        + padded("Start"@, 6) + " "@ + padded("End"@, 6) + " "@ + padded("Duration"@, 8)
}

/// One row of a section's table, from the texts of its cells.
pub open spec fn report_row_text(
    id: int,
    description: Seq<char>,
    date: Seq<char>,
    start: Seq<char>,
    end: Seq<char>,
    minutes: int,
) -> Seq<char> {
    padded(decimal(id), 6) + " "@ + padded(clipped(description), 30) + " "@ + padded(date, 12)
        + " "@ + padded(start, 6) + " "@ + padded(end, 6) + " "@ + padded(
        duration_text(minutes),
        8,
    )
}

/// The row of the entry `task`, dated by its effective time.
pub open spec fn report_row(task: TaskView) -> Seq<char> {
    report_row_text(
        task.id,
        task.description,
        datetime_text(task.effective() as i64, "%Y-%m-%d"@)->0,
        time_cell_text(task.start_time),
        time_cell_text(task.end_time),
        task.duration_min,
    )
}

/// The rows of `tasks`, each indented and closed by a line break.
pub open spec fn report_rows(tasks: Seq<TaskView>) -> Seq<char>
    decreases tasks.len(),
{
    if tasks.len() == 0 {
        Seq::empty()
    } else {
        report_rows(tasks.drop_last()) + "  "@ + report_row(tasks.last()) + "\n"@
    }
}

/// A section: its title with the project's minutes, the table of its
/// entries and an empty line.
pub open spec fn section_text(section: SectionView) -> Seq<char> {
    "## "@ + section.name + " ("@ + duration_text(section.total) + ")\n  "@ + report_header()
        + "\n  "@ + rule(72) + "\n"@ + report_rows(section.entries) + "\n"@
}

pub open spec fn sections_text(sections: Seq<SectionView>) -> Seq<char>
    decreases sections.len(),
{
    if sections.len() == 0 {
        Seq::empty()
    } else {
        sections_text(sections.drop_last()) + section_text(sections.last())
    }
}

/// The report of a range that has entries: the title with the two dates,
/// the sections and the minutes of all of them.
pub open spec fn report_text(
    sections: Seq<SectionView>,
    total: int,
    from: Seq<char>,
    to: Seq<char>,
) -> Seq<char> {
    "Report: "@ + from + " to "@ + to + "\n\n"@ + sections_text(sections) + "Grand Total: "@
        + duration_text(total) + "\n"@
}

/// What the report command answers on the day `today`.
///
/// Each of the two texts must name a day, the first of them no later than
/// the second; else the command is refused with a user condition. A
/// range without entries is told in one line; else comes the report. A
/// range whose minutes exceed `i64` is refused with a system condition.
pub open spec fn handle_report_post(
    store: StoreView,
    r: Result<String, AppError>,
    from: Seq<char>,
    to: Seq<char>,
    today: int,
) -> bool {
    match parse_date_spec(from, today) {
        Err(m) => r matches Err(e) && e@ == ErrorView::User(m),
        Ok(first) => match parse_date_spec(to, today) {
            Err(m) => r matches Err(e) && e@ == ErrorView::User(m),
            Ok(last) => if first > last {
                r matches Err(e) && e@ == ErrorView::User(msg_from_after_to())
            } else {
                let tasks = store.tasks_between(first, last);
                let sections = project_sections(store, tasks);
                if total_minutes(tasks) > i64::MAX {
                    r matches Err(e) && e@ == ErrorView::System(msg_total_overflow())
                } else if sections.len() == 0 {
                    r matches Ok(text) && text@ == no_report_text(date_text(first), date_text(last))
                } else {
                    r matches Ok(text) && text@ == report_text(
                        sections,
                        total_minutes(tasks),
                        date_text(first),
                        date_text(last),
                    )
                }
            },
        },
    }
}

/// Appends the heading of a section's table to `out`.
pub fn push_report_header(out: &mut String)
    ensures
        final(out)@ == old(out)@ + report_header(),
{
    let mut line = String::new();
    push_padded(&mut line, "ID", 6);
    line.append(" ");
    push_padded(&mut line, "Description", 30);
    line.append(" ");
    push_padded(&mut line, "Date", 12);
    line.append(" ");
    assert(line@ =~= padded("ID"@, 6) + " "@ + padded("Description"@, 30) + " "@ + padded(
        "Date"@,
        12,
    ) + " "@);
    push_padded(&mut line, "Start", 6);
    line.append(" ");
    push_padded(&mut line, "End", 6);
    line.append(" ");
    push_padded(&mut line, "Duration", 8);
    assert(line@ =~= report_header());
    out.append(line.as_str());
}

/// Appends one row of a section's table to `out`, from the texts of its
/// cells.
pub fn push_report_row(
    out: &mut String,
    id: i64,
    description: &str,
    date: &str,
    start: &str,
    end: &str,
    minutes: i64,
)
    ensures
        final(out)@ == old(out)@ + report_row_text(
            id as int,
            description@,
            date@,
            start@,
            end@,
            minutes as int,
        ),
{
    let mut line = String::new();
    let id_text = int_to_string(id);
    push_padded(&mut line, id_text.as_str(), 6);
    line.append(" ");
    let mut shown = String::new();
    push_clipped(&mut shown, description);
    assert(shown@ =~= clipped(description@));
    push_padded(&mut line, shown.as_str(), 30);
    line.append(" ");
    push_padded(&mut line, date, 12);
    line.append(" ");
    assert(line@ =~= padded(decimal(id as int), 6) + " "@ + padded(clipped(description@), 30)
        + " "@ + padded(date@, 12) + " "@);
    push_padded(&mut line, start, 6);
    line.append(" ");
    push_padded(&mut line, end, 6);
    line.append(" ");
    let d = format_duration(minutes);
    push_padded(&mut line, d.as_str(), 8);
    assert(line@ =~= report_row_text(
        id as int,
        description@,
        date@,
        start@,
        end@,
        minutes as int,
    ));
    out.append(line.as_str());
}

fn push_report_rows(out: &mut String, tasks: &Vec<TaskEntry>)
    ensures
        final(out)@ == old(out)@ + report_rows(task_views(tasks@)),
{
    let ghost views = task_views(tasks@);
    let mut i: usize = 0;
    assert(views.take(0) =~= Seq::empty());
    assert(out@ =~= old(out)@ + report_rows(views.take(0)));
    while i < tasks.len()
        invariant
            i <= tasks.len(),
            views == task_views(tasks@),
            out@ == old(out)@ + report_rows(views.take(i as int)),
        decreases tasks.len() - i,
    {
        let date = tasks[i].effective_time().format_date();
        let start = time_cell(tasks[i].start_time);
        let end = time_cell(tasks[i].end_time);
        let mut line = String::new();
        line.append("  ");
        push_report_row(
            &mut line,
            tasks[i].id,
            tasks[i].description.as_str(),
            date.as_str(),
            start.as_str(),
            end.as_str(),
            tasks[i].duration_min,
        );
        line.append("\n");
        out.append(line.as_str());
        proof {
            assert(views.take(i + 1).drop_last() =~= views.take(i as int));
            assert(views.take(i + 1).last() == views[i as int]);
            assert(views[i as int] == tasks@[i as int]@);
            assert(line@ =~= "  "@ + report_row(views[i as int]) + "\n"@);
            assert(out@ =~= old(out)@ + report_rows(views.take(i + 1)));
        }
        i = i + 1;
    }
    assert(views.take(i as int) =~= views);
}

fn push_section(out: &mut String, section: &ProjectSection)
    ensures
        final(out)@ == old(out)@ + section_text(section@),
{
    let mut text = String::new();
    text.append("## ");
    text.append(section.name.as_str());
    text.append(" (");
    let d = format_duration(section.total);
    text.append(d.as_str());
    text.append(")\n  ");
    assert(text@ =~= "## "@ + section@.name + " ("@ + duration_text(section@.total) + ")\n  "@);
    push_report_header(&mut text);
    text.append("\n  ");
    push_rule(&mut text, 72);
    text.append("\n");
    assert(text@ =~= "## "@ + section@.name + " ("@ + duration_text(section@.total) + ")\n  "@
        + report_header() + "\n  "@ + rule(72) + "\n"@);
    push_report_rows(&mut text, &section.entries);
    text.append("\n");
    assert(text@ =~= section_text(section@));
    out.append(text.as_str());
}

fn push_sections(out: &mut String, sections: &Vec<ProjectSection>)
    ensures
        final(out)@ == old(out)@ + sections_text(section_views(sections@)),
{
    let ghost views = section_views(sections@);
    let mut i: usize = 0;
    assert(views.take(0) =~= Seq::empty());
    assert(out@ =~= old(out)@ + sections_text(views.take(0)));
    while i < sections.len()
        invariant
            i <= sections.len(),
            views == section_views(sections@),
            out@ == old(out)@ + sections_text(views.take(i as int)),
        decreases sections.len() - i,
    {
        push_section(out, &sections[i]);
        proof {
            assert(views.take(i + 1).drop_last() =~= views.take(i as int));
            assert(views.take(i + 1).last() == views[i as int]);
            assert(views[i as int] == sections@[i as int]@);
            assert(out@ =~= old(out)@ + sections_text(views.take(i + 1)));
        }
        i = i + 1;
    }
    assert(views.take(i as int) =~= views);
}

/// Answers the report command on the day `today`.
pub fn handle_report(db: &Database, from: &str, to: &str, today: Date) -> (r: Result<
    String,
    AppError,
>)
    requires
        db.wf(),
    ensures
        handle_report_post(db@, r, from@, to@, today@),
{
    let from_date = match parse_date(from, today) {
        Ok(d) => d,
        Err(e) => {
            return Err(e);
        },
    };
    let to_date = match parse_date(to, today) {
        Ok(d) => d,
        Err(e) => {
            return Err(e);
        },
    };
    if from_date.days() > to_date.days() {
        return Err(AppError::user("--from date must be before or equal to --to date."));
    }
    let report = match generate_report(db, from_date, to_date) {
        Ok(r) => r,
        Err(e) => {
            return Err(e);
        },
    };
    let first = from_date.format_iso();
    let last = to_date.format_iso();
    proof {
        assert(first@ == date_text(from_date@));
        assert(last@ == date_text(to_date@));
    }
    let mut out = String::new();
    if report.project_sections.len() == 0 {
        out.append("No tasks found between ");
        out.append(first.as_str());
        out.append(" and ");
        out.append(last.as_str());
        out.append(".\n");
        assert(out@ =~= no_report_text(first@, last@));
        return Ok(out);
    }
    out.append("Report: ");
    out.append(first.as_str());
    out.append(" to ");
    out.append(last.as_str());
    out.append("\n\n");
    assert(out@ =~= "Report: "@ + first@ + " to "@ + last@ + "\n\n"@);
    push_sections(&mut out, &report.project_sections);
    out.append("Grand Total: ");
    let d = format_duration(report.grand_total);
    out.append(d.as_str());
    out.append("\n");
    assert(out@ =~= report_text(
        section_views(report.project_sections@),
        report.grand_total as int,
        first@,
        last@,
    ));
    Ok(out)
}

} // verus!
