//! The table of task entries, in columns of fixed width.

use super::duration::{duration_text, format_duration};
use crate::db::task_views;
use crate::models::{time_view, TaskEntry, TaskView};
use crate::text::{decimal, int_to_string, padded, push_padded};
use crate::time::{datetime_text, Timestamp};
use vstd::prelude::*;
use vstd::utf8::{decode_utf8, encode_utf8, is_char_boundary};

verus! {

/// `count` hyphens.
pub open spec fn rule(count: nat) -> Seq<char> {
    Seq::new(count, |i: int| '-')
}

/// The greatest character boundary of `bytes` that is not above `k`.
pub open spec fn boundary_at_or_below(bytes: Seq<u8>, k: int) -> int
    decreases k,
{
    if k <= 0 {
        0
    } else if is_char_boundary(bytes, k) {
        k
    } else {
        boundary_at_or_below(bytes, k - 1)
    }
}

/// A description as the table shows it: whole where its UTF-8 form has 30
/// bytes or fewer; else the characters that end within its first 27 bytes,
/// followed by three dots.
pub open spec fn clipped(description: Seq<char>) -> Seq<char> {
    let bytes = encode_utf8(description);
    if bytes.len() > 30 {
        decode_utf8(bytes.subrange(0, boundary_at_or_below(bytes, 27))) + "..."@
    } else {
        description
    }
}

/// A time of day as the table shows it: `HH:MM`, or a hyphen where there
/// is none.
pub open spec fn time_cell_text(t: Option<int>) -> Seq<char> {
    match t {
        Some(secs) => datetime_text(secs as i64, "%H:%M"@)->0,
        None => "-"@,
    }
}

/// The heading of the table.
pub open spec fn table_header() -> Seq<char> {
    padded("ID"@, 6) + " "@ + padded("Project"@, 15) + " "@ + padded("Description"@, 30) + " "@
        + padded("Start"@, 6) + " "@ + padded("End"@, 6) + " "@ + padded("Duration"@, 8)
}

/// One row of the table, from the texts of its cells.
pub open spec fn row_text(
    id: int,
    project: Seq<char>,
    description: Seq<char>,
    start: Seq<char>,
    end: Seq<char>,
    minutes: int,
) -> Seq<char> {
    padded(decimal(id), 6) + " "@ + padded(project, 15) + " "@ + padded(clipped(description), 30)
        + " "@ + padded(start, 6) + " "@ + padded(end, 6) + " "@ + padded(
        duration_text(minutes),
        8,
    )
}

/// The row of the entry `task` under the project name `project`.
pub open spec fn task_row(task: TaskView, project: Seq<char>) -> Seq<char> {
    row_text(
        task.id,
        project,
        task.description,
        time_cell_text(task.start_time),
        time_cell_text(task.end_time),
        task.duration_min,
    )
}

/// The name that the first pair with the id `id` gives, or `?` where no
/// pair has it.
pub open spec fn name_for(names: Seq<(&str, i64)>, id: int) -> Seq<char>
    decreases names.len(),
{
    if names.len() == 0 {
        "?"@
    } else if names[0].1 == id {
        names[0].0@
    } else {
        name_for(names.skip(1), id)
    }
}

/// The rows of `tasks`, each behind a line break.
pub open spec fn table_rows(tasks: Seq<TaskView>, names: Seq<(&str, i64)>) -> Seq<char>
    decreases tasks.len(),
{
    if tasks.len() == 0 {
        Seq::empty()
    } else {
        table_rows(tasks.drop_last(), names) + "\n"@ + task_row(
            tasks.last(),
            name_for(names, tasks.last().project_id),
        )
    }
}

/// The table of `tasks`: nothing where there are none; else the heading, a
/// rule of 75 hyphens and a row for each entry.
pub open spec fn table_text(tasks: Seq<TaskView>, names: Seq<(&str, i64)>) -> Seq<char> {
    if tasks.len() == 0 {
        Seq::empty()
    } else {
        table_header() + "\n"@ + rule(75) + table_rows(tasks, names)
    }
}

/// Appends `count` hyphens to `out`.
pub fn push_rule(out: &mut String, count: usize)
    ensures
        final(out)@ == old(out)@ + rule(count as nat),
{
    let mut n: usize = 0;
    proof {
        reveal_strlit("-");
    }
    assert(out@ =~= old(out)@ + rule(0));
    while n < count
        invariant
            n <= count,
            out@ == old(out)@ + rule(n as nat),
            "-"@ == seq!['-'],
        decreases count - n,
    {
        out.append("-");
        n = n + 1;
        assert(out@ =~= old(out)@ + rule(n as nat));
    }
}

/// Appends `description` to `out` as the table shows it.
pub fn push_clipped(out: &mut String, description: &str)
    ensures
        final(out)@ == old(out)@ + clipped(description@),
{
    broadcast use vstd::utf8::group_utf8_lib;

    if description.as_bytes().len() > 30 {
        let ghost bytes = encode_utf8(description@);
        let mut k: usize = 27;
        while k > 0 && !description.is_char_boundary(k)
            invariant
                k <= 27,
                bytes == encode_utf8(description@),
                boundary_at_or_below(bytes, 27) == boundary_at_or_below(bytes, k as int),
            decreases k,
        {
            k = k - 1;
        }
        assert(is_char_boundary(bytes, k as int));
        let (head, _tail) = description.split_at(k);
        proof {
            assert(decode_utf8(encode_utf8(head@)) == head@);
            assert(head@ == decode_utf8(bytes.subrange(0, k as int)));
        }
        out.append(head);
        out.append("...");
        assert(out@ =~= old(out)@ + clipped(description@));
    } else {
        out.append(description);
    }
}

/// Appends the heading of the table to `out`.
pub fn push_header(out: &mut String)
    ensures
        final(out)@ == old(out)@ + table_header(),
{
    let mut line = String::new();
    push_padded(&mut line, "ID", 6);
    line.append(" ");
    push_padded(&mut line, "Project", 15);
    line.append(" ");
    push_padded(&mut line, "Description", 30);
    line.append(" ");
    assert(line@ =~= padded("ID"@, 6) + " "@ + padded("Project"@, 15) + " "@ + padded(
        "Description"@,
        30,
    ) + " "@);
    push_padded(&mut line, "Start", 6);
    line.append(" ");
    push_padded(&mut line, "End", 6);
    line.append(" ");
    push_padded(&mut line, "Duration", 8);
    assert(line@ =~= table_header());
    out.append(line.as_str());
}

/// Appends one row of the table to `out`, from the texts of its cells.
pub fn push_row(
    out: &mut String,
    id: i64,
    project: &str,
    description: &str,
    start: &str,
    end: &str,
    minutes: i64,
)
    ensures
        final(out)@ == old(out)@ + row_text(
            id as int,
            project@,
            description@,
            start@,
            end@,
            minutes as int,
        ),
{
    let mut line = String::new();
    let id_text = int_to_string(id);
    push_padded(&mut line, id_text.as_str(), 6);
    line.append(" ");
    push_padded(&mut line, project, 15);
    line.append(" ");
    let mut shown = String::new();
    push_clipped(&mut shown, description);
    assert(shown@ =~= clipped(description@));
    push_padded(&mut line, shown.as_str(), 30);
    line.append(" ");
    assert(line@ =~= padded(decimal(id as int), 6) + " "@ + padded(project@, 15) + " "@ + padded(
        clipped(description@),
        30,
    ) + " "@);
    push_padded(&mut line, start, 6);
    line.append(" ");
    push_padded(&mut line, end, 6);
    line.append(" ");
    let d = format_duration(minutes);
    push_padded(&mut line, d.as_str(), 8);
    assert(line@ =~= row_text(
        id as int,
        project@,
        description@,
        start@,
        end@,
        minutes as int,
    ));
    out.append(line.as_str());
}

/// A time of day as the table shows it.
pub fn time_cell(t: Option<Timestamp>) -> (r: String)
    ensures
        r@ == time_cell_text(time_view(t)),
{
    match t {
        Some(t) => t.format_hm(),
        None => "-".to_owned(),
    }
}

/// Appends the row of `task` under the project name `project` to `out`.
pub fn push_task_row(out: &mut String, task: &TaskEntry, project: &str)
    ensures
        final(out)@ == old(out)@ + task_row(task@, project@),
{
    let start = time_cell(task.start_time);
    let end = time_cell(task.end_time);
    push_row(
        out,
        task.id,
        project,
        task.description.as_str(),
        start.as_str(),
        end.as_str(),
        task.duration_min,
    );
}

fn find_name<'a>(names: &[(&'a str, i64)], id: i64) -> (r: &'a str)
    ensures
        r@ == name_for(names@, id as int),
{
    let mut i: usize = 0;
    assert(names@.skip(0) =~= names@);
    while i < names.len()
        invariant
            i <= names.len(),
            name_for(names@, id as int) == name_for(names@.skip(i as int), id as int),
        decreases names.len() - i,
    {
        proof {
            assert(names@.skip(i as int)[0] == names@[i as int]);
            assert(names@.skip(i as int).skip(1) =~= names@.skip(i + 1));
        }
        if names[i].1 == id {
            return names[i].0;
        }
        i = i + 1;
    }
    "?"
}

/// Formats a table of task entries as plain text with aligned columns.
pub fn format_task_table(tasks: &[TaskEntry], project_names: &[(&str, i64)]) -> (r: String)
    ensures
        r@ == table_text(task_views(tasks@), project_names@),
{
    let mut out = String::new();
    if tasks.len() == 0 {
        return out;
    }
    let ghost views = task_views(tasks@);
    push_header(&mut out);
    out.append("\n");
    push_rule(&mut out, 75);
    let mut i: usize = 0;
    assert(views.take(0) =~= Seq::empty());
    assert(out@ =~= table_header() + "\n"@ + rule(75) + table_rows(views.take(0), project_names@));
    while i < tasks.len()
        invariant
            i <= tasks.len(),
            views == task_views(tasks@),
            out@ == table_header() + "\n"@ + rule(75) + table_rows(
                views.take(i as int),
                project_names@,
            ),
        decreases tasks.len() - i,
    {
        let name = find_name(project_names, tasks[i].project_id);
        out.append("\n");
        push_task_row(&mut out, &tasks[i], name);
        proof {
            assert(views.take(i + 1).drop_last() =~= views.take(i as int));
            assert(views.take(i + 1).last() == views[i as int]);
            assert(views[i as int] == tasks@[i as int]@);
            assert(out@ =~= table_header() + "\n"@ + rule(75) + table_rows(
                views.take(i + 1),
                project_names@,
            ));
        }
        i = i + 1;
    }
    assert(views.take(i as int) =~= views);
    out
}

} // verus!
