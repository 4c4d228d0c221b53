//! Text in and out: dates, times, durations and the totals table.

pub mod duration;
pub mod table;

pub use duration::{format_duration, parse_duration};
pub use table::format_task_table;

use crate::error::{AppError, ErrorView};
use crate::text::{lowercased, padded, push_padded, same_text, to_lowercase, trim, trim_spec};
use crate::time::{
    date_parsed, datetime_parsed, day_of, parse_date_secs, parse_datetime_secs,
    parse_time_of_day_secs, secs_in_range, time_of_day_parsed, Date, Timestamp, MIN_DAYS,
};
use duration::duration_text;
use vstd::prelude::*;

verus! {

pub open spec fn msg_invalid_date(input: Seq<char>) -> Seq<char> {
    "Invalid date: '"@ + input + "'. Use YYYY-MM-DD, 'today', or 'yesterday'"@
}

pub open spec fn msg_invalid_time(input: Seq<char>) -> Seq<char> {
    "Invalid time: '"@ + input + "'. Use YYYY-MM-DDTHH:MM or HH:MM"@
}

/// The day that the lower-case text `lowered` names on the day `today`,
/// `parsed` being the midnight of the date it writes, if it writes one; or
/// the message of its rejection.
pub open spec fn resolve_date_spec(lowered: Seq<char>, parsed: Option<i64>, today: int) -> Result<
    int,
    Seq<char>,
> {
    if lowered == "today"@ {
        Ok(today)
    } else if lowered == "yesterday"@ {
        if today > MIN_DAYS {
            Ok(today - 1)
        } else {
            Err(msg_invalid_date(lowered))
        }
    } else {
        match parsed {
            Some(secs) => if secs_in_range(secs as int) {
                Ok(day_of(secs as int))
            } else {
                Err(msg_invalid_date(lowered))
            },
            None => Err(msg_invalid_date(lowered)),
        }
    }
}

/// The day that `input` names on the day `today`, or the message of its
/// rejection: `today`, `yesterday` or a date `YYYY-MM-DD`, in any case of
/// letters and with white space around it.
pub open spec fn parse_date_spec(input: Seq<char>, today: int) -> Result<int, Seq<char>> {
    let lowered = lowercased(trim_spec(input));
    resolve_date_spec(lowered, date_parsed(lowered, "%Y-%m-%d"@), today)
}

/// Names the day for a date text that has been trimmed and put in lower
/// case, given the midnight that the text writes as a date, if any.
///
/// `today` is today, `yesterday` the day before; any other text stands for
/// the date it writes. A date outside the years 0000 to 9999 is rejected
/// like a text that writes none.
pub fn resolve_date(lowered: &str, parsed: Option<i64>, today: Date) -> (r: Result<Date, AppError>)
    ensures
        match r {
            Ok(d) => resolve_date_spec(lowered@, parsed, today@) == Ok::<int, Seq<char>>(d@),
            Err(e) => resolve_date_spec(lowered@, parsed, today@) matches Err(m) && e@
                == ErrorView::User(m),
        },
{
    if same_text(lowered, "today") {
        return Ok(today);
    }
    if same_text(lowered, "yesterday") {
        return match today.pred() {
            Some(d) => Ok(d),
            None => Err(
                AppError::user_about(
                    "Invalid date: '",
                    lowered,
                    "'. Use YYYY-MM-DD, 'today', or 'yesterday'",
                ),
            ),
        };
    }
    if let Some(secs) = parsed {
        if let Some(t) = Timestamp::from_secs(secs) {
            return Ok(t.date());
        }
    }
    Err(AppError::user_about("Invalid date: '", lowered, "'. Use YYYY-MM-DD, 'today', or 'yesterday'"))
}

/// Parses a date: `today`, `yesterday` or `YYYY-MM-DD`.
pub fn parse_date(input: &str, today: Date) -> (r: Result<Date, AppError>)
    ensures
        match r {
            Ok(d) => parse_date_spec(input@, today@) == Ok::<int, Seq<char>>(d@),
            Err(e) => parse_date_spec(input@, today@) matches Err(m) && e@ == ErrorView::User(m),
        },
{
    let lowered = to_lowercase(trim(input));
    let parsed = parse_date_secs(lowered.as_str(), "%Y-%m-%d");
    resolve_date(lowered.as_str(), parsed, today)
}

/// The second that a time text names on the day `today`, or the message of
/// its rejection. `full` is the second that the text `trimmed` writes with
/// seconds, `minute` the one it writes without, `time_of_day` the seconds
/// from midnight that it writes as a bare time of day; the first of the
/// three that is present decides.
pub open spec fn resolve_time_spec(
    trimmed: Seq<char>,
    full: Option<i64>,
    minute: Option<i64>,
    time_of_day: Option<u32>,
    today: int,
) -> Result<int, Seq<char>> {
    match (full, minute, time_of_day) {
        (Some(secs), _, _) => if secs_in_range(secs as int) {
            Ok(secs as int)
        } else {
            Err(msg_invalid_time(trimmed))
        },
        (None, Some(secs), _) => if secs_in_range(secs as int) {
            Ok(secs as int)
        } else {
            Err(msg_invalid_time(trimmed))
        },
        (None, None, Some(second)) => if second < 86_400 {
            Ok(today * 86_400 + second)
        } else {
            Err(msg_invalid_time(trimmed))
        },
        (None, None, None) => Err(msg_invalid_time(trimmed)),
    }
}

/// The second that `input` names on the day `today`, or the message of its
/// rejection: `YYYY-MM-DDTHH:MM:SS`, `YYYY-MM-DDTHH:MM`, or `HH:MM` on the
/// day `today`, with white space around it.
pub open spec fn parse_time_spec(input: Seq<char>, today: int) -> Result<int, Seq<char>> {
    let t = trim_spec(input);
    resolve_time_spec(
        t,
        datetime_parsed(t, "%Y-%m-%dT%H:%M:%S"@),
        datetime_parsed(t, "%Y-%m-%dT%H:%M"@),
        time_of_day_parsed(t, "%H:%M"@),
        today,
    )
}

/// Names the second for a trimmed time text, given what the text writes
/// under each of the three accepted forms.
///
/// The form with seconds decides where it is present, then the form
/// without, then the bare time of day, which is taken on the day `today`. A
/// second outside the years 0000 to 9999 is rejected like a text that
/// writes none.
pub fn resolve_time(
    trimmed: &str,
    full: Option<i64>,
    minute: Option<i64>,
    time_of_day: Option<u32>,
    today: Date,
) -> (r: Result<Timestamp, AppError>)
    ensures
        match r {
            Ok(t) => resolve_time_spec(trimmed@, full, minute, time_of_day, today@) == Ok::<
                int,
                Seq<char>,
            >(t@),
            Err(e) => resolve_time_spec(trimmed@, full, minute, time_of_day, today@) matches Err(m)
                && e@ == ErrorView::User(m),
        },
{
    let found: Option<Timestamp> = match (full, minute, time_of_day) {
        (Some(secs), _, _) => Timestamp::from_secs(secs),
        (None, Some(secs), _) => Timestamp::from_secs(secs),
        (None, None, Some(second)) => if second < 86_400 {
            Some(today.at_second(second))
        } else {
            None
        },
        (None, None, None) => None,
    };
    match found {
        Some(t) => Ok(t),
        None => Err(
            AppError::user_about("Invalid time: '", trimmed, "'. Use YYYY-MM-DDTHH:MM or HH:MM"),
        ),
    }
}

/// Parses a time: `YYYY-MM-DDTHH:MM:SS`, `YYYY-MM-DDTHH:MM`, or `HH:MM` on
/// the day `today`.
pub fn parse_time(input: &str, today: Date) -> (r: Result<Timestamp, AppError>)
    ensures
        match r {
            Ok(t) => parse_time_spec(input@, today@) == Ok::<int, Seq<char>>(t@),
            Err(e) => parse_time_spec(input@, today@) matches Err(m) && e@ == ErrorView::User(m),
        },
{
    let t = trim(input);
    let full = parse_datetime_secs(t, "%Y-%m-%dT%H:%M:%S");
    let minute = parse_datetime_secs(t, "%Y-%m-%dT%H:%M");
    let time_of_day = parse_time_of_day_secs(t, "%H:%M");
    resolve_time(t, full, minute, time_of_day, today)
}

/// One line of the totals table: the name in a column of 20 characters,
/// then the duration.
pub open spec fn totals_line(name: Seq<char>, minutes: int) -> Seq<char> {
    "  "@ + padded(name, 20) + " "@ + duration_text(minutes)
}

/// The lines of the projects, each behind a line break.
pub open spec fn totals_lines(per_project: Seq<(&str, i64)>) -> Seq<char>
    decreases per_project.len(),
{
    if per_project.len() == 0 {
        Seq::empty()
    } else {
        totals_lines(per_project.drop_last()) + "\n"@ + totals_line(
            per_project.last().0@,
            per_project.last().1 as int,
        )
    }
}

/// The totals table: an empty line, the heading, a line for each project
/// and the line of the grand total.
pub open spec fn totals_text(per_project: Seq<(&str, i64)>, grand_total: int) -> Seq<char> {
    "\nTotals:"@ + totals_lines(per_project) + "\n"@ + totals_line("TOTAL"@, grand_total)
}

/// Appends one line of the totals table to `out`.
pub fn push_totals_line(out: &mut String, name: &str, minutes: i64)
    ensures
        final(out)@ == old(out)@ + totals_line(name@, minutes as int),
{
    let mut line = String::new();
    line.append("  ");
    push_padded(&mut line, name, 20);
    line.append(" ");
    let d = format_duration(minutes);
    line.append(d.as_str());
    assert(line@ =~= totals_line(name@, minutes as int));
    out.append(line.as_str());
}

/// Formats per-project totals and a grand total.
pub fn format_totals(per_project: &[(&str, i64)], grand_total: i64) -> (r: String)
    ensures
        r@ == totals_text(per_project@, grand_total as int),
{
    let mut out = String::new();
    out.append("\nTotals:");
    let mut i: usize = 0;
    assert(per_project@.take(0) =~= Seq::empty());
    assert(out@ =~= "\nTotals:"@ + totals_lines(per_project@.take(0)));
    while i < per_project.len()
        invariant
            i <= per_project.len(),
            out@ == "\nTotals:"@ + totals_lines(per_project@.take(i as int)),
        decreases per_project.len() - i,
    {
        let name: &str = per_project[i].0;
        let minutes: i64 = per_project[i].1;
        out.append("\n");
        push_totals_line(&mut out, name, minutes);
        proof {
            assert(per_project@.take(i + 1).drop_last() =~= per_project@.take(i as int));
            assert(per_project@.take(i + 1).last() == per_project@[i as int]);
            assert(out@ =~= "\nTotals:"@ + totals_lines(per_project@.take(i + 1)));
        }
        i = i + 1;
    }
    assert(per_project@.take(i as int) =~= per_project@);
    out.append("\n");
    push_totals_line(&mut out, "TOTAL", grand_total);
    assert(out@ =~= totals_text(per_project@, grand_total as int));
    out
}

} // verus!
