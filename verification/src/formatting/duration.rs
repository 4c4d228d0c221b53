//! Durations in minutes, as text: `90`, `1h 30m`, `2h`, `45m`.

use crate::error::{AppError, ErrorView};
use crate::text::{
    decimal, find_char, index_of, parse_i64, parse_i64_spec, push_int, trim, trim_spec,
};
use vstd::prelude::*;

verus! {

/// `minutes` as hours and minutes: `1h 30m`, `2h` where no minutes are left,
/// `45m` below an hour. A negative number prints as its remainder by 60.
pub open spec fn duration_text(minutes: int) -> Seq<char> {
    if minutes >= 60 && minutes % 60 > 0 {
        decimal(minutes / 60) + "h "@ + decimal(minutes % 60) + "m"@
    } else if minutes >= 60 {
        decimal(minutes / 60) + "h"@
    } else if minutes >= 0 {
        decimal(minutes) + "m"@
    } else {
        decimal(-((-minutes) % 60)) + "m"@
    }
}

/// Formats a duration in minutes as `Xh Ym`.
pub fn format_duration(minutes: i64) -> (r: String)
    ensures
        r@ == duration_text(minutes as int),
{
    let mut out = String::new();
    if minutes >= 60 {
        let hours: i64 = minutes / 60;
        let mins: i64 = minutes % 60;
        push_int(&mut out, hours);
        if mins > 0 {
            out.append("h ");
            push_int(&mut out, mins);
            out.append("m");
            assert(out@ =~= duration_text(minutes as int));
        } else {
            out.append("h");
            assert(out@ =~= duration_text(minutes as int));
        }
    } else if minutes >= 0 {
        push_int(&mut out, minutes);
        out.append("m");
        assert(out@ =~= duration_text(minutes as int));
    } else {
        let mins: i64 = if minutes > i64::MIN {
            -((-minutes) % 60)
        } else {
            -8
        };
        push_int(&mut out, mins);
        out.append("m");
        assert(out@ =~= duration_text(minutes as int));
    }
    out
}

pub open spec fn msg_not_positive() -> Seq<char> {
    "Duration must be greater than 0"@
}

pub open spec fn msg_invalid_hours(input: Seq<char>) -> Seq<char> {
    "Invalid hours in duration: '"@ + input + "'"@
}

pub open spec fn msg_invalid_minutes(input: Seq<char>) -> Seq<char> {
    "Invalid minutes in duration: '"@ + input + "'"@
}

pub open spec fn msg_invalid_format(input: Seq<char>) -> Seq<char> {
    "Invalid duration format: '"@ + input
        + "'. Use minutes (e.g., '90') or 'Xh Ym' (e.g., '1h 30m')"@
}

/// The minutes that `input` writes, or the message of its rejection.
///
/// Trimmed, the text is either an integer, which must be positive, or an
/// hours part that ends at the first `h`, a minutes part that ends at the
/// first `m`, or both; each part is an integer with white space around it,
/// and the total must be positive and fit in `i64`.
pub open spec fn parse_duration_spec(input: Seq<char>) -> Result<i64, Seq<char>> {
    let t = trim_spec(input);
    match parse_i64_spec(t) {
        Some(minutes) => if minutes <= 0 {
            Err(msg_not_positive())
        } else {
            Ok(minutes)
        },
        None => {
            let h = index_of(t, 'h');
            let m = index_of(t, 'm');
            let has_h = h < t.len();
            let has_m = m < t.len();
            let start = if has_h {
                h + 1
            } else {
                0
            };
            let hours = parse_i64_spec(trim_spec(t.subrange(0, h)));
            let mins = if start <= m {
                parse_i64_spec(trim_spec(t.subrange(start, m)))
            } else {
                None
            };
            if has_h && hours is None {
                Err(msg_invalid_hours(t))
            } else if has_m && mins is None {
                Err(msg_invalid_minutes(t))
            } else {
                let total = (if has_h {
                    hours->0 * 60
                } else {
                    0
                }) + (if has_m {
                    mins->0 as int
                } else {
                    0
                });
                if (has_h || has_m) && 0 < total <= i64::MAX {
                    Ok(total as i64)
                } else {
                    Err(msg_invalid_format(t))
                }
            }
        },
    }
}

/// Parses a duration into minutes.
///
/// Accepted are a plain integer (`90`), hours and minutes (`1h 30m`), hours
/// (`2h`) and minutes (`45m`). A total that is not positive and a text of
/// another shape are rejected with a user condition.
pub fn parse_duration(input: &str) -> (r: Result<i64, AppError>)
    ensures
        match r {
            Ok(minutes) => parse_duration_spec(input@) == Ok::<i64, Seq<char>>(minutes),
            Err(e) => parse_duration_spec(input@) matches Err(m) && e@ == ErrorView::User(m),
        },
{
    let t = trim(input);
    if let Some(minutes) = parse_i64(t) {
        if minutes <= 0 {
            return Err(AppError::user("Duration must be greater than 0"));
        }
        return Ok(minutes);
    }
    let len = t.unicode_len();
    let h = find_char(t, 'h');
    let m = find_char(t, 'm');
    let has_h = h < len;
    let has_m = m < len;
    let mut total: i128 = 0;
    if has_h {
        match parse_i64(trim(t.substring_char(0, h))) {
            Some(hours) => {
                total = total + (hours as i128) * 60;
            },
            None => {
                return Err(AppError::user_about("Invalid hours in duration: '", t, "'"));
            },
        }
    }
    if has_m {
        let start: usize = if has_h {
            h + 1
        } else {
            0
        };
        if start > m {
            return Err(AppError::user_about("Invalid minutes in duration: '", t, "'"));
        }
        match parse_i64(trim(t.substring_char(start, m))) {
            Some(mins) => {
                total = total + (mins as i128);
            },
            None => {
                return Err(AppError::user_about("Invalid minutes in duration: '", t, "'"));
            },
        }
    }
    if (has_h || has_m) && 0 < total && total <= 9_223_372_036_854_775_807i128 {
        Ok(total as i64)
    } else {
        Err(
            AppError::user_about(
                "Invalid duration format: '",
                t,
                "'. Use minutes (e.g., '90') or 'Xh Ym' (e.g., '1h 30m')",
            ),
        )
    }
}

} // verus!
