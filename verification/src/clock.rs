//! Wall-clock time as the board shows it. The clock is read, and times are
//! put into text, by `chrono`; the board itself only carries the reading.

use chrono::{Datelike, Timelike};
use vstd::prelude::*;

verus! {

/// A reading of the wall clock in the machine's local time zone, to the second.
#[derive(Clone, Copy, Debug, PartialEq, Eq, Structural)]
pub struct WallClock {
    pub year: i32,
    pub month: u32,
    pub day: u32,
    pub hour: u32,
    pub minute: u32,
    pub second: u32,
}

/// What `chrono` writes for the date and time given by the six numbers under
/// the strftime pattern `pattern`; `None` where the numbers are no date and
/// time of the calendar or `chrono` rejects the pattern.
pub uninterp spec fn wall_clock_text(
    year: int,
    month: int,
    day: int,
    hour: int,
    minute: int,
    second: int,
    pattern: Seq<char>,
) -> Option<Seq<char>>;

/// The text of the reading `at` under `pattern`.
pub open spec fn clock_text(at: WallClock, pattern: Seq<char>) -> Option<Seq<char>> {
    wall_clock_text(
        at.year as int,
        at.month as int,
        at.day as int,
        at.hour as int,
        at.minute as int,
        at.second as int,
        pattern,
    )
}

/// Reads the clock with `chrono::Local::now` and keeps year, month, day,
/// hour, minute and second of the local time. Nothing is claimed of the
/// reading: it is whatever the machine's clock says.
#[verifier::external_body]
pub(crate) fn read_wall_clock() -> WallClock {
    let now = chrono::Local::now();
    WallClock {
        year: now.year(),
        month: now.month(),
        day: now.day(),
        hour: now.hour(),
        minute: now.minute(),
        second: now.second(),
    }
}

/// Builds the date and time with `chrono::NaiveDate::from_ymd_opt` and
/// `and_hms_opt` and writes it with `chrono::NaiveDateTime::format`. Claimed:
/// the outcome depends on the six numbers and the pattern alone, and is the
/// text that `chrono` produced, or `None` where it made no date and time of
/// the numbers or failed to write under the pattern.
#[verifier::external_body]
pub(crate) fn format_wall_clock(at: &WallClock, pattern: &str) -> (r: Option<String>)
    ensures
        match r {
            Some(text) => wall_clock_text(
                at.year as int,
                at.month as int,
                at.day as int,
                at.hour as int,
                at.minute as int,
                at.second as int,
                pattern@,
            ) == Some(text@),
            None => wall_clock_text(
                at.year as int,
                at.month as int,
                at.day as int,
                at.hour as int,
                at.minute as int,
                at.second as int,
                pattern@,
            ) is None,
        },
{
    let date = chrono::NaiveDate::from_ymd_opt(at.year, at.month, at.day)?;
    let moment = date.and_hms_opt(at.hour, at.minute, at.second)?;
    let mut text = String::new();
    match moment.format(pattern).write_to(&mut text) {
        Ok(()) => Some(text),
        Err(_) => None,
    }
}

} // verus!
