//! One tick of the refresh loop: what a poll of the feed does to the board,
//! and how long to wait for the next.

use crate::aliases::{AliasMap, AliasTable};
use crate::clock::{read_wall_clock, WallClock};
use crate::display_board::{phase_of, BoardPhase, DisplayBoard};
use crate::grouping::{get_display_lines, is_display_lines};
use crate::stop_monitor::{FetchError, LineStop, MonitoredVehicleJourney};
use vstd::prelude::*;

verus! {

/// How long the loop waits between polls, in seconds.
#[derive(Clone, Copy, Debug, PartialEq, Eq, Structural)]
pub struct RefreshPolicy {
    /// The wait after a poll that succeeded.
    pub refresh_secs: u64,
    /// The wait after a poll that failed.
    pub retry_secs: u64,
}

impl RefreshPolicy {
    pub fn new(refresh_secs: u64, retry_secs: u64) -> (policy: Self)
        ensures
            policy == (RefreshPolicy { refresh_secs, retry_secs }),
    {
        RefreshPolicy { refresh_secs, retry_secs }
    }

    /// Half a minute after a success, two seconds after a failure.
    pub fn standard() -> (policy: Self)
        ensures
            policy == (RefreshPolicy { refresh_secs: 30, retry_secs: 2 }),
    {
        RefreshPolicy { refresh_secs: 30, retry_secs: 2 }
    }

    /// The wait before the next poll: the long one if the latest poll
    /// succeeded, the short one if it failed.
    pub fn next_delay_secs(&self, board: &DisplayBoard) -> (secs: u64)
        ensures
            secs == if board.last_request_successful {
                self.refresh_secs
            } else {
                self.retry_secs
            },
    {
        if board.last_request_successful {
            self.refresh_secs
        } else {
            self.retry_secs
        }
    }
}

/// Whether `after` is the board that a poll at the time `now` leaves behind.
/// A poll that brought a feed result replaces the rows by the board of that
/// result and the time by `now`, and counts as a success. A poll that failed
/// leaves rows and time as they were and counts as a failure.
pub open spec fn polled(
    before: DisplayBoard,
    after: DisplayBoard,
    fetched: Result<Vec<(LineStop, Vec<MonitoredVehicleJourney>)>, FetchError>,
    aliases: AliasMap,
    use_long_name: Option<bool>,
    now: WallClock,
) -> bool {
    match fetched {
        Ok(stops) => {
            &&& after.display_lines matches Some(lines)
            &&& is_display_lines(lines@, stops.deep_view(), aliases, use_long_name == Some(true))
            &&& after.last_successful_request_time == Some(now)
            &&& after.last_request_successful
        },
        Err(_) => {
            &&& after.display_lines == before.display_lines
            &&& after.last_successful_request_time == before.last_successful_request_time
            &&& !after.last_request_successful
        },
    }
}

/// The board's life: a poll that succeeds makes the board fresh; one that
/// fails makes a board with rows stale and leaves an empty board empty.
pub proof fn lemma_phase_after_poll(
    before: DisplayBoard,
    after: DisplayBoard,
    fetched: Result<Vec<(LineStop, Vec<MonitoredVehicleJourney>)>, FetchError>,
    aliases: AliasMap,
    use_long_name: Option<bool>,
    now: WallClock,
)
    requires
        polled(before, after, fetched, aliases, use_long_name, now),
    ensures
        phase_of(after@) == match fetched {
            Ok(_) => BoardPhase::Fresh,
            Err(_) => if phase_of(before@) == BoardPhase::Empty {
                BoardPhase::Empty
            } else {
                BoardPhase::Stale
            },
        },
{
}

/// Records on the board the outcome of a poll made at the time `now`.
pub fn record_poll(
    display_board: &mut DisplayBoard,
    fetched: Result<Vec<(LineStop, Vec<MonitoredVehicleJourney>)>, FetchError>,
    rapid_line_to_parent_map: &AliasTable,
    use_long_name: Option<bool>,
    now: WallClock,
)
    ensures
        polled(
            *old(display_board),
            *final(display_board),
            fetched,
            rapid_line_to_parent_map@,
            use_long_name,
            now,
        ),
{
    match fetched {
        Ok(stops) => {
            let lines = get_display_lines(stops, rapid_line_to_parent_map, use_long_name);
            display_board.display_lines = Some(lines);
            display_board.last_successful_request_time = Some(now);
            display_board.last_request_successful = true;
        },
        Err(_) => {
            display_board.last_request_successful = false;
        },
    }
}

/// Records on the board the outcome of a poll made just now; the time of a
/// success is read from the machine's clock.
pub fn update_display_board(
    display_board: &mut DisplayBoard,
    fetched: Result<Vec<(LineStop, Vec<MonitoredVehicleJourney>)>, FetchError>,
    rapid_line_to_parent_map: &AliasTable,
    use_long_name: Option<bool>,
)
    ensures
        exists|now: WallClock|
            #[trigger] polled(
                *old(display_board),
                *final(display_board),
                fetched,
                rapid_line_to_parent_map@,
                use_long_name,
                now,
            ),
{
    let now = read_wall_clock();
    record_poll(display_board, fetched, rapid_line_to_parent_map, use_long_name, now);
    assert(polled(
        *old(display_board),
        *display_board,
        fetched,
        rapid_line_to_parent_map@,
        use_long_name,
        now,
    ));
}

} // verus!
