//! Arrival board for a transit stop-monitoring feed.
//!
//! A poll of the feed brings, per line and stop, the vehicle journeys that
//! approach it. The board groups their predicted arrivals by display key
//! (a rapid line is shown in the row of its parent line), sorts each row by
//! minutes to arrival, and renders the rows as styled tokens that a terminal
//! panel or a pixel-matrix sign can show. A failed poll leaves the rows of the
//! last success in place.
//!
//! - [`stop_monitor`]: the records of the feed.
//! - [`aliases`]: which line is shown under which.
//! - [`grouping`], [`sorting`]: from a feed result to the rows of the board.
//! - [`style`], [`render`]: from rows to lines of styled tokens.
//! - [`display_board`], [`refresh`]: the board's state and what a poll does to it.
//! - [`terminal`], [`sign`]: the board as each surface shows it.
//! - [`clock`], [`span`]: what the board takes from `chrono` and `superconsole`.
//! - [`rgb_matrix`]: the sign's shape and the failures of its set-up.
//! - [`laws`]: what holds of the pipeline as a whole.
//! - [`text`]: lexical order, decimal numbers, padding.

pub mod aliases;
pub mod clock;
pub mod display_board;
pub mod grouping;
pub mod laws;
pub mod refresh;
pub mod render;
pub mod rgb_matrix;
pub mod sign;
pub mod sorting;
pub mod span;
pub mod stop_monitor;
pub mod style;
pub mod terminal;
pub mod text;
