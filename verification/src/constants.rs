use vstd::prelude::*;

verus! {

/// Minutes in a day.
pub const MINUTES_IN_DAY: u16 = 24 * 60;

/// Minutes after midnight at the top of the view when the interface starts.
pub const SCROLL_OFFSET_MINS: u16 = 7 * 60;

/// Minutes the view spans when the interface starts.
pub const VIEWPORT_MINS: u16 = 6 * 60;

/// Rows of the grid per hour.
pub const ROWS_PER_HOUR: u16 = 4;

/// Minutes per row of the grid.
pub const RESOLUTION_IN_MINS: u16 = 60 / ROWS_PER_HOUR;

/// Days to display in the interface.
pub const NUM_DAYS: i32 = 3;

/// Determines when to fetch new events, in days.
pub const BUFFER_DAYS: i32 = 3;

/// Days fetched at once when paging.
pub const FETCH_DAYS: i32 = 7;

/// Days shown before the current day.
pub const START_OFFSET: i32 = 1;

} // verus!
