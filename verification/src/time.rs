//! Instants, dates and the local time zone, modelled as plain integers.
//!
//! An instant is a count of nanoseconds since 1970-01-01T00:00:00Z (no leap
//! seconds), a date is a count of days since 1970-01-01, a duration of the
//! insert cursor is a count of whole minutes, and the local time zone is the
//! offset in seconds that the machine's zone database gives for a moment.
//! The ranges are chrono's: an instant outside them has no `DateTime`.
use vstd::prelude::*;

verus! {

/// Nanoseconds per second.
pub const NANOS_PER_SECOND: i128 = 1_000_000_000;

/// Nanoseconds per minute.
pub const NANOS_PER_MINUTE: i128 = 60_000_000_000;

/// Nanoseconds per day.
pub const NANOS_PER_DAY: i128 = 86_400_000_000_000;

/// The first representable date (-262143-01-01), in days since 1970-01-01.
pub const MIN_DATE: i32 = -96_465_292;

/// The last representable date (262142-12-31), in days since 1970-01-01.
pub const MAX_DATE: i32 = 95_026_236;

/// The first representable instant: midnight of `MIN_DATE`.
pub const MIN_INSTANT: i128 = -8_334_601_228_800_000_000_000;

/// The last representable instant: the last nanosecond of `MAX_DATE`.
pub const MAX_INSTANT: i128 = 8_210_266_876_799_999_999_999;

/// The largest duration in whole minutes (a duration holds at most `i64::MAX` milliseconds).
pub const MAX_DELTA_MINUTES: i64 = 153_722_867_280_912;

/// Days added to a reading before a division, so that the dividend is never negative.
const DAY_SHIFT: i128 = 100_000_000;

/// A date chrono can hold.
pub open spec fn valid_date(d: int) -> bool {
    MIN_DATE <= d <= MAX_DATE
}

/// An instant chrono can hold.
pub open spec fn valid_instant(t: int) -> bool {
    MIN_INSTANT <= t <= MAX_INSTANT
}

/// An offset of a time zone from UTC, in seconds: strictly less than a day either way.
pub open spec fn valid_offset(o: int) -> bool {
    -86_400 < o < 86_400
}

/// A duration in minutes chrono can hold.
pub open spec fn valid_delta_minutes(m: int) -> bool {
    -MAX_DELTA_MINUTES <= m <= MAX_DELTA_MINUTES
}

/// The date of a clock reading (an instant, or a local wall-clock time read as one).
pub open spec fn date_of(wall: int) -> int {
    wall / (NANOS_PER_DAY as int)
}

/// Minutes since midnight of a clock reading.
pub open spec fn minute_of_day(wall: int) -> int {
    (wall % (NANOS_PER_DAY as int)) / (NANOS_PER_MINUTE as int)
}

/// The local wall-clock reading of the instant `utc` in a zone `offset` seconds ahead of UTC.
pub open spec fn local_wall(utc: int, offset: int) -> int {
    utc + offset * NANOS_PER_SECOND
}

/// Division that rounds toward zero, as Rust's integer `/` does.
pub open spec fn div_trunc(a: int, b: int) -> int {
    if a >= 0 {
        a / b
    } else {
        -((-a) / b)
    }
}

/// Whole minutes in a span of `nanos` nanoseconds, rounded toward zero.
pub open spec fn num_minutes(nanos: int) -> int {
    div_trunc(nanos, NANOS_PER_MINUTE as int)
}

/// A moment together with the offset of the local zone at that moment.
#[derive(Clone, Copy, Debug, PartialEq, Eq)]
pub struct LocalTime {
    /// The moment, in nanoseconds since the epoch.
    pub utc: i128,
    /// The local zone's offset from UTC at that moment, in seconds.
    pub offset: i32,
}

impl LocalTime {
    /// The moment is representable and the offset a zone's.
    pub open spec fn wf(self) -> bool {
        valid_instant(self.utc as int) && valid_offset(self.offset as int)
    }

    /// The local wall-clock reading.
    pub open spec fn wall(self) -> int {
        local_wall(self.utc as int, self.offset as int)
    }

    /// The local date.
    pub open spec fn date(self) -> int {
        date_of(self.wall())
    }

    /// Local minutes since midnight.
    pub open spec fn minute_of_day(self) -> int {
        minute_of_day(self.wall())
    }
}

/// The local zone's answer for a wall-clock time: no such time (a gap), one
/// instant, or two (a fold). Each offset is in seconds east of UTC.
#[derive(Clone, Copy, Debug, PartialEq, Eq)]
pub enum LocalOffsets {
    Gap,
    Single(i32),
    Fold(i32, i32),
}

/// The date and the minute of the day of a reading within a day of the
/// representable range.
pub proof fn lemma_date_bounds(wall: int)
    requires
        MIN_INSTANT - NANOS_PER_DAY <= wall <= MAX_INSTANT + NANOS_PER_DAY,
    ensures
        MIN_DATE - 1 <= date_of(wall) <= MAX_DATE + 1,
        0 <= minute_of_day(wall) < 1440,
{
    assert(0 <= wall % (NANOS_PER_DAY as int) < NANOS_PER_DAY);
    assert((MIN_DATE - 1) * NANOS_PER_DAY <= wall < (MAX_DATE + 2) * NANOS_PER_DAY);
    assert((MIN_DATE - 1) <= date_of(wall) <= MAX_DATE + 1) by (nonlinear_arith)
        requires
            (MIN_DATE - 1) * NANOS_PER_DAY <= wall < (MAX_DATE + 2) * NANOS_PER_DAY,
            date_of(wall) == wall / (NANOS_PER_DAY as int),
    ;
}

/// Adding whole multiples of `d` shifts the quotient and keeps the remainder.
proof fn lemma_shift_div(wall: int, k: int, d: int)
    requires
        d > 0,
    ensures
        (wall + k * d) / d == wall / d + k,
        (wall + k * d) % d == wall % d,
{
    vstd::arithmetic::div_mod::lemma_fundamental_div_mod(wall, d);
    vstd::arithmetic::div_mod::lemma_fundamental_div_mod(wall + k * d, d);
    vstd::arithmetic::div_mod::lemma_div_multiples_vanish_fancy(k + wall / d, wall % d, d);
    vstd::arithmetic::div_mod::lemma_mod_multiples_vanish(k + wall / d, wall % d, d);
    vstd::arithmetic::div_mod::lemma_small_mod((wall % d) as nat, d as nat);
    assert((k + wall / d) * d + wall % d == wall + k * d) by (nonlinear_arith)
        requires
            wall == d * (wall / d) + wall % d,
    ;
}

/// The date of a clock reading.
pub fn date_of_wall(wall: i128) -> (d: i32)
    requires
        MIN_INSTANT - NANOS_PER_DAY <= wall <= MAX_INSTANT + NANOS_PER_DAY,
    ensures
        d == date_of(wall as int),
{
    proof {
        lemma_shift_div(wall as int, DAY_SHIFT as int, NANOS_PER_DAY as int);
        lemma_date_bounds(wall as int);
    }
    let shifted = wall + DAY_SHIFT * NANOS_PER_DAY;
    let q = shifted / NANOS_PER_DAY - DAY_SHIFT;
    q as i32
}

/// Minutes since midnight of a clock reading.
pub fn minute_of_day_of_wall(wall: i128) -> (m: u16)
    requires
        MIN_INSTANT - NANOS_PER_DAY <= wall <= MAX_INSTANT + NANOS_PER_DAY,
    ensures
        m == minute_of_day(wall as int),
        m < 1440,
{
    proof {
        lemma_shift_div(wall as int, DAY_SHIFT as int, NANOS_PER_DAY as int);
        lemma_date_bounds(wall as int);
    }
    let shifted = wall + DAY_SHIFT * NANOS_PER_DAY;
    let m = (shifted % NANOS_PER_DAY) / NANOS_PER_MINUTE;
    m as u16
}

/// Whole minutes in a span, rounded toward zero (`TimeDelta::num_minutes`).
pub fn minutes_in(nanos: i128) -> (m: i128)
    requires
        MIN_INSTANT - MAX_INSTANT <= nanos <= MAX_INSTANT - MIN_INSTANT,
    ensures
        m == num_minutes(nanos as int),
{
    if nanos >= 0 {
        nanos / NANOS_PER_MINUTE
    } else {
        -((-nanos) / NANOS_PER_MINUTE)
    }
}

} // verus!
