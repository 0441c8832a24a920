//! What the interface asks the calendar service for: the events between the
//! local midnights that open and close a run of days.
use vstd::prelude::*;
use crate::app::Fault;
use crate::clock::{local_to_utc, wall_to_utc, zone_answer};
use crate::time::{local_wall, valid_date, valid_instant, valid_offset, LocalOffsets, NANOS_PER_DAY};

verus! {

/// `m` is the moment of the local midnight that opens `day`.
pub open spec fn local_midnight(m: int, day: int) -> bool {
    exists|o: int| valid_offset(o) && #[trigger] local_wall(m, o) == day * NANOS_PER_DAY
}

/// The midnight opening `day`, given the zone's answer `z` for it: its
/// moment, or `NoSuchLocalTime` when the answer names none.
pub open spec fn midnight_result(day: int, z: LocalOffsets) -> Result<i128, Fault> {
    match wall_to_utc(day * NANOS_PER_DAY, z) {
        Some(m) => Ok(m as i128),
        None => Err(Fault::NoSuchLocalTime),
    }
}

/// The moment of the local midnight that opens `day` (days since 1970-01-01).
/// An error when the local zone names no single moment for it.
pub fn midnight_of(day: i32) -> (r: Result<i128, Fault>)
    requires
        valid_date(day as int),
    ensures
        exists|z: LocalOffsets| zone_answer(z) && r == #[trigger] midnight_result(day as int, z),
        r matches Ok(m) ==> valid_instant(m as int) && local_midnight(m as int, day as int),
        r matches Err(f) ==> f == Fault::NoSuchLocalTime,
{
    let wall = day as i128 * NANOS_PER_DAY;
    let r = local_to_utc(wall);
    proof {
        let z = choose|z: LocalOffsets| zone_answer(z) && crate::clock::same_moment(r, #[trigger] wall_to_utc(wall as int, z));
        match r {
            Some(m) => assert(Ok::<i128, Fault>(m) == midnight_result(day as int, z)),
            None => assert(Err::<i128, Fault>(Fault::NoSuchLocalTime) == midnight_result(day as int, z)),
        }
    }
    match r {
        Some(m) => Ok(m),
        None => Err(Fault::NoSuchLocalTime),
    }
}

/// The window of a fetch from `start_date` to `end_date`, given the zone's
/// answers for their midnights.
pub open spec fn window_result(start_date: int, end_date: int, z1: LocalOffsets, z2: LocalOffsets) -> Result<(i128, i128), Fault> {
    match (midnight_result(start_date, z1), midnight_result(end_date, z2)) {
        (Ok(a), Ok(b)) => Ok((a, b)),
        _ => Err(Fault::NoSuchLocalTime),
    }
}

/// The moments a fetch of the days from `start_date` up to `end_date` asks
/// for: from the local midnight opening the first to the one opening the
/// last. An error when the local zone names no single moment for either.
pub fn request_window(start_date: i32, end_date: i32) -> (r: Result<(i128, i128), Fault>)
    requires
        valid_date(start_date as int),
        valid_date(end_date as int),
    ensures
        exists|z1: LocalOffsets, z2: LocalOffsets|
            zone_answer(z1) && zone_answer(z2) && r == #[trigger] window_result(start_date as int, end_date as int, z1, z2),
        r matches Ok(w) ==> {
            &&& valid_instant(w.0 as int) && local_midnight(w.0 as int, start_date as int)
            &&& valid_instant(w.1 as int) && local_midnight(w.1 as int, end_date as int)
        },
        r matches Err(f) ==> f == Fault::NoSuchLocalTime,
{
    let start = midnight_of(start_date);
    let ghost z1 = choose|z: LocalOffsets| zone_answer(z) && start == #[trigger] midnight_result(start_date as int, z);
    let start = match start {
        Ok(m) => m,
        Err(f) => {
            proof {
                assert(window_result(start_date as int, end_date as int, z1, LocalOffsets::Gap) == Err::<(i128, i128), Fault>(f));
                assert(zone_answer(LocalOffsets::Gap));
            }
            return Err(f);
        },
    };
    let end = midnight_of(end_date);
    let ghost z2 = choose|z: LocalOffsets| zone_answer(z) && end == #[trigger] midnight_result(end_date as int, z);
    let end = match end {
        Ok(m) => m,
        Err(f) => {
            proof {
                assert(window_result(start_date as int, end_date as int, z1, z2) == Err::<(i128, i128), Fault>(f));
            }
            return Err(f);
        },
    };
    proof {
        assert(window_result(start_date as int, end_date as int, z1, z2) == Ok::<(i128, i128), Fault>((start, end)));
    }
    Ok((start, end))
}

} // verus!
