//! The machine's clock and time zone, and the textual form of a wall-clock
//! time, through chrono. Every moment and reading handed to or taken from
//! chrono here is a count of nanoseconds (see `time`).
use chrono::{DateTime, Local, MappedLocalTime, NaiveDateTime, TimeZone, Utc};
use vstd::prelude::*;
use crate::time::{
    local_wall, valid_date, valid_instant, valid_offset, LocalOffsets, LocalTime, MAX_INSTANT, MIN_INSTANT,
    NANOS_PER_SECOND,
};

verus! {

/// The format of a wall-clock time in the event popup.
pub const TIME_FORMAT: &'static str = "%Y-%m-%d %H:%M";

/// The first whole second of a representable instant.
pub const MIN_SECONDS: i64 = -8_334_601_228_800;

/// The last whole second of a representable instant.
pub const MAX_SECONDS: i64 = 8_210_266_876_799;

/// What `NaiveDateTime::parse_from_str` yields for a text and a format: the
/// reading as whole seconds since the epoch and nanoseconds past them.
pub uninterp spec fn parsed_reading(text: Seq<char>, fmt: Seq<char>) -> Option<(i64, u32)>;

/// What `NaiveDateTime::format(..).to_string()` yields for a reading given as
/// whole seconds since the epoch and nanoseconds past them, and a format.
pub uninterp spec fn formatted_reading(secs: i64, nanos: u32, fmt: Seq<char>) -> Seq<char>;

/// What `NaiveDate::format(..).to_string()` yields for a date (in days
/// since 1970-01-01) and a format.
pub uninterp spec fn formatted_date(day: i32, fmt: Seq<char>) -> Seq<char>;

/// What `str::trim` leaves of a text.
pub uninterp spec fn trimmed(text: Seq<char>) -> Seq<char>;

/// `Utc::now`, as whole seconds since the epoch and nanoseconds past them.
/// Claimed: chrono panics on a clock before the epoch and on one past the last
/// representable second, so the seconds lie between those; the nanoseconds
/// come from `Duration::subsec_nanos` and are below a second. Nothing is said
/// of which moment it is.
#[verifier::external_body]
fn utc_now_parts() -> (r: (i64, u32))
    ensures
        0 <= r.0 <= MAX_SECONDS,
        r.1 < 1_000_000_000,
{
    let now = Utc::now();
    (now.timestamp(), now.timestamp_subsec_nanos())
}

/// `Local.offset_from_utc_datetime(..).local_minus_utc()`: the machine zone's
/// offset at a moment. Claimed: it is a `FixedOffset`, whose offset chrono keeps
/// strictly within a day. Which offset it is depends on the machine's zone.
#[verifier::external_body]
fn local_offset_at_parts(secs: i64, nanos: u32) -> (o: i32)
    requires
        MIN_SECONDS <= secs <= MAX_SECONDS,
        nanos < 1_000_000_000,
    ensures
        valid_offset(o as int),
{
    let utc = DateTime::from_timestamp(secs, nanos).expect("a representable moment");
    Local.offset_from_utc_datetime(&utc.naive_utc()).local_minus_utc()
}

/// `Local.offset_from_local_datetime(..)`: the offsets the machine's zone gives
/// for a wall-clock reading. Claimed: each is a `FixedOffset`, strictly within a
/// day. Which case comes back depends on the machine's zone.
#[verifier::external_body]
fn local_offsets_for_parts(secs: i64, nanos: u32) -> (r: LocalOffsets)
    requires
        MIN_SECONDS <= secs <= MAX_SECONDS,
        nanos < 1_000_000_000,
    ensures
        r matches LocalOffsets::Single(o) ==> valid_offset(o as int),
        r matches LocalOffsets::Fold(a, b) ==> valid_offset(a as int) && valid_offset(b as int),
{
    let wall = DateTime::from_timestamp(secs, nanos).expect("a representable reading").naive_utc();
    match Local.offset_from_local_datetime(&wall) {
        MappedLocalTime::None => LocalOffsets::Gap,
        MappedLocalTime::Single(o) => LocalOffsets::Single(o.local_minus_utc()),
        MappedLocalTime::Ambiguous(a, b) => LocalOffsets::Fold(a.local_minus_utc(), b.local_minus_utc()),
    }
}

/// `NaiveDateTime::parse_from_str`. Its result is named (`parsed_reading`);
/// further claimed, for the one format it is called with: a parsed value is a
/// representable `NaiveDateTime`, and as the format has neither seconds nor a
/// fraction, chrono sets both to zero.
#[verifier::external_body]
fn parse_reading_parts(text: &str, fmt: &str) -> (r: Option<(i64, u32)>)
    requires
        fmt@ == TIME_FORMAT@,
    ensures
        r == parsed_reading(text@, fmt@),
        r matches Some(p) ==> MIN_SECONDS <= p.0 <= MAX_SECONDS && p.1 == 0 && p.0 % 60 == 0,
{
    match NaiveDateTime::parse_from_str(text, fmt) {
        Ok(n) => Some((n.and_utc().timestamp(), n.and_utc().timestamp_subsec_nanos())),
        Err(_) => None,
    }
}

/// `NaiveDateTime::format(fmt).to_string()`, for the one valid format it is
/// called with. Its result is named (`formatted_reading`). Further claimed,
/// from chrono's source: `%Y` writes the year zero-padded to four digits,
/// with a sign before year 0 and after 9999 (format/formatting.rs,
/// `write_year`), and `parse_from_str` reads such a year back, signed or not
/// (format/parse.rs); `%m`, `%d`, `%H` and `%M` are two digits each. So for a
/// whole minute, `parse_from_str` with the same format reads the text back as
/// the same reading, and the text begins with a digit or a sign and ends with
/// a digit, so that `str::trim` leaves it whole.
#[verifier::external_body]
fn format_reading_parts(secs: i64, nanos: u32, fmt: &str) -> (r: String)
    requires
        MIN_SECONDS <= secs <= MAX_SECONDS,
        nanos < 1_000_000_000,
        fmt@ == TIME_FORMAT@,
    ensures
        r@ == formatted_reading(secs, nanos, fmt@),
        secs % 60 == 0 && nanos == 0 ==> {
            &&& parsed_reading(r@, fmt@) == Some((secs, 0u32))
            &&& trimmed(r@) == r@
        },
{
    DateTime::from_timestamp(secs, nanos).expect("a representable reading").naive_utc().format(fmt).to_string()
}

/// The English abbreviation of the weekday of `day` (days since 1970-01-01,
/// a Thursday).
pub open spec fn short_weekday(day: int) -> Seq<char> {
    let names = seq![
        seq!['S', 'u', 'n'],
        seq!['M', 'o', 'n'],
        seq!['T', 'u', 'e'],
        seq!['W', 'e', 'd'],
        seq!['T', 'h', 'u'],
        seq!['F', 'r', 'i'],
        seq!['S', 'a', 't'],
    ];
    names[(day + 4) % 7]
}

/// A character of Unicode's White_Space property (`char::is_whitespace`).
pub open spec fn is_white_space(c: char) -> bool {
    ||| '\u{9}' <= c <= '\u{d}'
    ||| c == ' '
    ||| c == '\u{85}'
    ||| c == '\u{a0}'
    ||| c == '\u{1680}'
    ||| '\u{2000}' <= c <= '\u{200a}'
    ||| c == '\u{2028}'
    ||| c == '\u{2029}'
    ||| c == '\u{202f}'
    ||| c == '\u{205f}'
    ||| c == '\u{3000}'
}

/// `r` is `text` from `i` up to `j`, with only whitespace before `i` and
/// after `j`, and no whitespace at either end of `r`.
pub open spec fn trimmed_at(text: Seq<char>, r: Seq<char>, i: int, j: int) -> bool {
    &&& 0 <= i <= j <= text.len()
    &&& r == text.subrange(i, j)
    &&& forall|k: int| 0 <= k < i ==> is_white_space(#[trigger] text[k])
    &&& forall|k: int| j <= k < text.len() ==> is_white_space(#[trigger] text[k])
    &&& i < j ==> !is_white_space(text[i]) && !is_white_space(text[j - 1])
}

/// `NaiveDate::format(fmt).to_string()`, for the one valid format it is
/// called with. Its result is named (`formatted_date`); further claimed, from
/// chrono's source (format/formatting.rs, `ShortWeekdayName`, and the English
/// `short_weekdays` of format/locales.rs): it is the weekday's English
/// abbreviation.
#[verifier::external_body]
fn format_date_parts(day: i32, fmt: &str) -> (r: String)
    requires
        valid_date(day as int),
        fmt@ == DAY_FORMAT@,
    ensures
        r@ == formatted_date(day, fmt@),
        r@ == short_weekday(day as int),
{
    chrono::NaiveDate::from_epoch_days(day).expect("a representable date").format(fmt).to_string()
}

/// The format of a day's header: the weekday's abbreviation.
pub const DAY_FORMAT: &'static str = "%a";

/// The header of a day's column.
pub fn format_day(day: i32) -> (r: String)
    requires
        valid_date(day as int),
    ensures
        r@ == formatted_date(day, DAY_FORMAT@),
        r@ == short_weekday(day as int),
{
    format_date_parts(day, DAY_FORMAT)
}

/// `str::trim`. Its result is named (`trimmed`); further claimed, from its
/// documentation: it is the text with leading and trailing whitespace
/// (Unicode's White_Space property) removed.
#[verifier::external_body]
pub(crate) fn trim_text(text: &str) -> (r: &str)
    ensures
        r@ == trimmed(text@),
        exists|i: int, j: int| trimmed_at(text@, r@, i, j),
{
    text.trim()
}

/// Splits a reading into whole seconds (rounded down) and the nanoseconds past them.
pub fn split_reading(t: i128) -> (r: (i64, u32))
    requires
        valid_instant(t as int),
    ensures
        r.0 as int * NANOS_PER_SECOND + r.1 as int == t,
        r.0 == t as int / (NANOS_PER_SECOND as int),
        r.1 == t as int % (NANOS_PER_SECOND as int),
        MIN_SECONDS <= r.0 <= MAX_SECONDS,
        r.1 < 1_000_000_000,
{
    let shift: i128 = 10_000_000_000_000;
    let shifted = t + shift * NANOS_PER_SECOND;
    proof {
        assert(shifted >= 0);
        vstd::arithmetic::div_mod::lemma_fundamental_div_mod(shifted as int, NANOS_PER_SECOND as int);
    }
    let secs = shifted / NANOS_PER_SECOND - shift;
    let nanos = shifted % NANOS_PER_SECOND;
    proof {
        assert(secs * NANOS_PER_SECOND + nanos == t) by (nonlinear_arith)
            requires
                shifted == NANOS_PER_SECOND * (shifted / NANOS_PER_SECOND) + shifted % NANOS_PER_SECOND,
                secs == shifted / NANOS_PER_SECOND - shift,
                nanos == shifted % NANOS_PER_SECOND,
                shifted == t + shift * NANOS_PER_SECOND,
        ;
        vstd::arithmetic::div_mod::lemma_fundamental_div_mod_converse(
            t as int,
            NANOS_PER_SECOND as int,
            secs as int,
            nanos as int,
        );
        assert(MIN_SECONDS <= secs <= MAX_SECONDS) by (nonlinear_arith)
            requires
                secs * NANOS_PER_SECOND + nanos == t,
                0 <= nanos < NANOS_PER_SECOND,
                MIN_INSTANT <= t <= MAX_INSTANT,
        ;
    }
    (secs as i64, nanos as u32)
}

/// The current moment with the local zone's offset at it (`Local::now`).
pub fn now() -> (r: LocalTime)
    ensures
        r.wf(),
        r.utc >= 0,
{
    let (secs, nanos) = utc_now_parts();
    let utc = secs as i128 * NANOS_PER_SECOND + nanos as i128;
    let offset = local_offset_at_parts(secs, nanos);
    LocalTime { utc, offset }
}

/// A moment seen in the local zone (`with_timezone(&Local)`).
pub fn local_time_at(t: i128) -> (r: LocalTime)
    requires
        valid_instant(t as int),
    ensures
        r.utc == t,
        r.wf(),
{
    let (secs, nanos) = split_reading(t);
    let offset = local_offset_at_parts(secs, nanos);
    LocalTime { utc: t, offset }
}

/// An answer the local zone can give for a wall-clock reading: each offset
/// it names is strictly within a day.
pub open spec fn zone_answer(z: LocalOffsets) -> bool {
    match z {
        LocalOffsets::Gap => true,
        LocalOffsets::Single(o) => valid_offset(o as int),
        LocalOffsets::Fold(a, b) => valid_offset(a as int) && valid_offset(b as int),
    }
}

/// The moment a wall-clock reading names, given the zone's answer for it:
/// with a single offset, the reading less the offset, when that moment is
/// representable; in a gap or a fold, none.
pub open spec fn wall_to_utc(wall: int, z: LocalOffsets) -> Option<int> {
    match z {
        LocalOffsets::Single(o) => {
            let u = wall - o * NANOS_PER_SECOND;
            if valid_instant(u) { Some(u) } else { None }
        },
        _ => None,
    }
}

/// `r` holds the moment `m`, or nothing when there is none.
pub open spec fn same_moment(r: Option<i128>, m: Option<int>) -> bool {
    match r {
        Some(u) => m == Some(u as int),
        None => m is None,
    }
}

/// The moment a wall-clock reading names, given the zone's answer for it
/// (see `wall_to_utc`).
pub fn utc_of_wall(wall: i128, offsets: LocalOffsets) -> (r: Option<i128>)
    requires
        valid_instant(wall as int),
    ensures
        same_moment(r, wall_to_utc(wall as int, offsets)),
{
    match offsets {
        LocalOffsets::Single(o) => {
            let u = wall - o as i128 * NANOS_PER_SECOND;
            if MIN_INSTANT <= u && u <= MAX_INSTANT {
                Some(u)
            } else {
                None
            }
        },
        _ => None,
    }
}

/// A moment the zone's answer gives for a reading is one that reads so at a
/// valid offset.
pub proof fn lemma_wall_to_utc_reads_back(wall: int, z: LocalOffsets)
    requires
        zone_answer(z),
        wall_to_utc(wall, z) is Some,
    ensures
        valid_instant(wall_to_utc(wall, z)->0),
        exists|o: int| valid_offset(o) && #[trigger] local_wall(wall_to_utc(wall, z)->0, o) == wall,
{
    if let LocalOffsets::Single(o) = z {
        assert(local_wall(wall_to_utc(wall, z)->0, o as int) == wall);
    }
}

/// The moment a local wall-clock reading names, when the zone gives exactly
/// one and it is representable (`Local.from_local_datetime(..).single()`):
/// `utc_of_wall` of the zone's answer, whichever answer the machine's zone gives.
pub fn local_to_utc(wall: i128) -> (r: Option<i128>)
    requires
        valid_instant(wall as int),
    ensures
        exists|z: LocalOffsets| zone_answer(z) && same_moment(r, #[trigger] wall_to_utc(wall as int, z)),
        r matches Some(u) ==> valid_instant(u as int) && exists|o: int|
            valid_offset(o) && #[trigger] local_wall(u as int, o) == wall,
{
    let (secs, nanos) = split_reading(wall);
    let z = local_offsets_for_parts(secs, nanos);
    let r = utc_of_wall(wall, z);
    proof {
        assert(zone_answer(z));
        if r is Some {
            lemma_wall_to_utc_reads_back(wall as int, z);
        }
    }
    r
}

/// The local wall-clock reading a text names in `TIME_FORMAT`, in nanoseconds.
pub open spec fn parsed_wall(text: Seq<char>) -> Option<int> {
    match parsed_reading(text, TIME_FORMAT@) {
        Some(p) => Some(p.0 as int * NANOS_PER_SECOND + p.1 as int),
        None => None,
    }
}

/// Parses a local wall-clock reading in `TIME_FORMAT`.
pub fn parse_reading(text: &str) -> (r: Option<i128>)
    ensures
        match parsed_wall(text@) {
            Some(w) => r == Some(w as i128),
            None => r is None,
        },
        r matches Some(w) ==> valid_instant(w as int),
{
    match parse_reading_parts(text, TIME_FORMAT) {
        Some((secs, nanos)) => Some(secs as i128 * NANOS_PER_SECOND + nanos as i128),
        None => None,
    }
}

/// A whole minute, in nanoseconds.
pub open spec fn whole_minute(wall: int) -> bool {
    wall % (60 * NANOS_PER_SECOND) == 0
}

/// Writes a local wall-clock reading in `TIME_FORMAT`.
pub fn format_reading(wall: i128) -> (r: String)
    requires
        valid_instant(wall as int),
    ensures
        r@ == formatted_reading(
            (wall as int / (NANOS_PER_SECOND as int)) as i64,
            (wall as int % (NANOS_PER_SECOND as int)) as u32,
            TIME_FORMAT@,
        ),
        whole_minute(wall as int) ==> parsed_wall(trimmed(r@)) == Some(wall as int),
{
    let (secs, nanos) = split_reading(wall);
    proof {
        if whole_minute(wall as int) {
            let k = wall as int / (60 * NANOS_PER_SECOND);
            vstd::arithmetic::div_mod::lemma_fundamental_div_mod(wall as int, 60 * NANOS_PER_SECOND);
            assert(wall as int == (60 * k) * NANOS_PER_SECOND) by (nonlinear_arith)
                requires
                    wall as int == 60 * NANOS_PER_SECOND * k + wall as int % (60 * NANOS_PER_SECOND),
                    wall as int % (60 * NANOS_PER_SECOND) == 0,
            ;
            vstd::arithmetic::div_mod::lemma_fundamental_div_mod_converse(
                wall as int,
                NANOS_PER_SECOND as int,
                60 * k,
                0,
            );
            vstd::arithmetic::div_mod::lemma_mod_multiples_basic(k, 60);
            assert(secs as int == 60 * k);
        }
    }
    format_reading_parts(secs, nanos, TIME_FORMAT)
}

} // verus!
