use j_gcal::app::{add_days, add_minutes, sub_days};
use j_gcal::clock::{
    format_day, format_reading, local_time_at, local_to_utc, now, parse_reading, split_reading,
};
use j_gcal::clock::utc_of_wall;
use j_gcal::config::expand_filepath;
use j_gcal::time::LocalOffsets;
use j_gcal::event::{event_nodes_from, sort_by_start, CalendarEvent, EventNode};
use j_gcal::text::join_lines;
use j_gcal::time::{date_of_wall, minute_of_day_of_wall, minutes_in, MAX_DATE, MIN_DATE};

const T0: i128 = 1_704_067_200_000_000_000;
const MINUTE: i128 = 60_000_000_000;
const DAY0: i32 = 19_723;

fn cal_event(id: Option<&str>, summary: Option<&str>, start: Option<i128>, end: Option<i128>) -> CalendarEvent {
    CalendarEvent {
        id: id.map(|s| s.to_string()),
        summary: summary.map(|s| s.to_string()),
        description: None,
        start_time: start,
        end_time: end,
    }
}

fn node(id: &str, start: i128) -> EventNode {
    EventNode {
        id: id.to_string(),
        summary: id.to_string(),
        description: None,
        start_time: start,
        end_time: start + MINUTE,
    }
}

#[test]
fn a_reading_parses_and_formats_in_the_popup_format() {
    assert_eq!(parse_reading("2024-01-02 12:30"), Some(T0 + (1440 + 750) * MINUTE));
    assert_eq!(parse_reading("1970-01-01 00:00"), Some(0));
    assert_eq!(parse_reading("2024-01-02"), None);
    assert_eq!(parse_reading("2024-13-02 12:30"), None);
    assert_eq!(format_reading(T0 + (1440 + 750) * MINUTE), "2024-01-02 12:30");
    assert_eq!(format_reading(0), "1970-01-01 00:00");
    assert_eq!(format_reading(-MINUTE), "1969-12-31 23:59");
}

#[test]
fn the_day_header_is_the_weekday() {
    assert_eq!(format_day(0), "Thu");
    assert_eq!(format_day(DAY0), "Mon");
    assert_eq!(format_day(-1), "Wed");
}

#[test]
fn join_lines_puts_the_separator_between_lines() {
    let lines = vec!["a".to_string(), "b".to_string(), "c".to_string()];
    assert_eq!(join_lines(&lines, "\n"), "a\nb\nc");
    assert_eq!(join_lines(&lines, ""), "abc");
    assert_eq!(join_lines(&vec![], "\n"), "");
    assert_eq!(join_lines(&vec!["one".to_string()], ", "), "one");
}

#[test]
fn a_moment_splits_into_seconds_and_nanoseconds() {
    assert_eq!(split_reading(1_500_000_000), (1, 500_000_000));
    assert_eq!(split_reading(-1), (-1, 999_999_999));
    assert_eq!(split_reading(0), (0, 0));
}

#[test]
fn dates_and_minutes_of_a_reading() {
    assert_eq!(date_of_wall(T0), DAY0);
    assert_eq!(date_of_wall(-1), -1);
    assert_eq!(minute_of_day_of_wall(T0 + 754 * MINUTE + 59_000_000_000), 754);
    assert_eq!(minute_of_day_of_wall(-MINUTE), 1439);
    assert_eq!(minutes_in(90 * MINUTE + 1), 90);
    assert_eq!(minutes_in(-(90 * MINUTE) - 1), -90);
}

#[test]
fn day_and_minute_arithmetic_stays_in_range() {
    assert_eq!(add_days(DAY0, 7), Some(DAY0 + 7));
    assert_eq!(sub_days(DAY0, 7), Some(DAY0 - 7));
    assert_eq!(add_days(MAX_DATE, 1), None);
    assert_eq!(sub_days(MIN_DATE, 1), None);
    assert_eq!(add_minutes(T0, 15), Some(T0 + 15 * MINUTE));
    assert_eq!(add_minutes(j_gcal::time::MAX_INSTANT, 1), None);
}

#[test]
fn the_clock_reads_a_moment_after_the_epoch() {
    let t = now();
    assert!(t.utc >= 0);
    assert!(t.offset > -86_400 && t.offset < 86_400);
    let later = now();
    assert!(later.utc >= t.utc);
}

#[test]
fn the_local_zone_gives_a_moment_back_its_reading() {
    let l = local_time_at(T0);
    assert_eq!(l.utc, T0);
    let wall = T0 + l.offset as i128 * 1_000_000_000;
    assert_eq!(local_to_utc(wall), Some(T0));
}

#[test]
fn calendar_events_need_a_start_and_an_end() {
    let events = vec![
        cal_event(Some("1"), Some("Standup"), Some(T0), Some(T0 + 15 * MINUTE)),
        cal_event(Some("2"), Some("All day"), None, None),
        cal_event(Some("3"), None, Some(T0 + MINUTE), Some(T0 + 2 * MINUTE)),
        cal_event(None, Some("No end"), Some(T0), None),
    ];
    let nodes = event_nodes_from(events);
    assert_eq!(nodes.len(), 2);
    assert_eq!(nodes[0].id, "1");
    assert_eq!(nodes[0].summary, "Standup");
    assert_eq!(nodes[0].end_time, T0 + 15 * MINUTE);
    assert_eq!(nodes[1].id, "3");
    assert_eq!(nodes[1].summary, "Untitled");
    assert_eq!(nodes[1].start_time, T0 + MINUTE);
}

#[test]
fn a_single_calendar_event_converts_or_is_refused() {
    let ok = EventNode::try_from_event(cal_event(Some("x"), None, Some(T0), Some(T0 + MINUTE)));
    let n = ok.expect("has a start and an end");
    assert_eq!(n.summary, "Untitled");
    assert_eq!(n.id, "x");
    assert!(EventNode::try_from_event(cal_event(Some("y"), Some("s"), None, Some(T0))).is_err());
}

#[test]
fn sorting_by_start_keeps_ties_in_order() {
    let events = vec![node("c", T0 + 2 * MINUTE), node("a1", T0), node("b", T0 + MINUTE), node("a2", T0)];
    let sorted = sort_by_start(events);
    let ids: Vec<&str> = sorted.iter().map(|n| n.id.as_str()).collect();
    assert_eq!(ids, vec!["a1", "a2", "b", "c"]);
    assert!(sort_by_start(vec![]).is_empty());
}

#[test]
fn a_plain_path_is_kept_and_an_unset_variable_is_an_error() {
    assert_eq!(expand_filepath("/etc/gcal/client.json").unwrap(), "/etc/gcal/client.json");
    let err = expand_filepath("$J_GCAL_SURELY_UNSET_VARIABLE/client.json").unwrap_err();
    assert_eq!(err.var_name, "J_GCAL_SURELY_UNSET_VARIABLE");
}

#[test]
fn the_zone_answer_gives_the_moment_of_a_reading() {
    assert_eq!(utc_of_wall(T0, LocalOffsets::Single(3600)), Some(T0 - 3_600_000_000_000));
    assert_eq!(utc_of_wall(T0, LocalOffsets::Single(-7200)), Some(T0 + 7_200_000_000_000));
    assert_eq!(utc_of_wall(T0, LocalOffsets::Gap), None);
    assert_eq!(utc_of_wall(T0, LocalOffsets::Fold(3600, 7200)), None);
    assert_eq!(utc_of_wall(j_gcal::time::MIN_INSTANT, LocalOffsets::Single(60)), None);
}

#[test]
fn readings_outside_four_digit_years_round_trip() {
    let far = 399_999_999_960i128 * 1_000_000_000;
    let text = format_reading(far);
    assert!(text.starts_with('+'));
    assert_eq!(parse_reading(&text), Some(far));
    let early = -66_000_000_000i128 * 1_000_000_000;
    let text = format_reading(early);
    assert!(text.starts_with('-'));
    assert_eq!(parse_reading(&text), Some(early));
    let year_zero = -62_167_219_200i128 * 1_000_000_000;
    assert_eq!(format_reading(year_zero), "0000-01-01 00:00");
    assert_eq!(parse_reading("0000-01-01 00:00"), Some(year_zero));
}

#[test]
fn a_path_under_home_keeps_what_follows_the_tilde() {
    let expanded = expand_filepath("~/gcal/client.json").unwrap();
    assert!(expanded.ends_with("/gcal/client.json"));
    let bare = expand_filepath("~").unwrap();
    assert!(!bare.is_empty());
}
