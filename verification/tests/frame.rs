use j_gcal::app::{ActiveField, App, AppMode, EventPopup, Fault, InsertEvent};
use j_gcal::calendar::{midnight_of, request_window};
use j_gcal::config::{config_file_path, Config};
use j_gcal::event::EventNode;
use j_gcal::screen::{day_column, frame_plan};
use j_gcal::time::LocalTime;
use j_gcal::view::{viewport_from_midnight, Rect};

const T0: i128 = 1_704_067_200_000_000_000;
const MINUTE: i128 = 60_000_000_000;
const DAY0: i32 = 19_723;

fn sample_app() -> App {
    App {
        running: true,
        mode: AppMode::Normal,
        start_date: DAY0 - 1,
        scroll_offset: 420,
        viewport_mins: 360,
        cal_event_nodes: Vec::new(),
        num_days: 3,
        now: LocalTime { utc: T0 + 600 * MINUTE, offset: 0 },
        is_now_timeline_visible: true,
        sel_event_id: None,
        loaded_start: DAY0 - 10,
        loaded_end: DAY0 + 10,
        insert_event: InsertEvent { start_time: T0 + 600 * MINUTE, duration: 30 },
        popup: EventPopup { active_field: ActiveField::Summary },
    }
}

fn local_node(id: &str, day: i32, start_min: i128, end_min: i128) -> EventNode {
    let m = midnight_of(day).expect("a plain midnight");
    EventNode {
        id: id.to_string(),
        summary: id.to_string(),
        description: None,
        start_time: m + start_min * MINUTE,
        end_time: m + end_min * MINUTE,
    }
}

fn inside(outer: &Rect, r: &Rect) -> bool {
    outer.x <= r.x && r.x + r.width <= outer.x + outer.width && outer.y <= r.y && r.y + r.height <= outer.y + outer.height
}

#[test]
fn a_frame_has_headers_a_gutter_and_three_days() {
    let app = sample_app();
    let area = Rect { x: 0, y: 0, width: 80, height: 30 };
    let plan = frame_plan(&app, area).expect("a frame");
    let labels: Vec<&str> = plan.headers.iter().map(|h| h.label.as_str()).collect();
    assert_eq!(labels, vec!["Time", "Sun", "Mon", "Tue"]);
    assert_eq!(plan.headers[0].area.height, 3);
    assert_eq!(plan.gutter_area.x, 0);
    assert_eq!(plan.gutter_area.width, 9);
    assert_eq!(plan.gutter_area.y, 2);
    assert_eq!(plan.gutter.len(), 24);
    assert_eq!(plan.gutter[0], "07:00");
    assert_eq!(plan.gutter[2], "07:30");
    let dates: Vec<i32> = plan.days.iter().map(|d| d.date).collect();
    assert_eq!(dates, vec![DAY0 - 1, DAY0, DAY0 + 1]);
    assert_eq!(plan.days[0].area.x, 8);
    for w in plan.days.windows(2) {
        assert_eq!(w[0].area.x + w[0].area.width - 1, w[1].area.x);
    }
    let last = &plan.days[2].area;
    assert_eq!(last.x + last.width, 80);
    assert!(plan.days.iter().all(|d| d.events.is_empty()));
}

#[test]
fn a_frame_places_each_days_events_in_its_column() {
    let mut app = sample_app();
    app.cal_event_nodes = vec![
        local_node("standup", DAY0, 540, 555),
        local_node("lunch", DAY0, 720, 780),
        local_node("late", DAY0, 1200, 1260),
        local_node("yesterday", DAY0 - 1, 480, 600),
    ];
    app.sel_event_id = Some("lunch".to_string());
    let plan = frame_plan(&app, Rect { x: 0, y: 0, width: 80, height: 30 }).expect("a frame");
    let day = &plan.days[1];
    let inner = Rect { x: day.area.x + 1, y: day.area.y + 1, width: day.area.width - 2, height: day.area.height - 2 };
    let shown: Vec<(usize, u16, u16, bool)> =
        day.events.iter().map(|b| (b.index, b.rect.y - inner.y, b.rect.height, b.selected)).collect();
    assert_eq!(shown, vec![(0, 8, 1, false), (1, 20, 4, true)]);
    assert!(day.events.iter().all(|b| inside(&inner, &b.rect) && b.rect.width == inner.width));
    let first = &plan.days[0];
    assert_eq!(first.events.len(), 1);
    assert_eq!(first.events[0].index, 3);
    assert_eq!(first.events[0].rect.y, first.area.y + 1 + 4);
    assert_eq!(first.events[0].rect.height, 8);
    assert!(plan.days[2].events.is_empty());
}

#[test]
fn a_frame_fails_when_the_view_ends_past_u16() {
    let mut app = sample_app();
    app.viewport_mins = 65_500;
    let r = frame_plan(&app, Rect { x: 0, y: 0, width: 80, height: 30 });
    assert!(matches!(r, Err(Fault::Overflow)));
}

#[test]
fn a_frame_fails_on_days_out_of_range() {
    let mut app = sample_app();
    app.start_date = j_gcal::time::MAX_DATE;
    let r = frame_plan(&app, Rect { x: 0, y: 0, width: 80, height: 30 });
    assert!(matches!(r, Err(Fault::DateOutOfRange)));
}

#[test]
fn a_frame_with_more_days_than_columns_shows_three() {
    let mut app = sample_app();
    app.num_days = 5;
    let plan = frame_plan(&app, Rect { x: 0, y: 0, width: 80, height: 30 }).expect("a frame");
    assert_eq!(plan.headers.len(), 4);
    assert_eq!(plan.days.len(), 3);
}

#[test]
fn the_request_window_runs_from_midnight_to_midnight() {
    let (s, e) = request_window(DAY0, DAY0 + 7).expect("plain midnights");
    assert_eq!(s, midnight_of(DAY0).unwrap());
    assert_eq!(e, midnight_of(DAY0 + 7).unwrap());
    let local = j_gcal::clock::local_time_at(s);
    assert_eq!(s + local.offset as i128 * 1_000_000_000, T0);
}

#[test]
fn the_config_file_lives_under_home() {
    assert_eq!(config_file_path("/home/ana"), "/home/ana/.config/gcal-tui/config.toml");
}

#[test]
fn config_expands_the_client_file_and_keeps_the_calendars() {
    let c = Config::new("/srv/client_secret.json".to_string(), vec!["primary".to_string()]).unwrap();
    assert_eq!(c.client_file, "/srv/client_secret.json");
    assert_eq!(c.calendar_ids, vec!["primary".to_string()]);
    let e = Config::new("$J_GCAL_SURELY_UNSET_VARIABLE/x.json".to_string(), vec![]).unwrap_err();
    assert_eq!(e.var_name, "J_GCAL_SURELY_UNSET_VARIABLE");
}

#[test]
fn a_viewport_follows_its_midnight() {
    assert_eq!(viewport_from_midnight(T0, 420, 780), Ok((T0 + 420 * MINUTE, T0 + 780 * MINUTE)));
    assert_eq!(
        viewport_from_midnight(j_gcal::time::MAX_INSTANT - MINUTE, 0, 60),
        Err(Fault::TimeOutOfRange)
    );
}

#[test]
fn a_day_column_lays_out_its_viewport() {
    let mut app = sample_app();
    app.cal_event_nodes = vec![
        EventNode { id: "a".to_string(), summary: "a".to_string(), description: None, start_time: T0 + 450 * MINUTE, end_time: T0 + 480 * MINUTE },
        EventNode { id: "b".to_string(), summary: "b".to_string(), description: None, start_time: T0 + 460 * MINUTE, end_time: T0 + 500 * MINUTE },
    ];
    let area = Rect { x: 10, y: 5, width: 22, height: 30 };
    let col = day_column(&app, DAY0, area, T0 + 420 * MINUTE, T0 + 780 * MINUTE).expect("fits");
    assert_eq!(col.date, DAY0);
    let boxes: Vec<(usize, u16, u16, u16, u16)> =
        col.events.iter().map(|b| (b.index, b.rect.x, b.rect.y, b.rect.width, b.rect.height)).collect();
    assert_eq!(boxes, vec![(1, 11, 8, 10, 3), (0, 21, 8, 10, 2)]);
    let far = Rect { x: 0, y: 65_534, width: 10, height: 10 };
    assert!(matches!(
        day_column(&app, DAY0, far, T0 + 420 * MINUTE, T0 + 780 * MINUTE),
        Err(Fault::Overflow)
    ));
}

#[test]
fn a_frame_without_days_succeeds() {
    let mut app = sample_app();
    app.num_days = 0;
    let plan = frame_plan(&app, Rect { x: 0, y: 0, width: 80, height: 30 }).expect("a frame");
    assert!(plan.days.is_empty());
    assert_eq!(plan.headers.len(), 1);
}
