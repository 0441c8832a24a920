use j_gcal::app::{ActiveField, App, AppMode, Effect, EventPopup, Fault, InsertEvent};
use j_gcal::event::{AppEvent, EventNode, EventsFetched};
use j_gcal::time::LocalTime;

const T0: i128 = 1_704_067_200_000_000_000;
const MINUTE: i128 = 60_000_000_000;
const DAY0: i32 = 19_723;

fn sample_app() -> App {
    App {
        running: true,
        mode: AppMode::Normal,
        start_date: DAY0 - 1,
        scroll_offset: 420,
        viewport_mins: 360,
        cal_event_nodes: Vec::new(),
        num_days: 3,
        now: LocalTime { utc: T0 + 600 * MINUTE, offset: 0 },
        is_now_timeline_visible: true,
        sel_event_id: None,
        loaded_start: DAY0 - 10,
        loaded_end: DAY0 + 10,
        insert_event: InsertEvent { start_time: T0 + 600 * MINUTE, duration: 30 },
        popup: EventPopup { active_field: ActiveField::Summary },
    }
}

fn node(id: &str, start_min: i128, end_min: i128) -> EventNode {
    EventNode {
        id: id.to_string(),
        summary: format!("event {}", id),
        description: None,
        start_time: T0 + start_min * MINUTE,
        end_time: T0 + end_min * MINUTE,
    }
}

fn lines(texts: &[&str]) -> Vec<String> {
    texts.iter().map(|t| t.to_string()).collect()
}

fn ids(app: &App) -> Vec<String> {
    app.cal_event_nodes.iter().map(|n| n.id.clone()).collect()
}

#[test]
fn fetch_success_adds_sorted_events_and_widens_the_loaded_days() {
    let mut app = sample_app();
    app.mode = AppMode::Fetching;
    app.cal_event_nodes = vec![node("a", 60, 120), node("b", 300, 360)];
    let fetched = EventsFetched {
        event_nodes: vec![node("c", 200, 230), node("d", 0, 30), node("e", 60, 90)],
        start_date: DAY0 + 10,
        end_date: DAY0 + 17,
    };
    app.handle_app_event(AppEvent::FetchSuccess(fetched));
    assert_eq!(ids(&app), vec!["d", "a", "e", "c", "b"]);
    assert_eq!(app.loaded_start, DAY0 - 10);
    assert_eq!(app.loaded_end, DAY0 + 17);
    assert_eq!(app.mode, AppMode::Normal);
}

#[test]
fn reload_success_replaces_the_events_and_the_loaded_days() {
    let mut app = sample_app();
    app.mode = AppMode::Fetching;
    app.cal_event_nodes = vec![node("a", 60, 120)];
    let fetched = EventsFetched {
        event_nodes: vec![node("c", 200, 230), node("d", 0, 30)],
        start_date: DAY0 - 4,
        end_date: DAY0 + 6,
    };
    app.handle_app_event(AppEvent::ReloadSuccess(fetched));
    assert_eq!(ids(&app), vec!["d", "c"]);
    assert_eq!(app.loaded_start, DAY0 - 4);
    assert_eq!(app.loaded_end, DAY0 + 6);
    assert_eq!(app.mode, AppMode::Normal);
}

#[test]
fn fetch_failure_goes_back_to_normal_mode() {
    let mut app = sample_app();
    app.mode = AppMode::Fetching;
    app.handle_app_event(AppEvent::FetchFailed("network down".to_string()));
    assert_eq!(app.mode, AppMode::Normal);
    assert!(app.cal_event_nodes.is_empty());
}

#[test]
fn quit_message_stops_the_interface() {
    let mut app = sample_app();
    app.handle_app_event(AppEvent::Quit);
    assert!(!app.running);
}

#[test]
fn quit_sets_running_to_false() {
    let mut app = sample_app();
    app.tick();
    assert!(app.running);
    app.quit();
    assert!(!app.running);
}

#[test]
fn created_event_inside_the_loaded_days_is_added() {
    let mut app = sample_app();
    app.mode = AppMode::Fetching;
    app.cal_event_nodes = vec![node("a", 60, 120)];
    app.handle_app_event(AppEvent::EventCreated(node("new", 0, 30)));
    assert_eq!(ids(&app), vec!["new", "a"]);
    assert_eq!(app.mode, AppMode::Normal);
    assert_eq!(app.loaded_start, DAY0 - 10);
    assert_eq!(app.loaded_end, DAY0 + 10);
}

#[test]
fn created_event_outside_the_loaded_days_is_left_out() {
    let mut app = sample_app();
    app.mode = AppMode::Fetching;
    app.handle_app_event(AppEvent::EventCreated(node("far", 20 * 1440, 20 * 1440 + 30)));
    assert!(app.cal_event_nodes.is_empty());
    assert_eq!(app.mode, AppMode::Fetching);
}

#[test]
fn resizing_sets_the_view_span_and_clamps_the_scroll() {
    let mut app = sample_app();
    app.scroll_offset = 1080;
    let e = app.update_viewport_from_height(30);
    assert!(matches!(e, Effect::Nothing));
    assert_eq!(app.viewport_mins, 26 * 15);
    assert_eq!(app.scroll_offset, 1440 - 390);
    app.update_viewport_from_height(3);
    assert_eq!(app.viewport_mins, 0);
    assert_eq!(app.scroll_offset, 1050);
}

#[test]
fn resizing_to_a_huge_height_stops_on_overflow() {
    let mut app = sample_app();
    let e = app.update_viewport_from_height(5000);
    assert!(matches!(e, Effect::Abort(Fault::Overflow)));
    assert_eq!(app.viewport_mins, 360);
}

#[test]
fn create_event_starts_a_request_unless_one_is_under_way() {
    let mut app = sample_app();
    let e = app.create_event(node("x", 0, 15));
    assert!(matches!(e, Effect::Create(ref n) if n.id == "x"));
    assert_eq!(app.mode, AppMode::Fetching);
    let e = app.create_event(node("y", 0, 15));
    assert!(matches!(e, Effect::Nothing));
}

#[test]
fn fetch_events_starts_a_request_unless_one_is_under_way() {
    let mut app = sample_app();
    let e = app.fetch_events(DAY0, DAY0 + 7, true);
    assert!(matches!(
        e,
        Effect::Fetch { start_date, end_date, is_refresh: true } if start_date == DAY0 && end_date == DAY0 + 7
    ));
    assert_eq!(app.mode, AppMode::Fetching);
    assert!(matches!(app.fetch_events(DAY0, DAY0 + 7, false), Effect::Nothing));
}

#[test]
fn submit_creates_the_event_from_the_popup() {
    let mut app = sample_app();
    app.mode = AppMode::InsertTyping;
    let e = app.submit_popup(
        &lines(&["Lunch", "with Ana"]),
        &lines(&["  "]),
        &lines(&["  2024-01-02 12:00 "]),
        &lines(&["2024-01-02 13:", "30"]),
    );
    match e {
        Effect::Create(n) => {
            assert_eq!(n.summary, "Lunch\nwith Ana");
            assert_eq!(n.description, None);
            assert_eq!(n.id, "");
            assert_eq!(n.end_time - n.start_time, 90 * MINUTE);
            let local = j_gcal::clock::local_time_at(n.start_time);
            assert_eq!(n.start_time + local.offset as i128 * 1_000_000_000, T0 + (1440 + 720) * MINUTE);
        }
        other => panic!("unexpected effect {:?}", other),
    }
    assert_eq!(app.mode, AppMode::Fetching);
}

#[test]
fn submit_keeps_a_description_that_is_not_blank() {
    let mut app = sample_app();
    let e = app.submit_popup(
        &lines(&["Call"]),
        &lines(&["agenda", "notes"]),
        &lines(&["2024-01-02 09:00"]),
        &lines(&["2024-01-02 09:15"]),
    );
    match e {
        Effect::Create(n) => assert_eq!(n.description, Some("agenda\nnotes".to_string())),
        other => panic!("unexpected effect {:?}", other),
    }
}

#[test]
fn submit_does_nothing_on_a_bad_time_or_a_blank_summary() {
    let mut app = sample_app();
    app.mode = AppMode::InsertTyping;
    let e = app.submit_popup(
        &lines(&["Lunch"]),
        &lines(&[""]),
        &lines(&["tomorrow noon"]),
        &lines(&["2024-01-02 13:00"]),
    );
    assert!(matches!(e, Effect::Nothing));
    let e = app.submit_popup(
        &lines(&[" ", ""]),
        &lines(&[""]),
        &lines(&["2024-01-02 12:00"]),
        &lines(&["2024-01-02 13:00"]),
    );
    assert!(matches!(e, Effect::Nothing));
    assert_eq!(app.mode, AppMode::InsertTyping);
}

#[test]
fn submit_while_fetching_creates_nothing() {
    let mut app = sample_app();
    app.mode = AppMode::Fetching;
    let e = app.submit_popup(
        &lines(&["Lunch"]),
        &lines(&[""]),
        &lines(&["2024-01-02 12:00"]),
        &lines(&["2024-01-02 13:00"]),
    );
    assert!(matches!(e, Effect::Nothing));
}

#[test]
fn init_starts_with_a_refresh_around_today() {
    let (app, e) = App::new().expect("the current time is representable");
    let wall = app.now.utc + app.now.offset as i128 * 1_000_000_000;
    let today = wall.div_euclid(86_400_000_000_000) as i32;
    assert_eq!(app.start_date, today - 1);
    assert_eq!(app.loaded_start, today - 1);
    assert_eq!(app.loaded_end, today - 1);
    assert_eq!(app.scroll_offset, 420);
    assert_eq!(app.viewport_mins, 360);
    assert_eq!(app.num_days, 3);
    assert_eq!(app.insert_event.duration, 30);
    assert_eq!(app.mode, AppMode::Fetching);
    assert_eq!(app.popup.active_field, ActiveField::Summary);
    assert!(app.running && app.is_now_timeline_visible);
    let cursor = j_gcal::clock::local_time_at(app.insert_event.start_time);
    let cursor_wall = cursor.utc + cursor.offset as i128 * 1_000_000_000;
    assert_eq!(cursor_wall % (15 * MINUTE), 0);
    assert!(cursor_wall <= wall && wall - cursor_wall < 15 * MINUTE);
    match e {
        Effect::Fetch { start_date, end_date, is_refresh } => {
            assert_eq!(start_date, today - 4);
            assert_eq!(end_date, today + 5);
            assert!(is_refresh);
        }
        other => panic!("unexpected effect {:?}", other),
    }
}

#[test]
fn submitting_an_event_with_its_moments() {
    let mut app = sample_app();
    app.mode = AppMode::InsertTyping;
    let e = app.submit_event(&lines(&["Review", ""]), &lines(&["", " "]), T0, T0 + 45 * MINUTE);
    match e {
        Effect::Create(n) => {
            assert_eq!(n.summary, "Review\n");
            assert_eq!(n.description, None);
            assert_eq!(n.start_time, T0);
            assert_eq!(n.end_time, T0 + 45 * MINUTE);
        }
        other => panic!("unexpected effect {:?}", other),
    }
    assert_eq!(app.mode, AppMode::Fetching);
    let mut app = sample_app();
    let e = app.submit_event(&lines(&["\t"]), &lines(&["notes"]), T0, T0 + MINUTE);
    assert!(matches!(e, Effect::Nothing));
    assert_eq!(app.mode, AppMode::Normal);
}

#[test]
fn the_initial_state_at_a_given_time() {
    let now = LocalTime { utc: T0 + 600 * MINUTE + 7 * MINUTE, offset: 3600 };
    let (app, e) = App::initial_state(now, T0 + 600 * MINUTE).expect("representable days");
    assert_eq!(app.start_date, DAY0 - 1);
    assert_eq!(app.loaded_start, DAY0 - 1);
    assert_eq!(app.loaded_end, DAY0 - 1);
    assert_eq!(app.insert_event.start_time, T0 + 600 * MINUTE);
    assert_eq!(app.insert_event.duration, 30);
    assert_eq!(app.scroll_offset, 420);
    assert_eq!(app.viewport_mins, 360);
    assert_eq!(app.mode, AppMode::Fetching);
    assert_eq!(app.now, now);
    assert!(app.cal_event_nodes.is_empty() && app.sel_event_id.is_none());
    assert!(matches!(
        e,
        Effect::Fetch { start_date, end_date, is_refresh: true } if start_date == DAY0 - 4 && end_date == DAY0 + 5
    ));
    let edge = LocalTime { utc: j_gcal::time::MAX_INSTANT, offset: 0 };
    assert!(matches!(App::initial_state(edge, T0), Err(Fault::DateOutOfRange)));
}

#[test]
fn details_then_submit_give_back_the_cursor() {
    let mut app = sample_app();
    app.mode = AppMode::Insert;
    app.insert_event.duration = 45;
    let start = app.insert_event.start_time;
    let o1 = j_gcal::clock::local_time_at(start).offset;
    let o2 = j_gcal::clock::local_time_at(start + 45 * MINUTE).offset;
    let (s, e) = match app.enter_details_with(o1, o2) {
        Effect::FillTimes { start, end } => (start, end),
        other => panic!("unexpected effect {:?}", other),
    };
    let effect = app.submit_popup(&lines(&["Planning"]), &lines(&[""]), &vec![s], &vec![e]);
    match effect {
        Effect::Create(n) => {
            assert_eq!(n.start_time, start);
            assert_eq!(n.end_time, start + 45 * MINUTE);
        }
        other => panic!("unexpected effect {:?}", other),
    }
}

#[test]
fn a_summary_of_unicode_spaces_is_blank() {
    let mut app = sample_app();
    let e = app.submit_event(&lines(&["\u{2003}\u{3000}", "\u{a0}"]), &lines(&[""]), T0, T0 + MINUTE);
    assert!(matches!(e, Effect::Nothing));
    let e = app.submit_event(&lines(&["\u{3000}Tea\u{2003}"]), &lines(&[" x "]), T0, T0 + MINUTE);
    assert!(matches!(e, Effect::Create(ref n) if n.summary == "\u{3000}Tea\u{2003}" && n.description == Some(" x ".to_string())));
}
