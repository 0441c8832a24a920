use j_gcal::app::{ActiveField, App, AppMode, Effect, EventPopup, InsertEvent, KeyCode, KeyInput};
use j_gcal::event::{AppEvent, EventNode, EventsFetched};
use j_gcal::time::LocalTime;

const T0: i128 = 1_704_067_200_000_000_000;
const MINUTE: i128 = 60_000_000_000;
const DAY0: i32 = 19_723;

fn sample_app() -> App {
    App {
        running: true,
        mode: AppMode::Normal,
        start_date: DAY0 - 1,
        scroll_offset: 420,
        viewport_mins: 360,
        cal_event_nodes: Vec::new(),
        num_days: 3,
        now: LocalTime { utc: T0 + 600 * MINUTE, offset: 0 },
        is_now_timeline_visible: true,
        sel_event_id: None,
        loaded_start: DAY0 - 10,
        loaded_end: DAY0 + 10,
        insert_event: InsertEvent { start_time: T0 + 600 * MINUTE, duration: 30 },
        popup: EventPopup { active_field: ActiveField::Summary },
    }
}

fn key(c: char) -> KeyInput {
    KeyInput { code: KeyCode::Char(c), ctrl: false }
}

fn code(code: KeyCode) -> KeyInput {
    KeyInput { code, ctrl: false }
}

fn node(id: &str, start_min: i128) -> EventNode {
    EventNode {
        id: id.to_string(),
        summary: id.to_string(),
        description: None,
        start_time: T0 + start_min * MINUTE,
        end_time: T0 + (start_min + 30) * MINUTE,
    }
}

fn is_sorted(app: &App) -> bool {
    app.cal_event_nodes.windows(2).all(|w| w[0].start_time <= w[1].start_time)
}

#[test]
fn tab_then_backtab_comes_back() {
    for f in [ActiveField::Summary, ActiveField::Description, ActiveField::StartTime, ActiveField::EndTime] {
        let mut app = sample_app();
        app.mode = AppMode::InsertTyping;
        app.popup.active_field = f;
        app.handle_key_events(code(KeyCode::Tab));
        assert_ne!(app.popup.active_field, f);
        app.handle_key_events(code(KeyCode::BackTab));
        assert_eq!(app.popup.active_field, f);
        assert_eq!(app.mode, AppMode::InsertTyping);
    }
}

#[test]
fn four_tabs_come_back_to_the_same_field() {
    let mut app = sample_app();
    app.mode = AppMode::InsertTyping;
    app.popup.active_field = ActiveField::StartTime;
    for _ in 0..4 {
        app.handle_key_events(code(KeyCode::Tab));
    }
    assert_eq!(app.popup.active_field, ActiveField::StartTime);
}

#[test]
fn scroll_left_then_right_shows_the_same_first_day() {
    let mut app = sample_app();
    app.start_date = DAY0 - 6;
    app.handle_key_events(key('h'));
    app.handle_key_events(key('l'));
    assert_eq!(app.start_date, DAY0 - 6);
}

#[test]
fn move_up_then_down_comes_back_to_the_same_moment() {
    let mut app = sample_app();
    app.mode = AppMode::Insert;
    app.insert_event.start_time = T0 + 7 * MINUTE;
    app.handle_key_events(key('k'));
    app.handle_key_events(key('j'));
    assert_eq!(app.insert_event.start_time, T0 + 7 * MINUTE);
}

#[test]
fn extend_down_then_up_keeps_the_length() {
    let mut app = sample_app();
    app.mode = AppMode::Insert;
    app.insert_event.duration = 15;
    app.handle_key_events(key('J'));
    app.handle_key_events(key('K'));
    assert_eq!(app.insert_event.duration, 15);
}

#[test]
fn no_key_starts_a_request_while_fetching() {
    let mut app = sample_app();
    app.mode = AppMode::Fetching;
    app.start_date = DAY0 + 6;
    for k in [key('l'), key('l'), key('h'), key('t'), key('j'), key('J'), key('i')] {
        let e = app.handle_key_events(k);
        assert!(!matches!(e, Effect::Fetch { .. } | Effect::Create(_)));
    }
}

#[test]
fn every_key_keeps_the_view_within_the_day_and_the_cursor_in_whole_rows() {
    let mut app = sample_app();
    app.mode = AppMode::Insert;
    let keys = [
        key('J'), key('J'), key('L'), key('j'), key('K'), key('H'), key('H'), key('l'),
        code(KeyCode::Down), key('J'), key('J'), key('J'), code(KeyCode::Up), key('K'),
        code(KeyCode::Esc), key('j'), key('J'), key('J'), key('J'), key('J'), key('J'),
        key('i'), key('t'), key('L'), key('J'),
    ];
    for k in keys {
        let e = app.handle_key_events(k);
        assert!(!matches!(e, Effect::Abort(_)));
        assert!(app.scroll_offset <= 1440);
        assert!(app.insert_event.duration >= 15);
        assert_eq!(app.insert_event.duration % 15, 0);
        if matches!(e, Effect::Fetch { .. }) {
            app.handle_app_event(AppEvent::FetchFailed("offline".to_string()));
        }
    }
}

#[test]
fn fetched_and_created_events_stay_sorted() {
    let mut app = sample_app();
    app.cal_event_nodes = vec![node("a", 0), node("b", 100)];
    app.handle_app_event(AppEvent::FetchSuccess(EventsFetched {
        event_nodes: vec![node("c", 50), node("d", -20), node("e", 100)],
        start_date: DAY0 - 1,
        end_date: DAY0 + 1,
    }));
    assert!(is_sorted(&app));
    app.handle_app_event(AppEvent::EventCreated(node("f", 60)));
    assert!(is_sorted(&app));
    let ids: Vec<&str> = app.cal_event_nodes.iter().map(|n| n.id.as_str()).collect();
    assert_eq!(ids, vec!["d", "a", "c", "f", "b", "e"]);
    app.handle_app_event(AppEvent::ReloadSuccess(EventsFetched {
        event_nodes: vec![node("z", 10), node("y", 5)],
        start_date: DAY0 - 1,
        end_date: DAY0 + 1,
    }));
    assert!(is_sorted(&app));
}

#[test]
fn loaded_days_cover_what_was_loaded_and_fetched() {
    let mut app = sample_app();
    app.handle_app_event(AppEvent::FetchSuccess(EventsFetched {
        event_nodes: vec![],
        start_date: DAY0 - 3,
        end_date: DAY0 + 30,
    }));
    assert_eq!(app.loaded_start, DAY0 - 10);
    assert_eq!(app.loaded_end, DAY0 + 30);
    app.handle_app_event(AppEvent::FetchSuccess(EventsFetched {
        event_nodes: vec![],
        start_date: DAY0 - 40,
        end_date: DAY0,
    }));
    assert_eq!(app.loaded_start, DAY0 - 40);
    assert_eq!(app.loaded_end, DAY0 + 30);
}

#[test]
fn insert_then_escape_comes_back_to_normal_mode() {
    let mut app = sample_app();
    let e = app.handle_key_events(key('i'));
    assert!(matches!(e, Effect::Nothing));
    app.handle_key_events(code(KeyCode::Esc));
    assert_eq!(app.mode, AppMode::Normal);
    assert_eq!(app.insert_event.start_time, T0 + 600 * MINUTE);
    assert_eq!(app.scroll_offset, 420);
    assert_eq!(app.start_date, DAY0 - 1);
}

#[test]
fn toggling_the_timeline_twice_changes_nothing() {
    for mode in [AppMode::Normal, AppMode::Fetching, AppMode::Insert] {
        let mut app = sample_app();
        app.mode = mode;
        app.handle_key_events(key('T'));
        app.handle_key_events(key('T'));
        assert!(app.is_now_timeline_visible);
        assert_eq!(app.mode, mode);
    }
}

#[test]
fn scrolling_down_then_up_comes_back() {
    let mut app = sample_app();
    app.scroll_offset = 1065;
    app.handle_key_events(code(KeyCode::Down));
    assert_eq!(app.scroll_offset, 1080);
    app.handle_key_events(code(KeyCode::Up));
    assert_eq!(app.scroll_offset, 1065);
}

#[test]
fn resizing_keeps_the_view_within_the_day() {
    let mut app = sample_app();
    app.scroll_offset = 1080;
    for height in [10u16, 40, 60, 100] {
        app.update_viewport_from_height(height);
        if app.viewport_mins <= 1440 {
            assert!(app.scroll_offset + app.viewport_mins <= 1440);
        }
    }
    assert_eq!(app.scroll_offset, 0);
}

#[test]
fn scrolling_up_then_down_comes_back() {
    let mut app = sample_app();
    app.handle_key_events(code(KeyCode::Up));
    app.handle_key_events(code(KeyCode::Down));
    assert_eq!(app.scroll_offset, 420);
}

#[test]
fn a_big_scroll_up_is_an_hour_stopping_at_midnight() {
    let mut app = sample_app();
    app.handle_key_events(key('K'));
    assert_eq!(app.scroll_offset, 360);
    app.scroll_offset = 45;
    app.handle_key_events(key('K'));
    assert_eq!(app.scroll_offset, 0);
}

#[test]
fn extending_left_then_right_gives_back_the_length() {
    let mut app = sample_app();
    app.mode = AppMode::Insert;
    app.loaded_start = DAY0 - 60;
    app.loaded_end = DAY0 + 60;
    app.insert_event.duration = 1440 + 45;
    let start = app.insert_event.start_time;
    app.handle_key_events(key('H'));
    assert_eq!(app.insert_event.duration, 45);
    app.handle_key_events(key('L'));
    assert_eq!(app.insert_event.duration, 1440 + 45);
    assert_eq!(app.insert_event.start_time, start);
}

#[test]
fn moving_up_then_down_keeps_the_length() {
    let mut app = sample_app();
    app.mode = AppMode::Insert;
    app.insert_event.duration = 75;
    app.handle_key_events(key('k'));
    app.handle_key_events(key('j'));
    assert_eq!(app.insert_event.duration, 75);
    assert_eq!(app.insert_event.start_time, T0 + 600 * MINUTE);
}

#[test]
fn every_key_keeps_the_view_ending_within_the_day() {
    let mut app = sample_app();
    let keys = [key('J'), key('J'), key('J'), key('J'), key('J'), key('J'), key('j'), key('i'),
        key('J'), key('J'), key('j'), key('j'), key('L'), key('J'), code(KeyCode::Esc), key('J')];
    for k in keys {
        app.handle_key_events(k);
        assert!(app.scroll_offset + app.viewport_mins <= 1440);
        if app.mode == AppMode::Fetching {
            app.handle_app_event(AppEvent::FetchFailed("offline".to_string()));
        }
    }
    assert_eq!(app.scroll_offset, 1080);
}

#[test]
fn keys_leave_the_loaded_events_and_days_alone() {
    let mut app = sample_app();
    app.cal_event_nodes = vec![node("a", 0), node("b", 100), node("c", 100)];
    let keys = [key('j'), key('l'), key('h'), key('i'), key('J'), key('H'), key('l'), key('k'),
        code(KeyCode::Enter), code(KeyCode::Tab), code(KeyCode::Esc), code(KeyCode::Esc), key('t')];
    for k in keys {
        app.handle_key_events(k);
        assert!(is_sorted(&app));
        assert_eq!(app.cal_event_nodes.len(), 3);
        assert_eq!(app.loaded_start, DAY0 - 10);
        assert_eq!(app.loaded_end, DAY0 + 10);
        assert!(app.scroll_offset + app.viewport_mins <= 1440);
        assert!(app.insert_event.duration >= 15 && app.insert_event.duration % 15 == 0);
    }
}
