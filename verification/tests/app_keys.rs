use j_gcal::app::{ActiveField, App, AppMode, Effect, EventPopup, InsertEvent, KeyCode, KeyInput};
use j_gcal::time::LocalTime;

/// 2024-01-01 00:00 UTC, in nanoseconds since the epoch.
const T0: i128 = 1_704_067_200_000_000_000;
const MINUTE: i128 = 60_000_000_000;
const DAY0: i32 = 19_723;

fn sample_app() -> App {
    App {
        running: true,
        mode: AppMode::Normal,
        start_date: DAY0 - 1,
        scroll_offset: 420,
        viewport_mins: 360,
        cal_event_nodes: Vec::new(),
        num_days: 3,
        now: LocalTime { utc: T0 + 600 * MINUTE, offset: 0 },
        is_now_timeline_visible: true,
        sel_event_id: None,
        loaded_start: DAY0 - 10,
        loaded_end: DAY0 + 10,
        insert_event: InsertEvent { start_time: T0 + 600 * MINUTE, duration: 30 },
        popup: EventPopup { active_field: ActiveField::Summary },
    }
}

fn key(c: char) -> KeyInput {
    KeyInput { code: KeyCode::Char(c), ctrl: false }
}

fn code(code: KeyCode) -> KeyInput {
    KeyInput { code, ctrl: false }
}

#[test]
fn normal_k_scrolls_up_one_row() {
    let mut app = sample_app();
    let e = app.handle_key_events(key('k'));
    assert!(matches!(e, Effect::Nothing));
    assert_eq!(app.scroll_offset, 405);
}

#[test]
fn normal_scroll_up_stops_at_midnight() {
    let mut app = sample_app();
    app.scroll_offset = 10;
    app.handle_key_events(code(KeyCode::Up));
    assert_eq!(app.scroll_offset, 0);
    app.handle_key_events(key('k'));
    assert_eq!(app.scroll_offset, 0);
}

#[test]
fn normal_j_scrolls_down_up_to_the_last_view() {
    let mut app = sample_app();
    app.handle_key_events(key('j'));
    assert_eq!(app.scroll_offset, 435);
    app.scroll_offset = 1075;
    app.handle_key_events(code(KeyCode::Down));
    assert_eq!(app.scroll_offset, 1080);
}

#[test]
fn normal_big_scrolls_move_an_hour() {
    let mut app = sample_app();
    app.handle_key_events(key('K'));
    assert_eq!(app.scroll_offset, 360);
    app.handle_key_events(key('J'));
    app.handle_key_events(key('J'));
    assert_eq!(app.scroll_offset, 480);
    app.scroll_offset = 30;
    app.handle_key_events(key('K'));
    assert_eq!(app.scroll_offset, 0);
}

#[test]
fn normal_q_and_ctrl_c_ask_to_quit() {
    let mut app = sample_app();
    assert!(matches!(app.handle_key_events(key('q')), Effect::Quit));
    assert!(matches!(
        app.handle_key_events(KeyInput { code: KeyCode::Char('c'), ctrl: true }),
        Effect::Quit
    ));
    assert!(matches!(
        app.handle_key_events(KeyInput { code: KeyCode::Char('C'), ctrl: true }),
        Effect::Quit
    ));
    assert!(matches!(app.handle_key_events(key('c')), Effect::Nothing));
    assert!(app.running);
}

#[test]
fn normal_t_toggles_the_timeline_and_i_enters_insert_mode() {
    let mut app = sample_app();
    app.handle_key_events(key('T'));
    assert!(!app.is_now_timeline_visible);
    app.handle_key_events(key('T'));
    assert!(app.is_now_timeline_visible);
    app.handle_key_events(key('i'));
    assert_eq!(app.mode, AppMode::Insert);
}

#[test]
fn normal_l_and_h_move_a_day_without_fetching_inside_loaded_days() {
    let mut app = sample_app();
    let e = app.handle_key_events(key('l'));
    assert!(matches!(e, Effect::Nothing));
    assert_eq!(app.start_date, DAY0);
    let e = app.handle_key_events(code(KeyCode::Left));
    assert!(matches!(e, Effect::Nothing));
    assert_eq!(app.start_date, DAY0 - 1);
    assert_eq!(app.mode, AppMode::Normal);
}

#[test]
fn scrolling_near_the_loaded_end_fetches_the_next_week() {
    let mut app = sample_app();
    app.start_date = DAY0 + 3;
    let e = app.handle_key_events(key('l'));
    assert_eq!(app.start_date, DAY0 + 4);
    match e {
        Effect::Fetch { start_date, end_date, is_refresh } => {
            assert_eq!(start_date, DAY0 + 10);
            assert_eq!(end_date, DAY0 + 17);
            assert!(!is_refresh);
        }
        other => panic!("unexpected effect {:?}", other),
    }
    assert_eq!(app.mode, AppMode::Fetching);
}

#[test]
fn scrolling_near_the_loaded_start_fetches_the_previous_week() {
    let mut app = sample_app();
    app.start_date = DAY0 - 6;
    let e = app.handle_key_events(key('h'));
    assert_eq!(app.start_date, DAY0 - 7);
    match e {
        Effect::Fetch { start_date, end_date, is_refresh } => {
            assert_eq!(start_date, DAY0 - 17);
            assert_eq!(end_date, DAY0 - 10);
            assert!(!is_refresh);
        }
        other => panic!("unexpected effect {:?}", other),
    }
}

#[test]
fn normal_t_brings_the_view_to_the_current_day() {
    let mut app = sample_app();
    let e = app.handle_key_events(key('t'));
    assert!(!matches!(e, Effect::Abort(_)));
    let wall = app.now.utc + app.now.offset as i128 * 1_000_000_000;
    let today = wall.div_euclid(86_400_000_000_000) as i32;
    assert_eq!(app.start_date, today - 1);
    assert!(app.scroll_offset <= 1080);
}

#[test]
fn insert_moves_shift_the_cursor_by_a_row_and_by_a_day() {
    let mut app = sample_app();
    app.mode = AppMode::Insert;
    let start = app.insert_event.start_time;
    app.handle_key_events(key('j'));
    assert_eq!(app.insert_event.start_time, start + 15 * MINUTE);
    app.handle_key_events(code(KeyCode::Up));
    app.handle_key_events(code(KeyCode::Up));
    assert_eq!(app.insert_event.start_time, start - 15 * MINUTE);
    app.handle_key_events(key('l'));
    assert_eq!(app.insert_event.start_time, start - 15 * MINUTE + 1440 * MINUTE);
    app.handle_key_events(code(KeyCode::Left));
    assert_eq!(app.insert_event.start_time, start - 15 * MINUTE);
    assert_eq!(app.insert_event.duration, 30);
}

#[test]
fn insert_moves_keep_the_cursor_in_view() {
    let mut app = sample_app();
    app.mode = AppMode::Insert;
    app.insert_event.start_time = T0 + 3 * 1440 * MINUTE + 600 * MINUTE;
    app.handle_key_events(key('j'));
    let first = app.start_date;
    let last = first + app.num_days - 1;
    let wall_day = |utc: i128, offset: i32| {
        (utc + offset as i128 * 1_000_000_000).div_euclid(86_400_000_000_000) as i32
    };
    let t = j_gcal::clock::local_time_at(app.insert_event.start_time);
    let d = wall_day(t.utc, t.offset);
    assert!(first <= d && d <= last);
}

#[test]
fn insert_extends_change_the_length() {
    let mut app = sample_app();
    app.mode = AppMode::Insert;
    app.handle_key_events(key('J'));
    assert_eq!(app.insert_event.duration, 45);
    app.handle_key_events(key('K'));
    app.handle_key_events(key('K'));
    assert_eq!(app.insert_event.duration, 15);
    app.handle_key_events(key('K'));
    assert_eq!(app.insert_event.duration, 15);
}

#[test]
fn insert_day_extends_change_the_length_by_a_day() {
    let mut app = sample_app();
    app.mode = AppMode::Insert;
    let scroll = app.scroll_offset;
    let first = app.start_date;
    app.handle_key_events(key('L'));
    assert_eq!(app.insert_event.duration, 30 + 1440);
    assert_eq!(app.scroll_offset, scroll);
    assert_eq!(app.start_date, first);
    app.handle_key_events(key('H'));
    assert_eq!(app.insert_event.duration, 30);
    app.handle_key_events(key('H'));
    assert_eq!(app.insert_event.duration, 15);
}

#[test]
fn insert_esc_goes_back_to_normal_mode() {
    let mut app = sample_app();
    app.mode = AppMode::Insert;
    app.handle_key_events(code(KeyCode::Esc));
    assert_eq!(app.mode, AppMode::Normal);
}

#[test]
fn insert_q_asks_to_quit() {
    let mut app = sample_app();
    app.mode = AppMode::Insert;
    assert!(matches!(app.handle_key_events(key('q')), Effect::Quit));
    assert_eq!(app.mode, AppMode::Insert);
}

#[test]
fn insert_t_moves_the_cursor_to_now() {
    let mut app = sample_app();
    app.mode = AppMode::Insert;
    let e = app.handle_key_events(key('t'));
    assert!(!matches!(e, Effect::Abort(_)));
    assert_eq!(app.insert_event.start_time, app.now.utc);
    assert_eq!(app.insert_event.duration, 30);
}

#[test]
fn insert_enter_opens_the_popup_with_the_cursor_times() {
    let mut app = sample_app();
    app.mode = AppMode::Insert;
    let e = app.handle_key_events(code(KeyCode::Enter));
    assert_eq!(app.mode, AppMode::InsertTyping);
    match e {
        Effect::FillTimes { start, end } => {
            let s = j_gcal::clock::parse_reading(&start).expect("a start time");
            let t = j_gcal::clock::parse_reading(&end).expect("an end time");
            assert_eq!(start.len(), 16);
            assert_eq!(end.len(), 16);
            let start_local = j_gcal::clock::local_time_at(app.insert_event.start_time);
            assert_eq!(s, app.insert_event.start_time + start_local.offset as i128 * 1_000_000_000);
            let end_local = j_gcal::clock::local_time_at(app.insert_event.start_time + 30 * MINUTE);
            assert_eq!(t, app.insert_event.start_time + 30 * MINUTE + end_local.offset as i128 * 1_000_000_000);
        }
        other => panic!("unexpected effect {:?}", other),
    }
}

#[test]
fn typing_tab_and_backtab_cycle_the_fields() {
    let mut app = sample_app();
    app.mode = AppMode::InsertTyping;
    let order = [
        ActiveField::Description,
        ActiveField::StartTime,
        ActiveField::EndTime,
        ActiveField::Summary,
    ];
    for f in order {
        assert!(matches!(app.handle_key_events(code(KeyCode::Tab)), Effect::Restyle));
        assert_eq!(app.popup.active_field, f);
    }
    app.handle_key_events(code(KeyCode::BackTab));
    assert_eq!(app.popup.active_field, ActiveField::EndTime);
    app.handle_key_events(code(KeyCode::BackTab));
    assert_eq!(app.popup.active_field, ActiveField::StartTime);
}

#[test]
fn typing_enter_submits_except_in_the_description() {
    let mut app = sample_app();
    app.mode = AppMode::InsertTyping;
    assert!(matches!(app.handle_key_events(code(KeyCode::Enter)), Effect::Submit));
    app.popup.active_field = ActiveField::Description;
    assert!(matches!(
        app.handle_key_events(code(KeyCode::Enter)),
        Effect::ForwardKey(ActiveField::Description)
    ));
}

#[test]
fn typing_other_keys_go_to_the_active_field_and_esc_leaves() {
    let mut app = sample_app();
    app.mode = AppMode::InsertTyping;
    app.popup.active_field = ActiveField::StartTime;
    assert!(matches!(
        app.handle_key_events(key('q')),
        Effect::ForwardKey(ActiveField::StartTime)
    ));
    assert!(app.running);
    app.handle_key_events(code(KeyCode::Esc));
    assert_eq!(app.mode, AppMode::Insert);
}

#[test]
fn keeping_the_cursor_in_view_moves_the_days_and_scrolls() {
    let mut app = sample_app();
    app.insert_event.start_time = T0 + 3 * 1440 * MINUTE + 600 * MINUTE;
    let e = app.sync_viewport_with(0, 0);
    assert!(matches!(e, Effect::Nothing));
    assert_eq!(app.start_date, DAY0 + 1);
    assert_eq!(app.scroll_offset, 420);

    let mut app = sample_app();
    app.insert_event.start_time = T0 + 780 * MINUTE;
    app.sync_viewport_with(0, 0);
    assert_eq!(app.start_date, DAY0 - 1);
    assert_eq!(app.scroll_offset, 450);

    let mut app = sample_app();
    app.insert_event.start_time = T0 + 360 * MINUTE;
    app.sync_viewport_with(0, 0);
    assert_eq!(app.scroll_offset, 360);

    let mut app = sample_app();
    app.insert_event.start_time = T0 - 2 * 1440 * MINUTE + 600 * MINUTE;
    app.sync_viewport_with(3600, 3600);
    assert_eq!(app.start_date, DAY0 - 2);
    assert_eq!(app.scroll_offset, 420);
}

#[test]
fn keeping_the_cursor_in_view_reads_the_local_day() {
    let mut app = sample_app();
    app.start_date = DAY0;
    app.insert_event.start_time = T0 + 60 * MINUTE;
    app.sync_viewport_with(-7200, -7200);
    assert_eq!(app.start_date, DAY0 - 1);
    assert_eq!(app.scroll_offset, 1380 - 360 + 30);
}

#[test]
fn the_popup_gets_the_cursor_times_in_the_local_zone() {
    let mut app = sample_app();
    app.mode = AppMode::Insert;
    match app.enter_details_with(0, 0) {
        Effect::FillTimes { start, end } => {
            assert_eq!(start, "2024-01-01 10:00");
            assert_eq!(end, "2024-01-01 10:30");
        }
        other => panic!("unexpected effect {:?}", other),
    }
    assert_eq!(app.mode, AppMode::InsertTyping);
    let mut app = sample_app();
    app.insert_event.duration = 14 * 60;
    match app.enter_details_with(3600, 7200) {
        Effect::FillTimes { start, end } => {
            assert_eq!(start, "2024-01-01 11:00");
            assert_eq!(end, "2024-01-02 02:00");
        }
        other => panic!("unexpected effect {:?}", other),
    }
}

#[test]
fn jumping_to_a_time_centers_it_in_the_view() {
    let mut app = sample_app();
    app.start_date = DAY0 + 5;
    app.jump_to_time(&LocalTime { utc: T0 + 600 * MINUTE, offset: 0 });
    assert_eq!(app.start_date, DAY0 - 1);
    assert_eq!(app.scroll_offset, 420);
    app.jump_to_time(&LocalTime { utc: T0 + 600 * MINUTE, offset: -36_000 });
    assert_eq!(app.start_date, DAY0 - 1);
    assert_eq!(app.scroll_offset, 0);
    app.jump_to_time(&LocalTime { utc: T0 + 1430 * MINUTE, offset: 0 });
    assert_eq!(app.scroll_offset, 1080);
    app.jump_to_time(&LocalTime { utc: T0 + 1430 * MINUTE, offset: 3600 });
    assert_eq!(app.start_date, DAY0);
    assert_eq!(app.scroll_offset, 0);
}
