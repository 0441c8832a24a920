//! Properties of the state machine that span several steps or hold of
//! every step.
use vstd::prelude::*;
use crate::app::{App, AppMode, ClockReading, EffectView, KeyCode, KeyInput};
use crate::constants::{BUFFER_DAYS, FETCH_DAYS, MINUTES_IN_DAY, RESOLUTION_IN_MINS};
use crate::event::{start_key, AppEvent};
use crate::sort::sorted_by_key;

verus! {

/// In the popup, Tab and then BackTab come back to the same state.
pub proof fn lemma_tab_then_backtab(app: App, tab: KeyInput, back_tab: KeyInput, c: ClockReading)
    requires
        app.mode == AppMode::InsertTyping,
        tab.code == KeyCode::Tab,
        back_tab.code == KeyCode::BackTab,
    ensures
        app.spec_key(tab, c).0.spec_key(back_tab, c).0 == app,
{
}

/// In the popup, four presses of Tab come back to the field they started from.
pub proof fn lemma_four_tabs_cycle(app: App, tab: KeyInput, c: ClockReading)
    requires
        app.mode == AppMode::InsertTyping,
        tab.code == KeyCode::Tab,
    ensures
        app.spec_key(tab, c).0.spec_key(tab, c).0.spec_key(tab, c).0.spec_key(tab, c).0 == app,
{
}

/// Moving the view a day left and then a day right shows the same first day
/// again, with the same scroll offset and insert cursor (a fetch may have
/// started), when neither step stops the interface; a day right alone moves
/// the first day by one.
pub proof fn lemma_scroll_left_then_right(app: App)
    requires
        !(app.spec_scroll_days(-1).1 is Abort),
        !(app.spec_scroll_days(-1).0.spec_scroll_days(1).1 is Abort),
    ensures
        app.spec_scroll_days(-1).0.spec_scroll_days(1).0.start_date == app.start_date,
        app.spec_scroll_days(-1).0.spec_scroll_days(1).0.scroll_offset == app.scroll_offset,
        app.spec_scroll_days(-1).0.spec_scroll_days(1).0.insert_event == app.insert_event,
        !(app.spec_scroll_days(1).1 is Abort) ==> app.spec_scroll_days(1).0.start_date == app.start_date + 1,
{
    lemma_pagination_keeps_view(App { start_date: (app.start_date - 1) as i32, ..app });
    let a = app.spec_scroll_days(-1).0;
    lemma_pagination_keeps_view(App { start_date: (a.start_date + 1) as i32, ..a });
}

/// Scrolling a row up and then a row down comes back to the same view, when
/// the view is at least a row below midnight and ends within the day.
pub proof fn lemma_scroll_up_then_down(app: App, up: KeyInput, down: KeyInput, c1: ClockReading, c2: ClockReading)
    requires
        app.mode == AppMode::Normal || app.mode == AppMode::Fetching,
        up.code == KeyCode::Up,
        down.code == KeyCode::Down,
        RESOLUTION_IN_MINS <= app.scroll_offset <= crate::app::max_offset(app.viewport_mins as int),
    ensures
        app.spec_key(up, c1).0.spec_key(down, c2).0 == app,
{
}

/// `K` in normal mode scrolls an hour up, stopping at midnight: the same as
/// four rows up; nothing else changes.
pub proof fn lemma_big_scroll_up(app: App, key: KeyInput, c: ClockReading)
    requires
        app.mode == AppMode::Normal || app.mode == AppMode::Fetching,
        key.code == KeyCode::Char('K'),
    ensures
        app.spec_key(key, c) == (
            App { scroll_offset: crate::app::sat_sub(app.scroll_offset as int, 60) as u16, ..app },
            crate::app::EffectView::Nothing,
        ),
        app.spec_key(key, c).0 == app.spec_scroll_up().spec_scroll_up().spec_scroll_up().spec_scroll_up(),
{
}

/// Shortening the insert cursor by a day and lengthening it by a day gives
/// back its start and length, when it is longer than a day and a row and
/// shortening does not stop the interface; lengthening alone adds a day.
pub proof fn lemma_extend_left_then_right(app: App, c: ClockReading)
    requires
        app.insert_event.duration >= MINUTES_IN_DAY + RESOLUTION_IN_MINS,
        crate::time::valid_delta_minutes(app.insert_event.duration as int),
        !(app.spec_extend_insert_left(c).1 is Abort),
    ensures
        app.spec_extend_insert_left(c).0.spec_extend_insert_right().0.insert_event == app.insert_event,
        !(app.spec_extend_insert_right().1 is Abort) ==> app.spec_extend_insert_right().0.insert_event.duration
            == app.insert_event.duration + MINUTES_IN_DAY,
{
    let d = app.insert_event.duration as int;
    lemma_sync_keeps_cursor(app.with_duration(d - MINUTES_IN_DAY), c.start_offset as int, c.end_offset as int);
}

/// In normal mode, `i` and then Esc come back to the same state.
pub proof fn lemma_insert_then_escape(app: App, i_key: KeyInput, esc: KeyInput, c1: ClockReading, c2: ClockReading)
    requires
        app.mode == AppMode::Normal,
        i_key.code == KeyCode::Char('i'),
        esc.code == KeyCode::Esc,
    ensures
        app.spec_key(i_key, c1).0.spec_key(esc, c2).0 == app,
        app.spec_key(i_key, c1).1 == crate::app::EffectView::Nothing,
{
}

/// `T` twice leaves the state as it was, in normal and in insert mode.
pub proof fn lemma_toggle_timeline_twice(app: App, t_key: KeyInput, c1: ClockReading, c2: ClockReading)
    requires
        app.mode != AppMode::InsertTyping,
        t_key.code == KeyCode::Char('T'),
        !t_key.ctrl,
    ensures
        app.spec_key(t_key, c1).0.spec_key(t_key, c2).0 == app,
{
}

/// Scrolling a row down and then a row up comes back to the same view,
/// when the row down does not reach past the last view of the day.
pub proof fn lemma_scroll_down_then_up(app: App, down: KeyInput, up: KeyInput, c1: ClockReading, c2: ClockReading)
    requires
        app.mode == AppMode::Normal || app.mode == AppMode::Fetching,
        down.code == KeyCode::Down,
        up.code == KeyCode::Up,
        app.scroll_offset + RESOLUTION_IN_MINS <= crate::app::max_offset(app.viewport_mins as int),
    ensures
        app.spec_key(down, c1).0.spec_key(up, c2).0 == app,
{
}

/// Moving the insert cursor a row up and then a row down brings it back to
/// the same moment and length, whatever the clock read, when neither step
/// stops.
#[verifier::rlimit(40)]
pub proof fn lemma_move_up_then_down(app: App, c1: ClockReading, c2: ClockReading)
    requires
        !(app.spec_move_insert(-(RESOLUTION_IN_MINS as int), c1).1 is Abort),
        !(app.spec_move_insert(-(RESOLUTION_IN_MINS as int), c1).0.spec_move_insert(RESOLUTION_IN_MINS as int, c2).1 is Abort),
    ensures
        app.spec_move_insert(-(RESOLUTION_IN_MINS as int), c1).0.spec_move_insert(RESOLUTION_IN_MINS as int, c2).0.insert_event
            == app.insert_event,
{
    let t = app.insert_event.start_time - RESOLUTION_IN_MINS * crate::time::NANOS_PER_MINUTE;
    let a = App { insert_event: crate::app::InsertEvent { start_time: t as i128, ..app.insert_event }, ..app };
    lemma_sync_keeps_cursor(a, c1.start_offset as int, c1.end_offset as int);
    let b = app.spec_move_insert(-(RESOLUTION_IN_MINS as int), c1).0;
    let t2 = b.insert_event.start_time + RESOLUTION_IN_MINS * crate::time::NANOS_PER_MINUTE;
    let b2 = App { insert_event: crate::app::InsertEvent { start_time: t2 as i128, ..b.insert_event }, ..b };
    lemma_sync_keeps_cursor(b2, c2.start_offset as int, c2.end_offset as int);
}

/// Keeping the cursor in view moves the view, never the cursor.
pub proof fn lemma_sync_keeps_cursor(app: App, o1: int, o2: int)
    ensures
        app.spec_sync_viewport_to_cursor(o1, o2).0.insert_event == app.insert_event,
{
}

/// Lengthening the insert cursor by a row and then shortening it by a row
/// gives back its length, when it was longer than nothing and neither step
/// stops.
pub proof fn lemma_extend_down_then_up(app: App, c1: ClockReading, c2: ClockReading)
    requires
        app.insert_event.duration > 0,
        !(app.spec_extend_insert_down(c1).1 is Abort),
    ensures
        app.spec_extend_insert_down(c1).0.spec_extend_insert_up(c2).0.insert_event.duration
            == app.insert_event.duration,
{
    let d = app.insert_event.duration as int;
    lemma_sync_keeps_cursor(app.with_duration(d + RESOLUTION_IN_MINS), c1.start_offset as int, c1.end_offset as int);
    let b = app.spec_extend_insert_down(c1).0;
    lemma_sync_keeps_cursor(b.with_duration(b.insert_event.duration - RESOLUTION_IN_MINS), c2.start_offset as int, c2.end_offset as int);
}

/// While a fetch or a creation is under way, no key starts another.
pub proof fn lemma_no_request_while_fetching(app: App, key: KeyInput, c: ClockReading)
    requires
        app.mode == AppMode::Fetching,
    ensures
        !(app.spec_key(key, c).1 is Fetch),
        !(app.spec_key(key, c).1 is Create),
{
}

/// The view ends within the day: the scroll offset is at most the minutes of
/// a day less the minutes the view spans.
pub open spec fn view_in_day(app: App) -> bool {
    app.scroll_offset <= crate::app::max_offset(app.viewport_mins as int)
}

/// Checking pagination leaves the view and the cursor alone.
proof fn lemma_pagination_keeps_view(app: App)
    ensures
        app.spec_check_pagination().0.scroll_offset == app.scroll_offset,
        app.spec_check_pagination().0.viewport_mins == app.viewport_mins,
        app.spec_check_pagination().0.cal_event_nodes == app.cal_event_nodes,
        app.spec_check_pagination().0.loaded_start == app.loaded_start,
        app.spec_check_pagination().0.loaded_end == app.loaded_end,
        app.spec_check_pagination().0.insert_event == app.insert_event,
        app.spec_check_pagination().0.start_date == app.start_date,
{
}

/// A minute of the day is below the minutes of a day.
proof fn lemma_minute_of_day_bounds(wall: int)
    ensures
        0 <= crate::time::minute_of_day(wall) < 1440,
{
    let r = wall % (crate::time::NANOS_PER_DAY as int);
    assert(0 <= r < crate::time::NANOS_PER_DAY);
    assert(0 <= r / (crate::time::NANOS_PER_MINUTE as int) < 1440) by (nonlinear_arith)
        requires
            0 <= r < 86_400_000_000_000,
    ;
}

/// Keeping the cursor in view keeps the view within the day.
proof fn lemma_sync_keeps_scroll_in_day(app: App, o1: int, o2: int)
    requires
        view_in_day(app),
    ensures
        view_in_day(app.spec_sync_viewport_to_cursor(o1, o2).0),
{
    let start = app.insert_event.start_time as int;
    let end = app.cursor_end();
    let sd = crate::time::date_of(crate::time::local_wall(start, o1));
    let ed = crate::time::date_of(crate::time::local_wall(end, o2));
    lemma_pagination_keeps_view(App { start_date: sd as i32, ..app });
    lemma_pagination_keeps_view(App { start_date: (ed - app.num_days + 1) as i32, ..app });
    let h = app.spec_sync_horizontal(sd, ed);
    assert(h.0.scroll_offset == app.scroll_offset);
    lemma_minute_of_day_bounds(crate::time::local_wall(start, o1));
}

/// Keys in normal mode keep the view within the day.
proof fn lemma_normal_key_keeps_scroll_in_day(app: App, key: KeyInput, c: ClockReading)
    requires
        view_in_day(app),
    ensures
        view_in_day(app.spec_normal_key(key, c).0),
{
    lemma_pagination_keeps_view(App { start_date: (app.start_date - 1) as i32, ..app });
    lemma_pagination_keeps_view(App { start_date: (app.start_date + 1) as i32, ..app });
}

/// Moving the cursor keeps the view within the day and the cursor's length.
proof fn lemma_move_insert_keeps(app: App, minutes: int, c: ClockReading)
    requires
        view_in_day(app),
    ensures
        view_in_day(app.spec_move_insert(minutes, c).0),
        app.spec_move_insert(minutes, c).0.insert_event.duration == app.insert_event.duration,
{
    let t = app.insert_event.start_time + minutes * crate::time::NANOS_PER_MINUTE;
    let a = App { insert_event: crate::app::InsertEvent { start_time: t as i128, ..app.insert_event }, ..app };
    lemma_sync_keeps_scroll_in_day(a, c.start_offset as int, c.end_offset as int);
    lemma_sync_keeps_cursor(a, c.start_offset as int, c.end_offset as int);
}

/// Resizing the cursor and keeping it in view keeps the view within the day.
proof fn lemma_resize_keeps(app: App, minutes: int, c: ClockReading)
    requires
        view_in_day(app),
    ensures
        view_in_day(app.with_duration(minutes).spec_sync_viewport_to_cursor(c.start_offset as int, c.end_offset as int).0),
        app.with_duration(minutes).spec_sync_viewport_to_cursor(c.start_offset as int, c.end_offset as int).0.insert_event.duration
            == minutes as i64,
{
    lemma_sync_keeps_scroll_in_day(app.with_duration(minutes), c.start_offset as int, c.end_offset as int);
    lemma_sync_keeps_cursor(app.with_duration(minutes), c.start_offset as int, c.end_offset as int);
}

/// Keys in insert mode keep the view within the day.
proof fn lemma_insert_key_keeps_scroll(app: App, key: KeyInput, c: ClockReading)
    requires
        view_in_day(app),
    ensures
        view_in_day(app.spec_insert_key(key, c).0),
{
    let row = RESOLUTION_IN_MINS as int;
    let day = MINUTES_IN_DAY as int;
    let d = app.insert_event.duration as int;
    match key.code {
        KeyCode::Char(ch) => {
            if ch == 'q' || crate::app::is_ctrl_c(key) {
            } else if ch == 'k' {
                lemma_move_insert_keeps(app, -row, c);
            } else if ch == 'j' {
                lemma_move_insert_keeps(app, row, c);
            } else if ch == 'h' {
                lemma_move_insert_keeps(app, -day, c);
            } else if ch == 'l' {
                lemma_move_insert_keeps(app, day, c);
            } else if ch == 'K' {
                lemma_resize_keeps(app, d - row, c);
                lemma_resize_keeps(app, d, c);
                assert(app.with_duration(d) == app);
            } else if ch == 'J' {
                lemma_resize_keeps(app, d + row, c);
            } else if ch == 'H' {
                lemma_resize_keeps(app, d - day, c);
                lemma_resize_keeps(app, row, c);
            }
        },
        KeyCode::Up => lemma_move_insert_keeps(app, -row, c),
        KeyCode::Down => lemma_move_insert_keeps(app, row, c),
        KeyCode::Left => lemma_move_insert_keeps(app, -day, c),
        KeyCode::Right => lemma_move_insert_keeps(app, day, c),
        _ => {},
    }
}

/// Moving the cursor keeps its length.
proof fn lemma_move_insert_keeps_length(app: App, minutes: int, c: ClockReading)
    ensures
        app.spec_move_insert(minutes, c).0.insert_event.duration == app.insert_event.duration,
{
    let t = app.insert_event.start_time + minutes * crate::time::NANOS_PER_MINUTE;
    let a = App { insert_event: crate::app::InsertEvent { start_time: t as i128, ..app.insert_event }, ..app };
    lemma_sync_keeps_cursor(a, c.start_offset as int, c.end_offset as int);
}

/// Resizing the cursor and keeping it in view leaves it the length asked.
proof fn lemma_resize_sets_length(app: App, minutes: int, c: ClockReading)
    ensures
        app.with_duration(minutes).spec_sync_viewport_to_cursor(c.start_offset as int, c.end_offset as int).0.insert_event.duration
            == minutes as i64,
{
    lemma_sync_keeps_cursor(app.with_duration(minutes), c.start_offset as int, c.end_offset as int);
}

/// Keys in insert mode keep the cursor a whole number of rows, at least one.
proof fn lemma_insert_key_whole_rows(app: App, key: KeyInput, c: ClockReading)
    requires
        app.insert_event.duration >= RESOLUTION_IN_MINS,
        app.insert_event.duration as int % (RESOLUTION_IN_MINS as int) == 0,
    ensures
        app.spec_insert_key(key, c).0.insert_event.duration >= RESOLUTION_IN_MINS,
        app.spec_insert_key(key, c).0.insert_event.duration as int % (RESOLUTION_IN_MINS as int) == 0,
{
    let row = RESOLUTION_IN_MINS as int;
    let day = MINUTES_IN_DAY as int;
    let d = app.insert_event.duration as int;
    let k = d / 15;
    assert(d == 15 * k);
    assert((d - 15) % 15 == 0 && (d + 15) % 15 == 0) by {
        vstd::arithmetic::div_mod::lemma_mod_multiples_basic(k - 1, 15);
        vstd::arithmetic::div_mod::lemma_mod_multiples_basic(k + 1, 15);
    }
    assert(d > 15 ==> d >= 30);
    match key.code {
        KeyCode::Char(ch) => {
            if ch == 'q' || crate::app::is_ctrl_c(key) {
            } else if ch == 'k' {
                lemma_move_insert_keeps_length(app, -row, c);
            } else if ch == 'j' {
                lemma_move_insert_keeps_length(app, row, c);
            } else if ch == 'h' {
                lemma_move_insert_keeps_length(app, -day, c);
            } else if ch == 'l' {
                lemma_move_insert_keeps_length(app, day, c);
            } else if ch == 'K' {
                lemma_resize_sets_length(app, d - row, c);
                lemma_resize_sets_length(app, d, c);
                assert(app.with_duration(d) == app);
            } else if ch == 'J' {
                lemma_resize_sets_length(app, d + row, c);
            } else if ch == 'H' {
                lemma_resize_sets_length(app, d - day, c);
                lemma_resize_sets_length(app, row, c);
                assert((d - 1440) % 15 == 0) by {
                    vstd::arithmetic::div_mod::lemma_mod_multiples_basic(k - 96, 15);
                }
            }
        },
        KeyCode::Up => lemma_move_insert_keeps_length(app, -row, c),
        KeyCode::Down => lemma_move_insert_keeps_length(app, row, c),
        KeyCode::Left => lemma_move_insert_keeps_length(app, -day, c),
        KeyCode::Right => lemma_move_insert_keeps_length(app, day, c),
        _ => {},
    }
}

/// The view stays within the day: every key keeps the scroll offset at most
/// the minutes of a day less the minutes the view spans.
pub proof fn lemma_scroll_stays_in_day(app: App, key: KeyInput, c: ClockReading)
    requires
        view_in_day(app),
    ensures
        view_in_day(app.spec_key(key, c).0),
{
    match app.mode {
        AppMode::Normal => lemma_normal_key_keeps_scroll_in_day(app, key, c),
        AppMode::Fetching => lemma_normal_key_keeps_scroll_in_day(app, key, c),
        AppMode::Insert => lemma_insert_key_keeps_scroll(app, key, c),
        AppMode::InsertTyping => {},
    }
}

/// The insert cursor is always a whole number of rows, at least one, long:
/// every key keeps it so.
pub proof fn lemma_cursor_whole_rows(app: App, key: KeyInput, c: ClockReading)
    requires
        app.insert_event.duration >= RESOLUTION_IN_MINS,
        app.insert_event.duration as int % (RESOLUTION_IN_MINS as int) == 0,
    ensures
        app.spec_key(key, c).0.insert_event.duration >= RESOLUTION_IN_MINS,
        app.spec_key(key, c).0.insert_event.duration as int % (RESOLUTION_IN_MINS as int) == 0,
{
    if app.mode == AppMode::Insert {
        lemma_insert_key_whole_rows(app, key, c);
    } else if app.mode == AppMode::Normal || app.mode == AppMode::Fetching {
        lemma_pagination_keeps_view(App { start_date: (app.start_date - 1) as i32, ..app });
        lemma_pagination_keeps_view(App { start_date: (app.start_date + 1) as i32, ..app });
    }
}

/// The loaded events stay sorted by start: every message from background
/// work keeps them so.
pub proof fn lemma_events_stay_sorted(before: App, after: App, event: AppEvent)
    requires
        sorted_by_key(before.cal_event_nodes@, start_key()),
        before.spec_app_event(after, event),
    ensures
        sorted_by_key(after.cal_event_nodes@, start_key()),
{
}

/// The loaded days only grow as fetched days are added: they cover both the
/// days loaded before and the days fetched.
pub proof fn lemma_loaded_days_grow(
    before: App,
    after: App,
    nodes: Seq<crate::event::EventNode>,
    start_date: i32,
    end_date: i32,
)
    requires
        before.spec_add_events(after, nodes, start_date as int, end_date as int),
    ensures
        after.loaded_start <= before.loaded_start,
        after.loaded_start <= start_date,
        after.loaded_end >= before.loaded_end,
        after.loaded_end >= end_date,
{
}

/// After a resize the view ends within the day, whenever the day is at
/// least as long as the view: a taller window lowers the largest scroll offset.
pub proof fn lemma_resize_keeps_view_in_day(app: App, term_height: u16)
    requires
        !(app.spec_update_viewport_from_height(term_height as int).1 is Abort),
        app.spec_update_viewport_from_height(term_height as int).0.viewport_mins <= MINUTES_IN_DAY,
    ensures
        app.spec_update_viewport_from_height(term_height as int).0.scroll_offset
            + app.spec_update_viewport_from_height(term_height as int).0.viewport_mins <= MINUTES_IN_DAY,
{
}

/// Keeping the cursor in view leaves the loaded events and days alone.
proof fn lemma_sync_keeps_loaded(app: App, o1: int, o2: int)
    ensures
        app.spec_sync_viewport_to_cursor(o1, o2).0.cal_event_nodes == app.cal_event_nodes,
        app.spec_sync_viewport_to_cursor(o1, o2).0.loaded_start == app.loaded_start,
        app.spec_sync_viewport_to_cursor(o1, o2).0.loaded_end == app.loaded_end,
{
    let start = app.insert_event.start_time as int;
    let end = app.cursor_end();
    let sd = crate::time::date_of(crate::time::local_wall(start, o1));
    let ed = crate::time::date_of(crate::time::local_wall(end, o2));
    if crate::time::valid_instant(end) && crate::time::valid_date(sd) && crate::time::valid_date(ed) {
        let a1 = App { start_date: sd as i32, ..app };
        lemma_pagination_keeps_view(a1);
        if sd >= app.start_date && crate::time::valid_date(ed - app.num_days + 1) {
            let a2 = App { start_date: (ed - app.num_days + 1) as i32, ..app };
            lemma_pagination_keeps_view(a2);
        }
        let h = app.spec_sync_horizontal(sd, ed);
        if !(h.1 is Abort) {
            assert(h.0.spec_sync_vertical(crate::time::minute_of_day(crate::time::local_wall(start, o1)), h.1).0.start_date
                == h.0.start_date);
        }
    }
}

/// Moving the cursor leaves the loaded events and days alone.
proof fn lemma_move_insert_keeps_loaded(app: App, minutes: int, c: ClockReading)
    ensures
        app.spec_move_insert(minutes, c).0.cal_event_nodes == app.cal_event_nodes,
        app.spec_move_insert(minutes, c).0.loaded_start == app.loaded_start,
        app.spec_move_insert(minutes, c).0.loaded_end == app.loaded_end,
{
    let t = app.insert_event.start_time + minutes * crate::time::NANOS_PER_MINUTE;
    let a = App { insert_event: crate::app::InsertEvent { start_time: t as i128, ..app.insert_event }, ..app };
    lemma_sync_keeps_loaded(a, c.start_offset as int, c.end_offset as int);
}

/// Resizing the cursor leaves the loaded events and days alone.
proof fn lemma_resize_keeps_loaded(app: App, minutes: int, c: ClockReading)
    ensures
        app.with_duration(minutes).spec_sync_viewport_to_cursor(c.start_offset as int, c.end_offset as int).0.cal_event_nodes
            == app.cal_event_nodes,
        app.with_duration(minutes).spec_sync_viewport_to_cursor(c.start_offset as int, c.end_offset as int).0.loaded_start
            == app.loaded_start,
        app.with_duration(minutes).spec_sync_viewport_to_cursor(c.start_offset as int, c.end_offset as int).0.loaded_end
            == app.loaded_end,
{
    lemma_sync_keeps_loaded(app.with_duration(minutes), c.start_offset as int, c.end_offset as int);
}

/// Keys in normal mode leave the loaded events and days alone.
proof fn lemma_normal_key_keeps_loaded(app: App, key: KeyInput, c: ClockReading)
    ensures
        app.spec_normal_key(key, c).0.cal_event_nodes == app.cal_event_nodes,
        app.spec_normal_key(key, c).0.loaded_start == app.loaded_start,
        app.spec_normal_key(key, c).0.loaded_end == app.loaded_end,
{
    lemma_pagination_keeps_view(App { start_date: (app.start_date - 1) as i32, ..app });
    lemma_pagination_keeps_view(App { start_date: (app.start_date + 1) as i32, ..app });
}

/// Keys in insert mode leave the loaded events and days alone.
#[verifier::rlimit(40)]
proof fn lemma_insert_key_keeps_loaded(app: App, key: KeyInput, c: ClockReading)
    ensures
        app.spec_insert_key(key, c).0.cal_event_nodes == app.cal_event_nodes,
        app.spec_insert_key(key, c).0.loaded_start == app.loaded_start,
        app.spec_insert_key(key, c).0.loaded_end == app.loaded_end,
{
    let row = RESOLUTION_IN_MINS as int;
    let day = MINUTES_IN_DAY as int;
    let d = app.insert_event.duration as int;
    match key.code {
        KeyCode::Char(ch) => {
            if ch == 'q' || crate::app::is_ctrl_c(key) {
            } else if ch == 'k' {
                lemma_move_insert_keeps_loaded(app, -row, c);
            } else if ch == 'j' {
                lemma_move_insert_keeps_loaded(app, row, c);
            } else if ch == 'h' {
                lemma_move_insert_keeps_loaded(app, -day, c);
            } else if ch == 'l' {
                lemma_move_insert_keeps_loaded(app, day, c);
            } else if ch == 'K' {
                lemma_resize_keeps_loaded(app, d - row, c);
                lemma_resize_keeps_loaded(app, d, c);
                assert(app.with_duration(d) == app);
            } else if ch == 'J' {
                lemma_resize_keeps_loaded(app, d + row, c);
            } else if ch == 'H' {
                lemma_resize_keeps_loaded(app, d - day, c);
                lemma_resize_keeps_loaded(app, row, c);
            }
        },
        KeyCode::Up => lemma_move_insert_keeps_loaded(app, -row, c),
        KeyCode::Down => lemma_move_insert_keeps_loaded(app, row, c),
        KeyCode::Left => lemma_move_insert_keeps_loaded(app, -day, c),
        KeyCode::Right => lemma_move_insert_keeps_loaded(app, day, c),
        _ => {},
    }
}

/// Keys leave the loaded events and the loaded days alone: only background
/// messages change them.
pub proof fn lemma_key_keeps_loaded(app: App, key: KeyInput, c: ClockReading)
    ensures
        app.spec_key(key, c).0.cal_event_nodes == app.cal_event_nodes,
        app.spec_key(key, c).0.loaded_start == app.loaded_start,
        app.spec_key(key, c).0.loaded_end == app.loaded_end,
{
    match app.mode {
        AppMode::Normal => lemma_normal_key_keeps_loaded(app, key, c),
        AppMode::Fetching => lemma_normal_key_keeps_loaded(app, key, c),
        AppMode::Insert => lemma_insert_key_keeps_loaded(app, key, c),
        AppMode::InsertTyping => {},
    }
}

/// What every key keeps: the view ends within the day, the insert cursor is
/// a whole number of rows and at least one, the loaded events are sorted by
/// start, and the loaded days do not run backwards.
pub open spec fn steady(app: App) -> bool {
    &&& view_in_day(app)
    &&& app.insert_event.duration >= RESOLUTION_IN_MINS
    &&& app.insert_event.duration as int % (RESOLUTION_IN_MINS as int) == 0
    &&& sorted_by_key(app.cal_event_nodes@, start_key())
    &&& app.loaded_start <= app.loaded_end
}

/// Every key, in every mode and whatever the clock read, keeps `steady`.
pub proof fn lemma_key_keeps_steady(app: App, key: KeyInput, c: ClockReading)
    requires
        steady(app),
    ensures
        steady(app.spec_key(key, c).0),
{
    lemma_scroll_stays_in_day(app, key, c);
    lemma_cursor_whole_rows(app, key, c);
    lemma_key_keeps_loaded(app, key, c);
}

/// Pagination fetches ahead: when no request is under way and the last day
/// shown, plus `BUFFER_DAYS`, reaches the end of the loaded days, checking
/// pagination asks for the `FETCH_DAYS` days that follow the loaded ones and
/// marks a request under way (the days involved being representable).
pub proof fn lemma_pagination_fetches_ahead(app: App)
    requires
        app.mode != AppMode::Fetching,
        crate::time::valid_date(app.start_date + app.num_days + BUFFER_DAYS),
        crate::time::valid_date(app.start_date + app.num_days),
        crate::time::valid_date(app.loaded_end + FETCH_DAYS),
        app.start_date + app.num_days + BUFFER_DAYS >= app.loaded_end,
    ensures
        app.spec_check_pagination().1 == (EffectView::Fetch {
            start_date: app.loaded_end,
            end_date: (app.loaded_end + FETCH_DAYS) as i32,
            is_refresh: false,
        }),
        app.spec_check_pagination().0 == (App { mode: AppMode::Fetching, ..app }),
{
}

/// Pagination fetches behind: when no request is under way, the view's end
/// is clear of the loaded end, and the first day shown, less `BUFFER_DAYS`,
/// reaches the start of the loaded days, checking pagination asks for the
/// `FETCH_DAYS` days before the loaded ones.
pub proof fn lemma_pagination_fetches_behind(app: App)
    requires
        app.mode != AppMode::Fetching,
        crate::time::valid_date(app.start_date + app.num_days + BUFFER_DAYS),
        crate::time::valid_date(app.start_date + app.num_days),
        crate::time::valid_date(app.start_date - BUFFER_DAYS),
        crate::time::valid_date(app.loaded_start - FETCH_DAYS),
        app.start_date + app.num_days + BUFFER_DAYS < app.loaded_end,
        app.start_date - BUFFER_DAYS <= app.loaded_start,
    ensures
        app.spec_check_pagination().1 == (EffectView::Fetch {
            start_date: (app.loaded_start - FETCH_DAYS) as i32,
            end_date: app.loaded_start,
            is_refresh: false,
        }),
        app.spec_check_pagination().0 == (App { mode: AppMode::Fetching, ..app }),
{
}

/// Pagination stays quiet when the view is clear of both ends of the loaded
/// days by more than `BUFFER_DAYS`, or a request is under way: nothing changes.
pub proof fn lemma_pagination_quiet(app: App)
    requires
        app.mode == AppMode::Fetching || (
            crate::time::valid_date(app.start_date + app.num_days + BUFFER_DAYS)
            && crate::time::valid_date(app.start_date + app.num_days)
            && crate::time::valid_date(app.start_date - BUFFER_DAYS)
            && app.start_date + app.num_days + BUFFER_DAYS < app.loaded_end
            && app.start_date - BUFFER_DAYS > app.loaded_start),
    ensures
        app.spec_check_pagination() == (app, EffectView::Nothing),
{
}

/// Moving the view a day right in normal mode, when the new last day shown
/// plus `BUFFER_DAYS` reaches the end of the loaded days, asks for the next
/// `FETCH_DAYS` days and marks a request under way.
pub proof fn lemma_scroll_right_fetches_ahead(app: App, key: KeyInput, c: ClockReading)
    requires
        app.mode == AppMode::Normal,
        key.code == KeyCode::Char('l'),
        crate::time::valid_date(app.start_date + 1),
        crate::time::valid_date(app.start_date + 1 + app.num_days + BUFFER_DAYS),
        crate::time::valid_date(app.start_date + 1 + app.num_days),
        crate::time::valid_date(app.loaded_end + FETCH_DAYS),
        app.start_date + 1 + app.num_days + BUFFER_DAYS >= app.loaded_end,
    ensures
        app.spec_key(key, c).0.start_date == app.start_date + 1,
        app.spec_key(key, c).0.mode == AppMode::Fetching,
        app.spec_key(key, c).1 == (EffectView::Fetch {
            start_date: app.loaded_end,
            end_date: (app.loaded_end + FETCH_DAYS) as i32,
            is_refresh: false,
        }),
{
    lemma_pagination_fetches_ahead(App { start_date: (app.start_date + 1) as i32, ..app });
}

/// Keeping the cursor in view shows its days: with the zone `o1` seconds
/// ahead of UTC at the cursor's start and `o2` at its end, and its local
/// dates `sd` and `ed`, when the step does not stop, a cursor starting
/// before the first day shown makes its start day the first; otherwise its
/// end day is among the days shown. When the cursor's days fit in the view,
/// both its days are shown.
pub proof fn lemma_sync_shows_cursor_days(app: App, o1: int, o2: int)
    requires
        app.num_days > 0,
        !(app.spec_sync_viewport_to_cursor(o1, o2).1 is Abort),
    ensures
        ({
            let sd = crate::time::date_of(crate::time::local_wall(app.insert_event.start_time as int, o1));
            let ed = crate::time::date_of(crate::time::local_wall(app.cursor_end(), o2));
            let after = app.spec_sync_viewport_to_cursor(o1, o2).0;
            &&& sd < app.start_date ==> after.start_date == sd
            &&& sd >= app.start_date ==> app.start_date <= after.start_date && ed <= after.start_date + app.num_days - 1
            &&& sd <= ed < sd + app.num_days ==> after.start_date <= sd && ed <= after.start_date + app.num_days - 1
            &&& after.num_days == app.num_days
        }),
{
    let start = app.insert_event.start_time as int;
    let end = app.cursor_end();
    let sd = crate::time::date_of(crate::time::local_wall(start, o1));
    let ed = crate::time::date_of(crate::time::local_wall(end, o2));
    lemma_pagination_keeps_view(App { start_date: sd as i32, ..app });
    lemma_pagination_keeps_view(App { start_date: (ed - app.num_days + 1) as i32, ..app });
}

/// Jumping to the current time records the time read and shows it: its date
/// is the day after the first day shown, and its minute of the day lies
/// within the view, when the view is no longer than a day and the step does
/// not stop.
pub proof fn lemma_jump_shows_now(app: App, t: crate::time::LocalTime)
    requires
        app.viewport_mins <= MINUTES_IN_DAY,
        t.wf(),
        !(app.spec_jump_to_current_time(t).1 is Abort),
    ensures
        app.spec_jump_to_current_time(t).0.now == t,
        app.spec_jump_to_current_time(t).0.start_date + crate::constants::START_OFFSET == t.date(),
        app.spec_jump_to_current_time(t).0.scroll_offset <= t.minute_of_day(),
        t.minute_of_day() <= app.spec_jump_to_current_time(t).0.scroll_offset + app.viewport_mins,
{
    lemma_minute_of_day_bounds(t.wall());
}

} // verus!
