//! The interface's state machine: what each key press, resize and message
//! from background work does to the calendar view and the event being
//! inserted, and what outside work it asks for in return.
use vstd::prelude::*;
use crate::constants::{
    BUFFER_DAYS, FETCH_DAYS, MINUTES_IN_DAY, NUM_DAYS, RESOLUTION_IN_MINS, ROWS_PER_HOUR,
    SCROLL_OFFSET_MINS, START_OFFSET, VIEWPORT_MINS,
};
use crate::event::{sort_by_start, start_key, AppEvent, EventNode, EventNodeView, EventsFetched};
use crate::clock::{
    format_reading, formatted_reading, local_time_at, local_to_utc, now, parse_reading, parsed_wall,
    whole_minute, same_moment, trim_text, trimmed, wall_to_utc, zone_answer, TIME_FORMAT,
};
use crate::sort::{lemma_stable_sorted_contains, stable_sorted};
use crate::text::{join_lines, joined, texts};
use crate::time::{
    date_of, date_of_wall, local_wall, minute_of_day, minute_of_day_of_wall, valid_date,
    valid_delta_minutes, valid_instant, valid_offset, LocalOffsets, LocalTime, MAX_DATE, MAX_DELTA_MINUTES,
    MAX_INSTANT, MIN_DATE, MIN_INSTANT, NANOS_PER_MINUTE, NANOS_PER_SECOND,
};

verus! {

/// What the keys do.
#[derive(Clone, Copy, Debug, PartialEq, Eq, Structural)]
pub enum AppMode {
    /// Keys move the view.
    Normal,
    /// A request to the calendar service is under way; keys move the view.
    Fetching,
    /// Keys move the cursor of the event to insert.
    Insert,
    /// Keys edit the fields of the event to insert.
    InsertTyping,
}

impl Default for AppMode {
    fn default() -> (r: AppMode)
        ensures
            r == AppMode::Normal,
    {
        AppMode::Normal
    }
}

/// The field of the insert popup that takes typed keys.
#[derive(Clone, Copy, Debug, PartialEq, Eq, Structural)]
pub enum ActiveField {
    Summary,
    Description,
    StartTime,
    EndTime,
}

impl Default for ActiveField {
    fn default() -> (r: ActiveField)
        ensures
            r == ActiveField::Summary,
    {
        ActiveField::Summary
    }
}

/// The insert popup. Its four text fields are widgets of the terminal
/// front end; the state machine tracks which of them is active.
#[derive(Clone, Copy, Debug)]
pub struct EventPopup {
    pub active_field: ActiveField,
}

/// The cursor of the event to insert.
#[derive(Clone, Copy, Debug)]
pub struct InsertEvent {
    /// Nanoseconds since the epoch.
    pub start_time: i128,
    /// Whole minutes.
    pub duration: i64,
}

/// A key, as far as the state machine tells keys apart.
#[derive(Clone, Copy, Debug)]
pub enum KeyCode {
    Char(char),
    Up,
    Down,
    Left,
    Right,
    Esc,
    Tab,
    BackTab,
    Enter,
    Other,
}

/// A key press.
#[derive(Clone, Copy, Debug)]
pub struct KeyInput {
    pub code: KeyCode,
    /// The modifiers held are exactly Control.
    pub ctrl: bool,
}

/// Why the interface stops: an operation whose result has no value.
#[derive(Clone, Copy, Debug, PartialEq, Eq, Structural)]
pub enum Fault {
    /// A date left the representable range.
    DateOutOfRange,
    /// A moment left the representable range.
    TimeOutOfRange,
    /// A duration left the representable range.
    DurationOutOfRange,
    /// A wall-clock time names no single moment in the local zone.
    NoSuchLocalTime,
    /// A count of rows or minutes left `u16`.
    Overflow,
}

/// Outside work that a step of the state machine asks for.
#[derive(Debug)]
pub enum Effect {
    Nothing,
    /// Ask the interface to quit.
    Quit,
    /// Fetch the events of the days from `start_date` up to `end_date` in
    /// the background; a refresh replaces the loaded events.
    Fetch { start_date: i32, end_date: i32, is_refresh: bool },
    /// Create the event in the background.
    Create(EventNode),
    /// Hand the key to the text field.
    ForwardKey(ActiveField),
    /// Replace the texts of the start and end fields of the popup.
    FillTimes { start: String, end: String },
    /// Restyle the popup's fields after the active one changed.
    Restyle,
    /// Read the popup's fields and submit them (`App::submit_popup`).
    Submit,
    /// Stop: the operation has no result (the terminal front end panics).
    Abort(Fault),
}

/// The abstract value of an `Effect`.
pub enum EffectView {
    Nothing,
    Quit,
    Fetch { start_date: i32, end_date: i32, is_refresh: bool },
    Create(EventNodeView),
    ForwardKey(ActiveField),
    FillTimes { start: Seq<char>, end: Seq<char> },
    Restyle,
    Submit,
    Abort(Fault),
}

impl View for Effect {
    type V = EffectView;

    open spec fn view(&self) -> EffectView {
        match *self {
            Effect::Nothing => EffectView::Nothing,
            Effect::Quit => EffectView::Quit,
            Effect::Fetch { start_date, end_date, is_refresh } => EffectView::Fetch {
                start_date,
                end_date,
                is_refresh,
            },
            Effect::Create(n) => EffectView::Create(n@),
            Effect::ForwardKey(f) => EffectView::ForwardKey(f),
            Effect::FillTimes { start, end } => EffectView::FillTimes { start: start@, end: end@ },
            Effect::Restyle => EffectView::Restyle,
            Effect::Submit => EffectView::Submit,
            Effect::Abort(f) => EffectView::Abort(f),
        }
    }
}

/// The state of the interface.
pub struct App {
    pub running: bool,
    pub mode: AppMode,
    /// The first day shown, in days since 1970-01-01.
    pub start_date: i32,
    /// Minutes since midnight at the top of the view.
    pub scroll_offset: u16,
    /// Minutes the view spans.
    pub viewport_mins: u16,
    /// The loaded events, by start moment.
    pub cal_event_nodes: Vec<EventNode>,
    /// Days shown.
    pub num_days: i32,
    /// When the view was last brought to the current time.
    pub now: LocalTime,
    pub is_now_timeline_visible: bool,
    pub sel_event_id: Option<String>,
    /// The loaded days: from `loaded_start` up to `loaded_end`.
    pub loaded_start: i32,
    pub loaded_end: i32,
    pub insert_event: InsertEvent,
    pub popup: EventPopup,
}

/// `a - b`, or zero when `b` is larger (`saturating_sub`).
pub open spec fn sat_sub(a: int, b: int) -> int {
    if a >= b { a - b } else { 0 }
}

/// The smaller of two integers.
pub open spec fn min(a: int, b: int) -> int {
    if a <= b { a } else { b }
}

/// The largest scroll offset for a view spanning `viewport` minutes.
pub open spec fn max_offset(viewport: int) -> int {
    sat_sub(MINUTES_IN_DAY as int, viewport)
}

/// A step of the state machine: the state after it and the effect it asks for.
pub type Step = (App, EffectView);

impl App {
/// The step that stops the interface, the state unchanged.
    pub open spec fn stop(self, f: Fault) -> Step {
        (self, EffectView::Abort(f))
    }

/// The state once the interface is told to quit.
    pub open spec fn spec_quit(self) -> App {
        App { running: false, ..self }
    }

/// Scroll the view a row up, stopping at midnight.
    pub open spec fn spec_scroll_up(self) -> App {
        App { scroll_offset: sat_sub(self.scroll_offset as int, RESOLUTION_IN_MINS as int) as u16, ..self }
    }

/// Scroll the view a row down, stopping at the last view of the day.
    pub open spec fn spec_scroll_down(self) -> Step {
        if self.scroll_offset + RESOLUTION_IN_MINS > u16::MAX {
            self.stop(Fault::Overflow)
        } else {
            (
                App {
                    scroll_offset: min(
                        self.scroll_offset + RESOLUTION_IN_MINS,
                        max_offset(self.viewport_mins as int),
                    ) as u16,
                    ..self
                },
                EffectView::Nothing,
            )
        }
    }

    /// Set running to false to quit the application.
    pub fn quit(&mut self)
        ensures
            *final(self) == old(self).spec_quit(),
    {
        self.running = false;
    }

    /// Handles the tick event of the terminal: nothing changes.
    pub fn tick(&self) {
    }

    fn scroll_up(&mut self)
        ensures
            *final(self) == old(self).spec_scroll_up(),
    {
        self.scroll_offset = if self.scroll_offset >= RESOLUTION_IN_MINS {
            self.scroll_offset - RESOLUTION_IN_MINS
        } else {
            0
        };
    }

    fn scroll_down(&mut self) -> (r: Effect)
        ensures
            (*final(self), r@) == old(self).spec_scroll_down(),
    {
        if self.scroll_offset > u16::MAX - RESOLUTION_IN_MINS {
            return Effect::Abort(Fault::Overflow);
        }
        let max_offset = if MINUTES_IN_DAY >= self.viewport_mins {
            MINUTES_IN_DAY - self.viewport_mins
        } else {
            0
        };
        let next = self.scroll_offset + RESOLUTION_IN_MINS;
        self.scroll_offset = if next <= max_offset { next } else { max_offset };
        Effect::Nothing
    }
}


/// The date `n` days after `d`, when it is representable (`NaiveDate + TimeDelta::days`).
pub fn add_days(d: i32, n: i32) -> (r: Option<i32>)
    ensures
        r == (if valid_date(d + n) { Some((d + n) as i32) } else { None }),
{
    let s = d as i64 + n as i64;
    if MIN_DATE as i64 <= s && s <= MAX_DATE as i64 {
        Some(s as i32)
    } else {
        None
    }
}

/// The date `n` days before `d`, when it is representable (`NaiveDate - TimeDelta::days`).
pub fn sub_days(d: i32, n: i32) -> (r: Option<i32>)
    ensures
        r == (if valid_date(d - n) { Some((d - n) as i32) } else { None }),
{
    let s = d as i64 - n as i64;
    if MIN_DATE as i64 <= s && s <= MAX_DATE as i64 {
        Some(s as i32)
    } else {
        None
    }
}

/// The moment `minutes` minutes after `t`, when it is representable (`DateTime + TimeDelta`).
pub fn add_minutes(t: i128, minutes: i64) -> (r: Option<i128>)
    requires
        valid_instant(t as int),
        valid_delta_minutes(minutes as int),
    ensures
        r == (if valid_instant(t + minutes * NANOS_PER_MINUTE) {
            Some((t + minutes * NANOS_PER_MINUTE) as i128)
        } else {
            None
        }),
{
    let u = t + minutes as i128 * NANOS_PER_MINUTE;
    if MIN_INSTANT <= u && u <= MAX_INSTANT {
        Some(u)
    } else {
        None
    }
}

/// The field after `f` in the popup, cycling.
pub open spec fn next_field(f: ActiveField) -> ActiveField {
    match f {
        ActiveField::Summary => ActiveField::Description,
        ActiveField::Description => ActiveField::StartTime,
        ActiveField::StartTime => ActiveField::EndTime,
        ActiveField::EndTime => ActiveField::Summary,
    }
}

/// The field before `f` in the popup, cycling.
pub open spec fn prev_field(f: ActiveField) -> ActiveField {
    match f {
        ActiveField::Summary => ActiveField::EndTime,
        ActiveField::Description => ActiveField::Summary,
        ActiveField::StartTime => ActiveField::Description,
        ActiveField::EndTime => ActiveField::StartTime,
    }
}

impl App {
    /// The values the state holds are representable, as chrono's types hold them.
    pub open spec fn wf(self) -> bool {
        &&& valid_date(self.start_date as int)
        &&& valid_date(self.loaded_start as int)
        &&& valid_date(self.loaded_end as int)
        &&& valid_instant(self.insert_event.start_time as int)
        &&& valid_delta_minutes(self.insert_event.duration as int)
        &&& self.now.wf()
        &&& forall|i: int| 0 <= i < self.cal_event_nodes@.len() ==> (#[trigger] self.cal_event_nodes@[i]).wf()
    }

/// Ask for the events of the days from `start_date` up to `end_date`,
/// unless a request is under way.
    pub open spec fn spec_fetch_events(self, start_date: i32, end_date: i32, is_refresh: bool) -> Step {
        if self.mode == AppMode::Fetching {
            (self, EffectView::Nothing)
        } else {
            (
                App { mode: AppMode::Fetching, ..self },
                EffectView::Fetch { start_date, end_date, is_refresh },
            )
        }
    }

    /// Fetch more days when the view comes within `BUFFER_DAYS` of either end
    /// of the loaded days, unless a fetch is under way.
    pub open spec fn spec_check_pagination(self) -> Step {
        let start = self.start_date as int;
        let view_end = start + self.num_days;
        if self.mode == AppMode::Fetching {
            (self, EffectView::Nothing)
        } else if !valid_date(view_end) || !valid_date(view_end + BUFFER_DAYS) {
            self.stop(Fault::DateOutOfRange)
        } else if view_end + BUFFER_DAYS >= self.loaded_end {
            if !valid_date(self.loaded_end + FETCH_DAYS) {
                self.stop(Fault::DateOutOfRange)
            } else {
                self.spec_fetch_events(self.loaded_end, (self.loaded_end + FETCH_DAYS) as i32, false)
            }
        } else if !valid_date(start - BUFFER_DAYS) {
            self.stop(Fault::DateOutOfRange)
        } else if start - BUFFER_DAYS <= self.loaded_start {
            if !valid_date(self.loaded_start - FETCH_DAYS) {
                self.stop(Fault::DateOutOfRange)
            } else {
                self.spec_fetch_events((self.loaded_start - FETCH_DAYS) as i32, self.loaded_start, false)
            }
        } else {
            (self, EffectView::Nothing)
        }
    }

    /// Move the first day shown by `days`, then check pagination.
    pub open spec fn spec_scroll_days(self, days: int) -> Step {
        if !valid_date(self.start_date + days) {
            self.stop(Fault::DateOutOfRange)
        } else {
            App { start_date: (self.start_date + days) as i32, ..self }.spec_check_pagination()
        }
    }

/// Scroll an hour (four rows) up.
    pub open spec fn spec_big_scroll_up(self) -> App {
        self.spec_scroll_up().spec_scroll_up().spec_scroll_up().spec_scroll_up()
    }

/// Scroll an hour (four rows) down.
    pub open spec fn spec_big_scroll_down(self) -> Step {
        let (a1, e1) = self.spec_scroll_down();
        if e1 is Abort {
            (a1, e1)
        } else {
            let (a2, e2) = a1.spec_scroll_down();
            if e2 is Abort {
                (a2, e2)
            } else {
                let (a3, e3) = a2.spec_scroll_down();
                if e3 is Abort {
                    (a3, e3)
                } else {
                    a3.spec_scroll_down()
                }
            }
        }
    }

    /// Center the view on the local time `t`: show from the day before its
    /// date, with its minute of the day in the middle of the view as far as
    /// the day allows.
    pub open spec fn spec_jump_to_time(self, t: LocalTime) -> Step {
        let d = t.date();
        if !valid_date(d) || !valid_date(d - START_OFFSET) {
            self.stop(Fault::DateOutOfRange)
        } else {
            let target = sat_sub(t.minute_of_day(), (self.viewport_mins / 2) as int);
            (
                App {
                    start_date: (d - START_OFFSET) as i32,
                    scroll_offset: min(target, max_offset(self.viewport_mins as int)) as u16,
                    ..self
                },
                EffectView::Nothing,
            )
        }
    }

/// Record the current time `now` and center the view on it.
    pub open spec fn spec_jump_to_current_time(self, now: LocalTime) -> Step {
        App { now, ..self }.spec_jump_to_time(now)
    }

/// Center the view on the current time `now` and move the insert cursor
/// to start there.
    pub open spec fn spec_move_insert_current_time(self, now: LocalTime) -> Step {
        let (a, e) = App { now, ..self }.spec_jump_to_time(now);
        if e is Abort {
            (a, e)
        } else {
            (App { insert_event: InsertEvent { start_time: now.utc, ..a.insert_event }, ..a }, e)
        }
    }

/// Show or hide the current-time line.
    pub open spec fn spec_toggle_timeline(self) -> App {
        App { is_now_timeline_visible: !self.is_now_timeline_visible, ..self }
    }

    /// Trigger background fetch for new events: asks for a fetch and marks
    /// it under way, unless one is under way already.
    pub fn fetch_events(&mut self, start_date: i32, end_date: i32, is_refresh: bool) -> (r: Effect)
        ensures
            (*final(self), r@) == old(self).spec_fetch_events(start_date, end_date, is_refresh),
    {
        if self.mode == AppMode::Fetching {
            return Effect::Nothing;
        }
        self.mode = AppMode::Fetching;
        Effect::Fetch { start_date, end_date, is_refresh }
    }

    fn check_pagination(&mut self) -> (r: Effect)
        ensures
            (*final(self), r@) == old(self).spec_check_pagination(),
    {
        if self.mode == AppMode::Fetching {
            return Effect::Nothing;
        }
        let view_end = match add_days(self.start_date, self.num_days) {
            Some(d) => d,
            None => return Effect::Abort(Fault::DateOutOfRange),
        };
        let buffered_end = match add_days(view_end, BUFFER_DAYS) {
            Some(d) => d,
            None => return Effect::Abort(Fault::DateOutOfRange),
        };
        if buffered_end >= self.loaded_end {
            let fetch_end = match add_days(self.loaded_end, FETCH_DAYS) {
                Some(d) => d,
                None => return Effect::Abort(Fault::DateOutOfRange),
            };
            let loaded_end = self.loaded_end;
            return self.fetch_events(loaded_end, fetch_end, false);
        }
        let buffered_start = match add_days(self.start_date, -BUFFER_DAYS) {
            Some(d) => d,
            None => return Effect::Abort(Fault::DateOutOfRange),
        };
        if buffered_start <= self.loaded_start {
            let fetch_start = match add_days(self.loaded_start, -FETCH_DAYS) {
                Some(d) => d,
                None => return Effect::Abort(Fault::DateOutOfRange),
            };
            let loaded_start = self.loaded_start;
            return self.fetch_events(fetch_start, loaded_start, false);
        }
        Effect::Nothing
    }

    fn scroll_days(&mut self, days: i32) -> (r: Effect)
        ensures
            (*final(self), r@) == old(self).spec_scroll_days(days as int),
    {
        match add_days(self.start_date, days) {
            Some(d) => {
                self.start_date = d;
                self.check_pagination()
            },
            None => Effect::Abort(Fault::DateOutOfRange),
        }
    }

    fn big_scroll_up(&mut self)
        ensures
            *final(self) == old(self).spec_big_scroll_up(),
    {
        let mut i: u16 = 0;
        while i < ROWS_PER_HOUR
            invariant
                i <= ROWS_PER_HOUR,
                i == 0 ==> *self == *old(self),
                i == 1 ==> *self == old(self).spec_scroll_up(),
                i == 2 ==> *self == old(self).spec_scroll_up().spec_scroll_up(),
                i == 3 ==> *self == old(self).spec_scroll_up().spec_scroll_up().spec_scroll_up(),
                i == 4 ==> *self == old(self).spec_big_scroll_up(),
            decreases ROWS_PER_HOUR - i,
        {
            self.scroll_up();
            i = i + 1;
        }
    }

    fn big_scroll_down(&mut self) -> (r: Effect)
        ensures
            (*final(self), r@) == old(self).spec_big_scroll_down(),
    {
        let e = self.scroll_down();
        if let Effect::Abort(_) = e {
            return e;
        }
        let e = self.scroll_down();
        if let Effect::Abort(_) = e {
            return e;
        }
        let e = self.scroll_down();
        if let Effect::Abort(_) = e {
            return e;
        }
        self.scroll_down()
    }

    /// Centers the viewport on the local time `time` (see `spec_jump_to_time`).
    pub fn jump_to_time(&mut self, time: &LocalTime) -> (r: Effect)
        requires
            time.wf(),
        ensures
            (*final(self), r@) == old(self).spec_jump_to_time(*time),
    {
        let wall = time.utc + time.offset as i128 * NANOS_PER_SECOND;
        let d = date_of_wall(wall);
        proof {
            assert(d == time.date());
        }
        if d < MIN_DATE || d > MAX_DATE {
            return Effect::Abort(Fault::DateOutOfRange);
        }
        let start_date = match add_days(d, -START_OFFSET) {
            Some(s) => s,
            None => return Effect::Abort(Fault::DateOutOfRange),
        };
        let current_mins = minute_of_day_of_wall(wall);
        let half_viewport = self.viewport_mins / 2;
        let target_offset = if current_mins >= half_viewport {
            current_mins - half_viewport
        } else {
            0
        };
        let max_offset = if MINUTES_IN_DAY >= self.viewport_mins {
            MINUTES_IN_DAY - self.viewport_mins
        } else {
            0
        };
        self.start_date = start_date;
        self.scroll_offset = if target_offset <= max_offset { target_offset } else { max_offset };
        Effect::Nothing
    }

    /// Jumps the calendar to the current time: the clock's reading taken
    /// during the step (a moment at or after the epoch).
    pub fn jump_to_current_time(&mut self) -> (r: Effect)
        ensures
            old(self).wf() ==> final(self).wf(),
            exists|t: LocalTime| t.wf() && t.utc >= 0 && (*final(self), r@) == #[trigger] old(self).spec_jump_to_current_time(t),
    {
        let t = now();
        self.now = t;
        let r = self.jump_to_time(&t);
        proof {
            assert((*self, r@) == old(self).spec_jump_to_current_time(t));
        }
        r
    }

    fn move_insert_current_time(&mut self) -> (r: Effect)
        ensures
            exists|t: LocalTime| t.wf() && t.utc >= 0 && (*final(self), r@) == #[trigger] old(self).spec_move_insert_current_time(t),
    {
        let t = now();
        self.now = t;
        let r = self.jump_to_time(&t);
        if let Effect::Abort(_) = r {
            proof {
                assert((*self, r@) == old(self).spec_move_insert_current_time(t));
            }
            return r;
        }
        self.insert_event.start_time = t.utc;
        proof {
            assert((*self, r@) == old(self).spec_move_insert_current_time(t));
        }
        r
    }
}


/// The text of a local wall-clock reading in the popup.
pub open spec fn popup_time_text(wall: int) -> Seq<char> {
    formatted_reading(
        (wall / (NANOS_PER_SECOND as int)) as i64,
        (wall % (NANOS_PER_SECOND as int)) as u32,
        TIME_FORMAT@,
    )
}

impl App {
    /// The end moment of the insert cursor.
    pub open spec fn cursor_end(self) -> int {
        self.insert_event.start_time + self.insert_event.duration * NANOS_PER_MINUTE
    }

    /// Keep the insert cursor in view, the local zone being `o1` seconds ahead
    /// of UTC at its start and `o2` at its end: move the first day shown when
    /// the cursor starts before it or ends past the last day shown (then check
    /// pagination), and scroll when the cursor's start is above the view or its
    /// end below it.
    pub open spec fn spec_sync_viewport_to_cursor(self, o1: int, o2: int) -> Step {
        let start = self.insert_event.start_time as int;
        let end = self.cursor_end();
        if !valid_instant(end) {
            self.stop(Fault::TimeOutOfRange)
        } else {
            let start_date = date_of(local_wall(start, o1));
            let end_date = date_of(local_wall(end, o2));
            if !valid_date(start_date) || !valid_date(end_date) {
                self.stop(Fault::DateOutOfRange)
            } else {
                let (h, e) = self.spec_sync_horizontal(start_date, end_date);
                if e is Abort {
                    (h, e)
                } else {
                    h.spec_sync_vertical(minute_of_day(local_wall(start, o1)), e)
                }
            }
        }
    }

    /// Move the first day shown so that the days from `start_date` to
    /// `end_date` begin in view, or end in view, then check pagination.
    pub open spec fn spec_sync_horizontal(self, start_date: int, end_date: int) -> Step {
        if start_date < self.start_date {
            App { start_date: start_date as i32, ..self }.spec_check_pagination()
        } else if !valid_date(self.start_date + self.num_days) {
            self.stop(Fault::DateOutOfRange)
        } else if end_date >= self.start_date + self.num_days {
            if !valid_date(end_date - self.num_days) || !valid_date(end_date - self.num_days + 1) {
                self.stop(Fault::DateOutOfRange)
            } else {
                App { start_date: (end_date - self.num_days + 1) as i32, ..self }.spec_check_pagination()
            }
        } else {
            (self, EffectView::Nothing)
        }
    }

/// Scroll so that the cursor, starting `cursor_mins` minutes after
/// midnight, is in view: up to its start when it starts above the view,
/// down by what its end overflows when it ends at or below the bottom.
    pub open spec fn spec_sync_vertical(self, cursor_mins: int, e: EffectView) -> Step {
        let top = self.scroll_offset as int;
        let bottom = self.scroll_offset + self.viewport_mins;
        let duration_mins = (self.insert_event.duration as u16) as int;
        if bottom > u16::MAX {
            self.stop(Fault::Overflow)
        } else if cursor_mins < top {
            (App { scroll_offset: cursor_mins as u16, ..self }, e)
        } else if cursor_mins + duration_mins > u16::MAX {
            self.stop(Fault::Overflow)
        } else if cursor_mins + duration_mins >= bottom {
            let overflow = cursor_mins + duration_mins - bottom;
            (
                App {
                    scroll_offset: min(top + overflow, max_offset(self.viewport_mins as int)) as u16,
                    ..self
                },
                e,
            )
        } else {
            (self, e)
        }
    }

    /// Move the insert cursor by `minutes`, then keep it in view.
    pub open spec fn spec_move_insert(self, minutes: int, c: ClockReading) -> Step {
        let t = self.insert_event.start_time + minutes * NANOS_PER_MINUTE;
        if !valid_instant(t) {
            self.stop(Fault::TimeOutOfRange)
        } else {
            App {
                insert_event: InsertEvent { start_time: t as i128, ..self.insert_event },
                ..self
            }.spec_sync_viewport_to_cursor(c.start_offset as int, c.end_offset as int)
        }
    }

/// The state with the insert cursor `minutes` long.
    pub open spec fn with_duration(self, minutes: int) -> App {
        App { insert_event: InsertEvent { duration: minutes as i64, ..self.insert_event }, ..self }
    }

    /// Shorten the cursor by a row, if it stays longer than zero.
    pub open spec fn spec_extend_insert_up(self, c: ClockReading) -> Step {
        let o1 = c.start_offset as int;
        let o2 = c.end_offset as int;
        let d = self.insert_event.duration as int;
        let a = if d > RESOLUTION_IN_MINS { self.with_duration(d - RESOLUTION_IN_MINS) } else { self };
        a.spec_sync_viewport_to_cursor(o1, o2)
    }

    /// Lengthen the cursor by a row.
    pub open spec fn spec_extend_insert_down(self, c: ClockReading) -> Step {
        let o1 = c.start_offset as int;
        let o2 = c.end_offset as int;
        let d = self.insert_event.duration as int;
        if !valid_delta_minutes(d + RESOLUTION_IN_MINS) {
            self.stop(Fault::DurationOutOfRange)
        } else {
            self.with_duration(d + RESOLUTION_IN_MINS).spec_sync_viewport_to_cursor(o1, o2)
        }
    }

    /// Shorten the cursor by a day, to a row at least.
    pub open spec fn spec_extend_insert_left(self, c: ClockReading) -> Step {
        let o1 = c.start_offset as int;
        let o2 = c.end_offset as int;
        let d = self.insert_event.duration as int;
        if !valid_delta_minutes(d - MINUTES_IN_DAY) {
            self.stop(Fault::DurationOutOfRange)
        } else if d - MINUTES_IN_DAY >= RESOLUTION_IN_MINS {
            self.with_duration(d - MINUTES_IN_DAY).spec_sync_viewport_to_cursor(o1, o2)
        } else {
            self.with_duration(RESOLUTION_IN_MINS as int).spec_sync_viewport_to_cursor(o1, o2)
        }
    }

    /// Lengthen the cursor by a day; the view stays.
    pub open spec fn spec_extend_insert_right(self) -> Step {
        let d = self.insert_event.duration as int;
        if !valid_delta_minutes(d + MINUTES_IN_DAY) {
            self.stop(Fault::DurationOutOfRange)
        } else {
            (self.with_duration(d + MINUTES_IN_DAY), EffectView::Nothing)
        }
    }

    /// Open the popup for the event's details: type into it, and fill its
    /// start and end fields with the cursor's local start and end.
    pub open spec fn spec_enter_insert_event_details(self, c: ClockReading) -> Step {
        let o1 = c.start_offset as int;
        let o2 = c.end_offset as int;
        let a = App { mode: AppMode::InsertTyping, ..self };
        let start_wall = local_wall(self.insert_event.start_time as int, o1);
        let end_wall = local_wall(self.cursor_end(), o2);
        if !valid_instant(self.cursor_end()) || !valid_instant(start_wall) || !valid_instant(end_wall) {
            a.stop(Fault::TimeOutOfRange)
        } else {
            (a, EffectView::FillTimes { start: popup_time_text(start_wall), end: popup_time_text(end_wall) })
        }
    }

/// Make `field` the popup's active field and restyle the fields.
    pub open spec fn spec_switch_active_field(self, field: ActiveField) -> Step {
        (App { popup: EventPopup { active_field: field }, ..self }, EffectView::Restyle)
    }
}

/// The offsets of the local zone that a step read: at the current moment
/// (`now`), and at the start and the end of the insert cursor.
pub struct ClockReading {
    pub now: LocalTime,
    pub start_offset: i32,
    pub end_offset: i32,
}

impl ClockReading {
    /// The readings are ones the clock and the zone can give.
    pub open spec fn wf(self) -> bool {
        self.now.wf() && valid_offset(self.start_offset as int) && valid_offset(self.end_offset as int)
    }
}

impl App {
    /// Keep the insert cursor in view, the local zone being `start_offset`
    /// seconds ahead of UTC at the cursor's start and `end_offset` at its end
    /// (see `spec_sync_viewport_to_cursor`).
    pub fn sync_viewport_with(&mut self, start_offset: i32, end_offset: i32) -> (r: Effect)
        requires
            old(self).wf(),
            valid_offset(start_offset as int),
            valid_offset(end_offset as int),
        ensures
            final(self).wf(),
            (*final(self), r@) == old(self).spec_sync_viewport_to_cursor(start_offset as int, end_offset as int),
    {
        let ghost o1 = start_offset as int;
        let ghost o2 = end_offset as int;
        let start = self.insert_event.start_time;
        let end = match add_minutes(start, self.insert_event.duration) {
            Some(e) => e,
            None => {
                proof {
                    assert((*self, Effect::Abort(Fault::TimeOutOfRange)@)
                        == old(self).spec_sync_viewport_to_cursor(o1, o2));
                }
                return Effect::Abort(Fault::TimeOutOfRange);
            },
        };
        let start_wall = start + start_offset as i128 * NANOS_PER_SECOND;
        let end_wall = end + end_offset as i128 * NANOS_PER_SECOND;
        let start_date = date_of_wall(start_wall);
        let end_date = date_of_wall(end_wall);
        if start_date < MIN_DATE || start_date > MAX_DATE || end_date < MIN_DATE || end_date > MAX_DATE {
            proof {
                assert((*self, Effect::Abort(Fault::DateOutOfRange)@)
                    == old(self).spec_sync_viewport_to_cursor(o1, o2));
            }
            return Effect::Abort(Fault::DateOutOfRange);
        }
        let e = self.sync_horizontal(start_date, end_date);
        if let Effect::Abort(_) = e {
            proof {
                assert((*self, e@) == old(self).spec_sync_viewport_to_cursor(o1, o2));
            }
            return e;
        }
        let cursor_mins = minute_of_day_of_wall(start_wall);
        let r = self.sync_vertical(cursor_mins, e);
        proof {
            assert((*self, r@) == old(self).spec_sync_viewport_to_cursor(o1, o2));
        }
        r
    }

    /// Keep the insert cursor in view, reading the local zone's offsets at its
    /// start and end.
    fn sync_viewport_to_cursor(&mut self) -> (r: Effect)
        requires
            old(self).wf(),
        ensures
            final(self).wf(),
            exists|o1: int, o2: int|
                valid_offset(o1) && valid_offset(o2) && (*final(self), r@)
                    == #[trigger] old(self).spec_sync_viewport_to_cursor(o1, o2),
    {
        let start = self.insert_event.start_time;
        let start_offset = local_time_at(start).offset;
        let end_offset = match add_minutes(start, self.insert_event.duration) {
            Some(end) => local_time_at(end).offset,
            None => 0,
        };
        self.sync_viewport_with(start_offset, end_offset)
    }

    fn sync_horizontal(&mut self, start_date: i32, end_date: i32) -> (r: Effect)
        ensures
            (*final(self), r@) == old(self).spec_sync_horizontal(start_date as int, end_date as int),
    {
        if start_date < self.start_date {
            self.start_date = start_date;
            return self.check_pagination();
        }
        match add_days(self.start_date, self.num_days) {
            None => Effect::Abort(Fault::DateOutOfRange),
            Some(view_end) => {
                if end_date >= view_end {
                    match sub_days(end_date, self.num_days) {
                        None => Effect::Abort(Fault::DateOutOfRange),
                        Some(d) => match add_days(d, 1) {
                            None => Effect::Abort(Fault::DateOutOfRange),
                            Some(d) => {
                                self.start_date = d;
                                self.check_pagination()
                            },
                        },
                    }
                } else {
                    Effect::Nothing
                }
            },
        }
    }

    fn sync_vertical(&mut self, cursor_mins: u16, e: Effect) -> (r: Effect)
        requires
            !(e@ is Abort),
        ensures
            (*final(self), r@) == old(self).spec_sync_vertical(cursor_mins as int, e@),
    {
        let viewport_top = self.scroll_offset;
        if self.scroll_offset as u32 + self.viewport_mins as u32 > 65535 {
            return Effect::Abort(Fault::Overflow);
        }
        let viewport_bottom = self.scroll_offset + self.viewport_mins;
        let duration_mins = #[verifier::truncate] (self.insert_event.duration as u16);
        if cursor_mins < viewport_top {
            self.scroll_offset = cursor_mins;
        } else if cursor_mins as u32 + duration_mins as u32 > 65535 {
            return Effect::Abort(Fault::Overflow);
        } else if cursor_mins + duration_mins >= viewport_bottom {
            let overflow = (cursor_mins + duration_mins) - viewport_bottom;
            let max_offset = if MINUTES_IN_DAY >= self.viewport_mins {
                MINUTES_IN_DAY - self.viewport_mins
            } else {
                0
            };
            let next = self.scroll_offset as u32 + overflow as u32;
            self.scroll_offset = if next <= max_offset as u32 { next as u16 } else { max_offset };
        }
        e
    }
}


impl App {
    fn move_insert(&mut self, minutes: i64) -> (r: Effect)
        requires
            old(self).wf(),
            valid_delta_minutes(minutes as int),
        ensures
            final(self).wf(),
            exists|c: ClockReading| #[trigger] c.wf() && (*final(self), r@) == old(self).spec_move_insert(minutes as int, c),
    {
        let ghost c0 = ClockReading { now: self.now, start_offset: 0, end_offset: 0 };
        match add_minutes(self.insert_event.start_time, minutes) {
            None => {
                proof {
                    assert((*self, Effect::Abort(Fault::TimeOutOfRange)@) == old(self).spec_move_insert(minutes as int, c0));
                    assert(c0.wf());
                }
                Effect::Abort(Fault::TimeOutOfRange)
            },
            Some(t) => {
                self.insert_event.start_time = t;
                let ghost mid = *self;
                let r = self.sync_viewport_to_cursor();
                proof {
                    let (o1, o2) = choose|o1: int, o2: int|
                        valid_offset(o1) && valid_offset(o2) && (*self, r@)
                            == #[trigger] mid.spec_sync_viewport_to_cursor(o1, o2);
                    let c = ClockReading { now: mid.now, start_offset: o1 as i32, end_offset: o2 as i32 };
                    assert(c.wf());
                    assert((*self, r@) == old(self).spec_move_insert(minutes as int, c));
                }
                r
            },
        }
    }

    fn set_duration_and_sync(&mut self, minutes: i64) -> (r: Effect)
        requires
            old(self).wf(),
            valid_delta_minutes(minutes as int),
        ensures
            final(self).wf(),
            exists|c: ClockReading| #[trigger] c.wf() && (*final(self), r@)
                == old(self).with_duration(minutes as int).spec_sync_viewport_to_cursor(
                    c.start_offset as int,
                    c.end_offset as int,
                ),
    {
        self.insert_event.duration = minutes;
        let ghost mid = *self;
        let r = self.sync_viewport_to_cursor();
        proof {
            let (o1, o2) = choose|o1: int, o2: int|
                valid_offset(o1) && valid_offset(o2) && (*self, r@)
                    == #[trigger] mid.spec_sync_viewport_to_cursor(o1, o2);
            let c = ClockReading { now: mid.now, start_offset: o1 as i32, end_offset: o2 as i32 };
            assert(c.wf());
            assert(mid == old(self).with_duration(minutes as int));
        }
        r
    }

    fn extend_insert_up(&mut self) -> (r: Effect)
        requires
            old(self).wf(),
        ensures
            final(self).wf(),
            exists|c: ClockReading| #[trigger] c.wf() && (*final(self), r@) == old(self).spec_extend_insert_up(c),
    {
        let d = self.insert_event.duration;
        let next = if d > RESOLUTION_IN_MINS as i64 { d - RESOLUTION_IN_MINS as i64 } else { d };
        proof {
            if d <= RESOLUTION_IN_MINS {
                assert(old(self).with_duration(d as int) == *old(self));
            }
        }
        self.set_duration_and_sync(next)
    }

    fn extend_insert_down(&mut self) -> (r: Effect)
        requires
            old(self).wf(),
        ensures
            final(self).wf(),
            exists|c: ClockReading| #[trigger] c.wf() && (*final(self), r@) == old(self).spec_extend_insert_down(c),
    {
        let d = self.insert_event.duration;
        if d > MAX_DELTA_MINUTES - RESOLUTION_IN_MINS as i64 {
            let ghost c0 = ClockReading { now: self.now, start_offset: 0, end_offset: 0 };
            proof {
                assert((*self, Effect::Abort(Fault::DurationOutOfRange)@) == old(self).spec_extend_insert_down(c0));
                assert(c0.wf());
            }
            return Effect::Abort(Fault::DurationOutOfRange);
        }
        self.set_duration_and_sync(d + RESOLUTION_IN_MINS as i64)
    }

    fn extend_insert_left(&mut self) -> (r: Effect)
        requires
            old(self).wf(),
        ensures
            final(self).wf(),
            exists|c: ClockReading| #[trigger] c.wf() && (*final(self), r@) == old(self).spec_extend_insert_left(c),
    {
        let d = self.insert_event.duration;
        if d < -MAX_DELTA_MINUTES + MINUTES_IN_DAY as i64 {
            let ghost c0 = ClockReading { now: self.now, start_offset: 0, end_offset: 0 };
            proof {
                assert((*self, Effect::Abort(Fault::DurationOutOfRange)@) == old(self).spec_extend_insert_left(c0));
                assert(c0.wf());
            }
            return Effect::Abort(Fault::DurationOutOfRange);
        }
        let shorter = d - MINUTES_IN_DAY as i64;
        if shorter >= RESOLUTION_IN_MINS as i64 {
            self.set_duration_and_sync(shorter)
        } else {
            self.set_duration_and_sync(RESOLUTION_IN_MINS as i64)
        }
    }

    fn extend_insert_right(&mut self) -> (r: Effect)
        requires
            old(self).wf(),
        ensures
            (*final(self), r@) == old(self).spec_extend_insert_right(),
    {
        let d = self.insert_event.duration;
        if d > MAX_DELTA_MINUTES - MINUTES_IN_DAY as i64 {
            return Effect::Abort(Fault::DurationOutOfRange);
        }
        self.insert_event.duration = d + MINUTES_IN_DAY as i64;
        Effect::Nothing
    }

    /// Open the popup for the event's details, the local zone being
    /// `start_offset` seconds ahead of UTC at the cursor's start and
    /// `end_offset` at its end (see `spec_enter_insert_event_details`).
    pub fn enter_details_with(&mut self, start_offset: i32, end_offset: i32) -> (r: Effect)
        requires
            old(self).wf(),
            valid_offset(start_offset as int),
            valid_offset(end_offset as int),
        ensures
            final(self).wf(),
            (*final(self), r@) == old(self).spec_enter_insert_event_details(
                ClockReading { now: old(self).now, start_offset, end_offset },
            ),
            match r {
                Effect::FillTimes { start, end } => (whole_minute(old(self).insert_event.start_time + start_offset * NANOS_PER_SECOND)
                    && whole_minute(old(self).cursor_end() + end_offset * NANOS_PER_SECOND)) ==> forall|summary: Seq<char>, description: Seq<char>|
                    #[trigger] final(self).spec_submit_popup(
                        summary,
                        description,
                        start@,
                        end@,
                        LocalOffsets::Single(start_offset),
                        LocalOffsets::Single(end_offset),
                    ) == final(self).spec_submit_event(
                        summary,
                        description,
                        old(self).insert_event.start_time as int,
                        old(self).cursor_end(),
                    ),
                _ => true,
            },
    {
        self.mode = AppMode::InsertTyping;
        let start = self.insert_event.start_time;
        let end = match add_minutes(start, self.insert_event.duration) {
            Some(e) => e,
            None => return Effect::Abort(Fault::TimeOutOfRange),
        };
        let start_wall = start + start_offset as i128 * NANOS_PER_SECOND;
        let end_wall = end + end_offset as i128 * NANOS_PER_SECOND;
        if start_wall < MIN_INSTANT || start_wall > MAX_INSTANT || end_wall < MIN_INSTANT || end_wall > MAX_INSTANT {
            return Effect::Abort(Fault::TimeOutOfRange);
        }
        let start_str = format_reading(start_wall);
        let end_str = format_reading(end_wall);
        Effect::FillTimes { start: start_str, end: end_str }
    }

    /// Open the popup for the event's details, reading the local zone's
    /// offsets at the cursor's start and end.
    fn enter_insert_event_details(&mut self) -> (r: Effect)
        requires
            old(self).wf(),
        ensures
            final(self).wf(),
            exists|c: ClockReading| #[trigger] c.wf() && (*final(self), r@) == old(self).spec_enter_insert_event_details(c),
    {
        let start = self.insert_event.start_time;
        let start_offset = local_time_at(start).offset;
        let end_offset = match add_minutes(start, self.insert_event.duration) {
            Some(end) => local_time_at(end).offset,
            None => 0,
        };
        let ghost c = ClockReading { now: self.now, start_offset, end_offset };
        let r = self.enter_details_with(start_offset, end_offset);
        proof {
            assert(c.wf());
        }
        r
    }

    fn switch_active_field(&mut self, field: ActiveField) -> (r: Effect)
        ensures
            (*final(self), r@) == old(self).spec_switch_active_field(field),
    {
        self.popup.active_field = field;
        Effect::Restyle
    }
}


/// The key is Control-c or Control-C.
pub open spec fn is_ctrl_c(key: KeyInput) -> bool {
    key.ctrl && (key.code == KeyCode::Char('c') || key.code == KeyCode::Char('C'))
}

impl App {
    /// Keys in normal mode (and while fetching): `q` or Control-c quits;
    /// `k`/Up and `j`/Down scroll a row, `K` and `J` an hour; `h`/Left and
    /// `l`/Right move a day; `t` jumps to the current time; `T` toggles the
    /// current-time line; `i` starts inserting an event.
    pub open spec fn spec_normal_key(self, key: KeyInput, c: ClockReading) -> Step {
        match key.code {
            KeyCode::Char(ch) => {
                if ch == 'q' || is_ctrl_c(key) {
                    (self, EffectView::Quit)
                } else if ch == 'k' {
                    (self.spec_scroll_up(), EffectView::Nothing)
                } else if ch == 'j' {
                    self.spec_scroll_down()
                } else if ch == 'K' {
                    (self.spec_big_scroll_up(), EffectView::Nothing)
                } else if ch == 'J' {
                    self.spec_big_scroll_down()
                } else if ch == 'h' {
                    self.spec_scroll_days(-1)
                } else if ch == 'l' {
                    self.spec_scroll_days(1)
                } else if ch == 't' {
                    self.spec_jump_to_current_time(c.now)
                } else if ch == 'T' {
                    (self.spec_toggle_timeline(), EffectView::Nothing)
                } else if ch == 'i' {
                    (App { mode: AppMode::Insert, ..self }, EffectView::Nothing)
                } else {
                    (self, EffectView::Nothing)
                }
            },
            KeyCode::Up => (self.spec_scroll_up(), EffectView::Nothing),
            KeyCode::Down => self.spec_scroll_down(),
            KeyCode::Left => self.spec_scroll_days(-1),
            KeyCode::Right => self.spec_scroll_days(1),
            _ => (self, EffectView::Nothing),
        }
    }

    /// Keys in insert mode: Esc goes back to normal mode; `q` or Control-c
    /// quits; `k`/Up and `j`/Down move the cursor a row, `h`/Left and
    /// `l`/Right a day; `K` and `J` shorten and lengthen it by a row, `H` and
    /// `L` by a day; Enter opens the popup; `t` moves the cursor to the current
    /// time; `T` toggles the current-time line.
    pub open spec fn spec_insert_key(self, key: KeyInput, c: ClockReading) -> Step {
        let row = RESOLUTION_IN_MINS as int;
        let day = MINUTES_IN_DAY as int;
        match key.code {
            KeyCode::Esc => (App { mode: AppMode::Normal, ..self }, EffectView::Nothing),
            KeyCode::Char(ch) => {
                if ch == 'q' || is_ctrl_c(key) {
                    (self, EffectView::Quit)
                } else if ch == 'k' {
                    self.spec_move_insert(-row, c)
                } else if ch == 'j' {
                    self.spec_move_insert(row, c)
                } else if ch == 'h' {
                    self.spec_move_insert(-day, c)
                } else if ch == 'l' {
                    self.spec_move_insert(day, c)
                } else if ch == 'K' {
                    self.spec_extend_insert_up(c)
                } else if ch == 'J' {
                    self.spec_extend_insert_down(c)
                } else if ch == 'H' {
                    self.spec_extend_insert_left(c)
                } else if ch == 'L' {
                    self.spec_extend_insert_right()
                } else if ch == 't' {
                    self.spec_move_insert_current_time(c.now)
                } else if ch == 'T' {
                    (self.spec_toggle_timeline(), EffectView::Nothing)
                } else {
                    (self, EffectView::Nothing)
                }
            },
            KeyCode::Up => self.spec_move_insert(-row, c),
            KeyCode::Down => self.spec_move_insert(row, c),
            KeyCode::Left => self.spec_move_insert(-day, c),
            KeyCode::Right => self.spec_move_insert(day, c),
            KeyCode::Enter => self.spec_enter_insert_event_details(c),
            _ => (self, EffectView::Nothing),
        }
    }

    /// Keys while typing into the popup: Esc goes back to insert mode; Tab and
    /// BackTab move to the next and previous field; Enter submits, except in
    /// the description, which takes it as a new line; every other key goes to
    /// the active field.
    pub open spec fn spec_typing_key(self, key: KeyInput) -> Step {
        match key.code {
            KeyCode::Esc => (App { mode: AppMode::Insert, ..self }, EffectView::Nothing),
            KeyCode::Tab => self.spec_switch_active_field(next_field(self.popup.active_field)),
            KeyCode::BackTab => self.spec_switch_active_field(prev_field(self.popup.active_field)),
            KeyCode::Enter => {
                if self.popup.active_field == ActiveField::Description {
                    (self, EffectView::ForwardKey(ActiveField::Description))
                } else {
                    (self, EffectView::Submit)
                }
            },
            _ => (self, EffectView::ForwardKey(self.popup.active_field)),
        }
    }

    /// What a key press does, by mode.
    pub open spec fn spec_key(self, key: KeyInput, c: ClockReading) -> Step {
        match self.mode {
            AppMode::Normal => self.spec_normal_key(key, c),
            AppMode::Fetching => self.spec_normal_key(key, c),
            AppMode::Insert => self.spec_insert_key(key, c),
            AppMode::InsertTyping => self.spec_typing_key(key),
        }
    }

    /// Handles the key events and updates the state of [`App`]. The clock
    /// and the local zone are read where a key needs them; whatever they
    /// gave, the step is the one `spec_key` describes for those readings.
    pub fn handle_key_events(&mut self, key_event: KeyInput) -> (r: Effect)
        requires
            old(self).wf(),
        ensures
            final(self).wf(),
            exists|c: ClockReading| #[trigger] c.wf() && (*final(self), r@) == old(self).spec_key(key_event, c),
    {
        match self.mode {
            AppMode::Normal => self.handle_normal_key_events(key_event),
            AppMode::Fetching => self.handle_normal_key_events(key_event),
            AppMode::Insert => self.handle_insert_key_events(key_event),
            AppMode::InsertTyping => {
                let r = self.handle_inserttyping_key_events(key_event);
                proof {
                    let c = ClockReading { now: old(self).now, start_offset: 0, end_offset: 0 };
                    assert(c.wf());
                }
                r
            },
        }
    }

    /// Handle normal key events.
    pub fn handle_normal_key_events(&mut self, key_event: KeyInput) -> (r: Effect)
        requires
            old(self).wf(),
        ensures
            final(self).wf(),
            exists|c: ClockReading| #[trigger] c.wf() && (*final(self), r@) == old(self).spec_normal_key(key_event, c),
    {
        let ghost c0 = ClockReading { now: self.now, start_offset: 0, end_offset: 0 };
        let r = match key_event.code {
            KeyCode::Char(ch) => {
                if ch == 'q' || (key_event.ctrl && (ch == 'c' || ch == 'C')) {
                    Effect::Quit
                } else if ch == 'k' {
                    self.scroll_up();
                    Effect::Nothing
                } else if ch == 'j' {
                    self.scroll_down()
                } else if ch == 'K' {
                    self.big_scroll_up();
                    Effect::Nothing
                } else if ch == 'J' {
                    self.big_scroll_down()
                } else if ch == 'h' {
                    self.scroll_days(-1)
                } else if ch == 'l' {
                    self.scroll_days(1)
                } else if ch == 't' {
                    let r = self.jump_to_current_time();
                    proof {
                        let t = choose|t: LocalTime| t.wf() && (*self, r@) == #[trigger] old(self).spec_jump_to_current_time(t);
                        let c = ClockReading { now: t, start_offset: 0, end_offset: 0 };
                        assert(c.wf());
                        assert((*self, r@) == old(self).spec_normal_key(key_event, c));
                    }
                    return r;
                } else if ch == 'T' {
                    self.is_now_timeline_visible = !self.is_now_timeline_visible;
                    Effect::Nothing
                } else if ch == 'i' {
                    self.mode = AppMode::Insert;
                    Effect::Nothing
                } else {
                    Effect::Nothing
                }
            },
            KeyCode::Up => {
                self.scroll_up();
                Effect::Nothing
            },
            KeyCode::Down => self.scroll_down(),
            KeyCode::Left => self.scroll_days(-1),
            KeyCode::Right => self.scroll_days(1),
            _ => Effect::Nothing,
        };
        proof {
            assert(c0.wf());
            assert((*self, r@) == old(self).spec_normal_key(key_event, c0));
        }
        r
    }

    /// Handle insert key events.
    pub fn handle_insert_key_events(&mut self, key_event: KeyInput) -> (r: Effect)
        requires
            old(self).wf(),
        ensures
            final(self).wf(),
            exists|c: ClockReading| #[trigger] c.wf() && (*final(self), r@) == old(self).spec_insert_key(key_event, c),
    {
        let ghost c0 = ClockReading { now: self.now, start_offset: 0, end_offset: 0 };
        let row = RESOLUTION_IN_MINS as i64;
        let day = MINUTES_IN_DAY as i64;
        match key_event.code {
            KeyCode::Esc => {
                self.mode = AppMode::Normal;
                proof {
                    assert(c0.wf());
                    assert((*self, Effect::Nothing@) == old(self).spec_insert_key(key_event, c0));
                }
                Effect::Nothing
            },
            KeyCode::Char(ch) => {
                if ch == 'q' || (key_event.ctrl && (ch == 'c' || ch == 'C')) {
                    proof {
                        assert(c0.wf());
                        assert((*self, Effect::Quit@) == old(self).spec_insert_key(key_event, c0));
                    }
                    Effect::Quit
                } else if ch == 'k' {
                    self.move_insert(-row)
                } else if ch == 'j' {
                    self.move_insert(row)
                } else if ch == 'h' {
                    self.move_insert(-day)
                } else if ch == 'l' {
                    self.move_insert(day)
                } else if ch == 'K' {
                    self.extend_insert_up()
                } else if ch == 'J' {
                    self.extend_insert_down()
                } else if ch == 'H' {
                    self.extend_insert_left()
                } else if ch == 'L' {
                    let r = self.extend_insert_right();
                    proof {
                        assert(c0.wf());
                        assert((*self, r@) == old(self).spec_insert_key(key_event, c0));
                    }
                    r
                } else if ch == 't' {
                    let r = self.move_insert_current_time();
                    proof {
                        let t = choose|t: LocalTime| t.wf() && (*self, r@) == #[trigger] old(self).spec_move_insert_current_time(t);
                        let c = ClockReading { now: t, start_offset: 0, end_offset: 0 };
                        assert(c.wf());
                        assert((*self, r@) == old(self).spec_insert_key(key_event, c));
                    }
                    r
                } else if ch == 'T' {
                    self.is_now_timeline_visible = !self.is_now_timeline_visible;
                    proof {
                        assert(c0.wf());
                        assert((*self, Effect::Nothing@) == old(self).spec_insert_key(key_event, c0));
                    }
                    Effect::Nothing
                } else {
                    proof {
                        assert(c0.wf());
                        assert((*self, Effect::Nothing@) == old(self).spec_insert_key(key_event, c0));
                    }
                    Effect::Nothing
                }
            },
            KeyCode::Up => self.move_insert(-row),
            KeyCode::Down => self.move_insert(row),
            KeyCode::Left => self.move_insert(-day),
            KeyCode::Right => self.move_insert(day),
            KeyCode::Enter => self.enter_insert_event_details(),
            _ => {
                proof {
                    assert(c0.wf());
                    assert((*self, Effect::Nothing@) == old(self).spec_insert_key(key_event, c0));
                }
                Effect::Nothing
            },
        }
    }

    /// Handle key events while typing into the popup.
    pub fn handle_inserttyping_key_events(&mut self, key_event: KeyInput) -> (r: Effect)
        ensures
            (*final(self), r@) == old(self).spec_typing_key(key_event),
    {
        match key_event.code {
            KeyCode::Esc => {
                self.mode = AppMode::Insert;
                Effect::Nothing
            },
            KeyCode::Tab => {
                let active_field = match self.popup.active_field {
                    ActiveField::Summary => ActiveField::Description,
                    ActiveField::Description => ActiveField::StartTime,
                    ActiveField::StartTime => ActiveField::EndTime,
                    ActiveField::EndTime => ActiveField::Summary,
                };
                self.switch_active_field(active_field)
            },
            KeyCode::BackTab => {
                let active_field = match self.popup.active_field {
                    ActiveField::Summary => ActiveField::EndTime,
                    ActiveField::Description => ActiveField::Summary,
                    ActiveField::StartTime => ActiveField::Description,
                    ActiveField::EndTime => ActiveField::StartTime,
                };
                self.switch_active_field(active_field)
            },
            KeyCode::Enter => {
                if self.popup.active_field == ActiveField::Description {
                    Effect::ForwardKey(ActiveField::Description)
                } else {
                    Effect::Submit
                }
            },
            _ => Effect::ForwardKey(self.popup.active_field),
        }
    }
}


/// The larger of two integers.
pub open spec fn max(a: int, b: int) -> int {
    if a >= b { a } else { b }
}

impl EventsFetched {
    /// The days and the events' moments are representable.
    pub open spec fn wf(&self) -> bool {
        &&& valid_date(self.start_date as int)
        &&& valid_date(self.end_date as int)
        &&& forall|i: int| 0 <= i < self.event_nodes@.len() ==> (#[trigger] self.event_nodes@[i]).wf()
    }
}

impl AppEvent {
    /// The days and moments it carries are representable.
    pub open spec fn wf(&self) -> bool {
        match self {
            AppEvent::FetchSuccess(f) => f.wf(),
            AppEvent::ReloadSuccess(f) => f.wf(),
            AppEvent::EventCreated(n) => n.wf(),
            _ => true,
        }
    }
}

impl App {
    /// `after` is `self` with `nodes` added to the loaded events, which stay
    /// sorted by start (stably), and with the loaded days widened to cover
    /// `start_date` to `end_date`; the interface is back in normal mode.
    pub open spec fn spec_add_events(self, after: App, nodes: Seq<EventNode>, start_date: int, end_date: int) -> bool {
        &&& stable_sorted(after.cal_event_nodes@, self.cal_event_nodes@ + nodes, start_key())
        &&& after == App {
            cal_event_nodes: after.cal_event_nodes,
            loaded_start: min(self.loaded_start as int, start_date) as i32,
            loaded_end: max(self.loaded_end as int, end_date) as i32,
            mode: AppMode::Normal,
            ..self
        }
    }

    /// `after` is `self` with the loaded events replaced by `nodes`, sorted by
    /// start (stably), and the loaded days `start_date` to `end_date`; the
    /// interface is back in normal mode.
    pub open spec fn spec_update_events(self, after: App, nodes: Seq<EventNode>, start_date: int, end_date: int) -> bool {
        &&& stable_sorted(after.cal_event_nodes@, nodes, start_key())
        &&& after == App {
            cal_event_nodes: after.cal_event_nodes,
            loaded_start: start_date as i32,
            loaded_end: end_date as i32,
            mode: AppMode::Normal,
            ..self
        }
    }

    /// A created event is added when its days lie within the loaded days;
    /// otherwise nothing changes.
    pub open spec fn spec_add_event(self, after: App, node: EventNode) -> bool {
        let start_date = date_of(node.start_time as int);
        let end_date = date_of(node.end_time as int);
        if self.loaded_start <= start_date && self.loaded_end >= end_date {
            self.spec_add_events(after, seq![node], start_date, end_date)
        } else {
            after == self
        }
    }

    /// What a message from background work does.
    pub open spec fn spec_app_event(self, after: App, event: AppEvent) -> bool {
        match event {
            AppEvent::Quit => after == self.spec_quit(),
            AppEvent::FetchSuccess(f) => self.spec_add_events(
                after,
                f.event_nodes@,
                f.start_date as int,
                f.end_date as int,
            ),
            AppEvent::FetchFailed(_) => after == App { mode: AppMode::Normal, ..self },
            AppEvent::EventCreated(n) => self.spec_add_event(after, n),
            AppEvent::ReloadSuccess(f) => self.spec_update_events(
                after,
                f.event_nodes@,
                f.start_date as int,
                f.end_date as int,
            ),
        }
    }

    /// Fit the view to a terminal `term_height` rows high: the rows below the
    /// header, a quarter of an hour each, and keep the scroll offset within
    /// the day.
    pub open spec fn spec_update_viewport_from_height(self, term_height: int) -> Step {
        let usable_rows = sat_sub(term_height, 4);
        let viewport = usable_rows * RESOLUTION_IN_MINS;
        if viewport > u16::MAX {
            self.stop(Fault::Overflow)
        } else {
            (
                App {
                    viewport_mins: viewport as u16,
                    scroll_offset: min(self.scroll_offset as int, max_offset(viewport)) as u16,
                    ..self
                },
                EffectView::Nothing,
            )
        }
    }

/// Ask for the event to be created, unless a request is under way.
    pub open spec fn spec_create_event(self, node: EventNodeView) -> Step {
        if self.mode == AppMode::Fetching {
            (self, EffectView::Nothing)
        } else {
            (App { mode: AppMode::Fetching, ..self }, EffectView::Create(node))
        }
    }

    fn add_events(&mut self, events_fetched: EventsFetched)
        requires
            old(self).wf(),
            events_fetched.wf(),
        ensures
            final(self).wf(),
            old(self).spec_add_events(
                *final(self),
                events_fetched.event_nodes@,
                events_fetched.start_date as int,
                events_fetched.end_date as int,
            ),
    {
        let EventsFetched { event_nodes, start_date, end_date } = events_fetched;
        let mut event_nodes = event_nodes;
        let mut all: Vec<EventNode> = Vec::new();
        std::mem::swap(&mut all, &mut self.cal_event_nodes);
        let ghost joined_nodes = all@ + event_nodes@;
        all.append(&mut event_nodes);
        let sorted = sort_by_start(all);
        proof {
            assert forall|i: int| 0 <= i < sorted@.len() implies (#[trigger] sorted@[i]).wf() by {
                lemma_stable_sorted_contains(sorted@, joined_nodes, start_key(), i);
                let k = choose|k: int| 0 <= k < joined_nodes.len() && joined_nodes[k] == sorted@[i];
                if k < old(self).cal_event_nodes@.len() {
                    assert(old(self).cal_event_nodes@[k].wf());
                } else {
                    assert(events_fetched.event_nodes@[k - old(self).cal_event_nodes@.len()].wf());
                }
            }
        }
        self.cal_event_nodes = sorted;
        if start_date < self.loaded_start {
            self.loaded_start = start_date;
        }
        if end_date > self.loaded_end {
            self.loaded_end = end_date;
        }
        self.mode = AppMode::Normal;
    }

    fn add_event(&mut self, event_node: EventNode)
        requires
            old(self).wf(),
            event_node.wf(),
        ensures
            final(self).wf(),
            old(self).spec_add_event(*final(self), event_node),
    {
        let start_date = date_of_wall(event_node.start_time);
        let end_date = date_of_wall(event_node.end_time);
        proof {
            crate::time::lemma_date_bounds(event_node.start_time as int);
            crate::time::lemma_date_bounds(event_node.end_time as int);
        }
        if self.loaded_start <= start_date && self.loaded_end >= end_date {
            let events_fetched = EventsFetched { event_nodes: vec![event_node], start_date, end_date };
            proof {
                assert(events_fetched.event_nodes@ =~= seq![event_node]);
            }
            self.add_events(events_fetched);
        }
    }

    fn update_events(&mut self, events_fetched: EventsFetched)
        requires
            old(self).wf(),
            events_fetched.wf(),
        ensures
            final(self).wf(),
            old(self).spec_update_events(
                *final(self),
                events_fetched.event_nodes@,
                events_fetched.start_date as int,
                events_fetched.end_date as int,
            ),
    {
        let EventsFetched { event_nodes, start_date, end_date } = events_fetched;
        let ghost nodes = event_nodes@;
        let sorted = sort_by_start(event_nodes);
        proof {
            assert forall|i: int| 0 <= i < sorted@.len() implies (#[trigger] sorted@[i]).wf() by {
                lemma_stable_sorted_contains(sorted@, nodes, start_key(), i);
            }
        }
        self.cal_event_nodes = sorted;
        self.loaded_start = start_date;
        self.loaded_end = end_date;
        self.mode = AppMode::Normal;
    }

    /// Handles a message from background work.
    pub fn handle_app_event(&mut self, event: AppEvent)
        requires
            old(self).wf(),
            event.wf(),
        ensures
            final(self).wf(),
            old(self).spec_app_event(*final(self), event),
    {
        match event {
            AppEvent::Quit => self.quit(),
            AppEvent::FetchSuccess(events_fetched) => self.add_events(events_fetched),
            AppEvent::FetchFailed(_) => self.mode = AppMode::Normal,
            AppEvent::EventCreated(event_node) => self.add_event(event_node),
            AppEvent::ReloadSuccess(events_fetched) => self.update_events(events_fetched),
        }
    }

    /// Resize the viewport to a terminal `term_height` rows high.
    pub fn update_viewport_from_height(&mut self, term_height: u16) -> (r: Effect)
        ensures
            (*final(self), r@) == old(self).spec_update_viewport_from_height(term_height as int),
    {
        let vertical_overhead: u16 = 4;
        let usable_rows = if term_height >= vertical_overhead { term_height - vertical_overhead } else { 0 };
        if usable_rows as u32 * RESOLUTION_IN_MINS as u32 > 65535 {
            return Effect::Abort(Fault::Overflow);
        }
        self.viewport_mins = usable_rows * RESOLUTION_IN_MINS;
        let max_offset = if MINUTES_IN_DAY >= self.viewport_mins {
            MINUTES_IN_DAY - self.viewport_mins
        } else {
            0
        };
        if self.scroll_offset > max_offset {
            self.scroll_offset = max_offset;
        }
        Effect::Nothing
    }

    /// Trigger background request for creating an event, unless a request is under way.
    pub fn create_event(&mut self, event_node: EventNode) -> (r: Effect)
        ensures
            (*final(self), r@) == old(self).spec_create_event(event_node@),
    {
        if self.mode == AppMode::Fetching {
            return Effect::Nothing;
        }
        self.mode = AppMode::Fetching;
        Effect::Create(event_node)
    }
}

/// The event the popup's texts describe, with its start and end moments:
/// the summary's lines joined by line breaks; the description likewise, and
/// absent when it is blank.
pub open spec fn popup_event(summary: Seq<char>, description: Seq<char>, start: int, end: int) -> EventNodeView {
    EventNodeView {
        id: Seq::empty(),
        summary,
        description: if trimmed(description).len() == 0 { None } else { Some(description) },
        start_time: start,
        end_time: end,
    }
}

impl App {
    /// Create the event from `start` to `end` with the popup's summary and
    /// description texts; nothing happens when the summary is blank.
    pub open spec fn spec_submit_event(self, summary: Seq<char>, description: Seq<char>, start: int, end: int) -> Step {
        if trimmed(summary).len() == 0 {
            (self, EffectView::Nothing)
        } else {
            self.spec_create_event(popup_event(summary, description, start, end))
        }
    }

    /// Submit the popup's texts, the zone's answers for the start and end
    /// readings being `z1` and `z2`: nothing happens when a time does not
    /// parse; the interface stops when the zone names no single moment for
    /// one; otherwise the event is submitted between the two moments.
    pub open spec fn spec_submit_popup(
        self,
        summary: Seq<char>,
        description: Seq<char>,
        start_text: Seq<char>,
        end_text: Seq<char>,
        z1: LocalOffsets,
        z2: LocalOffsets,
    ) -> Step {
        let start_wall = parsed_wall(trimmed(start_text));
        let end_wall = parsed_wall(trimmed(end_text));
        if start_wall is None || end_wall is None {
            (self, EffectView::Nothing)
        } else {
            match (wall_to_utc(start_wall->0, z1), wall_to_utc(end_wall->0, z2)) {
                (Some(start), Some(end)) => self.spec_submit_event(summary, description, start, end),
                _ => self.stop(Fault::NoSuchLocalTime),
            }
        }
    }

    /// Submit the popup, given the lines of its summary, description, start
    /// and end fields: the step `spec_submit_popup` describes, for the answers
    /// the machine's zone gives. Summary and description lines are joined by
    /// line breaks, the time fields' lines without a separator.
    pub fn submit_popup(
        &mut self,
        summary_lines: &Vec<String>,
        description_lines: &Vec<String>,
        start_lines: &Vec<String>,
        end_lines: &Vec<String>,
    ) -> (r: Effect)
        ensures
            exists|z1: LocalOffsets, z2: LocalOffsets|
                zone_answer(z1) && zone_answer(z2) && (*final(self), r@) == #[trigger] old(self).spec_submit_popup(
                    joined(texts(summary_lines@), seq!['\n']),
                    joined(texts(description_lines@), seq!['\n']),
                    joined(texts(start_lines@), Seq::empty()),
                    joined(texts(end_lines@), Seq::empty()),
                    z1,
                    z2,
                ),
    {
        let ghost summary = joined(texts(summary_lines@), seq!['\n']);
        let ghost description = joined(texts(description_lines@), seq!['\n']);
        let ghost gap = LocalOffsets::Gap;
        let start_text = join_lines(start_lines, "");
        let end_text = join_lines(end_lines, "");
        proof {
            reveal_strlit("");
            assert(""@ =~= Seq::<char>::empty());
            assert(zone_answer(gap));
        }
        let start_res = parse_reading(trim_text(start_text.as_str()));
        let end_res = parse_reading(trim_text(end_text.as_str()));
        let (start_wall, end_wall) = match (start_res, end_res) {
            (Some(s), Some(e)) => (s, e),
            _ => {
                proof {
                    assert((*self, Effect::Nothing@) == old(self).spec_submit_popup(
                        summary, description, start_text@, end_text@, gap, gap));
                }
                return Effect::Nothing;
            },
        };
        let start_time = local_to_utc(start_wall);
        let ghost z1 = choose|z: LocalOffsets| zone_answer(z) && same_moment(start_time, #[trigger] wall_to_utc(start_wall as int, z));
        let start_time = match start_time {
            Some(t) => t,
            None => {
                proof {
                    assert((*self, Effect::Abort(Fault::NoSuchLocalTime)@) == old(self).spec_submit_popup(
                        summary, description, start_text@, end_text@, z1, gap));
                }
                return Effect::Abort(Fault::NoSuchLocalTime);
            },
        };
        let end_time = local_to_utc(end_wall);
        let ghost z2 = choose|z: LocalOffsets| zone_answer(z) && same_moment(end_time, #[trigger] wall_to_utc(end_wall as int, z));
        let end_time = match end_time {
            Some(t) => t,
            None => {
                proof {
                    assert((*self, Effect::Abort(Fault::NoSuchLocalTime)@) == old(self).spec_submit_popup(
                        summary, description, start_text@, end_text@, z1, z2));
                }
                return Effect::Abort(Fault::NoSuchLocalTime);
            },
        };
        let r = self.submit_event(summary_lines, description_lines, start_time, end_time);
        proof {
            assert((*self, r@) == old(self).spec_submit_popup(
                summary, description, start_text@, end_text@, z1, z2));
        }
        r
    }

    /// Create the event the popup describes, from `start_time` to `end_time`
    /// (in nanoseconds since the epoch), given the lines of its summary and
    /// description fields; nothing happens when the summary is blank.
    pub fn submit_event(
        &mut self,
        summary_lines: &Vec<String>,
        description_lines: &Vec<String>,
        start_time: i128,
        end_time: i128,
    ) -> (r: Effect)
        ensures
            (*final(self), r@) == old(self).spec_submit_event(
                joined(texts(summary_lines@), seq!['\n']),
                joined(texts(description_lines@), seq!['\n']),
                start_time as int,
                end_time as int,
            ),
    {
        let summary = join_lines(summary_lines, "\n");
        proof {
            reveal_strlit("\n");
            assert("\n"@ =~= seq!['\n']);
        }
        if trim_text(summary.as_str()).is_empty() {
            return Effect::Nothing;
        }
        let description = {
            let description = join_lines(description_lines, "\n");
            if trim_text(description.as_str()).is_empty() {
                None
            } else {
                Some(description)
            }
        };
        let event_node = EventNode { id: String::new(), summary, description, start_time, end_time };
        proof {
            assert(event_node@ == popup_event(
                joined(texts(summary_lines@), seq!['\n']),
                joined(texts(description_lines@), seq!['\n']),
                start_time as int,
                end_time as int,
            ));
        }
        self.create_event(event_node)
    }
}


/// The readings the start of the interface looks up in the local zone, one
/// after the other as chrono's `with_minute`, `with_second` and
/// `with_nanosecond` do: `wall` with its minute rounded down to a quarter
/// hour, then also with its second set to zero, then also its nanosecond.
pub open spec fn cursor_walls(wall: int) -> (int, int, int) {
    let rem = wall % (RESOLUTION_IN_MINS * NANOS_PER_MINUTE);
    let minutes_part = (rem / (NANOS_PER_MINUTE as int)) * NANOS_PER_MINUTE;
    let seconds_part = ((rem - minutes_part) / (NANOS_PER_SECOND as int)) * NANOS_PER_SECOND;
    (wall - minutes_part, wall - minutes_part - seconds_part, wall - rem)
}

/// The moment a reading names given the zone's answer `z`; none when the
/// reading itself is not representable.
pub open spec fn moment_of(wall: int, z: LocalOffsets) -> Option<int> {
    if valid_instant(wall) { wall_to_utc(wall, z) } else { None }
}

/// The days the start of the interface needs are representable: the current
/// local date, and the days from `BUFFER_DAYS` before the first day shown to
/// `BUFFER_DAYS` after the last.
pub open spec fn start_dates_ok(now: LocalTime) -> bool {
    let start_date = now.date() - START_OFFSET;
    &&& valid_date(now.date())
    &&& valid_date(start_date - BUFFER_DAYS)
    &&& valid_date(start_date + NUM_DAYS + BUFFER_DAYS)
}

/// `app` is the state the interface starts in at the local time `now`, the
/// cursor's start aside, and `e` the fetch it starts with: three days from
/// the day before `now`, the view at 7:00 spanning six hours, the insert
/// cursor half an hour long, and a refresh of the days from `BUFFER_DAYS`
/// before the first day shown to `BUFFER_DAYS` after the last.
pub open spec fn spec_initial_state(app: App, now: LocalTime, e: EffectView) -> bool {
    let start_date = now.date() - START_OFFSET;
    &&& app.running
    &&& app.mode == AppMode::Fetching
    &&& app.start_date == start_date
    &&& app.scroll_offset == SCROLL_OFFSET_MINS
    &&& app.viewport_mins == VIEWPORT_MINS
    &&& app.cal_event_nodes@.len() == 0
    &&& app.num_days == NUM_DAYS
    &&& app.now == now
    &&& app.is_now_timeline_visible
    &&& app.sel_event_id is None
    &&& app.loaded_start == start_date
    &&& app.loaded_end == start_date
    &&& app.insert_event.duration == 2 * RESOLUTION_IN_MINS
    &&& app.popup.active_field == ActiveField::Summary
    &&& e == EffectView::Fetch {
        start_date: (start_date - BUFFER_DAYS) as i32,
        end_date: (start_date + NUM_DAYS + BUFFER_DAYS) as i32,
        is_refresh: true,
    }
}

/// What starting the interface at the local time `now` gives, the zone's
/// answers for the three readings of `cursor_walls` being `z1`, `z2`, `z3`:
/// `DateOutOfRange` when a day it needs is not representable; otherwise
/// `NoSuchLocalTime` when the zone names no moment for one of the readings;
/// otherwise the initial state, with the insert cursor at the moment of the
/// last reading (`now` rounded down to a quarter hour).
pub open spec fn start_outcome(
    r: Result<(App, Effect), Fault>,
    now: LocalTime,
    z1: LocalOffsets,
    z2: LocalOffsets,
    z3: LocalOffsets,
) -> bool {
    let (w1, w2, w3) = cursor_walls(now.wall());
    if !start_dates_ok(now) {
        r matches Err(f) && f == Fault::DateOutOfRange
    } else if moment_of(w1, z1) is None || moment_of(w2, z2) is None || moment_of(w3, z3) is None {
        r matches Err(f) && f == Fault::NoSuchLocalTime
    } else {
        r matches Ok((app, e)) && app.wf() && spec_initial_state(app, now, e@)
            && app.insert_event.start_time == moment_of(w3, z3)->0
    }
}

/// The moment the local wall-clock reading `wall` names, as
/// `DateTime<Local>::with_..` finds it: `moment_of` the zone's answer.
fn local_moment(wall: i128) -> (r: Result<i128, Fault>)
    ensures
        exists|z: LocalOffsets| zone_answer(z) && match r {
            Ok(u) => #[trigger] moment_of(wall as int, z) == Some(u as int),
            Err(f) => f == Fault::NoSuchLocalTime && moment_of(wall as int, z) is None,
        },
        r matches Ok(u) ==> valid_instant(u as int),
{
    let gap = LocalOffsets::Gap;
    if wall < MIN_INSTANT || wall > MAX_INSTANT {
        proof {
            assert(zone_answer(gap) && moment_of(wall as int, gap) is None);
        }
        return Err(Fault::NoSuchLocalTime);
    }
    let u = local_to_utc(wall);
    let ghost z = choose|z: LocalOffsets| zone_answer(z) && same_moment(u, #[trigger] wall_to_utc(wall as int, z));
    proof {
        assert(moment_of(wall as int, z) == wall_to_utc(wall as int, z));
    }
    match u {
        Some(t) => Ok(t),
        None => Err(Fault::NoSuchLocalTime),
    }
}

impl App {
    /// The state the interface starts in at the local time `now`, with the
    /// insert cursor at `start_time`, and the first fetch it asks for. An error
    /// exactly when a day it needs is not representable (`start_dates_ok`).
    pub fn initial_state(now: LocalTime, start_time: i128) -> (r: Result<(App, Effect), Fault>)
        requires
            now.wf(),
            valid_instant(start_time as int),
        ensures
            r is Err <==> !start_dates_ok(now),
            r matches Err(f) ==> f == Fault::DateOutOfRange,
            r matches Ok((app, e)) ==> app.wf() && spec_initial_state(app, now, e@)
                && app.insert_event.start_time == start_time,
    {
        let wall = now.utc + now.offset as i128 * NANOS_PER_SECOND;
        let day = date_of_wall(wall);
        if day < MIN_DATE || day > MAX_DATE {
            return Err(Fault::DateOutOfRange);
        }
        let start_date = match add_days(day, -START_OFFSET) {
            Some(d) => d,
            None => return Err(Fault::DateOutOfRange),
        };
        let fetch_start = match add_days(start_date, -BUFFER_DAYS) {
            Some(d) => d,
            None => return Err(Fault::DateOutOfRange),
        };
        let view_end = match add_days(start_date, NUM_DAYS) {
            Some(d) => d,
            None => return Err(Fault::DateOutOfRange),
        };
        let fetch_end = match add_days(view_end, BUFFER_DAYS) {
            Some(d) => d,
            None => return Err(Fault::DateOutOfRange),
        };
        let insert_event = InsertEvent { start_time, duration: RESOLUTION_IN_MINS as i64 * 2 };
        let mut app = App {
            running: true,
            mode: AppMode::Normal,
            scroll_offset: SCROLL_OFFSET_MINS,
            viewport_mins: VIEWPORT_MINS,
            cal_event_nodes: Vec::new(),
            sel_event_id: None,
            start_date,
            num_days: NUM_DAYS,
            now,
            loaded_start: start_date,
            loaded_end: start_date,
            is_now_timeline_visible: true,
            insert_event,
            popup: EventPopup { active_field: ActiveField::Summary },
        };
        let e = app.fetch_events(fetch_start, fetch_end, true);
        Ok((app, e))
    }

    /// The state the interface starts in at the current local time, with the
    /// first fetch it asks for: `start_outcome` of the clock's reading and of
    /// the zone's answers for the readings of `cursor_walls`.
    pub fn new() -> (r: Result<(App, Effect), Fault>)
        ensures
            exists|t: LocalTime, z1: LocalOffsets, z2: LocalOffsets, z3: LocalOffsets|
                t.wf() && zone_answer(z1) && zone_answer(z2) && zone_answer(z3)
                    && #[trigger] start_outcome(r, t, z1, z2, z3),
    {
        let t = now();
        let ghost gap = LocalOffsets::Gap;
        let wall = t.utc + t.offset as i128 * NANOS_PER_SECOND;
        let day = date_of_wall(wall);
        proof {
            assert(zone_answer(gap));
            assert(day == t.date());
        }
        if day < MIN_DATE + START_OFFSET + BUFFER_DAYS || day > MAX_DATE + START_OFFSET - NUM_DAYS - BUFFER_DAYS {
            proof {
                assert(start_outcome(Err(Fault::DateOutOfRange), t, gap, gap, gap));
            }
            return Err(Fault::DateOutOfRange);
        }
        // Round the local time down to a quarter hour: minutes, then seconds,
        // then nanoseconds, finding the moment each time.
        let row = RESOLUTION_IN_MINS as i128 * NANOS_PER_MINUTE;
        let shifted = wall + 100_000_000 * crate::time::NANOS_PER_DAY;
        proof {
            assert(shifted >= 0);
            assert(100_000_000 * crate::time::NANOS_PER_DAY == (row * 9_600_000_000) as int);
            vstd::arithmetic::div_mod::lemma_mod_multiples_vanish(9_600_000_000, wall as int, row as int);
            assert(shifted == wall + 9_600_000_000 * row);
        }
        let rem = shifted % row;
        let minutes_part = (rem / NANOS_PER_MINUTE) * NANOS_PER_MINUTE;
        let seconds_part = ((rem - minutes_part) / NANOS_PER_SECOND) * NANOS_PER_SECOND;
        proof {
            vstd::arithmetic::div_mod::lemma_fundamental_div_mod(rem as int, NANOS_PER_MINUTE as int);
            vstd::arithmetic::div_mod::lemma_fundamental_div_mod((rem - minutes_part) as int, NANOS_PER_SECOND as int);
            assert(rem == wall as int % (row as int)) by {
                vstd::arithmetic::div_mod::lemma_mod_multiples_vanish(9_600_000_000, wall as int, row as int);
            }
            assert(cursor_walls(t.wall()) == (
                (wall - minutes_part) as int,
                (wall - minutes_part - seconds_part) as int,
                (wall - rem) as int,
            ));
        }
        let first = local_moment(wall - minutes_part);
        let ghost z1 = choose|z: LocalOffsets| zone_answer(z) && match first {
            Ok(u) => #[trigger] moment_of((wall - minutes_part) as int, z) == Some(u as int),
            Err(f) => f == Fault::NoSuchLocalTime && moment_of((wall - minutes_part) as int, z) is None,
        };
        if let Err(f) = first {
            proof {
                assert(start_outcome(Err(f), t, z1, gap, gap));
            }
            return Err(f);
        }
        let second = local_moment(wall - minutes_part - seconds_part);
        let ghost z2 = choose|z: LocalOffsets| zone_answer(z) && match second {
            Ok(u) => #[trigger] moment_of((wall - minutes_part - seconds_part) as int, z) == Some(u as int),
            Err(f) => f == Fault::NoSuchLocalTime && moment_of((wall - minutes_part - seconds_part) as int, z) is None,
        };
        if let Err(f) = second {
            proof {
                assert(start_outcome(Err(f), t, z1, z2, gap));
            }
            return Err(f);
        }
        let third = local_moment(wall - rem);
        let ghost z3 = choose|z: LocalOffsets| zone_answer(z) && match third {
            Ok(u) => #[trigger] moment_of((wall - rem) as int, z) == Some(u as int),
            Err(f) => f == Fault::NoSuchLocalTime && moment_of((wall - rem) as int, z) is None,
        };
        let start_time = match third {
            Ok(u) => u,
            Err(f) => {
                proof {
                    assert(start_outcome(Err(f), t, z1, z2, z3));
                }
                return Err(f);
            },
        };
        let r = App::initial_state(t, start_time);
        proof {
            assert(start_outcome(r, t, z1, z2, z3));
        }
        r
    }
}

} // verus!
