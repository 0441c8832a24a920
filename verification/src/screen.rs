//! What a frame of the interface shows and where: the header row, the time
//! gutter and the events of each day, with the areas ratatui's layout gives
//! them. The terminal front end only draws what this plan says.
use ratatui::layout::{Constraint, Layout, Margin, Rect as Area, Spacing};
use vstd::prelude::*;
use crate::app::{min, App, Fault};
use crate::clock::{formatted_date, zone_answer, DAY_FORMAT};
use crate::event::EventNode;
use crate::sort::{lemma_stable_sorted_contains, stable_sorted};
use crate::time::{valid_date, valid_instant, LocalOffsets};
use crate::view::{
    calculate_viewport_rect, day_viewport, gutter_label, header_labels, layout, layout_fits,
    lemma_visible_index_bound, row_key, target_dates, time_gutter, viewport_result, visible_events,
    Rect, RenderedEvent, VisibleEvent,
};

verus! {

/// What ratatui's `Layout::vertical([Length(head), Fill(1)])` with an
/// overlap of `overlap` cells splits an area into: the top and the rest.
pub uninterp spec fn rows_split(area: Rect, head: u16, overlap: u16) -> (Rect, Rect);

/// What ratatui's `Layout::horizontal` with a first column of `Length(first)`
/// then `fills` columns of `Fill(1)`, overlapping by `overlap` cells, splits
/// an area into.
pub uninterp spec fn columns_split(area: Rect, first: u16, fills: usize, overlap: u16) -> Seq<Rect>;

/// `Rect::layout` with a two-row vertical `Layout`. Its result is named
/// (`rows_split`). ratatui negates the overlap as an `i16`, so it must be at
/// most 32767.
#[verifier::external_body]
fn split_rows(area: Rect, head: u16, overlap: u16) -> (r: (Rect, Rect))
    requires
        overlap <= 32767,
    ensures
        r == rows_split(area, head, overlap),
{
    let layout = Layout::vertical([Constraint::Length(head), Constraint::Fill(1)])
        .spacing(Spacing::Overlap(overlap));
    let [top, rest] = Area { x: area.x, y: area.y, width: area.width, height: area.height }.layout(&layout);
    (
        Rect { x: top.x, y: top.y, width: top.width, height: top.height },
        Rect { x: rest.x, y: rest.y, width: rest.width, height: rest.height },
    )
}

/// `Layout::split` with a horizontal `Layout`. Its result is named
/// (`columns_split`); further claimed, from its source: one area per
/// constraint. ratatui negates the overlap as an `i16`, so it must be at most
/// 32767.
#[verifier::external_body]
fn split_columns(area: Rect, first: u16, fills: usize, overlap: u16) -> (r: Vec<Rect>)
    requires
        overlap <= 32767,
    ensures
        r@ == columns_split(area, first, fills, overlap),
        r@.len() == fills + 1,
{
    let constraints = std::iter::once(Constraint::Length(first))
        .chain(std::iter::repeat_n(Constraint::Fill(1), fills));
    let layout = Layout::horizontal(constraints).spacing(Spacing::Overlap(overlap));
    let area = Area { x: area.x, y: area.y, width: area.width, height: area.height };
    layout.split(area).iter().map(|a| Rect { x: a.x, y: a.y, width: a.width, height: a.height }).collect()
}

/// `x` plus one, staying at `u16::MAX` (`u16::saturating_add`).
pub open spec fn next_cell(x: u16) -> u16 {
    if x == u16::MAX { x } else { (x + 1) as u16 }
}

/// The area inside a one-cell border: one cell less on each side, or the
/// empty area at the origin when the area is less than two cells wide or high.
pub open spec fn inside_border(area: Rect) -> Rect {
    if area.width < 2 || area.height < 2 {
        Rect { x: 0, y: 0, width: 0, height: 0 }
    } else {
        Rect { x: next_cell(area.x), y: next_cell(area.y), width: (area.width - 2) as u16, height: (area.height - 2) as u16 }
    }
}

/// `Rect::inner` with a margin of one cell each way. Claimed, from its source:
/// the area inside a one-cell border (`inside_border`).
#[verifier::external_body]
fn inner_area(area: Rect) -> (r: Rect)
    ensures
        r == inside_border(area),
{
    let a = Area { x: area.x, y: area.y, width: area.width, height: area.height }
        .inner(Margin { horizontal: 1, vertical: 1 });
    Rect { x: a.x, y: a.y, width: a.width, height: a.height }
}

/// The height of the header row, in cells.
pub const HEADER_HEIGHT: u16 = 3;

/// The width of the time gutter, in cells.
pub const GUTTER_WIDTH: u16 = 9;

/// Neighbouring areas share their border: they overlap by this many cells.
pub const BORDER_OVERLAP: u16 = 1;

/// The day columns a frame has room for.
pub const DAY_COLUMNS: usize = 3;

/// A cell of the header row: its area and its text.
pub struct HeaderCell {
    pub area: Rect,
    pub label: String,
}

/// An event drawn in a day's column: its position among the loaded events,
/// its rectangle, and whether it is the selected event.
#[derive(Clone, Copy, Debug)]
pub struct EventBox {
    pub index: usize,
    pub rect: Rect,
    pub selected: bool,
}

/// A day's column: the day (days since 1970-01-01), its bordered area, and
/// the events drawn inside the border.
pub struct DayColumn {
    pub date: i32,
    pub area: Rect,
    pub events: Vec<EventBox>,
}

/// Everything a frame shows.
pub struct FramePlan {
    pub headers: Vec<HeaderCell>,
    pub gutter_area: Rect,
    pub gutter: Vec<String>,
    pub days: Vec<DayColumn>,
}

/// The event `n` is the selected one.
pub open spec fn is_selected(sel: Option<String>, n: EventNode) -> bool {
    sel matches Some(id) && id@ == n.id@
}

/// The boxes drawn for laid-out events of `nodes`.
pub open spec fn boxes_of(nodes: Seq<EventNode>, sel: Option<String>, rs: Seq<RenderedEvent>) -> Seq<EventBox> {
    Seq::new(
        rs.len(),
        |i: int| EventBox { index: rs[i].index, rect: rs[i].rect, selected: is_selected(sel, nodes[rs[i].index as int]) },
    )
}

/// The days the view spans.
pub open spec fn days_shown(app: App) -> int {
    if app.num_days > 0 { app.num_days as int } else { 0 }
}

/// Every day the view spans is representable.
pub open spec fn dates_ok(app: App) -> bool {
    days_shown(app) == 0 || (valid_date(app.start_date as int) && valid_date(app.start_date + days_shown(app) - 1))
}

/// The last minute of the view fits in `u16`.
pub open spec fn gutter_fits(app: App) -> bool {
    app.scroll_offset + app.viewport_mins <= u16::MAX
}

/// The text of header cell `i`: "Time", then the weekday of each day.
pub open spec fn header_text(start_date: int, i: int) -> Seq<char> {
    if i == 0 { "Time"@ } else { formatted_date((start_date + i - 1) as i32, DAY_FORMAT@) }
}

/// `v` is the events that show in the viewport from `vs` to `ve`, ordered
/// for layout.
pub open spec fn day_layout(app: App, vs: int, ve: int, v: Seq<VisibleEvent>) -> bool {
    stable_sorted(v, visible_events(app.cal_event_nodes@, vs, ve), row_key())
}

/// The column shows the events of the viewport from `vs` to `ve` laid out
/// inside its border.
pub open spec fn column_shows(app: App, vs: int, ve: int, col: DayColumn) -> bool {
    exists|v: Seq<VisibleEvent>|
        #[trigger] day_layout(app, vs, ve, v) && layout_fits(v, inside_border(col.area))
            && col.events@ == boxes_of(app.cal_event_nodes@, app.sel_event_id, layout(v, inside_border(col.area)))
}

/// The events of the viewport from `vs` to `ve` fit in `u16` cells when
/// laid out in `inner`.
pub open spec fn column_fits(app: App, vs: int, ve: int, inner: Rect) -> bool {
    exists|v: Seq<VisibleEvent>| #[trigger] day_layout(app, vs, ve, v) && layout_fits(v, inner)
}

/// The events of the viewport from `vs` to `ve` do not fit in `u16` cells
/// when laid out in `inner`.
pub open spec fn column_overflows(app: App, vs: int, ve: int, inner: Rect) -> bool {
    exists|v: Seq<VisibleEvent>| #[trigger] day_layout(app, vs, ve, v) && !layout_fits(v, inner)
}

/// The viewport of the day shown in column `k`, given the zone's answer `z`
/// for its midnight.
pub open spec fn column_viewport(app: App, k: int, z: LocalOffsets) -> Result<(i128, i128), Fault> {
    viewport_result(app.start_date + k, z, app.scroll_offset as int, app.scroll_offset + app.viewport_mins)
}

/// Column `k` of the frame in `area` is `col`, the zone's answer for its
/// day's midnight being `z`.
pub open spec fn day_shown(app: App, area: Rect, k: int, z: LocalOffsets, col: DayColumn) -> bool {
    &&& col.date == app.start_date + k
    &&& col.area == body_columns(area)[k + 1]
    &&& match column_viewport(app, k, z) {
        Ok(w) => column_shows(app, w.0 as int, w.1 as int, col),
        Err(_) => false,
    }
}

/// Column `k` can be drawn, the zone's answer for its day's midnight being `z`.
pub open spec fn day_passes(app: App, area: Rect, k: int, z: LocalOffsets) -> bool {
    match column_viewport(app, k, z) {
        Ok(w) => column_fits(app, w.0 as int, w.1 as int, inside_border(body_columns(area)[k + 1])),
        Err(_) => false,
    }
}

/// Column `k` fails with `f`, the zone's answer for its day's midnight being
/// `z`: the viewport's error, or `Overflow` when its events do not fit.
pub open spec fn day_fails(app: App, area: Rect, k: int, z: LocalOffsets, f: Fault) -> bool {
    match column_viewport(app, k, z) {
        Ok(w) => f == Fault::Overflow && column_overflows(app, w.0 as int, w.1 as int, inside_border(body_columns(area)[k + 1])),
        Err(g) => f == g,
    }
}

/// The day columns are `days`, the zone's answers for their midnights being `zs`.
pub open spec fn days_with(app: App, area: Rect, zs: Seq<LocalOffsets>, days: Seq<DayColumn>) -> bool {
    &&& zs.len() == days.len()
    &&& forall|k: int| 0 <= k < zs.len() ==> zone_answer(#[trigger] zs[k])
    &&& forall|k: int| 0 <= k < days.len() ==> day_shown(app, area, k, zs[k], #[trigger] days[k])
}

/// Column `k` is the first that fails, with `f`, the zone's answers for the
/// midnights up to it being `zs`.
pub open spec fn fails_with(app: App, area: Rect, zs: Seq<LocalOffsets>, k: int, f: Fault) -> bool {
    &&& zs.len() == k + 1
    &&& forall|j: int| 0 <= j < zs.len() ==> zone_answer(#[trigger] zs[j])
    &&& forall|j: int| 0 <= j < k ==> day_passes(app, area, j, #[trigger] zs[j])
    &&& day_fails(app, area, k, zs[k], f)
}

/// The areas of the header cells and of the columns below them.
pub open spec fn header_columns(area: Rect) -> Seq<Rect> {
    columns_split(rows_split(area, HEADER_HEIGHT, BORDER_OVERLAP).0, GUTTER_WIDTH, DAY_COLUMNS, BORDER_OVERLAP)
}

/// The areas of the gutter and of the day columns.
pub open spec fn body_columns(area: Rect) -> Seq<Rect> {
    columns_split(rows_split(area, HEADER_HEIGHT, BORDER_OVERLAP).1, GUTTER_WIDTH, DAY_COLUMNS, BORDER_OVERLAP)
}

/// `p` is the frame of `app` in `area`: a header cell per column, "Time"
/// over the gutter and a weekday over each day; the gutter's labels; and
/// each day's events laid out in its column.
pub open spec fn frame_shown(app: App, area: Rect, p: FramePlan) -> bool {
    &&& p.headers@.len() == min(days_shown(app) + 1, DAY_COLUMNS + 1)
    &&& forall|i: int| 0 <= i < p.headers@.len() ==> (#[trigger] p.headers@[i]).area == header_columns(area)[i]
        && p.headers@[i].label@ == header_text(app.start_date as int, i)
    &&& p.gutter_area == body_columns(area)[0]
    &&& p.gutter@.len() == (app.viewport_mins + 14) / 15
    &&& forall|i: int| 0 <= i < p.gutter@.len() ==> (#[trigger] p.gutter@[i])@ == gutter_label(app.scroll_offset + 15 * i)
    &&& p.days@.len() == min(days_shown(app), DAY_COLUMNS as int)
    &&& exists|zs: Seq<LocalOffsets>| #[trigger] days_with(app, area, zs, p.days@)
}

fn event_boxes(nodes: &Vec<EventNode>, sel: &Option<String>, rendered: &Vec<RenderedEvent>) -> (r: Vec<EventBox>)
    requires
        forall|i: int| 0 <= i < rendered@.len() ==> (#[trigger] rendered@[i]).index < nodes@.len(),
    ensures
        r@ == boxes_of(nodes@, *sel, rendered@),
{
    let mut out: Vec<EventBox> = Vec::new();
    let mut i: usize = 0;
    while i < rendered.len()
        invariant
            i <= rendered@.len(),
            out@.len() == i,
            forall|j: int| 0 <= j < rendered@.len() ==> (#[trigger] rendered@[j]).index < nodes@.len(),
            forall|j: int| 0 <= j < i ==> #[trigger] out@[j] == boxes_of(nodes@, *sel, rendered@)[j],
        decreases rendered.len() - i,
    {
        let r = rendered[i];
        let selected = match sel {
            Some(id) => id.eq(&nodes[r.index].id),
            None => false,
        };
        out.push(EventBox { index: r.index, rect: r.rect, selected });
        i = i + 1;
    }
    proof {
        assert(out@ =~= boxes_of(nodes@, *sel, rendered@));
    }
    out
}

/// The column of `date` in `day_area`, its events those of the viewport
/// from `vs` to `ve` laid out inside its border. An error (`Overflow`)
/// exactly when they do not fit in `u16` cells.
pub fn day_column(app: &App, date: i32, day_area: Rect, vs: i128, ve: i128) -> (r: Result<DayColumn, Fault>)
    requires
        app.wf(),
        valid_instant(vs as int),
        valid_instant(ve as int),
    ensures
        match r {
            Ok(col) => col.date == date && col.area == day_area && column_shows(*app, vs as int, ve as int, col),
            Err(f) => f == Fault::Overflow && column_overflows(*app, vs as int, ve as int, inside_border(day_area)),
        },
{
    let nodes = &app.cal_event_nodes;
    let node_count = nodes.len();
    let inner = inner_area(day_area);
    let rendered = match calculate_viewport_rect(nodes.as_slice(), vs, ve, &inner) {
        Some(rs) => rs,
        None => {
            proof {
                let v = choose|v: Seq<VisibleEvent>| stable_sorted(v, visible_events(nodes@, vs as int, ve as int), row_key())
                    && !layout_fits(v, inner);
                assert(day_layout(*app, vs as int, ve as int, v));
            }
            return Err(Fault::Overflow);
        },
    };
    let ghost v = choose|v: Seq<VisibleEvent>| stable_sorted(v, visible_events(nodes@, vs as int, ve as int), row_key())
        && layout_fits(v, inner) && rendered@ == layout(v, inner);
    proof {
        lemma_visible_index_bound(nodes@, vs as int, ve as int);
        assert forall|j: int| 0 <= j < rendered@.len() implies (#[trigger] rendered@[j]).index < nodes@.len() by {
            lemma_stable_sorted_contains(v, visible_events(nodes@, vs as int, ve as int), row_key(), j);
            let w = visible_events(nodes@, vs as int, ve as int);
            let t = choose|t: int| 0 <= t < w.len() && w[t] == v[j];
            assert(w[t].index < nodes@.len());
        }
    }
    let events = event_boxes(nodes, &app.sel_event_id, &rendered);
    let col = DayColumn { date, area: day_area, events };
    proof {
        assert(day_layout(*app, vs as int, ve as int, v));
    }
    Ok(col)
}

/// The frame of `app` in `area`. An error when a day the view spans is not
/// representable (`DateOutOfRange`), when the end of the view does not fit
/// in `u16` (`Overflow`), or at the first day column that fails: when the
/// local zone names no single moment for its midnight, the view's bounds are
/// not representable, or its events do not fit in `u16` cells. Which day
/// columns succeed is stated for the answers the machine's zone gives for
/// their midnights (`days_with`, `fails_with`); with no day column, the
/// frame succeeds.
pub fn frame_plan(app: &App, area: Rect) -> (r: Result<FramePlan, Fault>)
    requires
        app.wf(),
    ensures
        match r {
            Ok(p) => dates_ok(*app) && gutter_fits(*app) && frame_shown(*app, area, p),
            Err(f) => if !dates_ok(*app) {
                f == Fault::DateOutOfRange
            } else if !gutter_fits(*app) {
                f == Fault::Overflow
            } else {
                exists|zs: Seq<LocalOffsets>, k: int|
                    0 <= k < min(days_shown(*app), DAY_COLUMNS as int) && #[trigger] fails_with(*app, area, zs, k, f)
            },
        },
        dates_ok(*app) && gutter_fits(*app) && min(days_shown(*app), DAY_COLUMNS as int) == 0 ==> r is Ok,
{
    let (header, calendar) = split_rows(area, HEADER_HEIGHT, BORDER_OVERLAP);
    let header_cols = split_columns(header, GUTTER_WIDTH, DAY_COLUMNS, BORDER_OVERLAP);
    let columns = split_columns(calendar, GUTTER_WIDTH, DAY_COLUMNS, BORDER_OVERLAP);
    let dates = match target_dates(app.start_date, app.num_days as i64) {
        Ok(d) => d,
        Err(f) => return Err(f),
    };
    let labels = header_labels(&dates);
    let mut headers: Vec<HeaderCell> = Vec::new();
    let mut i: usize = 0;
    while i < labels.len() && i < header_cols.len()
        invariant
            i <= labels@.len(),
            i <= header_cols@.len(),
            headers@.len() == i,
            forall|j: int| 0 <= j < i ==> (#[trigger] headers@[j]).area == header_cols@[j]
                && headers@[j].label@ == labels@[j]@,
        decreases labels.len() - i,
    {
        headers.push(HeaderCell { area: header_cols[i], label: labels[i].clone() });
        i = i + 1;
    }
    proof {
        assert forall|j: int| 0 <= j < headers@.len() implies (#[trigger] headers@[j]).label@
            == header_text(app.start_date as int, j) by {
            if j > 0 {
                assert(labels@[(j - 1) + 1]@ == formatted_date(dates@[j - 1], DAY_FORMAT@));
            }
        }
    }
    let gutter = match time_gutter(app.scroll_offset, app.viewport_mins) {
        Ok(g) => g,
        Err(f) => return Err(f),
    };
    let start_mins = app.scroll_offset;
    let end_mins = app.scroll_offset + app.viewport_mins;
    let mut days: Vec<DayColumn> = Vec::new();
    let ghost mut zs: Seq<LocalOffsets> = Seq::empty();
    let mut k: usize = 0;
    while k < dates.len() && k < DAY_COLUMNS
        invariant
            app.wf(),
            dates_ok(*app),
            gutter_fits(*app),
            start_mins == app.scroll_offset,
            end_mins == app.scroll_offset + app.viewport_mins,
            dates@.len() == days_shown(*app),
            forall|j: int| 0 <= j < dates@.len() ==> #[trigger] dates@[j] == app.start_date + j,
            forall|j: int| 0 <= j < dates@.len() ==> valid_date(#[trigger] dates@[j] as int),
            columns@ == body_columns(area),
            columns@.len() == DAY_COLUMNS + 1,
            k <= dates@.len(),
            k <= DAY_COLUMNS,
            days@.len() == k,
            days_with(*app, area, zs, days@),
        decreases DAY_COLUMNS - k,
    {
        let day = dates[k];
        let day_area = columns[k + 1];
        let viewport = day_viewport(day, start_mins, end_mins);
        let ghost z = choose|z: LocalOffsets|
            zone_answer(z) && viewport == #[trigger] viewport_result(day as int, z, start_mins as int, end_mins as int);
        proof {
            assert(column_viewport(*app, k as int, z) == viewport);
            assert forall|j: int| 0 <= j < k implies day_passes(*app, area, j, #[trigger] zs[j]) by {
                assert(day_shown(*app, area, j, zs[j], days@[j]));
                if let Ok(w) = column_viewport(*app, j, zs[j]) {
                    let v = choose|v: Seq<VisibleEvent>| #[trigger] day_layout(*app, w.0 as int, w.1 as int, v)
                        && layout_fits(v, inside_border(days@[j].area))
                        && days@[j].events@ == boxes_of(app.cal_event_nodes@, app.sel_event_id, layout(v, inside_border(days@[j].area)));
                    assert(day_layout(*app, w.0 as int, w.1 as int, v));
                }
            }
        }
        let (vs, ve) = match viewport {
            Ok(p) => p,
            Err(f) => {
                proof {
                    assert(fails_with(*app, area, zs.push(z), k as int, f));
                }
                return Err(f);
            },
        };
        let col = match day_column(app, day, day_area, vs, ve) {
            Ok(c) => c,
            Err(f) => {
                proof {
                    assert(fails_with(*app, area, zs.push(z), k as int, f));
                }
                return Err(f);
            },
        };
        let ghost prev = days@;
        days.push(col);
        proof {
            let zs2 = zs.push(z);
            assert forall|j: int| 0 <= j < days@.len() implies day_shown(*app, area, j, zs2[j], #[trigger] days@[j]) by {
                if j < k {
                    assert(days@[j] == prev[j]);
                    assert(zs2[j] == zs[j]);
                    assert(day_shown(*app, area, j, zs[j], prev[j]));
                }
            }
            assert forall|j: int| 0 <= j < zs2.len() implies zone_answer(#[trigger] zs2[j]) by {
                if j < k {
                    assert(zs2[j] == zs[j]);
                }
            }
            zs = zs2;
        }
        k = k + 1;
    }
    let plan = FramePlan { headers, gutter_area: columns[0], gutter, days };
    proof {
        assert(days_with(*app, area, zs, plan.days@));
    }
    Ok(plan)
}

} // verus!
