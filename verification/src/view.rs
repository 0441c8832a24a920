//! What the calendar grid shows: which events fall in a day's viewport, the
//! rows they cover, and where each is drawn so that overlapping events stand
//! side by side.
use vstd::prelude::*;
use crate::app::Fault;
use crate::calendar::{local_midnight, midnight_of, midnight_result};
use crate::clock::zone_answer;
use crate::time::LocalOffsets;
use crate::clock::{format_day, formatted_date, short_weekday, DAY_FORMAT};
use crate::constants::RESOLUTION_IN_MINS;
use crate::event::EventNode;
use crate::sort::{
    lemma_stable_insert, lemma_stable_sorted_contains, lemma_stable_sorted_empty, sorted_by_key,
    stable_sorted,
};
use crate::time::{
    minutes_in, num_minutes, valid_date, valid_instant, MAX_DATE, MAX_INSTANT, MIN_DATE, MIN_INSTANT,
    NANOS_PER_MINUTE,
};

verus! {

/// A rectangle of terminal cells.
#[derive(Clone, Copy, Debug)]
pub struct Rect {
    pub x: u16,
    pub y: u16,
    pub width: u16,
    pub height: u16,
}

/// An event that shows in a viewport, with the rows it covers: from
/// `start_row` up to, not including, `end_row`.
#[derive(Clone, Copy, Debug)]
pub struct VisibleEvent {
    /// Position of the event in the list it was taken from.
    pub index: usize,
    pub start_row: u16,
    pub end_row: u16,
}

/// An event with the rectangle it is drawn in.
#[derive(Clone, Copy, Debug)]
pub struct RenderedEvent {
    /// Position of the event in the list it was taken from.
    pub index: usize,
    pub rect: Rect,
}

/// The row that `m` minutes below the top of the viewport falls in. The
/// minutes are taken as a `u16` (truncated), as the grid does.
pub open spec fn row_of(m: int) -> u16 {
    ((m as u16) / RESOLUTION_IN_MINS) as u16
}

/// Whether the event `index`, from `start` to `end`, shows in the viewport
/// from `vs` to `ve`, and the rows it covers there: its part inside the
/// viewport, in whole rows, and at least one row.
pub open spec fn visible_of(index: int, start: int, end: int, vs: int, ve: int) -> Option<VisibleEvent> {
    if end <= vs || start >= ve {
        None
    } else {
        let clamped_start = if start >= vs { start } else { vs };
        let clamped_end = if end <= ve { end } else { ve };
        let start_row = row_of(num_minutes(clamped_start - vs));
        let end_row0 = row_of(num_minutes(clamped_end - vs));
        let end_row = if end_row0 <= start_row { (start_row + 1) as u16 } else { end_row0 };
        Some(VisibleEvent { index: index as usize, start_row, end_row })
    }
}

/// The events of `events` that show in the viewport from `vs` to `ve`, in
/// their order.
pub open spec fn visible_events(events: Seq<EventNode>, vs: int, ve: int) -> Seq<VisibleEvent>
    decreases events.len(),
{
    if events.len() == 0 {
        Seq::empty()
    } else {
        let prev = visible_events(events.drop_last(), vs, ve);
        let last = events.last();
        match visible_of(events.len() - 1, last.start_time as int, last.end_time as int, vs, ve) {
            Some(v) => prev.push(v),
            None => prev,
        }
    }
}

/// Visible events are ordered by first row, and among those with the same
/// first row the longer comes first.
pub open spec fn row_key() -> spec_fn(VisibleEvent) -> int {
    |v: VisibleEvent| v.start_row as int * 65536 + (65535 - v.end_row as int)
}

fn visible_rows(events: &[EventNode], viewport_start: i128, viewport_end: i128) -> (r: Vec<VisibleEvent>)
    requires
        valid_instant(viewport_start as int),
        valid_instant(viewport_end as int),
        forall|i: int| 0 <= i < events@.len() ==> (#[trigger] events@[i]).wf(),
    ensures
        r@ == visible_events(events@, viewport_start as int, viewport_end as int),
{
    let mut out: Vec<VisibleEvent> = Vec::new();
    let mut i: usize = 0;
    proof {
        assert(events@.take(0) =~= Seq::<EventNode>::empty());
    }
    while i < events.len()
        invariant
            i <= events@.len(),
            valid_instant(viewport_start as int),
            valid_instant(viewport_end as int),
            forall|j: int| 0 <= j < events@.len() ==> (#[trigger] events@[j]).wf(),
            out@ == visible_events(events@.take(i as int), viewport_start as int, viewport_end as int),
        decreases events.len() - i,
    {
        let ev = &events[i];
        proof {
            assert(events@.take(i + 1).drop_last() =~= events@.take(i as int));
            assert(events@.take(i + 1).last() == events@[i as int]);
            assert(ev.wf());
        }
        if !(ev.end_time <= viewport_start || ev.start_time >= viewport_end) {
            let clamped_start = if ev.start_time >= viewport_start { ev.start_time } else { viewport_start };
            let clamped_end = if ev.end_time <= viewport_end { ev.end_time } else { viewport_end };
            let start_mins = minutes_in(clamped_start - viewport_start);
            let end_mins = minutes_in(clamped_end - viewport_start);
            let start_row = (#[verifier::truncate] (start_mins as u16)) / RESOLUTION_IN_MINS;
            let mut end_row = (#[verifier::truncate] (end_mins as u16)) / RESOLUTION_IN_MINS;
            if end_row <= start_row {
                end_row = start_row + 1;
            }
            out.push(VisibleEvent { index: i, start_row, end_row });
        }
        i = i + 1;
    }
    proof {
        assert(events@.take(i as int) =~= events@);
    }
    out
}

fn sort_rows(rows: Vec<VisibleEvent>) -> (r: Vec<VisibleEvent>)
    ensures
        stable_sorted(r@, rows@, row_key()),
{
    let mut out: Vec<VisibleEvent> = Vec::new();
    let mut i: usize = 0;
    proof {
        lemma_stable_sorted_empty(row_key());
        assert(rows@.take(0) =~= Seq::<VisibleEvent>::empty());
    }
    while i < rows.len()
        invariant
            i <= rows@.len(),
            stable_sorted(out@, rows@.take(i as int), row_key()),
        decreases rows.len() - i,
    {
        let x = rows[i];
        let mut p = out.len();
        while p > 0 && (out[p - 1].start_row > x.start_row || (out[p - 1].start_row == x.start_row
            && out[p - 1].end_row < x.end_row))
            invariant
                p <= out.len(),
                forall|j: int| p <= j < out.len() ==> (row_key())(#[trigger] out@[j]) > (row_key())(x),
            decreases p,
        {
            p = p - 1;
        }
        proof {
            assert forall|j: int| 0 <= j < p implies (row_key())(#[trigger] out@[j]) <= (row_key())(x) by {
                assert((row_key())(out@[j]) <= (row_key())(out@[p - 1]));
            }
            lemma_stable_insert(out@, rows@.take(i as int), x, p as int, row_key());
            assert(rows@.take(i as int).push(x) =~= rows@.take(i + 1));
        }
        out.insert(p, x);
        i = i + 1;
    }
    proof {
        assert(rows@.take(i as int) =~= rows@);
    }
    out
}


/// Every visible event is one of the events it was taken from.
pub proof fn lemma_visible_index_bound(events: Seq<EventNode>, vs: int, ve: int)
    requires
        events.len() <= usize::MAX,
    ensures
        forall|i: int| 0 <= i < visible_events(events, vs, ve).len() ==>
            (#[trigger] visible_events(events, vs, ve)[i]).index < events.len(),
    decreases events.len(),
{
    if events.len() > 0 {
        lemma_visible_index_bound(events.drop_last(), vs, ve);
        let last = events.last();
        let prev = visible_events(events.drop_last(), vs, ve);
        match visible_of(events.len() - 1, last.start_time as int, last.end_time as int, vs, ve) {
            Some(x) => {
                assert(x.index == events.len() - 1);
                assert forall|i: int| 0 <= i < prev.push(x).len() implies
                    (#[trigger] prev.push(x)[i]).index < events.len() by {
                    if i < prev.len() {
                        assert(prev.push(x)[i] == prev[i]);
                    }
                }
            },
            None => {},
        }
    }
}

/// A viewport from `vs` to `ve` spans whole rows, at least one and at most
/// `u16::MAX` minutes.
pub open spec fn whole_rows_view(vs: int, ve: int) -> bool {
    &&& vs < ve
    &&& (ve - vs) % (RESOLUTION_IN_MINS * NANOS_PER_MINUTE) == 0
    &&& ve - vs <= u16::MAX * NANOS_PER_MINUTE
}

/// The rows a viewport from `vs` to `ve` spans.
pub open spec fn view_rows(vs: int, ve: int) -> int {
    row_of(num_minutes(ve - vs)) as int
}

/// A visible event's rows lie within the rows its viewport spans.
proof fn lemma_visible_of_within(index: int, start: int, end: int, vs: int, ve: int)
    requires
        whole_rows_view(vs, ve),
        visible_of(index, start, end, vs, ve) is Some,
    ensures
        visible_of(index, start, end, vs, ve)->0.end_row <= view_rows(vs, ve),
        view_rows(vs, ve) == (ve - vs) / (RESOLUTION_IN_MINS * NANOS_PER_MINUTE),
{
    let row = RESOLUTION_IN_MINS * NANOS_PER_MINUTE;
    let m = NANOS_PER_MINUTE as int;
    let cs = if start >= vs { start } else { vs };
    let ce = if end <= ve { end } else { ve };
    assert(start < ve && end > vs);
    let k = (ve - vs) / (row as int);
    vstd::arithmetic::div_mod::lemma_fundamental_div_mod(ve - vs, row as int);
    assert(ve - vs == k * (15 * m)) by (nonlinear_arith)
        requires
            ve - vs == (row as int) * k + (ve - vs) % (row as int),
            (ve - vs) % (row as int) == 0,
            row == 15 * m,
    ;
    assert(0 <= k <= 4369) by (nonlinear_arith)
        requires
            ve - vs == k * (15 * m),
            0 <= ve - vs <= 65535 * m,
            m == 60_000_000_000,
    ;
    let lm = (ve - vs) / m;
    assert(lm == 15 * k) by {
        vstd::arithmetic::div_mod::lemma_div_multiples_vanish(15 * k, m);
        assert(ve - vs == (15 * k) * m) by (nonlinear_arith)
            requires
                ve - vs == k * (15 * m),
        ;
    }
    assert(num_minutes(ve - vs) == lm);
    assert(row_of(lm) == k);
    let ms = (cs - vs) / m;
    let me = (ce - vs) / m;
    assert(0 <= ms <= 15 * k - 1) by (nonlinear_arith)
        requires
            0 <= cs - vs < ve - vs,
            ve - vs == (15 * k) * m,
            ms == (cs - vs) / m,
            m > 0,
    ;
    assert(0 <= me <= 15 * k) by (nonlinear_arith)
        requires
            0 < ce - vs <= ve - vs,
            ve - vs == (15 * k) * m,
            me == (ce - vs) / m,
            m > 0,
    ;
    assert(num_minutes(cs - vs) == ms);
    assert(num_minutes(ce - vs) == me);
    assert(row_of(ms) as int == ms / 15);
    assert(row_of(me) as int == me / 15);
    assert(ms / 15 <= k - 1);
    assert(me / 15 <= k);
}

/// Every visible event's rows lie within the rows its viewport spans: an
/// event running past the end of the viewport is cut off there.
pub proof fn lemma_visible_rows_within_view(events: Seq<EventNode>, vs: int, ve: int)
    requires
        whole_rows_view(vs, ve),
    ensures
        forall|i: int| 0 <= i < visible_events(events, vs, ve).len() ==>
            (#[trigger] visible_events(events, vs, ve)[i]).end_row <= view_rows(vs, ve),
    decreases events.len(),
{
    if events.len() > 0 {
        lemma_visible_rows_within_view(events.drop_last(), vs, ve);
        let last = events.last();
        let prev = visible_events(events.drop_last(), vs, ve);
        match visible_of(events.len() - 1, last.start_time as int, last.end_time as int, vs, ve) {
            Some(x) => {
                lemma_visible_of_within(events.len() - 1, last.start_time as int, last.end_time as int, vs, ve);
                assert forall|i: int| 0 <= i < prev.push(x).len() implies
                    (#[trigger] prev.push(x)[i]).end_row <= view_rows(vs, ve) by {
                    if i < prev.len() {
                        assert(prev.push(x)[i] == prev[i]);
                    }
                }
            },
            None => {},
        }
    }
}

/// Events are drawn within the rows of their viewport: for the events of a
/// viewport of whole rows, laid out in order of first row in `area`, each
/// rectangle ends at most `view_rows` rows below the top of the area.
pub proof fn lemma_rendered_within_view(events: Seq<EventNode>, vs: int, ve: int, area: Rect, v: Seq<VisibleEvent>)
    requires
        whole_rows_view(vs, ve),
        stable_sorted(v, visible_events(events, vs, ve), row_key()),
        layout_fits(v, area),
    ensures
        forall|i: int| 0 <= i < v.len() ==>
            (#[trigger] layout(v, area)[i]).rect.y + layout(v, area)[i].rect.height <= area.y + view_rows(vs, ve),
{
    lemma_visible_rows_within_view(events, vs, ve);
    lemma_visible_rows_nonempty(events, vs, ve);
    assert forall|i: int| 0 <= i < v.len() implies
        (#[trigger] layout(v, area)[i]).rect.y + layout(v, area)[i].rect.height <= area.y + view_rows(vs, ve) by {
        lemma_stable_sorted_contains(v, visible_events(events, vs, ve), row_key(), i);
        let w = visible_events(events, vs, ve);
        let t = choose|t: int| 0 <= t < w.len() && w[t] == v[i];
        assert(w[t].end_row <= view_rows(vs, ve));
        assert(w[t].start_row < w[t].end_row);
        assert(slot_fits(v, area, i));
    }
}

/// Every visible event covers at least one row.
pub proof fn lemma_visible_rows_nonempty(events: Seq<EventNode>, vs: int, ve: int)
    ensures
        forall|i: int| 0 <= i < visible_events(events, vs, ve).len() ==>
            (#[trigger] visible_events(events, vs, ve)[i]).start_row < visible_events(events, vs, ve)[i].end_row,
    decreases events.len(),
{
    if events.len() > 0 {
        lemma_visible_rows_nonempty(events.drop_last(), vs, ve);
        let last = events.last();
        let start = last.start_time as int;
        let end = last.end_time as int;
        let clamped_start = if start >= vs { start } else { vs };
        let m = #[verifier::truncate] (num_minutes(clamped_start - vs) as u16);
        assert(m / RESOLUTION_IN_MINS <= 4369);
        let prev = visible_events(events.drop_last(), vs, ve);
        match visible_of(events.len() - 1, start, end, vs, ve) {
            Some(x) => {
                assert(x.start_row < x.end_row);
                assert(visible_events(events, vs, ve) == prev.push(x));
                assert forall|i: int| 0 <= i < prev.push(x).len() implies
                    (#[trigger] prev.push(x)[i]).start_row < prev.push(x)[i].end_row by {
                    if i < prev.len() {
                        assert(prev.push(x)[i] == prev[i]);
                    }
                }
            },
            None => {},
        }
    }
}

/// The largest last row among the events of `v` from the start of the
/// cluster of event `i` up to `i`. The events of `v` are taken in order.
pub open spec fn reach(v: Seq<VisibleEvent>, i: int) -> int
    decreases i,
{
    if i <= 0 {
        v[0].end_row as int
    } else if v[i].start_row >= reach(v, i - 1) {
        v[i].end_row as int
    } else if reach(v, i - 1) >= v[i].end_row {
        reach(v, i - 1)
    } else {
        v[i].end_row as int
    }
}

/// Event `i` opens a cluster: no earlier event of the cluster before it
/// reaches its first row. A cluster is a run of events that overlap in
/// rows, directly or through each other.
pub open spec fn opens_cluster(v: Seq<VisibleEvent>, i: int) -> bool {
    i <= 0 || v[i].start_row >= reach(v, i - 1)
}

/// The first column, from `c` on, whose last event ends by row `s`; the
/// number of columns when none does.
pub open spec fn first_free(ends: Seq<u16>, s: u16, c: int) -> int
    decreases ends.len() - c,
{
    if c >= ends.len() {
        ends.len() as int
    } else if ends[c] <= s {
        c
    } else {
        first_free(ends, s, c + 1)
    }
}

/// The last row of each column of the cluster of event `i`, once the events
/// of the cluster up to `i` are placed: each event goes into the first
/// column that is free at its first row, or into a new column.
pub open spec fn ends_after(v: Seq<VisibleEvent>, i: int) -> Seq<u16>
    decreases i,
{
    let prev = if opens_cluster(v, i) { Seq::empty() } else { ends_after(v, i - 1) };
    let c = first_free(prev, v[i].start_row, 0);
    if c < prev.len() {
        prev.update(c, v[i].end_row)
    } else {
        prev.push(v[i].end_row)
    }
}

/// The last rows of the columns of the cluster of event `i` just before it is placed.
pub open spec fn ends_before(v: Seq<VisibleEvent>, i: int) -> Seq<u16> {
    if opens_cluster(v, i) {
        Seq::empty()
    } else {
        ends_after(v, i - 1)
    }
}

/// The column event `i` is placed in.
pub open spec fn column(v: Seq<VisibleEvent>, i: int) -> int {
    first_free(ends_before(v, i), v[i].start_row, 0)
}

/// The last event of the cluster of event `i`.
pub open spec fn cluster_last(v: Seq<VisibleEvent>, i: int) -> int
    decreases v.len() - i,
{
    if i + 1 >= v.len() || opens_cluster(v, i + 1) {
        i
    } else {
        cluster_last(v, i + 1)
    }
}

/// The number of columns of the cluster of event `i`.
pub open spec fn total_columns(v: Seq<VisibleEvent>, i: int) -> int {
    ends_after(v, cluster_last(v, i)).len() as int
}

/// The width of each column of the cluster of event `i`: the area's width
/// shared among the columns (the count taken as a `u16`), at least one cell.
pub open spec fn column_width(v: Seq<VisibleEvent>, area: Rect, i: int) -> u16 {
    let t = total_columns(v, i) as u16;
    let w = (area.width / t) as u16;
    if w >= 1 { w } else { 1 }
}

/// The horizontal offset of event `i` in the area, its column taken as a `u16`.
pub open spec fn column_offset(v: Seq<VisibleEvent>, area: Rect, i: int) -> int {
    (column(v, i) as u16) as int * column_width(v, area, i) as int
}

/// The rectangle of event `i` can be computed in `u16` cells.
pub open spec fn slot_fits(v: Seq<VisibleEvent>, area: Rect, i: int) -> bool {
    &&& (total_columns(v, i) as u16) != 0
    &&& column_offset(v, area, i) <= u16::MAX
    &&& area.x as int + column_offset(v, area, i) <= u16::MAX
    &&& area.y as int + v[i].start_row as int <= u16::MAX
}

/// Every rectangle of the layout can be computed in `u16` cells.
pub open spec fn layout_fits(v: Seq<VisibleEvent>, area: Rect) -> bool {
    forall|i: int| 0 <= i < v.len() ==> slot_fits(v, area, i)
}

/// Event `i` with its rectangle: its column of its cluster, and its rows.
pub open spec fn rendered_at(v: Seq<VisibleEvent>, area: Rect, i: int) -> RenderedEvent {
    RenderedEvent {
        index: v[i].index,
        rect: Rect {
            x: (area.x + column_offset(v, area, i)) as u16,
            y: (area.y + v[i].start_row) as u16,
            width: column_width(v, area, i),
            height: (v[i].end_row - v[i].start_row) as u16,
        },
    }
}

/// The rectangles of the events `v`, laid out in `area`.
pub open spec fn layout(v: Seq<VisibleEvent>, area: Rect) -> Seq<RenderedEvent> {
    Seq::new(v.len(), |i: int| rendered_at(v, area, i))
}

proof fn lemma_first_free(ends: Seq<u16>, s: u16, c0: int, c: int)
    requires
        0 <= c0 <= c <= ends.len(),
        forall|k: int| c0 <= k < c ==> ends[k] > s,
        c == ends.len() || ends[c] <= s,
    ensures
        first_free(ends, s, c0) == c,
    decreases c - c0,
{
    if c0 < c {
        lemma_first_free(ends, s, c0 + 1, c);
    }
}

proof fn lemma_cluster_last(v: Seq<VisibleEvent>, end: int, j: int)
    requires
        0 <= j < end <= v.len(),
        forall|k: int| j < k < end ==> !opens_cluster(v, k),
        end == v.len() || opens_cluster(v, end),
    ensures
        cluster_last(v, j) == end - 1,
    decreases end - j,
{
    if j + 1 < end {
        lemma_cluster_last(v, end, j + 1);
    }
}

fn layout_rows(v: &Vec<VisibleEvent>, area: &Rect) -> (r: Option<Vec<RenderedEvent>>)
    requires
        forall|i: int| 0 <= i < v@.len() ==> (#[trigger] v@[i]).start_row < v@[i].end_row,
    ensures
        match r {
            Some(rs) => layout_fits(v@, *area) && rs@ == layout(v@, *area),
            None => !layout_fits(v@, *area),
        },
{
    let n = v.len();
    let mut out: Vec<RenderedEvent> = Vec::new();
    let mut start: usize = 0;
    while start < n
        invariant
            start <= n == v@.len(),
            forall|i: int| 0 <= i < v@.len() ==> (#[trigger] v@[i]).start_row < v@[i].end_row,
            start < n ==> opens_cluster(v@, start as int),
            out@ =~= layout(v@, *area).take(start as int),
            forall|i: int| 0 <= i < start ==> slot_fits(v@, *area, i),
        decreases n - start,
    {
        // The cluster opened by `start` runs up to, not including, `end`.
        let mut end = start + 1;
        let mut reach_row: u16 = v[start].end_row;
        while end < n && v[end].start_row < reach_row
            invariant
                start < end <= n == v@.len(),
                reach_row == reach(v@, end - 1),
                forall|k: int| start < k < end ==> !opens_cluster(v@, k),
            decreases n - end,
        {
            if v[end].end_row > reach_row {
                reach_row = v[end].end_row;
            }
            end = end + 1;
        }
        // Place the events of the cluster in columns.
        let mut ends: Vec<u16> = Vec::new();
        let mut cols: Vec<usize> = Vec::new();
        let mut j = start;
        while j < end
            invariant
                start <= j <= end <= n == v@.len(),
                start < n ==> opens_cluster(v@, start as int),
                forall|k: int| start < k < end ==> !opens_cluster(v@, k),
                cols@.len() == j - start,
                j == start ==> ends@ == Seq::<u16>::empty(),
                j > start ==> ends@ == ends_after(v@, j - 1),
                forall|k: int| 0 <= k < cols@.len() ==> cols@[k] == column(v@, start + k),
            decreases end - j,
        {
            let s = v[j].start_row;
            proof {
                assert(ends@ == ends_before(v@, j as int));
            }
            let mut c: usize = 0;
            while c < ends.len() && ends[c] > s
                invariant
                    c <= ends@.len(),
                    forall|k: int| 0 <= k < c ==> ends@[k] > s,
                decreases ends.len() - c,
            {
                c = c + 1;
            }
            proof {
                lemma_first_free(ends@, s, 0, c as int);
            }
            if c < ends.len() {
                ends.set(c, v[j].end_row);
            } else {
                ends.push(v[j].end_row);
            }
            cols.push(c);
            j = j + 1;
        }
        proof {
            assert forall|k: int| start <= k < end implies cluster_last(v@, k) == end - 1 by {
                lemma_cluster_last(v@, end as int, k);
            }
        }
        let total = #[verifier::truncate] (ends.len() as u16);
        if total == 0 {
            proof {
                assert(!slot_fits(v@, *area, start as int));
            }
            return None;
        }
        let w0 = area.width / total;
        let width = if w0 >= 1 { w0 } else { 1 };
        let mut j = start;
        while j < end
            invariant
                start <= j <= end <= n == v@.len(),
                forall|i: int| 0 <= i < v@.len() ==> (#[trigger] v@[i]).start_row < v@[i].end_row,
                cols@.len() == end - start,
                forall|k: int| 0 <= k < cols@.len() ==> cols@[k] == column(v@, start + k),
                forall|k: int| start <= k < end ==> cluster_last(v@, k) == end - 1,
                ends@ == ends_after(v@, end - 1),
                total == #[verifier::truncate] (ends@.len() as u16),
                total != 0,
                width == column_width(v@, *area, start as int),
                out@ =~= layout(v@, *area).take(j as int),
                forall|i: int| 0 <= i < j ==> slot_fits(v@, *area, i),
            decreases end - j,
        {
            proof {
                assert(column_width(v@, *area, j as int) == width);
            }
            let col = #[verifier::truncate] (cols[j - start] as u16);
            proof {
                assert(col as u64 * width as u64 <= 65535 * 65535) by (nonlinear_arith)
                    requires
                        col <= 65535,
                        width <= 65535,
                ;
            }
            let offset = col as u64 * width as u64;
            if offset > 65535 || area.x as u64 + offset > 65535 || area.y as u64 + v[j].start_row as u64
                > 65535 {
                proof {
                    assert(!slot_fits(v@, *area, j as int));
                }
                return None;
            }
            let rect = Rect {
                x: area.x + offset as u16,
                y: area.y + v[j].start_row,
                width,
                height: v[j].end_row - v[j].start_row,
            };
            out.push(RenderedEvent { index: v[j].index, rect });
            proof {
                assert(rendered_at(v@, *area, j as int) == RenderedEvent { index: v[j as int].index, rect });
            }
            j = j + 1;
        }
        start = end;
    }
    proof {
        assert(out@ =~= layout(v@, *area));
    }
    Some(out)
}

/// Lays out the events that show in the viewport from `viewport_start` to
/// `viewport_end` (in nanoseconds since the epoch) in `column_area`: each
/// covers its rows, and events that overlap in rows stand side by side in
/// columns of equal width. `None` when a rectangle would not fit in `u16`
/// cells.
pub fn calculate_viewport_rect(
    events: &[EventNode],
    viewport_start: i128,
    viewport_end: i128,
    column_area: &Rect,
) -> (r: Option<Vec<RenderedEvent>>)
    requires
        valid_instant(viewport_start as int),
        valid_instant(viewport_end as int),
        forall|i: int| 0 <= i < events@.len() ==> (#[trigger] events@[i]).wf(),
    ensures
        exists|v: Seq<VisibleEvent>|
            {
                &&& stable_sorted(
                    v,
                    visible_events(events@, viewport_start as int, viewport_end as int),
                    row_key(),
                )
                &&& match r {
                    Some(rs) => layout_fits(v, *column_area) && rs@ == layout(v, *column_area),
                    None => !layout_fits(v, *column_area),
                }
            },
        whole_rows_view(viewport_start as int, viewport_end as int) ==> (r matches Some(rs) ==> forall|i: int|
            0 <= i < rs@.len() ==> (#[trigger] rs@[i]).rect.y + rs@[i].rect.height <= column_area.y + view_rows(
                viewport_start as int,
                viewport_end as int,
            )),
{
    let visible = visible_rows(events, viewport_start, viewport_end);
    let sorted = sort_rows(visible);
    proof {
        lemma_visible_rows_nonempty(events@, viewport_start as int, viewport_end as int);
        assert forall|i: int| 0 <= i < sorted@.len() implies (#[trigger] sorted@[i]).start_row
            < sorted@[i].end_row by {
            lemma_stable_sorted_contains(sorted@, visible@, row_key(), i);
        }
    }
    let r = layout_rows(&sorted, column_area);
    proof {
        if whole_rows_view(viewport_start as int, viewport_end as int) && r is Some {
            lemma_rendered_within_view(events@, viewport_start as int, viewport_end as int, *column_area, sorted@);
        }
    }
    r
}


/// Two rectangles share no cell.
pub open spec fn rects_disjoint(a: Rect, b: Rect) -> bool {
    ||| a.x + a.width <= b.x
    ||| b.x + b.width <= a.x
    ||| a.y + a.height <= b.y
    ||| b.y + b.height <= a.y
}

/// No event strictly after `i` up to `k` opens a cluster.
pub open spec fn same_cluster(v: Seq<VisibleEvent>, i: int, k: int) -> bool {
    forall|m: int| i < m <= k ==> !opens_cluster(v, m)
}

proof fn lemma_first_free_bounds(ends: Seq<u16>, s: u16, c: int)
    requires
        0 <= c <= ends.len(),
    ensures
        c <= first_free(ends, s, c) <= ends.len(),
        first_free(ends, s, c) < ends.len() ==> ends[first_free(ends, s, c)] <= s,
    decreases ends.len() - c,
{
    if c < ends.len() && ends[c] > s {
        lemma_first_free_bounds(ends, s, c + 1);
    }
}

proof fn lemma_reach_covers(v: Seq<VisibleEvent>, i: int, k: int)
    requires
        0 <= i <= k < v.len(),
        same_cluster(v, i, k),
    ensures
        reach(v, k) >= v[i].end_row,
    decreases k - i,
{
    if k > i {
        lemma_reach_covers(v, i, k - 1);
        assert(!opens_cluster(v, k));
    }
}

proof fn lemma_start_rows_sorted(v: Seq<VisibleEvent>, i: int, j: int)
    requires
        sorted_by_key(v, row_key()),
        0 <= i <= j < v.len(),
    ensures
        v[i].start_row <= v[j].start_row,
{
    if i < j {
        assert((row_key())(v[i]) <= (row_key())(v[j]));
    }
}

/// An event ends no later than the first row of any event after it in a
/// later cluster.
proof fn lemma_later_cluster(v: Seq<VisibleEvent>, i: int, o: int)
    requires
        sorted_by_key(v, row_key()),
        0 <= i < o < v.len(),
        opens_cluster(v, o),
    ensures
        v[i].end_row <= v[o].start_row,
    decreases o - i,
{
    if exists|o2: int| i < o2 < o && opens_cluster(v, o2) {
        let o2 = choose|o2: int| i < o2 < o && opens_cluster(v, o2);
        lemma_later_cluster(v, i, o2);
        lemma_start_rows_sorted(v, o2, o);
    } else {
        lemma_reach_covers(v, i, o - 1);
    }
}

/// Within a cluster, each placed event ends no later than the recorded last
/// row of its column.
proof fn lemma_columns_cover(v: Seq<VisibleEvent>, k: int)
    requires
        0 <= k < v.len(),
        forall|m: int| 0 <= m < v.len() ==> (#[trigger] v[m]).start_row < v[m].end_row,
    ensures
        forall|m: int|
            0 <= m <= k && same_cluster(v, m, k) ==> column(v, m) < ends_after(v, k).len()
                && v[m].end_row <= ends_after(v, k)[column(v, m)],
    decreases k,
{
    let prev = ends_before(v, k);
    let s = v[k].start_row;
    let c = first_free(prev, s, 0);
    lemma_first_free_bounds(prev, s, 0);
    let now = ends_after(v, k);
    assert(now == if c < prev.len() { prev.update(c, v[k].end_row) } else { prev.push(v[k].end_row) });
    assert(column(v, k) == c);
    if !opens_cluster(v, k) {
        lemma_columns_cover(v, k - 1);
        assert(prev == ends_after(v, k - 1));
        assert forall|m: int|
            0 <= m <= k && same_cluster(v, m, k) implies column(v, m) < now.len()
                && v[m].end_row <= now[column(v, m)] by {
            if m < k {
                assert(same_cluster(v, m, k - 1));
                let cm = column(v, m);
                lemma_first_free_bounds(ends_before(v, m), v[m].start_row, 0);
                assert(cm < prev.len() && v[m].end_row <= prev[cm]);
                if cm == c {
                    assert(prev[c] <= s);
                    assert(now[c] == v[k].end_row);
                } else if c < prev.len() {
                    assert(now == prev.update(c, v[k].end_row));
                    assert(now[cm] == prev[cm]);
                } else {
                    assert(now == prev.push(v[k].end_row));
                    assert(now[cm] == prev[cm]);
                }
            }
        }
    } else {
        assert(prev.len() == 0);
        assert forall|m: int|
            0 <= m <= k && same_cluster(v, m, k) implies column(v, m) < now.len()
                && v[m].end_row <= now[column(v, m)] by {
            if m < k {
                assert(!opens_cluster(v, k));
            }
        }
    }
}

/// The ends of a cluster only grow in number as its events are placed.
proof fn lemma_ends_grow(v: Seq<VisibleEvent>, k: int, k2: int)
    requires
        0 <= k <= k2 < v.len(),
        same_cluster(v, k, k2),
    ensures
        ends_after(v, k).len() <= ends_after(v, k2).len(),
    decreases k2 - k,
{
    if k < k2 {
        lemma_ends_grow(v, k, k2 - 1);
        assert(!opens_cluster(v, k2));
        lemma_first_free_bounds(ends_after(v, k2 - 1), v[k2].start_row, 0);
    }
}

proof fn lemma_cluster_last_bounds(v: Seq<VisibleEvent>, k: int)
    requires
        0 <= k < v.len(),
    ensures
        k <= cluster_last(v, k) < v.len(),
        same_cluster(v, k, cluster_last(v, k)),
        cluster_last(v, k) + 1 == v.len() || opens_cluster(v, cluster_last(v, k) + 1),
        forall|m: int| k <= m <= cluster_last(v, k) ==> cluster_last(v, m) == cluster_last(v, k),
    decreases v.len() - k,
{
    if !(k + 1 >= v.len() || opens_cluster(v, k + 1)) {
        lemma_cluster_last_bounds(v, k + 1);
    }
}

/// Every event lies in a column its cluster has.
proof fn lemma_column_in_range(v: Seq<VisibleEvent>, k: int)
    requires
        0 <= k < v.len(),
        forall|m: int| 0 <= m < v.len() ==> (#[trigger] v[m]).start_row < v[m].end_row,
    ensures
        0 <= column(v, k) < total_columns(v, k),
{
    lemma_first_free_bounds(ends_before(v, k), v[k].start_row, 0);
    lemma_columns_cover(v, k);
    lemma_cluster_last_bounds(v, k);
    lemma_ends_grow(v, k, cluster_last(v, k));
}

/// Events are never drawn over each other: of the events that show in a
/// viewport, laid out in order of first row, any two get rectangles that
/// share no cell, provided no cluster needs more columns than a `u16` counts.
pub proof fn lemma_rendered_events_disjoint(
    events: Seq<EventNode>,
    vs: int,
    ve: int,
    area: Rect,
    v: Seq<VisibleEvent>,
    i: int,
    j: int,
)
    requires
        stable_sorted(v, visible_events(events, vs, ve), row_key()),
        layout_fits(v, area),
        forall|k: int| 0 <= k < v.len() ==> total_columns(v, k) <= u16::MAX,
        0 <= i < v.len(),
        0 <= j < v.len(),
        i != j,
    ensures
        rects_disjoint(layout(v, area)[i].rect, layout(v, area)[j].rect),
{
    lemma_visible_rows_nonempty(events, vs, ve);
    assert forall|m: int| 0 <= m < v.len() implies (#[trigger] v[m]).start_row < v[m].end_row by {
        lemma_stable_sorted_contains(v, visible_events(events, vs, ve), row_key(), m);
    }
    let (a, b) = if i < j { (i, j) } else { (j, i) };
    let ra = layout(v, area)[a].rect;
    let rb = layout(v, area)[b].rect;
    assert(slot_fits(v, area, a));
    assert(slot_fits(v, area, b));
    if !same_cluster(v, a, b) {
        let o = choose|o: int| a < o <= b && opens_cluster(v, o);
        lemma_later_cluster(v, a, o);
        lemma_start_rows_sorted(v, o, b);
        assert(ra.y + ra.height <= rb.y);
    } else {
        lemma_cluster_last_bounds(v, a);
        lemma_columns_cover(v, b - 1);
        assert(same_cluster(v, a, b - 1));
        assert(!opens_cluster(v, b));
        lemma_first_free_bounds(ends_before(v, b), v[b].start_row, 0);
        if column(v, a) == column(v, b) {
            assert(ra.y + ra.height <= rb.y);
        } else {
            lemma_column_in_range(v, a);
            lemma_column_in_range(v, b);
            if b <= cluster_last(v, a) {
                assert(cluster_last(v, b) == cluster_last(v, a));
            } else {
                assert(opens_cluster(v, cluster_last(v, a) + 1));
                assert(false);
            }
            let w = column_width(v, area, a);
            let ca = column(v, a);
            let cb = column(v, b);
            assert(column_width(v, area, b) == w);
            assert(ca as u16 == ca);
            assert(cb as u16 == cb);
            assert(ra.x == area.x + ca * w);
            assert(rb.x == area.x + cb * w);
            assert(ra.width == w && rb.width == w);
            if ca < cb {
                assert(ca * w + w <= cb * w) by (nonlinear_arith)
                    requires
                        ca < cb,
                        w >= 0,
                ;
            } else {
                assert(cb * w + w <= ca * w) by (nonlinear_arith)
                    requires
                        cb < ca,
                        w >= 0,
                ;
            }
        }
    }
}


/// The days shown: `num_days` days from `start_date`. An error when one of
/// them is not representable.
pub fn target_dates(start_date: i32, num_days: i64) -> (r: Result<Vec<i32>, Fault>)
    ensures
        ({
            let all_valid = num_days <= 0 || (valid_date(start_date as int) && valid_date(
                start_date + num_days - 1,
            ));
            match r {
                Ok(v) => all_valid && v@.len() == (if num_days > 0 { num_days as int } else { 0 })
                    && forall|i: int| 0 <= i < v@.len() ==> #[trigger] v@[i] == start_date + i,
                Err(f) => f == Fault::DateOutOfRange && !all_valid,
            }
        }),
{
    let mut v: Vec<i32> = Vec::new();
    let mut i: i64 = 0;
    while i < num_days
        invariant
            0 <= i,
            num_days > 0 ==> i <= num_days,
            v@.len() == i,
            num_days <= 0 ==> i == 0,
            i == 0 || valid_date(start_date as int) && valid_date(start_date + i - 1),
            forall|k: int| 0 <= k < i ==> #[trigger] v@[k] == start_date + k,
        decreases num_days - i,
    {
        let d = start_date as i64 + i;
        if d < MIN_DATE as i64 || d > MAX_DATE as i64 {
            return Err(Fault::DateOutOfRange);
        }
        let ghost prev = v@;
        v.push(d as i32);
        proof {
            assert forall|k: int| 0 <= k < i + 1 implies #[trigger] v@[k] == start_date + k by {
                if k < i {
                    assert(v@[k] == prev[k]);
                }
            }
        }
        i = i + 1;
    }
    Ok(v)
}

/// The column headers: "Time", then each day's weekday.
pub fn header_labels(dates: &Vec<i32>) -> (r: Vec<String>)
    requires
        forall|i: int| 0 <= i < dates@.len() ==> valid_date(#[trigger] dates@[i] as int),
    ensures
        r@.len() == dates@.len() + 1,
        r@[0]@ == "Time"@,
        forall|i: int| 0 <= i < dates@.len() ==> (#[trigger] r@[i + 1])@ == formatted_date(dates@[i], DAY_FORMAT@),
        forall|i: int| 0 <= i < dates@.len() ==> (#[trigger] r@[i + 1])@ == short_weekday(dates@[i] as int),
{
    let mut r: Vec<String> = Vec::new();
    r.push(String::from_str("Time"));
    let mut i: usize = 0;
    while i < dates.len()
        invariant
            i <= dates@.len(),
            forall|k: int| 0 <= k < dates@.len() ==> valid_date(#[trigger] dates@[k] as int),
            r@.len() == i + 1,
            r@[0]@ == "Time"@,
            forall|k: int| 0 <= k < i ==> (#[trigger] r@[k + 1])@ == formatted_date(dates@[k], DAY_FORMAT@),
            forall|k: int| 0 <= k < i ==> (#[trigger] r@[k + 1])@ == short_weekday(dates@[k] as int),
        decreases dates.len() - i,
    {
        r.push(format_day(dates[i]));
        i = i + 1;
    }
    r
}

/// The decimal digits of `n`.
pub open spec fn decimal(n: nat) -> Seq<char>
    decreases n,
{
    let digit = seq!['0', '1', '2', '3', '4', '5', '6', '7', '8', '9'][(n % 10) as int];
    if n < 10 {
        seq![digit]
    } else {
        decimal(n / 10).push(digit)
    }
}

/// `n` in decimal, at least two digits (`{:02}`).
pub open spec fn two_digits(n: nat) -> Seq<char> {
    if n < 10 {
        seq!['0'] + decimal(n)
    } else {
        decimal(n)
    }
}

/// `format!("{:02}:00", hour)`: `std`'s formatting writes a number in decimal,
/// padded with zeros to the width given.
#[verifier::external_body]
fn hour_label(hour: u16) -> (r: String)
    ensures
        r@ == two_digits(hour as nat) + seq![':', '0', '0'],
{
    format!("{:02}:00", hour)
}

/// `format!("{:02}:30", hour)`: `std`'s formatting writes a number in decimal,
/// padded with zeros to the width given.
#[verifier::external_body]
fn half_hour_label(hour: u16) -> (r: String)
    ensures
        r@ == two_digits(hour as nat) + seq![':', '3', '0'],
{
    format!("{:02}:30", hour)
}

/// The label of the gutter row at `minute` minutes after midnight: the
/// hour on the hour, the half hour on the half hour, nothing otherwise.
pub open spec fn gutter_label(minute: int) -> Seq<char> {
    let hour = (minute / 60) as nat;
    let row_within_hour = (minute % 60) / (RESOLUTION_IN_MINS as int);
    if row_within_hour == 0 {
        two_digits(hour) + seq![':', '0', '0']
    } else if row_within_hour == 2 {
        two_digits(hour) + seq![':', '3', '0']
    } else {
        Seq::empty()
    }
}

/// The time gutter: a label for each row of the view, from `scroll_offset`
/// minutes after midnight for `viewport_mins` minutes. An error when the
/// end of the view does not fit in `u16`.
pub fn time_gutter(scroll_offset: u16, viewport_mins: u16) -> (r: Result<Vec<String>, Fault>)
    ensures
        match r {
            Ok(v) => scroll_offset + viewport_mins <= u16::MAX && v@.len() == (viewport_mins + 14) / 15
                && forall|i: int| 0 <= i < v@.len() ==> (#[trigger] v@[i])@ == gutter_label(scroll_offset + 15 * i),
            Err(f) => f == Fault::Overflow && scroll_offset + viewport_mins > u16::MAX,
        },
{
    if scroll_offset as u32 + viewport_mins as u32 > 65535 {
        return Err(Fault::Overflow);
    }
    let start_mins = scroll_offset as u32;
    let end_mins = scroll_offset as u32 + viewport_mins as u32;
    let mut time_lines: Vec<String> = Vec::new();
    let mut row_time: u32 = start_mins;
    while row_time < end_mins
        invariant
            start_mins <= row_time,
            end_mins <= 65535,
            row_time <= end_mins + 14,
            (row_time - start_mins) % 15 == 0,
            time_lines@.len() == (row_time - start_mins) / 15,
            forall|i: int| 0 <= i < time_lines@.len() ==> (#[trigger] time_lines@[i])@ == gutter_label(start_mins + 15 * i),
        decreases end_mins + 15 - row_time,
    {
        let hour = (row_time / 60) as u16;
        let row_within_hour = (row_time % 60) / RESOLUTION_IN_MINS as u32;
        if row_within_hour == 0 {
            time_lines.push(hour_label(hour));
        } else if row_within_hour == 2 {
            time_lines.push(half_hour_label(hour));
        } else {
            time_lines.push(String::new());
        }
        row_time = row_time + RESOLUTION_IN_MINS as u32;
    }
    proof {
        assert(time_lines@.len() == (viewport_mins + 14) / 15) by (nonlinear_arith)
            requires
                time_lines@.len() == (row_time - start_mins) / 15,
                (row_time - start_mins) % 15 == 0,
                end_mins <= row_time <= end_mins + 14,
                start_mins <= row_time,
                end_mins == start_mins + viewport_mins,
        ;
    }
    Ok(time_lines)
}

/// The viewport from `start_mins` to `end_mins` minutes after the moment
/// `midnight`, or `TimeOutOfRange` when a bound is not representable.
pub open spec fn viewport_at(midnight: int, start_mins: int, end_mins: int) -> Result<(i128, i128), Fault> {
    let vs = midnight + start_mins * NANOS_PER_MINUTE;
    let ve = midnight + end_mins * NANOS_PER_MINUTE;
    if valid_instant(vs) && valid_instant(ve) {
        Ok((vs as i128, ve as i128))
    } else {
        Err(Fault::TimeOutOfRange)
    }
}

/// The viewport of `day`, given the zone's answer `z` for its midnight.
pub open spec fn viewport_result(day: int, z: LocalOffsets, start_mins: int, end_mins: int) -> Result<(i128, i128), Fault> {
    match midnight_result(day, z) {
        Ok(m) => viewport_at(m as int, start_mins, end_mins),
        Err(f) => Err(f),
    }
}

/// The viewport from `start_mins` to `end_mins` minutes after the moment
/// `midnight` (see `viewport_at`).
pub fn viewport_from_midnight(midnight: i128, start_mins: u16, end_mins: u16) -> (r: Result<(i128, i128), Fault>)
    requires
        valid_instant(midnight as int),
    ensures
        r == viewport_at(midnight as int, start_mins as int, end_mins as int),
{
    let viewport_start = midnight + start_mins as i128 * NANOS_PER_MINUTE;
    let viewport_end = midnight + end_mins as i128 * NANOS_PER_MINUTE;
    if viewport_start > MAX_INSTANT || viewport_end > MAX_INSTANT || viewport_start < MIN_INSTANT
        || viewport_end < MIN_INSTANT {
        return Err(Fault::TimeOutOfRange);
    }
    Ok((viewport_start, viewport_end))
}

/// The viewport of a day: the moments from `start_mins` to `end_mins`
/// minutes after the local midnight of `day`, whichever answer the machine's
/// zone gives for that midnight (see `viewport_result`). An error when the
/// zone names no single moment for it, or a bound is not representable.
pub fn day_viewport(day: i32, start_mins: u16, end_mins: u16) -> (r: Result<(i128, i128), Fault>)
    requires
        valid_date(day as int),
    ensures
        exists|z: LocalOffsets|
            zone_answer(z) && r == #[trigger] viewport_result(day as int, z, start_mins as int, end_mins as int),
        r matches Ok(p) ==> exists|m: int|
            #![trigger local_midnight(m, day as int)]
            local_midnight(m, day as int) && p.0 == m + start_mins * NANOS_PER_MINUTE
                && p.1 == m + end_mins * NANOS_PER_MINUTE && valid_instant(p.0 as int)
                && valid_instant(p.1 as int),
        r matches Err(f) ==> f == Fault::NoSuchLocalTime || f == Fault::TimeOutOfRange,
        r matches Err(Fault::TimeOutOfRange) ==> exists|m: int|
            #![trigger local_midnight(m, day as int)]
            local_midnight(m, day as int) && !(valid_instant(m + start_mins * NANOS_PER_MINUTE)
                && valid_instant(m + end_mins * NANOS_PER_MINUTE)),
{
    let mr = midnight_of(day);
    let ghost z = choose|z: LocalOffsets| zone_answer(z) && mr == #[trigger] midnight_result(day as int, z);
    let midnight = match mr {
        Ok(m) => m,
        Err(f) => {
            proof {
                assert(viewport_result(day as int, z, start_mins as int, end_mins as int) == Err::<(i128, i128), Fault>(f));
            }
            return Err(f);
        },
    };
    let r = viewport_from_midnight(midnight, start_mins, end_mins);
    proof {
        assert(viewport_result(day as int, z, start_mins as int, end_mins as int) == r);
    }
    r
}

} // verus!
