use j_gcal::app::Fault;
use j_gcal::event::EventNode;
use j_gcal::view::{
    calculate_viewport_rect, day_viewport, header_labels, target_dates, time_gutter, Rect,
    RenderedEvent,
};

const T0: i128 = 1_704_067_200_000_000_000;
const MINUTE: i128 = 60_000_000_000;
const DAY0: i32 = 19_723;

fn node(id: &str, start_min: i128, end_min: i128) -> EventNode {
    EventNode {
        id: id.to_string(),
        summary: id.to_string(),
        description: None,
        start_time: T0 + start_min * MINUTE,
        end_time: T0 + end_min * MINUTE,
    }
}

fn area() -> Rect {
    Rect { x: 10, y: 2, width: 30, height: 24 }
}

fn cells(r: &RenderedEvent) -> (usize, u16, u16, u16, u16) {
    (r.index, r.rect.x, r.rect.y, r.rect.width, r.rect.height)
}

fn overlaps(a: &Rect, b: &Rect) -> bool {
    a.x < b.x + b.width && b.x < a.x + a.width && a.y < b.y + b.height && b.y < a.y + a.height
}

#[test]
fn overlapping_events_stand_side_by_side() {
    let events = vec![node("c", 120, 150), node("b", 30, 90), node("a", 0, 60)];
    let r = calculate_viewport_rect(&events, T0, T0 + 360 * MINUTE, &area()).expect("fits");
    let got: Vec<_> = r.iter().map(cells).collect();
    assert_eq!(got, vec![(2, 10, 2, 15, 4), (1, 25, 4, 15, 4), (0, 10, 10, 30, 2)]);
}

#[test]
fn a_free_column_is_reused_within_a_cluster() {
    let events = vec![node("long", 0, 120), node("first", 0, 30), node("second", 30, 60)];
    let r = calculate_viewport_rect(&events, T0, T0 + 360 * MINUTE, &area()).expect("fits");
    let got: Vec<_> = r.iter().map(cells).collect();
    assert_eq!(got, vec![(0, 10, 2, 15, 8), (1, 25, 2, 15, 2), (2, 25, 4, 15, 2)]);
}

#[test]
fn events_outside_the_viewport_are_left_out_and_others_clamped() {
    let events = vec![
        node("before", -120, -60),
        node("across", -30, 30),
        node("after", 360, 400),
        node("ends_at_start", -60, 0),
    ];
    let r = calculate_viewport_rect(&events, T0, T0 + 360 * MINUTE, &area()).expect("fits");
    let got: Vec<_> = r.iter().map(cells).collect();
    assert_eq!(got, vec![(1, 10, 2, 30, 2)]);
}

#[test]
fn a_short_event_takes_at_least_one_row() {
    let events = vec![node("short", 20, 25)];
    let r = calculate_viewport_rect(&events, T0, T0 + 360 * MINUTE, &area()).expect("fits");
    let got: Vec<_> = r.iter().map(cells).collect();
    assert_eq!(got, vec![(0, 10, 3, 30, 1)]);
}

#[test]
fn no_events_give_no_rectangles() {
    let r = calculate_viewport_rect(&[], T0, T0 + 360 * MINUTE, &area()).expect("fits");
    assert!(r.is_empty());
}

#[test]
fn narrow_columns_are_at_least_one_cell_wide() {
    let events = vec![node("a", 0, 60), node("b", 0, 60), node("c", 0, 60)];
    let narrow = Rect { x: 0, y: 0, width: 2, height: 10 };
    let r = calculate_viewport_rect(&events, T0, T0 + 360 * MINUTE, &narrow).expect("fits");
    let widths: Vec<u16> = r.iter().map(|e| e.rect.width).collect();
    let xs: Vec<u16> = r.iter().map(|e| e.rect.x).collect();
    assert_eq!(widths, vec![1, 1, 1]);
    assert_eq!(xs, vec![0, 1, 2]);
}

#[test]
fn rectangles_that_do_not_fit_in_cells_give_none() {
    let events = vec![node("a", 30, 60)];
    let far = Rect { x: 0, y: 65_534, width: 10, height: 10 };
    assert!(calculate_viewport_rect(&events, T0, T0 + 360 * MINUTE, &far).is_none());
    let near = Rect { x: 0, y: 65_533, width: 10, height: 10 };
    let r = calculate_viewport_rect(&events, T0, T0 + 360 * MINUTE, &near).expect("fits");
    assert_eq!(r[0].rect.y, 65_535);
}

#[test]
fn rendered_events_never_overlap() {
    let events = vec![
        node("a", 0, 90),
        node("b", 15, 45),
        node("c", 30, 120),
        node("d", 45, 60),
        node("e", 100, 200),
        node("f", 210, 240),
        node("g", 215, 230),
    ];
    let r = calculate_viewport_rect(&events, T0, T0 + 360 * MINUTE, &area()).expect("fits");
    assert_eq!(r.len(), 7);
    for i in 0..r.len() {
        for j in 0..r.len() {
            if i != j {
                assert!(!overlaps(&r[i].rect, &r[j].rect), "{:?} and {:?}", r[i], r[j]);
            }
        }
    }
}

#[test]
fn target_dates_lists_the_days_shown() {
    assert_eq!(target_dates(DAY0, 3), Ok(vec![DAY0, DAY0 + 1, DAY0 + 2]));
    assert_eq!(target_dates(DAY0, 0), Ok(vec![]));
    assert_eq!(target_dates(j_gcal::time::MAX_DATE, 2), Err(Fault::DateOutOfRange));
}

#[test]
fn headers_name_the_weekdays() {
    let labels = header_labels(&vec![0, 1, DAY0]);
    assert_eq!(labels, vec!["Time", "Thu", "Fri", "Mon"]);
}

#[test]
fn the_gutter_labels_hours_and_half_hours() {
    let g = time_gutter(420, 60).expect("fits");
    assert_eq!(g, vec!["07:00", "", "07:30", ""]);
    let g = time_gutter(1380, 45).expect("fits");
    assert_eq!(g, vec!["23:00", "", "23:30"]);
    assert_eq!(time_gutter(0, 0), Ok(vec![]));
    assert_eq!(time_gutter(65_535, 1), Err(Fault::Overflow));
}

#[test]
fn a_day_viewport_spans_the_minutes_asked() {
    let (s, e) = day_viewport(DAY0, 420, 780).expect("a plain midnight");
    assert_eq!(e - s, 360 * MINUTE);
    let local = j_gcal::clock::local_time_at(s - 420 * MINUTE);
    assert_eq!(s - 420 * MINUTE + local.offset as i128 * 1_000_000_000, T0);
}
