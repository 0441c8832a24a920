//! Calendar events as the interface holds them, and the messages that
//! background work sends back to the interface.
use vstd::prelude::*;
use crate::sort::{lemma_stable_insert, lemma_stable_sorted_empty, stable_sorted};
use crate::time::valid_instant;

verus! {

/// An event as the calendar service returns it: the fields the interface
/// reads, with each moment in nanoseconds since the epoch. A moment is absent
/// when the event has none (an all-day event has a date and no moment).
pub struct CalendarEvent {
    pub id: Option<String>,
    pub summary: Option<String>,
    pub description: Option<String>,
    pub start_time: Option<i128>,
    pub end_time: Option<i128>,
}

/// An event placed on the calendar grid.
#[derive(Debug)]
pub struct EventNode {
    pub id: String,
    pub summary: String,
    pub description: Option<String>,
    /// Nanoseconds since the epoch.
    pub start_time: i128,
    /// Nanoseconds since the epoch.
    pub end_time: i128,
}

/// The abstract value of an `EventNode`.
pub struct EventNodeView {
    pub id: Seq<char>,
    pub summary: Seq<char>,
    pub description: Option<Seq<char>>,
    pub start_time: int,
    pub end_time: int,
}

impl View for EventNode {
    type V = EventNodeView;

    open spec fn view(&self) -> EventNodeView {
        EventNodeView {
            id: self.id@,
            summary: self.summary@,
            description: match self.description {
                Some(d) => Some(d@),
                None => None,
            },
            start_time: self.start_time as int,
            end_time: self.end_time as int,
        }
    }
}

impl EventNode {
    /// Both moments are representable.
    pub open spec fn wf(&self) -> bool {
        valid_instant(self.start_time as int) && valid_instant(self.end_time as int)
    }

    /// The event as built from what the calendar service returned: it needs a
    /// start and an end moment; an event without a title is called "Untitled".
    pub fn try_from_event(cal_event: CalendarEvent) -> (r: Result<EventNode, ()>)
        requires
            cal_event.start_time is Some && cal_event.end_time is Some ==> cal_event.id is Some,
        ensures
            r is Ok <==> cal_event.start_time is Some && cal_event.end_time is Some,
            r matches Ok(n) ==> {
                &&& n.id == cal_event.id->0
                &&& n.summary@ == (match cal_event.summary {
                    Some(s) => s@,
                    None => "Untitled"@,
                })
                &&& n.description == cal_event.description
                &&& n.start_time == cal_event.start_time->0
                &&& n.end_time == cal_event.end_time->0
            },
    {
        let CalendarEvent { id, summary, description, start_time, end_time } = cal_event;
        match (start_time, end_time) {
            (Some(start_time), Some(end_time)) => {
                let summary = match summary {
                    Some(s) => s,
                    None => String::from_str("Untitled"),
                };
                let id = match id {
                    Some(id) => id,
                    None => String::new(),
                };
                Ok(EventNode { id, summary, description, start_time, end_time })
            },
            _ => Err(()),
        }
    }
}

/// The events of a fetched list that can be placed on the grid, in order.
pub open spec fn placeable(events: Seq<CalendarEvent>) -> Seq<CalendarEvent> {
    events.filter(|e: CalendarEvent| e.start_time is Some && e.end_time is Some)
}

/// The grid events built from a fetched list: those with a start and an end
/// moment, in the order fetched.
pub fn event_nodes_from(events: Vec<CalendarEvent>) -> (r: Vec<EventNode>)
    requires
        forall|i: int|
            0 <= i < events.len() ==> (#[trigger] events@[i]).start_time is Some
                && events@[i].end_time is Some ==> events@[i].id is Some,
    ensures
        r.len() == placeable(events@).len(),
        forall|i: int|
            0 <= i < r.len() ==> {
                let e = #[trigger] placeable(events@)[i];
                &&& r@[i].id == e.id->0
                &&& r@[i].summary@ == (match e.summary {
                    Some(s) => s@,
                    None => "Untitled"@,
                })
                &&& r@[i].description == e.description
                &&& r@[i].start_time == e.start_time->0
                &&& r@[i].end_time == e.end_time->0
            },
{
    let ghost orig = events@;
    let mut events = events;
    let mut out: Vec<EventNode> = Vec::new();
    let mut k: usize = 0;
    let n = events.len();
    proof {
        reveal_with_fuel(Seq::filter, 1);
        assert(orig.take(0) =~= Seq::<CalendarEvent>::empty());
    }
    while events.len() > 0
        invariant
            0 <= k <= n == orig.len(),
            events@ == orig.skip(k as int),
            out.len() == placeable(orig.take(k as int)).len(),
            forall|i: int| 0 <= i < orig.len() ==> (#[trigger] orig[i]).start_time is Some
                && orig[i].end_time is Some ==> orig[i].id is Some,
            forall|i: int|
                0 <= i < out.len() ==> {
                    let e = #[trigger] placeable(orig.take(k as int))[i];
                    &&& out@[i].id == e.id->0
                    &&& out@[i].summary@ == (match e.summary {
                        Some(s) => s@,
                        None => "Untitled"@,
                    })
                    &&& out@[i].description == e.description
                    &&& out@[i].start_time == e.start_time->0
                    &&& out@[i].end_time == e.end_time->0
                },
        decreases events.len(),
    {
        let e = events.remove(0);
        proof {
            assert(e == orig[k as int]);
            assert(orig.take(k + 1) =~= orig.take(k as int).push(e));
            orig.take(k as int).lemma_filter_push(e, |e: CalendarEvent| e.start_time is Some && e.end_time is Some);
            assert(events@ =~= orig.skip(k + 1));
        }
        let ghost prev = out@;
        match EventNode::try_from_event(e) {
            Ok(node) => {
                out.push(node);
            },
            Err(()) => {},
        }
        k = k + 1;
    }
    proof {
        assert(orig.take(n as int) =~= orig);
    }
    out
}

/// Events ordered by start moment.
pub open spec fn start_key() -> spec_fn(EventNode) -> int {
    |e: EventNode| e.start_time as int
}

/// The events sorted by start moment, keeping the order of events that
/// start together (a stable sort).
pub fn sort_by_start(events: Vec<EventNode>) -> (r: Vec<EventNode>)
    ensures
        stable_sorted(r@, events@, start_key()),
{
    let ghost orig = events@;
    let mut inp = events;
    let mut out: Vec<EventNode> = Vec::new();
    let ghost mut k: int = 0;
    proof {
        lemma_stable_sorted_empty(start_key());
        assert(orig.take(0) =~= Seq::<EventNode>::empty());
    }
    while inp.len() > 0
        invariant
            0 <= k <= orig.len(),
            inp@ == orig.skip(k),
            stable_sorted(out@, orig.take(k), start_key()),
        decreases inp.len(),
    {
        let x = inp.remove(0);
        let mut p = out.len();
        while p > 0 && out[p - 1].start_time > x.start_time
            invariant
                p <= out.len(),
                forall|i: int| p <= i < out.len() ==> (#[trigger] out@[i]).start_time > x.start_time,
            decreases p,
        {
            p = p - 1;
        }
        proof {
            assert forall|i: int| 0 <= i < p implies (start_key())(#[trigger] out@[i]) <= (start_key())(x) by {
                assert((start_key())(out@[i]) <= (start_key())(out@[p - 1]));
            }
            lemma_stable_insert(out@, orig.take(k), x, p as int, start_key());
            assert(x == orig[k]);
            assert(orig.take(k).push(x) =~= orig.take(k + 1));
            assert(inp@ =~= orig.skip(k + 1));
            k = k + 1;
        }
        out.insert(p, x);
    }
    proof {
        assert(orig.take(k) =~= orig);
    }
    out
}

/// Events fetched for the days from `start_date` up to `end_date`.
pub struct EventsFetched {
    pub event_nodes: Vec<EventNode>,
    /// Days since 1970-01-01.
    pub start_date: i32,
    /// Days since 1970-01-01.
    pub end_date: i32,
}

/// Messages from background work to the interface.
pub enum AppEvent {
    Quit,
    FetchSuccess(EventsFetched),
    FetchFailed(String),
    EventCreated(EventNode),
    ReloadSuccess(EventsFetched),
}

} // verus!
