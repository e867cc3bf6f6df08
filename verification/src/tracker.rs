//! The life of each touch, from first contact to release.

use crate::geometry::Point;
use crate::gesture::TouchPoint;
use std::collections::HashMap;
use vstd::prelude::*;

verus! {

broadcast use vstd::std_specs::hash::group_hash_axioms;

/// The stage of a touch that an event reports.
#[derive(Clone, Copy, Debug, PartialEq, Eq)]
pub enum TouchPhase {
    Started,
    Stationary,
    Moved,
    Ended,
    Cancelled,
}

/// One touch event: which touch, at what stage, and where.
#[derive(Clone, Copy, Debug, PartialEq, Eq)]
pub struct Touch {
    pub id: u64,
    pub phase: TouchPhase,
    pub position: Point,
}

impl Touch {
    /// The sample that this event contributes at `time`.
    pub open spec fn sample(self, time: u64) -> TouchPoint {
        TouchPoint { time, pos: self.position }
    }
}

/// The live traces after `touch` has been handled at `time`.
///
/// A start begins a new trace of one sample, replacing any trace of the same
/// touch. A move adds a sample to the trace of its touch, and is dropped
/// when there is none. An end or a cancellation removes the trace. A
/// stationary touch changes nothing.
pub open spec fn track(
    traces: Map<u64, Seq<TouchPoint>>,
    touch: Touch,
    time: u64,
) -> Map<u64, Seq<TouchPoint>> {
    match touch.phase {
        TouchPhase::Started => traces.insert(touch.id, seq![touch.sample(time)]),
        TouchPhase::Stationary => traces,
        TouchPhase::Moved => if traces.contains_key(touch.id) {
            traces.insert(touch.id, traces[touch.id].push(touch.sample(time)))
        } else {
            traces
        },
        TouchPhase::Ended | TouchPhase::Cancelled => traces.remove(touch.id),
    }
}

/// The trace that `touch` finishes at `time`: the trace of an ending touch
/// with its last sample added. A cancelled touch, or one without a trace,
/// finishes nothing.
pub open spec fn finished(
    traces: Map<u64, Seq<TouchPoint>>,
    touch: Touch,
    time: u64,
) -> Option<Seq<TouchPoint>> {
    if touch.phase == TouchPhase::Ended && traces.contains_key(touch.id) {
        Some(traces[touch.id].push(touch.sample(time)))
    } else {
        None
    }
}

/// The live traces after every event of `touches` has been handled in order
/// at `time`.
pub open spec fn track_all(
    traces: Map<u64, Seq<TouchPoint>>,
    touches: Seq<Touch>,
    time: u64,
) -> Map<u64, Seq<TouchPoint>>
    decreases touches.len(),
{
    if touches.len() == 0 {
        traces
    } else {
        track(track_all(traces, touches.drop_last(), time), touches.last(), time)
    }
}

/// The traces that the events of `touches`, handled in order at `time`,
/// finish, in that order.
pub open spec fn finished_all(
    traces: Map<u64, Seq<TouchPoint>>,
    touches: Seq<Touch>,
    time: u64,
) -> Seq<Seq<TouchPoint>>
    decreases touches.len(),
{
    if touches.len() == 0 {
        Seq::empty()
    } else {
        let earlier = finished_all(traces, touches.drop_last(), time);
        match finished(track_all(traces, touches.drop_last(), time), touches.last(), time) {
            Some(trace) => earlier.push(trace),
            None => earlier,
        }
    }
}

/// The samples of each trace of `traces`.
pub open spec fn samples(traces: Seq<Vec<TouchPoint>>) -> Seq<Seq<TouchPoint>> {
    traces.map_values(|trace: Vec<TouchPoint>| trace@)
}

/// Whether `touch` ends or cancels its touch.
pub open spec fn releases(touch: Touch) -> bool {
    touch.phase == TouchPhase::Ended || touch.phase == TouchPhase::Cancelled
}

/// Whether the touch of event `i` of `touches` starts again later in
/// `touches`.
pub open spec fn restarted(touches: Seq<Touch>, i: int) -> bool {
    exists|j: int|
        i < j < touches.len() && (#[trigger] touches[j]).id == touches[i].id && touches[j].phase
            == TouchPhase::Started
}

/// Once the end or the cancellation of a touch has been handled, no trace of
/// that touch is left.
pub proof fn lemma_release_drops_trace(traces: Map<u64, Seq<TouchPoint>>, touch: Touch, time: u64)
    requires
        releases(touch),
    ensures
        !track(traces, touch, time).contains_key(touch.id),
{
}

/// A touch without a trace gets one only by a start of that touch.
pub proof fn lemma_no_trace_without_start(
    traces: Map<u64, Seq<TouchPoint>>,
    touch: Touch,
    time: u64,
    id: u64,
)
    requires
        !traces.contains_key(id),
        !(touch.id == id && touch.phase == TouchPhase::Started),
    ensures
        !track(traces, touch, time).contains_key(id),
{
}

/// After a run of events, no trace is left of a touch that ended or was
/// cancelled in it and did not start again afterwards.
pub proof fn lemma_released_touch_leaves_nothing(
    traces: Map<u64, Seq<TouchPoint>>,
    touches: Seq<Touch>,
    time: u64,
    i: int,
)
    requires
        0 <= i < touches.len(),
        releases(touches[i]),
        !restarted(touches, i),
    ensures
        !track_all(traces, touches, time).contains_key(touches[i].id),
    decreases touches.len(),
{
    let before = track_all(traces, touches.drop_last(), time);
    if i == touches.len() - 1 {
        lemma_release_drops_trace(before, touches.last(), time);
    } else {
        let rest = touches.drop_last();
        assert(rest[i] == touches[i]);
        if restarted(rest, i) {
            let j = choose|j: int|
                i < j < rest.len() && (#[trigger] rest[j]).id == rest[i].id && rest[j].phase
                    == TouchPhase::Started;
            assert(touches[j] == rest[j]);
        }
        lemma_released_touch_leaves_nothing(traces, rest, time, i);
        assert(touches.last() == touches[touches.len() - 1]);
        lemma_no_trace_without_start(before, touches.last(), time, touches[i].id);
    }
}

/// The traces of the touches that are down, by touch id.
pub struct TouchTracker {
    traces: HashMap<u64, Vec<TouchPoint>>,
}

impl View for TouchTracker {
    type V = Map<u64, Seq<TouchPoint>>;

    closed spec fn view(&self) -> Map<u64, Seq<TouchPoint>> {
        self.traces@.map_values(|v: Vec<TouchPoint>| v@)
    }
}

impl TouchTracker {
    /// A tracker without any trace.
    pub fn new() -> (tracker: TouchTracker)
        ensures
            tracker@ == Map::<u64, Seq<TouchPoint>>::empty(),
    {
        let tracker = TouchTracker { traces: HashMap::new() };
        assert(tracker@ =~= Map::<u64, Seq<TouchPoint>>::empty());
        tracker
    }

    /// Whether the touch `id` has a trace.
    pub fn is_tracking(&self, id: u64) -> (live: bool)
        ensures
            live == self@.contains_key(id),
    {
        self.traces.contains_key(&id)
    }

    /// The number of live traces.
    pub fn len(&self) -> (n: usize)
        ensures
            n == self@.len(),
    {
        assert(self@.dom() =~= self.traces@.dom());
        self.traces.len()
    }

    /// Handles the touch events of one frame in order at `time`, and hands
    /// out the traces that they finish, in that order.
    pub fn update(&mut self, touches: &[Touch], time: u64) -> (ended: Vec<Vec<TouchPoint>>)
        ensures
            final(self)@ == track_all(old(self)@, touches@, time),
            samples(ended@) == finished_all(old(self)@, touches@, time),
            forall|i: int|
                0 <= i < touches@.len() && releases(#[trigger] touches@[i]) && !restarted(
                    touches@,
                    i,
                ) ==> !final(self)@.contains_key(touches@[i].id),
    {
        let mut ended: Vec<Vec<TouchPoint>> = Vec::new();
        let n = touches.len();
        let mut i: usize = 0;
        assert(samples(ended@) =~= Seq::empty());
        while i < n
            invariant
                i <= n,
                n == touches@.len(),
                self@ == track_all(old(self)@, touches@.take(i as int), time),
                samples(ended@) == finished_all(old(self)@, touches@.take(i as int), time),
            decreases n - i,
        {
            proof {
                let next = touches@.take(i + 1);
                assert(next.drop_last() == touches@.take(i as int));
                assert(next.last() == touches@[i as int]);
            }
            let ghost earlier = samples(ended@);
            match self.handle(&touches[i], time) {
                Some(trace) => {
                    ended.push(trace);
                    assert(samples(ended@) =~= earlier.push(trace@));
                },
                None => {},
            }
            i = i + 1;
        }
        assert(touches@.take(n as int) == touches@);
        proof {
            assert forall|i: int|
                0 <= i < touches@.len() && releases(#[trigger] touches@[i]) && !restarted(
                    touches@,
                    i,
                ) implies !self@.contains_key(touches@[i].id) by {
                lemma_released_touch_leaves_nothing(old(self)@, touches@, time, i);
            }
        }
        ended
    }

    /// Handles one touch event at `time`, and hands out the trace that it
    /// finishes, if any.
    pub fn handle(&mut self, touch: &Touch, time: u64) -> (done: Option<Vec<TouchPoint>>)
        ensures
            final(self)@ == track(old(self)@, *touch, time),
            releases(*touch) ==> !final(self)@.contains_key(touch.id),
            match done {
                Some(trace) => finished(old(self)@, *touch, time) == Some(trace@),
                None => finished(old(self)@, *touch, time) is None,
            },
    {
        let p = TouchPoint { time, pos: touch.position };
        let ghost before = self@;
        match touch.phase {
            TouchPhase::Started => {
                let mut trace: Vec<TouchPoint> = Vec::new();
                trace.push(p);
                self.traces.insert(touch.id, trace);
                assert(trace@ =~= seq![p]);
                assert(self@ =~= track(before, *touch, time));
                None
            },
            TouchPhase::Stationary => None,
            TouchPhase::Moved => {
                match self.traces.remove(&touch.id) {
                    Some(mut trace) => {
                        trace.push(p);
                        self.traces.insert(touch.id, trace);
                    },
                    None => {},
                }
                assert(self@ =~= track(before, *touch, time));
                None
            },
            TouchPhase::Ended => {
                let found = self.traces.remove(&touch.id);
                assert(self@ =~= track(before, *touch, time));
                match found {
                    Some(mut trace) => {
                        trace.push(p);
                        Some(trace)
                    },
                    None => None,
                }
            },
            TouchPhase::Cancelled => {
                self.traces.remove(&touch.id);
                assert(self@ =~= track(before, *touch, time));
                None
            },
        }
    }
}

} // verus!
