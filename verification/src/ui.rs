//! What one screen of the catalog keeps between frames: the touches that
//! are down, the taps of the frame, what was clicked, and where the content
//! is scrolled to.

use crate::geometry::{Point, Rect, Vec2};
use crate::gesture::{classify, gesture, Gesture, GestureView, TouchPoint};
use crate::scroll::{ScrollState, ScrollView};
use crate::tracker::{finished_all, samples, track_all, Touch, TouchPhase, TouchTracker};
use vstd::prelude::*;

verus! {

/// A rectangle of the screen that can be clicked, and the tag by which it
/// is known. A rectangle with an empty tag cannot be clicked.
#[derive(Clone, Debug, PartialEq, Eq)]
pub struct HitRegion {
    pub tag: String,
    pub rect: Rect,
}

/// The mathematical content of a [`Renderer`].
pub struct RendererView {
    /// The traces of the touches that are down, by touch id.
    pub touches: Map<u64, Seq<TouchPoint>>,
    /// Where the screen was tapped in this frame, in order.
    pub tapped: Seq<Vec2>,
    /// The tags of the rectangles that were clicked in this frame.
    pub clicked: Set<Seq<char>>,
    /// Where the content is scrolled to, and how fast it moves.
    pub scroll: ScrollView,
}

impl RendererView {
    /// The state after a finished touch has been recognized as `gesture`: a
    /// tap is noted, a swipe goes to the scroll state.
    pub open spec fn after_gesture(self, gesture: Option<GestureView>) -> RendererView {
        match gesture {
            Some(GestureView::Tap(at)) => RendererView {
                touches: self.touches,
                tapped: self.tapped.push(at),
                clicked: self.clicked,
                scroll: self.scroll,
            },
            Some(GestureView::Swipe { start, end }) => RendererView {
                touches: self.touches,
                tapped: self.tapped,
                clicked: self.clicked,
                scroll: self.scroll.swipe(start, end),
            },
            None => self,
        }
    }

    /// The state after each of the finished traces `ended` has been
    /// recognized, in order.
    pub open spec fn after_traces(self, ended: Seq<Seq<TouchPoint>>) -> RendererView
        decreases ended.len(),
    {
        if ended.len() == 0 {
            self
        } else {
            self.after_traces(ended.drop_last()).after_gesture(classify(ended.last()))
        }
    }

    /// The state at the start of a frame with the events `touches` at
    /// `time`, in which the wheel turned by `wheel`: the taps and clicks of
    /// the frame before are forgotten, the events are followed, the traces
    /// that they finish are recognized, and the content is scrolled by one
    /// frame.
    pub open spec fn begin_frame(self, touches: Seq<Touch>, time: u64, wheel: int) -> RendererView {
        let base = RendererView {
            touches: track_all(self.touches, touches, time),
            tapped: Seq::empty(),
            clicked: Set::empty(),
            scroll: self.scroll,
        };
        let recognized = base.after_traces(finished_all(self.touches, touches, time));
        RendererView {
            touches: recognized.touches,
            tapped: recognized.tapped,
            clicked: recognized.clicked,
            scroll: recognized.scroll.step(wheel),
        }
    }

    /// Whether a tap of this frame lies in `rect` as it is shown, moved
    /// down by the scroll offset.
    pub open spec fn tapped_in(self, rect: Rect) -> bool {
        exists|i: int|
            0 <= i < self.tapped.len() && rect.covers(self.scroll.offset, #[trigger] self.tapped[i])
    }

    /// Whether `rect` as it is shown is hit: by a tap of this frame, or by
    /// the pointer click at `click`.
    pub open spec fn hit(self, rect: Rect, click: Option<Vec2>) -> bool {
        self.tapped_in(rect) || (click matches Some(at) && rect.covers(self.scroll.offset, at))
    }

    /// Whether the rectangle `rect` with the tag `tag` is clicked. A
    /// rectangle without a tag cannot be clicked.
    pub open spec fn clicks(self, tag: Seq<char>, rect: Rect, click: Option<Vec2>) -> bool {
        tag.len() > 0 && self.hit(rect, click)
    }

    /// The tags of those of `regions` that are clicked.
    pub open spec fn clicked_among(
        self,
        regions: Seq<HitRegion>,
        click: Option<Vec2>,
    ) -> Set<Seq<char>> {
        Set::new(
            |tag: Seq<char>|
                exists|i: int|
                    0 <= i < regions.len() && (#[trigger] regions[i]).tag@ == tag && self.clicks(
                        tag,
                        regions[i].rect,
                        click,
                    ),
        )
    }

    /// The state after the rectangle `rect` with the tag `tag` has been
    /// tested: the tag is among the clicked ones if the rectangle is
    /// clicked.
    pub open spec fn after_hit_test(
        self,
        tag: Seq<char>,
        rect: Rect,
        click: Option<Vec2>,
    ) -> RendererView {
        if self.clicks(tag, rect, click) {
            RendererView {
                touches: self.touches,
                tapped: self.tapped,
                clicked: self.clicked.insert(tag),
                scroll: self.scroll,
            }
        } else {
            self
        }
    }
}

/// Recognizing finished traces changes neither the live traces nor what is
/// clicked, and leaves the scroll offset where it is.
pub proof fn lemma_after_traces_keeps(state: RendererView, ended: Seq<Seq<TouchPoint>>)
    ensures
        state.after_traces(ended).touches == state.touches,
        state.after_traces(ended).clicked == state.clicked,
        state.after_traces(ended).scroll.offset == state.scroll.offset,
    decreases ended.len(),
{
    if ended.len() > 0 {
        lemma_after_traces_keeps(state, ended.drop_last());
    }
}

/// Whether a touch was lifted inside `rect`.
pub open spec fn released_in(rect: Rect, touches: Seq<Touch>) -> bool {
    exists|i: int|
        0 <= i < touches.len() && (#[trigger] touches[i]).phase == TouchPhase::Ended
            && rect.covers(0, touches[i].position@)
}

/// Whether a touch was lifted inside `rect`.
pub fn released_inside(rect: &Rect, touches: &[Touch]) -> (found: bool)
    ensures
        found == released_in(*rect, touches@),
{
    let n = touches.len();
    let mut i: usize = 0;
    while i < n
        invariant
            i <= n,
            n == touches@.len(),
            forall|j: int|
                0 <= j < i ==> !((#[trigger] touches@[j]).phase == TouchPhase::Ended
                    && rect.covers(0, touches@[j].position@)),
        decreases n - i,
    {
        let t = touches[i];
        let lifted = match t.phase {
            TouchPhase::Ended => true,
            _ => false,
        };
        if lifted && rect.contains(0, t.position) {
            return true;
        }
        i = i + 1;
    }
    false
}

/// The views of the points of `points`.
pub open spec fn views(points: Seq<Point>) -> Seq<Vec2> {
    points.map_values(|p: Point| p@)
}

/// The texts of the strings of `tags`.
pub open spec fn texts(tags: Seq<String>) -> Seq<Seq<char>> {
    tags.map_values(|s: String| s@)
}

/// The set of the elements of a sequence with one more element at its end
/// is the set of its elements with that element in it.
proof fn lemma_push_inserts(s: Seq<Seq<char>>, t: Seq<char>)
    ensures
        s.push(t).to_set() == s.to_set().insert(t),
{
    let pushed = s.push(t).to_set();
    let inserted = s.to_set().insert(t);
    assert forall|u: Seq<char>| pushed.contains(u) implies inserted.contains(u) by {
        let k = choose|k: int| 0 <= k < s.push(t).len() && s.push(t)[k] == u;
        if k < s.len() {
            assert(s[k] == u);
        }
    }
    assert forall|u: Seq<char>| inserted.contains(u) implies pushed.contains(u) by {
        if u == t {
            assert(s.push(t)[s.len() as int] == u);
        } else {
            let k = choose|k: int| 0 <= k < s.len() && s[k] == u;
            assert(s.push(t)[k] == u);
        }
    }
    assert(pushed =~= inserted);
}

/// A set of tags: a list of strings in which no text occurs twice.
struct TagSet {
    tags: Vec<String>,
}

impl TagSet {
    #[verifier::type_invariant]
    spec fn inv(self) -> bool {
        texts(self.tags@).no_duplicates()
    }

    /// The texts of the tags of the set.
    spec fn set(self) -> Set<Seq<char>> {
        texts(self.tags@).to_set()
    }

    /// The empty set.
    fn new() -> (tags: TagSet)
        ensures
            tags.set() == Set::<Seq<char>>::empty(),
    {
        let tags = TagSet { tags: Vec::new() };
        assert(texts(tags.tags@) =~= Seq::empty());
        assert(tags.set() =~= Set::empty());
        tags
    }

    /// The tags of the set, each once.
    fn tags(&self) -> (tags: &Vec<String>)
        ensures
            texts(tags@).to_set() == self.set(),
            texts(tags@).no_duplicates(),
    {
        proof {
            use_type_invariant(self);
        }
        &self.tags
    }

    /// The set with `tag` in it.
    fn with(self, tag: String) -> (tags: TagSet)
        ensures
            tags.set() == self.set().insert(tag@),
    {
        proof {
            use_type_invariant(&self);
        }
        let ghost before = texts(self.tags@);
        let mut tags = self.tags;
        if !holds(&tags, &tag) {
            tags.push(tag);
            assert(texts(tags@) =~= before.push(tag@));
            proof {
                lemma_push_inserts(before, tag@);
            }
        } else {
            assert(before.to_set().insert(tag@) =~= before.to_set());
        }
        TagSet { tags }
    }
}

/// The input state of one screen.
pub struct Renderer {
    touches: TouchTracker,
    tapped: Vec<Point>,
    clicked: TagSet,
    scroll: ScrollState,
}

impl View for Renderer {
    type V = RendererView;

    closed spec fn view(&self) -> RendererView {
        RendererView {
            touches: self.touches@,
            tapped: views(self.tapped@),
            clicked: self.clicked.set(),
            scroll: self.scroll@,
        }
    }
}

impl Renderer {
    /// A screen without touches, taps or clicks, scrolled to the top and at
    /// rest.
    pub fn new() -> (r: Renderer)
        ensures
            r@ == (RendererView {
                touches: Map::empty(),
                tapped: Seq::empty(),
                clicked: Set::empty(),
                scroll: ScrollView { offset: 0, velocity: 0 },
            }),
    {
        let r = Renderer {
            touches: TouchTracker::new(),
            tapped: Vec::new(),
            clicked: TagSet::new(),
            scroll: ScrollState::new(),
        };
        assert(views(r.tapped@) =~= Seq::empty());
        r
    }

    /// The tags that were clicked in this frame, each once.
    pub fn clicked(&self) -> (tags: &Vec<String>)
        ensures
            texts(tags@).to_set() == self@.clicked,
            texts(tags@).no_duplicates(),
    {
        self.clicked.tags()
    }

    /// Whether `tag` was clicked in this frame.
    pub fn is_clicked(&self, tag: &str) -> (found: bool)
        ensures
            found == self@.clicked.contains(tag@),
    {
        let owned = tag.to_owned();
        holds(self.clicked.tags(), &owned)
    }

    /// Where the screen was tapped in this frame, in order.
    pub fn tapped(&self) -> (points: &Vec<Point>)
        ensures
            views(points@) == self@.tapped,
    {
        &self.tapped
    }

    /// How far the content is moved down, in position units; never
    /// positive.
    pub fn scroll(&self) -> (offset: i64)
        ensures
            offset == self@.scroll.offset,
            offset <= 0,
    {
        self.scroll.offset()
    }

    /// How far the content moves each frame, in position units.
    pub fn scrolling(&self) -> (velocity: i64)
        ensures
            velocity == self@.scroll.velocity,
    {
        self.scroll.velocity()
    }

    /// Whether the touch `id` is down.
    pub fn is_tracking(&self, id: u64) -> (live: bool)
        ensures
            live == self@.touches.contains_key(id),
    {
        self.touches.is_tracking(id)
    }

    /// Starts a frame: forgets the taps and clicks of the frame before,
    /// handles the touch events `touches` of this frame at `time`, and
    /// scrolls the content by one frame in which the wheel turned by
    /// `wheel`.
    pub fn begin_frame(&mut self, touches: &[Touch], time: u64, wheel: i64)
        ensures
            final(self)@ == old(self)@.begin_frame(touches@, time, wheel as int),
            final(self)@.touches == track_all(old(self)@.touches, touches@, time),
            final(self)@.clicked == Set::<Seq<char>>::empty(),
            final(self)@.scroll.offset <= 0,
    {
        proof {
            lemma_after_traces_keeps(
                RendererView {
                    touches: track_all(old(self)@.touches, touches@, time),
                    tapped: Seq::empty(),
                    clicked: Set::empty(),
                    scroll: old(self)@.scroll,
                },
                finished_all(old(self)@.touches, touches@, time),
            );
        }
        let ended = self.touches.update(touches, time);
        self.tapped.clear();
        self.clicked = TagSet::new();
        let ghost base = self@;
        assert(base.tapped =~= Seq::empty());
        let n = ended.len();
        let mut i: usize = 0;
        while i < n
            invariant
                i <= n,
                n == ended@.len(),
                self@ == base.after_traces(samples(ended@).take(i as int)),
            decreases n - i,
        {
            let ghost before = self@;
            proof {
                let next = samples(ended@).take(i + 1);
                assert(next.drop_last() == samples(ended@).take(i as int));
                assert(next.last() == ended@[i as int]@);
            }
            match gesture(ended[i].as_slice()) {
                Some(Gesture::Tap(at)) => {
                    self.tapped.push(at);
                    assert(views(self.tapped@) =~= before.tapped.push(at@));
                },
                Some(Gesture::Swipe { start, end }) => {
                    self.scroll.swipe(start, end);
                },
                None => {},
            }
            i = i + 1;
        }
        assert(samples(ended@).take(n as int) == samples(ended@));
        self.scroll.step(wheel);
    }

    /// Tests the rectangle `rect` with the tag `tag` against the taps of
    /// this frame and the pointer click at `click`, if there was one. A
    /// rectangle that is clicked has its tag noted.
    pub fn hit_test(&mut self, tag: &str, rect: &Rect, click: Option<Point>) -> (hit: bool)
        ensures
            hit == old(self)@.clicks(tag@, *rect, click.deep_view()),
            final(self)@ == old(self)@.after_hit_test(tag@, *rect, click.deep_view()),
    {
        if tag.is_empty() {
            return false;
        }
        let offset = self.scroll.offset();
        let clicked = match click {
            Some(at) => rect.contains(offset, at),
            None => false,
        };
        if !(clicked || any_in(&self.tapped, rect, offset)) {
            return false;
        }
        let mut tags = TagSet::new();
        core::mem::swap(&mut tags, &mut self.clicked);
        self.clicked = tags.with(tag.to_owned());
        true
    }
}

impl Renderer {
    /// Tests each of `regions` against the taps of this frame and the
    /// pointer click at `click`, if there was one, and notes the tags of
    /// those that are clicked.
    pub fn hit_regions(&mut self, regions: &[HitRegion], click: Option<Point>)
        ensures
            final(self)@.clicked == old(self)@.clicked.union(
                old(self)@.clicked_among(regions@, click.deep_view()),
            ),
            final(self)@.touches == old(self)@.touches,
            final(self)@.tapped == old(self)@.tapped,
            final(self)@.scroll == old(self)@.scroll,
    {
        let ghost start = self@;
        let ghost at = click.deep_view();
        let n = regions.len();
        let mut i: usize = 0;
        assert(start.clicked.union(start.clicked_among(regions@.take(0), at)) =~= start.clicked);
        while i < n
            invariant
                i <= n,
                n == regions@.len(),
                at == click.deep_view(),
                self@.clicked == start.clicked.union(
                    start.clicked_among(regions@.take(i as int), at),
                ),
                self@.touches == start.touches,
                self@.tapped == start.tapped,
                self@.scroll == start.scroll,
            decreases n - i,
        {
            let ghost before = self@;
            let region = &regions[i];
            self.hit_test(region.tag.as_str(), &region.rect, click);
            proof {
                let seen = regions@.take(i as int);
                let next = regions@.take(i + 1);
                assert(next[i as int] == regions@[i as int]);
                assert(before.clicks(region.tag@, region.rect, at) == start.clicks(
                    region.tag@,
                    region.rect,
                    at,
                ));
                assert forall|tag: Seq<char>| start.clicked_among(next, at).contains(tag)
                    <==> start.clicked_among(seen, at).contains(tag) || (tag == region.tag@
                    && start.clicks(tag, region.rect, at)) by {
                    if start.clicked_among(next, at).contains(tag) {
                        let k = choose|k: int|
                            0 <= k < next.len() && (#[trigger] next[k]).tag@ == tag && start.clicks(
                                tag,
                                next[k].rect,
                                at,
                            );
                        if k < i {
                            assert(seen[k] == next[k]);
                        }
                    }
                    if start.clicked_among(seen, at).contains(tag) {
                        let k = choose|k: int|
                            0 <= k < seen.len() && (#[trigger] seen[k]).tag@ == tag && start.clicks(
                                tag,
                                seen[k].rect,
                                at,
                            );
                        assert(next[k] == seen[k]);
                    }
                }
                assert(self@.clicked =~= start.clicked.union(start.clicked_among(next, at)));
            }
            i = i + 1;
        }
        assert(regions@.take(n as int) == regions@);
    }
}

/// Whether `tags` holds a string with the text of `tag`.
fn holds(tags: &Vec<String>, tag: &String) -> (found: bool)
    ensures
        found == texts(tags@).to_set().contains(tag@),
        found == texts(tags@).contains(tag@),
{
    let n = tags.len();
    let mut i: usize = 0;
    while i < n
        invariant
            i <= n,
            n == tags@.len(),
            forall|j: int| 0 <= j < i ==> texts(tags@)[j] != tag@,
        decreases n - i,
    {
        if tags[i] == *tag {
            assert(texts(tags@)[i as int] == tag@);
            return true;
        }
        i = i + 1;
    }
    false
}

/// Whether one of `points` lies in `rect`, moved down by `scroll`.
fn any_in(points: &Vec<Point>, rect: &Rect, scroll: i64) -> (found: bool)
    ensures
        found == exists|i: int|
            0 <= i < points@.len() && rect.covers(scroll as int, #[trigger] views(points@)[i]),
{
    let n = points.len();
    let mut i: usize = 0;
    while i < n
        invariant
            i <= n,
            n == points@.len(),
            forall|j: int| 0 <= j < i ==> !rect.covers(scroll as int, #[trigger] views(points@)[j]),
        decreases n - i,
    {
        if rect.contains(scroll, points[i]) {
            assert(rect.covers(scroll as int, views(points@)[i as int]));
            return true;
        }
        i = i + 1;
    }
    false
}

} // verus!
