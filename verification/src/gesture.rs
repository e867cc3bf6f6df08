//! Recognition of taps and swipes in a finished touch trace.

use crate::geometry::{
    div_toward_zero, lemma_mul_within, lemma_product_bounds, Delta, Point, Vec2, COORD_MAX,
    DELTA_MAX,
};
use vstd::prelude::*;

verus! {

/// A tap lasts less than this many microseconds.
pub const TAP_MAX_MICROS: u64 = 250_000;

/// A tap stays within this many position units (10 pixels).
pub const TAP_RADIUS: i64 = 10_000;

/// A swipe lasts less than this many microseconds.
pub const SWIPE_MAX_MICROS: u64 = 600_000;

/// A swipe covers more than this many position units (200 pixels).
pub const SWIPE_MIN_LENGTH: i64 = 200_000;

/// One sample of a touch: where the finger was, and when, in microseconds.
#[derive(Clone, Copy, Debug, PartialEq, Eq)]
pub struct TouchPoint {
    pub time: u64,
    pub pos: Point,
}

/// The difference of two samples.
#[derive(Clone, Copy, Debug, PartialEq, Eq)]
pub struct TouchDelta {
    pub time: i128,
    pub pos: Delta,
}

impl TouchPoint {
    /// The time and the way from `rhs` to `self`.
    pub fn sub(self, rhs: TouchPoint) -> (d: TouchDelta)
        ensures
            d.time == self.time - rhs.time,
            d.pos@ == self.pos@.minus(rhs.pos@),
    {
        TouchDelta { time: self.time as i128 - rhs.time as i128, pos: self.pos.sub(rhs.pos) }
    }
}

/// What a finished touch meant.
#[derive(Clone, Copy, Debug, PartialEq, Eq)]
pub enum Gesture {
    /// Quickly touched a single position.
    Tap(Point),
    /// Moved quickly along a straight line.
    Swipe { start: Point, end: Point },
}

/// The mathematical content of a [`Gesture`].
pub enum GestureView {
    Tap(Vec2),
    Swipe { start: Vec2, end: Vec2 },
}

impl View for Gesture {
    type V = GestureView;

    open spec fn view(&self) -> GestureView {
        match *self {
            Gesture::Tap(p) => GestureView::Tap(p@),
            Gesture::Swipe { start, end } => GestureView::Swipe { start: start@, end: end@ },
        }
    }
}

impl DeepView for Gesture {
    type V = GestureView;

    open spec fn deep_view(&self) -> GestureView {
        self@
    }
}

/// Microseconds from the first sample of `trace` to the last.
pub open spec fn elapsed(trace: Seq<TouchPoint>) -> int
    recommends
        trace.len() > 0,
{
    trace.last().time - trace.first().time
}

/// The way from the first sample of `trace` to the last.
pub open spec fn net(trace: Seq<TouchPoint>) -> Vec2
    recommends
        trace.len() > 0,
{
    trace.last().pos@.minus(trace.first().pos@)
}

/// Sum of the horizontal coordinates of the samples.
pub open spec fn sum_x(trace: Seq<TouchPoint>) -> int
    decreases trace.len(),
{
    if trace.len() == 0 {
        0
    } else {
        sum_x(trace.drop_last()) + trace.last().pos@.x
    }
}

/// Sum of the vertical coordinates of the samples.
pub open spec fn sum_y(trace: Seq<TouchPoint>) -> int
    decreases trace.len(),
{
    if trace.len() == 0 {
        0
    } else {
        sum_y(trace.drop_last()) + trace.last().pos@.y
    }
}

/// The mean position of the samples, each coordinate rounded toward zero
/// to the grid.
pub open spec fn centroid(trace: Seq<TouchPoint>) -> Vec2
    recommends
        trace.len() > 0,
{
    Vec2 {
        x: div_toward_zero(sum_x(trace), trace.len() as int),
        y: div_toward_zero(sum_y(trace), trace.len() as int),
    }
}

/// Whether `p` lies less than `TAP_RADIUS` away from `c`.
pub open spec fn near(p: Vec2, c: Vec2) -> bool {
    p.minus(c).norm_sq() < TAP_RADIUS * TAP_RADIUS
}

/// Whether every sample lies less than `TAP_RADIUS` away from `c`.
pub open spec fn steady(trace: Seq<TouchPoint>, c: Vec2) -> bool {
    forall|i: int| 0 <= i < trace.len() ==> near(#[trigger] trace[i].pos@, c)
}

/// Whether `p` lies farther from the line through `start` along `v` than a
/// tenth of the length of `v`.
pub open spec fn strays(p: Vec2, start: Vec2, v: Vec2) -> bool {
    let area = p.minus(start).perp_dot(v);
    10 * (if area >= 0 {
        area
    } else {
        -area
    }) > v.norm_sq()
}

/// Whether the angle between the step `a` and the direction `v` exceeds 60
/// degrees, that is, whether `a . v < |a| |v| / 2`. A step of length zero
/// has no direction and never turns back.
pub open spec fn turns_back(a: Vec2, v: Vec2) -> bool {
    a.dot(v) < 0 || 4 * (a.dot(v) * a.dot(v)) < a.norm_sq() * v.norm_sq()
}

/// Whether no interior sample strays from the line from the first sample to
/// the last.
pub open spec fn straight(trace: Seq<TouchPoint>) -> bool
    recommends
        trace.len() > 0,
{
    forall|i: int|
        0 < i < trace.len() - 1 ==> !strays(
            #[trigger] trace[i].pos@,
            trace.first().pos@,
            net(trace),
        )
}

/// Whether no step from one sample to the next turns back against the way
/// from the first sample to the last.
pub open spec fn forward(trace: Seq<TouchPoint>) -> bool
    recommends
        trace.len() > 0,
{
    forall|i: int|
        0 < i < trace.len() ==> !turns_back(
            #[trigger] trace[i].pos@.minus(trace[i - 1].pos@),
            net(trace),
        )
}

/// Whether `trace` is short and small enough to be looked at as a tap.
pub open spec fn tap_candidate(trace: Seq<TouchPoint>) -> bool {
    &&& trace.len() >= 2
    &&& elapsed(trace) < TAP_MAX_MICROS
    &&& net(trace).norm_sq() < TAP_RADIUS * TAP_RADIUS
}

/// Whether `trace` is short and long enough to be looked at as a swipe.
pub open spec fn swipe_candidate(trace: Seq<TouchPoint>) -> bool {
    &&& trace.len() >= 2
    &&& !tap_candidate(trace)
    &&& elapsed(trace) < SWIPE_MAX_MICROS
    &&& net(trace).norm_sq() > SWIPE_MIN_LENGTH * SWIPE_MIN_LENGTH
}

/// The gesture that a finished trace stands for.
///
/// A trace of at least two samples that took less than `TAP_MAX_MICROS` and
/// ended less than `TAP_RADIUS` from where it began is a tap at the centroid
/// if every sample is less than `TAP_RADIUS` from the centroid, and nothing
/// otherwise. Any other trace that took less than `SWIPE_MAX_MICROS` and
/// ended more than `SWIPE_MIN_LENGTH` from where it began is a swipe from
/// its first position to its last if it is straight and moves forward, and
/// nothing otherwise. Every other trace is nothing.
pub open spec fn classify(trace: Seq<TouchPoint>) -> Option<GestureView> {
    if tap_candidate(trace) {
        if steady(trace, centroid(trace)) {
            Some(GestureView::Tap(centroid(trace)))
        } else {
            None
        }
    } else if swipe_candidate(trace) {
        if straight(trace) && forward(trace) {
            Some(GestureView::Swipe { start: trace.first().pos@, end: trace.last().pos@ })
        } else {
            None
        }
    } else {
        None
    }
}

/// A sum within `n * bound` of zero has a mean within `bound` of zero.
proof fn lemma_mean_within(sum: int, n: int, bound: int)
    requires
        n > 0,
        bound >= 0,
        -(n * bound) <= sum <= n * bound,
    ensures
        -bound <= div_toward_zero(sum, n) <= bound,
{
    if sum >= 0 {
        assert(0 <= sum / n <= bound) by (nonlinear_arith)
            requires
                n > 0,
                0 <= sum <= n * bound,
        ;
    } else {
        assert(0 <= (-sum) / n <= bound) by (nonlinear_arith)
            requires
                n > 0,
                0 <= -sum <= n * bound,
        ;
    }
}

/// The centroid of the samples.
fn centroid_of(positions: &[TouchPoint]) -> (c: Point)
    requires
        positions@.len() > 0,
    ensures
        c@ == centroid(positions@),
{
    let n = positions.len();
    let mut sx: i128 = 0;
    let mut sy: i128 = 0;
    let mut i: usize = 0;
    while i < n
        invariant
            i <= n,
            n == positions@.len(),
            sx == sum_x(positions@.take(i as int)),
            sy == sum_y(positions@.take(i as int)),
            -(i * COORD_MAX) <= sx <= i * COORD_MAX,
            -(i * COORD_MAX) <= sy <= i * COORD_MAX,
            forall|j: int|
                0 <= j < i ==> (#[trigger] positions@[j]).pos@.within(COORD_MAX as int),
        decreases n - i,
    {
        let p = positions[i].pos;
        let x = p.x();
        let y = p.y();
        proof {
            let next = positions@.take(i + 1);
            assert(next.drop_last() == positions@.take(i as int));
            assert(next.last() == positions@[i as int]);
            assert((i + 1) * COORD_MAX == i * COORD_MAX + COORD_MAX) by (nonlinear_arith);
            assert(i * COORD_MAX <= 0xffff_ffff_ffff_ffff * 0x2000_0000) by (nonlinear_arith)
                requires
                    0 <= i <= 0xffff_ffff_ffff_ffff,
                    COORD_MAX == 0x2000_0000,
            ;
        }
        sx = sx + x as i128;
        sy = sy + y as i128;
        i = i + 1;
    }
    proof {
        assert(positions@.take(n as int) == positions@);
        lemma_mean_within(sx as int, n as int, COORD_MAX as int);
        lemma_mean_within(sy as int, n as int, COORD_MAX as int);
    }
    let cx = quotient_toward_zero(sx, n);
    let cy = quotient_toward_zero(sy, n);
    let c = Point::new(cx as i32, cy as i32);
    c.unwrap()
}

/// `sum` divided by `n`, rounded toward zero.
fn quotient_toward_zero(sum: i128, n: usize) -> (q: i128)
    requires
        n > 0,
        sum > i128::MIN,
    ensures
        q == div_toward_zero(sum as int, n as int),
{
    if sum >= 0 {
        sum / n as i128
    } else {
        -((-sum) / n as i128)
    }
}

/// Whether every sample lies less than `TAP_RADIUS` away from `c`.
fn all_near(positions: &[TouchPoint], c: Point) -> (ok: bool)
    ensures
        ok == steady(positions@, c@),
{
    let n = positions.len();
    let mut i: usize = 0;
    while i < n
        invariant
            i <= n,
            n == positions@.len(),
            forall|j: int| 0 <= j < i ==> near(#[trigger] positions@[j].pos@, c@),
        decreases n - i,
    {
        let d = positions[i].pos.sub(c);
        if d.length_squared() >= TAP_RADIUS as i128 * TAP_RADIUS as i128 {
            assert(!near(positions@[i as int].pos@, c@));
            return false;
        }
        i = i + 1;
    }
    true
}

/// Whether the trace is straight and moves forward.
fn straight_and_forward(positions: &[TouchPoint]) -> (ok: bool)
    requires
        positions@.len() >= 2,
    ensures
        ok == (straight(positions@) && forward(positions@)),
{
    let n = positions.len();
    let start = positions[0].pos;
    let v = positions[n - 1].pos.sub(start);
    let l2 = v.length_squared();
    let mut i: usize = 1;
    while i < n
        invariant
            1 <= i <= n,
            n == positions@.len(),
            start == positions@[0].pos,
            v@ == net(positions@),
            l2 == v@.norm_sq(),
            v@.within(DELTA_MAX as int),
            forall|j: int|
                0 < j < i && j < n - 1 ==> !strays(
                    #[trigger] positions@[j].pos@,
                    positions@.first().pos@,
                    net(positions@),
                ),
            forall|j: int|
                0 < j < i ==> !turns_back(
                    #[trigger] positions@[j].pos@.minus(positions@[j - 1].pos@),
                    net(positions@),
                ),
        decreases n - i,
    {
        let p = positions[i].pos;
        let step = p.sub(positions[i - 1].pos);
        if step_turns_back(&step, &v) {
            assert(!forward(positions@));
            return false;
        }
        if i < n - 1 {
            let area = p.sub(start).perp_dot(&v);
            proof {
                lemma_product_bounds(p@.minus(start@), v@, DELTA_MAX as int);
                lemma_product_bounds(v@, v@, DELTA_MAX as int);
            }
            let off = if area >= 0 {
                area
            } else {
                -area
            };
            if 10 * off > l2 {
                assert(strays(positions@[i as int].pos@, positions@.first().pos@, net(positions@)));
                assert(!straight(positions@));
                return false;
            }
        }
        i = i + 1;
    }
    true
}

/// Whether the angle between `a` and `v` exceeds 60 degrees.
fn step_turns_back(a: &Delta, v: &Delta) -> (back: bool)
    ensures
        back == turns_back(a@, v@),
{
    let d = a.dot(v);
    let a2 = a.length_squared();
    let v2 = v.length_squared();
    proof {
        lemma_product_bounds(a@, v@, DELTA_MAX as int);
        lemma_product_bounds(v@, v@, DELTA_MAX as int);
        let m: int = 2 * (DELTA_MAX * DELTA_MAX);
        lemma_mul_within(d as int, d as int, m);
        lemma_mul_within(a2 as int, v2 as int, m);
        assert(m * m == 0x2000_0000_0000_0000 * 0x2000_0000_0000_0000) by (nonlinear_arith)
            requires
                m == 0x2000_0000_0000_0000,
        ;
    }
    d < 0 || 4 * (d * d) < a2 * v2
}

/// The gesture that the finished trace `positions` stands for, if any.
pub fn gesture(positions: &[TouchPoint]) -> (r: Option<Gesture>)
    ensures
        r.deep_view() == classify(positions@),
{
    let n = positions.len();
    if n < 2 {
        return None;
    }
    let start = positions[0];
    let end = positions[n - 1];
    let v = end.sub(start);
    let l2 = v.pos.length_squared();
    if v.time < TAP_MAX_MICROS as i128 && l2 < TAP_RADIUS as i128 * TAP_RADIUS as i128 {
        // quick touch with little movement
        let average = centroid_of(positions);
        if all_near(positions, average) {
            return Some(Gesture::Tap(average));
        }
    } else if v.time < SWIPE_MAX_MICROS as i128 && l2 > SWIPE_MIN_LENGTH as i128
        * SWIPE_MIN_LENGTH as i128 {
        if straight_and_forward(positions) {
            return Some(Gesture::Swipe { start: start.pos, end: end.pos });
        }
    }
    None
}

/// A short trace that ends near its start and keeps every sample within
/// `TAP_RADIUS` of its centroid is a tap at that centroid.
pub proof fn lemma_steady_trace_is_tap(trace: Seq<TouchPoint>)
    requires
        trace.len() >= 2,
        elapsed(trace) < TAP_MAX_MICROS,
        net(trace).norm_sq() < TAP_RADIUS * TAP_RADIUS,
        steady(trace, centroid(trace)),
    ensures
        classify(trace) == Some(GestureView::Tap(centroid(trace))),
{
}

/// The squares of a scalar product and of a perpendicular dot product add
/// up to the product of the squared lengths.
pub proof fn lemma_lagrange(a: Vec2, v: Vec2)
    ensures
        a.dot(v) * a.dot(v) + a.perp_dot(v) * a.perp_dot(v) == a.norm_sq() * v.norm_sq(),
{
    let (ax, ay, vx, vy) = (a.x, a.y, v.x, v.y);
    let (p, q, r, s) = (ax * vx, ay * vy, ax * vy, ay * vx);
    assert((p + q) * (p + q) == p * p + 2 * (p * q) + q * q) by (nonlinear_arith);
    assert((r - s) * (r - s) == r * r - 2 * (r * s) + s * s) by (nonlinear_arith);
    assert(p * q == r * s) by (nonlinear_arith)
        requires
            p == ax * vx,
            q == ay * vy,
            r == ax * vy,
            s == ay * vx,
    ;
    lemma_square_of_product(ax, vx);
    lemma_square_of_product(ay, vy);
    lemma_square_of_product(ax, vy);
    lemma_square_of_product(ay, vx);
    let (a2, b2, c2, d2) = (ax * ax, ay * ay, vx * vx, vy * vy);
    assert((a2 + b2) * (c2 + d2) == a2 * c2 + a2 * d2 + b2 * c2 + b2 * d2) by (nonlinear_arith);
}

/// The square of a product is the product of the squares.
proof fn lemma_square_of_product(x: int, y: int)
    ensures
        (x * y) * (x * y) == (x * x) * (y * y),
{
    assert((x * y) * (x * y) == (x * x) * (y * y)) by (nonlinear_arith);
}

/// A step along the direction `v`, with no part across it, does not turn
/// back.
pub proof fn lemma_parallel_step_goes_forward(a: Vec2, v: Vec2)
    requires
        a.perp_dot(v) == 0,
        a.dot(v) > 0,
    ensures
        !turns_back(a, v),
{
    lemma_lagrange(a, v);
    let d = a.dot(v);
    assert(d * d >= 0) by (nonlinear_arith);
}

/// The perpendicular dot product with `v` of a difference is the difference
/// of the perpendicular dot products.
proof fn lemma_perp_dot_minus(p: Vec2, q: Vec2, s: Vec2, v: Vec2)
    ensures
        p.minus(q).perp_dot(v) == p.minus(s).perp_dot(v) - q.minus(s).perp_dot(v),
{
    let (px, py, qx, qy, sx, sy, vx, vy) = (p.x, p.y, q.x, q.y, s.x, s.y, v.x, v.y);
    assert((px - qx) * vy - (py - qy) * vx == ((px - sx) * vy - (py - sy) * vx) - ((qx - sx) * vy
        - (qy - sy) * vx)) by (nonlinear_arith);
}

/// A quick, long trace whose interior samples all lie on the line from its
/// first sample to its last, and whose every step has a positive part along
/// that line, is a swipe from its first position to its last.
pub proof fn lemma_straight_forward_trace_is_swipe(trace: Seq<TouchPoint>)
    requires
        trace.len() >= 2,
        elapsed(trace) < SWIPE_MAX_MICROS,
        net(trace).norm_sq() > SWIPE_MIN_LENGTH * SWIPE_MIN_LENGTH,
        forall|i: int|
            0 < i < trace.len() - 1 ==> (#[trigger] trace[i]).pos@.minus(
                trace.first().pos@,
            ).perp_dot(net(trace)) == 0,
        forall|i: int|
            0 < i < trace.len() ==> (#[trigger] trace[i]).pos@.minus(trace[i - 1].pos@).dot(
                net(trace),
            ) > 0,
    ensures
        classify(trace) == Some(
            GestureView::Swipe { start: trace.first().pos@, end: trace.last().pos@ },
        ),
{
    let v = net(trace);
    let s = trace.first().pos@;
    assert(SWIPE_MIN_LENGTH * SWIPE_MIN_LENGTH > TAP_RADIUS * TAP_RADIUS) by (nonlinear_arith)
        requires
            SWIPE_MIN_LENGTH == 200_000,
            TAP_RADIUS == 10_000,
    ;
    assert(!tap_candidate(trace));
    assert(swipe_candidate(trace));
    assert forall|i: int| 0 <= i < trace.len() implies (#[trigger] trace[i]).pos@.minus(s).perp_dot(
        v,
    ) == 0 by {
        if i == 0 {
            assert(trace[0].pos@.minus(s) == Vec2 { x: 0, y: 0 });
            assert((Vec2 { x: 0, y: 0 }).perp_dot(v) == 0) by (nonlinear_arith);
        } else if i == trace.len() - 1 {
            assert(trace[i].pos@.minus(s) == v);
            assert(v.perp_dot(v) == 0) by (nonlinear_arith);
        }
    }
    assert forall|i: int| 0 < i < trace.len() implies !turns_back(
        #[trigger] trace[i].pos@.minus(trace[i - 1].pos@),
        v,
    ) by {
        lemma_perp_dot_minus(trace[i].pos@, trace[i - 1].pos@, s, v);
        assert(trace[i - 1].pos@.minus(s).perp_dot(v) == 0);
        assert(trace[i].pos@.minus(s).perp_dot(v) == 0);
        lemma_parallel_step_goes_forward(trace[i].pos@.minus(trace[i - 1].pos@), v);
    }
    assert(forward(trace));
    assert(straight(trace));
}

/// A trace with a step that turns back against the way from its first
/// sample to its last is never a swipe, however quick and long it is.
pub proof fn lemma_turning_back_is_no_swipe(trace: Seq<TouchPoint>, i: int)
    requires
        0 < i < trace.len(),
        turns_back(trace[i].pos@.minus(trace[i - 1].pos@), net(trace)),
    ensures
        !(classify(trace) matches Some(GestureView::Swipe { .. })),
{
    assert(!forward(trace));
}

/// Recognition is a function of the trace: any two results that it can give
/// for the same trace are the same gesture.
pub proof fn lemma_same_trace_same_gesture(
    a: Seq<TouchPoint>,
    b: Seq<TouchPoint>,
    first: Option<Gesture>,
    second: Option<Gesture>,
)
    requires
        a =~= b,
        first.deep_view() == classify(a),
        second.deep_view() == classify(b),
    ensures
        first == second,
{
    match (first, second) {
        (Some(Gesture::Tap(p)), Some(Gesture::Tap(q))) => {
            p.lemma_view_injective(q);
        },
        (
            Some(Gesture::Swipe { start: s1, end: e1 }),
            Some(Gesture::Swipe { start: s2, end: e2 }),
        ) => {
            s1.lemma_view_injective(s2);
            e1.lemma_view_injective(e2);
        },
        _ => {},
    }
}

} // verus!
