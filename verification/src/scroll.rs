//! Scrolling with momentum: an offset that never passes the top, and a
//! velocity that friction wears down to rest.

use crate::geometry::{div_toward_zero, Point, Vec2};
use vstd::prelude::*;

verus! {

/// What a vertical swipe adds to the velocity, in position units per frame.
pub const FLING_STEP: i64 = 100_000;

/// What one turn of the wheel adds to the offset, in position units.
pub const WHEEL_STEP: i64 = 30_000;

/// Of a hundred parts of the velocity, those that are left after a frame.
pub const FRICTION_PERCENT: i64 = 95;

/// A velocity of a smaller magnitude than this comes to rest.
pub const REST_BELOW: i64 = 100;

/// The mathematical content of a [`ScrollState`].
pub struct ScrollView {
    /// How far the content is moved down; never positive once a frame is done.
    pub offset: int,
    /// How far the offset moves each frame.
    pub velocity: int,
}

/// The magnitude of `x`.
pub open spec fn magnitude(x: int) -> int {
    if x >= 0 {
        x
    } else {
        -x
    }
}

/// The sign of `x`: -1, 0 or 1.
pub open spec fn signum(x: int) -> int {
    if x > 0 {
        1
    } else if x < 0 {
        -1
    } else {
        0
    }
}

/// The value of the 64-bit range that is closest to `x`.
pub open spec fn saturate(x: int) -> int {
    if x < i64::MIN {
        i64::MIN as int
    } else if x > i64::MAX {
        i64::MAX as int
    } else {
        x
    }
}

/// The velocity that friction leaves of `velocity` after one frame: 95
/// parts of a hundred, rounded toward zero, and rest where that is of a
/// smaller magnitude than `REST_BELOW`.
pub open spec fn decay(velocity: int) -> int {
    let slowed = div_toward_zero(velocity * FRICTION_PERCENT, 100);
    if magnitude(slowed) < REST_BELOW {
        0
    } else {
        slowed
    }
}

/// Whether a swipe along `dir` scrolls: whether it is more vertical than
/// horizontal.
pub open spec fn scrolls(dir: Vec2) -> bool {
    magnitude(dir.y) > magnitude(dir.x)
}

impl ScrollView {
    /// The state after a fling in the direction of `dy`.
    pub open spec fn fling(self, dy: int) -> ScrollView {
        ScrollView {
            offset: self.offset,
            velocity: saturate(self.velocity + signum(dy) * FLING_STEP),
        }
    }

    /// The state after a swipe from `start` to `end`: flung along the swipe
    /// if the swipe scrolls, unchanged otherwise.
    pub open spec fn swipe(self, start: Vec2, end: Vec2) -> ScrollView {
        if scrolls(end.minus(start)) {
            self.fling(end.y - start.y)
        } else {
            self
        }
    }

    /// The state after one frame in which the wheel turned by `wheel`.
    ///
    /// The wheel moves the offset by `WHEEL_STEP` in its direction, then the
    /// velocity moves it. An offset that would pass the top stops at the
    /// top and the content comes to rest; otherwise friction slows the
    /// velocity.
    pub open spec fn step(self, wheel: int) -> ScrollView {
        let wheeled = saturate(self.offset + signum(wheel) * WHEEL_STEP);
        let moved = saturate(wheeled + self.velocity);
        if moved > 0 {
            ScrollView { offset: 0, velocity: 0 }
        } else {
            ScrollView { offset: moved, velocity: decay(self.velocity) }
        }
    }

    /// The state after `frames` frames without a swipe or a turn of the wheel.
    pub open spec fn coast(self, frames: nat) -> ScrollView
        decreases frames,
    {
        if frames == 0 {
            self
        } else {
            self.coast((frames - 1) as nat).step(0)
        }
    }
}

/// Friction leaves a velocity of a smaller magnitude, and leaves rest at
/// rest.
pub proof fn lemma_decay_slows(velocity: int)
    ensures
        velocity != 0 ==> magnitude(decay(velocity)) < magnitude(velocity),
        velocity == 0 ==> decay(velocity) == 0,
        decay(velocity) == 0 || signum(decay(velocity)) == signum(velocity),
{
    let m = magnitude(velocity);
    assert(0 <= (m * 95) / 100 <= m && (m > 0 ==> (m * 95) / 100 < m)) by (nonlinear_arith)
        requires
            m >= 0,
    ;
    if velocity < 0 {
        assert(-velocity * FRICTION_PERCENT == -(velocity * FRICTION_PERCENT));
    }
}

/// After a frame the offset is never positive, whatever the state before.
pub proof fn lemma_step_stays_below_top(s: ScrollView, wheel: int)
    ensures
        s.step(wheel).offset <= 0,
{
}

/// In a frame without a swipe or a turn of the wheel, a velocity that is
/// not zero loses magnitude, and a velocity of zero stays zero.
pub proof fn lemma_coasting_slows(s: ScrollView)
    ensures
        s.velocity != 0 ==> magnitude(s.step(0).velocity) < magnitude(s.velocity),
        s.velocity == 0 ==> s.step(0).velocity == 0,
{
    lemma_decay_slows(s.velocity);
}

/// Left alone, the content comes to rest: after as many frames as the
/// magnitude of the velocity, and after any larger number, the velocity is
/// exactly zero.
pub proof fn lemma_coasting_stops(s: ScrollView, frames: nat)
    requires
        frames >= magnitude(s.velocity),
    ensures
        s.coast(frames).velocity == 0,
{
    lemma_coasting_bound(s, frames);
}

/// After `frames` frames of coasting, the magnitude of the velocity has
/// fallen by at least `frames`, or to zero.
proof fn lemma_coasting_bound(s: ScrollView, frames: nat)
    ensures
        magnitude(s.coast(frames).velocity) <= magnitude(s.velocity) - frames || s.coast(
            frames,
        ).velocity == 0,
    decreases frames,
{
    if frames > 0 {
        let before = s.coast((frames - 1) as nat);
        lemma_coasting_bound(s, (frames - 1) as nat);
        lemma_coasting_slows(before);
    }
}

/// The scroll position of one screen. The offset is never positive.
#[derive(Clone, Copy, Debug, PartialEq, Eq)]
pub struct ScrollState {
    offset: i64,
    velocity: i64,
}

impl View for ScrollState {
    type V = ScrollView;

    closed spec fn view(&self) -> ScrollView {
        ScrollView { offset: self.offset as int, velocity: self.velocity as int }
    }
}

/// The value of the 64-bit range that is closest to `x`.
fn saturated(x: i128) -> (r: i64)
    ensures
        r == saturate(x as int),
{
    if x < i64::MIN as i128 {
        i64::MIN
    } else if x > i64::MAX as i128 {
        i64::MAX
    } else {
        x as i64
    }
}

/// The sign of `x`: -1, 0 or 1.
fn sign_of(x: i64) -> (r: i128)
    ensures
        r == signum(x as int),
{
    if x > 0 {
        1
    } else if x < 0 {
        -1
    } else {
        0
    }
}

/// The velocity that friction leaves of `velocity` after one frame.
fn decayed(velocity: i64) -> (r: i64)
    ensures
        r == decay(velocity as int),
{
    assert(velocity * FRICTION_PERCENT == velocity * 95) by (nonlinear_arith)
        requires
            FRICTION_PERCENT == 95,
    ;
    let scaled: i128 = velocity as i128 * FRICTION_PERCENT as i128;
    let slowed: i128 = if scaled >= 0 {
        scaled / 100
    } else {
        -((-scaled) / 100)
    };
    proof {
        lemma_decay_slows(velocity as int);
    }
    if -(REST_BELOW as i128) < slowed && slowed < REST_BELOW as i128 {
        0
    } else {
        slowed as i64
    }
}

impl ScrollState {
    #[verifier::type_invariant]
    spec fn inv(self) -> bool {
        self.offset <= 0
    }

    /// Content at the top, at rest.
    pub fn new() -> (state: ScrollState)
        ensures
            state@ == (ScrollView { offset: 0, velocity: 0 }),
    {
        ScrollState { offset: 0, velocity: 0 }
    }

    /// How far the content is moved down, in position units.
    pub fn offset(&self) -> (r: i64)
        ensures
            r == self@.offset,
            r <= 0,
    {
        proof {
            use_type_invariant(self);
        }
        self.offset
    }

    /// How far the offset moves each frame, in position units.
    pub fn velocity(&self) -> (r: i64)
        ensures
            r == self@.velocity,
    {
        self.velocity
    }

    /// Takes in a swipe from `start` to `end`: a swipe that is more vertical
    /// than horizontal flings the content along.
    pub fn swipe(&mut self, start: Point, end: Point)
        ensures
            final(self)@ == old(self)@.swipe(start@, end@),
            final(self)@.offset <= 0,
    {
        proof {
            use_type_invariant(&*self);
        }
        let dir = end.sub(start);
        let dx = dir.dx();
        let dy = dir.dy();
        let ax = if dx >= 0 {
            dx
        } else {
            -dx
        };
        let ay = if dy >= 0 {
            dy
        } else {
            -dy
        };
        if ay > ax {
            self.velocity = saturated(self.velocity as i128 + sign_of(dy) * FLING_STEP as i128);
        }
    }

    /// Moves on by one frame in which the wheel turned by `wheel`.
    pub fn step(&mut self, wheel: i64)
        ensures
            final(self)@ == old(self)@.step(wheel as int),
            final(self)@.offset <= 0,
    {
        proof {
            use_type_invariant(&*self);
        }
        let wheeled = saturated(self.offset as i128 + sign_of(wheel) * WHEEL_STEP as i128);
        let moved = saturated(wheeled as i128 + self.velocity as i128);
        if moved > 0 {
            self.offset = 0;
            self.velocity = 0;
        } else {
            self.velocity = decayed(self.velocity);
            self.offset = moved;
        }
    }
}

} // verus!
